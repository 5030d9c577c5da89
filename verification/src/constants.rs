//! The binary operators of the language.

use vstd::prelude::*;

use crate::ast::Deparse;

verus! {

/// A binary operator of the expression grammar.
#[derive(Debug, Clone, Copy, PartialEq, Eq, Structural)]
pub enum Op {
    Add,
    Sub,
    Mul,
    Div,
    Eq,
    Ne,
    Le,
    Ge,
    Lt,
    Gt,
    Or,
    And,
}

/// The surface spelling of each operator.
pub open spec fn spec_deparse_op(op: Op) -> Seq<char> {
    match op {
        Op::Add => seq!['+'],
        Op::Sub => seq!['-'],
        Op::Mul => seq!['*'],
        Op::Div => seq!['/'],
        Op::Eq => seq!['=', '='],
        Op::Ne => seq!['!', '='],
        Op::Le => seq!['<', '='],
        Op::Ge => seq!['>', '='],
        Op::Lt => seq!['<'],
        Op::Gt => seq!['>'],
        Op::Or => seq!['|', '|'],
        Op::And => seq!['&', '&'],
    }
}

impl Deparse for Op {
    open spec fn spec_deparse(&self) -> Seq<char> {
        spec_deparse_op(*self)
    }

    fn deparse(&self) -> (r: String) {
        match self {
            Op::Add => {
                let r = String::from_str("+");
                proof {
                    reveal_strlit("+");
                    assert(r@ =~= spec_deparse_op(Op::Add));
                }
                r
            },
            Op::Sub => {
                let r = String::from_str("-");
                proof {
                    reveal_strlit("-");
                    assert(r@ =~= spec_deparse_op(Op::Sub));
                }
                r
            },
            Op::Mul => {
                let r = String::from_str("*");
                proof {
                    reveal_strlit("*");
                    assert(r@ =~= spec_deparse_op(Op::Mul));
                }
                r
            },
            Op::Div => {
                let r = String::from_str("/");
                proof {
                    reveal_strlit("/");
                    assert(r@ =~= spec_deparse_op(Op::Div));
                }
                r
            },
            Op::Eq => {
                let r = String::from_str("==");
                proof {
                    reveal_strlit("==");
                    assert(r@ =~= spec_deparse_op(Op::Eq));
                }
                r
            },
            Op::Ne => {
                let r = String::from_str("!=");
                proof {
                    reveal_strlit("!=");
                    assert(r@ =~= spec_deparse_op(Op::Ne));
                }
                r
            },
            Op::Le => {
                let r = String::from_str("<=");
                proof {
                    reveal_strlit("<=");
                    assert(r@ =~= spec_deparse_op(Op::Le));
                }
                r
            },
            Op::Ge => {
                let r = String::from_str(">=");
                proof {
                    reveal_strlit(">=");
                    assert(r@ =~= spec_deparse_op(Op::Ge));
                }
                r
            },
            Op::Lt => {
                let r = String::from_str("<");
                proof {
                    reveal_strlit("<");
                    assert(r@ =~= spec_deparse_op(Op::Lt));
                }
                r
            },
            Op::Gt => {
                let r = String::from_str(">");
                proof {
                    reveal_strlit(">");
                    assert(r@ =~= spec_deparse_op(Op::Gt));
                }
                r
            },
            Op::Or => {
                let r = String::from_str("||");
                proof {
                    reveal_strlit("||");
                    assert(r@ =~= spec_deparse_op(Op::Or));
                }
                r
            },
            Op::And => {
                let r = String::from_str("&&");
                proof {
                    reveal_strlit("&&");
                    assert(r@ =~= spec_deparse_op(Op::And));
                }
                r
            },
        }
    }
}

} // verus!
