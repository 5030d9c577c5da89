//! The structural pretty-printer: canonical surface syntax from a tree.
//!
//! Binary operations always print fully parenthesized, so the printed form
//! is unambiguous whatever the grammar's precedence rules do.  The printed
//! text of each node is defined once as a specification function over the
//! tree's view; the executable printer is proved to produce exactly it.

use vstd::prelude::*;

use crate::ast::{
    Arg, ArgV, Deparse, Expr, ExprV, Function, FunctionV, Program, ProgramV, Type, view_arg,
    view_arg_seq, view_expr, view_expr_seq, view_function, view_function_seq, view_program,
    lemma_view_expr_seq,
};
use crate::constants::spec_deparse_op;
use crate::numerals::{dec_seq_of, u32_to_string};

verus! {

/// The printed form of a type name.
pub open spec fn spec_deparse_type(t: Type) -> Seq<char> {
    match t {
        Type::Int => "int"@,
        Type::Void => "void"@,
    }
}

/// The printed form of a parameter: its type, a space, its name.
pub open spec fn spec_deparse_arg(a: ArgV) -> Seq<char> {
    spec_deparse_type(a.ty) + " "@ + a.name
}

/// The printed form of an expression or statement.
pub open spec fn spec_deparse_expr(e: ExprV) -> Seq<char>
    decreases e,
{
    match e {
        ExprV::Int { value } => dec_seq_of(value as nat),
        ExprV::BinOp { lhs, rhs, op } => "("@ + spec_deparse_expr(*lhs) + " "@ + spec_deparse_op(
            op,
        ) + " "@ + spec_deparse_expr(*rhs) + ")"@,
        ExprV::Return { expr } => "return "@ + spec_deparse_expr(*expr),
        ExprV::If { cond, then, otherwise } => "if ("@ + spec_deparse_expr(*cond) + ") {\n"@
            + spec_deparse_exprs(then) + ";\n} else {\n"@ + spec_deparse_exprs(otherwise)
            + ";\n}"@,
        ExprV::Decl { ty, name, init: Some(e0) } => spec_deparse_type(ty) + " "@ + name + " = "@
            + spec_deparse_expr(*e0),
        ExprV::Decl { ty, name, init: None } => spec_deparse_type(ty) + " "@ + name,
        ExprV::Assign { name, rhs } => name + " = "@ + spec_deparse_expr(*rhs),
        ExprV::Var { name } => name,
        ExprV::Deref { addr } => "*"@ + spec_deparse_expr(*addr),
    }
}

/// Statements joined by `;` and a line break.
pub open spec fn spec_deparse_exprs(es: Seq<ExprV>) -> Seq<char>
    decreases es,
{
    if es.len() == 0 {
        Seq::empty()
    } else if es.len() == 1 {
        spec_deparse_expr(es[0])
    } else {
        spec_deparse_exprs(es.drop_last()) + ";\n"@ + spec_deparse_expr(es.last())
    }
}

/// Parameters joined by a comma and a space.
pub open spec fn spec_deparse_args(s: Seq<ArgV>) -> Seq<char>
    decreases s.len(),
{
    if s.len() == 0 {
        Seq::empty()
    } else if s.len() == 1 {
        spec_deparse_arg(s[0])
    } else {
        spec_deparse_args(s.drop_last()) + ", "@ + spec_deparse_arg(s.last())
    }
}

/// The printed form of a function.
pub open spec fn spec_deparse_function(f: FunctionV) -> Seq<char> {
    spec_deparse_type(f.ret_type) + " "@ + f.name + "("@ + spec_deparse_args(f.args) + ") {\n"@
        + spec_deparse_exprs(f.exprs) + " ;\n}"@
}

/// Functions joined by a line break.
pub open spec fn spec_deparse_functions(s: Seq<FunctionV>) -> Seq<char>
    decreases s.len(),
{
    if s.len() == 0 {
        Seq::empty()
    } else if s.len() == 1 {
        spec_deparse_function(s[0])
    } else {
        spec_deparse_functions(s.drop_last()) + "\n"@ + spec_deparse_function(s.last())
    }
}

/// The printed form of a whole program.
pub open spec fn spec_deparse_program(p: ProgramV) -> Seq<char> {
    spec_deparse_functions(p.functions)
}

/// One piece of the round-trip law, proved for every input: a printed type
/// name parses back to the same type and consumes exactly its own
/// characters, whatever text follows it.
pub proof fn lemma_type_round_trip(t: Type, rest: Seq<char>)
    ensures
        crate::grammar::spec_parse_type(spec_deparse_type(t) + rest, 0) == Ok::<
            (nat, Type),
            Seq<char>,
        >((spec_deparse_type(t).len(), t)),
{
    reveal_strlit("int");
    reveal_strlit("void");
    let s = spec_deparse_type(t) + rest;
    match t {
        Type::Int => {
            assert(s[0] == 'i');
            assert(crate::grammar::comment_delta(s, 0) == 0);
            assert(crate::grammar::spaces_delta(s, 0) == 0);
            assert(crate::grammar::skip_delta(s, 0) == 0);
            assert(s.subrange(0, 3) =~= seq!['i', 'n', 't']);
            assert(crate::grammar::match_at(s, 0, seq!['i', 'n', 't']));
        },
        Type::Void => {
            assert(s[0] == 'v');
            assert(crate::grammar::comment_delta(s, 0) == 0);
            assert(crate::grammar::spaces_delta(s, 0) == 0);
            assert(crate::grammar::skip_delta(s, 0) == 0);
            assert(s.subrange(0, 3)[0] == 'v');
            assert(!crate::grammar::match_at(s, 0, seq!['i', 'n', 't'])) by {
                if s.subrange(0, 3) == seq!['i', 'n', 't'] {
                    assert(s.subrange(0, 3)[0] == 'i');
                }
            }
            assert(s.subrange(0, 4) =~= seq!['v', 'o', 'i', 'd']);
            assert(crate::grammar::match_at(s, 0, seq!['v', 'o', 'i', 'd']));
        },
    }
}

/// A further piece of the round-trip law, proved for every input: a printed
/// identifier scans back to the same name and consumes exactly its own
/// characters, provided it is nonempty and the text that follows does not
/// begin with a further identifier character.
pub proof fn lemma_name_round_trip(nm: Seq<char>, rest: Seq<char>)
    requires
        nm.len() > 0,
        forall|j: int| 0 <= j < nm.len() ==> crate::grammar::is_letter_char(#[trigger] nm[j]),
        rest.len() == 0 || !crate::grammar::is_letter_char(rest[0]),
    ensures
        crate::grammar::name_step(nm + rest, 0) == (nm.len(), nm),
{
    let s = nm + rest;
    assert(forall|j: int| 0 <= j < nm.len() ==> #[trigger] s[j] == nm[j]);
    assert(crate::grammar::is_letter_char(s[0]));
    crate::grammar::lemma_no_trivia(s, 0);
    assert forall|j: int|
        0 <= j < nm.len() implies crate::grammar::is_letter_char(#[trigger] s[0 + j]) by {
        assert(s[j] == nm[j]);
    }
    crate::grammar::lemma_letters_run(s, 0, nm.len());
    assert(s.subrange(0, nm.len() as int) =~= nm);
}

/// Another piece of the round-trip law, proved for every input: a printed
/// integer-literal expression parses back as a factor to the same literal
/// and consumes exactly its own characters.  The text that follows may be
/// anything that does not extend the literal: it must not begin with a
/// further digit, and the numeral `0` must not be followed by an `x`, which
/// would turn it into a hexadecimal prefix.
#[verifier::rlimit(100)]
pub proof fn lemma_int_literal_round_trip(v: u32, rest: Seq<char>)
    requires
        rest.len() == 0 || !crate::numerals::is_dec_digit(rest[0]),
        v == 0 ==> rest.len() == 0 || rest[0] != 'x',
    ensures
        crate::grammar::spec_parse_factor(spec_deparse_expr(ExprV::Int { value: v }) + rest, 0)
            == Ok::<(nat, ExprV), Seq<char>>(
            (spec_deparse_expr(ExprV::Int { value: v }).len(), ExprV::Int { value: v }),
        ),
{
    let ds = dec_seq_of(v as nat);
    let s = ds + rest;
    crate::numerals::lemma_dec_seq_of_val(v as nat);
    assert(forall|j: int| 0 <= j < ds.len() ==> #[trigger] s[j] == ds[j]);
    assert(crate::numerals::is_dec_digit(s[0]));
    crate::grammar::lemma_no_trivia(s, 0);
    // No parenthesis opens here, so the factor takes the literal branch.
    assert(!crate::grammar::match_at(s, 0, seq!['('])) by {
        if s.subrange(0, 1) == seq!['('] {
            assert(s.subrange(0, 1)[0] == s[0]);
        }
    }
    // No hexadecimal prefix: either the first digit is not `0`, or the
    // character after the `0` is not an `x`.
    assert(!crate::grammar::match_at(s, 0, seq!['0', 'x'])) by {
        if 2 <= s.len() && s.subrange(0, 2) == seq!['0', 'x'] {
            assert(s[0] == '0');
            assert(s[1] == 'x');
            if v > 0 {
                crate::numerals::lemma_dec_seq_of_no_leading_zero(v as nat);
            } else {
                assert(ds.len() == 1);
                assert(rest[0] == 'x');
            }
        }
    }
    // The digit run is exactly the printed numeral.
    assert forall|j: int|
        0 <= j < ds.len() implies crate::numerals::is_dec_digit(#[trigger] s[0 + j]) by {
        assert(s[j] == ds[j]);
        assert(crate::numerals::is_dec_digit(ds[j]));
    }
    crate::grammar::lemma_digits_run(s, 0, ds.len());
    assert(s.subrange(0, ds.len() as int) =~= ds);
    assert(crate::numerals::dec_val(ds) == v);
}

/// The round-trip law at the expression level, proved for every literal: a
/// printed integer-literal expression, standing alone, parses back as a
/// full expression to the same literal, consuming the whole text.
#[verifier::rlimit(100)]
pub proof fn lemma_literal_expr_round_trip(v: u32)
    ensures
        crate::grammar::spec_parse_expr(spec_deparse_expr(ExprV::Int { value: v }), 0) == Ok::<
            (nat, ExprV),
            Seq<char>,
        >((spec_deparse_expr(ExprV::Int { value: v }).len(), ExprV::Int { value: v })),
{
    let ds = dec_seq_of(v as nat);
    crate::numerals::lemma_dec_seq_of_val(v as nat);
    assert(ds + Seq::<char>::empty() =~= ds);
    lemma_int_literal_round_trip(v, Seq::<char>::empty());
    // Past the end of the text nothing can be skipped and no operator can
    // match, so every higher precedence level passes the literal through.
    assert(crate::grammar::skip_delta(ds, ds.len()) == 0);
    assert(forall|pat: Seq<char>|
        pat.len() > 0 ==> !crate::grammar::match_at(ds, ds.len() + 0, pat));
}

impl Deparse for Type {
    open spec fn spec_deparse(&self) -> Seq<char> {
        spec_deparse_type(*self)
    }

    fn deparse(&self) -> (r: String) {
        match self {
            Type::Int => String::from_str("int"),
            Type::Void => String::from_str("void"),
        }
    }
}

impl Deparse for Arg {
    open spec fn spec_deparse(&self) -> Seq<char> {
        spec_deparse_arg(view_arg(*self))
    }

    fn deparse(&self) -> (r: String) {
        let mut s = self.ty.deparse();
        s.append(" ");
        s.append(self.name.as_str());
        s
    }
}

/// Print one expression or statement.
fn deparse_expr(e: &Expr) -> (r: String)
    ensures
        r@ == spec_deparse_expr(view_expr(*e)),
    decreases *e,
{
    match e {
        Expr::Int { value } => u32_to_string(*value),
        Expr::BinOp { lhs, rhs, op } => {
            let mut s = String::from_str("(");
            s.append(deparse_expr(lhs).as_str());
            s.append(" ");
            s.append(op.deparse().as_str());
            s.append(" ");
            s.append(deparse_expr(rhs).as_str());
            s.append(")");
            s
        },
        Expr::Return { expr } => {
            let mut s = String::from_str("return ");
            s.append(deparse_expr(expr).as_str());
            s
        },
        Expr::If { cond, then, otherwise } => {
            let mut s = String::from_str("if (");
            s.append(deparse_expr(cond).as_str());
            s.append(") {\n");
            s.append(deparse_exprs(then).as_str());
            s.append(";\n} else {\n");
            s.append(deparse_exprs(otherwise).as_str());
            s.append(";\n}");
            s
        },
        Expr::Decl { ty, name, init } => {
            let mut s = ty.deparse();
            s.append(" ");
            s.append(name.as_str());
            match init {
                Some(e0) => {
                    s.append(" = ");
                    s.append(deparse_expr(e0).as_str());
                },
                None => {},
            }
            s
        },
        Expr::Assign { name, rhs } => {
            let mut s = String::new();
            s.append(name.as_str());
            s.append(" = ");
            s.append(deparse_expr(rhs).as_str());
            s
        },
        Expr::Var { name } => {
            let mut s = String::new();
            s.append(name.as_str());
            s
        },
        Expr::Deref { addr } => {
            let mut s = String::from_str("*");
            s.append(deparse_expr(addr).as_str());
            s
        },
    }
}

/// Print a statement sequence, statements joined by `;` and a line break.
fn deparse_exprs(v: &Vec<Expr>) -> (r: String)
    ensures
        r@ == spec_deparse_exprs(view_expr_seq(v@)),
    decreases v@,
{
    let ghost ws = view_expr_seq(v@);
    proof {
        lemma_view_expr_seq(v@);
    }
    let mut s = String::new();
    let mut i: usize = 0;
    while i < v.len()
        invariant
            ws == view_expr_seq(v@),
            ws.len() == v@.len(),
            forall|q: int| 0 <= q < v@.len() ==> ws[q] == view_expr(#[trigger] v@[q]),
            0 <= i <= v@.len(),
            s@ == spec_deparse_exprs(ws.take(i as int)),
        decreases v@.len() - i,
    {
        if i > 0 {
            s.append(";\n");
        }
        s.append(deparse_expr(&v[i]).as_str());
        proof {
            assert(ws.take(i as int + 1).drop_last() =~= ws.take(i as int));
            assert(ws.take(i as int + 1).last() == ws[i as int]);
            if i == 0 {
                assert(spec_deparse_exprs(ws.take(1)) == spec_deparse_expr(ws[0]));
                assert(s@ =~= spec_deparse_exprs(ws.take(1)));
            }
        }
        i = i + 1;
    }
    proof {
        assert(ws.take(v@.len() as int) =~= ws);
    }
    s
}

/// Print a parameter list, parameters joined by a comma and a space.
fn deparse_args(v: &Vec<Arg>) -> (r: String)
    ensures
        r@ == spec_deparse_args(view_arg_seq(v@)),
{
    let ghost ws = view_arg_seq(v@);
    let mut s = String::new();
    let mut i: usize = 0;
    while i < v.len()
        invariant
            ws == view_arg_seq(v@),
            0 <= i <= v@.len(),
            s@ == spec_deparse_args(ws.take(i as int)),
        decreases v@.len() - i,
    {
        if i > 0 {
            s.append(", ");
        }
        s.append(v[i].deparse().as_str());
        proof {
            assert(ws.take(i as int + 1).drop_last() =~= ws.take(i as int));
            assert(ws.take(i as int + 1).last() == ws[i as int]);
            if i == 0 {
                assert(spec_deparse_args(ws.take(1)) == spec_deparse_arg(ws[0]));
                assert(s@ =~= spec_deparse_args(ws.take(1)));
            }
        }
        i = i + 1;
    }
    proof {
        assert(ws.take(v@.len() as int) =~= ws);
    }
    s
}

impl Deparse for Expr {
    open spec fn spec_deparse(&self) -> Seq<char> {
        spec_deparse_expr(view_expr(*self))
    }

    fn deparse(&self) -> (r: String) {
        deparse_expr(self)
    }
}

impl Deparse for Function {
    open spec fn spec_deparse(&self) -> Seq<char> {
        spec_deparse_function(view_function(*self))
    }

    fn deparse(&self) -> (r: String) {
        let mut s = self.ret_type.deparse();
        s.append(" ");
        s.append(self.name.as_str());
        s.append("(");
        s.append(deparse_args(&self.args).as_str());
        s.append(") {\n");
        s.append(deparse_exprs(&self.exprs).as_str());
        s.append(" ;\n}");
        s
    }
}

impl Deparse for Program {
    open spec fn spec_deparse(&self) -> Seq<char> {
        spec_deparse_program(view_program(*self))
    }

    fn deparse(&self) -> (r: String) {
        let ghost ws = view_function_seq(self.functions@);
        let mut s = String::new();
        let mut i: usize = 0;
        while i < self.functions.len()
            invariant
                ws == view_function_seq(self.functions@),
                0 <= i <= self.functions@.len(),
                s@ == spec_deparse_functions(ws.take(i as int)),
            decreases self.functions@.len() - i,
        {
            if i > 0 {
                s.append("\n");
            }
            s.append(self.functions[i].deparse().as_str());
            proof {
                assert(ws.take(i as int + 1).drop_last() =~= ws.take(i as int));
                assert(ws.take(i as int + 1).last() == ws[i as int]);
                if i == 0 {
                    assert(spec_deparse_functions(ws.take(1)) == spec_deparse_function(ws[0]));
                    assert(s@ =~= spec_deparse_functions(ws.take(1)));
                }
            }
            i = i + 1;
        }
        proof {
            assert(ws.take(self.functions@.len() as int) =~= ws);
        }
        s
    }
}

} // verus!
