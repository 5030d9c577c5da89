//! The abstract syntax tree and its pretty-printer.
//!
//! Each syntax-tree type has a mathematical view (`ExprV`, `FunctionV`, ...)
//! in which strings are sequences of characters; contracts throughout the
//! crate speak of these views.  The [`Deparse`] trait reconstructs canonical
//! surface syntax from a tree.

use vstd::prelude::*;

use crate::constants::Op;

verus! {

/// A primitive type of the language: there are no others.
#[derive(Debug, Clone, Copy, PartialEq, Eq, Structural)]
pub enum Type {
    Int,
    Void,
}

/// A formal parameter of a function: a type and a name.
#[derive(Debug, PartialEq)]
pub struct Arg {
    pub ty: Type,
    pub name: String,
}

/// An expression or statement of the language.  Statements are expressions
/// here: a function body is a sequence of `Expr` values.
#[derive(Debug, PartialEq)]
pub enum Expr {
    /// `return e`: stores into the function's shared return slot.
    Return { expr: Box<Expr> },
    /// An unsigned 32-bit integer literal.
    Int { value: u32 },
    /// A binary operation, printed fully parenthesized.
    BinOp { lhs: Box<Expr>, rhs: Box<Expr>, op: Op },
    /// A conditional with a then branch and an (possibly empty) else branch.
    If { cond: Box<Expr>, then: Vec<Expr>, otherwise: Vec<Expr> },
    /// A reference to a declared variable or parameter.
    Var { name: String },
    /// A declaration of a local variable, with an optional initializer.
    Decl { ty: Type, name: String, init: Option<Box<Expr>> },
    /// An assignment to a declared variable or parameter.
    Assign { name: String, rhs: Box<Expr> },
    /// A raw 32-bit load through an integer treated as an address.
    Deref { addr: Box<Expr> },
}

/// A function: return type, body, name, and parameter list.
#[derive(Debug, PartialEq)]
pub struct Function {
    pub ret_type: Type,
    pub exprs: Vec<Expr>,
    pub name: String,
    pub args: Vec<Arg>,
}

/// A whole program: a sequence of functions.
#[derive(Debug, PartialEq)]
pub struct Program {
    pub functions: Vec<Function>,
}

/// The mathematical view of an [`Arg`].
pub struct ArgV {
    pub ty: Type,
    pub name: Seq<char>,
}

/// The mathematical view of an [`Expr`].
pub enum ExprV {
    Return { expr: Box<ExprV> },
    Int { value: u32 },
    BinOp { lhs: Box<ExprV>, rhs: Box<ExprV>, op: Op },
    If { cond: Box<ExprV>, then: Seq<ExprV>, otherwise: Seq<ExprV> },
    Var { name: Seq<char> },
    Decl { ty: Type, name: Seq<char>, init: Option<Box<ExprV>> },
    Assign { name: Seq<char>, rhs: Box<ExprV> },
    Deref { addr: Box<ExprV> },
}

/// The mathematical view of a [`Function`].
pub struct FunctionV {
    pub ret_type: Type,
    pub exprs: Seq<ExprV>,
    pub name: Seq<char>,
    pub args: Seq<ArgV>,
}

/// The mathematical view of a [`Program`].
pub struct ProgramV {
    pub functions: Seq<FunctionV>,
}

pub open spec fn view_expr(e: Expr) -> ExprV
    decreases e,
{
    match e {
        Expr::Return { expr } => ExprV::Return { expr: Box::new(view_expr(*expr)) },
        Expr::Int { value } => ExprV::Int { value },
        Expr::BinOp { lhs, rhs, op } => ExprV::BinOp {
            lhs: Box::new(view_expr(*lhs)),
            rhs: Box::new(view_expr(*rhs)),
            op,
        },
        Expr::If { cond, then, otherwise } => ExprV::If {
            cond: Box::new(view_expr(*cond)),
            then: view_expr_seq(then@),
            otherwise: view_expr_seq(otherwise@),
        },
        Expr::Var { name } => ExprV::Var { name: name@ },
        Expr::Decl { ty, name, init } => ExprV::Decl {
            ty,
            name: name@,
            init: match init {
                Option::Some(e0) => Option::Some(Box::new(view_expr(*e0))),
                Option::None => Option::None,
            },
        },
        Expr::Assign { name, rhs } => ExprV::Assign { name: name@, rhs: Box::new(view_expr(*rhs)) },
        Expr::Deref { addr } => ExprV::Deref { addr: Box::new(view_expr(*addr)) },
    }
}

pub open spec fn view_expr_seq(s: Seq<Expr>) -> Seq<ExprV>
    decreases s,
{
    if s.len() == 0 {
        Seq::empty()
    } else {
        view_expr_seq(s.drop_last()).push(view_expr(s.last()))
    }
}

/// The view of a sequence of expressions is the sequence of their views.
pub proof fn lemma_view_expr_seq(s: Seq<Expr>)
    ensures
        view_expr_seq(s).len() == s.len(),
        forall|i: int| 0 <= i < s.len() ==> view_expr_seq(s)[i] == view_expr(#[trigger] s[i]),
    decreases s.len(),
{
    if s.len() > 0 {
        lemma_view_expr_seq(s.drop_last());
        assert forall|i: int| 0 <= i < s.len() implies view_expr_seq(s)[i] == view_expr(
            #[trigger] s[i],
        ) by {
            if i < s.len() - 1 {
                assert(view_expr_seq(s)[i] == view_expr_seq(s.drop_last())[i]);
                assert(s.drop_last()[i] == s[i]);
            }
        }
    }
}

/// The view of a one-element sequence.
pub proof fn lemma_view_expr_seq_singleton(e: Expr)
    ensures
        view_expr_seq(seq![e]) == seq![view_expr(e)],
{
    assert(seq![e].drop_last() =~= Seq::<Expr>::empty());
    assert(seq![e].last() == e);
    assert(view_expr_seq(Seq::<Expr>::empty()) =~= Seq::<ExprV>::empty());
    assert(view_expr_seq(seq![e]) =~= seq![view_expr(e)]);
}

/// Prepending one expression prepends its view.
pub proof fn lemma_view_expr_seq_cons(e: Expr, t: Seq<Expr>)
    ensures
        view_expr_seq(seq![e] + t) == seq![view_expr(e)] + view_expr_seq(t),
{
    lemma_view_expr_seq(seq![e] + t);
    lemma_view_expr_seq(t);
    let u = seq![e] + t;
    assert forall|i: int| 0 <= i < u.len() implies view_expr_seq(u)[i] == (seq![view_expr(e)]
        + view_expr_seq(t))[i] by {
        assert(view_expr_seq(u)[i] == view_expr(u[i]));
        if i == 0 {
            assert(u[0] == e);
        } else {
            assert(u[i] == t[i - 1]);
            assert(view_expr_seq(t)[i - 1] == view_expr(t[i - 1]));
        }
    }
    assert(view_expr_seq(seq![e] + t) =~= seq![view_expr(e)] + view_expr_seq(t));
}

/// Appending one expression appends its view.
pub proof fn lemma_view_expr_seq_push(s: Seq<Expr>, e: Expr)
    ensures
        view_expr_seq(s.push(e)) == view_expr_seq(s).push(view_expr(e)),
{
    assert(s.push(e).drop_last() =~= s);
    assert(s.push(e).last() == e);
}

pub open spec fn view_arg(a: Arg) -> ArgV {
    ArgV { ty: a.ty, name: a.name@ }
}

pub open spec fn view_arg_seq(s: Seq<Arg>) -> Seq<ArgV> {
    Seq::new(s.len(), |i: int| view_arg(s[i]))
}

pub open spec fn view_function(f: Function) -> FunctionV {
    FunctionV {
        ret_type: f.ret_type,
        exprs: view_expr_seq(f.exprs@),
        name: f.name@,
        args: view_arg_seq(f.args@),
    }
}

pub open spec fn view_function_seq(s: Seq<Function>) -> Seq<FunctionV> {
    Seq::new(s.len(), |i: int| view_function(s[i]))
}

pub open spec fn view_program(p: Program) -> ProgramV {
    ProgramV { functions: view_function_seq(p.functions@) }
}

impl View for Expr {
    type V = ExprV;

    open spec fn view(&self) -> ExprV {
        view_expr(*self)
    }
}

impl View for Arg {
    type V = ArgV;

    open spec fn view(&self) -> ArgV {
        view_arg(*self)
    }
}

impl View for Function {
    type V = FunctionV;

    open spec fn view(&self) -> FunctionV {
        view_function(*self)
    }
}

impl View for Program {
    type V = ProgramV;

    open spec fn view(&self) -> ProgramV {
        view_program(*self)
    }
}

/// Reconstruction of canonical surface syntax from a syntax tree.
pub trait Deparse {
    /// The sequence of characters the printer produces.
    spec fn spec_deparse(&self) -> Seq<char>;

    /// Print the value as surface syntax.
    fn deparse(&self) -> (r: String)
        ensures
            r@ == self.spec_deparse(),
    ;
}

} // verus!
