//! A model of the expressions that the bootstrap rewriter reads and builds.
use vstd::prelude::*;
use crate::route::views;

verus! {

/// An expression. Nodes that the rewriter neither reads nor builds are
/// `Other`: the caller tells them apart by `id` and keeps what they hold,
/// while their sub-expressions stand here in order.
#[derive(Debug, PartialEq, Eq)]
pub enum Expr {
    /// A plain path such as `a::b::c`, by its segments.
    Path(Vec<String>),
    /// A string literal.
    Lit(String),
    /// A call: callee, then arguments.
    Call(Box<Expr>, Vec<Expr>),
    /// A method call: receiver, method name, arguments.
    MethodCall(Box<Expr>, String, Vec<Expr>),
    /// A closure: `id` stands for its head (captures, parameters), then its body.
    Closure(usize, Box<Expr>),
    /// Any other expression, with its sub-expressions.
    Other(usize, Vec<Expr>),
}

/// The mathematical value of an [`Expr`].
pub enum ExprV {
    Path(Seq<Seq<char>>),
    Lit(Seq<char>),
    Call(Box<ExprV>, Seq<ExprV>),
    MethodCall(Box<ExprV>, Seq<char>, Seq<ExprV>),
    Closure(usize, Box<ExprV>),
    Other(usize, Seq<ExprV>),
}

pub open spec fn expr_view(e: &Expr) -> ExprV
    decreases e,
{
    match e {
        Expr::Path(p) => ExprV::Path(views(p@)),
        Expr::Lit(s) => ExprV::Lit(s@),
        Expr::Call(f, args) => ExprV::Call(Box::new(expr_view(f)), exprs_view(args@)),
        Expr::MethodCall(r, m, args) => ExprV::MethodCall(
            Box::new(expr_view(r)),
            m@,
            exprs_view(args@),
        ),
        Expr::Closure(h, b) => ExprV::Closure(*h, Box::new(expr_view(b))),
        Expr::Other(id, cs) => ExprV::Other(*id, exprs_view(cs@)),
    }
}

pub open spec fn exprs_view(s: Seq<Expr>) -> Seq<ExprV>
    decreases s,
{
    if s.len() == 0 {
        Seq::empty()
    } else {
        exprs_view(s.subrange(0, s.len() - 1)).push(expr_view(&s[s.len() - 1]))
    }
}

impl View for Expr {
    type V = ExprV;

    open spec fn view(&self) -> ExprV {
        expr_view(self)
    }
}

} // verus!
