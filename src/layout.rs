//! The signature augmenter: handlers gain a parameter that carries the
//! optional layout.
use vstd::prelude::*;
use crate::names::{
    data_type, data_type_string, framework_crate, framework_crate_string, framework_web,
    framework_web_string, layout_param, layout_param_string, layout_type, layout_type_string,
    library_crate, library_crate_string, option_type, option_type_string,
};
use crate::route::views;

verus! {

/// A type: a path, with generic arguments on its last segment.
#[derive(Debug, PartialEq, Eq)]
pub struct TypeExpr {
    pub path: Vec<String>,
    pub args: Vec<TypeExpr>,
}

/// The mathematical value of a [`TypeExpr`].
pub struct TypeExprV {
    pub path: Seq<Seq<char>>,
    pub args: Seq<TypeExprV>,
}

pub open spec fn type_view(t: &TypeExpr) -> TypeExprV
    decreases t,
{
    TypeExprV { path: views(t.path@), args: types_view(t.args@) }
}

pub open spec fn types_view(s: Seq<TypeExpr>) -> Seq<TypeExprV>
    decreases s,
{
    if s.len() == 0 {
        Seq::empty()
    } else {
        types_view(s.subrange(0, s.len() - 1)).push(type_view(&s[s.len() - 1]))
    }
}

impl View for TypeExpr {
    type V = TypeExprV;

    open spec fn view(&self) -> TypeExprV {
        type_view(self)
    }
}

/// A function parameter. Those that the augmenter leaves alone are `Kept`,
/// told apart by the caller through `id`.
#[derive(Debug, PartialEq, Eq)]
pub enum Param {
    Kept(usize),
    Typed(String, TypeExpr),
}

/// The mathematical value of a [`Param`].
pub enum ParamV {
    Kept(usize),
    Typed(Seq<char>, TypeExprV),
}

impl View for Param {
    type V = ParamV;

    open spec fn view(&self) -> ParamV {
        match self {
            Param::Kept(id) => ParamV::Kept(*id),
            Param::Typed(n, t) => ParamV::Typed(n@, t@),
        }
    }
}

pub open spec fn params_view(s: Seq<Param>) -> Seq<ParamV> {
    s.map_values(|p: Param| p@)
}

/// A type path without generic arguments.
pub open spec fn plain_type(path: Seq<Seq<char>>) -> TypeExprV {
    TypeExprV { path, args: Seq::empty() }
}

/// `framework::web::Data<Option<library::Layout>>`: the shared container of
/// an optional layout handle.
pub open spec fn layout_type_v() -> TypeExprV {
    TypeExprV {
        path: seq![framework_crate(), framework_web(), data_type()],
        args: seq![
            TypeExprV {
                path: seq![option_type()],
                args: seq![plain_type(seq![library_crate(), layout_type()])],
            },
        ],
    }
}

/// The parameter `layout: framework::web::Data<Option<library::Layout>>`.
pub open spec fn layout_param_v() -> ParamV {
    ParamV::Typed(layout_param(), layout_type_v())
}

/// A type from its path and generic arguments.
fn type_expr(path: Vec<String>, args: Vec<TypeExpr>) -> (r: TypeExpr)
    ensures
        r@ == (TypeExprV { path: views(path@), args: types_view(args@) }),
{
    TypeExpr { path, args }
}

proof fn lemma_types_view_one(t: TypeExpr, s: Seq<TypeExpr>)
    requires
        s == seq![t],
    ensures
        types_view(s) == seq![t@],
{
    assert(s.subrange(0, 0) =~= Seq::<TypeExpr>::empty());
    assert(types_view(Seq::<TypeExpr>::empty()) =~= Seq::<TypeExprV>::empty());
    assert(types_view(s) =~= seq![t@]);
}

/// The type of the layout parameter.
pub fn layout_type_expr() -> (r: TypeExpr)
    ensures
        r@ == layout_type_v(),
{
    let mut inner_path: Vec<String> = Vec::new();
    inner_path.push(library_crate_string());
    inner_path.push(layout_type_string());
    let inner = type_expr(inner_path, Vec::new());
    proof {
        assert(views(inner_path@) =~= seq![library_crate(), layout_type()]);
        assert(types_view(Seq::<TypeExpr>::empty()) =~= Seq::<TypeExprV>::empty());
    }
    let mut option_path: Vec<String> = Vec::new();
    option_path.push(option_type_string());
    let mut option_args: Vec<TypeExpr> = Vec::new();
    option_args.push(inner);
    proof {
        assert(views(option_path@) =~= seq![option_type()]);
        lemma_types_view_one(inner, option_args@);
    }
    let option = type_expr(option_path, option_args);
    let mut data_path: Vec<String> = Vec::new();
    data_path.push(framework_crate_string());
    data_path.push(framework_web_string());
    data_path.push(data_type_string());
    let mut data_args: Vec<TypeExpr> = Vec::new();
    data_args.push(option);
    proof {
        assert(views(data_path@) =~= seq![framework_crate(), framework_web(), data_type()]);
        lemma_types_view_one(option, data_args@);
    }
    type_expr(data_path, data_args)
}

/// The added parameter.
pub fn get_layout_arg() -> (r: Param)
    ensures
        r@ == layout_param_v(),
{
    Param::Typed(layout_param_string(), layout_type_expr())
}

/// The parameters of a handler with the layout parameter added after the
/// others, which keep their order and types.
pub fn augment_signature(params: Vec<Param>) -> (r: Vec<Param>)
    ensures
        params_view(r@) == params_view(params@).push(layout_param_v()),
{
    let mut r = params;
    let ghost prev = r@;
    r.push(get_layout_arg());
    proof {
        assert(params_view(r@) =~= params_view(prev).push(layout_param_v()));
    }
    r
}

} // verus!
