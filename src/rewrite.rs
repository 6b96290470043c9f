//! The bootstrap rewriter: finds the server bootstrap call and appends one
//! route registration per page to the body of its closure.
use vstd::prelude::*;
use crate::names::{
    constructor, factory_type, framework_crate, framework_crate_string, framework_web,
    framework_web_string, get_function, get_function_string, route_method,
    route_method_string, to_method, to_method_string, constructor_string,
    factory_type_string,
};
use crate::route::{
    all_source_files, discovered, handler_reference, handler_reference_of, lemma_discovered_count,
    module_file_count, nested_views, url_path, url_path_of, views,
};
use crate::syntax::{expr_view, exprs_view, Expr, ExprV};
use vstd::std_specs::vec::axiom_vec_index_decreases;

verus! {

/// Whether the name `n` is among the segments of the path `p`.
pub open spec fn contains_name(p: Seq<Seq<char>>, n: Seq<char>) -> bool {
    exists|i: int| 0 <= i < p.len() && p[i] == n
}

/// A call whose callee path names the factory type and its constructor, and
/// whose first argument is a closure.
pub open spec fn is_bootstrap(e: ExprV) -> bool {
    match e {
        ExprV::Call(f, args) => match *f {
            ExprV::Path(p) => contains_name(p, factory_type()) && contains_name(p, constructor())
                && args.len() > 0 && args[0] is Closure,
            _ => false,
        },
        _ => false,
    }
}

/// Whether `e` or some expression inside it is a bootstrap call.
pub open spec fn has_site(e: ExprV) -> bool
    decreases e,
{
    is_bootstrap(e) || match e {
        ExprV::Call(f, args) => has_site(*f) || any_site(args),
        ExprV::MethodCall(r, _, args) => has_site(*r) || any_site(args),
        ExprV::Closure(_, b) => has_site(*b),
        ExprV::Other(_, cs) => any_site(cs),
        _ => false,
    }
}

/// Whether some expression of `s` holds a bootstrap call.
pub open spec fn any_site(s: Seq<ExprV>) -> bool
    decreases s,
{
    s.len() > 0 && (has_site(s[0]) || any_site(s.subrange(1, s.len() as int)))
}

/// `framework::web::get().to(handler)`: a GET registration of a handler.
pub open spec fn handler_wrapper(handler: Seq<Seq<char>>) -> ExprV {
    ExprV::MethodCall(
        Box::new(
            ExprV::Call(
                Box::new(ExprV::Path(seq![framework_crate(), framework_web(), get_function()])),
                Seq::empty(),
            ),
        ),
        to_method(),
        seq![ExprV::Path(handler)],
    )
}

/// `receiver.route("<url path>", <GET registration of the handler>)`.
pub open spec fn route_call(receiver: ExprV, segs: Seq<Seq<char>>) -> ExprV {
    ExprV::MethodCall(
        Box::new(receiver),
        route_method(),
        seq![ExprV::Lit(url_path_of(segs)), handler_wrapper(handler_reference_of(segs))],
    )
}

/// The left fold of `route_call` over the routes, starting from `body`.
pub open spec fn chain(body: ExprV, routes: Seq<Seq<Seq<char>>>) -> ExprV
    decreases routes.len(),
{
    if routes.len() == 0 {
        body
    } else {
        route_call(chain(body, routes.drop_last()), routes.last())
    }
}

/// The number of `.route(..)` links at the end of a method-call chain.
pub open spec fn route_links(e: ExprV) -> nat
    decreases e,
{
    match e {
        ExprV::MethodCall(r, m, _) => if m == route_method() {
            1 + route_links(*r)
        } else {
            0
        },
        _ => 0,
    }
}

pub proof fn lemma_exprs_view(s: Seq<Expr>)
    ensures
        exprs_view(s).len() == s.len(),
        forall|i: int| 0 <= i < s.len() ==> #[trigger] exprs_view(s)[i] == expr_view(&s[i]),
    decreases s.len(),
{
    if s.len() > 0 {
        lemma_exprs_view(s.subrange(0, s.len() - 1));
    }
}

/// The GET registration of the handler with the given reference.
fn generate_web_get_to_path(handler: Vec<String>) -> (r: Expr)
    ensures
        r@ == handler_wrapper(views(handler@)),
{
    let mut path: Vec<String> = Vec::new();
    path.push(framework_crate_string());
    path.push(framework_web_string());
    path.push(get_function_string());
    let get = Expr::Call(Box::new(Expr::Path(path)), Vec::new());
    let mut args: Vec<Expr> = Vec::new();
    args.push(Expr::Path(handler));
    let r = Expr::MethodCall(Box::new(get), to_method_string(), args);
    proof {
        let pv = seq![framework_crate(), framework_web(), get_function()];
        assert(views(path@) =~= pv);
        assert(exprs_view(Seq::<Expr>::empty()) =~= Seq::<ExprV>::empty());
        lemma_exprs_view(args@);
        assert(exprs_view(args@) =~= seq![ExprV::Path(views(handler@))]);
        let gv = ExprV::Call(Box::new(ExprV::Path(pv)), Seq::empty());
        assert(expr_view(&Expr::Path(path)) == ExprV::Path(pv));
        assert(expr_view(&get) == gv);
    }
    r
}

/// The expression `receiver.route(..)` that registers the page with the
/// given segments.
pub fn generate_route_method_call(receiver: Expr, segments: &Vec<String>) -> (r: Expr)
    ensures
        r@ == route_call(receiver@, views(segments@)),
{
    let url = url_path(segments);
    let handler = generate_web_get_to_path(handler_reference(segments));
    let mut args: Vec<Expr> = Vec::new();
    args.push(Expr::Lit(url));
    args.push(handler);
    proof {
        lemma_exprs_view(args@);
        assert(exprs_view(args@) =~= seq![
            ExprV::Lit(url_path_of(views(segments@))),
            handler_wrapper(handler_reference_of(views(segments@))),
        ]);
    }
    Expr::MethodCall(Box::new(receiver), route_method_string(), args)
}

/// The closure body `body` followed by one route registration per entry of
/// `routes`, in order.
pub fn synthesize_chain(body: Expr, routes: &Vec<Vec<String>>) -> (r: Expr)
    ensures
        r@ == chain(body@, nested_views(routes@)),
{
    let ghost b = body@;
    let mut cur = body;
    let mut i: usize = 0;
    while i < routes.len()
        invariant
            i <= routes@.len(),
            cur@ == chain(b, nested_views(routes@).subrange(0, i as int)),
        decreases routes@.len() - i,
    {
        proof {
            let next = nested_views(routes@).subrange(0, i + 1);
            assert(next.drop_last() =~= nested_views(routes@).subrange(0, i as int));
            assert(next.last() == views(routes@[i as int]@));
        }
        cur = generate_route_method_call(cur, &routes[i]);
        i = i + 1;
    }
    proof {
        assert(nested_views(routes@).subrange(0, routes@.len() as int) =~= nested_views(routes@));
    }
    cur
}

/// The tree with the first bootstrap call, in pre-order, given the route
/// chain as the body of its closure; every other node is kept.
pub open spec fn rewrite(e: ExprV, routes: Seq<Seq<Seq<char>>>) -> ExprV
    decreases e,
{
    if is_bootstrap(e) {
        match e {
            ExprV::Call(f, args) => match args[0] {
                ExprV::Closure(h, b) => ExprV::Call(
                    f,
                    args.update(0, ExprV::Closure(h, Box::new(chain(*b, routes)))),
                ),
                _ => e,
            },
            _ => e,
        }
    } else {
        match e {
            ExprV::Call(f, args) => ExprV::Call(
                Box::new(rewrite(*f, routes)),
                rewrite_seq(args, has_site(*f), routes),
            ),
            ExprV::MethodCall(r, m, args) => ExprV::MethodCall(
                Box::new(rewrite(*r, routes)),
                m,
                rewrite_seq(args, has_site(*r), routes),
            ),
            ExprV::Closure(h, b) => ExprV::Closure(h, Box::new(rewrite(*b, routes))),
            ExprV::Other(id, cs) => ExprV::Other(id, rewrite_seq(cs, false, routes)),
            _ => e,
        }
    }
}

/// `rewrite` on each expression of `s` up to and including the first that
/// holds a bootstrap call; none at all where `found` says one came before.
pub open spec fn rewrite_seq(s: Seq<ExprV>, found: bool, routes: Seq<Seq<Seq<char>>>) -> Seq<
    ExprV,
>
    decreases s,
{
    if s.len() == 0 {
        Seq::empty()
    } else {
        seq![
            if found {
                s[0]
            } else {
                rewrite(s[0], routes)
            },
        ] + rewrite_seq(s.subrange(1, s.len() as int), found || has_site(s[0]), routes)
    }
}

/// Whether the string `n` is a segment of `p`.
fn has_segment(p: &Vec<String>, n: &String) -> (r: bool)
    ensures
        r == contains_name(views(p@), n@),
{
    let mut i: usize = 0;
    while i < p.len()
        invariant
            i <= p@.len(),
            forall|k: int| 0 <= k < i ==> views(p@)[k] != n@,
        decreases p@.len() - i,
    {
        if p[i] == *n {
            proof {
                assert(views(p@)[i as int] == n@);
            }
            return true;
        }
        i = i + 1;
    }
    false
}

/// Whether `e` itself is the server bootstrap call.
pub fn is_bootstrap_call(e: &Expr) -> (r: bool)
    ensures
        r == is_bootstrap(e@),
{
    match e {
        Expr::Call(f, args) => match &**f {
                        Expr::Path(p) => {
                proof {
                    lemma_exprs_view(args@);
                    assert(expr_view(&**f) == ExprV::Path(views(p@)));
                }
                let named = has_segment(p, &factory_type_string()) && has_segment(
                    p,
                    &constructor_string(),
                );
                if !named || args.len() == 0 {
                    return false;
                }
                match &args[0] {
                    Expr::Closure(_, _) => {
                        proof {
                            assert(exprs_view(args@)[0] is Closure);
                        }
                        true
                    },
                    _ => {
                        proof {
                            assert(!(exprs_view(args@)[0] is Closure));
                        }
                        false
                    },
                }
            },
            _ => {
                proof {
                    assert(!(expr_view(&**f) is Path));
                }
                false
            },
        },
        _ => false,
    }
}

/// The tree `e` with the first bootstrap call in pre-order rewritten: the
/// body of its closure becomes the route chain over `routes`. Also whether
/// there was such a call; where there was none, the tree comes back as it was.
pub fn rewrite_bootstrap(e: Expr, routes: &Vec<Vec<String>>) -> (r: (Expr, bool))
    ensures
        r.0@ == rewrite(e@, nested_views(routes@)),
        r.1 == has_site(e@),
    decreases e,
{
    let ghost ev = e@;
    let ghost rv = nested_views(routes@);
    if is_bootstrap_call(&e) {
        match e {
            Expr::Call(f, mut args) => {
                proof {
                    lemma_exprs_view(args@);
                }
                let ghost av = exprs_view(args@);
                let first = args.remove(0);
                match first {
                    Expr::Closure(h, b) => {
                        let ghost bv = expr_view(&*b);
                        let body = synthesize_chain(*b, routes);
                        let c = Expr::Closure(h, Box::new(body));
                        args.insert(0, c);
                        proof {
                            lemma_exprs_view(args@);
                            assert(av[0] == ExprV::Closure(h, Box::new(bv)));
                            assert(exprs_view(args@) =~= av.update(
                                0,
                                ExprV::Closure(h, Box::new(chain(bv, rv))),
                            ));
                        }
                        (Expr::Call(f, args), true)
                    },
                    _ => {
                        proof {
                            assert(av[0] is Closure);
                        }
                        (first, true)
                    },
                }
            },
            _ => (e, true),
        }
    } else {
        match e {
            Expr::Call(f, args) => {
                let (f2, found) = rewrite_bootstrap(*f, routes);
                let (a2, found2) = rewrite_all(args, found, routes);
                (Expr::Call(Box::new(f2), a2), found2)
            },
            Expr::MethodCall(recv, m, args) => {
                let (r2, found) = rewrite_bootstrap(*recv, routes);
                let (a2, found2) = rewrite_all(args, found, routes);
                (Expr::MethodCall(Box::new(r2), m, a2), found2)
            },
            Expr::Closure(h, b) => {
                let (b2, found) = rewrite_bootstrap(*b, routes);
                (Expr::Closure(h, Box::new(b2)), found)
            },
            Expr::Other(id, cs) => {
                let (c2, found) = rewrite_all(cs, false, routes);
                (Expr::Other(id, c2), found)
            },
            Expr::Path(p) => (Expr::Path(p), false),
            Expr::Lit(l) => (Expr::Lit(l), false),
        }
    }
}

/// `rewrite_bootstrap` on each expression of `v` up to and including the
/// first that holds a bootstrap call, none where `found`; also whether a
/// bootstrap call was found, before or in `v`.
fn rewrite_all(v: Vec<Expr>, found: bool, routes: &Vec<Vec<String>>) -> (r: (Vec<Expr>, bool))
    ensures
        exprs_view(r.0@) == rewrite_seq(exprs_view(v@), found, nested_views(routes@)),
        r.1 == (found || any_site(exprs_view(v@))),
    decreases v,
{
    let ghost vg = v;
    let ghost vv = exprs_view(v@);
    let ghost rv = nested_views(routes@);
    let ghost n = v@.len();
    let mut rest = v;
    let mut out: Vec<Expr> = Vec::new();
    let mut f = found;
    proof {
        lemma_exprs_view(out@);
        assert(exprs_view(out@) + vv =~= vv);
        assert(rest@.subrange(0, n as int) =~= rest@);
    }
    while rest.len() > 0
        invariant
            n == vg@.len(),
            vv == exprs_view(vg@),
            rv == nested_views(routes@),
            rest@.len() <= n,
            vg == v,
            rest@ == vg@.subrange(n - rest@.len(), n as int),
            exprs_view(out@) + rewrite_seq(exprs_view(rest@), f, rv) == rewrite_seq(vv, found, rv),
            (f || any_site(exprs_view(rest@))) == (found || any_site(vv)),
        decreases rest@.len(),
    {
        let ghost k = n - rest@.len();
        let ghost rs = exprs_view(rest@);
        proof {
            lemma_exprs_view(rest@);
        }
        let x = rest.remove(0);
        proof {
            lemma_exprs_view(rest@);
            assert(x == vg@[k]);
            axiom_vec_index_decreases(vg, k);
            assert(exprs_view(rest@) =~= rs.subrange(1, rs.len() as int));
            assert(rest@ =~= vg@.subrange(n - rest@.len(), n as int));
        }
        let ghost xv = expr_view(&x);
        let ghost prev = out@;
        let ghost old_f = f;
        if f {
            out.push(x);
        } else {
            proof {
                assert(decreases_to!(vg => x));
            }
            let (x2, fx) = rewrite_bootstrap(x, routes);
            out.push(x2);
            f = fx;
        }
        proof {
            lemma_exprs_view(out@);
            lemma_exprs_view(prev);
            assert(exprs_view(out@) =~= exprs_view(prev).push(expr_view(&out@.last())));
            assert(rs[0] == xv);
            assert(rewrite_seq(rs, old_f, rv) == seq![
                if old_f {
                    rs[0]
                } else {
                    rewrite(rs[0], rv)
                },
            ] + rewrite_seq(rs.subrange(1, rs.len() as int), old_f || has_site(rs[0]), rv));
            assert(any_site(rs) == (has_site(rs[0]) || any_site(rs.subrange(1, rs.len() as int))));
            assert(f == (old_f || has_site(xv)));
            assert(exprs_view(out@) + rewrite_seq(exprs_view(rest@), f, rv) =~= exprs_view(prev)
                + rewrite_seq(rs, old_f, rv));
        }
    }
    proof {
        assert(exprs_view(rest@) =~= Seq::<ExprV>::empty());
        assert(exprs_view(out@) + Seq::<ExprV>::empty() =~= exprs_view(out@));
    }
    (out, f)
}

/// Each route appends one `.route(..)` link to the chain.
pub proof fn lemma_chain_links(body: ExprV, routes: Seq<Seq<Seq<char>>>)
    ensures
        route_links(chain(body, routes)) == route_links(body) + routes.len(),
    decreases routes.len(),
{
    if routes.len() > 0 {
        lemma_chain_links(body, routes.drop_last());
    }
}

/// Over a page tree of source files only, the rewritten closure body holds
/// one `.route(..)` link per file, less the files inside a support module.
pub proof fn lemma_route_count(body: ExprV, paths: Seq<Seq<Seq<char>>>)
    requires
        all_source_files(paths),
    ensures
        route_links(chain(body, discovered(paths))) == route_links(body) + paths.len()
            - module_file_count(paths),
{
    lemma_discovered_count(paths);
    lemma_chain_links(body, discovered(paths));
}

/// A tree without a bootstrap call comes out of the rewriter unchanged.
pub proof fn lemma_no_site_unchanged(e: ExprV, routes: Seq<Seq<Seq<char>>>)
    requires
        !has_site(e),
    ensures
        rewrite(e, routes) == e,
    decreases e,
{
    match e {
        ExprV::Call(f, args) => {
            lemma_no_site_unchanged(*f, routes);
            lemma_no_site_seq_unchanged(args, false, routes);
        },
        ExprV::MethodCall(r, _, args) => {
            lemma_no_site_unchanged(*r, routes);
            lemma_no_site_seq_unchanged(args, false, routes);
        },
        ExprV::Closure(_, b) => {
            lemma_no_site_unchanged(*b, routes);
        },
        ExprV::Other(_, cs) => {
            lemma_no_site_seq_unchanged(cs, false, routes);
        },
        _ => {},
    }
}

/// Expressions after a rewritten one, or without a bootstrap call, are kept.
pub proof fn lemma_no_site_seq_unchanged(s: Seq<ExprV>, found: bool, routes: Seq<Seq<Seq<char>>>)
    requires
        found || !any_site(s),
    ensures
        rewrite_seq(s, found, routes) == s,
    decreases s,
{
    if s.len() > 0 {
        let tail = s.subrange(1, s.len() as int);
        if !found {
            lemma_no_site_unchanged(s[0], routes);
        }
        lemma_no_site_seq_unchanged(tail, found || has_site(s[0]), routes);
        assert(seq![s[0]] + tail =~= s);
    }
}

/// A factory call whose first argument is no closure (a named function, say)
/// is no bootstrap call.
pub proof fn lemma_non_closure_argument(p: Seq<Seq<char>>, args: Seq<ExprV>)
    requires
        args.len() > 0,
        !(args[0] is Closure),
    ensures
        !is_bootstrap(ExprV::Call(Box::new(ExprV::Path(p)), args)),
{
}

/// Whether `e` or an expression inside it is the server bootstrap call.
pub fn contains_bootstrap(e: &Expr) -> (r: bool)
    ensures
        r == has_site(e@),
    decreases e,
{
    if is_bootstrap_call(e) {
        return true;
    }
    match e {
        Expr::Call(f, args) => contains_bootstrap(&**f) || any_bootstrap(args),
        Expr::MethodCall(recv, _, args) => contains_bootstrap(&**recv) || any_bootstrap(args),
        Expr::Closure(_, b) => contains_bootstrap(&**b),
        Expr::Other(_, cs) => any_bootstrap(cs),
        _ => false,
    }
}

/// Whether some expression of `v` holds the server bootstrap call.
fn any_bootstrap(v: &Vec<Expr>) -> (r: bool)
    ensures
        r == any_site(exprs_view(v@)),
    decreases v,
{
    let ghost vv = exprs_view(v@);
    proof {
        lemma_exprs_view(v@);
    }
    let mut i: usize = v.len();
    let mut found = false;
    while i > 0
        invariant
            i <= v@.len(),
            vv == exprs_view(v@),
            vv.len() == v@.len(),
            forall|k: int| 0 <= k < v@.len() ==> #[trigger] vv[k] == expr_view(&v@[k]),
            found == any_site(vv.subrange(i as int, vv.len() as int)),
        decreases i,
    {
        i = i - 1;
        proof {
            axiom_vec_index_decreases(*v, i as int);
            assert(decreases_to!(v => v[i as int]));
        }
        let here = contains_bootstrap(&v[i]);
        proof {
            let t = vv.subrange(i as int, vv.len() as int);
            assert(t[0] == vv[i as int]);
            assert(t.subrange(1, t.len() as int) =~= vv.subrange(i + 1, vv.len() as int));
        }
        found = here || found;
    }
    proof {
        assert(vv.subrange(0, vv.len() as int) =~= vv);
    }
    found
}

} // verus!
