use ruxt_macros::rewrite::{contains_bootstrap, is_bootstrap_call, rewrite_bootstrap, synthesize_chain};
use ruxt_macros::syntax::Expr;

fn strings(items: &[&str]) -> Vec<String> {
    items.iter().map(|s| s.to_string()).collect()
}

fn path(items: &[&str]) -> Expr {
    Expr::Path(strings(items))
}

fn app_new() -> Expr {
    Expr::Call(Box::new(path(&["App", "new"])), vec![])
}

fn server_new(arg: Expr) -> Expr {
    Expr::Call(Box::new(path(&["HttpServer", "new"])), vec![arg])
}

fn route(receiver: Expr, url: &str, handler: &[&str]) -> Expr {
    let get = Expr::Call(Box::new(path(&["actix_web", "web", "get"])), vec![]);
    let to = Expr::MethodCall(Box::new(get), "to".to_string(), vec![path(handler)]);
    Expr::MethodCall(
        Box::new(receiver),
        "route".to_string(),
        vec![Expr::Lit(url.to_string()), to],
    )
}

fn route_links(e: &Expr) -> usize {
    match e {
        Expr::MethodCall(r, m, _) if m == "route" => 1 + route_links(r),
        _ => 0,
    }
}

#[test]
fn chain_appends_routes_in_order() {
    let routes = vec![strings(&["index"]), strings(&["foo", "bar"])];
    let body = synthesize_chain(app_new(), &routes);
    let expected = route(
        route(app_new(), "/", &["pages", "index", "page"]),
        "/foo/bar",
        &["pages", "foo", "bar", "page"],
    );
    assert_eq!(body, expected);
}

#[test]
fn chain_without_routes_keeps_body() {
    assert_eq!(synthesize_chain(app_new(), &vec![]), app_new());
}

#[test]
fn closure_bootstrap_is_rewritten() {
    let tree = Expr::Other(7, vec![Expr::Other(8, vec![server_new(Expr::Closure(3, Box::new(app_new())))])]);
    assert!(contains_bootstrap(&tree));
    let routes = vec![strings(&["index"])];
    let (out, found) = rewrite_bootstrap(tree, &routes);
    assert!(found);
    let expected = Expr::Other(
        7,
        vec![Expr::Other(
            8,
            vec![server_new(Expr::Closure(
                3,
                Box::new(route(app_new(), "/", &["pages", "index", "page"])),
            ))],
        )],
    );
    assert_eq!(out, expected);
}

#[test]
fn named_factory_argument_is_left_alone() {
    let tree = Expr::Other(1, vec![server_new(path(&["app"]))]);
    assert!(!is_bootstrap_call(&server_new(path(&["app"]))));
    assert!(!contains_bootstrap(&tree));
    let (out, found) = rewrite_bootstrap(tree, &vec![strings(&["index"])]);
    assert!(!found);
    assert_eq!(out, Expr::Other(1, vec![server_new(path(&["app"]))]));
}

#[test]
fn call_without_arguments_is_no_bootstrap() {
    let call = Expr::Call(Box::new(path(&["HttpServer", "new"])), vec![]);
    assert!(!is_bootstrap_call(&call));
}

#[test]
fn other_factories_are_ignored() {
    let call = Expr::Call(
        Box::new(path(&["Server", "new"])),
        vec![Expr::Closure(0, Box::new(app_new()))],
    );
    assert!(!is_bootstrap_call(&call));
    let call = Expr::Call(
        Box::new(path(&["HttpServer", "build"])),
        vec![Expr::Closure(0, Box::new(app_new()))],
    );
    assert!(!is_bootstrap_call(&call));
}

#[test]
fn only_first_bootstrap_is_rewritten() {
    let first = server_new(Expr::Closure(1, Box::new(app_new())));
    let second = server_new(Expr::Closure(2, Box::new(app_new())));
    let tree = Expr::Other(0, vec![first, second]);
    let (out, found) = rewrite_bootstrap(tree, &vec![strings(&["a"])]);
    assert!(found);
    let expected = Expr::Other(
        0,
        vec![
            server_new(Expr::Closure(1, Box::new(route(app_new(), "/a", &["pages", "a", "page"])))),
            server_new(Expr::Closure(2, Box::new(app_new()))),
        ],
    );
    assert_eq!(out, expected);
}

#[test]
fn bootstrap_inside_method_chain_is_found() {
    let server = server_new(Expr::Closure(4, Box::new(app_new())));
    let bound = Expr::MethodCall(Box::new(server), "bind".to_string(), vec![Expr::Lit("x".to_string())]);
    let (out, found) = rewrite_bootstrap(bound, &vec![strings(&["x"]), strings(&["y"])]);
    assert!(found);
    match out {
        Expr::MethodCall(recv, m, _) => {
            assert_eq!(m, "bind");
            match *recv {
                Expr::Call(_, args) => match &args[0] {
                    Expr::Closure(4, body) => assert_eq!(route_links(body), 2),
                    other => panic!("unexpected argument {:?}", other),
                },
                other => panic!("unexpected receiver {:?}", other),
            }
        }
        other => panic!("unexpected tree {:?}", other),
    }
}

#[test]
fn route_count_matches_pages() {
    let files: Vec<Vec<String>> = vec![
        strings(&["index.rs"]),
        strings(&["mod.rs"]),
        strings(&["a", "b.rs"]),
        strings(&["c.rs"]),
    ];
    let routes = ruxt_macros::route::generate_routes(&files);
    let body = synthesize_chain(app_new(), &routes);
    assert_eq!(route_links(&body), 3);
}
