use ruxt_macros::route::{generate_routes, handler_reference, page_segments, url_path, RouteDescriptor};

fn strings(items: &[&str]) -> Vec<String> {
    items.iter().map(|s| s.to_string()).collect()
}

fn paths(items: &[&[&str]]) -> Vec<Vec<String>> {
    items.iter().map(|p| strings(p)).collect()
}

#[test]
fn top_level_index_is_root() {
    let routes = generate_routes(&paths(&[&["index.rs"]]));
    assert_eq!(routes, paths(&[&["index"]]));
    assert_eq!(url_path(&routes[0]), "/");
}

#[test]
fn nested_index_is_its_directory() {
    let routes = generate_routes(&paths(&[&["foo", "index.rs"]]));
    assert_eq!(routes, paths(&[&["foo", "index"]]));
    assert_eq!(url_path(&routes[0]), "/foo");
}

#[test]
fn nested_page_url() {
    let routes = generate_routes(&paths(&[&["foo", "bar.rs"]]));
    assert_eq!(url_path(&routes[0]), "/foo/bar");
}

#[test]
fn module_directory_yields_no_route() {
    assert_eq!(page_segments(&strings(&["mod", "thing.rs"])), None);
    assert!(generate_routes(&paths(&[&["mod", "thing.rs"]])).is_empty());
}

#[test]
fn module_file_yields_no_route() {
    assert_eq!(page_segments(&strings(&["foo", "mod.rs"])), None);
    assert_eq!(page_segments(&strings(&["mod.rs"])), None);
}

#[test]
fn non_source_files_are_ignored() {
    assert_eq!(page_segments(&strings(&["readme.md"])), None);
    assert_eq!(page_segments(&strings(&[".rs"])), None);
    assert_eq!(page_segments(&strings(&["foo", "rs"])), None);
    assert_eq!(page_segments(&strings(&[])), None);
}

#[test]
fn extension_is_stripped_from_last_segment_only() {
    assert_eq!(
        page_segments(&strings(&["a.rs", "b.c.rs"])),
        Some(strings(&["a.rs", "b.c"]))
    );
}

#[test]
fn index_only_counts_as_last_segment() {
    assert_eq!(url_path(&strings(&["index", "about"])), "/index/about");
}

#[test]
fn empty_segments_give_root() {
    assert_eq!(url_path(&strings(&[])), "/");
}

#[test]
fn handler_reference_wraps_segments() {
    assert_eq!(
        handler_reference(&strings(&["foo", "bar"])),
        strings(&["pages", "foo", "bar", "page"])
    );
    assert_eq!(
        handler_reference(&strings(&["index"])),
        strings(&["pages", "index", "page"])
    );
}

#[test]
fn builder_is_deterministic() {
    let segs = strings(&["blog", "index"]);
    let a = RouteDescriptor::new(segs.clone());
    let b = RouteDescriptor::new(segs.clone());
    assert_eq!(a, b);
    assert_eq!(a.url_path, "/blog");
    assert_eq!(a.handler_reference, strings(&["pages", "blog", "index", "page"]));
}

#[test]
fn walk_order_is_kept_and_modules_dropped() {
    let files = paths(&[
        &["index.rs"],
        &["about.rs"],
        &["mod.rs"],
        &["blog", "index.rs"],
        &["blog", "mod", "helpers.rs"],
        &["blog", "post.rs"],
    ]);
    let routes = generate_routes(&files);
    assert_eq!(
        routes,
        paths(&[&["index"], &["about"], &["blog", "index"], &["blog", "post"]])
    );
    assert_eq!(routes.len(), files.len() - 2);
}
