//! Route descriptors: from the location of a page file to the URL it serves
//! and the path of the handler that serves it.
use vstd::prelude::*;
use vstd::string::StrSliceExecFns;
use crate::names::{
    index_marker, index_marker_string, module_marker, module_marker_string, page_handler,
    page_handler_string, pages_root, pages_root_string, source_suffix,
};

verus! {

/// The character sequences of a sequence of strings.
pub open spec fn views(v: Seq<String>) -> Seq<Seq<char>> {
    v.map_values(|s: String| s@)
}

/// The segments that make up the URL: a last `index` segment stands for its
/// directory, and a last segment left empty is dropped.
pub open spec fn url_segments(segs: Seq<Seq<char>>) -> Seq<Seq<char>> {
    let t = if segs.len() > 0 && segs.last() == index_marker() {
        segs.update(segs.len() - 1, Seq::empty())
    } else {
        segs
    };
    if t.len() > 0 && t.last().len() == 0 {
        t.drop_last()
    } else {
        t
    }
}

/// Each segment preceded by a slash, in order.
pub open spec fn slash_joined(segs: Seq<Seq<char>>) -> Seq<char>
    decreases segs.len(),
{
    if segs.len() == 0 {
        Seq::empty()
    } else {
        slash_joined(segs.drop_last()) + seq!['/'] + segs.last()
    }
}

/// `"/"` followed by the URL segments joined with `"/"`.
pub open spec fn url_path_of(segs: Seq<Seq<char>>) -> Seq<char> {
    let u = url_segments(segs);
    if u.len() == 0 {
        seq!['/']
    } else {
        slash_joined(u)
    }
}

/// The fully qualified handler path: `pages`, the segments, then `page`.
pub open spec fn handler_reference_of(segs: Seq<Seq<char>>) -> Seq<Seq<char>> {
    seq![pages_root()] + segs + seq![page_handler()]
}

/// Whether some segment is the module marker.
pub open spec fn is_module_path(segs: Seq<Seq<char>>) -> bool {
    exists|i: int| 0 <= i < segs.len() && segs[i] == module_marker()
}

/// A file name with a non-empty stem and the source extension.
pub open spec fn is_source_name(name: Seq<char>) -> bool {
    name.len() > source_suffix().len() && name.subrange(
        name.len() - source_suffix().len(),
        name.len() as int,
    ) == source_suffix()
}

/// A file name without its source extension.
pub open spec fn stem_of(name: Seq<char>) -> Seq<char> {
    name.subrange(0, name.len() - source_suffix().len())
}

/// A file path with the extension taken off its last component.
pub open spec fn stemmed(path: Seq<Seq<char>>) -> Seq<Seq<char>> {
    path.update(path.len() - 1, stem_of(path.last()))
}

/// The route segments of a file, given its path below the page root
/// (directories, then the file name); none for a file that is no page.
pub open spec fn page_segments_of(path: Seq<Seq<char>>) -> Option<Seq<Seq<char>>> {
    if path.len() > 0 && is_source_name(path.last()) {
        let segs = stemmed(path);
        if is_module_path(segs) {
            None
        } else {
            Some(segs)
        }
    } else {
        None
    }
}

/// The route segments of the pages among `paths`, in the order given.
pub open spec fn discovered(paths: Seq<Seq<Seq<char>>>) -> Seq<Seq<Seq<char>>>
    decreases paths.len(),
{
    if paths.len() == 0 {
        Seq::empty()
    } else {
        let rest = discovered(paths.drop_last());
        match page_segments_of(paths.last()) {
            Some(s) => rest.push(s),
            None => rest,
        }
    }
}

/// The views of a list of string lists.
pub open spec fn nested_views(v: Seq<Vec<String>>) -> Seq<Seq<Seq<char>>> {
    v.map_values(|p: Vec<String>| views(p@))
}

/// The URL path of a page with the given segments.
pub fn url_path(segments: &Vec<String>) -> (r: String)
    ensures
        r@ == url_path_of(views(segments@)),
{
    let ghost s = views(segments@);
    let n = segments.len();
    let mut end: usize = n;
    if n > 0 {
        let index = index_marker_string();
        if segments[n - 1] == index || segments[n - 1].as_str().unicode_len() == 0 {
            end = n - 1;
        }
    }
    proof {
        assert(url_segments(s) =~= s.subrange(0, end as int));
    }
    let mut r = String::new();
    let mut i: usize = 0;
    while i < end
        invariant
            s == views(segments@),
            end <= segments@.len(),
            i <= end,
            r@ == slash_joined(s.subrange(0, i as int)),
        decreases end - i,
    {
        proof {
            reveal_strlit("/");
            assert(s.subrange(0, i + 1).drop_last() =~= s.subrange(0, i as int));
        }
        r.append("/");
        r.append(segments[i].as_str());
        i = i + 1;
    }
    if end == 0 {
        proof {
            reveal_strlit("/");
        }
        r = String::from_str("/");
    }
    r
}

/// The handler reference of a page with the given segments.
pub fn handler_reference(segments: &Vec<String>) -> (r: Vec<String>)
    ensures
        views(r@) == handler_reference_of(views(segments@)),
{
    let mut r: Vec<String> = Vec::new();
    r.push(pages_root_string());
    proof {
        assert(r@[0]@ =~= pages_root());
        assert(views(r@) =~= seq![pages_root()] + views(segments@).subrange(0, 0));
    }
    let mut i: usize = 0;
    while i < segments.len()
        invariant
            i <= segments@.len(),
            views(r@) == seq![pages_root()] + views(segments@).subrange(0, i as int),
        decreases segments@.len() - i,
    {
        let ghost prev = r@;
        r.push(segments[i].clone());
        proof {
            assert(r@ == prev.push(segments@[i as int]));
            assert(views(r@) =~= views(prev).push(segments@[i as int]@));
            assert(views(segments@).subrange(0, i + 1) =~= views(segments@).subrange(
                0,
                i as int,
            ).push(segments@[i as int]@));
            assert(views(r@) =~= seq![pages_root()] + views(segments@).subrange(0, i + 1));
        }
        i = i + 1;
    }
    let ghost prev = r@;
    r.push(page_handler_string());
    proof {
        assert(r@ == prev.push(r@.last()));
        assert(r@.last()@ =~= page_handler());
        assert(views(segments@).subrange(0, segments@.len() as int) =~= views(segments@));
        assert(views(r@) =~= handler_reference_of(views(segments@)));
    }
    r
}

/// The route segments of the file at `path` below the page root, or `None`
/// where it is no page: not a source file, or inside a support module.
pub fn page_segments(path: &Vec<String>) -> (r: Option<Vec<String>>)
    ensures
        match r {
            Some(v) => page_segments_of(views(path@)) == Some(views(v@)),
            None => page_segments_of(views(path@)).is_none(),
        },
{
    let ghost p = views(path@);
    let n = path.len();
    if n == 0 {
        return None;
    }
    let name = path[n - 1].as_str();
    let len = name.unicode_len();
    proof {
        assert(p.last() == name@);
    }
    if len <= 3 {
        proof {
            assert(!is_source_name(p.last()));
        }
        return None;
    }
    if name.get_char(len - 3) != '.' || name.get_char(len - 2) != 'r' || name.get_char(len - 1)
        != 's' {
        proof {
            let tail = name@.subrange(len - 3, len as int);
            assert(tail[0] == name@[len - 3] && tail[1] == name@[len - 2] && tail[2]
                == name@[len - 1]);
            assert(tail != source_suffix());
        }
        return None;
    }
    proof {
        assert(name@.subrange(len - 3, len as int) =~= source_suffix());
        assert(is_source_name(p.last()));
    }
    let stem = String::from_str(name.substring_char(0, len - 3));
    let mut segs: Vec<String> = Vec::new();
    let mut i: usize = 0;
    while i + 1 < n
        invariant
            p == views(path@),
            n == path@.len(),
            n > 0,
            i <= n - 1,
            views(segs@) == p.subrange(0, i as int),
        decreases n - i,
    {
        let ghost prev = segs@;
        segs.push(path[i].clone());
        proof {
            assert(views(segs@) =~= views(prev).push(path@[i as int]@));
            assert(p.subrange(0, i + 1) =~= p.subrange(0, i as int).push(p[i as int]));
        }
        i = i + 1;
    }
    let ghost prev = segs@;
    segs.push(stem);
    let ghost expected = p.update(n - 1, stem_of(p.last()));
    proof {
        assert(views(segs@) =~= views(prev).push(stem@));
        assert(views(segs@) =~= expected);
    }
    let marker = module_marker_string();
    let mut j: usize = 0;
    while j < segs.len()
        invariant
            views(segs@) == expected,
            p == views(path@),
            p.len() > 0,
            is_source_name(p.last()),
            expected == p.update(p.len() - 1, stem_of(p.last())),
            marker@ == module_marker(),
            j <= segs@.len(),
            forall|k: int| 0 <= k < j ==> expected[k] != module_marker(),
        decreases segs@.len() - j,
    {
        if segs[j] == marker {
            proof {
                assert(views(segs@)[j as int] == segs@[j as int]@);
                assert(expected[j as int] == module_marker());
                assert(is_module_path(expected));
            }
            return None;
        }
        j = j + 1;
    }
    proof {
        assert(is_source_name(p.last()));
        assert(!is_module_path(expected));
        assert(page_segments_of(p) == Some(expected));
        assert(p == views(path@));
    }
    Some(segs)
}

/// The route segments of the pages among `paths` (each below the page root,
/// in the order in which the directory walk met them), in that order.
pub fn generate_routes(paths: &Vec<Vec<String>>) -> (r: Vec<Vec<String>>)
    ensures
        nested_views(r@) == discovered(nested_views(paths@)),
{
    let mut r: Vec<Vec<String>> = Vec::new();
    let mut i: usize = 0;
    while i < paths.len()
        invariant
            i <= paths@.len(),
            nested_views(r@) == discovered(nested_views(paths@).subrange(0, i as int)),
        decreases paths@.len() - i,
    {
        let ghost before = nested_views(paths@).subrange(0, i as int);
        let ghost upto = nested_views(paths@).subrange(0, i + 1);
        proof {
            assert(upto.drop_last() =~= before);
            assert(upto.last() == views(paths@[i as int]@));
        }
        let ghost prev = r@;
        match page_segments(&paths[i]) {
            Some(segs) => {
                r.push(segs);
                proof {
                    assert(nested_views(r@) =~= nested_views(prev).push(views(r@.last()@)));
                }
            },
            None => {},
        }
        i = i + 1;
    }
    proof {
        assert(nested_views(paths@).subrange(0, paths@.len() as int) =~= nested_views(paths@));
    }
    r
}

/// The number of paths whose segments, extension taken off, hold the module
/// marker.
pub open spec fn module_file_count(paths: Seq<Seq<Seq<char>>>) -> nat
    decreases paths.len(),
{
    if paths.len() == 0 {
        0
    } else {
        module_file_count(paths.drop_last()) + if is_module_path(stemmed(paths.last())) {
            1nat
        } else {
            0nat
        }
    }
}

/// Every path names a source file: a non-empty path whose file name has a
/// stem and the source extension.
pub open spec fn all_source_files(paths: Seq<Seq<Seq<char>>>) -> bool {
    forall|i: int|
        0 <= i < paths.len() ==> #[trigger] paths[i].len() > 0 && is_source_name(paths[i].last())
}

/// Where every path is a source file, the pages found are all of them but
/// those inside a support module.
pub proof fn lemma_discovered_count(paths: Seq<Seq<Seq<char>>>)
    requires
        all_source_files(paths),
    ensures
        module_file_count(paths) <= paths.len(),
        discovered(paths).len() == paths.len() - module_file_count(paths),
    decreases paths.len(),
{
    if paths.len() > 0 {
        let init = paths.drop_last();
        assert forall|i: int| 0 <= i < init.len() implies #[trigger] init[i].len() > 0
            && is_source_name(init[i].last()) by {
            assert(init[i] == paths[i]);
        }
        assert(paths[paths.len() - 1] == paths.last());
        lemma_discovered_count(init);
    }
}

/// The builder is a function of the segments alone: equal segments give the
/// same URL path and the same handler reference.
pub proof fn lemma_descriptor_deterministic(a: Seq<Seq<char>>, b: Seq<Seq<char>>)
    requires
        a == b,
    ensures
        url_path_of(a) == url_path_of(b),
        handler_reference_of(a) == handler_reference_of(b),
{
}

/// A page: its route segments and what derives from them.
#[derive(Clone, Debug, PartialEq, Eq)]
pub struct RouteDescriptor {
    /// Directories from the page root, then the file's stem.
    pub segments: Vec<String>,
    /// The URL that the page serves.
    pub url_path: String,
    /// The fully qualified path of the page's handler.
    pub handler_reference: Vec<String>,
}

impl RouteDescriptor {
    /// The descriptor is derived from its segments.
    pub open spec fn wf(&self) -> bool {
        &&& self.url_path@ == url_path_of(views(self.segments@))
        &&& views(self.handler_reference@) == handler_reference_of(views(self.segments@))
    }

    /// The descriptor of the page with the given segments.
    pub fn new(segments: Vec<String>) -> (r: RouteDescriptor)
        ensures
            r.wf(),
            r.segments@ == segments@,
    {
        let url_path = url_path(&segments);
        let handler_reference = handler_reference(&segments);
        RouteDescriptor { segments, url_path, handler_reference }
    }
}

} // verus!
