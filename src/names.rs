//! The fixed names that the transformations recognise and emit.
use vstd::prelude::*;

verus! {

/// Segment that marks a support module: a page path holding it is no route.
pub open spec fn module_marker() -> Seq<char> {
    seq!['m', 'o', 'd']
}

/// Base name of a page that stands for its directory itself.
pub open spec fn index_marker() -> Seq<char> {
    seq!['i', 'n', 'd', 'e', 'x']
}

/// First segment of every handler reference.
pub open spec fn pages_root() -> Seq<char> {
    seq!['p', 'a', 'g', 'e', 's']
}

/// Last segment of every handler reference.
pub open spec fn page_handler() -> Seq<char> {
    seq!['p', 'a', 'g', 'e']
}

/// Extension of a page source file, with its dot.
pub open spec fn source_suffix() -> Seq<char> {
    seq!['.', 'r', 's']
}

pub fn module_marker_string() -> (r: String)
    ensures
        r@ == module_marker(),
{
    proof {
        reveal_strlit("mod");
    }
    String::from_str("mod")
}

pub fn index_marker_string() -> (r: String)
    ensures
        r@ == index_marker(),
{
    proof {
        reveal_strlit("index");
    }
    String::from_str("index")
}

/// Type name in the path of the server bootstrap call.
pub open spec fn factory_type() -> Seq<char> {
    seq!['H', 't', 't', 'p', 'S', 'e', 'r', 'v', 'e', 'r']
}

/// Constructor name in the path of the server bootstrap call.
pub open spec fn constructor() -> Seq<char> {
    seq!['n', 'e', 'w']
}

/// Method that registers one route.
pub open spec fn route_method() -> Seq<char> {
    seq!['r', 'o', 'u', 't', 'e']
}

/// Method that attaches a handler to a route registration.
pub open spec fn to_method() -> Seq<char> {
    seq!['t', 'o']
}

/// Crate of the web framework.
pub open spec fn framework_crate() -> Seq<char> {
    seq!['a', 'c', 't', 'i', 'x', '_', 'w', 'e', 'b']
}

/// Module of the framework that holds its routing helpers.
pub open spec fn framework_web() -> Seq<char> {
    seq!['w', 'e', 'b']
}

/// Framework function that builds a GET registration.
pub open spec fn get_function() -> Seq<char> {
    seq!['g', 'e', 't']
}

/// Framework container that shares application data.
pub open spec fn data_type() -> Seq<char> {
    seq!['D', 'a', 't', 'a']
}

/// Type of an optional value.
pub open spec fn option_type() -> Seq<char> {
    seq!['O', 'p', 't', 'i', 'o', 'n']
}

/// Crate that provides the layout type.
pub open spec fn library_crate() -> Seq<char> {
    seq!['r', 'u', 'x', 't']
}

/// Type of the layout handle.
pub open spec fn layout_type() -> Seq<char> {
    seq!['L', 'a', 'y', 'o', 'u', 't']
}

/// Name of the added layout parameter.
pub open spec fn layout_param() -> Seq<char> {
    seq!['l', 'a', 'y', 'o', 'u', 't']
}

pub fn pages_root_string() -> (r: String)
    ensures
        r@ == pages_root(),
{
    proof {
        reveal_strlit("pages");
    }
    let r = String::from_str("pages");
    proof {
        assert(r@ =~= pages_root());
    }
    r
}

pub fn page_handler_string() -> (r: String)
    ensures
        r@ == page_handler(),
{
    proof {
        reveal_strlit("page");
    }
    let r = String::from_str("page");
    proof {
        assert(r@ =~= page_handler());
    }
    r
}

pub fn factory_type_string() -> (r: String)
    ensures
        r@ == factory_type(),
{
    proof {
        reveal_strlit("HttpServer");
    }
    let r = String::from_str("HttpServer");
    proof {
        assert(r@ =~= factory_type());
    }
    r
}

pub fn constructor_string() -> (r: String)
    ensures
        r@ == constructor(),
{
    proof {
        reveal_strlit("new");
    }
    let r = String::from_str("new");
    proof {
        assert(r@ =~= constructor());
    }
    r
}

pub fn route_method_string() -> (r: String)
    ensures
        r@ == route_method(),
{
    proof {
        reveal_strlit("route");
    }
    let r = String::from_str("route");
    proof {
        assert(r@ =~= route_method());
    }
    r
}

pub fn to_method_string() -> (r: String)
    ensures
        r@ == to_method(),
{
    proof {
        reveal_strlit("to");
    }
    let r = String::from_str("to");
    proof {
        assert(r@ =~= to_method());
    }
    r
}

pub fn framework_crate_string() -> (r: String)
    ensures
        r@ == framework_crate(),
{
    proof {
        reveal_strlit("actix_web");
    }
    let r = String::from_str("actix_web");
    proof {
        assert(r@ =~= framework_crate());
    }
    r
}

pub fn framework_web_string() -> (r: String)
    ensures
        r@ == framework_web(),
{
    proof {
        reveal_strlit("web");
    }
    let r = String::from_str("web");
    proof {
        assert(r@ =~= framework_web());
    }
    r
}

pub fn get_function_string() -> (r: String)
    ensures
        r@ == get_function(),
{
    proof {
        reveal_strlit("get");
    }
    let r = String::from_str("get");
    proof {
        assert(r@ =~= get_function());
    }
    r
}

pub fn data_type_string() -> (r: String)
    ensures
        r@ == data_type(),
{
    proof {
        reveal_strlit("Data");
    }
    let r = String::from_str("Data");
    proof {
        assert(r@ =~= data_type());
    }
    r
}

pub fn option_type_string() -> (r: String)
    ensures
        r@ == option_type(),
{
    proof {
        reveal_strlit("Option");
    }
    let r = String::from_str("Option");
    proof {
        assert(r@ =~= option_type());
    }
    r
}

pub fn library_crate_string() -> (r: String)
    ensures
        r@ == library_crate(),
{
    proof {
        reveal_strlit("ruxt");
    }
    let r = String::from_str("ruxt");
    proof {
        assert(r@ =~= library_crate());
    }
    r
}

pub fn layout_type_string() -> (r: String)
    ensures
        r@ == layout_type(),
{
    proof {
        reveal_strlit("Layout");
    }
    let r = String::from_str("Layout");
    proof {
        assert(r@ =~= layout_type());
    }
    r
}

pub fn layout_param_string() -> (r: String)
    ensures
        r@ == layout_param(),
{
    proof {
        reveal_strlit("layout");
    }
    let r = String::from_str("layout");
    proof {
        assert(r@ =~= layout_param());
    }
    r
}

} // verus!
