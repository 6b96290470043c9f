//! Compile-time route discovery and code synthesis for a page-based web
//! application: page files become route descriptors, the server bootstrap
//! call gains one route registration per page, and handler signatures gain a
//! layout parameter.
pub mod layout;
pub mod names;
pub mod rewrite;
pub mod route;
pub mod syntax;
