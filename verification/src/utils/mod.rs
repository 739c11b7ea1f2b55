//! Path helpers: route matching and upstream URLs.

pub mod path;
pub mod route_matcher;
