//! Line search: the settings of a search drawn from the invocation's arguments, and the
//! selection of the lines of a text that contain a query, exactly or ignoring letter case.
pub mod config;
pub mod search;
pub mod text;
