//! Searching one account's repositories on a source-control host: setting up
//! the search request, filtering the repositories it returns by name,
//! description and language, and rendering the survivors as text.

pub mod render;
pub mod repository;
pub mod request;
pub mod text;
