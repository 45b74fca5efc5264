//! Discovery of Go test functions and their sub-tests, and the building of
//! selectable identifiers and `go test` command lines from them.

pub mod text;
pub mod recognize;
pub mod tracker;
pub mod extract;
pub mod patterns;
pub mod session;
