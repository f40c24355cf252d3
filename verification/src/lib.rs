//! The decision logic of a terminal client for GitHub repositories: the selection and
//! search over the repository list, the key-driven modes of the interface, and the
//! text processing around GitHub and git (pagination links, clone commands, error
//! messages that never reveal the access token).
use vstd::prelude::*;

pub mod app;
pub mod field;
pub mod github;
pub mod model;
pub mod screen;
pub mod text;

verus! {
}
