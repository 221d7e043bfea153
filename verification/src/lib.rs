//! Window configuration rules of a desktop web-app shell: window labels,
//! route templates and their instances, popup labels, and the decisions
//! taken before a window is built.
use vstd::prelude::*;

pub mod builder;
pub mod config;
pub mod laws;
pub mod platform;
pub mod text;
pub mod web_url;
pub mod window;

verus! {
} // verus!
