use vstd::prelude::*;

pub mod commands;
pub mod compiler;
pub mod fs;
pub mod json;
pub mod paths;
pub mod text;
pub mod types;
pub mod utils;

verus! {
}
