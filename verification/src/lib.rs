use vstd::prelude::*;

pub mod hotkey;
mod text;
pub mod json;
pub mod engines;
pub mod update;
pub mod settings;
pub mod commands;

verus! {

} // verus!
