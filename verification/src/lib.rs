//! Icon lookup in the freedesktop icon-theme layout: theme directories,
//! size matching, candidate icon files and the walk over inherited themes.
use vstd::prelude::*;

pub mod path;
pub mod theme;
pub mod size;
pub mod text;
pub mod lookup;
pub mod config;
pub mod icon;
pub mod search;
pub mod theme_file;
pub mod hierarchy;

verus! {

} // verus!
