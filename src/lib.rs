//! The control core of a tiling window manager: a verified model of which window lives on
//! which workspace and screen, in what focus order, and the commands that bring a display
//! backend in line with it after every change.
use vstd::prelude::*;

pub mod stack;
pub mod workspace;
pub mod workspaces;
pub mod layout;
pub mod window_manager;
pub mod laws;

verus! {

} // verus!
