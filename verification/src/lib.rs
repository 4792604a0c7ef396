//! Keyboard layout autoswitcher (English ↔ Russian): the decisions behind the
//! daemon. Watches what is typed, notices when a word was entered in the wrong
//! layout, and says how to delete it, switch the layout and retype it.

use vstd::prelude::*;

pub mod config;
pub mod control;
pub mod engine;
pub mod error;
pub mod hyprland;
pub mod input;
pub mod paths;
pub mod selection;
pub mod service;
pub mod text;
pub mod xkb;

verus! {

} // verus!
