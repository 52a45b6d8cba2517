//! Layout, paint planning and presentation logic for a status bar.
//!
//! The library turns a tree of bar items into draw operations and interactive
//! regions, and decides when a bar repaints and when its hover popup appears
//! or goes away.  Pixel coordinates are whole pixels throughout.
use vstd::prelude::*;

pub mod text;
pub mod color;
pub mod geom;
pub mod event;
pub mod style;
pub mod layout;
pub mod popup;
pub mod bar;
pub mod watch;
pub mod state;
pub mod parse;
pub mod format;

verus! {

} // verus!
