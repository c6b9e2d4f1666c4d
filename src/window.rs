use vstd::prelude::*;
use crate::rect::Rect;

verus! {

/// A snapshot of one window: its identifier, its rectangle on screen, and whether it holds
/// the focus and whether it floats above the tiled layout.
#[derive(Debug, Clone, Copy, PartialEq, Eq, Structural)]
pub struct Window {
    pub id: u64,
    pub rect: Rect,
    pub focused: bool,
    pub floating: bool,
}

/// A collection of windows.
pub type Windows = Vec<Window>;

} // verus!
