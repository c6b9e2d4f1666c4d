//! Focus navigation between the windows of a tiling window manager: flattening of the
//! layout tree, directional search over window rectangles, and linear tab order.
pub mod rect;
pub mod text;
pub mod window;
pub mod linear;
pub mod alignment;
pub mod arrangement;
pub mod node;
pub mod converters;
pub mod navigation;
pub mod cli;
pub mod ipc;
pub mod backend;
pub mod wm_state;
