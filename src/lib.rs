//! Layout of a tree of rectangular UI nodes into a flat, paint-ordered list of
//! positioned rectangles, together with the small input-state helpers that
//! feed the window size to the layout.

pub mod debug;
pub mod input;
pub mod layout;
pub mod node;
pub mod node_data;
pub mod rect;
pub mod ui_screen;

pub use debug::DebugColor;
pub use input::{KeyboardState, ReducedKbModifier, WindowState};
pub use node::Node;
pub use node_data::{FlexDirection, NodeData};
pub use rect::{Rect, ZIndex};
pub use ui_screen::UiScreen;
