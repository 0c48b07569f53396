//! A command line menu: a scrollable list in one pane of the terminal,
//! optionally beside a preview pane, that reports which entries were chosen.
//!
//! The crate holds the logic of the menu: where the panes lie, how text is
//! laid out inside a pane, which entries have been drawn from the source,
//! where the highlight and the window stand, and what has been selected.
//! Every drawing function appends to a list of [`screen::Span`]s; putting
//! them on a terminal and reading keys is left to the caller.

pub mod frame;
pub mod geometry;
pub mod item;
pub mod keys;
pub mod screen;
pub mod viewport;
pub mod menu;

pub use crate::frame::Frame;
pub use crate::geometry::Bounds;
pub use crate::geometry::Fraction;
pub use crate::geometry::Pair;
pub use crate::geometry::ScreenSide;
pub use crate::item::DispFunc;
pub use crate::item::Item;
pub use crate::menu::Keys;
pub use crate::menu::Menu;
pub use crate::menu::MenuReturnCode;
pub use crate::menu::Preview;
pub use crate::screen::Screen;
pub use crate::screen::Span;
pub use crate::screen::Style;
