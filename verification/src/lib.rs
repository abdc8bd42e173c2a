//! A rich text display model: rectangles and layout geometry, the cursor
//! positioning board driven by CSI control sequences, text search over the
//! data buffer, colors and image graying, and the data segments that the
//! widgets show.

pub mod geometry;
pub mod text;
pub mod cursor;
pub mod color;
pub mod image;
pub mod action;
pub mod piece;
pub mod data;
pub mod options;
pub mod board;
pub mod search;
pub mod records;
pub mod panel;
pub mod review;
pub mod selection;
pub mod layout;
pub mod locate;
pub mod draw;

use vstd::prelude::*;

verus! {

/// Blank space between the content and the left border of the panel.
pub const PADDING_LEFT: i32 = 5;
/// Blank space between the content and the top border of the panel.
pub const PADDING_TOP: i32 = 5;
/// Blank space between the content and the right border of the panel.
pub const PADDING_RIGHT: i32 = 5;
/// Blank space between the content and the bottom border of the panel.
pub const PADDING_BOTTOM: i32 = 5;

/// Vertical space between an image and other content.
pub const IMAGE_PADDING_H: i32 = 2;
/// Horizontal space between an image and other content.
pub const IMAGE_PADDING_V: i32 = 2;
/// Corner radius of the focus frame of a search hit.
pub const HIGHLIGHT_ROUNDED_RECT_RADIUS: i32 = 3;
/// Default font size.
pub const DEFAULT_FONT_SIZE: i32 = 16;
/// Character that measures the panel size.
pub const BASIC_UNIT_CHAR: char = 'A';
/// Number of spaces a tab stands for.
pub const DEFAULT_TAB_WIDTH: u8 = 4;

} // verus!
