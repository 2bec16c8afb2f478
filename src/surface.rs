use vstd::prelude::*;
use crate::cell::{AttributeChange, CellAttributes};
use crate::color::ColorAttribute;

verus! {

/// One coordinate of a cursor move.
#[derive(Clone, Copy, Debug, PartialEq, Eq, Structural)]
pub enum Position {
    /// Keep the current coordinate.
    NoChange,
    /// A coordinate counted from the start of the area.
    Absolute(u16),
    /// A signed offset from the current coordinate.
    Relative(i16),
    /// A coordinate counted back from the end of the area.
    EndRelative(u16),
}

/// The shape of the cursor.
#[derive(Clone, Copy, Debug, PartialEq, Eq, Structural)]
pub enum CursorShape {
    Default,
    BlinkingBlock,
    SteadyBlock,
    BlinkingUnderline,
    SteadyUnderline,
    BlinkingBar,
    SteadyBar,
}

/// An image placed at the cursor, `width` cells wide and `height` cells high.
#[derive(Clone, Copy, Debug, PartialEq, Eq, Structural)]
pub struct Image {
    pub width: u16,
    pub height: u16,
}

/// A high-level drawing change.
#[derive(Clone, Debug)]
pub enum Change {
    /// Change one attribute of the text that follows.
    Attribute(AttributeChange),
    /// Replace all attributes of the text that follows.
    AllAttributes(CellAttributes),
    /// Output text at the cursor.
    Text(String),
    /// Clear the screen to the given background color.
    ClearScreen(ColorAttribute),
    /// Clear from the cursor to the end of its line.
    ClearToEndOfLine(ColorAttribute),
    /// Clear from the cursor to the end of the screen.
    ClearToEndOfScreen(ColorAttribute),
    /// Move the cursor.
    CursorPosition { x: Position, y: Position },
    /// Set the cursor's color.
    CursorColor(ColorAttribute),
    /// Set the cursor's shape.
    CursorShape(CursorShape),
    /// Place an image at the cursor.
    Image(Image),
    /// Scroll `region_size` rows starting at `first_row` up by `scroll_count`.
    ScrollRegionUp { first_row: u16, region_size: u16, scroll_count: u16 },
    /// Scroll `region_size` rows starting at `first_row` down by `scroll_count`.
    ScrollRegionDown { first_row: u16, region_size: u16, scroll_count: u16 },
    /// Set the window title.
    Title(String),
}

} // verus!
