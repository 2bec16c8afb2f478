use vstd::prelude::*;
use crate::color::ColorAttribute;

verus! {

/// How bright or dim the text of a cell is.
#[derive(Clone, Copy, Debug, PartialEq, Eq, Structural)]
pub enum Intensity {
    Normal,
    Bold,
    Half,
}

/// How a cell's text is underlined.
#[derive(Clone, Copy, Debug, PartialEq, Eq, Structural)]
pub enum Underline {
    Off,
    Single,
    Double,
}

/// How a cell's text blinks.
#[derive(Clone, Copy, Debug, PartialEq, Eq, Structural)]
pub enum Blink {
    Off,
    Slow,
    Rapid,
}

/// The visual attributes of a cell.
#[derive(Clone, Copy, Debug, PartialEq, Eq, Structural)]
pub struct CellAttributes {
    pub intensity: Intensity,
    pub underline: Underline,
    pub blink: Blink,
    pub italic: bool,
    pub reverse: bool,
    pub strikethrough: bool,
    pub invisible: bool,
    pub line_drawing: bool,
    pub foreground: ColorAttribute,
    pub background: ColorAttribute,
    /// Handle of the hyperlink that the cell belongs to, if any.
    pub hyperlink: Option<u64>,
}

/// A change of a single attribute.
#[derive(Clone, Copy, Debug, PartialEq, Eq, Structural)]
pub enum AttributeChange {
    Intensity(Intensity),
    Underline(Underline),
    Italic(bool),
    Blink(Blink),
    Reverse(bool),
    StrikeThrough(bool),
    Invisible(bool),
    Foreground(ColorAttribute),
    Background(ColorAttribute),
    Hyperlink(Option<u64>),
    LineDrawing(bool),
}

/// The attributes of a cell that nothing has styled.
pub open spec fn default_attributes() -> CellAttributes {
    CellAttributes {
        intensity: Intensity::Normal,
        underline: Underline::Off,
        blink: Blink::Off,
        italic: false,
        reverse: false,
        strikethrough: false,
        invisible: false,
        line_drawing: false,
        foreground: ColorAttribute::Default,
        background: ColorAttribute::Default,
        hyperlink: None,
    }
}

/// `a` with the one attribute that `change` names replaced.
pub open spec fn apply_attribute_change(a: CellAttributes, change: AttributeChange) -> CellAttributes {
    match change {
        AttributeChange::Intensity(v) => CellAttributes { intensity: v, ..a },
        AttributeChange::Underline(v) => CellAttributes { underline: v, ..a },
        AttributeChange::Italic(v) => CellAttributes { italic: v, ..a },
        AttributeChange::Blink(v) => CellAttributes { blink: v, ..a },
        AttributeChange::Reverse(v) => CellAttributes { reverse: v, ..a },
        AttributeChange::StrikeThrough(v) => CellAttributes { strikethrough: v, ..a },
        AttributeChange::Invisible(v) => CellAttributes { invisible: v, ..a },
        AttributeChange::Foreground(v) => CellAttributes { foreground: v, ..a },
        AttributeChange::Background(v) => CellAttributes { background: v, ..a },
        AttributeChange::Hyperlink(v) => CellAttributes { hyperlink: v, ..a },
        AttributeChange::LineDrawing(v) => CellAttributes { line_drawing: v, ..a },
    }
}

impl Default for CellAttributes {
    fn default() -> (r: CellAttributes)
        ensures
            r == default_attributes(),
    {
        CellAttributes {
            intensity: Intensity::Normal,
            underline: Underline::Off,
            blink: Blink::Off,
            italic: false,
            reverse: false,
            strikethrough: false,
            invisible: false,
            line_drawing: false,
            foreground: ColorAttribute::Default,
            background: ColorAttribute::Default,
            hyperlink: None,
        }
    }
}

impl CellAttributes {
    /// Default attributes on the background `color`: what a clear leaves behind.
    pub fn with_background(color: ColorAttribute) -> (r: CellAttributes)
        ensures
            r == (CellAttributes { background: color, ..default_attributes() }),
    {
        let mut a = CellAttributes::default();
        a.background = color;
        a
    }

    /// Replaces the one attribute that `change` names.
    pub fn apply(&mut self, change: AttributeChange)
        ensures
            *final(self) == apply_attribute_change(*old(self), change),
    {
        match change {
            AttributeChange::Intensity(v) => self.intensity = v,
            AttributeChange::Underline(v) => self.underline = v,
            AttributeChange::Italic(v) => self.italic = v,
            AttributeChange::Blink(v) => self.blink = v,
            AttributeChange::Reverse(v) => self.reverse = v,
            AttributeChange::StrikeThrough(v) => self.strikethrough = v,
            AttributeChange::Invisible(v) => self.invisible = v,
            AttributeChange::Foreground(v) => self.foreground = v,
            AttributeChange::Background(v) => self.background = v,
            AttributeChange::Hyperlink(v) => self.hyperlink = v,
            AttributeChange::LineDrawing(v) => self.line_drawing = v,
        }
    }
}

} // verus!
