use vstd::prelude::*;
use crate::cell::{apply_attribute_change, AttributeChange, default_attributes, CellAttributes, Underline};
use crate::color::{ansi_index, AnsiColor, ColorAttribute};
use crate::surface::{Change, Image, Position};

verus! {

/// Attribute-word bit: the cell is drawn in reverse video.
pub const COMMON_LVB_REVERSE_VIDEO: u16 = 0x4000;
/// Attribute-word bit: the cell is underscored.
pub const COMMON_LVB_UNDERSCORE: u16 = 0x8000;

/// The console's four-bit color for ANSI palette entry `n` (below 16): blue in
/// bit 0, green in bit 1, red in bit 2, intensity in bit 3. ANSI numbers the
/// same components red first.
pub open spec fn rgbi_nibble(n: int) -> int {
    (if n % 2 == 1 { 4int } else { 0 }) + (if (n / 2) % 2 == 1 { 2int } else { 0 }) + (if (n / 4)
        % 2 == 1 { 1int } else { 0 }) + (if n >= 8 { 8int } else { 0 })
}

/// The four-bit color for palette index `idx`; indices past the first sixteen
/// take the ANSI color `fallback`.
pub open spec fn palette_nibble(idx: u8, fallback: int) -> int {
    if idx < 16 {
        rgbi_nibble(idx as int)
    } else {
        rgbi_nibble(fallback)
    }
}

/// The foreground nibble of the attribute word; the default is bright white.
pub open spec fn foreground_bits(c: ColorAttribute) -> int {
    match c {
        ColorAttribute::Default => 15,
        ColorAttribute::TrueColorWithDefaultFallback(_) => 15,
        ColorAttribute::PaletteIndex(idx) => palette_nibble(idx, 15),
        ColorAttribute::TrueColorWithPaletteFallback(_, idx) => palette_nibble(idx, 15),
    }
}

/// The background nibble of the attribute word; the default is black.
pub open spec fn background_bits(c: ColorAttribute) -> int {
    match c {
        ColorAttribute::Default => 0,
        ColorAttribute::TrueColorWithDefaultFallback(_) => 0,
        ColorAttribute::PaletteIndex(idx) => palette_nibble(idx, 0),
        ColorAttribute::TrueColorWithPaletteFallback(_, idx) => palette_nibble(idx, 0),
    }
}

/// The console attribute word for `a`: foreground in bits 0..3, background in
/// bits 4..7, and the reverse-video and underscore bits. Italic, blink,
/// strikethrough and invisible have no place in it.
pub open spec fn attr_word(a: CellAttributes) -> u16 {
    (foreground_bits(a.foreground) + 16 * background_bits(a.background) + (if a.reverse {
        COMMON_LVB_REVERSE_VIDEO as int
    } else {
        0
    }) + (if a.underline != Underline::Off {
        COMMON_LVB_UNDERSCORE as int
    } else {
        0
    })) as u16
}

proof fn lemma_rgbi_nibble_bound(n: int)
    requires
        0 <= n < 16,
    ensures
        0 <= rgbi_nibble(n) < 16,
{
}

fn rgbi_bits(c: AnsiColor) -> (r: u16)
    ensures
        r == rgbi_nibble(ansi_index(c) as int),
{
    match c {
        AnsiColor::Black => 0,
        AnsiColor::Maroon => 4,
        AnsiColor::Green => 2,
        AnsiColor::Olive => 4 + 2,
        AnsiColor::Navy => 1,
        AnsiColor::Purple => 4 + 1,
        AnsiColor::Teal => 2 + 1,
        AnsiColor::Silver => 4 + 2 + 1,
        AnsiColor::Grey => 8,
        AnsiColor::Red => 8 + 4,
        AnsiColor::Lime => 8 + 2,
        AnsiColor::Yellow => 8 + 4 + 2,
        AnsiColor::Blue => 8 + 1,
        AnsiColor::Fuschia => 8 + 4 + 1,
        AnsiColor::Aqua => 8 + 2 + 1,
        AnsiColor::White => 8 + 4 + 2 + 1,
    }
}

fn palette_bits(idx: u8, fallback: AnsiColor) -> (r: u16)
    ensures
        r == palette_nibble(idx, ansi_index(fallback) as int),
        r < 16,
{
    proof {
        if idx < 16 {
            lemma_rgbi_nibble_bound(idx as int);
        }
        lemma_rgbi_nibble_bound(ansi_index(fallback) as int);
    }
    match AnsiColor::from_u8(idx) {
        Some(c) => rgbi_bits(c),
        None => rgbi_bits(fallback),
    }
}

/// The console attribute word for `attr`.
pub fn to_attr_word(attr: &CellAttributes) -> (r: u16)
    ensures
        r == attr_word(*attr),
{
    let fg: u16 = match attr.foreground {
        ColorAttribute::Default => rgbi_bits(AnsiColor::White),
        ColorAttribute::TrueColorWithDefaultFallback(_) => rgbi_bits(AnsiColor::White),
        ColorAttribute::PaletteIndex(idx) => palette_bits(idx, AnsiColor::White),
        ColorAttribute::TrueColorWithPaletteFallback(_, idx) => palette_bits(idx, AnsiColor::White),
    };
    let bg: u16 = match attr.background {
        ColorAttribute::Default => 0,
        ColorAttribute::TrueColorWithDefaultFallback(_) => 0,
        ColorAttribute::PaletteIndex(idx) => palette_bits(idx, AnsiColor::Black),
        ColorAttribute::TrueColorWithPaletteFallback(_, idx) => palette_bits(idx, AnsiColor::Black),
    };
    let reverse: u16 = if attr.reverse {
        COMMON_LVB_REVERSE_VIDEO
    } else {
        0
    };
    let underline: u16 = if attr.underline != Underline::Off {
        COMMON_LVB_UNDERSCORE
    } else {
        0
    };
    bg * 16 + fg + reverse + underline
}

/// What the console reports of its screen buffer: its size, the cursor, and
/// the viewport (`left`, `top`, `right`, `bottom`, inclusive).
#[derive(Clone, Copy, Debug, PartialEq, Eq, Structural)]
pub struct BufferInfo {
    pub size_x: i16,
    pub size_y: i16,
    pub cursor_x: i16,
    pub cursor_y: i16,
    pub left: i16,
    pub top: i16,
    pub right: i16,
    pub bottom: i16,
}

impl BufferInfo {
    /// The cursor and the viewport lie inside the buffer.
    pub open spec fn wf(&self) -> bool {
        &&& 0 <= self.cursor_x < self.size_x
        &&& 0 <= self.cursor_y < self.size_y
        &&& 0 <= self.left <= self.right < self.size_x
        &&& 0 <= self.top <= self.bottom < self.size_y
    }

    /// Checks `wf`.
    pub fn is_consistent(&self) -> (r: bool)
        ensures
            r == self.wf(),
    {
        0 <= self.cursor_x && self.cursor_x < self.size_x && 0 <= self.cursor_y && self.cursor_y
            < self.size_y && 0 <= self.left && self.left <= self.right && self.right < self.size_x
            && 0 <= self.top && self.top <= self.bottom && self.bottom < self.size_y
    }
}

/// An operation on the console screen buffer.
#[derive(Clone, Debug, PartialEq, Eq)]
pub enum ConsoleOp {
    /// Push buffered output to the console.
    Flush,
    /// Move the viewport.
    SetViewport { left: i32, top: i32, right: i32, bottom: i32 },
    /// Write `count` copies of `ch`, starting at `(x, y)` and wrapping at the buffer's width.
    FillChar { ch: char, x: i32, y: i32, count: u32 },
    /// Set the attribute word of `count` cells, starting at `(x, y)` and wrapping.
    FillAttr { attr: u16, x: i32, y: i32, count: u32 },
    /// Move the cursor.
    SetCursorPosition { x: i32, y: i32 },
    /// Set the attribute word of text written from now on.
    SetAttr(u16),
    /// Write text at the cursor.
    Write(String),
    /// Move the rectangle `left..=right` by `top..=bottom` by `(dx, dy)`, filling
    /// the cells it leaves with spaces of attribute `fill_attr`.
    ScrollRegion { left: i32, top: i32, right: i32, bottom: i32, dx: i32, dy: i32, fill_attr: u16 },
}

/// Default attributes on background `color`.
pub open spec fn cleared_attributes(color: ColorAttribute) -> CellAttributes {
    CellAttributes { background: color, ..default_attributes() }
}

/// The column that a horizontal move lands on: counted over the whole buffer width.
pub open spec fn resolve_x(p: Position, info: BufferInfo) -> int {
    match p {
        Position::NoChange => info.cursor_x as int,
        Position::Absolute(n) => n as int,
        Position::Relative(d) => info.cursor_x + d,
        Position::EndRelative(d) => info.size_x - d,
    }
}

/// The row that a vertical move lands on: counted within the viewport.
pub open spec fn resolve_y(p: Position, info: BufferInfo) -> int {
    match p {
        Position::NoChange => info.cursor_y as int,
        Position::Absolute(n) => info.top + n,
        Position::Relative(d) => info.cursor_y + d,
        Position::EndRelative(d) => info.bottom - d,
    }
}

/// Clears the whole buffer width from the viewport's top row to the end of the
/// buffer and homes the cursor there, first moving a horizontally scrolled
/// viewport back to column 0.
pub open spec fn clear_screen_ops(word: u16, info: BufferInfo) -> Seq<ConsoleOp> {
    let n = (info.size_x * (info.size_y - info.top)) as u32;
    let top = info.top as i32;
    let fill = seq![
        ConsoleOp::FillChar { ch: ' ', x: 0, y: top, count: n },
        ConsoleOp::FillAttr { attr: word, x: 0, y: top, count: n },
        ConsoleOp::SetCursorPosition { x: 0, y: top },
    ];
    if info.left != 0 {
        seq![
            ConsoleOp::SetViewport {
                left: 0,
                top,
                right: (info.right - info.left) as i32,
                bottom: info.bottom as i32,
            },
        ] + fill
    } else {
        fill
    }
}

/// Clears from the cursor to the end of its row.
pub open spec fn clear_line_ops(word: u16, info: BufferInfo) -> Seq<ConsoleOp> {
    let n = (info.size_x - info.cursor_x) as u32;
    let (x, y) = (info.cursor_x as i32, info.cursor_y as i32);
    seq![
        ConsoleOp::FillChar { ch: ' ', x, y, count: n },
        ConsoleOp::FillAttr { attr: word, x, y, count: n },
    ]
}

/// Clears every row below the cursor's, over the whole buffer width.
pub open spec fn clear_below_ops(word: u16, info: BufferInfo) -> Seq<ConsoleOp> {
    let n = (info.size_x * (info.size_y - info.cursor_y - 1)) as u32;
    let y = (info.cursor_y + 1) as i32;
    seq![
        ConsoleOp::FillChar { ch: ' ', x: 0, y, count: n },
        ConsoleOp::FillAttr { attr: word, x: 0, y, count: n },
    ]
}

/// The blank row `i` of an image placed at the cursor.
pub open spec fn image_row_op(img: Image, info: BufferInfo, i: int) -> ConsoleOp {
    ConsoleOp::FillChar {
        ch: ' ',
        x: info.cursor_x as i32,
        y: (info.cursor_y + i) as i32,
        count: img.width as u32,
    }
}

/// Blanks the image's rectangle and moves the cursor past it on the same row.
pub open spec fn image_ops(img: Image, info: BufferInfo) -> Seq<ConsoleOp> {
    Seq::new(img.height as nat, |i: int| image_row_op(img, info, i)) + seq![
        ConsoleOp::SetCursorPosition {
            x: (info.cursor_x + img.width) as i32,
            y: info.cursor_y as i32,
        },
    ]
}

/// Scrolls `region_size` viewport rows from `first_row` by `dy` rows, across
/// the viewport's columns; nothing when the region is empty.
pub open spec fn scroll_ops(
    first_row: u16,
    region_size: u16,
    dy: int,
    word: u16,
    info: BufferInfo,
) -> Seq<ConsoleOp> {
    if region_size > 0 {
        seq![
            ConsoleOp::ScrollRegion {
                left: info.left as i32,
                top: (info.top + first_row) as i32,
                right: info.right as i32,
                bottom: (info.top + first_row + region_size) as i32,
                dx: 0,
                dy: dy as i32,
                fill_attr: word,
            },
        ]
    } else {
        seq![]
    }
}

/// Whether the renderer needs the console's buffer info to apply `change`.
pub open spec fn needs_info(change: Change) -> bool {
    match change {
        Change::ClearScreen(_) => true,
        Change::ClearToEndOfLine(_) => true,
        Change::ClearToEndOfScreen(_) => true,
        Change::CursorPosition { .. } => true,
        Change::Image(_) => true,
        Change::ScrollRegionUp { region_size, .. } => region_size > 0,
        Change::ScrollRegionDown { region_size, .. } => region_size > 0,
        _ => false,
    }
}

/// The current attributes after `change`.
pub open spec fn next_attributes(attr: CellAttributes, change: Change) -> CellAttributes {
    match change {
        Change::ClearScreen(c) => cleared_attributes(c),
        Change::ClearToEndOfLine(c) => cleared_attributes(c),
        Change::ClearToEndOfScreen(c) => cleared_attributes(c),
        Change::Attribute(ac) => apply_attribute_change(attr, ac),
        Change::AllAttributes(a) => a,
        _ => attr,
    }
}

/// The operations that apply `change` while `attr` is current, with the buffer
/// info read just before (where `needs_info` holds).
pub open spec fn change_ops(attr: CellAttributes, change: Change, info: BufferInfo) -> Seq<
    ConsoleOp,
> {
    match change {
        Change::ClearScreen(c) => clear_screen_ops(attr_word(cleared_attributes(c)), info),
        Change::ClearToEndOfLine(c) => clear_line_ops(attr_word(cleared_attributes(c)), info),
        Change::ClearToEndOfScreen(c) => clear_line_ops(attr_word(cleared_attributes(c)), info)
            + clear_below_ops(attr_word(cleared_attributes(c)), info),
        Change::Text(s) => seq![
            ConsoleOp::Flush,
            ConsoleOp::SetAttr(attr_word(attr)),
            ConsoleOp::Write(s),
        ],
        Change::CursorPosition { x, y } => seq![
            ConsoleOp::SetCursorPosition {
                x: resolve_x(x, info) as i32,
                y: resolve_y(y, info) as i32,
            },
        ],
        Change::Image(img) => image_ops(img, info),
        Change::ScrollRegionUp { first_row, region_size, scroll_count } => scroll_ops(
            first_row,
            region_size,
            -scroll_count,
            attr_word(attr),
            info,
        ),
        Change::ScrollRegionDown { first_row, region_size, scroll_count } => scroll_ops(
            first_row,
            region_size,
            scroll_count as int,
            attr_word(attr),
            info,
        ),
        _ => seq![],
    }
}

/// Turns drawing changes into console operations, carrying the attributes
/// of the text that follows.
pub struct WindowsConsoleRenderer {
    /// Attributes for the next text; written to the console only when text is written.
    pub current_attr: CellAttributes,
}

proof fn lemma_area_fits(w: int, h: int)
    requires
        0 <= w <= 32767,
        0 <= h <= 32767,
    ensures
        0 <= w * h <= 0x4000_0000,
{
    assert(0 <= w * h <= 32767 * 32767) by (nonlinear_arith)
        requires
            0 <= w <= 32767,
            0 <= h <= 32767,
    ;
}

/// Whether `change` needs the console's buffer info (see `needs_info`).
pub fn needs_buffer_info(change: &Change) -> (r: bool)
    ensures
        r == needs_info(*change),
{
    match change {
        Change::ClearScreen(_) => true,
        Change::ClearToEndOfLine(_) => true,
        Change::ClearToEndOfScreen(_) => true,
        Change::CursorPosition { .. } => true,
        Change::Image(_) => true,
        Change::ScrollRegionUp { region_size, .. } => *region_size > 0,
        Change::ScrollRegionDown { region_size, .. } => *region_size > 0,
        _ => false,
    }
}

fn clear_line(word: u16, info: &BufferInfo, ops: &mut Vec<ConsoleOp>)
    requires
        info.wf(),
    ensures
        final(ops)@ == old(ops)@ + clear_line_ops(word, *info),
{
    let n: u32 = (info.size_x - info.cursor_x) as u32;
    let x: i32 = info.cursor_x as i32;
    let y: i32 = info.cursor_y as i32;
    ops.push(ConsoleOp::FillChar { ch: ' ', x, y, count: n });
    ops.push(ConsoleOp::FillAttr { attr: word, x, y, count: n });
}

fn scroll(
    first_row: u16,
    region_size: u16,
    dy: i32,
    word: u16,
    info: &BufferInfo,
    ops: &mut Vec<ConsoleOp>,
)
    requires
        info.wf(),
    ensures
        final(ops)@ == old(ops)@ + scroll_ops(first_row, region_size, dy as int, word, *info),
{
    if region_size > 0 {
        let top: i32 = info.top as i32 + first_row as i32;
        ops.push(
            ConsoleOp::ScrollRegion {
                left: info.left as i32,
                top,
                right: info.right as i32,
                bottom: top + region_size as i32,
                dx: 0,
                dy,
                fill_attr: word,
            },
        );
    }
    assert(final(ops)@ =~= old(ops)@ + scroll_ops(first_row, region_size, dy as int, word, *info));
}

impl WindowsConsoleRenderer {
    /// A renderer whose current attributes are the defaults.
    pub fn new() -> (r: WindowsConsoleRenderer)
        ensures
            r.current_attr == default_attributes(),
    {
        WindowsConsoleRenderer { current_attr: CellAttributes::default() }
    }

    /// Applies one change. Where `needs_buffer_info(change)` holds, the caller
    /// first flushes the console's output and reads its buffer info, and hands
    /// it in as `info`; the returned operations are then performed in order.
    /// Attribute changes touch only the current attributes: they reach the
    /// console with the next text or fill.
    pub fn render_change(&mut self, change: &Change, info: Option<BufferInfo>) -> (ops: Vec<
        ConsoleOp,
    >)
        requires
            needs_info(*change) ==> info.is_some() && info.unwrap().wf(),
        ensures
            final(self).current_attr == next_attributes(old(self).current_attr, *change),
            ops@ == change_ops(old(self).current_attr, *change, info.unwrap()),
    {
        let mut ops: Vec<ConsoleOp> = Vec::new();
        match change {
            Change::ClearScreen(color) => {
                self.current_attr = CellAttributes::with_background(*color);
                let word = to_attr_word(&self.current_attr);
                let info = info.unwrap();
                if info.left != 0 {
                    ops.push(
                        ConsoleOp::SetViewport {
                            left: 0,
                            top: info.top as i32,
                            right: info.right as i32 - info.left as i32,
                            bottom: info.bottom as i32,
                        },
                    );
                }
                proof {
                    lemma_area_fits(info.size_x as int, info.size_y - info.top);
                }
                let n: u32 = (info.size_x as u32) * ((info.size_y - info.top) as u32);
                ops.push(ConsoleOp::FillChar { ch: ' ', x: 0, y: info.top as i32, count: n });
                ops.push(ConsoleOp::FillAttr { attr: word, x: 0, y: info.top as i32, count: n });
                ops.push(ConsoleOp::SetCursorPosition { x: 0, y: info.top as i32 });
                assert(ops@ =~= change_ops(old(self).current_attr, *change, info));
            },
            Change::ClearToEndOfLine(color) => {
                self.current_attr = CellAttributes::with_background(*color);
                let word = to_attr_word(&self.current_attr);
                let info = info.unwrap();
                clear_line(word, &info, &mut ops);
                assert(ops@ =~= change_ops(old(self).current_attr, *change, info));
            },
            Change::ClearToEndOfScreen(color) => {
                self.current_attr = CellAttributes::with_background(*color);
                let word = to_attr_word(&self.current_attr);
                let info = info.unwrap();
                clear_line(word, &info, &mut ops);
                proof {
                    lemma_area_fits(info.size_x as int, info.size_y - info.cursor_y - 1);
                }
                let n: u32 = (info.size_x as u32) * ((info.size_y - info.cursor_y - 1) as u32);
                let y: i32 = info.cursor_y as i32 + 1;
                ops.push(ConsoleOp::FillChar { ch: ' ', x: 0, y, count: n });
                ops.push(ConsoleOp::FillAttr { attr: word, x: 0, y, count: n });
                assert(ops@ =~= change_ops(old(self).current_attr, *change, info));
            },
            Change::Text(text) => {
                ops.push(ConsoleOp::Flush);
                ops.push(ConsoleOp::SetAttr(to_attr_word(&self.current_attr)));
                ops.push(ConsoleOp::Write(text.clone()));
                assert(ops@ =~= change_ops(old(self).current_attr, *change, info.unwrap()));
            },
            Change::CursorPosition { x, y } => {
                let info = info.unwrap();
                let x: i32 = match x {
                    Position::NoChange => info.cursor_x as i32,
                    Position::Absolute(n) => *n as i32,
                    Position::Relative(d) => info.cursor_x as i32 + *d as i32,
                    Position::EndRelative(d) => info.size_x as i32 - *d as i32,
                };
                let y: i32 = match y {
                    Position::NoChange => info.cursor_y as i32,
                    Position::Absolute(n) => info.top as i32 + *n as i32,
                    Position::Relative(d) => info.cursor_y as i32 + *d as i32,
                    Position::EndRelative(d) => info.bottom as i32 - *d as i32,
                };
                ops.push(ConsoleOp::SetCursorPosition { x, y });
                assert(ops@ =~= change_ops(old(self).current_attr, *change, info));
            },
            Change::Attribute(ac) => {
                self.current_attr.apply(*ac);
            },
            Change::AllAttributes(all) => {
                self.current_attr = *all;
            },
            Change::Image(img) => {
                let info = info.unwrap();
                let x: i32 = info.cursor_x as i32;
                let mut i: u16 = 0;
                while i < img.height
                    invariant
                        i <= img.height,
                        info.wf(),
                        x == info.cursor_x,
                        ops@ =~= Seq::new(i as nat, |k: int| image_row_op(*img, info, k)),
                    decreases img.height - i,
                {
                    ops.push(
                        ConsoleOp::FillChar {
                            ch: ' ',
                            x,
                            y: info.cursor_y as i32 + i as i32,
                            count: img.width as u32,
                        },
                    );
                    i = i + 1;
                }
                ops.push(
                    ConsoleOp::SetCursorPosition {
                        x: x + img.width as i32,
                        y: info.cursor_y as i32,
                    },
                );
                assert(ops@ =~= change_ops(old(self).current_attr, *change, info));
            },
            Change::ScrollRegionUp { first_row, region_size, scroll_count } => {
                if *region_size > 0 {
                    let word = to_attr_word(&self.current_attr);
                    scroll(*first_row, *region_size, -(*scroll_count as i32), word, &info.unwrap(), &mut ops);
                }
                assert(ops@ =~= change_ops(old(self).current_attr, *change, info.unwrap()));
            },
            Change::ScrollRegionDown { first_row, region_size, scroll_count } => {
                if *region_size > 0 {
                    let word = to_attr_word(&self.current_attr);
                    scroll(*first_row, *region_size, *scroll_count as i32, word, &info.unwrap(), &mut ops);
                }
                assert(ops@ =~= change_ops(old(self).current_attr, *change, info.unwrap()));
            },
            Change::CursorColor(_) => {},
            Change::CursorShape(_) => {},
            Change::Title(_) => {},
        }
        ops
    }

    /// What follows the last change: push the buffered output, and leave the
    /// current attributes set for whatever is written natively next.
    pub fn finish(&self) -> (ops: Vec<ConsoleOp>)
        ensures
            ops@ == seq![ConsoleOp::Flush, ConsoleOp::SetAttr(attr_word(self.current_attr))],
    {
        let mut ops: Vec<ConsoleOp> = Vec::new();
        ops.push(ConsoleOp::Flush);
        ops.push(ConsoleOp::SetAttr(to_attr_word(&self.current_attr)));
        assert(ops@ =~= seq![ConsoleOp::Flush, ConsoleOp::SetAttr(attr_word(self.current_attr))]);
        ops
    }
}

/// The console input handle; rendering reads nothing from it.
pub trait ConsoleInputHandle {
}

/// A call made on a console: an operation, or a read of its buffer info
/// with what the read returned (`None` where it failed).
#[derive(Clone, Debug, PartialEq, Eq)]
pub enum ConsoleCall {
    Op(ConsoleOp),
    GetBufferInfo(Option<BufferInfo>),
}

/// The error that `r` holds, if any.
pub open spec fn err_of<T, E>(r: Result<T, E>) -> Option<E> {
    match r {
        Ok(_) => None,
        Err(e) => Some(e),
    }
}

/// The buffer info that a read returned, if it succeeded.
pub open spec fn info_read<E>(r: Result<BufferInfo, E>) -> Option<BufferInfo> {
    match r {
        Ok(i) => Some(i),
        Err(_) => None,
    }
}

/// The operations of a legacy console screen buffer, and of the text stream
/// in front of it. Nothing is assumed of what they do: the renderer reaches a
/// handle through `Console`, which records each call it makes.
pub trait ConsoleOutputHandle {
    type Error;

    /// Pushes buffered text to the console.
    fn flush(&mut self) -> Result<(), Self::Error>;

    /// Writes text at the cursor.
    fn write_all(&mut self, text: &String) -> Result<(), Self::Error>;

    fn get_buffer_info(&mut self) -> Result<BufferInfo, Self::Error>;

    fn set_viewport(&mut self, left: i16, top: i16, right: i16, bottom: i16) -> Result<
        (),
        Self::Error,
    >;

    fn fill_char(&mut self, text: char, x: i16, y: i16, len: u32) -> Result<u32, Self::Error>;

    fn fill_attr(&mut self, attr: u16, x: i16, y: i16, len: u32) -> Result<u32, Self::Error>;

    fn set_cursor_position(&mut self, x: i16, y: i16) -> Result<(), Self::Error>;

    fn set_attr(&mut self, attr: u16) -> Result<(), Self::Error>;

    fn scroll_region(
        &mut self,
        left: i16,
        top: i16,
        right: i16,
        bottom: i16,
        dx: i16,
        dy: i16,
        attr: u16,
    ) -> Result<(), Self::Error>;
}

/// A console handle together with the record of the calls made on it
/// through this wrapper, each with the error it returned, if any.
pub struct Console<H: ConsoleOutputHandle> {
    handle: H,
    calls: Ghost<Seq<(ConsoleCall, Option<H::Error>)>>,
}

impl<H: ConsoleOutputHandle> Console<H> {
    /// The calls made so far through this wrapper, in order, each with the error it returned, if any.
    pub closed spec fn log(&self) -> Seq<(ConsoleCall, Option<H::Error>)> {
        self.calls@
    }

    /// Wraps `handle`; no call has been made through it yet.
    pub fn new(handle: H) -> (r: Console<H>)
        ensures
            r.log() == Seq::<(ConsoleCall, Option<H::Error>)>::empty(),
    {
        Console { handle, calls: Ghost(Seq::empty()) }
    }

    /// The wrapped handle.
    pub fn handle(&self) -> &H {
        &self.handle
    }

    /// The wrapped handle, given back.
    pub fn into_inner(self) -> H {
        self.handle
    }

    /// Pushes buffered text to the console.
    pub fn flush(&mut self) -> (r: Result<(), H::Error>)
        ensures
            final(self).log() == old(self).log().push((ConsoleCall::Op(ConsoleOp::Flush), err_of(r))),
    {
        let r = self.handle.flush();
        self.calls = Ghost(self.calls@.push((ConsoleCall::Op(ConsoleOp::Flush), err_of(r))));
        r
    }

    /// Writes text at the cursor.
    pub fn write_all(&mut self, text: &String) -> (r: Result<(), H::Error>)
        ensures
            final(self).log() == old(self).log().push((ConsoleCall::Op(ConsoleOp::Write(*text)), err_of(r))),
    {
        let r = self.handle.write_all(text);
        self.calls = Ghost(self.calls@.push((ConsoleCall::Op(ConsoleOp::Write(*text)), err_of(r))));
        r
    }

    /// Reads the buffer info.
    pub fn get_buffer_info(&mut self) -> (r: Result<BufferInfo, H::Error>)
        ensures
            final(self).log() == old(self).log().push(
                (ConsoleCall::GetBufferInfo(info_read(r)), err_of(r)),
            ),
    {
        let r = self.handle.get_buffer_info();
        self.calls = Ghost(self.calls@.push((ConsoleCall::GetBufferInfo(info_read(r)), err_of(r))));
        r
    }

    /// Moves the viewport.
    pub fn set_viewport(&mut self, left: i16, top: i16, right: i16, bottom: i16) -> (r: Result<(), H::Error>)
        ensures
            final(self).log() == old(self).log().push((ConsoleCall::Op(ConsoleOp::SetViewport { left: left as i32, top: top as i32, right: right as i32, bottom: bottom as i32 }), err_of(r))),
    {
        let r = self.handle.set_viewport(left, top, right, bottom);
        self.calls = Ghost(self.calls@.push((ConsoleCall::Op(ConsoleOp::SetViewport { left: left as i32, top: top as i32, right: right as i32, bottom: bottom as i32 }), err_of(r))));
        r
    }

    /// Fills cells with a character.
    pub fn fill_char(&mut self, text: char, x: i16, y: i16, len: u32) -> (r: Result<u32, H::Error>)
        ensures
            final(self).log() == old(self).log().push((ConsoleCall::Op(ConsoleOp::FillChar { ch: text, x: x as i32, y: y as i32, count: len }), err_of(r))),
    {
        let r = self.handle.fill_char(text, x, y, len);
        self.calls = Ghost(self.calls@.push((ConsoleCall::Op(ConsoleOp::FillChar { ch: text, x: x as i32, y: y as i32, count: len }), err_of(r))));
        r
    }

    /// Fills cells with an attribute word.
    pub fn fill_attr(&mut self, attr: u16, x: i16, y: i16, len: u32) -> (r: Result<u32, H::Error>)
        ensures
            final(self).log() == old(self).log().push((ConsoleCall::Op(ConsoleOp::FillAttr { attr, x: x as i32, y: y as i32, count: len }), err_of(r))),
    {
        let r = self.handle.fill_attr(attr, x, y, len);
        self.calls = Ghost(self.calls@.push((ConsoleCall::Op(ConsoleOp::FillAttr { attr, x: x as i32, y: y as i32, count: len }), err_of(r))));
        r
    }

    /// Moves the cursor.
    pub fn set_cursor_position(&mut self, x: i16, y: i16) -> (r: Result<(), H::Error>)
        ensures
            final(self).log() == old(self).log().push((ConsoleCall::Op(ConsoleOp::SetCursorPosition { x: x as i32, y: y as i32 }), err_of(r))),
    {
        let r = self.handle.set_cursor_position(x, y);
        self.calls = Ghost(self.calls@.push((ConsoleCall::Op(ConsoleOp::SetCursorPosition { x: x as i32, y: y as i32 }), err_of(r))));
        r
    }

    /// Sets the attribute word of text written from now on.
    pub fn set_attr(&mut self, attr: u16) -> (r: Result<(), H::Error>)
        ensures
            final(self).log() == old(self).log().push((ConsoleCall::Op(ConsoleOp::SetAttr(attr)), err_of(r))),
    {
        let r = self.handle.set_attr(attr);
        self.calls = Ghost(self.calls@.push((ConsoleCall::Op(ConsoleOp::SetAttr(attr)), err_of(r))));
        r
    }

    /// Scrolls a rectangle.
    pub fn scroll_region(&mut self, left: i16, top: i16, right: i16, bottom: i16, dx: i16, dy: i16, attr: u16) -> (r: Result<(), H::Error>)
        ensures
            final(self).log() == old(self).log().push((ConsoleCall::Op(ConsoleOp::ScrollRegion { left: left as i32, top: top as i32, right: right as i32, bottom: bottom as i32, dx: dx as i32, dy: dy as i32, fill_attr: attr }), err_of(r))),
    {
        let r = self.handle.scroll_region(left, top, right, bottom, dx, dy, attr);
        self.calls = Ghost(self.calls@.push((ConsoleCall::Op(ConsoleOp::ScrollRegion { left: left as i32, top: top as i32, right: right as i32, bottom: bottom as i32, dx: dx as i32, dy: dy as i32, fill_attr: attr }), err_of(r))));
        r
    }
}

/// Why rendering stopped.
#[derive(Debug)]
pub enum RenderError<E> {
    /// A console operation failed.
    Console(E),
    /// The console reported a cursor or viewport outside its buffer.
    InvalidGeometry(BufferInfo),
    /// A coordinate does not fit the console's 16-bit coordinates.
    CoordinateOutOfRange(i32),
}

/// Whether `r` is a failure of a console call.
pub open spec fn is_console_error<E>(r: Result<(), RenderError<E>>) -> bool {
    match r {
        Err(RenderError::Console(_)) => true,
        _ => false,
    }
}

/// The coordinate that `r` reports as out of range, if it does.
pub open spec fn coordinate_error<E>(r: Result<(), RenderError<E>>) -> Option<i32> {
    match r {
        Err(RenderError::CoordinateOutOfRange(v)) => Some(v),
        _ => None,
    }
}

/// The buffer info that `r` reports as inconsistent, if it does.
pub open spec fn geometry_error<E>(r: Result<(), RenderError<E>>) -> Option<BufferInfo> {
    match r {
        Err(RenderError::InvalidGeometry(i)) => Some(i),
        _ => None,
    }
}

/// The current attributes after the changes `changes`, applied in order.
pub open spec fn attributes_after(attr: CellAttributes, changes: Seq<Change>) -> CellAttributes
    decreases changes.len(),
{
    if changes.len() == 0 {
        attr
    } else {
        next_attributes(attributes_after(attr, changes.drop_last()), changes.last())
    }
}

/// Whether `v` is a 16-bit console coordinate.
pub open spec fn fits_i16(v: i32) -> bool {
    i16::MIN <= v <= i16::MAX
}

/// The coordinates that `op` hands to the console, in argument order.
pub open spec fn op_coords(op: ConsoleOp) -> Seq<i32> {
    match op {
        ConsoleOp::SetViewport { left, top, right, bottom } => seq![left, top, right, bottom],
        ConsoleOp::FillChar { x, y, .. } => seq![x, y],
        ConsoleOp::FillAttr { x, y, .. } => seq![x, y],
        ConsoleOp::SetCursorPosition { x, y } => seq![x, y],
        ConsoleOp::ScrollRegion { left, top, right, bottom, dx, dy, .. } => seq![
            left,
            top,
            right,
            bottom,
            dx,
            dy,
        ],
        _ => seq![],
    }
}

/// The first of `s` that is no 16-bit coordinate, if any.
pub open spec fn first_out_of_range(s: Seq<i32>) -> Option<i32>
    decreases s.len(),
{
    if s.len() == 0 {
        None
    } else if !fits_i16(s[0]) {
        Some(s[0])
    } else {
        first_out_of_range(s.drop_first())
    }
}

/// The log of `ops` all performed successfully.
pub open spec fn ok_calls<E>(ops: Seq<ConsoleOp>) -> Seq<(ConsoleCall, Option<E>)> {
    Seq::new(ops.len(), |i: int| (ConsoleCall::Op(ops[i]), None::<E>))
}

/// Whether every coordinate of `op` fits 16 bits.
pub open spec fn fits_op(op: ConsoleOp) -> bool {
    first_out_of_range(op_coords(op)).is_none()
}

/// The calls of `log` after its first `n`.
pub open spec fn calls_after<E>(log: Seq<(ConsoleCall, Option<E>)>, n: int) -> Seq<(ConsoleCall, Option<E>)> {
    log.skip(n)
}

/// Whether performing `ops` in order logged `seg` and gave `r`: every
/// operation is performed until one fails, which gives that failure's error,
/// or until one has a coordinate outside 16 bits, which is not performed and
/// gives that coordinate; `Ok` where all were performed without error.
pub open spec fn ops_outcome<E>(
    ops: Seq<ConsoleOp>,
    seg: Seq<(ConsoleCall, Option<E>)>,
    r: Result<(), RenderError<E>>,
) -> bool {
    match r {
        Ok(_) => seg == ok_calls::<E>(ops) && forall|j: int| 0 <= j < ops.len() ==> #[trigger] fits_op(ops[j]),
        Err(RenderError::Console(e)) => {
            &&& 1 <= seg.len() <= ops.len()
            &&& seg == ok_calls::<E>(ops.take(seg.len() - 1)).push(
                (ConsoleCall::Op(ops[seg.len() - 1]), Some(e)),
            )
            &&& forall|j: int| 0 <= j < seg.len() ==> #[trigger] fits_op(ops[j])
        },
        Err(RenderError::CoordinateOutOfRange(v)) => {
            &&& seg.len() < ops.len()
            &&& seg == ok_calls::<E>(ops.take(seg.len() as int))
            &&& (forall|j: int| 0 <= j < seg.len() ==> #[trigger] fits_op(ops[j]))
            &&& first_out_of_range(op_coords(ops[seg.len() as int])) == Some(v)
        },
        Err(RenderError::InvalidGeometry(_)) => false,
    }
}

/// Whether applying `change`, while `attr` is current, logged `seg` and gave
/// `r`. Where the change needs the buffer info: a flush (whose failure stops
/// the change with its error), then a read of the info (likewise); info
/// whose cursor or viewport lies outside the buffer stops the change with
/// `InvalidGeometry`. Then the change's operations on that info, as in
/// `ops_outcome`.
pub open spec fn step_outcome<E>(
    attr: CellAttributes,
    change: Change,
    seg: Seq<(ConsoleCall, Option<E>)>,
    r: Result<(), RenderError<E>>,
) -> bool {
    if needs_info(change) {
        &&& seg.len() >= 1
        &&& seg[0].0 == ConsoleCall::Op(ConsoleOp::Flush)
        &&& match seg[0].1 {
            Some(e) => seg.len() == 1 && r == Err::<(), RenderError<E>>(RenderError::Console(e)),
            None => seg.len() >= 2 && match seg[1].0 {
                ConsoleCall::GetBufferInfo(None) => seg.len() == 2 && seg[1].1.is_some() && r
                    == Err::<(), RenderError<E>>(RenderError::Console(seg[1].1.unwrap())),
                ConsoleCall::GetBufferInfo(Some(info)) => seg[1].1.is_none() && if info.wf() {
                    ops_outcome(change_ops(attr, change, info), seg.skip(2), r)
                } else {
                    seg.len() == 2 && r == Err::<(), RenderError<E>>(RenderError::InvalidGeometry(info))
                },
                _ => false,
            },
        }
    } else {
        ops_outcome(change_ops(attr, change, Option::<BufferInfo>::None.unwrap()), seg, r)
    }
}

/// Whether a step that logged `seg` got as far as applying `change` to the
/// current attributes: it needs no info, or it read consistent info.
pub open spec fn step_applied<E>(change: Change, seg: Seq<(ConsoleCall, Option<E>)>) -> bool {
    !needs_info(change) || (seg.len() >= 2 && seg[0].1.is_none() && match seg[1].0 {
        ConsoleCall::GetBufferInfo(Some(info)) => info.wf(),
        _ => false,
    })
}

/// The operations that end a render: push the buffered text and leave `attr` set.
pub open spec fn finish_ops(attr: CellAttributes) -> Seq<ConsoleOp> {
    seq![ConsoleOp::Flush, ConsoleOp::SetAttr(attr_word(attr))]
}

/// Whether rendering `changes` from attributes `attr` logged `segs` (one
/// part per change applied in full, each without error) then `rest`, ended
/// with attributes `final_attr`, and gave `r`. Where a change stopped with an
/// error, `rest` is its part and nothing follows; else `rest` is the finish.
pub open spec fn render_trace<E>(
    attr: CellAttributes,
    changes: Seq<Change>,
    segs: Seq<Seq<(ConsoleCall, Option<E>)>>,
    rest: Seq<(ConsoleCall, Option<E>)>,
    final_attr: CellAttributes,
    r: Result<(), RenderError<E>>,
) -> bool {
    &&& segs.len() <= changes.len()
    &&& forall|j: int|
        0 <= j < segs.len() ==> step_outcome(
            attributes_after(attr, changes.take(j)),
            changes[j],
            #[trigger] segs[j],
            Ok::<(), RenderError<E>>(()),
        )
    &&& if segs.len() < changes.len() {
        let a = attributes_after(attr, changes.take(segs.len() as int));
        let c = changes[segs.len() as int];
        &&& r.is_err()
        &&& step_outcome(a, c, rest, r)
        &&& final_attr == (if step_applied(c, rest) {
            next_attributes(a, c)
        } else {
            a
        })
    } else {
        &&& final_attr == attributes_after(attr, changes)
        &&& ops_outcome(finish_ops(final_attr), rest, r)
    }
}

proof fn lemma_first_out_of_range_none(s: Seq<i32>)
    requires
        first_out_of_range(s).is_none(),
    ensures
        forall|i: int| 0 <= i < s.len() ==> fits_i16(#[trigger] s[i]),
    decreases s.len(),
{
    if s.len() > 0 {
        lemma_first_out_of_range_none(s.drop_first());
        assert forall|i: int| 0 <= i < s.len() implies fits_i16(#[trigger] s[i]) by {
            if i > 0 {
                assert(s[i] == s.drop_first()[i - 1]);
            }
        }
    }
}

fn op_coord_vec(op: &ConsoleOp) -> (r: Vec<i32>)
    ensures
        r@ == op_coords(*op),
{
    let r: Vec<i32> = match op {
        ConsoleOp::SetViewport { left, top, right, bottom } => vec![*left, *top, *right, *bottom],
        ConsoleOp::FillChar { x, y, .. } => vec![*x, *y],
        ConsoleOp::FillAttr { x, y, .. } => vec![*x, *y],
        ConsoleOp::SetCursorPosition { x, y } => vec![*x, *y],
        ConsoleOp::ScrollRegion { left, top, right, bottom, dx, dy, .. } => vec![
            *left,
            *top,
            *right,
            *bottom,
            *dx,
            *dy,
        ],
        _ => Vec::new(),
    };
    assert(r@ =~= op_coords(*op));
    r
}

fn first_bad_coord(v: &Vec<i32>) -> (r: Option<i32>)
    ensures
        r == first_out_of_range(v@),
{
    let mut i: usize = 0;
    assert(v@.skip(0) =~= v@);
    while i < v.len()
        invariant
            i <= v.len(),
            first_out_of_range(v@) == first_out_of_range(v@.skip(i as int)),
        decreases v.len() - i,
    {
        assert(v@.skip(i as int)[0] == v@[i as int]);
        if v[i] < i16::MIN as i32 || v[i] > i16::MAX as i32 {
            return Some(v[i]);
        }
        assert(v@.skip(i as int).drop_first() =~= v@.skip(i + 1));
        i = i + 1;
    }
    assert(v@.skip(i as int) =~= Seq::<i32>::empty());
    None
}

fn console<T, E>(r: Result<T, E>) -> (o: Result<(), RenderError<E>>)
    ensures
        o == (match r {
            Ok(_) => Ok::<(), RenderError<E>>(()),
            Err(e) => Err(RenderError::Console(e)),
        }),
{
    match r {
        Ok(_) => Ok(()),
        Err(e) => Err(RenderError::Console(e)),
    }
}

/// The console error of `r`, if it is one.
pub open spec fn console_err<E>(r: Result<(), RenderError<E>>) -> Option<E> {
    match r {
        Err(RenderError::Console(e)) => Some(e),
        _ => None,
    }
}

/// Performs one operation on the console: none where one of its coordinates
/// does not fit 16 bits.
fn perform<H: ConsoleOutputHandle>(out: &mut Console<H>, op: ConsoleOp) -> (r: Result<(), RenderError<H::Error>>)
    ensures
        match first_out_of_range(op_coords(op)) {
            Some(v) => r == Err::<(), RenderError<H::Error>>(RenderError::CoordinateOutOfRange(v))
                && final(out).log() == old(out).log(),
            None => final(out).log() == old(out).log().push((ConsoleCall::Op(op), console_err(r)))
                && (r.is_ok() || console_err(r).is_some()),
        },
{
    let coords = op_coord_vec(&op);
    if let Some(v) = first_bad_coord(&coords) {
        return Err(RenderError::CoordinateOutOfRange(v));
    }
    proof {
        lemma_first_out_of_range_none(coords@);
    }
    match op {
        ConsoleOp::Flush => console(out.flush()),
        ConsoleOp::SetViewport { left, top, right, bottom } => {
            assert(fits_i16(coords@[0]) && fits_i16(coords@[1]) && fits_i16(coords@[2]) && fits_i16(coords@[3]));
            console(out.set_viewport(left as i16, top as i16, right as i16, bottom as i16))
        },
        ConsoleOp::FillChar { ch, x, y, count } => {
            assert(fits_i16(coords@[0]) && fits_i16(coords@[1]));
            console(out.fill_char(ch, x as i16, y as i16, count))
        },
        ConsoleOp::FillAttr { attr, x, y, count } => {
            assert(fits_i16(coords@[0]) && fits_i16(coords@[1]));
            console(out.fill_attr(attr, x as i16, y as i16, count))
        },
        ConsoleOp::SetCursorPosition { x, y } => {
            assert(fits_i16(coords@[0]) && fits_i16(coords@[1]));
            console(out.set_cursor_position(x as i16, y as i16))
        },
        ConsoleOp::SetAttr(attr) => console(out.set_attr(attr)),
        ConsoleOp::Write(text) => console(out.write_all(&text)),
        ConsoleOp::ScrollRegion { left, top, right, bottom, dx, dy, fill_attr } => {
            assert(fits_i16(coords@[0]) && fits_i16(coords@[1]) && fits_i16(coords@[2]) && fits_i16(coords@[3]));
            assert(fits_i16(coords@[4]) && fits_i16(coords@[5]));
            console(
                out.scroll_region(
                    left as i16,
                    top as i16,
                    right as i16,
                    bottom as i16,
                    dx as i16,
                    dy as i16,
                    fill_attr,
                ),
            )
        },
    }
}

/// Performs `ops` in order, stopping at the first that fails or that has a
/// coordinate outside 16 bits (see `ops_outcome`).
fn perform_all<H: ConsoleOutputHandle>(out: &mut Console<H>, ops: Vec<ConsoleOp>) -> (r: Result<
    (),
    RenderError<H::Error>,
>)
    ensures
        old(out).log().is_prefix_of(final(out).log()),
        ops_outcome(ops@, calls_after(final(out).log(), old(out).log().len() as int), r),
{
    let ghost all = ops@;
    let ghost start = out.log();
    let ghost mut done: int = 0;
    let mut pending = ops;
    assert(calls_after(start, start.len() as int) =~= ok_calls::<H::Error>(all.take(0)));
    while pending.len() > 0
        invariant
            0 <= done <= all.len(),
            pending@ == all.skip(done),
            all == ops@,
            start.is_prefix_of(out.log()),
            start == old(out).log(),
            calls_after(out.log(), start.len() as int) == ok_calls::<H::Error>(all.take(done)),
            forall|j: int| 0 <= j < done ==> #[trigger] fits_op(all[j]),
        decreases pending.len(),
    {
        let ghost before = out.log();
        let op = pending.remove(0);
        assert(op == all[done]);
        let res = perform(out, op);
        proof {
            if fits_op(op) {
                assert(calls_after(out.log(), start.len() as int) =~= calls_after(
                    before,
                    start.len() as int,
                ).push((ConsoleCall::Op(op), console_err(res))));
            }
        }
        match res {
            Ok(()) => {},
            Err(e) => {
                proof {
                    let new = calls_after(out.log(), start.len() as int);
                    assert(done < all.len());
                    if fits_op(op) {
                        assert(new.len() == done + 1);
                        assert(all.take(new.len() - 1) =~= all.take(done));
                        assert(forall|j: int| 0 <= j < new.len() ==> #[trigger] fits_op(all[j]));
                        assert(ops_outcome(all, new, Err::<(), RenderError<H::Error>>(e)));
                    } else {
                        assert(new.len() == done);
                        assert(all.take(new.len() as int) =~= all.take(done));
                        assert(ops_outcome(all, new, Err::<(), RenderError<H::Error>>(e)));
                    }
                }
                return Err(e);
            },
        }
        proof {
            assert(all.skip(done).drop_first() =~= all.skip(done + 1));
            assert(ok_calls::<H::Error>(all.take(done)).push((ConsoleCall::Op(op), None::<H::Error>))
                =~= ok_calls::<H::Error>(all.take(done + 1)));
            done = done + 1;
        }
        assert(pending@ =~= all.skip(done));
    }
    assert(all.take(done) =~= all);
    Ok(())
}

impl WindowsConsoleRenderer {
    /// Applies one change to the console (see `step_outcome`): where the
    /// change needs the buffer info, buffered text is flushed and the info is
    /// read first, and info whose cursor or viewport lies outside the buffer
    /// stops the change; then the change's operations are performed. The
    /// current attributes change once the change gets that far.
    pub fn render_step<H: ConsoleOutputHandle>(&mut self, change: &Change, out: &mut Console<H>) -> (r: Result<
        (),
        RenderError<H::Error>,
    >)
        ensures
            old(out).log().is_prefix_of(final(out).log()),
            step_outcome(
                old(self).current_attr,
                *change,
                calls_after(final(out).log(), old(out).log().len() as int),
                r,
            ),
            final(self).current_attr == (if step_applied(
                *change,
                calls_after(final(out).log(), old(out).log().len() as int),
            ) {
                next_attributes(old(self).current_attr, *change)
            } else {
                old(self).current_attr
            }),
    {
        let ghost start = out.log();
        let ghost attr = self.current_attr;
        let info: Option<BufferInfo> = if needs_buffer_info(change) {
            if let Err(e) = out.flush() {
                assert(calls_after(out.log(), start.len() as int) =~= seq![(ConsoleCall::Op(ConsoleOp::Flush), Some(e))]);
                return Err(RenderError::Console(e));
            }
            let ghost after_flush = out.log();
            let read = out.get_buffer_info();
            let info = match read {
                Ok(info) => info,
                Err(e) => {
                    assert(calls_after(out.log(), start.len() as int) =~= seq![
                        (ConsoleCall::Op(ConsoleOp::Flush), None),
                        (ConsoleCall::GetBufferInfo(None), Some(e)),
                    ]);
                    return Err(RenderError::Console(e));
                },
            };
            if !info.is_consistent() {
                assert(calls_after(out.log(), start.len() as int) =~= seq![
                    (ConsoleCall::Op(ConsoleOp::Flush), None),
                    (ConsoleCall::GetBufferInfo(Some(info)), None),
                ]);
                return Err(RenderError::InvalidGeometry(info));
            }
            Some(info)
        } else {
            None
        };
        let ghost mid = out.log();
        assert(calls_after(mid, start.len() as int) =~= (if needs_info(*change) {
            seq![
                (ConsoleCall::Op(ConsoleOp::Flush), None::<H::Error>),
                (ConsoleCall::GetBufferInfo(info), None::<H::Error>),
            ]
        } else {
            Seq::empty()
        }));
        let ops = self.render_change(change, info);
        let r = perform_all(out, ops);
        proof {
            let seg = calls_after(out.log(), start.len() as int);
            let tail = calls_after(out.log(), mid.len() as int);
            assert(seg =~= calls_after(mid, start.len() as int) + tail);
            if needs_info(*change) {
                assert(seg.skip(2) =~= tail);
            } else {
                assert(seg =~= tail);
            }
        }
        r
    }

    /// Applies `changes` to the console in order, then pushes buffered text
    /// and leaves the current attributes set (see `render_trace`). The first
    /// failure stops rendering: no call follows the failing one, the error
    /// is the console's own where a console call failed, and the attributes
    /// of the changes applied so far are kept.
    pub fn render_to<A: ConsoleInputHandle, H: ConsoleOutputHandle>(
        &mut self,
        changes: &Vec<Change>,
        _read: &mut A,
        out: &mut Console<H>,
    ) -> (r: Result<(), RenderError<H::Error>>)
        ensures
            old(out).log().is_prefix_of(final(out).log()),
            exists|segs: Seq<Seq<(ConsoleCall, Option<H::Error>)>>, rest: Seq<(ConsoleCall, Option<H::Error>)>|
                {
                    &&& render_trace(
                        old(self).current_attr,
                        changes@,
                        segs,
                        rest,
                        final(self).current_attr,
                        r,
                    )
                    &&& #[trigger] calls_after(final(out).log(), old(out).log().len() as int)
                        == segs.flatten() + rest
                },
            r.is_ok() ==> final(self).current_attr == attributes_after(
                old(self).current_attr,
                changes@,
            ),
    {
        let ghost start = self.current_attr;
        let ghost log0 = out.log();
        let ghost mut segs: Seq<Seq<(ConsoleCall, Option<H::Error>)>> = Seq::empty();
        let mut i: usize = 0;
        assert(changes@.take(0) =~= Seq::<Change>::empty());
        assert(calls_after(log0, log0.len() as int) =~= segs.flatten());
        while i < changes.len()
            invariant
                i <= changes.len(),
                self.current_attr == attributes_after(start, changes@.take(i as int)),
                start == old(self).current_attr,
                log0 == old(out).log(),
                log0.is_prefix_of(out.log()),
                segs.len() == i,
                forall|j: int|
                    0 <= j < i ==> step_outcome(
                        attributes_after(start, changes@.take(j)),
                        changes@[j],
                        #[trigger] segs[j],
                        Ok::<(), RenderError<H::Error>>(()),
                    ),
                calls_after(out.log(), log0.len() as int) == segs.flatten(),
            decreases changes.len() - i,
        {
            let ghost before = out.log();
            let step = self.render_step(&changes[i], out);
            proof {
                let t = changes@.take(i + 1);
                assert(t.drop_last() =~= changes@.take(i as int));
                assert(t.last() == changes@[i as int]);
                let seg = calls_after(out.log(), before.len() as int);
                assert(calls_after(out.log(), log0.len() as int) =~= segs.flatten() + seg);
                if step.is_err() {
                    assert(render_trace(start, changes@, segs, seg, self.current_attr, step));
                }
            }
            if let Err(e) = step {
                return Err(e);
            }
            proof {
                let seg = calls_after(out.log(), before.len() as int);
                segs.lemma_flatten_push(seg);
                segs = segs.push(seg);
                assert(segs.flatten() =~= calls_after(out.log(), log0.len() as int));
            }
            i = i + 1;
        }
        assert(changes@.take(i as int) =~= changes@);
        let ghost before = out.log();
        let fin = self.finish();
        assert(fin@ == finish_ops(self.current_attr));
        let r = perform_all(out, fin);
        proof {
            let tail = calls_after(out.log(), before.len() as int);
            assert(calls_after(out.log(), log0.len() as int) =~= segs.flatten() + tail);
            assert(render_trace(start, changes@, segs, tail, self.current_attr, r));
        }
        r
    }
}

/// Whether `op` may change a cell in a row above `row`. Fills run forward from
/// their start cell; moving the viewport or the cursor changes no cell; text
/// lands wherever the cursor is.
pub open spec fn may_modify_above(op: ConsoleOp, row: int) -> bool {
    match op {
        ConsoleOp::FillChar { x, y, .. } => y < row || x < 0,
        ConsoleOp::FillAttr { x, y, .. } => y < row || x < 0,
        ConsoleOp::ScrollRegion { top, .. } => top < row,
        ConsoleOp::Write(_) => true,
        _ => false,
    }
}

/// A move to absolute row 0 lands on the viewport's top row, not on the first
/// row of the screen buffer.
pub proof fn lemma_absolute_row_is_viewport_relative(
    attr: CellAttributes,
    x: Position,
    info: BufferInfo,
)
    requires
        info.wf(),
    ensures
        change_ops(attr, Change::CursorPosition { x, y: Position::Absolute(0) }, info) == seq![
            ConsoleOp::SetCursorPosition { x: resolve_x(x, info) as i32, y: info.top as i32 },
        ],
{
}

/// Clearing the screen changes no cell above the viewport's top row: the
/// scrollback is kept.
pub proof fn lemma_clear_screen_keeps_scrollback(
    attr: CellAttributes,
    color: ColorAttribute,
    info: BufferInfo,
)
    requires
        info.wf(),
    ensures
        forall|i: int|
            0 <= i < change_ops(attr, Change::ClearScreen(color), info).len() ==> !may_modify_above(
                #[trigger] change_ops(attr, Change::ClearScreen(color), info)[i],
                info.top as int,
            ),
{
}

/// An attribute change emits no operation; the text that follows is written
/// after exactly one attribute word, that of the changed attributes.
pub proof fn lemma_attribute_change_is_deferred(
    attr: CellAttributes,
    change: AttributeChange,
    text: String,
    info: BufferInfo,
)
    ensures
        change_ops(attr, Change::Attribute(change), info) == Seq::<ConsoleOp>::empty(),
        !needs_info(Change::Attribute(change)),
        change_ops(next_attributes(attr, Change::Attribute(change)), Change::Text(text), info)
            == seq![
            ConsoleOp::Flush,
            ConsoleOp::SetAttr(attr_word(apply_attribute_change(attr, change))),
            ConsoleOp::Write(text),
        ],
{
}

/// Scrolling an empty region reads nothing from the console and performs nothing.
pub proof fn lemma_empty_scroll_region_is_noop(
    attr: CellAttributes,
    first_row: u16,
    scroll_count: u16,
    info: BufferInfo,
)
    ensures
        !needs_info(Change::ScrollRegionUp { first_row, region_size: 0, scroll_count }),
        change_ops(attr, Change::ScrollRegionUp { first_row, region_size: 0, scroll_count }, info)
            == Seq::<ConsoleOp>::empty(),
        !needs_info(Change::ScrollRegionDown { first_row, region_size: 0, scroll_count }),
        change_ops(attr, Change::ScrollRegionDown { first_row, region_size: 0, scroll_count }, info)
            == Seq::<ConsoleOp>::empty(),
{
}

/// A render of one empty scroll region makes no call for it: what it logs is
/// the finish alone, with the attributes unchanged.
pub proof fn lemma_render_empty_scroll_region<E>(
    attr: CellAttributes,
    first_row: u16,
    scroll_count: u16,
    segs: Seq<Seq<(ConsoleCall, Option<E>)>>,
    rest: Seq<(ConsoleCall, Option<E>)>,
    final_attr: CellAttributes,
    r: Result<(), RenderError<E>>,
)
    requires
        render_trace(
            attr,
            seq![Change::ScrollRegionUp { first_row, region_size: 0, scroll_count }],
            segs,
            rest,
            final_attr,
            r,
        ),
    ensures
        segs.flatten() == Seq::<(ConsoleCall, Option<E>)>::empty(),
        final_attr == attr,
        ops_outcome(finish_ops(attr), rest, r),
{
    let changes = seq![Change::ScrollRegionUp { first_row, region_size: 0, scroll_count }];
    assert(changes.take(0) =~= Seq::<Change>::empty());
    assert(changes.take(1) =~= changes);
    assert(changes.drop_last() =~= Seq::<Change>::empty());
    assert(attributes_after(attr, changes.drop_last()) == attr);
    assert(attributes_after(attr, changes) == attr);
    if segs.len() == 0 {
        assert(change_ops(attr, changes[0], Option::<BufferInfo>::None.unwrap()) =~= Seq::<ConsoleOp>::empty());
        assert(false);
    } else {
        assert(change_ops(attr, changes[0], Option::<BufferInfo>::None.unwrap()) =~= Seq::<ConsoleOp>::empty());
        assert(segs[0] =~= Seq::<(ConsoleCall, Option<E>)>::empty());
        assert(segs.drop_first() =~= Seq::<Seq<(ConsoleCall, Option<E>)>>::empty());
        assert(segs.flatten() =~= segs[0] + segs.drop_first().flatten());
    }
}

/// Whether no call of `seg` failed.
pub open spec fn no_failure<E>(seg: Seq<(ConsoleCall, Option<E>)>) -> bool {
    forall|i: int| 0 <= i < seg.len() ==> (#[trigger] seg[i]).1.is_none()
}

/// Whether the buffer info that `seg` read for `change`, applied while
/// `attr` is current, is consistent and gives operations whose coordinates
/// all fit 16 bits; for a change that reads no info, whether its operations fit.
pub open spec fn step_fits<E>(attr: CellAttributes, change: Change, seg: Seq<(ConsoleCall, Option<E>)>) -> bool {
    if needs_info(change) {
        seg.len() >= 2 ==> match seg[1].0 {
            ConsoleCall::GetBufferInfo(Some(info)) => info.wf() && forall|j: int|
                0 <= j < change_ops(attr, change, info).len() ==> #[trigger] fits_op(
                    change_ops(attr, change, info)[j],
                ),
            _ => true,
        }
    } else {
        forall|j: int|
            0 <= j < change_ops(attr, change, Option::<BufferInfo>::None.unwrap()).len()
                ==> #[trigger] fits_op(change_ops(attr, change, Option::<BufferInfo>::None.unwrap())[j])
    }
}

/// Operations that all fit, performed without a failing call, succeed.
pub proof fn lemma_ops_no_failure<E>(
    ops: Seq<ConsoleOp>,
    seg: Seq<(ConsoleCall, Option<E>)>,
    r: Result<(), RenderError<E>>,
)
    requires
        ops_outcome(ops, seg, r),
        no_failure(seg),
        forall|j: int| 0 <= j < ops.len() ==> #[trigger] fits_op(ops[j]),
    ensures
        r.is_ok(),
        seg == ok_calls::<E>(ops),
{
    match r {
        Err(RenderError::Console(e)) => {
            assert(seg[seg.len() - 1].1 == Some(e));
        },
        Err(RenderError::CoordinateOutOfRange(v)) => {
            assert(fits_op(ops[seg.len() as int]));
        },
        _ => {},
    }
}

/// A change applied without a failing call, whose read info is consistent
/// and whose coordinates fit, succeeds.
pub proof fn lemma_step_no_failure<E>(
    attr: CellAttributes,
    change: Change,
    seg: Seq<(ConsoleCall, Option<E>)>,
    r: Result<(), RenderError<E>>,
)
    requires
        step_outcome(attr, change, seg, r),
        no_failure(seg),
        step_fits(attr, change, seg),
    ensures
        r.is_ok(),
{
    if needs_info(change) {
        assert(seg[0].1.is_none());
        assert(seg[1].1.is_none());
        if let ConsoleCall::GetBufferInfo(Some(info)) = seg[1].0 {
            let tail = seg.skip(2);
            assert forall|i: int| 0 <= i < tail.len() implies (#[trigger] tail[i]).1.is_none() by {
                assert(tail[i] == seg[i + 2]);
            }
            lemma_ops_no_failure(change_ops(attr, change, info), tail, r);
        }
    } else {
        lemma_ops_no_failure(change_ops(attr, change, Option::<BufferInfo>::None.unwrap()), seg, r);
    }
}

/// A render succeeds where none of its calls failed, every buffer info it
/// read was consistent, and every coordinate it was to hand over fit.
pub proof fn lemma_render_no_failure<E>(
    attr: CellAttributes,
    changes: Seq<Change>,
    segs: Seq<Seq<(ConsoleCall, Option<E>)>>,
    rest: Seq<(ConsoleCall, Option<E>)>,
    final_attr: CellAttributes,
    r: Result<(), RenderError<E>>,
)
    requires
        render_trace(attr, changes, segs, rest, final_attr, r),
        no_failure(rest),
        segs.len() < changes.len() ==> step_fits(
            attributes_after(attr, changes.take(segs.len() as int)),
            changes[segs.len() as int],
            rest,
        ),
    ensures
        r.is_ok(),
        segs.len() == changes.len(),
        final_attr == attributes_after(attr, changes),
        rest == ok_calls::<E>(finish_ops(final_attr)),
{
    if segs.len() < changes.len() {
        lemma_step_no_failure(
            attributes_after(attr, changes.take(segs.len() as int)),
            changes[segs.len() as int],
            rest,
            r,
        );
    } else {
        let f = finish_ops(final_attr);
        assert forall|j: int| 0 <= j < f.len() implies #[trigger] fits_op(f[j]) by {
            assert(op_coords(f[j]) =~= Seq::<i32>::empty());
        }
        lemma_ops_no_failure(f, rest, r);
    }
}

} // verus!
