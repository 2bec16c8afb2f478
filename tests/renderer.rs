use termwiz_core::cell::{AttributeChange, CellAttributes, Intensity, Underline};
use termwiz_core::color::{AnsiColor, ColorAttribute, RgbColor};
use termwiz_core::render::{
    needs_buffer_info, to_attr_word, BufferInfo, ConsoleOp, WindowsConsoleRenderer,
};
use termwiz_core::surface::{Change, CursorShape, Image, Position};

fn info() -> BufferInfo {
    BufferInfo {
        size_x: 120,
        size_y: 300,
        cursor_x: 5,
        cursor_y: 4,
        left: 0,
        top: 100,
        right: 79,
        bottom: 124,
    }
}

fn apply(r: &mut WindowsConsoleRenderer, change: &Change, info: BufferInfo) -> Vec<ConsoleOp> {
    let i = if needs_buffer_info(change) { Some(info) } else { None };
    r.render_change(change, i)
}

#[test]
fn new_renderer_has_default_attributes() {
    let r = WindowsConsoleRenderer::new();
    assert_eq!(r.current_attr, CellAttributes::default());
    assert_eq!(r.finish(), vec![ConsoleOp::Flush, ConsoleOp::SetAttr(15)]);
}

#[test]
fn attribute_words() {
    let mut a = CellAttributes::default();
    assert_eq!(to_attr_word(&a), 0x000f);
    a.foreground = ColorAttribute::PaletteIndex(9);
    assert_eq!(to_attr_word(&a), 0x000c);
    a.background = ColorAttribute::PaletteIndex(4);
    assert_eq!(to_attr_word(&a), 0x001c);
    a.background = ColorAttribute::PaletteIndex(14);
    assert_eq!(to_attr_word(&a), 0x00bc);
    a.reverse = true;
    assert_eq!(to_attr_word(&a), 0x40bc);
    a.underline = Underline::Double;
    assert_eq!(to_attr_word(&a), 0xc0bc);
    a.italic = true;
    a.strikethrough = true;
    a.invisible = true;
    assert_eq!(to_attr_word(&a), 0xc0bc);

    let mut b = CellAttributes::default();
    b.foreground = ColorAttribute::PaletteIndex(200);
    b.background = ColorAttribute::PaletteIndex(200);
    assert_eq!(to_attr_word(&b), 0x000f);
    b.foreground = ColorAttribute::TrueColorWithPaletteFallback(RgbColor { red: 1, green: 2, blue: 3 }, 1);
    b.background = ColorAttribute::TrueColorWithDefaultFallback(RgbColor { red: 1, green: 2, blue: 3 });
    assert_eq!(to_attr_word(&b), 0x0004);
    b.foreground = ColorAttribute::TrueColorWithDefaultFallback(RgbColor { red: 1, green: 2, blue: 3 });
    b.background = ColorAttribute::TrueColorWithPaletteFallback(RgbColor { red: 1, green: 2, blue: 3 }, 6);
    assert_eq!(to_attr_word(&b), 0x003f);
}

#[test]
fn ansi_color_indices() {
    assert_eq!(AnsiColor::from_u8(0), Some(AnsiColor::Black));
    assert_eq!(AnsiColor::from_u8(13), Some(AnsiColor::Fuschia));
    assert_eq!(AnsiColor::from_u8(16), None);
}

#[test]
fn absolute_row_is_viewport_relative() {
    let mut r = WindowsConsoleRenderer::new();
    let ops = apply(
        &mut r,
        &Change::CursorPosition { x: Position::Absolute(3), y: Position::Absolute(0) },
        info(),
    );
    assert_eq!(ops, vec![ConsoleOp::SetCursorPosition { x: 3, y: 100 }]);
}

#[test]
fn cursor_moves() {
    let mut r = WindowsConsoleRenderer::new();
    let ops = apply(
        &mut r,
        &Change::CursorPosition { x: Position::Relative(-2), y: Position::EndRelative(1) },
        info(),
    );
    assert_eq!(ops, vec![ConsoleOp::SetCursorPosition { x: 3, y: 123 }]);
    let ops = apply(
        &mut r,
        &Change::CursorPosition { x: Position::EndRelative(1), y: Position::Relative(2) },
        info(),
    );
    assert_eq!(ops, vec![ConsoleOp::SetCursorPosition { x: 119, y: 6 }]);
    let ops = apply(
        &mut r,
        &Change::CursorPosition { x: Position::NoChange, y: Position::NoChange },
        info(),
    );
    assert_eq!(ops, vec![ConsoleOp::SetCursorPosition { x: 5, y: 4 }]);
}

#[test]
fn clear_screen_keeps_scrollback() {
    let mut r = WindowsConsoleRenderer::new();
    let mut i = info();
    i.left = 10;
    i.right = 89;
    let ops = apply(&mut r, &Change::ClearScreen(ColorAttribute::PaletteIndex(4)), i);
    assert_eq!(
        ops,
        vec![
            ConsoleOp::SetViewport { left: 0, top: 100, right: 79, bottom: 124 },
            ConsoleOp::FillChar { ch: ' ', x: 0, y: 100, count: 120 * 200 },
            ConsoleOp::FillAttr { attr: 0x001f, x: 0, y: 100, count: 120 * 200 },
            ConsoleOp::SetCursorPosition { x: 0, y: 100 },
        ]
    );
    let mut expected = CellAttributes::default();
    expected.background = ColorAttribute::PaletteIndex(4);
    assert_eq!(r.current_attr, expected);

    let ops = apply(&mut r, &Change::ClearScreen(ColorAttribute::Default), info());
    assert_eq!(ops.len(), 3);
}

#[test]
fn clear_to_end_of_line_and_screen() {
    let mut r = WindowsConsoleRenderer::new();
    r.current_attr.italic = true;
    let ops = apply(&mut r, &Change::ClearToEndOfLine(ColorAttribute::Default), info());
    assert_eq!(
        ops,
        vec![
            ConsoleOp::FillChar { ch: ' ', x: 5, y: 4, count: 115 },
            ConsoleOp::FillAttr { attr: 0x000f, x: 5, y: 4, count: 115 },
        ]
    );
    assert_eq!(r.current_attr, CellAttributes::default());
    let ops = apply(&mut r, &Change::ClearToEndOfScreen(ColorAttribute::PaletteIndex(1)), info());
    assert_eq!(
        ops,
        vec![
            ConsoleOp::FillChar { ch: ' ', x: 5, y: 4, count: 115 },
            ConsoleOp::FillAttr { attr: 0x004f, x: 5, y: 4, count: 115 },
            ConsoleOp::FillChar { ch: ' ', x: 0, y: 5, count: 120 * 295 },
            ConsoleOp::FillAttr { attr: 0x004f, x: 0, y: 5, count: 120 * 295 },
        ]
    );
}

#[test]
fn attribute_change_is_deferred() {
    let mut r = WindowsConsoleRenderer::new();
    let red = Change::Attribute(AttributeChange::Foreground(ColorAttribute::PaletteIndex(9)));
    assert!(!needs_buffer_info(&red));
    assert_eq!(apply(&mut r, &red, info()), vec![]);
    let ops = apply(&mut r, &Change::Text("x".to_owned()), info());
    assert_eq!(
        ops,
        vec![
            ConsoleOp::Flush,
            ConsoleOp::SetAttr(0x000c),
            ConsoleOp::Write("x".to_owned()),
        ]
    );
}

#[test]
fn all_attributes_replace_current() {
    let mut r = WindowsConsoleRenderer::new();
    let mut a = CellAttributes::default();
    a.intensity = Intensity::Bold;
    a.reverse = true;
    assert_eq!(apply(&mut r, &Change::AllAttributes(a), info()), vec![]);
    assert_eq!(r.current_attr, a);
    assert_eq!(r.finish(), vec![ConsoleOp::Flush, ConsoleOp::SetAttr(0x400f)]);
    assert_eq!(apply(&mut r, &Change::Title("t".to_owned()), info()), vec![]);
    assert_eq!(apply(&mut r, &Change::CursorShape(CursorShape::SteadyBar), info()), vec![]);
    assert_eq!(apply(&mut r, &Change::CursorColor(ColorAttribute::Default), info()), vec![]);
    assert_eq!(r.current_attr, a);
}

#[test]
fn empty_scroll_region_is_noop() {
    let mut r = WindowsConsoleRenderer::new();
    let up = Change::ScrollRegionUp { first_row: 2, region_size: 0, scroll_count: 1 };
    assert!(!needs_buffer_info(&up));
    assert_eq!(r.render_change(&up, None), vec![]);
    let down = Change::ScrollRegionDown { first_row: 2, region_size: 0, scroll_count: 1 };
    assert!(!needs_buffer_info(&down));
    assert_eq!(r.render_change(&down, None), vec![]);
}

#[test]
fn scroll_regions() {
    let mut r = WindowsConsoleRenderer::new();
    let ops = apply(
        &mut r,
        &Change::ScrollRegionUp { first_row: 2, region_size: 10, scroll_count: 3 },
        info(),
    );
    assert_eq!(
        ops,
        vec![ConsoleOp::ScrollRegion {
            left: 0,
            top: 102,
            right: 79,
            bottom: 112,
            dx: 0,
            dy: -3,
            fill_attr: 0x000f,
        }]
    );
    let ops = apply(
        &mut r,
        &Change::ScrollRegionDown { first_row: 0, region_size: 1, scroll_count: 2 },
        info(),
    );
    assert_eq!(
        ops,
        vec![ConsoleOp::ScrollRegion {
            left: 0,
            top: 100,
            right: 79,
            bottom: 101,
            dx: 0,
            dy: 2,
            fill_attr: 0x000f,
        }]
    );
}

#[test]
fn image_fallback() {
    let mut r = WindowsConsoleRenderer::new();
    let ops = apply(&mut r, &Change::Image(Image { width: 3, height: 2 }), info());
    assert_eq!(
        ops,
        vec![
            ConsoleOp::FillChar { ch: ' ', x: 5, y: 4, count: 3 },
            ConsoleOp::FillChar { ch: ' ', x: 5, y: 5, count: 3 },
            ConsoleOp::SetCursorPosition { x: 8, y: 4 },
        ]
    );
}

#[test]
fn buffer_info_consistency() {
    assert!(info().is_consistent());
    let mut i = info();
    i.cursor_y = 300;
    assert!(!i.is_consistent());
    let mut i = info();
    i.left = 80;
    assert!(!i.is_consistent());
}
