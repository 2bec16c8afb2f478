use termwiz_core::cell::AttributeChange;
use termwiz_core::color::ColorAttribute;
use termwiz_core::render::{
    BufferInfo, Console, ConsoleInputHandle, ConsoleOutputHandle, RenderError,
    WindowsConsoleRenderer,
};
use termwiz_core::surface::{Change, Image, Position};

struct NoInput;

impl ConsoleInputHandle for NoInput {}

struct Recorder {
    info: BufferInfo,
    calls: Vec<String>,
    fail_on: Option<&'static str>,
}

impl Recorder {
    fn new() -> Recorder {
        Recorder {
            info: BufferInfo {
                size_x: 80,
                size_y: 200,
                cursor_x: 5,
                cursor_y: 4,
                left: 0,
                top: 50,
                right: 79,
                bottom: 74,
            },
            calls: Vec::new(),
            fail_on: None,
        }
    }

    fn call(&mut self, name: &'static str, text: String) -> Result<(), String> {
        self.calls.push(text);
        if self.fail_on == Some(name) {
            Err(format!("{} failed", name))
        } else {
            Ok(())
        }
    }
}

impl ConsoleOutputHandle for Recorder {
    type Error = String;

    fn flush(&mut self) -> Result<(), String> {
        self.call("flush", "flush".to_owned())
    }

    fn write_all(&mut self, text: &String) -> Result<(), String> {
        self.call("write", format!("write {}", text))
    }

    fn get_buffer_info(&mut self) -> Result<BufferInfo, String> {
        self.call("info", "info".to_owned())?;
        Ok(self.info)
    }

    fn set_viewport(&mut self, left: i16, top: i16, right: i16, bottom: i16) -> Result<(), String> {
        self.call("viewport", format!("viewport {} {} {} {}", left, top, right, bottom))
    }

    fn fill_char(&mut self, text: char, x: i16, y: i16, len: u32) -> Result<u32, String> {
        self.call("fill_char", format!("fill_char {:?} {} {} {}", text, x, y, len))?;
        Ok(len)
    }

    fn fill_attr(&mut self, attr: u16, x: i16, y: i16, len: u32) -> Result<u32, String> {
        self.call("fill_attr", format!("fill_attr {:#x} {} {} {}", attr, x, y, len))?;
        Ok(len)
    }

    fn set_cursor_position(&mut self, x: i16, y: i16) -> Result<(), String> {
        self.call("cursor", format!("cursor {} {}", x, y))
    }

    fn set_attr(&mut self, attr: u16) -> Result<(), String> {
        self.call("set_attr", format!("set_attr {:#x}", attr))
    }

    fn scroll_region(
        &mut self,
        left: i16,
        top: i16,
        right: i16,
        bottom: i16,
        dx: i16,
        dy: i16,
        attr: u16,
    ) -> Result<(), String> {
        self.call(
            "scroll",
            format!("scroll {} {} {} {} {} {} {:#x}", left, top, right, bottom, dx, dy, attr),
        )
    }
}

fn render(changes: Vec<Change>, out: &mut Recorder) -> Result<(), RenderError<String>> {
    let mut r = WindowsConsoleRenderer::new();
    let mut console = Console::new(std::mem::replace(out, Recorder::new()));
    let result = r.render_to(&changes, &mut NoInput, &mut console);
    *out = console.into_inner();
    result
}

#[test]
fn render_defers_attributes_to_text() {
    let mut out = Recorder::new();
    let changes = vec![
        Change::Attribute(AttributeChange::Foreground(ColorAttribute::PaletteIndex(9))),
        Change::Text("x".to_owned()),
    ];
    assert!(render(changes, &mut out).is_ok());
    assert_eq!(
        out.calls,
        vec!["flush", "set_attr 0xc", "write x", "flush", "set_attr 0xc"]
    );
}

#[test]
fn render_empty_scroll_region_makes_no_call() {
    let mut out = Recorder::new();
    let changes = vec![Change::ScrollRegionUp { first_row: 0, region_size: 0, scroll_count: 4 }];
    assert!(render(changes, &mut out).is_ok());
    assert_eq!(out.calls, vec!["flush", "set_attr 0xf"]);
}

#[test]
fn render_scroll_region_flushes_and_reads_first() {
    let mut out = Recorder::new();
    let changes = vec![Change::ScrollRegionDown { first_row: 1, region_size: 3, scroll_count: 2 }];
    assert!(render(changes, &mut out).is_ok());
    assert_eq!(
        out.calls,
        vec!["flush", "info", "scroll 0 51 79 54 0 2 0xf", "flush", "set_attr 0xf"]
    );
}

#[test]
fn render_image_and_cursor() {
    let mut out = Recorder::new();
    let changes = vec![
        Change::Image(Image { width: 3, height: 2 }),
        Change::CursorPosition { x: Position::NoChange, y: Position::Absolute(0) },
    ];
    assert!(render(changes, &mut out).is_ok());
    assert_eq!(
        out.calls,
        vec![
            "flush",
            "info",
            "fill_char ' ' 5 4 3",
            "fill_char ' ' 5 5 3",
            "cursor 8 4",
            "flush",
            "info",
            "cursor 5 50",
            "flush",
            "set_attr 0xf",
        ]
    );
}

#[test]
fn render_clear_screen_from_viewport_top() {
    let mut out = Recorder::new();
    out.info.left = 4;
    out.info.right = 83;
    out.info.size_x = 100;
    let changes = vec![Change::ClearScreen(ColorAttribute::PaletteIndex(2))];
    assert!(render(changes, &mut out).is_ok());
    assert_eq!(
        out.calls,
        vec![
            "flush",
            "info",
            "viewport 0 50 79 74",
            "fill_char ' ' 0 50 15000",
            "fill_attr 0x2f 0 50 15000",
            "cursor 0 50",
            "flush",
            "set_attr 0x2f",
        ]
    );
}

#[test]
fn render_stops_on_console_error() {
    let mut out = Recorder::new();
    out.fail_on = Some("fill_char");
    let mut r = WindowsConsoleRenderer::new();
    let changes = vec![
        Change::ClearToEndOfLine(ColorAttribute::PaletteIndex(1)),
        Change::Text("never".to_owned()),
    ];
    let mut console = Console::new(out);
    match r.render_to(&changes, &mut NoInput, &mut console) {
        Err(RenderError::Console(e)) => assert_eq!(e, "fill_char failed"),
        other => panic!("unexpected {:?}", other),
    }
    assert_eq!(console.handle().calls, vec!["flush", "info", "fill_char ' ' 5 4 75"]);
    assert_eq!(r.current_attr.background, ColorAttribute::PaletteIndex(1));
}

#[test]
fn render_rejects_invalid_geometry() {
    let mut out = Recorder::new();
    out.info.cursor_y = 200;
    let changes = vec![Change::ClearToEndOfScreen(ColorAttribute::Default)];
    match render(changes, &mut out) {
        Err(RenderError::InvalidGeometry(info)) => assert_eq!(info.cursor_y, 200),
        other => panic!("unexpected {:?}", other),
    }
}

#[test]
fn render_rejects_out_of_range_coordinates() {
    let mut out = Recorder::new();
    let changes = vec![Change::CursorPosition {
        x: Position::EndRelative(65535),
        y: Position::NoChange,
    }];
    match render(changes, &mut out) {
        Err(RenderError::CoordinateOutOfRange(v)) => assert_eq!(v, 80 - 65535),
        other => panic!("unexpected {:?}", other),
    }
}

#[test]
fn render_step_applies_one_change() {
    let mut r = WindowsConsoleRenderer::new();
    let mut console = Console::new(Recorder::new());
    assert!(r
        .render_step(&Change::ClearToEndOfLine(ColorAttribute::Default), &mut console)
        .is_ok());
    assert_eq!(
        console.handle().calls,
        vec!["flush", "info", "fill_char ' ' 5 4 75", "fill_attr 0xf 5 4 75"]
    );
}

#[test]
fn render_stops_when_info_read_fails() {
    let mut out = Recorder::new();
    out.fail_on = Some("info");
    let changes = vec![
        Change::Attribute(AttributeChange::Foreground(ColorAttribute::PaletteIndex(9))),
        Change::ClearScreen(ColorAttribute::Default),
        Change::Text("never".to_owned()),
    ];
    let mut r = WindowsConsoleRenderer::new();
    let mut console = Console::new(out);
    match r.render_to(&changes, &mut NoInput, &mut console) {
        Err(RenderError::Console(e)) => assert_eq!(e, "info failed"),
        other => panic!("unexpected {:?}", other),
    }
    assert_eq!(console.handle().calls, vec!["flush", "info"]);
    assert_eq!(
        r.current_attr.foreground,
        ColorAttribute::PaletteIndex(9)
    );
}
