use termwiz_core::cell::{Blink, Intensity, Underline};
use termwiz_core::color::RgbColor;
use termwiz_core::csi::{
    parse_sgr, ColorSpec, Cursor, Edit, EraseInDisplay, EraseInLine, Mode, Sgr, Unspecified, CSI,
};
use termwiz_core::escape::{
    control_action, csi_actions, dcs_enter_action, esc_action, osc_action, Action, ControlCode,
    DeviceControlMode, Esc, EscCode, FirstActions,
};
use termwiz_core::osc::{ColorSetting, Hyperlink, OperatingSystemCommand};

struct Collect {
    actions: Vec<Action>,
}

impl vte::Perform for Collect {
    fn print(&mut self, c: char) {
        self.actions.push(Action::Print(c));
    }

    fn execute(&mut self, byte: u8) {
        if let Some(a) = control_action(byte) {
            self.actions.push(a);
        }
    }

    fn hook(&mut self, params: &[i64], intermediates: &[u8], ignore: bool) {
        self.actions
            .push(dcs_enter_action(params.to_vec(), intermediates.to_vec(), ignore));
    }

    fn put(&mut self, byte: u8) {
        self.actions
            .push(Action::DeviceControl(DeviceControlMode::Data(byte)));
    }

    fn unhook(&mut self) {
        self.actions.push(Action::DeviceControl(DeviceControlMode::Exit));
    }

    fn osc_dispatch(&mut self, params: &[&[u8]]) {
        let fields = params.iter().map(|f| f.to_vec()).collect();
        self.actions.push(osc_action(fields));
    }

    fn csi_dispatch(&mut self, params: &[i64], intermediates: &[u8], ignore: bool, c: char) {
        self.actions
            .extend(csi_actions(params.to_vec(), intermediates.to_vec(), ignore, c));
    }

    fn esc_dispatch(&mut self, _params: &[i64], intermediates: &[u8], _ignore: bool, byte: u8) {
        self.actions.push(esc_action(&intermediates.to_vec(), byte));
    }
}

struct Parser {
    machine: vte::Parser,
}

impl Parser {
    fn new() -> Parser {
        Parser {
            machine: vte::Parser::new(),
        }
    }

    fn parse_as_vec(&mut self, bytes: &[u8]) -> Vec<Action> {
        let mut collect = Collect { actions: Vec::new() };
        for b in bytes {
            self.machine.advance(&mut collect, *b);
        }
        collect.actions
    }

    fn parse_first_as_vec(&mut self, bytes: &[u8]) -> Option<(Vec<Action>, usize)> {
        let mut scan = FirstActions::new();
        for b in bytes {
            let mut collect = Collect { actions: Vec::new() };
            self.machine.advance(&mut collect, *b);
            if scan.record(collect.actions) {
                break;
            }
        }
        scan.into_actions()
    }

    fn parse_first(&mut self, bytes: &[u8]) -> Option<(Action, usize)> {
        let mut scan = FirstActions::new();
        for b in bytes {
            let mut collect = Collect { actions: Vec::new() };
            self.machine.advance(&mut collect, *b);
            if scan.record(collect.actions) {
                break;
            }
        }
        scan.into_first()
    }
}

fn code(byte: u8) -> ControlCode {
    ControlCode::from_u8(byte).unwrap()
}

fn encode(seq: &Vec<Action>) -> String {
    let mut res = Vec::new();
    for s in seq {
        res.extend(s.encode());
    }
    String::from_utf8(res).unwrap()
}

#[test]
fn basic_parse() {
    let mut p = Parser::new();
    let actions = p.parse_as_vec(b"hello");
    assert_eq!(
        vec![
            Action::Print('h'),
            Action::Print('e'),
            Action::Print('l'),
            Action::Print('l'),
            Action::Print('o'),
        ],
        actions
    );
    assert_eq!(encode(&actions), "hello");
}

#[test]
fn basic_bold() {
    let mut p = Parser::new();
    let actions = p.parse_as_vec(b"\x1b[1mb");
    assert_eq!(
        vec![
            Action::CSI(CSI::Sgr(Sgr::Intensity(Intensity::Bold))),
            Action::Print('b'),
        ],
        actions
    );
    assert_eq!(encode(&actions), "\x1b[1mb");
}

#[test]
fn basic_bold_italic() {
    let mut p = Parser::new();
    let actions = p.parse_as_vec(b"\x1b[1;3mb");
    assert_eq!(
        vec![
            Action::CSI(CSI::Sgr(Sgr::Intensity(Intensity::Bold))),
            Action::CSI(CSI::Sgr(Sgr::Italic(true))),
            Action::Print('b'),
        ],
        actions
    );

    assert_eq!(encode(&actions), "\x1b[1m\x1b[3mb");
}

#[test]
fn basic_osc() {
    let mut p = Parser::new();
    let actions = p.parse_as_vec(b"\x1b]0;hello\x07");
    assert_eq!(
        vec![Action::OperatingSystemCommand(
            OperatingSystemCommand::SetIconNameAndWindowTitle("hello".to_owned()),
        )],
        actions
    );
    assert_eq!(encode(&actions), "\x1b]0;hello\x07");

    let actions = p.parse_as_vec(b"\x1b]532534523;hello\x07");
    assert_eq!(
        vec![Action::OperatingSystemCommand(
            OperatingSystemCommand::Unspecified(vec![b"532534523".to_vec(), b"hello".to_vec()]),
        )],
        actions
    );
    assert_eq!(encode(&actions), "\x1b]532534523;hello\x07");
}

#[test]
fn basic_esc() {
    let mut p = Parser::new();
    let actions = p.parse_as_vec(b"\x1bH");
    assert_eq!(
        vec![Action::Esc(Esc::Code(EscCode::HorizontalTabSet))],
        actions
    );
    assert_eq!(encode(&actions), "\x1bH");

    let actions = p.parse_as_vec(b"\x1b%H");
    assert_eq!(
        vec![Action::Esc(Esc::Unspecified {
            intermediate: Some(b'%'),
            control: b'H',
        })],
        actions
    );
    assert_eq!(encode(&actions), "\x1b%H");
}

#[test]
fn streaming_split_gives_same_actions() {
    let input: &[u8] = b"a\x1b[1;3mb\x1b]2;t\x07\x1bHc";
    let whole = Parser::new().parse_as_vec(input);
    for split in 0..=input.len() {
        let mut p = Parser::new();
        let mut parts = p.parse_as_vec(&input[..split]);
        parts.extend(p.parse_as_vec(&input[split..]));
        assert_eq!(parts, whole);
    }
}

#[test]
fn parse_first_frames_one_sequence() {
    let mut p = Parser::new();
    assert_eq!(
        p.parse_first(b"\x1b[1;3mb"),
        Some((Action::CSI(CSI::Sgr(Sgr::Intensity(Intensity::Bold))), 6))
    );
    let mut p = Parser::new();
    assert_eq!(
        p.parse_first_as_vec(b"\x1b[1;3mb"),
        Some((
            vec![
                Action::CSI(CSI::Sgr(Sgr::Intensity(Intensity::Bold))),
                Action::CSI(CSI::Sgr(Sgr::Italic(true))),
            ],
            6
        ))
    );
}

#[test]
fn parse_first_keeps_state_across_calls() {
    let mut p = Parser::new();
    assert_eq!(p.parse_first(b"\x1b["), None);
    assert_eq!(
        p.parse_first(b"1mb"),
        Some((Action::CSI(CSI::Sgr(Sgr::Intensity(Intensity::Bold))), 2))
    );
}

#[test]
fn first_actions_counts_bytes() {
    let mut scan = FirstActions::new();
    assert!(!scan.record(vec![]));
    assert!(!scan.record(vec![]));
    assert!(scan.record(vec![Action::Print('x'), Action::Print('y')]));
    assert_eq!(
        scan.into_actions(),
        Some((vec![Action::Print('x'), Action::Print('y')], 3))
    );
    let mut scan = FirstActions::new();
    assert!(!scan.record(vec![]));
    assert_eq!(scan.into_first(), None);
}

#[test]
fn control_codes() {
    assert_eq!(control_action(0x07), Some(Action::Control(code(0x07))));
    assert_eq!(control_action(0x7f), Some(Action::Control(code(0x7f))));
    assert_eq!(control_action(0x85), Some(Action::Control(code(0x85))));
    assert_eq!(control_action(0x41), None);
    assert_eq!(control_action(0xa0), None);
    assert_eq!(ControlCode::from_u8(0x41), None);
    assert_eq!(code(0x1b).byte(), 0x1b);
    assert_eq!(Action::Control(code(0x0a)).encode(), vec![0x0a]);
}

#[test]
fn esc_decoding() {
    assert_eq!(Esc::parse(None, b'c'), Esc::Code(EscCode::FullReset));
    assert_eq!(Esc::parse(Some(b'('), b'0'), Esc::Code(EscCode::DecLineDrawing));
    assert_eq!(Esc::parse(Some(b'#'), b'8'), Esc::Code(EscCode::DecScreenAlignmentDisplay));
    assert_eq!(
        Esc::parse(Some(b'('), b'Z'),
        Esc::Unspecified { intermediate: Some(b'('), control: b'Z' }
    );
    assert_eq!(
        esc_action(&vec![b'(', b'('], b'0'),
        Action::Esc(Esc::Unspecified { intermediate: None, control: b'0' })
    );
    assert_eq!(Action::Esc(Esc::Code(EscCode::AsciiCharacterSet)).encode(), b"\x1b(B".to_vec());
}

#[test]
fn sgr_decoding() {
    assert_eq!(
        parse_sgr(&vec![38, 5, 196, 48, 2, 1, 2, 3, 0]),
        Some(vec![
            Sgr::Foreground(ColorSpec::PaletteIndex(196)),
            Sgr::Background(ColorSpec::TrueColor(RgbColor { red: 1, green: 2, blue: 3 })),
            Sgr::Reset,
        ])
    );
    assert_eq!(
        parse_sgr(&vec![91, 107, 39, 49, 24, 25, 21, 6]),
        Some(vec![
            Sgr::Foreground(ColorSpec::PaletteIndex(9)),
            Sgr::Background(ColorSpec::PaletteIndex(15)),
            Sgr::Foreground(ColorSpec::Default),
            Sgr::Background(ColorSpec::Default),
            Sgr::Underline(Underline::Off),
            Sgr::Blink(Blink::Off),
            Sgr::Underline(Underline::Double),
            Sgr::Blink(Blink::Rapid),
        ])
    );
    assert_eq!(parse_sgr(&vec![1, 99]), None);
    assert_eq!(parse_sgr(&vec![38, 5, 256]), None);
    assert_eq!(parse_sgr(&vec![38, 2, 1, 2]), None);
}

#[test]
fn csi_decoding() {
    assert_eq!(CSI::parse(vec![], vec![], false, 'm'), vec![CSI::Sgr(Sgr::Reset)]);
    assert_eq!(
        CSI::parse(vec![1, 99], vec![], false, 'm'),
        vec![CSI::Unspecified(Unspecified {
            params: vec![1, 99],
            intermediates: vec![],
            ignored_extra_intermediates: false,
            control: 'm',
        })]
    );
    assert_eq!(
        CSI::parse(vec![2], vec![b'?'], false, 'h'),
        vec![CSI::Mode(Mode::SetDecPrivateMode(2))]
    );
    assert_eq!(
        CSI::parse(vec![2], vec![b'>'], false, 'c'),
        vec![CSI::Unspecified(Unspecified {
            params: vec![2],
            intermediates: vec![b'>'],
            ignored_extra_intermediates: false,
            control: 'c',
        })]
    );
    assert_eq!(
        CSI::parse(vec![1], vec![], true, 'm'),
        vec![CSI::Unspecified(Unspecified {
            params: vec![1],
            intermediates: vec![],
            ignored_extra_intermediates: true,
            control: 'm',
        })]
    );
}

#[test]
fn osc_decoding() {
    assert_eq!(
        OperatingSystemCommand::parse(vec![b"2".to_vec(), "caf\u{e9}".as_bytes().to_vec()]),
        OperatingSystemCommand::SetWindowTitle("caf\u{e9}".to_owned())
    );
    assert_eq!(
        OperatingSystemCommand::parse(vec![b"01".to_vec(), b"x".to_vec()]),
        OperatingSystemCommand::SetIconName("x".to_owned())
    );
    assert_eq!(
        OperatingSystemCommand::parse(vec![b"0".to_vec(), vec![0xff]]),
        OperatingSystemCommand::Unspecified(vec![b"0".to_vec(), vec![0xff]])
    );
    assert_eq!(
        OperatingSystemCommand::parse(vec![b"3".to_vec(), b"x".to_vec()]),
        OperatingSystemCommand::Unspecified(vec![b"3".to_vec(), b"x".to_vec()])
    );
    assert_eq!(
        OperatingSystemCommand::parse(vec![b"0".to_vec(), b"a".to_vec(), b"b".to_vec()]),
        OperatingSystemCommand::Unspecified(vec![b"0".to_vec(), b"a".to_vec(), b"b".to_vec()])
    );
}

#[test]
fn encoding() {
    assert_eq!(Action::Print('\u{e9}').encode(), vec![0xc3, 0xa9]);
    assert_eq!(
        Action::CSI(CSI::Sgr(Sgr::Foreground(ColorSpec::PaletteIndex(196)))).encode(),
        b"\x1b[38;5;196m".to_vec()
    );
    assert_eq!(
        Action::CSI(CSI::Sgr(Sgr::Background(ColorSpec::PaletteIndex(12)))).encode(),
        b"\x1b[104m".to_vec()
    );
    assert_eq!(
        Action::CSI(CSI::Unspecified(Unspecified {
            params: vec![12, -3],
            intermediates: vec![b' '],
            ignored_extra_intermediates: false,
            control: 'q',
        }))
        .encode(),
        b"\x1b[12;-3 q".to_vec()
    );
    assert_eq!(
        Action::OperatingSystemCommand(OperatingSystemCommand::SetWindowTitle("caf\u{e9}".to_owned()))
            .encode(),
        b"\x1b]2;caf\xc3\xa9\x07".to_vec()
    );
    assert_eq!(
        Action::DeviceControl(DeviceControlMode::Enter {
            params: vec![1, 2],
            intermediates: vec![b'$'],
            ignored_extra_intermediates: false,
        })
        .encode(),
        b"\x1bP1;2$".to_vec()
    );
    assert_eq!(Action::DeviceControl(DeviceControlMode::Exit).encode(), b"\x1b\\".to_vec());
}

#[test]
fn round_trip_through_the_state_machine() {
    let actions = vec![
        Action::Print('x'),
        Action::Control(code(0x0d)),
        Action::Esc(Esc::Code(EscCode::ReverseIndex)),
        Action::CSI(CSI::Sgr(Sgr::Foreground(ColorSpec::TrueColor(RgbColor {
            red: 10,
            green: 20,
            blue: 30,
        })))),
        Action::OperatingSystemCommand(OperatingSystemCommand::SetIconName("i".to_owned())),
    ];
    for a in actions {
        let mut p = Parser::new();
        assert_eq!(p.parse_as_vec(&a.encode()), vec![a.clone()]);
    }
}

#[test]
fn cursor_and_erase_decoding() {
    assert_eq!(CSI::parse(vec![], vec![], false, 'A'), vec![CSI::Cursor(Cursor::Up(1))]);
    assert_eq!(CSI::parse(vec![0], vec![], false, 'B'), vec![CSI::Cursor(Cursor::Down(0))]);
    assert_eq!(CSI::parse(vec![7], vec![], false, 'C'), vec![CSI::Cursor(Cursor::Right(7))]);
    assert_eq!(CSI::parse(vec![2], vec![], false, 'D'), vec![CSI::Cursor(Cursor::Left(2))]);
    assert_eq!(
        CSI::parse(vec![3, 0], vec![], false, 'H'),
        vec![CSI::Cursor(Cursor::Position { line: 3, col: 0 })]
    );
    assert_eq!(
        CSI::parse(vec![3], vec![], false, 'H'),
        vec![CSI::Cursor(Cursor::Position { line: 3, col: 1 })]
    );
    assert_eq!(
        CSI::parse(vec![], vec![], false, 'H'),
        vec![CSI::Cursor(Cursor::Position { line: 1, col: 1 })]
    );
    assert_eq!(
        CSI::parse(vec![], vec![], false, 'K'),
        vec![CSI::Edit(Edit::EraseInLine(EraseInLine::EraseToEndOfLine))]
    );
    assert_eq!(
        CSI::parse(vec![3], vec![], false, 'J'),
        vec![CSI::Edit(Edit::EraseInDisplay(EraseInDisplay::EraseScrollback))]
    );
    assert_eq!(
        CSI::parse(vec![1, 2], vec![], false, 'A'),
        vec![CSI::Unspecified(Unspecified {
            params: vec![1, 2],
            intermediates: vec![],
            ignored_extra_intermediates: false,
            control: 'A',
        })]
    );
    assert_eq!(
        CSI::parse(vec![3], vec![], false, 'K'),
        vec![CSI::Unspecified(Unspecified {
            params: vec![3],
            intermediates: vec![],
            ignored_extra_intermediates: false,
            control: 'K',
        })]
    );
    assert_eq!(
        CSI::parse(vec![5_000_000_000], vec![], false, 'A'),
        vec![CSI::Unspecified(Unspecified {
            params: vec![5_000_000_000],
            intermediates: vec![],
            ignored_extra_intermediates: false,
            control: 'A',
        })]
    );
}

#[test]
fn cursor_and_erase_through_the_state_machine() {
    let mut p = Parser::new();
    let actions = p.parse_as_vec(b"\x1b[12;40H\x1b[2J\x1b[5D");
    assert_eq!(
        actions,
        vec![
            Action::CSI(CSI::Cursor(Cursor::Position { line: 12, col: 40 })),
            Action::CSI(CSI::Edit(Edit::EraseInDisplay(EraseInDisplay::EraseDisplay))),
            Action::CSI(CSI::Cursor(Cursor::Left(5))),
        ]
    );
    assert_eq!(encode(&actions), "\x1b[12;40H\x1b[2J\x1b[5D");
    assert_eq!(
        Action::CSI(CSI::Edit(Edit::EraseInLine(EraseInLine::EraseLine))).encode(),
        b"\x1b[2K".to_vec()
    );
}

#[test]
fn hyperlinks() {
    let mut p = Parser::new();
    let actions = p.parse_as_vec(b"\x1b]8;id=1;http://example.com/\x07x\x1b]8;;\x07");
    assert_eq!(
        actions,
        vec![
            Action::OperatingSystemCommand(OperatingSystemCommand::SetHyperlink(Some(Hyperlink {
                params: "id=1".to_owned(),
                uri: "http://example.com/".to_owned(),
            }))),
            Action::Print('x'),
            Action::OperatingSystemCommand(OperatingSystemCommand::SetHyperlink(None)),
        ]
    );
    assert_eq!(encode(&actions), "\x1b]8;id=1;http://example.com/\x07x\x1b]8;;\x07");
    assert_eq!(
        OperatingSystemCommand::parse(vec![b"8".to_vec(), b"".to_vec()]),
        OperatingSystemCommand::Unspecified(vec![b"8".to_vec(), b"".to_vec()])
    );
    assert_eq!(
        OperatingSystemCommand::parse(vec![b"8".to_vec(), b"".to_vec(), vec![0xc3]]),
        OperatingSystemCommand::Unspecified(vec![b"8".to_vec(), b"".to_vec(), vec![0xc3]])
    );
}

#[test]
fn mode_changes() {
    let mut p = Parser::new();
    let actions = p.parse_as_vec(b"\x1b[?25l\x1b[?1049h\x1b[4h\x1b[4l");
    assert_eq!(
        actions,
        vec![
            Action::CSI(CSI::Mode(Mode::ResetDecPrivateMode(25))),
            Action::CSI(CSI::Mode(Mode::SetDecPrivateMode(1049))),
            Action::CSI(CSI::Mode(Mode::SetMode(4))),
            Action::CSI(CSI::Mode(Mode::ResetMode(4))),
        ]
    );
    assert_eq!(encode(&actions), "\x1b[?25l\x1b[?1049h\x1b[4h\x1b[4l");
    assert_eq!(
        CSI::parse(vec![1, 2], vec![b'?'], false, 'h'),
        vec![CSI::Unspecified(Unspecified {
            params: vec![1, 2],
            intermediates: vec![b'?'],
            ignored_extra_intermediates: false,
            control: 'h',
        })]
    );
    assert_eq!(
        CSI::parse(vec![70000], vec![], false, 'l'),
        vec![CSI::Unspecified(Unspecified {
            params: vec![70000],
            intermediates: vec![],
            ignored_extra_intermediates: false,
            control: 'l',
        })]
    );
}

#[test]
fn color_resets() {
    let mut p = Parser::new();
    let actions = p.parse_as_vec(b"\x1b]104\x07\x1b]104;1;255\x07");
    assert_eq!(
        actions,
        vec![
            Action::OperatingSystemCommand(OperatingSystemCommand::ResetColors(vec![])),
            Action::OperatingSystemCommand(OperatingSystemCommand::ResetColors(vec![1, 255])),
        ]
    );
    assert_eq!(encode(&actions), "\x1b]104\x07\x1b]104;1;255\x07");
    assert_eq!(
        OperatingSystemCommand::parse(vec![b"104".to_vec(), b"256".to_vec()]),
        OperatingSystemCommand::Unspecified(vec![b"104".to_vec(), b"256".to_vec()])
    );
    assert_eq!(
        OperatingSystemCommand::parse(vec![b"104".to_vec(), b"x".to_vec()]),
        OperatingSystemCommand::Unspecified(vec![b"104".to_vec(), b"x".to_vec()])
    );
}

#[test]
fn selections() {
    let mut p = Parser::new();
    let actions = p.parse_as_vec(b"\x1b]52;c;aGVsbG8=\x07\x1b]52;c;?\x07\x1b]52;p;\x07");
    assert_eq!(
        actions,
        vec![
            Action::OperatingSystemCommand(OperatingSystemCommand::SetSelection(
                b"c".to_vec(),
                "hello".to_owned()
            )),
            Action::OperatingSystemCommand(OperatingSystemCommand::QuerySelection(b"c".to_vec())),
            Action::OperatingSystemCommand(OperatingSystemCommand::ClearSelection(b"p".to_vec())),
        ]
    );
    assert_eq!(
        encode(&actions),
        "\x1b]52;c;aGVsbG8=\x07\x1b]52;c;?\x07\x1b]52;p;\x07"
    );
    assert_eq!(
        OperatingSystemCommand::parse(vec![b"52".to_vec(), b"c".to_vec(), b"a!b".to_vec()]),
        OperatingSystemCommand::Unspecified(vec![b"52".to_vec(), b"c".to_vec(), b"a!b".to_vec()])
    );
    assert_eq!(
        OperatingSystemCommand::parse(vec![b"52".to_vec(), b"c".to_vec(), b"/w==".to_vec()]),
        OperatingSystemCommand::Unspecified(vec![b"52".to_vec(), b"c".to_vec(), b"/w==".to_vec()])
    );
}

#[test]
fn dynamic_colors() {
    let mut p = Parser::new();
    let actions = p.parse_as_vec(b"\x1b]10;#FF8000;?\x07\x1b]12;?\x07");
    assert_eq!(
        actions,
        vec![
            Action::OperatingSystemCommand(OperatingSystemCommand::ChangeDynamicColors(
                10,
                vec![
                    ColorSetting::Rgb(RgbColor { red: 255, green: 128, blue: 0 }),
                    ColorSetting::Query,
                ]
            )),
            Action::OperatingSystemCommand(OperatingSystemCommand::ChangeDynamicColors(
                12,
                vec![ColorSetting::Query]
            )),
        ]
    );
    assert_eq!(encode(&actions), "\x1b]10;#ff8000;?\x07\x1b]12;?\x07");
    assert_eq!(
        OperatingSystemCommand::parse(vec![b"11".to_vec(), b"#12345".to_vec()]),
        OperatingSystemCommand::Unspecified(vec![b"11".to_vec(), b"#12345".to_vec()])
    );
    assert_eq!(
        OperatingSystemCommand::parse(vec![b"20".to_vec(), b"?".to_vec()]),
        OperatingSystemCommand::Unspecified(vec![b"20".to_vec(), b"?".to_vec()])
    );
}
