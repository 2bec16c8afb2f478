use vstd::prelude::*;
use crate::cell::{Blink, Intensity, Underline};
use crate::color::RgbColor;

verus! {

/// A color named by an SGR sequence.
#[derive(Clone, Copy, Debug, PartialEq, Eq, Structural)]
pub enum ColorSpec {
    Default,
    PaletteIndex(u8),
    TrueColor(RgbColor),
}

/// One Select Graphic Rendition command.
#[derive(Clone, Copy, Debug, PartialEq, Eq, Structural)]
pub enum Sgr {
    Reset,
    Intensity(Intensity),
    Underline(Underline),
    Blink(Blink),
    Italic(bool),
    Inverse(bool),
    Invisible(bool),
    StrikeThrough(bool),
    Foreground(ColorSpec),
    Background(ColorSpec),
}

/// A control sequence that has no meaning here, kept as it was dispatched.
#[derive(Clone, Debug, PartialEq, Eq)]
pub struct Unspecified {
    pub params: Vec<i64>,
    pub intermediates: Vec<u8>,
    pub ignored_extra_intermediates: bool,
    pub control: char,
}

/// A cursor movement; counts and coordinates start at 1, and a missing one is 1.
#[derive(Clone, Copy, Debug, PartialEq, Eq, Structural)]
pub enum Cursor {
    /// `A`: up by the count.
    Up(u32),
    /// `B`: down by the count.
    Down(u32),
    /// `C`: right by the count.
    Right(u32),
    /// `D`: left by the count.
    Left(u32),
    /// `H`: to a line and a column.
    Position { line: u32, col: u32 },
}

/// What part of the cursor's line an erase clears.
#[derive(Clone, Copy, Debug, PartialEq, Eq, Structural)]
pub enum EraseInLine {
    EraseToEndOfLine,
    EraseToStartOfLine,
    EraseLine,
}

/// What part of the display an erase clears.
#[derive(Clone, Copy, Debug, PartialEq, Eq, Structural)]
pub enum EraseInDisplay {
    EraseToEndOfDisplay,
    EraseToStartOfDisplay,
    EraseDisplay,
    EraseScrollback,
}

/// An erase.
#[derive(Clone, Copy, Debug, PartialEq, Eq, Structural)]
pub enum Edit {
    /// `K`
    EraseInLine(EraseInLine),
    /// `J`
    EraseInDisplay(EraseInDisplay),
}

/// A change of a terminal mode, named by its number.
#[derive(Clone, Copy, Debug, PartialEq, Eq, Structural)]
pub enum Mode {
    /// `? n h`
    SetDecPrivateMode(u16),
    /// `? n l`
    ResetDecPrivateMode(u16),
    /// `n h`
    SetMode(u16),
    /// `n l`
    ResetMode(u16),
}

/// A decoded control sequence.
#[derive(Clone, Debug, PartialEq, Eq)]
pub enum CSI {
    Sgr(Sgr),
    Cursor(Cursor),
    Edit(Edit),
    Mode(Mode),
    Unspecified(Unspecified),
}

/// A count or coordinate parameter, kept as written (a terminal reads 0 as
/// 1); `None` where it does not fit.
pub open spec fn count_value(v: i64) -> Option<u32> {
    if 0 <= v <= u32::MAX {
        Some(v as u32)
    } else {
        None
    }
}

/// The count of a cursor movement: at most one parameter, 1 where there is none.
pub open spec fn count_param(p: Seq<i64>) -> Option<u32> {
    if p.len() == 0 {
        Some(1)
    } else if p.len() == 1 {
        count_value(p[0])
    } else {
        None
    }
}

/// The target of a cursor position: at most a line and a column, each 1 where missing.
pub open spec fn position_params(p: Seq<i64>) -> Option<Cursor> {
    if p.len() == 0 {
        Some(Cursor::Position { line: 1, col: 1 })
    } else if p.len() == 1 {
        match count_value(p[0]) {
            Some(line) => Some(Cursor::Position { line, col: 1 }),
            None => None,
        }
    } else if p.len() == 2 {
        match (count_value(p[0]), count_value(p[1])) {
            (Some(line), Some(col)) => Some(Cursor::Position { line, col }),
            _ => None,
        }
    } else {
        None
    }
}

/// The selector of an erase: at most one parameter, 0 where there is none.
pub open spec fn erase_selector(p: Seq<i64>) -> Option<i64> {
    if p.len() == 0 {
        Some(0)
    } else if p.len() == 1 {
        Some(p[0])
    } else {
        None
    }
}

/// The mode number of a mode change: exactly one parameter that fits.
pub open spec fn mode_param(p: Seq<i64>) -> Option<u16> {
    if p.len() == 1 && 0 <= p[0] <= u16::MAX {
        Some(p[0] as u16)
    } else {
        None
    }
}

/// The mode change that a sequence with final character `h` or `l` is: a DEC
/// private mode where the one intermediate is `?`, an ANSI mode where there is
/// none.
pub open spec fn mode_command(p: Seq<i64>, intermediates: Seq<u8>, control: char) -> Option<CSI> {
    match mode_param(p) {
        Some(n) => if intermediates == seq![0x3fu8] {
            Some(
                CSI::Mode(
                    if control == 'h' {
                        Mode::SetDecPrivateMode(n)
                    } else {
                        Mode::ResetDecPrivateMode(n)
                    },
                ),
            )
        } else if intermediates.len() == 0 {
            Some(
                CSI::Mode(
                    if control == 'h' {
                        Mode::SetMode(n)
                    } else {
                        Mode::ResetMode(n)
                    },
                ),
            )
        } else {
            None
        },
        None => None,
    }
}

/// The cursor movement, erase or mode change that a dispatched control
/// sequence is, if it is one: a final character of `A`, `B`, `C`, `D`, `H`,
/// `K` or `J` with no intermediates, or of `h` or `l`, and parameters that fit it.
pub open spec fn csi_command(
    p: Seq<i64>,
    intermediates: Seq<u8>,
    ignored_extra_intermediates: bool,
    control: char,
) -> Option<CSI> {
    if ignored_extra_intermediates {
        None
    } else if control == 'h' || control == 'l' {
        mode_command(p, intermediates, control)
    } else if intermediates.len() != 0 {
        None
    } else if control == 'A' || control == 'B' || control == 'C' || control == 'D' {
        match count_param(p) {
            Some(n) => Some(
                CSI::Cursor(
                    if control == 'A' {
                        Cursor::Up(n)
                    } else if control == 'B' {
                        Cursor::Down(n)
                    } else if control == 'C' {
                        Cursor::Right(n)
                    } else {
                        Cursor::Left(n)
                    },
                ),
            ),
            None => None,
        }
    } else if control == 'H' {
        match position_params(p) {
            Some(c) => Some(CSI::Cursor(c)),
            None => None,
        }
    } else if control == 'K' {
        match erase_selector(p) {
            Some(0) => Some(CSI::Edit(Edit::EraseInLine(EraseInLine::EraseToEndOfLine))),
            Some(1) => Some(CSI::Edit(Edit::EraseInLine(EraseInLine::EraseToStartOfLine))),
            Some(2) => Some(CSI::Edit(Edit::EraseInLine(EraseInLine::EraseLine))),
            _ => None,
        }
    } else if control == 'J' {
        match erase_selector(p) {
            Some(0) => Some(CSI::Edit(Edit::EraseInDisplay(EraseInDisplay::EraseToEndOfDisplay))),
            Some(1) => Some(CSI::Edit(Edit::EraseInDisplay(EraseInDisplay::EraseToStartOfDisplay))),
            Some(2) => Some(CSI::Edit(Edit::EraseInDisplay(EraseInDisplay::EraseDisplay))),
            Some(3) => Some(CSI::Edit(Edit::EraseInDisplay(EraseInDisplay::EraseScrollback))),
            _ => None,
        }
    } else {
        None
    }
}

fn count_value_arg(v: i64) -> (r: Option<u32>)
    ensures
        r == count_value(v),
{
    if 0 <= v && v <= u32::MAX as i64 {
        Some(v as u32)
    } else {
        None
    }
}

fn count_arg(p: &Vec<i64>) -> (r: Option<u32>)
    ensures
        r == count_param(p@),
{
    if p.len() == 0 {
        Some(1)
    } else if p.len() == 1 {
        count_value_arg(p[0])
    } else {
        None
    }
}

fn position_arg(p: &Vec<i64>) -> (r: Option<Cursor>)
    ensures
        r == position_params(p@),
{
    if p.len() == 0 {
        Some(Cursor::Position { line: 1, col: 1 })
    } else if p.len() == 1 {
        match count_value_arg(p[0]) {
            Some(line) => Some(Cursor::Position { line, col: 1 }),
            None => None,
        }
    } else if p.len() == 2 {
        match (count_value_arg(p[0]), count_value_arg(p[1])) {
            (Some(line), Some(col)) => Some(Cursor::Position { line, col }),
            _ => None,
        }
    } else {
        None
    }
}

fn command_of(p: &Vec<i64>, intermediates: &Vec<u8>, ignored_extra_intermediates: bool, control: char) -> (r:
    Option<CSI>)
    ensures
        r == csi_command(p@, intermediates@, ignored_extra_intermediates, control),
{
    if ignored_extra_intermediates {
        None
    } else if control == 'h' || control == 'l' {
        if p.len() != 1 || p[0] < 0 || p[0] > u16::MAX as i64 {
            return None;
        }
        let n = p[0] as u16;
        let private = intermediates.len() == 1 && intermediates[0] == 0x3f;
        if private {
            assert(intermediates@ =~= seq![0x3fu8]);
            Some(
                CSI::Mode(
                    if control == 'h' {
                        Mode::SetDecPrivateMode(n)
                    } else {
                        Mode::ResetDecPrivateMode(n)
                    },
                ),
            )
        } else if intermediates.len() == 0 {
            Some(CSI::Mode(if control == 'h' { Mode::SetMode(n) } else { Mode::ResetMode(n) }))
        } else {
            assert(intermediates@ != seq![0x3fu8]);
            None
        }
    } else if intermediates.len() != 0 {
        None
    } else if control == 'A' || control == 'B' || control == 'C' || control == 'D' {
        match count_arg(p) {
            Some(n) => Some(
                CSI::Cursor(
                    if control == 'A' {
                        Cursor::Up(n)
                    } else if control == 'B' {
                        Cursor::Down(n)
                    } else if control == 'C' {
                        Cursor::Right(n)
                    } else {
                        Cursor::Left(n)
                    },
                ),
            ),
            None => None,
        }
    } else if control == 'H' {
        match position_arg(p) {
            Some(c) => Some(CSI::Cursor(c)),
            None => None,
        }
    } else if control == 'K' || control == 'J' {
        let sel: i64 = if p.len() == 0 {
            0
        } else if p.len() == 1 {
            p[0]
        } else {
            return None;
        };
        if control == 'K' {
            if sel == 0 {
                Some(CSI::Edit(Edit::EraseInLine(EraseInLine::EraseToEndOfLine)))
            } else if sel == 1 {
                Some(CSI::Edit(Edit::EraseInLine(EraseInLine::EraseToStartOfLine)))
            } else if sel == 2 {
                Some(CSI::Edit(Edit::EraseInLine(EraseInLine::EraseLine)))
            } else {
                None
            }
        } else {
            if sel == 0 {
                Some(CSI::Edit(Edit::EraseInDisplay(EraseInDisplay::EraseToEndOfDisplay)))
            } else if sel == 1 {
                Some(CSI::Edit(Edit::EraseInDisplay(EraseInDisplay::EraseToStartOfDisplay)))
            } else if sel == 2 {
                Some(CSI::Edit(Edit::EraseInDisplay(EraseInDisplay::EraseDisplay)))
            } else if sel == 3 {
                Some(CSI::Edit(Edit::EraseInDisplay(EraseInDisplay::EraseScrollback)))
            } else {
                None
            }
        }
    } else {
        None
    }
}

/// Whether `v` fits in a byte.
pub open spec fn is_byte(v: i64) -> bool {
    0 <= v <= 255
}

/// The color of an extended color sequence (`38` or `48`, then `5;n` or
/// `2;r;g;b`) at the start of `p`, with the number of parameters it takes.
pub open spec fn extended_color(p: Seq<i64>) -> Option<(ColorSpec, int)> {
    if p.len() >= 3 && p[1] == 5 && is_byte(p[2]) {
        Some((ColorSpec::PaletteIndex(p[2] as u8), 3))
    } else if p.len() >= 5 && p[1] == 2 && is_byte(p[2]) && is_byte(p[3]) && is_byte(p[4]) {
        Some(
            (
                ColorSpec::TrueColor(
                    RgbColor { red: p[2] as u8, green: p[3] as u8, blue: p[4] as u8 },
                ),
                5,
            ),
        )
    } else {
        None
    }
}

/// The SGR command at the start of the non-empty `p`, with the number of
/// parameters it takes; `None` where the parameters mean nothing.
pub open spec fn sgr_head(p: Seq<i64>) -> Option<(Sgr, int)> {
    let c = p[0];
    if c == 0 {
        Some((Sgr::Reset, 1))
    } else if c == 1 {
        Some((Sgr::Intensity(Intensity::Bold), 1))
    } else if c == 2 {
        Some((Sgr::Intensity(Intensity::Half), 1))
    } else if c == 22 {
        Some((Sgr::Intensity(Intensity::Normal), 1))
    } else if c == 3 {
        Some((Sgr::Italic(true), 1))
    } else if c == 23 {
        Some((Sgr::Italic(false), 1))
    } else if c == 4 {
        Some((Sgr::Underline(Underline::Single), 1))
    } else if c == 21 {
        Some((Sgr::Underline(Underline::Double), 1))
    } else if c == 24 {
        Some((Sgr::Underline(Underline::Off), 1))
    } else if c == 5 {
        Some((Sgr::Blink(Blink::Slow), 1))
    } else if c == 6 {
        Some((Sgr::Blink(Blink::Rapid), 1))
    } else if c == 25 {
        Some((Sgr::Blink(Blink::Off), 1))
    } else if c == 7 {
        Some((Sgr::Inverse(true), 1))
    } else if c == 27 {
        Some((Sgr::Inverse(false), 1))
    } else if c == 8 {
        Some((Sgr::Invisible(true), 1))
    } else if c == 28 {
        Some((Sgr::Invisible(false), 1))
    } else if c == 9 {
        Some((Sgr::StrikeThrough(true), 1))
    } else if c == 29 {
        Some((Sgr::StrikeThrough(false), 1))
    } else if 30 <= c <= 37 {
        Some((Sgr::Foreground(ColorSpec::PaletteIndex((c - 30) as u8)), 1))
    } else if 90 <= c <= 97 {
        Some((Sgr::Foreground(ColorSpec::PaletteIndex((c - 82) as u8)), 1))
    } else if c == 39 {
        Some((Sgr::Foreground(ColorSpec::Default), 1))
    } else if 40 <= c <= 47 {
        Some((Sgr::Background(ColorSpec::PaletteIndex((c - 40) as u8)), 1))
    } else if 100 <= c <= 107 {
        Some((Sgr::Background(ColorSpec::PaletteIndex((c - 92) as u8)), 1))
    } else if c == 49 {
        Some((Sgr::Background(ColorSpec::Default), 1))
    } else if c == 38 {
        match extended_color(p) {
            Some((col, n)) => Some((Sgr::Foreground(col), n)),
            None => None,
        }
    } else if c == 48 {
        match extended_color(p) {
            Some((col, n)) => Some((Sgr::Background(col), n)),
            None => None,
        }
    } else {
        None
    }
}

/// The SGR commands that `p` lists from left to right, or `None` where some
/// part of it means nothing.
pub open spec fn sgr_list(p: Seq<i64>) -> Option<Seq<Sgr>>
    decreases p.len(),
{
    if p.len() == 0 {
        Some(seq![])
    } else {
        match sgr_head(p) {
            Some((s, n)) => match sgr_list(p.skip(n)) {
                Some(rest) => Some(seq![s] + rest),
                None => None,
            },
            None => None,
        }
    }
}

/// `done` followed by the commands of `rest`, if they have a meaning.
pub open spec fn prepend_sgrs(done: Seq<Sgr>, rest: Option<Seq<Sgr>>) -> Option<Seq<Sgr>> {
    match rest {
        Some(r) => Some(done + r),
        None => None,
    }
}

/// The SGR commands of a dispatched control sequence, or `None` where it is
/// not an SGR sequence that has a meaning. No parameters at all mean reset.
pub open spec fn csi_sgrs(
    params: Seq<i64>,
    intermediates: Seq<u8>,
    ignored_extra_intermediates: bool,
    control: char,
) -> Option<Seq<Sgr>> {
    if control == 'm' && intermediates.len() == 0 && !ignored_extra_intermediates {
        if params.len() == 0 {
            Some(seq![Sgr::Reset])
        } else {
            sgr_list(params)
        }
    } else {
        None
    }
}

fn byte_param(v: i64) -> (r: bool)
    ensures
        r == is_byte(v),
{
    0 <= v && v <= 255
}

fn extended_color_at(params: &Vec<i64>, i: usize) -> (r: Option<(ColorSpec, usize)>)
    requires
        i < params.len(),
    ensures
        r == (match extended_color(params@.skip(i as int)) {
            Some((c, n)) => Some((c, n as usize)),
            None => None,
        }),
{
    let len = params.len();
    if len - i >= 3 && params[i + 1] == 5 && byte_param(params[i + 2]) {
        Some((ColorSpec::PaletteIndex(params[i + 2] as u8), 3))
    } else if len - i >= 5 && params[i + 1] == 2 && byte_param(params[i + 2]) && byte_param(
        params[i + 3],
    ) && byte_param(params[i + 4]) {
        let rgb = RgbColor {
            red: params[i + 2] as u8,
            green: params[i + 3] as u8,
            blue: params[i + 4] as u8,
        };
        Some((ColorSpec::TrueColor(rgb), 5))
    } else {
        None
    }
}

fn sgr_at(params: &Vec<i64>, i: usize) -> (r: Option<(Sgr, usize)>)
    requires
        i < params.len(),
    ensures
        r == (match sgr_head(params@.skip(i as int)) {
            Some((s, n)) => Some((s, n as usize)),
            None => None,
        }),
        r.is_some() ==> 1 <= r.unwrap().1 <= params.len() - i,
{
    let ghost p = params@.skip(i as int);
    assert(p[0] == params[i as int]);
    let c = params[i];
    if c == 0 {
        Some((Sgr::Reset, 1))
    } else if c == 1 {
        Some((Sgr::Intensity(Intensity::Bold), 1))
    } else if c == 2 {
        Some((Sgr::Intensity(Intensity::Half), 1))
    } else if c == 22 {
        Some((Sgr::Intensity(Intensity::Normal), 1))
    } else if c == 3 {
        Some((Sgr::Italic(true), 1))
    } else if c == 23 {
        Some((Sgr::Italic(false), 1))
    } else if c == 4 {
        Some((Sgr::Underline(Underline::Single), 1))
    } else if c == 21 {
        Some((Sgr::Underline(Underline::Double), 1))
    } else if c == 24 {
        Some((Sgr::Underline(Underline::Off), 1))
    } else if c == 5 {
        Some((Sgr::Blink(Blink::Slow), 1))
    } else if c == 6 {
        Some((Sgr::Blink(Blink::Rapid), 1))
    } else if c == 25 {
        Some((Sgr::Blink(Blink::Off), 1))
    } else if c == 7 {
        Some((Sgr::Inverse(true), 1))
    } else if c == 27 {
        Some((Sgr::Inverse(false), 1))
    } else if c == 8 {
        Some((Sgr::Invisible(true), 1))
    } else if c == 28 {
        Some((Sgr::Invisible(false), 1))
    } else if c == 9 {
        Some((Sgr::StrikeThrough(true), 1))
    } else if c == 29 {
        Some((Sgr::StrikeThrough(false), 1))
    } else if 30 <= c && c <= 37 {
        Some((Sgr::Foreground(ColorSpec::PaletteIndex((c - 30) as u8)), 1))
    } else if 90 <= c && c <= 97 {
        Some((Sgr::Foreground(ColorSpec::PaletteIndex((c - 82) as u8)), 1))
    } else if c == 39 {
        Some((Sgr::Foreground(ColorSpec::Default), 1))
    } else if 40 <= c && c <= 47 {
        Some((Sgr::Background(ColorSpec::PaletteIndex((c - 40) as u8)), 1))
    } else if 100 <= c && c <= 107 {
        Some((Sgr::Background(ColorSpec::PaletteIndex((c - 92) as u8)), 1))
    } else if c == 49 {
        Some((Sgr::Background(ColorSpec::Default), 1))
    } else if c == 38 {
        match extended_color_at(params, i) {
            Some((col, n)) => Some((Sgr::Foreground(col), n)),
            None => None,
        }
    } else if c == 48 {
        match extended_color_at(params, i) {
            Some((col, n)) => Some((Sgr::Background(col), n)),
            None => None,
        }
    } else {
        None
    }
}

/// Decodes a list of SGR parameters into commands, left to right.
pub fn parse_sgr(params: &Vec<i64>) -> (r: Option<Vec<Sgr>>)
    ensures
        match r {
            Some(v) => sgr_list(params@) == Some(v@),
            None => sgr_list(params@).is_none(),
        },
{
    let mut out: Vec<Sgr> = Vec::new();
    let mut i: usize = 0;
    assert(params@.skip(0) =~= params@);
    while i < params.len()
        invariant
            i <= params.len(),
            sgr_list(params@) == prepend_sgrs(out@, sgr_list(params@.skip(i as int))),
        decreases params.len() - i,
    {
        match sgr_at(params, i) {
            Some((s, n)) => {
                proof {
                    assert(params@.skip(i as int).skip(n as int) =~= params@.skip(i + n));
                    assert(out@.push(s) =~= out@ + seq![s]);
                    let rest = sgr_list(params@.skip(i + n));
                    if rest.is_some() {
                        assert(out@ + (seq![s] + rest.unwrap()) =~= out@.push(s) + rest.unwrap());
                    }
                }
                out.push(s);
                i = i + n;
            },
            None => {
                return None;
            },
        }
    }
    assert(params@.skip(i as int) =~= Seq::<i64>::empty());
    assert(out@ + Seq::<Sgr>::empty() =~= out@);
    Some(out)
}

/// Whether `c` is the single unspecified sequence made of the given parts.
pub open spec fn is_unspecified_of(
    c: CSI,
    params: Seq<i64>,
    intermediates: Seq<u8>,
    ignored_extra_intermediates: bool,
    control: char,
) -> bool {
    match c {
        CSI::Unspecified(u) => u.params@ == params && u.intermediates@ == intermediates
            && u.ignored_extra_intermediates == ignored_extra_intermediates && u.control == control,
        _ => false,
    }
}

impl CSI {
    /// Decodes a dispatched control sequence into commands, left to right: one
    /// per SGR command where it is an SGR sequence with a meaning, the cursor
    /// movement or erase where it is one, else one `Unspecified` that keeps
    /// its parts.
    pub fn parse(
        params: Vec<i64>,
        intermediates: Vec<u8>,
        ignored_extra_intermediates: bool,
        control: char,
    ) -> (r: Vec<CSI>)
        ensures
            match csi_sgrs(params@, intermediates@, ignored_extra_intermediates, control) {
                Some(sgrs) => r@.len() == sgrs.len() && forall|i: int|
                    0 <= i < sgrs.len() ==> #[trigger] r@[i] == CSI::Sgr(sgrs[i]),
                None => match csi_command(params@, intermediates@, ignored_extra_intermediates, control) {
                    Some(c) => r@ == seq![c],
                    None => r@.len() == 1 && is_unspecified_of(
                        r@[0],
                        params@,
                        intermediates@,
                        ignored_extra_intermediates,
                        control,
                    ),
                },
            },
    {
        let sgrs: Option<Vec<Sgr>> = if control == 'm' && intermediates.len() == 0
            && !ignored_extra_intermediates {
            if params.len() == 0 {
                Some(vec![Sgr::Reset])
            } else {
                parse_sgr(&params)
            }
        } else {
            None
        };
        let mut out: Vec<CSI> = Vec::new();
        match sgrs {
            Some(list) => {
                let mut i: usize = 0;
                while i < list.len()
                    invariant
                        i <= list.len(),
                        out@.len() == i,
                        forall|j: int| 0 <= j < i ==> #[trigger] out@[j] == CSI::Sgr(list@[j]),
                    decreases list.len() - i,
                {
                    out.push(CSI::Sgr(list[i]));
                    i = i + 1;
                }
            },
            None => match command_of(&params, &intermediates, ignored_extra_intermediates, control) {
                Some(c) => {
                    out.push(c);
                    assert(out@ =~= seq![c]);
                },
                None => {
                    out.push(
                        CSI::Unspecified(
                            Unspecified { params, intermediates, ignored_extra_intermediates, control },
                        ),
                    );
                },
            },
        }
        out
    }
}

/// The parameters that write color `c` after the base code `base` (30 for
/// the foreground, 40 for the background).
pub open spec fn color_params(base: int, c: ColorSpec) -> Seq<i64> {
    match c {
        ColorSpec::Default => seq![(base + 9) as i64],
        ColorSpec::PaletteIndex(n) => if n < 8 {
            seq![(base + n) as i64]
        } else if n < 16 {
            seq![(base + 52 + n) as i64]
        } else {
            seq![(base + 8) as i64, 5, n as i64]
        },
        ColorSpec::TrueColor(rgb) => seq![
            (base + 8) as i64,
            2,
            rgb.red as i64,
            rgb.green as i64,
            rgb.blue as i64,
        ],
    }
}

/// The parameters that write SGR command `s`.
pub open spec fn sgr_params(s: Sgr) -> Seq<i64> {
    match s {
        Sgr::Reset => seq![0],
        Sgr::Intensity(Intensity::Bold) => seq![1],
        Sgr::Intensity(Intensity::Half) => seq![2],
        Sgr::Intensity(Intensity::Normal) => seq![22],
        Sgr::Italic(true) => seq![3],
        Sgr::Italic(false) => seq![23],
        Sgr::Underline(Underline::Single) => seq![4],
        Sgr::Underline(Underline::Double) => seq![21],
        Sgr::Underline(Underline::Off) => seq![24],
        Sgr::Blink(Blink::Slow) => seq![5],
        Sgr::Blink(Blink::Rapid) => seq![6],
        Sgr::Blink(Blink::Off) => seq![25],
        Sgr::Inverse(true) => seq![7],
        Sgr::Inverse(false) => seq![27],
        Sgr::Invisible(true) => seq![8],
        Sgr::Invisible(false) => seq![28],
        Sgr::StrikeThrough(true) => seq![9],
        Sgr::StrikeThrough(false) => seq![29],
        Sgr::Foreground(c) => color_params(30, c),
        Sgr::Background(c) => color_params(40, c),
    }
}

/// The parameters of the commands of `l`, one after the other.
pub open spec fn sgr_list_params(l: Seq<Sgr>) -> Seq<i64>
    decreases l.len(),
{
    if l.len() == 0 {
        seq![]
    } else {
        sgr_params(l[0]) + sgr_list_params(l.drop_first())
    }
}

/// Decoding the parameters of one command, followed by any others, gives
/// that command first and then what the others give.
pub proof fn lemma_sgr_params_decode(s: Sgr, rest: Seq<i64>)
    ensures
        sgr_list(sgr_params(s) + rest) == prepend_sgrs(seq![s], sgr_list(rest)),
{
    let p = sgr_params(s) + rest;
    let n = sgr_params(s).len() as int;
    assert(p.skip(n) =~= rest);
    assert(p[0] == sgr_params(s)[0]);
    if n >= 3 {
        assert(p[1] == sgr_params(s)[1]);
        assert(p[2] == sgr_params(s)[2]);
    }
    if n >= 5 {
        assert(p[3] == sgr_params(s)[3]);
        assert(p[4] == sgr_params(s)[4]);
    }
    assert(sgr_head(p) == Some((s, n)));
}

/// Decoding the parameters of a list of SGR commands gives the list back, in order.
pub proof fn lemma_sgr_list_round_trip(l: Seq<Sgr>)
    ensures
        sgr_list(sgr_list_params(l)) == Some(l),
    decreases l.len(),
{
    if l.len() > 0 {
        lemma_sgr_list_round_trip(l.drop_first());
        lemma_sgr_params_decode(l[0], sgr_list_params(l.drop_first()));
        assert(seq![l[0]] + l.drop_first() =~= l);
    }
}

/// A dispatched `m` sequence that carries the parameters of a non-empty list
/// of SGR commands, and no intermediates, decodes to that list.
pub proof fn lemma_sgr_sequence_round_trip(l: Seq<Sgr>)
    requires
        l.len() > 0,
    ensures
        csi_sgrs(sgr_list_params(l), Seq::empty(), false, 'm') == Some(l),
{
    lemma_sgr_list_round_trip(l);
    assert(sgr_params(l[0]).len() > 0);
    assert(sgr_list_params(l).len() > 0);
}

} // verus!
