use vstd::prelude::*;
use vstd::utf8::{decode_utf8, encode_utf8, encode_utf8_decode_utf8, encode_utf8_valid_utf8, valid_utf8};
use crate::csi::{
    csi_command, mode_param, sgr_params, ColorSpec, Cursor, Edit, EraseInDisplay, EraseInLine, Mode, Sgr, CSI,
};
use crate::escape::{
    esc_bytes, esc_code_of, esc_of, esc_parts, lemma_control_code_view_injective, lemma_esc_code_round_trip,
    Action, ControlCode, DeviceControlMode, Esc,
};
use crate::osc::{
    all_digits, color_setting, digits_value, hex_byte, is_dynamic_colors_command,
    is_hyperlink_command, is_reset_colors_command, is_selection_command, osc_matches, selector,
    title_selector, ColorSetting, Hyperlink, OperatingSystemCommand,
};
use crate::cell::{Blink, Intensity, Underline};

verus! {

/// The decimal digits of `n`, most significant first.
pub open spec fn decimal(n: nat) -> Seq<u8>
    decreases n,
{
    if n < 10 {
        seq![(0x30 + n) as u8]
    } else {
        decimal(n / 10) + seq![(0x30 + n % 10) as u8]
    }
}

/// `v` in decimal, with a leading `-` where it is negative.
pub open spec fn signed_decimal(v: int) -> Seq<u8> {
    if v < 0 {
        seq![0x2du8] + decimal((-v) as nat)
    } else {
        decimal(v as nat)
    }
}

/// The parameters `p` in decimal, separated by `;`.
pub open spec fn param_text(p: Seq<i64>) -> Seq<u8>
    decreases p.len(),
{
    if p.len() == 0 {
        seq![]
    } else if p.len() == 1 {
        signed_decimal(p[0] as int)
    } else {
        param_text(p.drop_last()) + seq![0x3bu8] + signed_decimal(p.last() as int)
    }
}

/// The fields `f`, separated by `;`.
pub open spec fn fields_text(f: Seq<Seq<u8>>) -> Seq<u8>
    decreases f.len(),
{
    if f.len() == 0 {
        seq![]
    } else if f.len() == 1 {
        f[0]
    } else {
        fields_text(f.drop_last()) + seq![0x3bu8] + f.last()
    }
}

/// The fields that an Operating System Command is written with.
pub open spec fn osc_fields(o: OperatingSystemCommand) -> Seq<Seq<u8>> {
    match o {
        OperatingSystemCommand::SetIconNameAndWindowTitle(t) => seq![seq![0x30u8], encode_utf8(t@)],
        OperatingSystemCommand::SetIconName(t) => seq![seq![0x31u8], encode_utf8(t@)],
        OperatingSystemCommand::SetWindowTitle(t) => seq![seq![0x32u8], encode_utf8(t@)],
        OperatingSystemCommand::SetHyperlink(None) => seq![seq![0x38u8], seq![], seq![]],
        OperatingSystemCommand::SetHyperlink(Some(l)) => seq![
            seq![0x38u8],
            encode_utf8(l.params@),
            encode_utf8(l.uri@),
        ],
        OperatingSystemCommand::ResetColors(v) => seq![decimal(104)] + Seq::new(
            v@.len(),
            |i: int| decimal(v@[i] as nat),
        ),
        OperatingSystemCommand::ClearSelection(sel) => seq![decimal(52), sel@, seq![]],
        OperatingSystemCommand::QuerySelection(sel) => seq![decimal(52), sel@, seq![0x3fu8]],
        OperatingSystemCommand::SetSelection(sel, t) => seq![
            decimal(52),
            sel@,
            base64_encoding(encode_utf8(t@)),
        ],
        OperatingSystemCommand::ChangeDynamicColors(first, v) => seq![decimal(first as nat)] + Seq::new(
            v@.len(),
            |i: int| setting_text(v@[i]),
        ),
        OperatingSystemCommand::Unspecified(v) => v.deep_view(),
    }
}

/// The lower-case hexadecimal digit of `n` (below 16).
pub open spec fn hex_digit(n: u8) -> u8 {
    if n < 10 {
        (0x30 + n) as u8
    } else {
        (0x57 + n) as u8
    }
}

/// The field that writes color setting `c`: `?`, or `#rrggbb`.
pub open spec fn setting_text(c: ColorSetting) -> Seq<u8> {
    match c {
        ColorSetting::Query => seq![0x3fu8],
        ColorSetting::Rgb(rgb) => seq![
            0x23u8,
            hex_digit(rgb.red / 16),
            hex_digit(rgb.red % 16),
            hex_digit(rgb.green / 16),
            hex_digit(rgb.green % 16),
            hex_digit(rgb.blue / 16),
            hex_digit(rgb.blue % 16),
        ],
    }
}

fn hex_digit_of(n: u8) -> (r: u8)
    requires
        n < 16,
    ensures
        r == hex_digit(n),
{
    if n < 10 {
        0x30 + n
    } else {
        0x57 + n
    }
}

fn push_setting(c: ColorSetting, out: &mut Vec<u8>)
    ensures
        final(out)@ == old(out)@ + setting_text(c),
{
    match c {
        ColorSetting::Query => out.push(0x3f),
        ColorSetting::Rgb(rgb) => {
            out.push(0x23);
            out.push(hex_digit_of(rgb.red / 16));
            out.push(hex_digit_of(rgb.red % 16));
            out.push(hex_digit_of(rgb.green / 16));
            out.push(hex_digit_of(rgb.green % 16));
            out.push(hex_digit_of(rgb.blue / 16));
            out.push(hex_digit_of(rgb.blue % 16));
        },
    }
    assert(final(out)@ =~= old(out)@ + setting_text(c));
}

fn push_dynamic_colors(first: u8, v: &Vec<ColorSetting>, out: &mut Vec<u8>)
    ensures
        final(out)@ == old(out)@ + fields_text(
            osc_fields(OperatingSystemCommand::ChangeDynamicColors(first, *v)),
        ),
{
    let ghost f = osc_fields(OperatingSystemCommand::ChangeDynamicColors(first, *v));
    push_decimal(first as u64, out);
    assert(f.take(1) =~= seq![decimal(first as nat)]);
    let mut i: usize = 0;
    while i < v.len()
        invariant
            i <= v.len(),
            f == osc_fields(OperatingSystemCommand::ChangeDynamicColors(first, *v)),
            out@ == old(out)@ + fields_text(f.take(i + 1)),
        decreases v.len() - i,
    {
        out.push(0x3b);
        push_setting(v[i], out);
        proof {
            let t = f.take(i + 2);
            assert(t.drop_last() =~= f.take(i + 1));
            assert(t.last() == setting_text(v@[i as int]));
        }
        i = i + 1;
        assert(out@ =~= old(out)@ + fields_text(f.take(i + 1)));
    }
    assert(f.take(i + 1) =~= f);
}

proof fn lemma_setting_round_trip(c: ColorSetting)
    ensures
        color_setting(setting_text(c)) == Some(c),
{
    if let ColorSetting::Rgb(rgb) = c {
        let t = setting_text(c);
        assert(t.len() == 7);
        assert(t != seq![0x3fu8]);
        assert(hex_byte(t[1], t[2]) == Some(rgb.red));
        assert(hex_byte(t[3], t[4]) == Some(rgb.green));
        assert(hex_byte(t[5], t[6]) == Some(rgb.blue));
    } else {
        assert(setting_text(c) =~= seq![0x3fu8]);
    }
}

/// What the `base64` crate's standard engine encodes `b` to.
pub uninterp spec fn base64_encoding(b: Seq<u8>) -> Seq<u8>;

/// Relies on `base64::engine::general_purpose::STANDARD.encode`: padded
/// standard base64, four characters for every three bytes begun. It panics
/// only where that length overflows.
#[verifier::external_body]
fn encode_base64(b: &[u8]) -> (r: Vec<u8>)
    requires
        b@.len() <= usize::MAX / 2,
    ensures
        r@ == base64_encoding(b@),
        r@.len() == 4 * ((b@.len() + 2) / 3),
{
    base64::Engine::encode(&base64::engine::general_purpose::STANDARD, b).into_bytes()
}

fn push_selection(sel: &Vec<u8>, payload: &[u8], out: &mut Vec<u8>)
    ensures
        final(out)@ == old(out)@ + fields_text(seq![decimal(52), sel@, payload@]),
{
    let ghost f = seq![decimal(52), sel@, payload@];
    push_decimal(52, out);
    out.push(0x3b);
    push_bytes(sel, out);
    out.push(0x3b);
    push_slice(payload, out);
    proof {
        assert(f.drop_last().drop_last() =~= seq![decimal(52)]);
        assert(fields_text(f.drop_last().drop_last()) == decimal(52));
        assert(fields_text(f.drop_last()) == decimal(52) + seq![0x3bu8] + f[1]);
        assert(final(out)@ =~= old(out)@ + fields_text(f));
    }
}

/// The parameters that write cursor movement `c`.
pub open spec fn cursor_params(c: Cursor) -> Seq<i64> {
    match c {
        Cursor::Up(n) => seq![n as i64],
        Cursor::Down(n) => seq![n as i64],
        Cursor::Right(n) => seq![n as i64],
        Cursor::Left(n) => seq![n as i64],
        Cursor::Position { line, col } => seq![line as i64, col as i64],
    }
}

/// The final character of cursor movement `c`.
pub open spec fn cursor_char(c: Cursor) -> char {
    match c {
        Cursor::Up(_) => 'A',
        Cursor::Down(_) => 'B',
        Cursor::Right(_) => 'C',
        Cursor::Left(_) => 'D',
        Cursor::Position { .. } => 'H',
    }
}

/// The final byte of cursor movement `c`: its final character in ASCII.
pub open spec fn cursor_final(c: Cursor) -> u8 {
    match c {
        Cursor::Up(_) => 0x41,
        Cursor::Down(_) => 0x42,
        Cursor::Right(_) => 0x43,
        Cursor::Left(_) => 0x44,
        Cursor::Position { .. } => 0x48,
    }
}

/// The selector parameter of erase `e`.
pub open spec fn edit_selector(e: Edit) -> i64 {
    match e {
        Edit::EraseInLine(EraseInLine::EraseToEndOfLine) => 0,
        Edit::EraseInLine(EraseInLine::EraseToStartOfLine) => 1,
        Edit::EraseInLine(EraseInLine::EraseLine) => 2,
        Edit::EraseInDisplay(EraseInDisplay::EraseToEndOfDisplay) => 0,
        Edit::EraseInDisplay(EraseInDisplay::EraseToStartOfDisplay) => 1,
        Edit::EraseInDisplay(EraseInDisplay::EraseDisplay) => 2,
        Edit::EraseInDisplay(EraseInDisplay::EraseScrollback) => 3,
    }
}

/// The final character of erase `e`.
pub open spec fn edit_char(e: Edit) -> char {
    match e {
        Edit::EraseInLine(_) => 'K',
        Edit::EraseInDisplay(_) => 'J',
    }
}

/// The final byte of erase `e`: its final character in ASCII.
pub open spec fn edit_final(e: Edit) -> u8 {
    match e {
        Edit::EraseInLine(_) => 0x4b,
        Edit::EraseInDisplay(_) => 0x4a,
    }
}

/// The private marker, mode number and final byte that write mode change `m`.
pub open spec fn mode_parts_of(m: Mode) -> (Seq<u8>, u16, u8) {
    match m {
        Mode::SetDecPrivateMode(n) => (seq![0x3fu8], n, 0x68u8),
        Mode::ResetDecPrivateMode(n) => (seq![0x3fu8], n, 0x6cu8),
        Mode::SetMode(n) => (seq![], n, 0x68u8),
        Mode::ResetMode(n) => (seq![], n, 0x6cu8),
    }
}

/// The final character of mode change `m`.
pub open spec fn mode_char(m: Mode) -> char {
    match m {
        Mode::SetDecPrivateMode(_) => 'h',
        Mode::ResetDecPrivateMode(_) => 'l',
        Mode::SetMode(_) => 'h',
        Mode::ResetMode(_) => 'l',
    }
}

/// The bytes that write `a`. An ESC sequence is ESC, its intermediate and its
/// final byte; a control sequence is ESC `[`, its parameters, its
/// intermediates and its final character; an Operating System Command is ESC
/// `]`, its fields and BEL. A device control header is ESC `P`, its
/// parameters and its intermediates.
pub open spec fn action_bytes(a: Action) -> Seq<u8> {
    match a {
        Action::Print(c) => encode_utf8(seq![c]),
        Action::Control(code) => seq![code@],
        Action::Esc(e) => seq![0x1bu8] + (match esc_bytes(e).0 {
            Some(i) => seq![i],
            None => seq![],
        }) + seq![esc_bytes(e).1],
        Action::CSI(CSI::Sgr(s)) => seq![0x1bu8, 0x5bu8] + param_text(sgr_params(s)) + seq![0x6du8],
        Action::CSI(CSI::Cursor(c)) => seq![0x1bu8, 0x5bu8] + param_text(cursor_params(c)) + seq![
            cursor_final(c),
        ],
        Action::CSI(CSI::Edit(e)) => seq![0x1bu8, 0x5bu8] + param_text(seq![edit_selector(e)]) + seq![
            edit_final(e),
        ],
        Action::CSI(CSI::Mode(m)) => seq![0x1bu8, 0x5bu8] + mode_parts_of(m).0 + decimal(
            mode_parts_of(m).1 as nat,
        ) + seq![mode_parts_of(m).2],
        Action::CSI(CSI::Unspecified(u)) => seq![0x1bu8, 0x5bu8] + param_text(u.params@)
            + u.intermediates@ + encode_utf8(seq![u.control]),
        Action::OperatingSystemCommand(o) => seq![0x1bu8, 0x5du8] + fields_text(osc_fields(o))
            + seq![0x07u8],
        Action::DeviceControl(DeviceControlMode::Enter { params, intermediates, .. }) => seq![
            0x1bu8,
            0x50u8,
        ] + param_text(params@) + intermediates@,
        Action::DeviceControl(DeviceControlMode::Data(b)) => seq![b],
        Action::DeviceControl(DeviceControlMode::Exit) => seq![0x1bu8, 0x5cu8],
    }
}

/// Relies on `char::encode_utf8`: it writes the UTF-8 encoding of the character.
#[verifier::external_body]
fn char_utf8(c: char) -> (r: Vec<u8>)
    ensures
        r@ == encode_utf8(seq![c]),
{
    let mut buf = [0u8; 4];
    c.encode_utf8(&mut buf).as_bytes().to_vec()
}

fn push_decimal(n: u64, out: &mut Vec<u8>)
    ensures
        final(out)@ == old(out)@ + decimal(n as nat),
    decreases n,
{
    if n < 10 {
        out.push(0x30 + n as u8);
        assert(final(out)@ =~= old(out)@ + decimal(n as nat));
    } else {
        push_decimal(n / 10, out);
        out.push(0x30 + (n % 10) as u8);
        assert(final(out)@ =~= old(out)@ + decimal(n as nat));
    }
}

fn push_signed(v: i64, out: &mut Vec<u8>)
    ensures
        final(out)@ == old(out)@ + signed_decimal(v as int),
{
    if v < 0 {
        out.push(0x2d);
        let magnitude: u64 = (-(v + 1)) as u64 + 1;
        push_decimal(magnitude, out);
        assert(final(out)@ =~= old(out)@ + signed_decimal(v as int));
    } else {
        push_decimal(v as u64, out);
    }
}

fn push_bytes(src: &Vec<u8>, out: &mut Vec<u8>)
    ensures
        final(out)@ == old(out)@ + src@,
{
    let mut i: usize = 0;
    while i < src.len()
        invariant
            i <= src.len(),
            out@ == old(out)@ + src@.take(i as int),
        decreases src.len() - i,
    {
        out.push(src[i]);
        i = i + 1;
        assert(out@ =~= old(out)@ + src@.take(i as int));
    }
    assert(src@.take(i as int) =~= src@);
}

fn push_params(p: &Vec<i64>, out: &mut Vec<u8>)
    ensures
        final(out)@ == old(out)@ + param_text(p@),
{
    let mut i: usize = 0;
    assert(p@.take(0) =~= Seq::<i64>::empty());
    while i < p.len()
        invariant
            i <= p.len(),
            out@ == old(out)@ + param_text(p@.take(i as int)),
        decreases p.len() - i,
    {
        if i > 0 {
            out.push(0x3b);
        }
        push_signed(p[i], out);
        proof {
            let t = p@.take(i + 1);
            assert(t.drop_last() =~= p@.take(i as int));
            assert(t.last() == p@[i as int]);
            if i == 0 {
                assert(param_text(p@.take(0)) =~= Seq::<u8>::empty());
            }
        }
        i = i + 1;
        assert(out@ =~= old(out)@ + param_text(p@.take(i as int)));
    }
    assert(p@.take(i as int) =~= p@);
}

fn push_slice(src: &[u8], out: &mut Vec<u8>)
    ensures
        final(out)@ == old(out)@ + src@,
{
    let mut i: usize = 0;
    while i < src.len()
        invariant
            i <= src.len(),
            out@ == old(out)@ + src@.take(i as int),
        decreases src.len() - i,
    {
        out.push(src[i]);
        i = i + 1;
        assert(out@ =~= old(out)@ + src@.take(i as int));
    }
    assert(src@.take(i as int) =~= src@);
}

fn push_fields(f: &Vec<Vec<u8>>, out: &mut Vec<u8>)
    ensures
        final(out)@ == old(out)@ + fields_text(f.deep_view()),
{
    let ghost fv = f.deep_view();
    let mut i: usize = 0;
    assert(fv.take(0) =~= Seq::<Seq<u8>>::empty());
    while i < f.len()
        invariant
            i <= f.len(),
            fv == f.deep_view(),
            out@ == old(out)@ + fields_text(fv.take(i as int)),
        decreases f.len() - i,
    {
        if i > 0 {
            out.push(0x3b);
        }
        push_bytes(&f[i], out);
        proof {
            let t = fv.take(i + 1);
            assert(t.drop_last() =~= fv.take(i as int));
            assert(t.last() == f@[i as int]@);
            if i == 0 {
                assert(fields_text(fv.take(0)) =~= Seq::<u8>::empty());
            }
        }
        i = i + 1;
        assert(out@ =~= old(out)@ + fields_text(fv.take(i as int)));
    }
    assert(fv.take(i as int) =~= fv);
}

fn color_param_vec(base: i64, c: ColorSpec) -> (r: Vec<i64>)
    requires
        base == 30 || base == 40,
    ensures
        r@ == crate::csi::color_params(base as int, c),
{
    let r: Vec<i64> = match c {
        ColorSpec::Default => vec![base + 9],
        ColorSpec::PaletteIndex(n) => if n < 8 {
            vec![base + n as i64]
        } else if n < 16 {
            vec![base + 52 + n as i64]
        } else {
            vec![base + 8, 5, n as i64]
        },
        ColorSpec::TrueColor(rgb) => vec![
            base + 8,
            2,
            rgb.red as i64,
            rgb.green as i64,
            rgb.blue as i64,
        ],
    };
    assert(r@ =~= crate::csi::color_params(base as int, c));
    r
}

/// The parameters that write SGR command `s`.
pub fn sgr_param_vec(s: Sgr) -> (r: Vec<i64>)
    ensures
        r@ == sgr_params(s),
{
    let code: i64 = match s {
        Sgr::Foreground(c) => {
            return color_param_vec(30, c);
        },
        Sgr::Background(c) => {
            return color_param_vec(40, c);
        },
        Sgr::Reset => 0,
        Sgr::Intensity(Intensity::Bold) => 1,
        Sgr::Intensity(Intensity::Half) => 2,
        Sgr::Intensity(Intensity::Normal) => 22,
        Sgr::Italic(true) => 3,
        Sgr::Italic(false) => 23,
        Sgr::Underline(Underline::Single) => 4,
        Sgr::Underline(Underline::Double) => 21,
        Sgr::Underline(Underline::Off) => 24,
        Sgr::Blink(Blink::Slow) => 5,
        Sgr::Blink(Blink::Rapid) => 6,
        Sgr::Blink(Blink::Off) => 25,
        Sgr::Inverse(true) => 7,
        Sgr::Inverse(false) => 27,
        Sgr::Invisible(true) => 8,
        Sgr::Invisible(false) => 28,
        Sgr::StrikeThrough(true) => 9,
        Sgr::StrikeThrough(false) => 29,
    };
    let r = vec![code];
    assert(r@ =~= sgr_params(s));
    r
}

fn push_title(selector: u8, title: &String, out: &mut Vec<u8>)
    requires
        selector <= 2,
    ensures
        final(out)@ == old(out)@ + fields_text(
            seq![seq![(0x30 + selector) as u8], encode_utf8(title@)],
        ),
{
    let ghost f = seq![seq![(0x30 + selector) as u8], encode_utf8(title@)];
    out.push(0x30 + selector);
    out.push(0x3b);
    let text: &str = title.as_str();
    let bytes: &[u8] = text.as_bytes();
    assert(bytes@ == encode_utf8(title@));
    push_slice(bytes, out);
    proof {
        assert(f.drop_last() =~= seq![seq![(0x30 + selector) as u8]]);
        assert(fields_text(f.drop_last()) == seq![(0x30 + selector) as u8]);
        assert(f.last() == encode_utf8(title@));
        assert(final(out)@ =~= old(out)@ + fields_text(f));
    }
}

fn push_hyperlink(link: &Option<Hyperlink>, out: &mut Vec<u8>)
    ensures
        final(out)@ == old(out)@ + fields_text(osc_fields(OperatingSystemCommand::SetHyperlink(*link))),
{
    let ghost f = osc_fields(OperatingSystemCommand::SetHyperlink(*link));
    out.push(0x38);
    out.push(0x3b);
    match link {
        Some(l) => {
            push_slice(l.params.as_str().as_bytes(), out);
            out.push(0x3b);
            push_slice(l.uri.as_str().as_bytes(), out);
        },
        None => {
            out.push(0x3b);
        },
    }
    proof {
        assert(f.drop_last().drop_last() =~= seq![seq![0x38u8]]);
        assert(fields_text(f.drop_last().drop_last()) == seq![0x38u8]);
        assert(fields_text(f.drop_last()) == seq![0x38u8] + seq![0x3bu8] + f[1]);
        assert(final(out)@ =~= old(out)@ + fields_text(f));
    }
}

fn push_reset_colors(v: &Vec<u8>, out: &mut Vec<u8>)
    ensures
        final(out)@ == old(out)@ + fields_text(osc_fields(OperatingSystemCommand::ResetColors(*v))),
{
    let ghost f = osc_fields(OperatingSystemCommand::ResetColors(*v));
    push_decimal(104, out);
    assert(f.take(1) =~= seq![decimal(104)]);
    let mut i: usize = 0;
    while i < v.len()
        invariant
            i <= v.len(),
            f == osc_fields(OperatingSystemCommand::ResetColors(*v)),
            out@ == old(out)@ + fields_text(f.take(i + 1)),
        decreases v.len() - i,
    {
        out.push(0x3b);
        push_decimal(v[i] as u64, out);
        proof {
            let t = f.take(i + 2);
            assert(t.drop_last() =~= f.take(i + 1));
            assert(t.last() == decimal(v@[i as int] as nat));
        }
        i = i + 1;
        assert(out@ =~= old(out)@ + fields_text(f.take(i + 1)));
    }
    assert(f.take(i + 1) =~= f);
}

fn cursor_parts(c: Cursor) -> (r: (Vec<i64>, u8))
    ensures
        r.0@ == cursor_params(c),
        r.1 == cursor_final(c),
{
    let r: (Vec<i64>, u8) = match c {
        Cursor::Up(n) => (vec![n as i64], 0x41),
        Cursor::Down(n) => (vec![n as i64], 0x42),
        Cursor::Right(n) => (vec![n as i64], 0x43),
        Cursor::Left(n) => (vec![n as i64], 0x44),
        Cursor::Position { line, col } => (vec![line as i64, col as i64], 0x48),
    };
    assert(r.0@ =~= cursor_params(c));
    r
}

fn edit_parts(e: Edit) -> (r: (i64, u8))
    ensures
        r == (edit_selector(e), edit_final(e)),
{
    match e {
        Edit::EraseInLine(EraseInLine::EraseToEndOfLine) => (0, 0x4b),
        Edit::EraseInLine(EraseInLine::EraseToStartOfLine) => (1, 0x4b),
        Edit::EraseInLine(EraseInLine::EraseLine) => (2, 0x4b),
        Edit::EraseInDisplay(EraseInDisplay::EraseToEndOfDisplay) => (0, 0x4a),
        Edit::EraseInDisplay(EraseInDisplay::EraseToStartOfDisplay) => (1, 0x4a),
        Edit::EraseInDisplay(EraseInDisplay::EraseDisplay) => (2, 0x4a),
        Edit::EraseInDisplay(EraseInDisplay::EraseScrollback) => (3, 0x4a),
    }
}

impl Action {
    /// The bytes that write this action (see `action_bytes`).
    pub fn encode(&self) -> (r: Vec<u8>)
        requires
            match *self {
                Action::OperatingSystemCommand(OperatingSystemCommand::SetSelection(_, t)) => encode_utf8(
                    t@,
                ).len() <= usize::MAX / 2,
                _ => true,
            },
        ensures
            r@ == action_bytes(*self),
    {
        let mut out: Vec<u8> = Vec::new();
        match self {
            Action::Print(c) => {
                return char_utf8(*c);
            },
            Action::Control(code) => {
                out.push(code.byte());
            },
            Action::Esc(e) => {
                out.push(0x1b);
                let (intermediate, control): (Option<u8>, u8) = esc_parts(e);
                match intermediate {
                    Some(i) => out.push(i),
                    None => {},
                }
                out.push(control);
            },
            Action::CSI(CSI::Sgr(s)) => {
                out.push(0x1b);
                out.push(0x5b);
                push_params(&sgr_param_vec(*s), &mut out);
                out.push(0x6d);
            },
            Action::CSI(CSI::Cursor(c)) => {
                out.push(0x1b);
                out.push(0x5b);
                let (params, last): (Vec<i64>, u8) = cursor_parts(*c);
                push_params(&params, &mut out);
                out.push(last);
            },
            Action::CSI(CSI::Edit(e)) => {
                out.push(0x1b);
                out.push(0x5b);
                let (selector, last): (i64, u8) = edit_parts(*e);
                let params = vec![selector];
                assert(params@ =~= seq![edit_selector(*e)]);
                push_params(&params, &mut out);
                out.push(last);
            },
            Action::CSI(CSI::Mode(m)) => {
                out.push(0x1b);
                out.push(0x5b);
                let (private, n, last): (bool, u16, u8) = match m {
                    Mode::SetDecPrivateMode(n) => (true, *n, 0x68),
                    Mode::ResetDecPrivateMode(n) => (true, *n, 0x6c),
                    Mode::SetMode(n) => (false, *n, 0x68),
                    Mode::ResetMode(n) => (false, *n, 0x6c),
                };
                if private {
                    out.push(0x3f);
                }
                push_decimal(n as u64, &mut out);
                out.push(last);
            },
            Action::CSI(CSI::Unspecified(u)) => {
                out.push(0x1b);
                out.push(0x5b);
                push_params(&u.params, &mut out);
                push_bytes(&u.intermediates, &mut out);
                push_bytes(&char_utf8(u.control), &mut out);
            },
            Action::OperatingSystemCommand(o) => {
                out.push(0x1b);
                out.push(0x5d);
                match o {
                    OperatingSystemCommand::SetIconNameAndWindowTitle(t) => push_title(0, t, &mut out),
                    OperatingSystemCommand::SetIconName(t) => push_title(1, t, &mut out),
                    OperatingSystemCommand::SetWindowTitle(t) => push_title(2, t, &mut out),
                    OperatingSystemCommand::SetHyperlink(link) => push_hyperlink(link, &mut out),
                    OperatingSystemCommand::ResetColors(v) => push_reset_colors(v, &mut out),
                    OperatingSystemCommand::ChangeDynamicColors(first, v) => push_dynamic_colors(*first, v, &mut out),
                    OperatingSystemCommand::ClearSelection(sel) => {
                        let empty: Vec<u8> = Vec::new();
                        push_selection(sel, empty.as_slice(), &mut out);
                    },
                    OperatingSystemCommand::QuerySelection(sel) => {
                        let query: Vec<u8> = vec![0x3f];
                        assert(query@ =~= seq![0x3fu8]);
                        push_selection(sel, query.as_slice(), &mut out);
                    },
                    OperatingSystemCommand::SetSelection(sel, t) => {
                        let data = encode_base64(t.as_str().as_bytes());
                        push_selection(sel, data.as_slice(), &mut out);
                    },
                    OperatingSystemCommand::Unspecified(v) => push_fields(v, &mut out),
                }
                out.push(0x07);
            },
            Action::DeviceControl(DeviceControlMode::Enter { params, intermediates, .. }) => {
                out.push(0x1b);
                out.push(0x50);
                push_params(params, &mut out);
                push_bytes(intermediates, &mut out);
            },
            Action::DeviceControl(DeviceControlMode::Data(b)) => {
                out.push(*b);
            },
            Action::DeviceControl(DeviceControlMode::Exit) => {
                out.push(0x1b);
                out.push(0x5c);
            },
        }
        assert(out@ =~= action_bytes(*self));
        out
    }
}

/// Decoding the intermediate and final byte that an ESC sequence is written
/// with gives it back, unless it is an unspecified sequence whose bytes are
/// those of a known code.
pub proof fn lemma_esc_round_trip(e: Esc)
    requires
        match e {
            Esc::Unspecified { intermediate, control } => esc_code_of(intermediate, control).is_none(),
            Esc::Code(_) => true,
        },
    ensures
        esc_of(esc_bytes(e).0, esc_bytes(e).1) == e,
{
    if let Esc::Code(code) = e {
        lemma_esc_code_round_trip(code);
    }
}

proof fn lemma_decimal_selector(n: nat)
    ensures
        selector(decimal(n)) == Some(n),
    decreases n,
{
    let d = decimal(n);
    if n < 10 {
        assert(d.drop_last() =~= Seq::<u8>::empty());
        assert(digits_value(Seq::<u8>::empty()) == 0);
    } else {
        lemma_decimal_selector(n / 10);
        assert(d.drop_last() =~= decimal(n / 10));
        assert(all_digits(d)) by {
            assert forall|i: int| 0 <= i < d.len() implies 0x30 <= #[trigger] d[i] <= 0x39 by {
                if i < d.len() - 1 {
                    assert(d[i] == decimal(n / 10)[i]);
                }
            }
        }
        assert(digits_value(d) == (n / 10) * 10 + n % 10);
    }
}

proof fn lemma_single_digit_selector(d: u8)
    requires
        0x30 <= d <= 0x39,
    ensures
        selector(seq![d]) == Some((d - 0x30) as nat),
{
    assert(seq![d].drop_last() =~= Seq::<u8>::empty());
    assert(all_digits(seq![d]));
    assert(digits_value(Seq::<u8>::empty()) == 0);
    assert(seq![d].last() == d);
    assert(digits_value(seq![d]) == (d - 0x30) as nat);
}

/// Decoding the fields that an Operating System Command is written with gives
/// it back, unless it is an unspecified command whose fields read as a known
/// command, a hyperlink with an empty target (which reads as the end of a
/// hyperlink), a dynamic color command without settings or outside 10 to 19, or a selection being set (how base64 encoding and decoding
/// relate is the outside crate's, and is not stated here).
pub proof fn lemma_osc_round_trip(o: OperatingSystemCommand)
    requires
        match o {
            OperatingSystemCommand::Unspecified(v) => !is_dynamic_colors_command(v.deep_view())
                && title_selector(v.deep_view()).is_none() && !is_hyperlink_command(v.deep_view()) && !is_reset_colors_command(v.deep_view())
                && !is_selection_command(v.deep_view()),
            OperatingSystemCommand::SetHyperlink(Some(l)) => l.uri@.len() > 0,
            OperatingSystemCommand::SetSelection(..) => false,
            OperatingSystemCommand::ChangeDynamicColors(first, v) => 10 <= first <= 19 && v@.len() >= 1,
            _ => true,
        },
    ensures
        osc_matches(o, osc_fields(o)),
{
    match o {
        OperatingSystemCommand::SetIconNameAndWindowTitle(t) => {
            lemma_single_digit_selector(0x30);
            encode_utf8_valid_utf8(t@);
            encode_utf8_decode_utf8(t@);
        },
        OperatingSystemCommand::SetIconName(t) => {
            lemma_single_digit_selector(0x31);
            encode_utf8_valid_utf8(t@);
            encode_utf8_decode_utf8(t@);
        },
        OperatingSystemCommand::SetWindowTitle(t) => {
            lemma_single_digit_selector(0x32);
            encode_utf8_valid_utf8(t@);
            encode_utf8_decode_utf8(t@);
        },
        OperatingSystemCommand::SetHyperlink(None) => {
            lemma_single_digit_selector(0x38);
            assert(valid_utf8(Seq::<u8>::empty()));
        },
        OperatingSystemCommand::SetHyperlink(Some(l)) => {
            lemma_single_digit_selector(0x38);
            encode_utf8_valid_utf8(l.params@);
            encode_utf8_decode_utf8(l.params@);
            encode_utf8_valid_utf8(l.uri@);
            encode_utf8_decode_utf8(l.uri@);
            assert(encode_utf8(l.uri@).len() > 0) by {
                if encode_utf8(l.uri@).len() == 0 {
                    assert(decode_utf8(encode_utf8(l.uri@)) =~= Seq::<char>::empty());
                }
            }
        },
        OperatingSystemCommand::ResetColors(v) => {
            let f = osc_fields(o);
            lemma_decimal_selector(104);
            assert forall|i: int| 0 <= i < v@.len() implies selector(#[trigger] f[i + 1]) == Some(
                v@[i] as nat,
            ) by {
                lemma_decimal_selector(v@[i] as nat);
            }
            assert forall|i: int| 1 <= i < f.len() implies #[trigger] selector(f[i]).is_some()
                && selector(f[i]).unwrap() <= 255 by {
                lemma_decimal_selector(v@[i - 1] as nat);
            }
        },
        OperatingSystemCommand::ClearSelection(_) => {
            lemma_decimal_selector(52);
            assert(valid_utf8(Seq::<u8>::empty()));
        },
        OperatingSystemCommand::QuerySelection(_) => {
            lemma_decimal_selector(52);
        },
        OperatingSystemCommand::SetSelection(..) => {},
        OperatingSystemCommand::ChangeDynamicColors(first, v) => {
            let f = osc_fields(o);
            lemma_decimal_selector(first as nat);
            assert forall|i: int| 0 <= i < v@.len() implies color_setting(#[trigger] f[i + 1]) == Some(
                v@[i],
            ) by {
                lemma_setting_round_trip(v@[i]);
            }
            assert forall|i: int| 1 <= i < f.len() implies #[trigger] color_setting(f[i]).is_some() by {
                lemma_setting_round_trip(v@[i - 1]);
            }
        },
        OperatingSystemCommand::Unspecified(_) => {},
    }
}

/// Decoding the parameters and final character of a cursor movement gives it back.
pub proof fn lemma_cursor_round_trip(c: Cursor)
    ensures
        csi_command(cursor_params(c), Seq::empty(), false, cursor_char(c)) == Some(CSI::Cursor(c)),
{
}

/// Decoding the private marker, number and final character of a mode change
/// gives it back.
pub proof fn lemma_mode_round_trip(m: Mode)
    ensures
        csi_command(seq![mode_parts_of(m).1 as i64], mode_parts_of(m).0, false, mode_char(m))
            == Some(CSI::Mode(m)),
{
    let (marker, n, _) = mode_parts_of(m);
    assert(mode_param(seq![n as i64]) == Some(n));
    if marker.len() == 0 {
        assert(marker != seq![0x3fu8]) by {
            assert(seq![0x3fu8].len() == 1);
        }
    }
}

/// Decoding the parameter and final character of an erase gives it back.
pub proof fn lemma_edit_round_trip(e: Edit)
    ensures
        csi_command(seq![edit_selector(e)], Seq::empty(), false, edit_char(e)) == Some(CSI::Edit(e)),
{
}

/// A control code is written as its byte, and the code that this byte
/// decodes to (see `control_action`) is the same code.
pub proof fn lemma_control_round_trip(code: ControlCode)
    ensures
        action_bytes(Action::Control(code)) == seq![code@],
        forall|c: ControlCode| c@ == action_bytes(Action::Control(code))[0] ==> c == code,
{
    assert forall|c: ControlCode| c@ == action_bytes(Action::Control(code))[0] implies c == code by {
        lemma_control_code_view_injective(c, code);
    }
}

} // verus!
