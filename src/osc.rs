use vstd::prelude::*;
use vstd::utf8::{decode_utf8, valid_utf8};
use crate::color::RgbColor;

verus! {

/// A hyperlink: its parameters (such as `id=...`) and its target.
#[derive(Clone, Debug, PartialEq, Eq)]
pub struct Hyperlink {
    pub params: String,
    pub uri: String,
}

/// One setting of a dynamic color (foreground, background, cursor, ...).
#[derive(Clone, Copy, Debug, PartialEq, Eq, Structural)]
pub enum ColorSetting {
    /// `?`: ask for the color.
    Query,
    /// `#rrggbb`: set the color.
    Rgb(RgbColor),
}

/// A decoded Operating System Command.
#[derive(Clone, Debug, PartialEq, Eq)]
pub enum OperatingSystemCommand {
    /// Selector 0: set both the icon name and the window title.
    SetIconNameAndWindowTitle(String),
    /// Selector 1: set the icon name.
    SetIconName(String),
    /// Selector 2: set the window title.
    SetWindowTitle(String),
    /// Selector 8: start a hyperlink, or end one where the target is empty.
    SetHyperlink(Option<Hyperlink>),
    /// Selector 104: reset the listed palette entries, or all where none is listed.
    ResetColors(Vec<u8>),
    /// Selector 52 with an empty payload: clear the named selections.
    ClearSelection(Vec<u8>),
    /// Selector 52 with payload `?`: ask for the named selections' contents.
    QuerySelection(Vec<u8>),
    /// Selector 52 with a base64 payload: set the named selections to the text.
    SetSelection(Vec<u8>, String),
    /// Selectors 10 to 19: settings of consecutive dynamic colors, from the
    /// one the selector names.
    ChangeDynamicColors(u8, Vec<ColorSetting>),
    /// Any other command, kept as its `;`-separated fields.
    Unspecified(Vec<Vec<u8>>),
}

/// Whether every byte of `s` is an ASCII digit.
pub open spec fn all_digits(s: Seq<u8>) -> bool {
    forall|i: int| 0 <= i < s.len() ==> 0x30 <= #[trigger] s[i] <= 0x39
}

/// The number that the decimal digits `s` write.
pub open spec fn digits_value(s: Seq<u8>) -> nat
    decreases s.len(),
{
    if s.len() == 0 {
        0
    } else {
        digits_value(s.drop_last()) * 10 + (s.last() - 0x30) as nat
    }
}

/// The selector that a command's first field writes, if it is a decimal number.
pub open spec fn selector(s: Seq<u8>) -> Option<nat> {
    if s.len() > 0 && all_digits(s) {
        Some(digits_value(s))
    } else {
        None
    }
}

/// The selector of a title command (0, 1 or 2, then one UTF-8 field), if
/// `fields` is one.
pub open spec fn title_selector(fields: Seq<Seq<u8>>) -> Option<nat> {
    if fields.len() == 2 && valid_utf8(fields[1]) && selector(fields[0]).is_some()
        && selector(fields[0]).unwrap() <= 2 {
        selector(fields[0])
    } else {
        None
    }
}

/// Whether `fields` are a hyperlink command: selector 8, then parameters and
/// a target, both UTF-8.
pub open spec fn is_hyperlink_command(fields: Seq<Seq<u8>>) -> bool {
    fields.len() == 3 && selector(fields[0]) == Some(8nat) && valid_utf8(fields[1]) && valid_utf8(
        fields[2],
    )
}

/// Whether `fields` are a color reset command: selector 104, then palette
/// indices (0 to 255) in decimal.
pub open spec fn is_reset_colors_command(fields: Seq<Seq<u8>>) -> bool {
    &&& fields.len() >= 1
    &&& selector(fields[0]) == Some(104nat)
    &&& forall|i: int|
        1 <= i < fields.len() ==> #[trigger] selector(fields[i]).is_some() && selector(
            fields[i],
        ).unwrap() <= 255
}

/// What the `base64` crate's standard engine decodes `b` to, where `b` is
/// valid padded base64.
pub uninterp spec fn base64_decoding(b: Seq<u8>) -> Option<Seq<u8>>;

/// Whether `fields` are a selection command (selector 52, the selections,
/// a payload) whose payload reads: empty, `?`, or base64 of UTF-8 text.
pub open spec fn is_selection_command(fields: Seq<Seq<u8>>) -> bool {
    &&& fields.len() == 3
    &&& selector(fields[0]) == Some(52nat)
    &&& (fields[2].len() == 0 || fields[2] == seq![0x3fu8] || (base64_decoding(fields[2]).is_some()
        && valid_utf8(base64_decoding(fields[2]).unwrap())))
}

/// The value of hexadecimal digit `b`, if it is one.
pub open spec fn hex_value(b: u8) -> Option<u8> {
    if 0x30 <= b <= 0x39 {
        Some((b - 0x30) as u8)
    } else if 0x61 <= b <= 0x66 {
        Some((b - 0x57) as u8)
    } else if 0x41 <= b <= 0x46 {
        Some((b - 0x37) as u8)
    } else {
        None
    }
}

/// The byte that the two hexadecimal digits `hi`, `lo` write.
pub open spec fn hex_byte(hi: u8, lo: u8) -> Option<u8> {
    match (hex_value(hi), hex_value(lo)) {
        (Some(h), Some(l)) => Some((h * 16 + l) as u8),
        _ => None,
    }
}

/// The color setting that field `f` writes: `?`, or `#` and six hexadecimal digits.
pub open spec fn color_setting(f: Seq<u8>) -> Option<ColorSetting> {
    if f == seq![0x3fu8] {
        Some(ColorSetting::Query)
    } else if f.len() == 7 && f[0] == 0x23 && hex_byte(f[1], f[2]).is_some() && hex_byte(
        f[3],
        f[4],
    ).is_some() && hex_byte(f[5], f[6]).is_some() {
        Some(
            ColorSetting::Rgb(
                RgbColor {
                    red: hex_byte(f[1], f[2]).unwrap(),
                    green: hex_byte(f[3], f[4]).unwrap(),
                    blue: hex_byte(f[5], f[6]).unwrap(),
                },
            ),
        )
    } else {
        None
    }
}

/// Whether `fields` are a dynamic color command: a selector from 10 to 19,
/// then one or more color settings.
pub open spec fn is_dynamic_colors_command(fields: Seq<Seq<u8>>) -> bool {
    &&& fields.len() >= 2
    &&& selector(fields[0]).is_some()
    &&& 10 <= selector(fields[0]).unwrap() <= 19
    &&& forall|i: int| 1 <= i < fields.len() ==> #[trigger] color_setting(fields[i]).is_some()
}

/// Whether `r` is what the fields `fields` decode to.
pub open spec fn osc_matches(r: OperatingSystemCommand, fields: Seq<Seq<u8>>) -> bool {
    match r {
        OperatingSystemCommand::SetIconNameAndWindowTitle(t) => title_selector(fields) == Some(0nat)
            && t@ == decode_utf8(fields[1]),
        OperatingSystemCommand::SetIconName(t) => title_selector(fields) == Some(1nat) && t@
            == decode_utf8(fields[1]),
        OperatingSystemCommand::SetWindowTitle(t) => title_selector(fields) == Some(2nat) && t@
            == decode_utf8(fields[1]),
        OperatingSystemCommand::SetHyperlink(link) => is_hyperlink_command(fields) && match link {
            None => fields[2].len() == 0,
            Some(l) => fields[2].len() > 0 && l.params@ == decode_utf8(fields[1]) && l.uri@
                == decode_utf8(fields[2]),
        },
        OperatingSystemCommand::ResetColors(v) => is_reset_colors_command(fields) && v@.len()
            == fields.len() - 1 && forall|i: int|
            0 <= i < v@.len() ==> selector(#[trigger] fields[i + 1]) == Some(v@[i] as nat),
        OperatingSystemCommand::ClearSelection(sel) => is_selection_command(fields) && fields[2].len()
            == 0 && sel@ == fields[1],
        OperatingSystemCommand::QuerySelection(sel) => is_selection_command(fields) && fields[2]
            == seq![0x3fu8] && sel@ == fields[1],
        OperatingSystemCommand::SetSelection(sel, t) => is_selection_command(fields) && fields[2].len()
            > 0 && fields[2] != seq![0x3fu8] && sel@ == fields[1] && t@ == decode_utf8(
            base64_decoding(fields[2]).unwrap(),
        ),
        OperatingSystemCommand::ChangeDynamicColors(first, v) => is_dynamic_colors_command(fields)
            && selector(fields[0]) == Some(first as nat) && v@.len() == fields.len() - 1 && forall|
            i: int,
        | 0 <= i < v@.len() ==> color_setting(#[trigger] fields[i + 1]) == Some(v@[i]),
        OperatingSystemCommand::Unspecified(v) => !is_dynamic_colors_command(fields) && title_selector(fields).is_none()
            && !is_hyperlink_command(fields) && !is_reset_colors_command(fields)
            && !is_selection_command(fields) && v.deep_view() == fields,
    }
}

/// Relies on `String::from_utf8`: it accepts exactly the byte strings that are
/// valid UTF-8, and its string holds the characters they encode.
#[verifier::external_body]
fn utf8_string(bytes: &Vec<u8>) -> (r: Option<String>)
    ensures
        r.is_some() <==> valid_utf8(bytes@),
        r.is_some() ==> r.unwrap()@ == decode_utf8(bytes@),
{
    String::from_utf8(bytes.clone()).ok()
}

/// Relies on `base64::engine::general_purpose::STANDARD.decode`: it decodes
/// padded standard base64, and fails on anything else.
#[verifier::external_body]
fn decode_base64(b: &Vec<u8>) -> (r: Option<Vec<u8>>)
    ensures
        match r {
            Some(v) => base64_decoding(b@) == Some(v@),
            None => base64_decoding(b@).is_none(),
        },
{
    base64::Engine::decode(&base64::engine::general_purpose::STANDARD, b).ok()
}

fn copy_bytes(v: &Vec<u8>) -> (r: Vec<u8>)
    ensures
        r@ == v@,
{
    let mut r: Vec<u8> = Vec::new();
    let mut i: usize = 0;
    while i < v.len()
        invariant
            i <= v.len(),
            r@ == v@.take(i as int),
        decreases v.len() - i,
    {
        r.push(v[i]);
        i = i + 1;
        assert(r@ =~= v@.take(i as int));
    }
    assert(v@.take(i as int) =~= v@);
    r
}

fn hex_value_of(b: u8) -> (r: Option<u8>)
    ensures
        r == hex_value(b),
{
    if 0x30 <= b && b <= 0x39 {
        Some(b - 0x30)
    } else if 0x61 <= b && b <= 0x66 {
        Some(b - 0x57)
    } else if 0x41 <= b && b <= 0x46 {
        Some(b - 0x37)
    } else {
        None
    }
}

fn hex_byte_of(hi: u8, lo: u8) -> (r: Option<u8>)
    ensures
        r == hex_byte(hi, lo),
{
    match (hex_value_of(hi), hex_value_of(lo)) {
        (Some(h), Some(l)) => Some(h * 16 + l),
        _ => None,
    }
}

fn color_setting_of(f: &Vec<u8>) -> (r: Option<ColorSetting>)
    ensures
        r == color_setting(f@),
{
    if f.len() == 1 && f[0] == 0x3f {
        assert(f@ =~= seq![0x3fu8]);
        return Some(ColorSetting::Query);
    }
    assert(f@ != seq![0x3fu8]) by {
        if f@.len() == 1 {
            assert(f@[0] != seq![0x3fu8][0]);
        }
    }
    if f.len() != 7 || f[0] != 0x23 {
        return None;
    }
    match (hex_byte_of(f[1], f[2]), hex_byte_of(f[3], f[4]), hex_byte_of(f[5], f[6])) {
        (Some(red), Some(green), Some(blue)) => Some(ColorSetting::Rgb(RgbColor { red, green, blue })),
        _ => None,
    }
}

/// The settings of a dynamic color command's fields after the selector, if
/// every one is a setting.
fn color_settings_of(fields: &Vec<Vec<u8>>) -> (r: Option<Vec<ColorSetting>>)
    requires
        fields.len() >= 1,
    ensures
        match r {
            Some(v) => v@.len() == fields.len() - 1 && (forall|i: int|
                1 <= i < fields.len() ==> #[trigger] color_setting(fields@[i]@).is_some()) && forall|
                i: int,
            | 0 <= i < v@.len() ==> color_setting(#[trigger] fields@[i + 1]@) == Some(v@[i]),
            None => exists|i: int|
                1 <= i < fields.len() && #[trigger] color_setting(fields@[i]@).is_none(),
        },
{
    let mut out: Vec<ColorSetting> = Vec::new();
    let mut i: usize = 1;
    while i < fields.len()
        invariant
            1 <= i <= fields.len(),
            out@.len() == i - 1,
            forall|j: int| 1 <= j < i ==> #[trigger] color_setting(fields@[j]@).is_some(),
            forall|j: int|
                0 <= j < out@.len() ==> color_setting(#[trigger] fields@[j + 1]@) == Some(out@[j]),
        decreases fields.len() - i,
    {
        match color_setting_of(&fields[i]) {
            Some(c) => out.push(c),
            None => {
                return None;
            },
        }
        i = i + 1;
    }
    Some(out)
}

/// The value of `field` as a selector: `Some(n)` where it writes a number
/// `n` below 1000 in decimal digits.
fn selector_of(field: &Vec<u8>) -> (r: Option<u16>)
    ensures
        match r {
            Some(n) => n < 1000 && selector(field@) == Some(n as nat),
            None => selector(field@).is_none() || selector(field@).unwrap() >= 1000,
        },
{
    if field.len() == 0 {
        return None;
    }
    let mut v: u64 = 0;
    let mut i: usize = 0;
    assert(field@.take(0) =~= Seq::<u8>::empty());
    while i < field.len()
        invariant
            i <= field.len(),
            all_digits(field@.take(i as int)),
            v <= 1000,
            v == (if digits_value(field@.take(i as int)) < 1000 {
                digits_value(field@.take(i as int))
            } else {
                1000
            }),
        decreases field.len() - i,
    {
        let d = field[i];
        if d < 0x30 || d > 0x39 {
            assert(!all_digits(field@));
            return None;
        }
        assert(field@.take(i + 1).drop_last() =~= field@.take(i as int));
        assert(field@.take(i + 1).last() == d);
        v = if v >= 1000 {
            1000
        } else if v * 10 + (d - 0x30) as u64 >= 1000 {
            1000
        } else {
            v * 10 + (d - 0x30) as u64
        };
        i = i + 1;
        assert(all_digits(field@.take(i as int)));
    }
    assert(field@.take(i as int) =~= field@);
    if v < 1000 {
        Some(v as u16)
    } else {
        None
    }
}

/// The palette indices of a color reset command's fields after the selector,
/// if every one is an index.
fn reset_color_indices(fields: &Vec<Vec<u8>>) -> (r: Option<Vec<u8>>)
    requires
        fields.len() >= 1,
    ensures
        match r {
            Some(v) => v@.len() == fields.len() - 1 && (forall|i: int|
                1 <= i < fields.len() ==> #[trigger] selector(fields@[i]@).is_some() && selector(
                    fields@[i]@,
                ).unwrap() <= 255) && forall|i: int|
                0 <= i < v@.len() ==> selector(#[trigger] fields@[i + 1]@) == Some(v@[i] as nat),
            None => exists|i: int|
                1 <= i < fields.len() && !(#[trigger] selector(fields@[i]@).is_some() && selector(
                    fields@[i]@,
                ).unwrap() <= 255),
        },
{
    let mut out: Vec<u8> = Vec::new();
    let mut i: usize = 1;
    while i < fields.len()
        invariant
            1 <= i <= fields.len(),
            out@.len() == i - 1,
            forall|j: int|
                1 <= j < i ==> #[trigger] selector(fields@[j]@).is_some() && selector(
                    fields@[j]@,
                ).unwrap() <= 255,
            forall|j: int| 0 <= j < out@.len() ==> selector(#[trigger] fields@[j + 1]@) == Some(out@[j] as nat),
        decreases fields.len() - i,
    {
        match selector_of(&fields[i]) {
            Some(n) => {
                if n > 255 {
                    return None;
                }
                out.push(n as u8);
            },
            None => {
                return None;
            },
        }
        i = i + 1;
    }
    Some(out)
}

impl OperatingSystemCommand {
    /// Decodes a command from its `;`-separated fields. A title command is a
    /// selector of 0, 1 or 2 and one UTF-8 field; a hyperlink command is a
    /// selector of 8 and two UTF-8 fields; a color reset is a selector of 104
    /// and palette indices; a selection command is a selector of 52, the
    /// selections and an empty, `?` or base64 payload; a dynamic color
    /// command is a selector from 10 to 19 and `?` or `#rrggbb` settings;
    /// anything else is kept as `Unspecified`.
    pub fn parse(fields: Vec<Vec<u8>>) -> (r: OperatingSystemCommand)
        ensures
            osc_matches(r, fields.deep_view()),
    {
        let ghost f = fields.deep_view();
        if fields.len() >= 2 {
            assert(f[0] == fields@[0]@);
            match selector_of(&fields[0]) {
                Some(n) => if 10 <= n && n <= 19 {
                    match color_settings_of(&fields) {
                        Some(v) => {
                            assert forall|i: int| 0 <= i < fields.len() implies f[i] == fields@[i]@ by {}
                            return OperatingSystemCommand::ChangeDynamicColors(n as u8, v);
                        },
                        None => {
                            let ghost k = choose|k: int|
                                1 <= k < fields.len() && #[trigger] color_setting(fields@[k]@).is_none();
                            assert(f[k] == fields@[k]@);
                        },
                    }
                },
                None => {},
            }
        }
        if fields.len() >= 1 {
            assert(f[0] == fields@[0]@);
            if selector_of(&fields[0]) == Some(104u16) {
                match reset_color_indices(&fields) {
                    Some(v) => {
                        assert forall|i: int| 0 <= i < fields.len() implies f[i] == fields@[i]@ by {}
                        return OperatingSystemCommand::ResetColors(v);
                    },
                    None => {
                        let ghost k = choose|k: int|
                            1 <= k < fields.len() && !(#[trigger] selector(fields@[k]@).is_some()
                                && selector(fields@[k]@).unwrap() <= 255);
                        assert(f[k] == fields@[k]@);
                        assert(!is_reset_colors_command(f));
                    },
                }
            }
        }
        if fields.len() == 2 || fields.len() == 3 {
            assert(f[0] == fields@[0]@);
            assert(f[1] == fields@[1]@);
            let sel = selector_of(&fields[0]);
            if fields.len() == 2 {
                match sel {
                    Some(n) => if n <= 2 {
                        match utf8_string(&fields[1]) {
                            Some(t) => {
                                if n == 0 {
                                    return OperatingSystemCommand::SetIconNameAndWindowTitle(t);
                                } else if n == 1 {
                                    return OperatingSystemCommand::SetIconName(t);
                                } else {
                                    return OperatingSystemCommand::SetWindowTitle(t);
                                }
                            },
                            None => {},
                        }
                    },
                    None => {},
                }
            } else {
                assert(f[2] == fields@[2]@);
                if sel == Some(52u16) {
                    let selections = copy_bytes(&fields[1]);
                    if fields[2].len() == 0 {
                        return OperatingSystemCommand::ClearSelection(selections);
                    }
                    if fields[2].len() == 1 && fields[2][0] == 0x3f {
                        assert(fields@[2]@ =~= seq![0x3fu8]);
                        return OperatingSystemCommand::QuerySelection(selections);
                    }
                    assert(fields@[2]@ != seq![0x3fu8]) by {
                        if fields@[2]@.len() == 1 {
                            assert(fields@[2]@[0] != seq![0x3fu8][0]);
                        }
                    }
                    match decode_base64(&fields[2]) {
                        Some(data) => match utf8_string(&data) {
                            Some(text) => {
                                return OperatingSystemCommand::SetSelection(selections, text);
                            },
                            None => {},
                        },
                        None => {},
                    }
                }
                if sel == Some(8u16) {
                    match (utf8_string(&fields[1]), utf8_string(&fields[2])) {
                        (Some(params), Some(uri)) => {
                            if fields[2].len() == 0 {
                                return OperatingSystemCommand::SetHyperlink(None);
                            } else {
                                return OperatingSystemCommand::SetHyperlink(
                                    Some(Hyperlink { params, uri }),
                                );
                            }
                        },
                        _ => {},
                    }
                }
            }
        }
        OperatingSystemCommand::Unspecified(fields)
    }
}

} // verus!
