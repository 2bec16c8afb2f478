use vstd::prelude::*;
use crate::csi::{csi_command, csi_sgrs, is_unspecified_of, CSI};
use crate::osc::{osc_matches, OperatingSystemCommand};

verus! {

/// Whether `b` is a C0 or C1 control code, or DEL.
pub open spec fn is_control_byte(b: u8) -> bool {
    b < 0x20 || b == 0x7f || (0x80 <= b && b < 0xa0)
}

/// A C0 or C1 control code, or DEL, held as its byte.
#[derive(Clone, Copy, Debug, PartialEq, Eq, Structural)]
pub struct ControlCode {
    byte: u8,
}

impl View for ControlCode {
    type V = u8;

    closed spec fn view(&self) -> u8 {
        self.byte
    }
}

impl ControlCode {
    /// The byte is a control code.
    #[verifier::type_invariant]
    spec fn inv(self) -> bool {
        is_control_byte(self.byte)
    }

    /// The control code of byte `b`, if `b` is one.
    pub fn from_u8(b: u8) -> (r: Option<ControlCode>)
        ensures
            r.is_some() <==> is_control_byte(b),
            r.is_some() ==> r.unwrap()@ == b,
    {
        if b < 0x20 || b == 0x7f || (0x80 <= b && b < 0xa0) {
            Some(ControlCode { byte: b })
        } else {
            None
        }
    }

    /// The byte of this control code.
    pub fn byte(&self) -> (r: u8)
        ensures
            r == self@,
            is_control_byte(r),
    {
        proof {
            use_type_invariant(self);
        }
        self.byte
    }
}

/// A control code is fixed by its byte.
pub proof fn lemma_control_code_view_injective(a: ControlCode, b: ControlCode)
    ensures
        a@ == b@ ==> a == b,
{
}

/// The ESC sequences with a meaning of their own.
#[derive(Clone, Copy, Debug, PartialEq, Eq, Structural)]
pub enum EscCode {
    FullReset,
    Index,
    NextLine,
    CursorPositionLowerLeft,
    HorizontalTabSet,
    ReverseIndex,
    SingleShiftG2,
    SingleShiftG3,
    StartOfGuardedArea,
    EndOfGuardedArea,
    StartOfString,
    ReturnTerminalId,
    StringTerminator,
    PrivacyMessage,
    ApplicationProgramCommand,
    DecSaveCursorPosition,
    DecRestoreCursorPosition,
    DecApplicationKeyPad,
    DecNormalKeyPad,
    DecLineDrawing,
    AsciiCharacterSet,
    DecScreenAlignmentDisplay,
}

/// The intermediate byte (if any) and the final byte of each ESC code.
pub open spec fn esc_code_bytes(code: EscCode) -> (Option<u8>, u8) {
    match code {
        EscCode::FullReset => (None, 0x63),  // c
        EscCode::Index => (None, 0x44),  // D
        EscCode::NextLine => (None, 0x45),  // E
        EscCode::CursorPositionLowerLeft => (None, 0x46),  // F
        EscCode::HorizontalTabSet => (None, 0x48),  // H
        EscCode::ReverseIndex => (None, 0x4d),  // M
        EscCode::SingleShiftG2 => (None, 0x4e),  // N
        EscCode::SingleShiftG3 => (None, 0x4f),  // O
        EscCode::StartOfGuardedArea => (None, 0x56),  // V
        EscCode::EndOfGuardedArea => (None, 0x57),  // W
        EscCode::StartOfString => (None, 0x58),  // X
        EscCode::ReturnTerminalId => (None, 0x5a),  // Z
        EscCode::StringTerminator => (None, 0x5c),  // backslash
        EscCode::PrivacyMessage => (None, 0x5e),  // ^
        EscCode::ApplicationProgramCommand => (None, 0x5f),  // _
        EscCode::DecSaveCursorPosition => (None, 0x37),  // 7
        EscCode::DecRestoreCursorPosition => (None, 0x38),  // 8
        EscCode::DecApplicationKeyPad => (None, 0x3d),  // =
        EscCode::DecNormalKeyPad => (None, 0x3e),  // >
        EscCode::DecLineDrawing => (Some(0x28), 0x30),  // ( 0
        EscCode::AsciiCharacterSet => (Some(0x28), 0x42),  // ( B
        EscCode::DecScreenAlignmentDisplay => (Some(0x23), 0x38),  // # 8
    }
}

/// An ESC sequence: a known code, or the bytes of one without a meaning here.
#[derive(Clone, Copy, Debug, PartialEq, Eq, Structural)]
pub enum Esc {
    Code(EscCode),
    Unspecified { intermediate: Option<u8>, control: u8 },
}

/// The known ESC code written with intermediate `intermediate` and final byte
/// `control`, if there is one.
pub open spec fn esc_code_of(intermediate: Option<u8>, control: u8) -> Option<EscCode> {
    match (intermediate, control) {
        (None, 0x63) => Some(EscCode::FullReset),
        (None, 0x44) => Some(EscCode::Index),
        (None, 0x45) => Some(EscCode::NextLine),
        (None, 0x46) => Some(EscCode::CursorPositionLowerLeft),
        (None, 0x48) => Some(EscCode::HorizontalTabSet),
        (None, 0x4d) => Some(EscCode::ReverseIndex),
        (None, 0x4e) => Some(EscCode::SingleShiftG2),
        (None, 0x4f) => Some(EscCode::SingleShiftG3),
        (None, 0x56) => Some(EscCode::StartOfGuardedArea),
        (None, 0x57) => Some(EscCode::EndOfGuardedArea),
        (None, 0x58) => Some(EscCode::StartOfString),
        (None, 0x5a) => Some(EscCode::ReturnTerminalId),
        (None, 0x5c) => Some(EscCode::StringTerminator),
        (None, 0x5e) => Some(EscCode::PrivacyMessage),
        (None, 0x5f) => Some(EscCode::ApplicationProgramCommand),
        (None, 0x37) => Some(EscCode::DecSaveCursorPosition),
        (None, 0x38) => Some(EscCode::DecRestoreCursorPosition),
        (None, 0x3d) => Some(EscCode::DecApplicationKeyPad),
        (None, 0x3e) => Some(EscCode::DecNormalKeyPad),
        (Some(0x28), 0x30) => Some(EscCode::DecLineDrawing),
        (Some(0x28), 0x42) => Some(EscCode::AsciiCharacterSet),
        (Some(0x23), 0x38) => Some(EscCode::DecScreenAlignmentDisplay),
        _ => None,
    }
}

/// The ESC sequence with intermediate `intermediate` and final byte `control`.
pub open spec fn esc_of(intermediate: Option<u8>, control: u8) -> Esc {
    match esc_code_of(intermediate, control) {
        Some(code) => Esc::Code(code),
        None => Esc::Unspecified { intermediate, control },
    }
}

/// The intermediate byte and final byte that `e` is written with.
pub open spec fn esc_bytes(e: Esc) -> (Option<u8>, u8) {
    match e {
        Esc::Code(code) => esc_code_bytes(code),
        Esc::Unspecified { intermediate, control } => (intermediate, control),
    }
}

/// Each known ESC code is what the bytes it is written with decode to.
pub proof fn lemma_esc_code_round_trip(code: EscCode)
    ensures
        esc_code_of(esc_code_bytes(code).0, esc_code_bytes(code).1) == Some(code),
        esc_of(esc_code_bytes(code).0, esc_code_bytes(code).1) == Esc::Code(code),
{
}

/// The intermediate byte (if any) and the final byte that `e` is written with.
pub fn esc_parts(e: &Esc) -> (r: (Option<u8>, u8))
    ensures
        r == esc_bytes(*e),
{
    match e {
        Esc::Unspecified { intermediate, control } => (*intermediate, *control),
        Esc::Code(code) => match code {
            EscCode::FullReset => (None, 0x63),
            EscCode::Index => (None, 0x44),
            EscCode::NextLine => (None, 0x45),
            EscCode::CursorPositionLowerLeft => (None, 0x46),
            EscCode::HorizontalTabSet => (None, 0x48),
            EscCode::ReverseIndex => (None, 0x4d),
            EscCode::SingleShiftG2 => (None, 0x4e),
            EscCode::SingleShiftG3 => (None, 0x4f),
            EscCode::StartOfGuardedArea => (None, 0x56),
            EscCode::EndOfGuardedArea => (None, 0x57),
            EscCode::StartOfString => (None, 0x58),
            EscCode::ReturnTerminalId => (None, 0x5a),
            EscCode::StringTerminator => (None, 0x5c),
            EscCode::PrivacyMessage => (None, 0x5e),
            EscCode::ApplicationProgramCommand => (None, 0x5f),
            EscCode::DecSaveCursorPosition => (None, 0x37),
            EscCode::DecRestoreCursorPosition => (None, 0x38),
            EscCode::DecApplicationKeyPad => (None, 0x3d),
            EscCode::DecNormalKeyPad => (None, 0x3e),
            EscCode::DecLineDrawing => (Some(0x28), 0x30),
            EscCode::AsciiCharacterSet => (Some(0x28), 0x42),
            EscCode::DecScreenAlignmentDisplay => (Some(0x23), 0x38),
        },
    }
}

impl Esc {
    /// Decodes an ESC sequence from its intermediate byte (if any) and its final byte.
    pub fn parse(intermediate: Option<u8>, control: u8) -> (r: Esc)
        ensures
            r == esc_of(intermediate, control),
    {
        let code: Option<EscCode> = match (intermediate, control) {
            (None, 0x63) => Some(EscCode::FullReset),
            (None, 0x44) => Some(EscCode::Index),
            (None, 0x45) => Some(EscCode::NextLine),
            (None, 0x46) => Some(EscCode::CursorPositionLowerLeft),
            (None, 0x48) => Some(EscCode::HorizontalTabSet),
            (None, 0x4d) => Some(EscCode::ReverseIndex),
            (None, 0x4e) => Some(EscCode::SingleShiftG2),
            (None, 0x4f) => Some(EscCode::SingleShiftG3),
            (None, 0x56) => Some(EscCode::StartOfGuardedArea),
            (None, 0x57) => Some(EscCode::EndOfGuardedArea),
            (None, 0x58) => Some(EscCode::StartOfString),
            (None, 0x5a) => Some(EscCode::ReturnTerminalId),
            (None, 0x5c) => Some(EscCode::StringTerminator),
            (None, 0x5e) => Some(EscCode::PrivacyMessage),
            (None, 0x5f) => Some(EscCode::ApplicationProgramCommand),
            (None, 0x37) => Some(EscCode::DecSaveCursorPosition),
            (None, 0x38) => Some(EscCode::DecRestoreCursorPosition),
            (None, 0x3d) => Some(EscCode::DecApplicationKeyPad),
            (None, 0x3e) => Some(EscCode::DecNormalKeyPad),
            (Some(0x28), 0x30) => Some(EscCode::DecLineDrawing),
            (Some(0x28), 0x42) => Some(EscCode::AsciiCharacterSet),
            (Some(0x23), 0x38) => Some(EscCode::DecScreenAlignmentDisplay),
            _ => None,
        };
        match code {
            Some(c) => Esc::Code(c),
            None => Esc::Unspecified { intermediate, control },
        }
    }
}

/// One part of a device control string, which is handed on as it streams in.
#[derive(Clone, Debug, PartialEq, Eq)]
pub enum DeviceControlMode {
    /// The header: its parameters and intermediate bytes.
    Enter { params: Vec<i64>, intermediates: Vec<u8>, ignored_extra_intermediates: bool },
    /// One byte of the payload.
    Data(u8),
    /// The string terminator.
    Exit,
}

/// What the parser recognizes in the byte stream.
#[derive(Clone, Debug, PartialEq, Eq)]
pub enum Action {
    /// A printable character.
    Print(char),
    /// A control code.
    Control(ControlCode),
    /// A part of a device control string.
    DeviceControl(DeviceControlMode),
    /// An Operating System Command.
    OperatingSystemCommand(OperatingSystemCommand),
    /// A control sequence.
    CSI(CSI),
    /// An ESC sequence.
    Esc(Esc),
}

/// The action for a control byte that the state machine executes; `None`
/// for a byte that is no control code, which is dropped.
pub fn control_action(byte: u8) -> (r: Option<Action>)
    ensures
        r.is_some() <==> is_control_byte(byte),
        match r {
            Some(Action::Control(code)) => code@ == byte,
            Some(_) => false,
            None => true,
        },
{
    match ControlCode::from_u8(byte) {
        Some(code) => Some(Action::Control(code)),
        None => None,
    }
}

/// The intermediate byte of an ESC sequence: the only one where there is
/// exactly one, else none.
pub open spec fn esc_intermediate(intermediates: Seq<u8>) -> Option<u8> {
    if intermediates.len() == 1 {
        Some(intermediates[0])
    } else {
        None
    }
}

/// The action for a dispatched ESC sequence.
pub fn esc_action(intermediates: &Vec<u8>, control: u8) -> (r: Action)
    ensures
        r == Action::Esc(esc_of(esc_intermediate(intermediates@), control)),
{
    let intermediate: Option<u8> = if intermediates.len() == 1 {
        Some(intermediates[0])
    } else {
        None
    };
    Action::Esc(Esc::parse(intermediate, control))
}

/// The actions for a dispatched control sequence, in order: one per SGR
/// command where it is an SGR sequence with a meaning, the cursor movement or
/// erase where it is one, else one that keeps its parts.
pub fn csi_actions(
    params: Vec<i64>,
    intermediates: Vec<u8>,
    ignored_extra_intermediates: bool,
    control: char,
) -> (r: Vec<Action>)
    ensures
        match csi_sgrs(params@, intermediates@, ignored_extra_intermediates, control) {
            Some(sgrs) => r@.len() == sgrs.len() && forall|i: int|
                0 <= i < sgrs.len() ==> #[trigger] r@[i] == Action::CSI(CSI::Sgr(sgrs[i])),
            None => match csi_command(params@, intermediates@, ignored_extra_intermediates, control) {
                Some(c) => r@ == seq![Action::CSI(c)],
                None => r@.len() == 1 && match r@[0] {
                    Action::CSI(c) => is_unspecified_of(
                        c,
                        params@,
                        intermediates@,
                        ignored_extra_intermediates,
                        control,
                    ),
                    _ => false,
                },
            },
        },
{
    let mut parsed = CSI::parse(params, intermediates, ignored_extra_intermediates, control);
    let ghost all = parsed@;
    let mut out: Vec<Action> = Vec::new();
    while parsed.len() > 0
        invariant
            out@.len() + parsed@.len() == all.len(),
            parsed@ == all.skip(out@.len() as int),
            forall|j: int| 0 <= j < out@.len() ==> #[trigger] out@[j] == Action::CSI(all[j]),
        decreases parsed.len(),
    {
        let c = parsed.remove(0);
        assert(parsed@ =~= all.skip(out@.len() as int + 1));
        out.push(Action::CSI(c));
    }
    proof {
        if csi_sgrs(params@, intermediates@, ignored_extra_intermediates, control).is_none() {
            if csi_command(params@, intermediates@, ignored_extra_intermediates, control).is_some() {
                assert(out@ =~= seq![Action::CSI(all[0])]);
            }
        }
    }
    out
}

/// The action for a dispatched Operating System Command.
pub fn osc_action(fields: Vec<Vec<u8>>) -> (r: Action)
    ensures
        match r {
            Action::OperatingSystemCommand(o) => osc_matches(o, fields.deep_view()),
            _ => false,
        },
{
    Action::OperatingSystemCommand(OperatingSystemCommand::parse(fields))
}

/// The action for the header of a device control string.
pub fn dcs_enter_action(
    params: Vec<i64>,
    intermediates: Vec<u8>,
    ignored_extra_intermediates: bool,
) -> (r: Action)
    ensures
        r == Action::DeviceControl(
            DeviceControlMode::Enter { params, intermediates, ignored_extra_intermediates },
        ),
{
    Action::DeviceControl(
        DeviceControlMode::Enter { params, intermediates, ignored_extra_intermediates },
    )
}

/// Tracks a scan for the first byte of a stream that yields any action: how
/// many bytes have been fed, and what the first yielding byte yielded.
pub struct FirstActions {
    pub consumed: usize,
    pub found: Option<Vec<Action>>,
}

impl FirstActions {
    /// A scan that has been fed nothing.
    pub fn new() -> (r: FirstActions)
        ensures
            r.consumed == 0,
            r.found.is_none(),
    {
        FirstActions { consumed: 0, found: None }
    }

    /// Records the actions that the next byte yielded; returns whether the
    /// scan is over, which is when they are not empty.
    pub fn record(&mut self, emitted: Vec<Action>) -> (done: bool)
        requires
            old(self).found.is_none(),
            old(self).consumed < usize::MAX,
        ensures
            final(self).consumed == old(self).consumed + 1,
            done == (emitted@.len() > 0),
            done ==> final(self).found == Some(emitted),
            !done ==> final(self).found.is_none(),
    {
        self.consumed = self.consumed + 1;
        if emitted.len() > 0 {
            self.found = Some(emitted);
            true
        } else {
            false
        }
    }

    /// All actions of the first yielding byte, with the number of bytes fed
    /// up to and including it; `None` where no byte yielded any.
    pub fn into_actions(self) -> (r: Option<(Vec<Action>, usize)>)
        ensures
            match self.found {
                Some(v) => r == Some((v, self.consumed)),
                None => r.is_none(),
            },
    {
        match self.found {
            Some(v) => Some((v, self.consumed)),
            None => None,
        }
    }

    /// The first action of the first yielding byte, with the number of bytes
    /// fed up to and including it; `None` where no byte yielded any.
    pub fn into_first(self) -> (r: Option<(Action, usize)>)
        ensures
            match self.found {
                Some(v) => if v@.len() > 0 {
                    r == Some((v@[0], self.consumed))
                } else {
                    r.is_none()
                },
                None => r.is_none(),
            },
    {
        match self.found {
            Some(mut v) => {
                if v.len() > 0 {
                    Some((v.swap_remove(0), self.consumed))
                } else {
                    None
                }
            },
            None => None,
        }
    }
}

} // verus!
