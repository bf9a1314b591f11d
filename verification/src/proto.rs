//! The lan-mouse datagram protocol: event types, capability bits, and the
//! byte encoding of every event.
use vstd::prelude::*;
use vstd::utf8::*;
use vstd::string::*;
use crate::wire::{
    be_u32, be_u64,
    lemma_u16_round_trip, lemma_u32_round_trip, lemma_u64_round_trip, lemma_i32_bits_round_trip,
    read_u16, read_u32, read_u64, u16_bytes, u32_bytes, u64_bytes, get_u16, get_u32, get_u64,
    copy_range, put_u16, put_u32, put_u64, put_bytes,
};
use crate::text::string_from_utf8;

verus! {

broadcast use {encode_utf8_valid_utf8, encode_utf8_decode_utf8};

/// Maximum size an encoded protocol datagram can take up.
pub const MAX_EVENT_SIZE: usize = 1200;

/// MIME type of plain UTF-8 text clipboard contents.
pub const CLIPBOARD_MIME_TEXT: &'static str = "text/plain;charset=utf-8";

/// The peer shares its clipboard.
pub const CAP_CLIPBOARD: u32 = 1;

/// The peer follows session locks.
pub const CAP_SYNC_LOCK: u32 = 2;

/// The peer runs on Linux.
pub const CAP_PLATFORM_LINUX: u32 = 0x1000_0000;

/// The peer runs on macOS.
pub const CAP_PLATFORM_MACOS: u32 = 0x2000_0000;

/// The peer runs on Windows.
pub const CAP_PLATFORM_WINDOWS: u32 = 0x4000_0000;

/// Bytes of a clipboard event before its MIME type: event type, transfer id,
/// chunk index, chunk count, MIME length and payload length.
pub const CLIPBOARD_HEADER_SIZE: usize = 13;

/// The operating system a peer runs on, as far as the capability bits tell.
#[derive(Clone, Copy, Debug, PartialEq, Eq, Structural, Hash)]
pub enum Platform {
    Linux,
    MacOs,
    Windows,
    Other,
}

impl Platform {
    pub open spec fn spec_capability(self) -> u32 {
        match self {
            Platform::Linux => CAP_PLATFORM_LINUX,
            Platform::MacOs => CAP_PLATFORM_MACOS,
            Platform::Windows => CAP_PLATFORM_WINDOWS,
            Platform::Other => 0,
        }
    }

    /// The capability bit that announces this platform (none for `Other`).
    pub fn capability(self) -> (r: u32)
        ensures
            r == self.spec_capability(),
    {
        match self {
            Platform::Linux => CAP_PLATFORM_LINUX,
            Platform::MacOs => CAP_PLATFORM_MACOS,
            Platform::Windows => CAP_PLATFORM_WINDOWS,
            Platform::Other => 0,
        }
    }
}

/// Largest clipboard payload that fits one datagram next to the given MIME
/// type: what is left of `MAX_EVENT_SIZE` after the header and the MIME
/// bytes, or 0 when nothing is left.
pub open spec fn spec_max_clipboard_payload_size(mime_len: nat) -> nat {
    if mime_len + CLIPBOARD_HEADER_SIZE <= MAX_EVENT_SIZE {
        (MAX_EVENT_SIZE - CLIPBOARD_HEADER_SIZE - mime_len) as nat
    } else {
        0
    }
}

/// Largest clipboard payload that fits one datagram next to `mime`.
pub fn max_clipboard_payload_size(mime: &str) -> (r: usize)
    ensures
        r == spec_max_clipboard_payload_size(mime.spec_bytes().len()),
{
    let room = MAX_EVENT_SIZE.saturating_sub(CLIPBOARD_HEADER_SIZE);
    room.saturating_sub(mime.as_bytes().len())
}

pub open spec fn spec_local_capabilities(platform: Platform, clipboard_sharing: bool, sync_lock: bool) -> u32 {
    platform.spec_capability() | (if clipboard_sharing { CAP_CLIPBOARD } else { 0 }) | (if sync_lock {
        CAP_SYNC_LOCK
    } else {
        0
    })
}

/// The capabilities this host announces: its platform bit, plus the
/// clipboard bit when clipboard sharing is on and the sync-lock bit when
/// session lock following is on.
pub fn local_capabilities(platform: Platform, clipboard_sharing: bool, sync_lock: bool) -> (r: u32)
    ensures
        r == spec_local_capabilities(platform, clipboard_sharing, sync_lock),
        (r & CAP_CLIPBOARD != 0) == clipboard_sharing,
        (r & CAP_SYNC_LOCK != 0) == sync_lock,
        r & CAP_PLATFORM_LINUX != 0 <==> platform == Platform::Linux,
        r & CAP_PLATFORM_MACOS != 0 <==> platform == Platform::MacOs,
        r & CAP_PLATFORM_WINDOWS != 0 <==> platform == Platform::Windows,
{
    let r = platform.capability() | (if clipboard_sharing {
        CAP_CLIPBOARD
    } else {
        0
    }) | (if sync_lock {
        CAP_SYNC_LOCK
    } else {
        0
    });
    proof {
        let p = platform.spec_capability();
        let c: u32 = if clipboard_sharing { 1 } else { 0 };
        let s: u32 = if sync_lock { 2 } else { 0 };
        assert(p == 0 || p == 0x1000_0000 || p == 0x2000_0000 || p == 0x4000_0000);
        assert(c == 0 || c == 1);
        assert(s == 0 || s == 2);
        assert((p == 0 || p == 0x1000_0000u32 || p == 0x2000_0000u32 || p == 0x4000_0000u32) && (c
            == 0 || c == 1) && (s == 0 || s == 2) ==> {
            &&& ((p | c | s) & 1 != 0) == (c == 1)
            &&& ((p | c | s) & 2 != 0) == (s == 2)
            &&& ((p | c | s) & 0x1000_0000u32 != 0) == (p == 0x1000_0000u32)
            &&& ((p | c | s) & 0x2000_0000u32 != 0) == (p == 0x2000_0000u32)
            &&& ((p | c | s) & 0x4000_0000u32 != 0) == (p == 0x4000_0000u32)
        }) by (bit_vector);
    }
    r
}

/// Whether the capability bits announce a Linux or a Windows peer.
pub fn capabilities_indicate_linux_or_windows(capabilities: u32) -> (r: bool)
    ensures
        r == (capabilities & (CAP_PLATFORM_LINUX | CAP_PLATFORM_WINDOWS) != 0),
        r == (capabilities & CAP_PLATFORM_LINUX != 0 || capabilities & CAP_PLATFORM_WINDOWS != 0),
{
    proof {
        assert((capabilities & (0x1000_0000u32 | 0x4000_0000u32) != 0) == (capabilities
            & 0x1000_0000u32 != 0 || capabilities & 0x4000_0000u32 != 0)) by (bit_vector);
    }
    capabilities & (CAP_PLATFORM_LINUX | CAP_PLATFORM_WINDOWS) != 0
}

/// Error for a datagram that violates the protocol.
#[derive(Clone, Copy, Debug, PartialEq, Eq, Structural)]
pub enum ProtocolError {
    /// The event type byte names no event type.
    InvalidEventId(u8),
    /// The position byte names no position.
    InvalidPosition(u8),
    /// The datagram ends before the event does.
    UnexpectedEof,
    /// A clipboard event with an impossible shape.
    InvalidClipboard,
}

/// Position of a client.
#[derive(Clone, Copy, Debug, PartialEq, Eq, Structural, Hash)]
pub enum Position {
    Left,
    Right,
    Top,
    Bottom,
}

impl Position {
    pub open spec fn spec_to_u8(self) -> u8 {
        match self {
            Position::Left => 0,
            Position::Right => 1,
            Position::Top => 2,
            Position::Bottom => 3,
        }
    }

    pub open spec fn spec_from_u8(b: u8) -> Option<Position> {
        if b == 0 {
            Some(Position::Left)
        } else if b == 1 {
            Some(Position::Right)
        } else if b == 2 {
            Some(Position::Top)
        } else if b == 3 {
            Some(Position::Bottom)
        } else {
            None
        }
    }

    /// The wire number of the position.
    pub fn to_u8(self) -> (r: u8)
        ensures
            r == self.spec_to_u8(),
    {
        match self {
            Position::Left => 0,
            Position::Right => 1,
            Position::Top => 2,
            Position::Bottom => 3,
        }
    }

    /// The position with the given wire number, if any.
    pub fn try_from_u8(b: u8) -> (r: Option<Position>)
        ensures
            r == Self::spec_from_u8(b),
    {
        if b == 0 {
            Some(Position::Left)
        } else if b == 1 {
            Some(Position::Right)
        } else if b == 2 {
            Some(Position::Top)
        } else if b == 3 {
            Some(Position::Bottom)
        } else {
            None
        }
    }

    /// The lower-case name of the position.
    pub open spec fn spec_name(self) -> Seq<char> {
        match self {
            Position::Left => "left"@,
            Position::Right => "right"@,
            Position::Top => "top"@,
            Position::Bottom => "bottom"@,
        }
    }

    /// The lower-case name of the position.
    pub fn name(&self) -> (r: &'static str)
        ensures
            r@ == self.spec_name(),
    {
        match self {
            Position::Left => "left",
            Position::Right => "right",
            Position::Top => "top",
            Position::Bottom => "bottom",
        }
    }
}

/// Numbering of position wire bytes: decoding gives back what was encoded.
pub proof fn lemma_position_byte_round_trip(p: Position)
    ensures
        Position::spec_from_u8(p.spec_to_u8()) == Some(p),
{
}

/// Type tag of a protocol event, the first byte of its datagram.
#[derive(Clone, Copy, Debug, PartialEq, Eq, Structural)]
pub enum EventType {
    PointerMotion,
    PointerButton,
    PointerAxis,
    PointerAxisValue120,
    KeyboardKey,
    KeyboardModifiers,
    Ping,
    Pong,
    Enter,
    Leave,
    Ack,
    Clipboard,
    Lock,
}

impl EventType {
    pub open spec fn spec_to_u8(self) -> u8 {
        match self {
            EventType::PointerMotion => 0,
            EventType::PointerButton => 1,
            EventType::PointerAxis => 2,
            EventType::PointerAxisValue120 => 3,
            EventType::KeyboardKey => 4,
            EventType::KeyboardModifiers => 5,
            EventType::Ping => 6,
            EventType::Pong => 7,
            EventType::Enter => 8,
            EventType::Leave => 9,
            EventType::Ack => 10,
            EventType::Clipboard => 11,
            EventType::Lock => 12,
        }
    }

    pub open spec fn spec_from_u8(b: u8) -> Option<EventType> {
        if b == 0 {
            Some(EventType::PointerMotion)
        } else if b == 1 {
            Some(EventType::PointerButton)
        } else if b == 2 {
            Some(EventType::PointerAxis)
        } else if b == 3 {
            Some(EventType::PointerAxisValue120)
        } else if b == 4 {
            Some(EventType::KeyboardKey)
        } else if b == 5 {
            Some(EventType::KeyboardModifiers)
        } else if b == 6 {
            Some(EventType::Ping)
        } else if b == 7 {
            Some(EventType::Pong)
        } else if b == 8 {
            Some(EventType::Enter)
        } else if b == 9 {
            Some(EventType::Leave)
        } else if b == 10 {
            Some(EventType::Ack)
        } else if b == 11 {
            Some(EventType::Clipboard)
        } else if b == 12 {
            Some(EventType::Lock)
        } else {
            None
        }
    }

    /// The wire number of the event type.
    pub fn to_u8(self) -> (r: u8)
        ensures
            r == self.spec_to_u8(),
    {
        match self {
            EventType::PointerMotion => 0,
            EventType::PointerButton => 1,
            EventType::PointerAxis => 2,
            EventType::PointerAxisValue120 => 3,
            EventType::KeyboardKey => 4,
            EventType::KeyboardModifiers => 5,
            EventType::Ping => 6,
            EventType::Pong => 7,
            EventType::Enter => 8,
            EventType::Leave => 9,
            EventType::Ack => 10,
            EventType::Clipboard => 11,
            EventType::Lock => 12,
        }
    }

    /// The event type with the given wire number, if any.
    pub fn try_from_u8(b: u8) -> (r: Option<EventType>)
        ensures
            r == Self::spec_from_u8(b),
    {
        if b == 0 {
            Some(EventType::PointerMotion)
        } else if b == 1 {
            Some(EventType::PointerButton)
        } else if b == 2 {
            Some(EventType::PointerAxis)
        } else if b == 3 {
            Some(EventType::PointerAxisValue120)
        } else if b == 4 {
            Some(EventType::KeyboardKey)
        } else if b == 5 {
            Some(EventType::KeyboardModifiers)
        } else if b == 6 {
            Some(EventType::Ping)
        } else if b == 7 {
            Some(EventType::Pong)
        } else if b == 8 {
            Some(EventType::Enter)
        } else if b == 9 {
            Some(EventType::Leave)
        } else if b == 10 {
            Some(EventType::Ack)
        } else if b == 11 {
            Some(EventType::Clipboard)
        } else if b == 12 {
            Some(EventType::Lock)
        } else {
            None
        }
    }
}

/// Pointer input. Floating-point quantities travel as the bit pattern of
/// an IEEE-754 `f64` (what `f64::to_bits` gives), which is also how the
/// protocol carries them.
#[derive(Clone, Copy, Debug, PartialEq, Eq, Structural)]
pub enum PointerEvent {
    Motion { time: u32, dx: u64, dy: u64 },
    Button { time: u32, button: u32, state: u32 },
    Axis { time: u32, axis: u8, value: u64 },
    AxisDiscrete120 { axis: u8, value: i32 },
}

/// Keyboard input.
#[derive(Clone, Copy, Debug, PartialEq, Eq, Structural)]
pub enum KeyboardEvent {
    Key { time: u32, key: u32, state: u8 },
    Modifiers { depressed: u32, latched: u32, locked: u32, group: u32 },
}

/// An input event forwarded to a peer.
#[derive(Clone, Copy, Debug, PartialEq, Eq, Structural)]
pub enum InputEvent {
    Pointer(PointerEvent),
    Keyboard(KeyboardEvent),
}

/// One chunk of shared clipboard data.
#[derive(Clone, Debug, Eq, PartialEq)]
pub struct ClipboardData {
    pub transfer_id: u32,
    pub chunk_index: u16,
    pub chunk_count: u16,
    pub mime: String,
    pub payload: Vec<u8>,
}

/// Mathematical value of a [`ClipboardData`].
pub struct ClipboardDataView {
    pub transfer_id: u32,
    pub chunk_index: u16,
    pub chunk_count: u16,
    pub mime: Seq<char>,
    pub payload: Seq<u8>,
}

impl View for ClipboardData {
    type V = ClipboardDataView;

    open spec fn view(&self) -> ClipboardDataView {
        ClipboardDataView {
            transfer_id: self.transfer_id,
            chunk_index: self.chunk_index,
            chunk_count: self.chunk_count,
            mime: self.mime@,
            payload: self.payload@,
        }
    }
}

/// Main lan-mouse protocol event.
#[derive(Clone, Debug)]
pub enum ProtoEvent {
    /// The cursor entered the client's region at the given position.
    Enter { pos: Position, capabilities: u32 },
    /// The cursor left the client's region.
    Leave(u32),
    /// Acknowledges an `Enter` or `Leave`.
    Ack { serial: u32, capabilities: u32 },
    /// Input event.
    Input(InputEvent),
    /// Liveness probe; the peer answers with `Pong`.
    Ping,
    /// Answer to `Ping`: whether emulation is available.
    Pong { alive: bool, capabilities: u32 },
    /// Clipboard or other shared data payload.
    Clipboard(ClipboardData),
    /// Request that the peer locks its local login session.
    Lock,
}

/// Mathematical value of a [`ProtoEvent`].
pub enum ProtoEventView {
    Enter { pos: Position, capabilities: u32 },
    Leave(u32),
    Ack { serial: u32, capabilities: u32 },
    Input(InputEvent),
    Ping,
    Pong { alive: bool, capabilities: u32 },
    Clipboard(ClipboardDataView),
    Lock,
}

impl View for ProtoEvent {
    type V = ProtoEventView;

    open spec fn view(&self) -> ProtoEventView {
        match self {
            ProtoEvent::Enter { pos, capabilities } => ProtoEventView::Enter {
                pos: *pos,
                capabilities: *capabilities,
            },
            ProtoEvent::Leave(s) => ProtoEventView::Leave(*s),
            ProtoEvent::Ack { serial, capabilities } => ProtoEventView::Ack {
                serial: *serial,
                capabilities: *capabilities,
            },
            ProtoEvent::Input(e) => ProtoEventView::Input(*e),
            ProtoEvent::Ping => ProtoEventView::Ping,
            ProtoEvent::Pong { alive, capabilities } => ProtoEventView::Pong {
                alive: *alive,
                capabilities: *capabilities,
            },
            ProtoEvent::Clipboard(d) => ProtoEventView::Clipboard(d@),
            ProtoEvent::Lock => ProtoEventView::Lock,
        }
    }
}

impl ProtoEventView {
    /// The event type an event is sent under.
    pub open spec fn event_type(self) -> EventType {
        match self {
            ProtoEventView::Input(e) => match e {
                InputEvent::Pointer(p) => match p {
                    PointerEvent::Motion { .. } => EventType::PointerMotion,
                    PointerEvent::Button { .. } => EventType::PointerButton,
                    PointerEvent::Axis { .. } => EventType::PointerAxis,
                    PointerEvent::AxisDiscrete120 { .. } => EventType::PointerAxisValue120,
                },
                InputEvent::Keyboard(k) => match k {
                    KeyboardEvent::Key { .. } => EventType::KeyboardKey,
                    KeyboardEvent::Modifiers { .. } => EventType::KeyboardModifiers,
                },
            },
            ProtoEventView::Ping => EventType::Ping,
            ProtoEventView::Pong { .. } => EventType::Pong,
            ProtoEventView::Enter { .. } => EventType::Enter,
            ProtoEventView::Leave(_) => EventType::Leave,
            ProtoEventView::Ack { .. } => EventType::Ack,
            ProtoEventView::Clipboard(_) => EventType::Clipboard,
            ProtoEventView::Lock => EventType::Lock,
        }
    }

    /// The capability bits an event carries (0 for events that carry none).
    pub open spec fn capabilities(self) -> u32 {
        match self {
            ProtoEventView::Enter { capabilities, .. } => capabilities,
            ProtoEventView::Ack { capabilities, .. } => capabilities,
            ProtoEventView::Pong { capabilities, .. } => capabilities,
            _ => 0,
        }
    }

    /// Events whose encoding can be read back: a clipboard chunk needs a
    /// nonzero chunk count, an index below it, and MIME and payload lengths
    /// that fit the 16-bit length fields.
    pub open spec fn well_formed(self) -> bool {
        match self {
            ProtoEventView::Clipboard(d) => {
                &&& d.chunk_count > 0
                &&& d.chunk_index < d.chunk_count
                &&& encode_utf8(d.mime).len() <= u16::MAX
                &&& d.payload.len() <= u16::MAX
            },
            _ => true,
        }
    }
}

/// The bytes after the type byte of an input event.
pub open spec fn encode_input_body(e: InputEvent) -> Seq<u8> {
    match e {
        InputEvent::Pointer(p) => match p {
            PointerEvent::Motion { time, dx, dy } => u32_bytes(time) + u64_bytes(dx) + u64_bytes(dy),
            PointerEvent::Button { time, button, state } => u32_bytes(time) + u32_bytes(button)
                + u32_bytes(state),
            PointerEvent::Axis { time, axis, value } => u32_bytes(time) + seq![axis] + u64_bytes(
                value,
            ),
            PointerEvent::AxisDiscrete120 { axis, value } => seq![axis] + u32_bytes(value as u32),
        },
        InputEvent::Keyboard(k) => match k {
            KeyboardEvent::Key { time, key, state } => u32_bytes(time) + u32_bytes(key) + seq![state],
            KeyboardEvent::Modifiers { depressed, latched, locked, group } => u32_bytes(depressed)
                + u32_bytes(latched) + u32_bytes(locked) + u32_bytes(group),
        },
    }
}

/// The bytes after the type byte of a clipboard event: transfer id, chunk
/// index, chunk count, MIME length, payload length (each big-endian), the
/// UTF-8 MIME bytes and the payload.
pub open spec fn encode_clipboard_body(d: ClipboardDataView) -> Seq<u8> {
    let mime = encode_utf8(d.mime);
    u32_bytes(d.transfer_id) + u16_bytes(d.chunk_index) + u16_bytes(d.chunk_count) + u16_bytes(
        mime.len() as u16,
    ) + u16_bytes(d.payload.len() as u16) + mime + d.payload
}

/// The bytes after the type byte of an event.
pub open spec fn encode_body(e: ProtoEventView) -> Seq<u8> {
    match e {
        ProtoEventView::Input(i) => encode_input_body(i),
        ProtoEventView::Ping => seq![],
        ProtoEventView::Pong { alive, capabilities } => seq![if alive { 1u8 } else { 0u8 }]
            + u32_bytes(capabilities),
        ProtoEventView::Enter { pos, capabilities } => seq![pos.spec_to_u8()] + u32_bytes(
            capabilities,
        ),
        ProtoEventView::Leave(serial) => u32_bytes(serial),
        ProtoEventView::Ack { serial, capabilities } => u32_bytes(serial) + u32_bytes(capabilities),
        ProtoEventView::Clipboard(d) => encode_clipboard_body(d),
        ProtoEventView::Lock => seq![],
    }
}

/// The datagram of an event: its type byte, then its body.
pub open spec fn spec_encode(e: ProtoEventView) -> Seq<u8> {
    seq![e.event_type().spec_to_u8()] + encode_body(e)
}

/// A capability field that older peers may leave out: absent (no bytes
/// left) reads as 0, a partial field is truncation.
pub open spec fn read_optional_u32(b: Seq<u8>, i: int) -> Result<u32, ProtocolError> {
    if b.len() == i {
        Ok(0)
    } else if b.len() < i + 4 {
        Err(ProtocolError::UnexpectedEof)
    } else {
        Ok(read_u32(b, i))
    }
}

/// Decoding of an input event whose type byte is `b[0]`.
pub open spec fn decode_input(t: EventType, b: Seq<u8>) -> Result<InputEvent, ProtocolError> {
    match t {
        EventType::PointerMotion => if b.len() < 21 {
            Err(ProtocolError::UnexpectedEof)
        } else {
            Ok(
                InputEvent::Pointer(
                    PointerEvent::Motion {
                        time: read_u32(b, 1),
                        dx: read_u64(b, 5),
                        dy: read_u64(b, 13),
                    },
                ),
            )
        },
        EventType::PointerButton => if b.len() < 13 {
            Err(ProtocolError::UnexpectedEof)
        } else {
            Ok(
                InputEvent::Pointer(
                    PointerEvent::Button {
                        time: read_u32(b, 1),
                        button: read_u32(b, 5),
                        state: read_u32(b, 9),
                    },
                ),
            )
        },
        EventType::PointerAxis => if b.len() < 14 {
            Err(ProtocolError::UnexpectedEof)
        } else {
            Ok(
                InputEvent::Pointer(
                    PointerEvent::Axis { time: read_u32(b, 1), axis: b[5], value: read_u64(b, 6) },
                ),
            )
        },
        EventType::PointerAxisValue120 => if b.len() < 6 {
            Err(ProtocolError::UnexpectedEof)
        } else {
            Ok(
                InputEvent::Pointer(
                    PointerEvent::AxisDiscrete120 { axis: b[1], value: read_u32(b, 2) as i32 },
                ),
            )
        },
        EventType::KeyboardKey => if b.len() < 10 {
            Err(ProtocolError::UnexpectedEof)
        } else {
            Ok(
                InputEvent::Keyboard(
                    KeyboardEvent::Key { time: read_u32(b, 1), key: read_u32(b, 5), state: b[9] },
                ),
            )
        },
        _ => if b.len() < 17 {
            Err(ProtocolError::UnexpectedEof)
        } else {
            Ok(
                InputEvent::Keyboard(
                    KeyboardEvent::Modifiers {
                        depressed: read_u32(b, 1),
                        latched: read_u32(b, 5),
                        locked: read_u32(b, 9),
                        group: read_u32(b, 13),
                    },
                ),
            )
        },
    }
}

/// Decoding of a clipboard event.
pub open spec fn decode_clipboard(b: Seq<u8>) -> Result<ProtoEventView, ProtocolError> {
    if b.len() < 13 {
        Err(ProtocolError::UnexpectedEof)
    } else {
        let chunk_index = read_u16(b, 5);
        let chunk_count = read_u16(b, 7);
        let mime_len = read_u16(b, 9) as int;
        let payload_len = read_u16(b, 11) as int;
        let avail = b.len() - 13;
        if chunk_count == 0 || chunk_index >= chunk_count || mime_len > avail || payload_len > avail
            - mime_len {
            Err(ProtocolError::InvalidClipboard)
        } else {
            let mime = b.subrange(13, 13 + mime_len);
            if !valid_utf8(mime) {
                Err(ProtocolError::InvalidClipboard)
            } else {
                Ok(
                    ProtoEventView::Clipboard(
                        ClipboardDataView {
                            transfer_id: read_u32(b, 1),
                            chunk_index,
                            chunk_count,
                            mime: decode_utf8(mime),
                            payload: b.subrange(13 + mime_len, 13 + mime_len + payload_len),
                        },
                    ),
                )
            }
        }
    }
}

/// Decoding of a datagram. Bytes after the event are ignored.
pub open spec fn spec_decode(b: Seq<u8>) -> Result<ProtoEventView, ProtocolError> {
    if b.len() < 1 {
        Err(ProtocolError::UnexpectedEof)
    } else {
        match EventType::spec_from_u8(b[0]) {
            None => Err(ProtocolError::InvalidEventId(b[0])),
            Some(t) => match t {
                EventType::Ping => Ok(ProtoEventView::Ping),
                EventType::Lock => Ok(ProtoEventView::Lock),
                EventType::Pong => if b.len() < 2 {
                    Err(ProtocolError::UnexpectedEof)
                } else {
                    match read_optional_u32(b, 2) {
                        Err(e) => Err(e),
                        Ok(c) => Ok(ProtoEventView::Pong { alive: b[1] != 0, capabilities: c }),
                    }
                },
                EventType::Enter => if b.len() < 2 {
                    Err(ProtocolError::UnexpectedEof)
                } else {
                    match Position::spec_from_u8(b[1]) {
                        None => Err(ProtocolError::InvalidPosition(b[1])),
                        Some(pos) => match read_optional_u32(b, 2) {
                            Err(e) => Err(e),
                            Ok(c) => Ok(ProtoEventView::Enter { pos, capabilities: c }),
                        },
                    }
                },
                EventType::Leave => if b.len() < 5 {
                    Err(ProtocolError::UnexpectedEof)
                } else {
                    Ok(ProtoEventView::Leave(read_u32(b, 1)))
                },
                EventType::Ack => if b.len() < 5 {
                    Err(ProtocolError::UnexpectedEof)
                } else {
                    match read_optional_u32(b, 5) {
                        Err(e) => Err(e),
                        Ok(c) => Ok(ProtoEventView::Ack { serial: read_u32(b, 1), capabilities: c }),
                    }
                },
                EventType::Clipboard => decode_clipboard(b),
                _ => match decode_input(t, b) {
                    Err(e) => Err(e),
                    Ok(i) => Ok(ProtoEventView::Input(i)),
                },
            },
        }
    }
}

/// View of a decoding result.
pub open spec fn decoded_view(r: Result<ProtoEvent, ProtocolError>) -> Result<
    ProtoEventView,
    ProtocolError,
> {
    match r {
        Ok(e) => Ok(e@),
        Err(x) => Err(x),
    }
}

fn decode_optional_u32(buf: &[u8], i: usize) -> (r: Result<u32, ProtocolError>)
    requires
        i <= buf@.len(),
    ensures
        r == read_optional_u32(buf@, i as int),
{
    let n = buf.len();
    if n == i {
        return Ok(0);
    }
    if n - i < 4 {
        return Err(ProtocolError::UnexpectedEof);
    }
    Ok(get_u32(buf, i))
}

fn decode_input_exec(t: EventType, buf: &[u8]) -> (r: Result<InputEvent, ProtocolError>)
    requires
        buf@.len() >= 1,
    ensures
        r == decode_input(t, buf@),
{
    let n = buf.len();
    match t {
        EventType::PointerMotion => {
            if n < 21 {
                return Err(ProtocolError::UnexpectedEof);
            }
            Ok(
                InputEvent::Pointer(
                    PointerEvent::Motion {
                        time: get_u32(buf, 1),
                        dx: get_u64(buf, 5),
                        dy: get_u64(buf, 13),
                    },
                ),
            )
        },
        EventType::PointerButton => {
            if n < 13 {
                return Err(ProtocolError::UnexpectedEof);
            }
            Ok(
                InputEvent::Pointer(
                    PointerEvent::Button {
                        time: get_u32(buf, 1),
                        button: get_u32(buf, 5),
                        state: get_u32(buf, 9),
                    },
                ),
            )
        },
        EventType::PointerAxis => {
            if n < 14 {
                return Err(ProtocolError::UnexpectedEof);
            }
            Ok(
                InputEvent::Pointer(
                    PointerEvent::Axis { time: get_u32(buf, 1), axis: buf[5], value: get_u64(buf, 6) },
                ),
            )
        },
        EventType::PointerAxisValue120 => {
            if n < 6 {
                return Err(ProtocolError::UnexpectedEof);
            }
            let bits = get_u32(buf, 2);
            Ok(
                InputEvent::Pointer(
                    PointerEvent::AxisDiscrete120 { axis: buf[1], value: bits as i32 },
                ),
            )
        },
        EventType::KeyboardKey => {
            if n < 10 {
                return Err(ProtocolError::UnexpectedEof);
            }
            Ok(
                InputEvent::Keyboard(
                    KeyboardEvent::Key { time: get_u32(buf, 1), key: get_u32(buf, 5), state: buf[9] },
                ),
            )
        },
        _ => {
            if n < 17 {
                return Err(ProtocolError::UnexpectedEof);
            }
            Ok(
                InputEvent::Keyboard(
                    KeyboardEvent::Modifiers {
                        depressed: get_u32(buf, 1),
                        latched: get_u32(buf, 5),
                        locked: get_u32(buf, 9),
                        group: get_u32(buf, 13),
                    },
                ),
            )
        },
    }
}

fn decode_clipboard_exec(buf: &[u8]) -> (r: Result<ProtoEvent, ProtocolError>)
    requires
        buf@.len() >= 1,
    ensures
        decoded_view(r) == decode_clipboard(buf@),
{
    let n = buf.len();
    if n < 13 {
        return Err(ProtocolError::UnexpectedEof);
    }
    let transfer_id = get_u32(buf, 1);
    let chunk_index = get_u16(buf, 5);
    let chunk_count = get_u16(buf, 7);
    let mime_len = get_u16(buf, 9) as usize;
    let payload_len = get_u16(buf, 11) as usize;
    let avail = n - 13;
    if chunk_count == 0 || chunk_index >= chunk_count || mime_len > avail || payload_len > avail
        - mime_len {
        return Err(ProtocolError::InvalidClipboard);
    }
    let mime_bytes = copy_range(buf, 13, 13 + mime_len);
    let payload = copy_range(buf, 13 + mime_len, 13 + mime_len + payload_len);
    let mime = match string_from_utf8(mime_bytes) {
        Ok(m) => m,
        Err(_) => {
            return Err(ProtocolError::InvalidClipboard);
        },
    };
    Ok(
        ProtoEvent::Clipboard(
            ClipboardData { transfer_id, chunk_index, chunk_count, mime, payload },
        ),
    )
}

impl ProtoEvent {
    /// The event type this event is sent under.
    pub fn event_type(&self) -> (r: EventType)
        ensures
            r == self@.event_type(),
    {
        match self {
            ProtoEvent::Input(e) => match e {
                InputEvent::Pointer(p) => match p {
                    PointerEvent::Motion { .. } => EventType::PointerMotion,
                    PointerEvent::Button { .. } => EventType::PointerButton,
                    PointerEvent::Axis { .. } => EventType::PointerAxis,
                    PointerEvent::AxisDiscrete120 { .. } => EventType::PointerAxisValue120,
                },
                InputEvent::Keyboard(k) => match k {
                    KeyboardEvent::Key { .. } => EventType::KeyboardKey,
                    KeyboardEvent::Modifiers { .. } => EventType::KeyboardModifiers,
                },
            },
            ProtoEvent::Ping => EventType::Ping,
            ProtoEvent::Pong { .. } => EventType::Pong,
            ProtoEvent::Enter { .. } => EventType::Enter,
            ProtoEvent::Leave(_) => EventType::Leave,
            ProtoEvent::Ack { .. } => EventType::Ack,
            ProtoEvent::Clipboard(_) => EventType::Clipboard,
            ProtoEvent::Lock => EventType::Lock,
        }
    }

    /// The capability bits the event carries: those of `Enter`, `Ack` and
    /// `Pong`, and 0 for every other event.
    pub fn capabilities(&self) -> (r: u32)
        ensures
            r == self@.capabilities(),
    {
        match self {
            ProtoEvent::Enter { capabilities, .. } => *capabilities,
            ProtoEvent::Ack { capabilities, .. } => *capabilities,
            ProtoEvent::Pong { capabilities, .. } => *capabilities,
            _ => 0,
        }
    }

    /// Decodes one datagram. Fails with `UnexpectedEof` where the datagram
    /// ends inside the event, `InvalidEventId`/`InvalidPosition` on an
    /// unknown type or position byte, and `InvalidClipboard` on a clipboard
    /// chunk with an impossible shape or a MIME type that is not UTF-8.
    pub fn decode(buf: &[u8]) -> (r: Result<ProtoEvent, ProtocolError>)
        ensures
            decoded_view(r) == spec_decode(buf@),
    {
        let n = buf.len();
        if n < 1 {
            return Err(ProtocolError::UnexpectedEof);
        }
        let tag = buf[0];
        let t = match EventType::try_from_u8(tag) {
            Some(t) => t,
            None => {
                return Err(ProtocolError::InvalidEventId(tag));
            },
        };
        match t {
            EventType::Ping => Ok(ProtoEvent::Ping),
            EventType::Lock => Ok(ProtoEvent::Lock),
            EventType::Pong => {
                if n < 2 {
                    return Err(ProtocolError::UnexpectedEof);
                }
                let alive = buf[1] != 0;
                match decode_optional_u32(buf, 2) {
                    Err(e) => Err(e),
                    Ok(capabilities) => Ok(ProtoEvent::Pong { alive, capabilities }),
                }
            },
            EventType::Enter => {
                if n < 2 {
                    return Err(ProtocolError::UnexpectedEof);
                }
                let pos = match Position::try_from_u8(buf[1]) {
                    Some(p) => p,
                    None => {
                        return Err(ProtocolError::InvalidPosition(buf[1]));
                    },
                };
                match decode_optional_u32(buf, 2) {
                    Err(e) => Err(e),
                    Ok(capabilities) => Ok(ProtoEvent::Enter { pos, capabilities }),
                }
            },
            EventType::Leave => {
                if n < 5 {
                    return Err(ProtocolError::UnexpectedEof);
                }
                Ok(ProtoEvent::Leave(get_u32(buf, 1)))
            },
            EventType::Ack => {
                if n < 5 {
                    return Err(ProtocolError::UnexpectedEof);
                }
                let serial = get_u32(buf, 1);
                match decode_optional_u32(buf, 5) {
                    Err(e) => Err(e),
                    Ok(capabilities) => Ok(ProtoEvent::Ack { serial, capabilities }),
                }
            },
            EventType::Clipboard => decode_clipboard_exec(buf),
            _ => match decode_input_exec(t, buf) {
                Err(e) => Err(e),
                Ok(i) => Ok(ProtoEvent::Input(i)),
            },
        }
    }
}


fn encode_input_exec(e: InputEvent, out: &mut Vec<u8>)
    ensures
        final(out)@ == old(out)@ + encode_input_body(e),
{
    let ghost start = out@;
    match e {
        InputEvent::Pointer(p) => match p {
            PointerEvent::Motion { time, dx, dy } => {
                put_u32(out, time);
                put_u64(out, dx);
                put_u64(out, dy);
            },
            PointerEvent::Button { time, button, state } => {
                put_u32(out, time);
                put_u32(out, button);
                put_u32(out, state);
            },
            PointerEvent::Axis { time, axis, value } => {
                put_u32(out, time);
                out.push(axis);
                put_u64(out, value);
            },
            PointerEvent::AxisDiscrete120 { axis, value } => {
                out.push(axis);
                put_u32(out, value as u32);
            },
        },
        InputEvent::Keyboard(k) => match k {
            KeyboardEvent::Key { time, key, state } => {
                put_u32(out, time);
                put_u32(out, key);
                out.push(state);
            },
            KeyboardEvent::Modifiers { depressed, latched, locked, group } => {
                put_u32(out, depressed);
                put_u32(out, latched);
                put_u32(out, locked);
                put_u32(out, group);
            },
        },
    }
    assert(out@ =~= start + encode_input_body(e));
}

impl ProtoEvent {
    /// Decodes a whole datagram buffer (trailing zero bytes are ignored).
    pub fn decode_datagram(buf: [u8; 1200]) -> (r: Result<ProtoEvent, ProtocolError>)
        ensures
            decoded_view(r) == spec_decode(buf@),
    {
        ProtoEvent::decode(buf.as_slice())
    }

    /// The datagram bytes of the event: its type byte, then its fields in
    /// big-endian order. MIME and payload lengths are written as 16-bit
    /// fields (truncated, as `as u16` does).
    pub fn encode_to_vec(&self) -> (r: Vec<u8>)
        ensures
            r@ == spec_encode(self@),
    {
        let mut out: Vec<u8> = Vec::new();
        out.push(self.event_type().to_u8());
        let ghost head = out@;
        match self {
            ProtoEvent::Input(e) => encode_input_exec(*e, &mut out),
            ProtoEvent::Ping => {},
            ProtoEvent::Pong { alive, capabilities } => {
                out.push(if *alive { 1u8 } else { 0u8 });
                put_u32(&mut out, *capabilities);
            },
            ProtoEvent::Enter { pos, capabilities } => {
                out.push(pos.to_u8());
                put_u32(&mut out, *capabilities);
            },
            ProtoEvent::Leave(serial) => put_u32(&mut out, *serial),
            ProtoEvent::Ack { serial, capabilities } => {
                put_u32(&mut out, *serial);
                put_u32(&mut out, *capabilities);
            },
            ProtoEvent::Clipboard(data) => {
                let mime = data.mime.as_str().as_bytes();
                put_u32(&mut out, data.transfer_id);
                put_u16(&mut out, data.chunk_index);
                put_u16(&mut out, data.chunk_count);
                put_u16(&mut out, mime.len() as u16);
                put_u16(&mut out, data.payload.len() as u16);
                put_bytes(&mut out, mime);
                put_bytes(&mut out, data.payload.as_slice());
            },
            ProtoEvent::Lock => {},
        }
        assert(out@ =~= head + encode_body(self@));
        out
    }

    /// Encodes the event into a zero-filled datagram buffer and returns the
    /// buffer with the number of bytes used. The event must fit the buffer.
    pub fn into_datagram(self) -> (r: ([u8; 1200], usize))
        requires
            spec_encode(self@).len() <= MAX_EVENT_SIZE,
        ensures
            r.1 == spec_encode(self@).len(),
            r.0@.subrange(0, r.1 as int) == spec_encode(self@),
            forall|i: int| r.1 <= i < MAX_EVENT_SIZE ==> r.0@[i] == 0u8,
    {
        let bytes = self.encode_to_vec();
        let mut buf = vstd::array::array_fill_for_copy_types::<u8, 1200>(0u8);
        let len = bytes.len();
        let mut i: usize = 0;
        while i < len
            invariant
                len == bytes@.len(),
                len <= MAX_EVENT_SIZE,
                i <= len,
                buf@.len() == MAX_EVENT_SIZE,
                forall|j: int| 0 <= j < i ==> buf@[j] == bytes@[j],
                forall|j: int| len <= j < MAX_EVENT_SIZE ==> buf@[j] == 0u8,
            decreases len - i,
        {
            buf.set(i, bytes[i]);
            i = i + 1;
        }
        assert(buf@.subrange(0, len as int) =~= bytes@);
        (buf, len)
    }
}


proof fn lemma_decode_encode_input(i: InputEvent, rest: Seq<u8>)
    ensures
        decode_input(
            ProtoEventView::Input(i).event_type(),
            spec_encode(ProtoEventView::Input(i)) + rest,
        ) == Ok::<InputEvent, ProtocolError>(i),
{
    let e = ProtoEventView::Input(i);
    let b = spec_encode(e) + rest;
    match i {
        InputEvent::Pointer(p) => match p {
            PointerEvent::Motion { time, dx, dy } => {
                lemma_u32_round_trip(time);
                lemma_u64_round_trip(dx);
                lemma_u64_round_trip(dy);
            },
            PointerEvent::Button { time, button, state } => {
                lemma_u32_round_trip(time);
                lemma_u32_round_trip(button);
                lemma_u32_round_trip(state);
            },
            PointerEvent::Axis { time, axis, value } => {
                lemma_u32_round_trip(time);
                lemma_u64_round_trip(value);
            },
            PointerEvent::AxisDiscrete120 { axis, value } => {
                lemma_u32_round_trip(value as u32);
                lemma_i32_bits_round_trip(value);
            },
        },
        InputEvent::Keyboard(k) => match k {
            KeyboardEvent::Key { time, key, state } => {
                lemma_u32_round_trip(time);
                lemma_u32_round_trip(key);
            },
            KeyboardEvent::Modifiers { depressed, latched, locked, group } => {
                lemma_u32_round_trip(depressed);
                lemma_u32_round_trip(latched);
                lemma_u32_round_trip(locked);
                lemma_u32_round_trip(group);
            },
        },
    }
}

proof fn lemma_decode_encode_clipboard(d: ClipboardDataView, rest: Seq<u8>)
    requires
        ProtoEventView::Clipboard(d).well_formed(),
    ensures
        decode_clipboard(spec_encode(ProtoEventView::Clipboard(d)) + rest)
            == Ok::<ProtoEventView, ProtocolError>(ProtoEventView::Clipboard(d)),
{
    let b = spec_encode(ProtoEventView::Clipboard(d)) + rest;
    let mime = encode_utf8(d.mime);
    let ml = mime.len() as int;
    let pl = d.payload.len() as int;
    lemma_u32_round_trip(d.transfer_id);
    lemma_u16_round_trip(d.chunk_index);
    lemma_u16_round_trip(d.chunk_count);
    lemma_u16_round_trip(mime.len() as u16);
    lemma_u16_round_trip(d.payload.len() as u16);
    assert(read_u16(b, 9) == ml);
    assert(read_u16(b, 11) == pl);
    assert(b.subrange(13, 13 + ml) =~= mime);
    assert(b.subrange(13 + ml, 13 + ml + pl) =~= d.payload);
}

/// Decoding the datagram of a well-formed event gives the event back,
/// whatever bytes follow it in the buffer.
pub proof fn lemma_decode_encode(e: ProtoEventView, rest: Seq<u8>)
    requires
        e.well_formed(),
    ensures
        spec_decode(spec_encode(e) + rest) == Ok::<ProtoEventView, ProtocolError>(e),
{
    let b = spec_encode(e) + rest;
    assert(b[0] == e.event_type().spec_to_u8());
    match e {
        ProtoEventView::Input(i) => {
            lemma_decode_encode_input(i, rest);
        },
        ProtoEventView::Pong { alive, capabilities } => {
            lemma_u32_round_trip(capabilities);
        },
        ProtoEventView::Enter { pos, capabilities } => {
            lemma_u32_round_trip(capabilities);
        },
        ProtoEventView::Leave(serial) => {
            lemma_u32_round_trip(serial);
        },
        ProtoEventView::Ack { serial, capabilities } => {
            lemma_u32_round_trip(serial);
            lemma_u32_round_trip(capabilities);
        },
        ProtoEventView::Clipboard(d) => {
            lemma_decode_encode_clipboard(d, rest);
        },
        _ => {},
    }
}

/// The capability bits of a well-formed event survive encoding and
/// decoding.
pub proof fn lemma_capabilities_survive_round_trip(e: ProtoEventView)
    requires
        e.well_formed(),
    ensures
        spec_decode(spec_encode(e)) is Ok,
        spec_decode(spec_encode(e))->Ok_0.capabilities() == e.capabilities(),
{
    lemma_decode_encode(e, seq![]);
    assert(spec_encode(e) + seq![] =~= spec_encode(e));
}


/// Datagram sizes: every event other than a clipboard chunk takes at most
/// 21 bytes, so it always fits a datagram; a clipboard chunk takes the
/// header, its MIME bytes and its payload.
pub proof fn lemma_encoded_size(e: ProtoEventView)
    ensures
        e is Clipboard ==> spec_encode(e).len() == CLIPBOARD_HEADER_SIZE + encode_utf8(
            e->Clipboard_0.mime,
        ).len() + e->Clipboard_0.payload.len(),
        !(e is Clipboard) ==> spec_encode(e).len() <= 21,
        !(e is Clipboard) ==> spec_encode(e).len() <= MAX_EVENT_SIZE,
{
}


/// Wire layout of pointer events: after the type byte come the fields in
/// declaration order, each big-endian. A button event is its type byte 1,
/// then time, button and state; a motion event is type 0, time, then the
/// bits of dx and dy; an axis event is type 2, time, the axis byte and the
/// bits of the value; a discrete axis event is type 3, the axis byte and
/// the value's two's-complement bits.
pub proof fn lemma_pointer_event_layout(time: u32, a: u32, b: u32, axis: u8, x: u64, y: u64, v: i32)
    ensures
        spec_encode(ProtoEventView::Input(InputEvent::Pointer(PointerEvent::Button {
            time,
            button: a,
            state: b,
        }))) == seq![1u8] + u32_bytes(time) + u32_bytes(a) + u32_bytes(b),
        spec_encode(ProtoEventView::Input(InputEvent::Pointer(PointerEvent::Motion {
            time,
            dx: x,
            dy: y,
        }))) == seq![0u8] + u32_bytes(time) + u64_bytes(x) + u64_bytes(y),
        spec_encode(ProtoEventView::Input(InputEvent::Pointer(PointerEvent::Axis {
            time,
            axis,
            value: x,
        }))) == seq![2u8] + u32_bytes(time) + seq![axis] + u64_bytes(x),
        spec_encode(ProtoEventView::Input(InputEvent::Pointer(PointerEvent::AxisDiscrete120 {
            axis,
            value: v,
        }))) == seq![3u8, axis] + u32_bytes(v as u32),
{
    assert(spec_encode(ProtoEventView::Input(InputEvent::Pointer(PointerEvent::Button {
        time,
        button: a,
        state: b,
    }))) =~= seq![1u8] + u32_bytes(time) + u32_bytes(a) + u32_bytes(b));
    assert(spec_encode(ProtoEventView::Input(InputEvent::Pointer(PointerEvent::Motion {
        time,
        dx: x,
        dy: y,
    }))) =~= seq![0u8] + u32_bytes(time) + u64_bytes(x) + u64_bytes(y));
    assert(spec_encode(ProtoEventView::Input(InputEvent::Pointer(PointerEvent::Axis {
        time,
        axis,
        value: x,
    }))) =~= seq![2u8] + u32_bytes(time) + seq![axis] + u64_bytes(x));
    assert(spec_encode(ProtoEventView::Input(InputEvent::Pointer(PointerEvent::AxisDiscrete120 {
        axis,
        value: v,
    }))) =~= seq![3u8, axis] + u32_bytes(v as u32));
}

/// Wire layout of keyboard events: a key event is type byte 4, then time
/// and key big-endian, then the state byte; a modifiers event is type byte
/// 5, then depressed, latched, locked and group, each big-endian.
pub proof fn lemma_keyboard_event_layout(time: u32, key: u32, state: u8, d: u32, l: u32, k: u32, g: u32)
    ensures
        spec_encode(ProtoEventView::Input(InputEvent::Keyboard(KeyboardEvent::Key {
            time,
            key,
            state,
        }))) == seq![4u8] + u32_bytes(time) + u32_bytes(key) + seq![state],
        spec_encode(ProtoEventView::Input(InputEvent::Keyboard(KeyboardEvent::Modifiers {
            depressed: d,
            latched: l,
            locked: k,
            group: g,
        }))) == seq![5u8] + u32_bytes(d) + u32_bytes(l) + u32_bytes(k) + u32_bytes(g),
{
    assert(spec_encode(ProtoEventView::Input(InputEvent::Keyboard(KeyboardEvent::Key {
        time,
        key,
        state,
    }))) =~= seq![4u8] + u32_bytes(time) + u32_bytes(key) + seq![state]);
    assert(spec_encode(ProtoEventView::Input(InputEvent::Keyboard(KeyboardEvent::Modifiers {
        depressed: d,
        latched: l,
        locked: k,
        group: g,
    }))) =~= seq![5u8] + u32_bytes(d) + u32_bytes(l) + u32_bytes(k) + u32_bytes(g));
}

/// Where the decoder reads each field of a pointer or keyboard event: the
/// big-endian field at the byte offset that the layout above gives it
/// (button at 5..9 and state at 9..13 of a button event, and so on).
pub proof fn lemma_input_decode_layout(b: Seq<u8>)
    ensures
        b.len() >= 13 && b[0] == 1 ==> spec_decode(b) == Ok::<ProtoEventView, ProtocolError>(
            ProtoEventView::Input(InputEvent::Pointer(PointerEvent::Button {
                time: be_u32(b[1], b[2], b[3], b[4]),
                button: be_u32(b[5], b[6], b[7], b[8]),
                state: be_u32(b[9], b[10], b[11], b[12]),
            })),
        ),
        b.len() >= 21 && b[0] == 0 ==> spec_decode(b) == Ok::<ProtoEventView, ProtocolError>(
            ProtoEventView::Input(InputEvent::Pointer(PointerEvent::Motion {
                time: be_u32(b[1], b[2], b[3], b[4]),
                dx: be_u64(b[5], b[6], b[7], b[8], b[9], b[10], b[11], b[12]),
                dy: be_u64(b[13], b[14], b[15], b[16], b[17], b[18], b[19], b[20]),
            })),
        ),
        b.len() >= 14 && b[0] == 2 ==> spec_decode(b) == Ok::<ProtoEventView, ProtocolError>(
            ProtoEventView::Input(InputEvent::Pointer(PointerEvent::Axis {
                time: be_u32(b[1], b[2], b[3], b[4]),
                axis: b[5],
                value: be_u64(b[6], b[7], b[8], b[9], b[10], b[11], b[12], b[13]),
            })),
        ),
        b.len() >= 6 && b[0] == 3 ==> spec_decode(b) == Ok::<ProtoEventView, ProtocolError>(
            ProtoEventView::Input(InputEvent::Pointer(PointerEvent::AxisDiscrete120 {
                axis: b[1],
                value: be_u32(b[2], b[3], b[4], b[5]) as i32,
            })),
        ),
        b.len() >= 10 && b[0] == 4 ==> spec_decode(b) == Ok::<ProtoEventView, ProtocolError>(
            ProtoEventView::Input(InputEvent::Keyboard(KeyboardEvent::Key {
                time: be_u32(b[1], b[2], b[3], b[4]),
                key: be_u32(b[5], b[6], b[7], b[8]),
                state: b[9],
            })),
        ),
        b.len() >= 17 && b[0] == 5 ==> spec_decode(b) == Ok::<ProtoEventView, ProtocolError>(
            ProtoEventView::Input(InputEvent::Keyboard(KeyboardEvent::Modifiers {
                depressed: be_u32(b[1], b[2], b[3], b[4]),
                latched: be_u32(b[5], b[6], b[7], b[8]),
                locked: be_u32(b[9], b[10], b[11], b[12]),
                group: be_u32(b[13], b[14], b[15], b[16]),
            })),
        ),
{
}

} // verus!
