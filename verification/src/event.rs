//! The events of the protocol and their encoding.
use vstd::prelude::*;
use vstd::utf8::{decode_utf8, valid_utf8};

use crate::chunk::{ChunkView, ClipboardChunk, CLIPBOARD_CHUNK_SIZE};
use crate::input_event::{Event as InputEvent, KeyboardEvent, PointerEvent};
use crate::text::{append_decimal, decimal, string_from_utf8};
use crate::wire::{
    be_bytes, decode_f64_bits, decode_i32, decode_u16, decode_u32, decode_u8, encode_bytes,
    encode_f64_bits, encode_i32, encode_u16, encode_u32, encode_u8, field, i32_bits, i32_of_bits,
};

verus! {

broadcast use {crate::wire::lemma_field_skip, crate::wire::lemma_skip_skip};

/// defines the maximum size an encoded event can take up
/// this is currently the clipboard chunk event
/// type: u8, transfer: u32, index: u32, last: u8, len: u16, data: [u8; CLIPBOARD_CHUNK_SIZE]
pub const MAX_EVENT_SIZE: usize = 1 + 2 * 4 + 1 + 2 + CLIPBOARD_CHUNK_SIZE;

/// error type for protocol violations
#[derive(Debug)]
pub enum ProtocolError {
    /// event type does not exist
    InvalidEventId(u8),
    /// position type does not exist
    InvalidPosition(u8),
    /// clipboard chunk declares more data than the datagram contains
    InvalidClipboardLength,
}

/// Position of a client
#[derive(Clone, Copy, Debug)]
pub enum Position {
    Left,
    Right,
    Top,
    Bottom,
}

/// the kind of an event, the first byte of its encoding
pub enum EventType {
    PointerMotion,
    PointerButton,
    PointerAxis,
    PointerAxisValue120,
    KeyboardKey,
    KeyboardModifiers,
    Ping,
    Pong,
    Enter,
    Leave,
    Ack,
    Hello,
    Clipboard,
}

/// How a position is shown.
pub open spec fn position_text(position: Position) -> Seq<char> {
    match position {
        Position::Left => "left"@,
        Position::Right => "right"@,
        Position::Top => "top"@,
        Position::Bottom => "bottom"@,
    }
}

impl Position {
    /// the name of the position
    pub fn to_text(&self) -> (text: String)
        ensures
            text@ == position_text(*self),
    {
        let pos: &str = match self {
            Position::Left => "left",
            Position::Right => "right",
            Position::Top => "top",
            Position::Bottom => "bottom",
        };
        pos.to_owned()
    }
}

/// How a protocol violation is shown.
pub open spec fn protocol_error_text(error: ProtocolError) -> Seq<char> {
    match error {
        ProtocolError::InvalidEventId(code) =>
            "invalid event id: `No discriminant in enum `EventType` matches the value `"@ + decimal(
            code as nat,
        ) + "``"@,
        ProtocolError::InvalidPosition(code) =>
            "invalid event id: `No discriminant in enum `Position` matches the value `"@ + decimal(
            code as nat,
        ) + "``"@,
        ProtocolError::InvalidClipboardLength => "clipboard chunk length exceeds datagram size"@,
    }
}

impl ProtocolError {
    /// the message for the error
    pub fn to_text(&self) -> (text: String)
        ensures
            text@ == protocol_error_text(*self),
    {
        let mut text: String = String::new();
        match self {
            ProtocolError::InvalidEventId(code) => {
                text.append(
                    "invalid event id: `No discriminant in enum `EventType` matches the value `",
                );
                append_decimal(&mut text, *code as u64);
                text.append("``");
            },
            ProtocolError::InvalidPosition(code) => {
                text.append(
                    "invalid event id: `No discriminant in enum `Position` matches the value `",
                );
                append_decimal(&mut text, *code as u64);
                text.append("``");
            },
            ProtocolError::InvalidClipboardLength => {
                text.append("clipboard chunk length exceeds datagram size");
            },
        }
        proof {
            assert(text@ =~= protocol_error_text(*self));
        }
        text
    }
}

/// The byte that stands for a position.
pub open spec fn position_code(position: Position) -> u8 {
    match position {
        Position::Left => 0,
        Position::Right => 1,
        Position::Top => 2,
        Position::Bottom => 3,
    }
}

/// The position that a byte stands for.
pub open spec fn position_of(code: u8) -> Option<Position> {
    match code {
        0 => Some(Position::Left),
        1 => Some(Position::Right),
        2 => Some(Position::Top),
        3 => Some(Position::Bottom),
        _ => None,
    }
}

/// The byte that stands for an event type.
pub open spec fn event_type_code(event_type: EventType) -> u8 {
    match event_type {
        EventType::PointerMotion => 0,
        EventType::PointerButton => 1,
        EventType::PointerAxis => 2,
        EventType::PointerAxisValue120 => 3,
        EventType::KeyboardKey => 4,
        EventType::KeyboardModifiers => 5,
        EventType::Ping => 6,
        EventType::Pong => 7,
        EventType::Enter => 8,
        EventType::Leave => 9,
        EventType::Ack => 10,
        EventType::Hello => 11,
        EventType::Clipboard => 12,
    }
}

/// The event type that a byte stands for.
pub open spec fn event_type_of(code: u8) -> Option<EventType> {
    match code {
        0 => Some(EventType::PointerMotion),
        1 => Some(EventType::PointerButton),
        2 => Some(EventType::PointerAxis),
        3 => Some(EventType::PointerAxisValue120),
        4 => Some(EventType::KeyboardKey),
        5 => Some(EventType::KeyboardModifiers),
        6 => Some(EventType::Ping),
        7 => Some(EventType::Pong),
        8 => Some(EventType::Enter),
        9 => Some(EventType::Leave),
        10 => Some(EventType::Ack),
        11 => Some(EventType::Hello),
        12 => Some(EventType::Clipboard),
        _ => None,
    }
}

impl vstd::std_specs::convert::FromSpecImpl<Position> for u8 {
    open spec fn obeys_from_spec() -> bool {
        true
    }

    open spec fn from_spec(position: Position) -> u8 {
        position_code(position)
    }
}

impl From<Position> for u8 {
    fn from(position: Position) -> (code: u8) {
        match position {
            Position::Left => 0,
            Position::Right => 1,
            Position::Top => 2,
            Position::Bottom => 3,
        }
    }
}

impl vstd::std_specs::convert::TryFromSpecImpl<u8> for Position {
    open spec fn obeys_try_from_spec() -> bool {
        true
    }

    open spec fn try_from_spec(code: u8) -> Result<Position, ProtocolError> {
        match position_of(code) {
            Some(position) => Ok(position),
            None => Err(ProtocolError::InvalidPosition(code)),
        }
    }
}

impl TryFrom<u8> for Position {
    type Error = ProtocolError;

    fn try_from(code: u8) -> (position: Result<Position, ProtocolError>) {
        match code {
            0 => Ok(Position::Left),
            1 => Ok(Position::Right),
            2 => Ok(Position::Top),
            3 => Ok(Position::Bottom),
            _ => Err(ProtocolError::InvalidPosition(code)),
        }
    }
}

impl vstd::std_specs::convert::FromSpecImpl<EventType> for u8 {
    open spec fn obeys_from_spec() -> bool {
        true
    }

    open spec fn from_spec(event_type: EventType) -> u8 {
        event_type_code(event_type)
    }
}

impl From<EventType> for u8 {
    fn from(event_type: EventType) -> (code: u8) {
        match event_type {
            EventType::PointerMotion => 0,
            EventType::PointerButton => 1,
            EventType::PointerAxis => 2,
            EventType::PointerAxisValue120 => 3,
            EventType::KeyboardKey => 4,
            EventType::KeyboardModifiers => 5,
            EventType::Ping => 6,
            EventType::Pong => 7,
            EventType::Enter => 8,
            EventType::Leave => 9,
            EventType::Ack => 10,
            EventType::Hello => 11,
            EventType::Clipboard => 12,
        }
    }
}

impl vstd::std_specs::convert::TryFromSpecImpl<u8> for EventType {
    open spec fn obeys_try_from_spec() -> bool {
        true
    }

    open spec fn try_from_spec(code: u8) -> Result<EventType, ProtocolError> {
        match event_type_of(code) {
            Some(event_type) => Ok(event_type),
            None => Err(ProtocolError::InvalidEventId(code)),
        }
    }
}

impl TryFrom<u8> for EventType {
    type Error = ProtocolError;

    fn try_from(code: u8) -> (event_type: Result<EventType, ProtocolError>) {
        match code {
            0 => Ok(EventType::PointerMotion),
            1 => Ok(EventType::PointerButton),
            2 => Ok(EventType::PointerAxis),
            3 => Ok(EventType::PointerAxisValue120),
            4 => Ok(EventType::KeyboardKey),
            5 => Ok(EventType::KeyboardModifiers),
            6 => Ok(EventType::Ping),
            7 => Ok(EventType::Pong),
            8 => Ok(EventType::Enter),
            9 => Ok(EventType::Leave),
            10 => Ok(EventType::Ack),
            11 => Ok(EventType::Hello),
            12 => Ok(EventType::Clipboard),
            _ => Err(ProtocolError::InvalidEventId(code)),
        }
    }
}

/// main lan-mouse protocol event type
#[derive(Clone, Debug)]
pub enum ProtoEvent {
    /// notify a client that the cursor entered its region at the given position
    /// [`ProtoEvent::Ack`] with the same serial is used for synchronization between devices
    Enter(Position),
    /// notify a client that the cursor left its region
    /// [`ProtoEvent::Ack`] with the same serial is used for synchronization between devices
    Leave(u32),
    /// acknowledge of an [`ProtoEvent::Enter`] or [`ProtoEvent::Leave`] event
    Ack(u32),
    /// Input event
    Input(InputEvent),
    /// Ping event for tracking unresponsive clients.
    /// A client has to respond with [`ProtoEvent::Pong`].
    Ping,
    /// Response to [`ProtoEvent::Ping`], true if emulation is enabled / available
    Pong(bool),
    /// Build identification for the sending peer. Sent by the
    /// connect side once after the connection authenticates, and
    /// echoed back by the listen side in reply, so each end can
    /// display the peer's build hash and warn (soft) on mismatch.
    /// `commit` is the 8-byte ASCII short commit hash of the build.
    /// Old peers that don't recognize the event type silently skip it.
    Hello { commit: [u8; 8] },
    /// a chunk of clipboard text, see [`ClipboardChunk`] and
    /// [`clipboard_chunks`](crate::clipboard_chunks).
    /// Sent by a peer that wants to share its clipboard contents. The
    /// receiving side reassembles chunks with
    /// [`ClipboardAssembly`](crate::ClipboardAssembly).
    Clipboard(ClipboardChunk),
}

/// What a [`ProtoEvent`] says.
pub enum EventView {
    Enter(Position),
    Leave(u32),
    Ack(u32),
    Input(InputEvent),
    Ping,
    Pong(bool),
    Hello { commit: Seq<u8> },
    Clipboard(ChunkView),
}

impl View for ProtoEvent {
    type V = EventView;

    open spec fn view(&self) -> EventView {
        match *self {
            ProtoEvent::Enter(position) => EventView::Enter(position),
            ProtoEvent::Leave(serial) => EventView::Leave(serial),
            ProtoEvent::Ack(serial) => EventView::Ack(serial),
            ProtoEvent::Input(event) => EventView::Input(event),
            ProtoEvent::Ping => EventView::Ping,
            ProtoEvent::Pong(alive) => EventView::Pong(alive),
            ProtoEvent::Hello { commit } => EventView::Hello { commit: commit@ },
            ProtoEvent::Clipboard(chunk) => EventView::Clipboard(chunk@),
        }
    }
}

impl EventView {
    /// The kind of the event.
    pub open spec fn event_type(self) -> EventType {
        match self {
            EventView::Input(InputEvent::Pointer(PointerEvent::Motion { .. })) =>
                EventType::PointerMotion,
            EventView::Input(InputEvent::Pointer(PointerEvent::Button { .. })) =>
                EventType::PointerButton,
            EventView::Input(InputEvent::Pointer(PointerEvent::Axis { .. })) =>
                EventType::PointerAxis,
            EventView::Input(InputEvent::Pointer(PointerEvent::AxisDiscrete120 { .. })) =>
                EventType::PointerAxisValue120,
            EventView::Input(InputEvent::Keyboard(KeyboardEvent::Key { .. })) =>
                EventType::KeyboardKey,
            EventView::Input(InputEvent::Keyboard(KeyboardEvent::Modifiers { .. })) =>
                EventType::KeyboardModifiers,
            EventView::Ping => EventType::Ping,
            EventView::Pong(_) => EventType::Pong,
            EventView::Enter(_) => EventType::Enter,
            EventView::Leave(_) => EventType::Leave,
            EventView::Ack(_) => EventType::Ack,
            EventView::Hello { .. } => EventType::Hello,
            EventView::Clipboard(_) => EventType::Clipboard,
        }
    }

    /// True when the event fits a datagram: the payload of a clipboard chunk is bounded, and a
    /// build hash has eight bytes.
    pub open spec fn fits(self) -> bool {
        match self {
            EventView::Clipboard(chunk) => chunk.data.len() <= CLIPBOARD_CHUNK_SIZE,
            EventView::Hello { commit } => commit.len() == 8,
            _ => true,
        }
    }

    /// The bytes that follow the type byte in the encoding of the event.
    pub open spec fn payload(self) -> Seq<u8> {
        match self {
            EventView::Input(InputEvent::Pointer(PointerEvent::Motion { time, dx, dy })) =>
                be_bytes(time as nat, 4) + be_bytes(dx as nat, 8) + be_bytes(dy as nat, 8),
            EventView::Input(InputEvent::Pointer(PointerEvent::Button { time, button, state })) =>
                be_bytes(time as nat, 4) + be_bytes(button as nat, 4) + be_bytes(state as nat, 4),
            EventView::Input(InputEvent::Pointer(PointerEvent::Axis { time, axis, value })) =>
                be_bytes(time as nat, 4).push(axis) + be_bytes(value as nat, 8),
            EventView::Input(InputEvent::Pointer(PointerEvent::AxisDiscrete120 { axis, value })) =>
                seq![axis] + be_bytes(i32_bits(value), 4),
            EventView::Input(InputEvent::Keyboard(KeyboardEvent::Key { time, key, state })) =>
                (be_bytes(time as nat, 4) + be_bytes(key as nat, 4)).push(state),
            EventView::Input(InputEvent::Keyboard(KeyboardEvent::Modifiers {
                depressed,
                latched,
                locked,
                group,
            })) => be_bytes(depressed as nat, 4) + be_bytes(latched as nat, 4) + be_bytes(
                locked as nat,
                4,
            ) + be_bytes(group as nat, 4),
            EventView::Ping => seq![],
            EventView::Pong(alive) => seq![flag_code(alive)],
            EventView::Enter(position) => seq![position_code(position)],
            EventView::Leave(serial) => be_bytes(serial as nat, 4),
            EventView::Ack(serial) => be_bytes(serial as nat, 4),
            EventView::Hello { commit } => commit,
            EventView::Clipboard(chunk) => (be_bytes(chunk.transfer as nat, 4) + be_bytes(
                chunk.index as nat,
                4,
            )).push(flag_code(chunk.last)) + be_bytes(chunk.data.len(), 2) + chunk.data,
        }
    }

    /// The encoding of the event: a byte for its type, then its payload.
    pub open spec fn encoding(self) -> Seq<u8> {
        seq![event_type_code(self.event_type())] + self.payload()
    }
}

/// How an event is shown; an input event is shown as `input`.
pub open spec fn event_text(event: EventView, input: Seq<char>) -> Seq<char> {
    match event {
        EventView::Enter(position) => "Enter("@ + position_text(position) + ")"@,
        EventView::Leave(serial) => "Leave("@ + decimal(serial as nat) + ")"@,
        EventView::Ack(serial) => "Ack("@ + decimal(serial as nat) + ")"@,
        EventView::Input(_) => input,
        EventView::Ping => "ping"@,
        EventView::Pong(alive) => "pong: "@ + if alive {
            "alive"@
        } else {
            "not available"@
        },
        EventView::Hello { commit } => "Hello("@ + if valid_utf8(commit) {
            decode_utf8(commit)
        } else {
            "????????"@
        } + ")"@,
        EventView::Clipboard(chunk) => "Clipboard(transfer: "@ + decimal(chunk.transfer as nat)
            + ", chunk: "@ + decimal(chunk.index as nat) + ", "@ + decimal(chunk.data.len())
            + " bytes"@ + if chunk.last {
            ", last"@
        } else {
            ""@
        } + ")"@,
    }
}

/// The byte that stands for a flag.
pub open spec fn flag_code(flag: bool) -> u8 {
    if flag {
        1
    } else {
        0
    }
}

/// The event that a datagram encodes, or what is wrong with it.
///
/// Only the bytes of the fields that belong to the event count; what follows them is ignored.
pub open spec fn decode_event(buf: Seq<u8>) -> Result<EventView, ProtocolError> {
    match event_type_of(buf[0]) {
        None => Err(ProtocolError::InvalidEventId(buf[0])),
        Some(EventType::PointerMotion) => Ok(
            EventView::Input(
                InputEvent::Pointer(
                    PointerEvent::Motion {
                        time: field(buf, 1, 4) as u32,
                        dx: field(buf, 5, 8) as u64,
                        dy: field(buf, 13, 8) as u64,
                    },
                ),
            ),
        ),
        Some(EventType::PointerButton) => Ok(
            EventView::Input(
                InputEvent::Pointer(
                    PointerEvent::Button {
                        time: field(buf, 1, 4) as u32,
                        button: field(buf, 5, 4) as u32,
                        state: field(buf, 9, 4) as u32,
                    },
                ),
            ),
        ),
        Some(EventType::PointerAxis) => Ok(
            EventView::Input(
                InputEvent::Pointer(
                    PointerEvent::Axis {
                        time: field(buf, 1, 4) as u32,
                        axis: buf[5],
                        value: field(buf, 6, 8) as u64,
                    },
                ),
            ),
        ),
        Some(EventType::PointerAxisValue120) => Ok(
            EventView::Input(
                InputEvent::Pointer(
                    PointerEvent::AxisDiscrete120 {
                        axis: buf[1],
                        value: i32_of_bits(field(buf, 2, 4)),
                    },
                ),
            ),
        ),
        Some(EventType::KeyboardKey) => Ok(
            EventView::Input(
                InputEvent::Keyboard(
                    KeyboardEvent::Key {
                        time: field(buf, 1, 4) as u32,
                        key: field(buf, 5, 4) as u32,
                        state: buf[9],
                    },
                ),
            ),
        ),
        Some(EventType::KeyboardModifiers) => Ok(
            EventView::Input(
                InputEvent::Keyboard(
                    KeyboardEvent::Modifiers {
                        depressed: field(buf, 1, 4) as u32,
                        latched: field(buf, 5, 4) as u32,
                        locked: field(buf, 9, 4) as u32,
                        group: field(buf, 13, 4) as u32,
                    },
                ),
            ),
        ),
        Some(EventType::Ping) => Ok(EventView::Ping),
        Some(EventType::Pong) => Ok(EventView::Pong(buf[1] != 0)),
        Some(EventType::Enter) => match position_of(buf[1]) {
            Some(position) => Ok(EventView::Enter(position)),
            None => Err(ProtocolError::InvalidPosition(buf[1])),
        },
        Some(EventType::Leave) => Ok(EventView::Leave(field(buf, 1, 4) as u32)),
        Some(EventType::Ack) => Ok(EventView::Ack(field(buf, 1, 4) as u32)),
        Some(EventType::Hello) => Ok(EventView::Hello { commit: buf.subrange(1, 9) }),
        Some(EventType::Clipboard) => {
            let len = field(buf, 10, 2);
            if len > buf.len() - 12 {
                Err(ProtocolError::InvalidClipboardLength)
            } else {
                Ok(
                    EventView::Clipboard(
                        ChunkView {
                            transfer: field(buf, 1, 4) as u32,
                            index: field(buf, 5, 4) as u32,
                            last: buf[9] != 0,
                            data: buf.subrange(12, 12 + len as int),
                        },
                    ),
                )
            }
        },
    }
}

/// What a decoding attempt says of the datagram.
pub open spec fn decoded_view(result: Result<ProtoEvent, ProtocolError>) -> Result<
    EventView,
    ProtocolError,
> {
    match result {
        Ok(event) => Ok(event@),
        Err(error) => Err(error),
    }
}

impl ProtoEvent {
    /// the type byte of the event
    pub fn event_type(&self) -> (event_type: EventType)
        ensures
            event_type == self@.event_type(),
    {
        match self {
            ProtoEvent::Input(e) => match e {
                InputEvent::Pointer(p) => match p {
                    PointerEvent::Motion { .. } => EventType::PointerMotion,
                    PointerEvent::Button { .. } => EventType::PointerButton,
                    PointerEvent::Axis { .. } => EventType::PointerAxis,
                    PointerEvent::AxisDiscrete120 { .. } => EventType::PointerAxisValue120,
                },
                InputEvent::Keyboard(k) => match k {
                    KeyboardEvent::Key { .. } => EventType::KeyboardKey,
                    KeyboardEvent::Modifiers { .. } => EventType::KeyboardModifiers,
                },
            },
            ProtoEvent::Ping => EventType::Ping,
            ProtoEvent::Pong(_) => EventType::Pong,
            ProtoEvent::Enter(_) => EventType::Enter,
            ProtoEvent::Leave(_) => EventType::Leave,
            ProtoEvent::Ack(_) => EventType::Ack,
            ProtoEvent::Hello { .. } => EventType::Hello,
            ProtoEvent::Clipboard(_) => EventType::Clipboard,
        }
    }

    /// describes the event for a log, `input` is the description of an input event
    pub fn to_text(&self, input: &str) -> (text: String)
        ensures
            text@ == event_text(self@, input@),
    {
        let mut text: String = String::new();
        match self {
            ProtoEvent::Enter(position) => {
                text.append("Enter(");
                text.append(position.to_text().as_str());
                text.append(")");
            },
            ProtoEvent::Leave(serial) => {
                text.append("Leave(");
                append_decimal(&mut text, *serial as u64);
                text.append(")");
            },
            ProtoEvent::Ack(serial) => {
                text.append("Ack(");
                append_decimal(&mut text, *serial as u64);
                text.append(")");
            },
            ProtoEvent::Input(_) => text.append(input),
            ProtoEvent::Ping => text.append("ping"),
            ProtoEvent::Pong(alive) => {
                text.append("pong: ");
                text.append(if *alive { "alive" } else { "not available" });
            },
            ProtoEvent::Hello { commit } => {
                text.append("Hello(");
                let mut hash: Vec<u8> = Vec::new();
                hash.extend_from_slice(commit.as_slice());
                proof {
                    assert(hash@ =~= commit@);
                }
                match string_from_utf8(hash) {
                    Some(hash) => text.append(hash.as_str()),
                    None => text.append("????????"),
                }
                text.append(")");
            },
            ProtoEvent::Clipboard(chunk) => {
                text.append("Clipboard(transfer: ");
                append_decimal(&mut text, chunk.transfer as u64);
                text.append(", chunk: ");
                append_decimal(&mut text, chunk.index as u64);
                text.append(", ");
                append_decimal(&mut text, chunk.data.len() as u64);
                text.append(" bytes");
                text.append(if chunk.last { ", last" } else { "" });
                text.append(")");
            },
        }
        proof {
            assert(text@ =~= event_text(self@, input@));
        }
        text
    }

    /// encodes the event into a zero-filled datagram, returns it with the number of bytes in use
    pub fn encode(self) -> (datagram: ([u8; MAX_EVENT_SIZE], usize))
        requires
            self@.fits(),
        ensures
            datagram.1 == self@.encoding().len(),
            datagram.0@ == self@.encoding() + Seq::new(
                (MAX_EVENT_SIZE - datagram.1) as nat,
                |i: int| 0u8,
            ),
    {
        let ghost event = self@;
        let mut buf: [u8; MAX_EVENT_SIZE] = [0u8; MAX_EVENT_SIZE];
        let mut len: usize = 0;
        encode_u8(&mut buf, &mut len, u8::from(self.event_type()));
        proof {
            assert(buf@.take(1) =~= seq![event_type_code(event.event_type())]);
        }
        match self {
            ProtoEvent::Input(event) => match event {
                InputEvent::Pointer(p) => match p {
                    PointerEvent::Motion { time, dx, dy } => {
                        encode_u32(&mut buf, &mut len, time);
                        encode_f64_bits(&mut buf, &mut len, dx);
                        encode_f64_bits(&mut buf, &mut len, dy);
                    },
                    PointerEvent::Button { time, button, state } => {
                        encode_u32(&mut buf, &mut len, time);
                        encode_u32(&mut buf, &mut len, button);
                        encode_u32(&mut buf, &mut len, state);
                    },
                    PointerEvent::Axis { time, axis, value } => {
                        encode_u32(&mut buf, &mut len, time);
                        encode_u8(&mut buf, &mut len, axis);
                        encode_f64_bits(&mut buf, &mut len, value);
                    },
                    PointerEvent::AxisDiscrete120 { axis, value } => {
                        encode_u8(&mut buf, &mut len, axis);
                        encode_i32(&mut buf, &mut len, value);
                    },
                },
                InputEvent::Keyboard(k) => match k {
                    KeyboardEvent::Key { time, key, state } => {
                        encode_u32(&mut buf, &mut len, time);
                        encode_u32(&mut buf, &mut len, key);
                        encode_u8(&mut buf, &mut len, state);
                    },
                    KeyboardEvent::Modifiers { depressed, latched, locked, group } => {
                        encode_u32(&mut buf, &mut len, depressed);
                        encode_u32(&mut buf, &mut len, latched);
                        encode_u32(&mut buf, &mut len, locked);
                        encode_u32(&mut buf, &mut len, group);
                    },
                },
            },
            ProtoEvent::Ping => {},
            ProtoEvent::Pong(alive) => encode_u8(&mut buf, &mut len, flag_byte(alive)),
            ProtoEvent::Enter(pos) => encode_u8(&mut buf, &mut len, u8::from(pos)),
            ProtoEvent::Leave(serial) => encode_u32(&mut buf, &mut len, serial),
            ProtoEvent::Ack(serial) => encode_u32(&mut buf, &mut len, serial),
            ProtoEvent::Hello { commit } => encode_bytes(&mut buf, &mut len, commit.as_slice()),
            ProtoEvent::Clipboard(chunk) => {
                encode_u32(&mut buf, &mut len, chunk.transfer);
                encode_u32(&mut buf, &mut len, chunk.index);
                encode_u8(&mut buf, &mut len, flag_byte(chunk.last));
                encode_u16(&mut buf, &mut len, chunk.data.len() as u16);
                encode_bytes(&mut buf, &mut len, chunk.data.as_slice());
            },
        }
        proof {
            assert(buf@.take(len as int) =~= event.encoding());
            assert(buf@ =~= buf@.take(len as int) + buf@.skip(len as int));
            assert(buf@.skip(len as int) =~= Seq::new((MAX_EVENT_SIZE - len) as nat, |i: int| 0u8));
        }
        (buf, len)
    }
}

/// The byte that stands for a flag.
fn flag_byte(flag: bool) -> (code: u8)
    ensures
        code == flag_code(flag),
{
    if flag {
        1
    } else {
        0
    }
}

impl vstd::std_specs::convert::TryFromSpecImpl<[u8; MAX_EVENT_SIZE]> for ProtoEvent {
    open spec fn obeys_try_from_spec() -> bool {
        false
    }

    open spec fn try_from_spec(buf: [u8; MAX_EVENT_SIZE]) -> Result<ProtoEvent, ProtocolError> {
        arbitrary()
    }
}

impl TryFrom<[u8; MAX_EVENT_SIZE]> for ProtoEvent {
    type Error = ProtocolError;

    fn try_from(buf: [u8; MAX_EVENT_SIZE]) -> (event: Result<ProtoEvent, ProtocolError>)
        ensures
            decoded_view(event) == decode_event(buf@),
    {
        let ghost datagram = buf@;
        let mut buf: &[u8] = buf.as_slice();
        proof {
            assert(datagram.skip(0) =~= datagram);
        }
        let event_type = decode_u8(&mut buf);
        match EventType::try_from(event_type) {
            Err(error) => Err(error),
            Ok(EventType::PointerMotion) => {
                let time = decode_u32(&mut buf);
                let dx = decode_f64_bits(&mut buf);
                let dy = decode_f64_bits(&mut buf);
                Ok(ProtoEvent::Input(InputEvent::Pointer(PointerEvent::Motion { time, dx, dy })))
            },
            Ok(EventType::PointerButton) => {
                let time = decode_u32(&mut buf);
                let button = decode_u32(&mut buf);
                let state = decode_u32(&mut buf);
                Ok(
                    ProtoEvent::Input(
                        InputEvent::Pointer(PointerEvent::Button { time, button, state }),
                    ),
                )
            },
            Ok(EventType::PointerAxis) => {
                let time = decode_u32(&mut buf);
                let axis = decode_u8(&mut buf);
                let value = decode_f64_bits(&mut buf);
                Ok(ProtoEvent::Input(InputEvent::Pointer(PointerEvent::Axis { time, axis, value })))
            },
            Ok(EventType::PointerAxisValue120) => {
                let axis = decode_u8(&mut buf);
                let value = decode_i32(&mut buf);
                Ok(
                    ProtoEvent::Input(
                        InputEvent::Pointer(PointerEvent::AxisDiscrete120 { axis, value }),
                    ),
                )
            },
            Ok(EventType::KeyboardKey) => {
                let time = decode_u32(&mut buf);
                let key = decode_u32(&mut buf);
                let state = decode_u8(&mut buf);
                Ok(ProtoEvent::Input(InputEvent::Keyboard(KeyboardEvent::Key { time, key, state })))
            },
            Ok(EventType::KeyboardModifiers) => {
                let depressed = decode_u32(&mut buf);
                let latched = decode_u32(&mut buf);
                let locked = decode_u32(&mut buf);
                let group = decode_u32(&mut buf);
                Ok(
                    ProtoEvent::Input(
                        InputEvent::Keyboard(
                            KeyboardEvent::Modifiers { depressed, latched, locked, group },
                        ),
                    ),
                )
            },
            Ok(EventType::Ping) => Ok(ProtoEvent::Ping),
            Ok(EventType::Pong) => Ok(ProtoEvent::Pong(decode_u8(&mut buf) != 0)),
            Ok(EventType::Enter) => match Position::try_from(decode_u8(&mut buf)) {
                Ok(position) => Ok(ProtoEvent::Enter(position)),
                Err(error) => Err(error),
            },
            Ok(EventType::Leave) => Ok(ProtoEvent::Leave(decode_u32(&mut buf))),
            Ok(EventType::Ack) => Ok(ProtoEvent::Ack(decode_u32(&mut buf))),
            Ok(EventType::Hello) => {
                let mut commit: [u8; 8] = [0u8; 8];
                let mut i: usize = 0;
                while i < 8
                    invariant
                        i <= 8,
                        datagram.len() == MAX_EVENT_SIZE,
                        buf@ == datagram.skip(1 + i),
                        forall|j: int| 0 <= j < i ==> commit@[j] == datagram[1 + j],
                    decreases 8 - i,
                {
                    commit[i] = decode_u8(&mut buf);
                    i += 1;
                }
                proof {
                    assert(commit@ =~= datagram.subrange(1, 9));
                }
                Ok(ProtoEvent::Hello { commit })
            },
            Ok(EventType::Clipboard) => {
                let transfer = decode_u32(&mut buf);
                let index = decode_u32(&mut buf);
                let last = decode_u8(&mut buf) != 0;
                let len = decode_u16(&mut buf) as usize;
                if len > buf.len() {
                    return Err(ProtocolError::InvalidClipboardLength);
                }
                let mut data: Vec<u8> = Vec::with_capacity(len);
                let (fragment, _) = buf.split_at(len);
                data.extend_from_slice(fragment);
                proof {
                    assert(data@ =~= datagram.subrange(12, 12 + len));
                }
                Ok(ProtoEvent::Clipboard(ClipboardChunk { transfer, index, last, data }))
            },
        }
    }
}

} // verus!
