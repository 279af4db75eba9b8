//! Where everything stands in a datagram, byte by byte.
//!
//! A field that spans several bytes is the number that [`field`] reads, most significant byte
//! first; [`law_field_bytes`](crate::wire::law_field_bytes) says what that is of the bytes.
use vstd::prelude::*;
use vstd::std_specs::convert::{FromSpec, TryFromSpec};

use crate::chunk::ClipboardChunk;
use crate::event::{
    decode_event, decoded_view, event_text, event_type_code, event_type_of, position_code,
    position_of, position_text, protocol_error_text, EventType, Position, ProtoEvent,
    ProtocolError,
};
use crate::event_laws::lemma_field_widths;
use crate::input_event::{Event as InputEvent, KeyboardEvent, PointerEvent};
use crate::text::decimal;
use crate::wire::{
    be_bytes, field, i32_bits, law_field_bytes, lemma_be_limits, lemma_bytes_of_field,
    lemma_field_of_bytes, lemma_i32_bits,
};

verus! {

/// A chunk is seen as what its fields hold.
pub proof fn law_chunk_view(chunk: ClipboardChunk)
    ensures
        chunk@.transfer == chunk.transfer,
        chunk@.index == chunk.index,
        chunk@.last == chunk.last,
        chunk@.data == chunk.data@,
{
}

/// Every event but a clipboard chunk of more than 1024 bytes can be encoded.
pub proof fn law_what_fits(event: ProtoEvent)
    ensures
        event@.fits() <==> (event matches ProtoEvent::Clipboard(chunk) ==> chunk.data@.len()
            <= 1024),
{
}

/// The layout of the datagram of each event, whatever it is filled up with: how many bytes are in
/// use, the byte for the type, and the place of every value.
pub proof fn law_datagram_layout(event: ProtoEvent, rest: Seq<u8>)
    requires
        event matches ProtoEvent::Clipboard(chunk) ==> chunk.data@.len() <= 1024,
    ensures
        ({
            let n = event@.encoding().len();
            let datagram = event@.encoding() + rest;
            match event {
                ProtoEvent::Input(InputEvent::Pointer(PointerEvent::Motion { time, dx, dy })) => {
                    &&& n == 21
                    &&& datagram[0] == 0
                    &&& field(datagram, 1, 4) == time
                    &&& field(datagram, 5, 8) == dx
                    &&& field(datagram, 13, 8) == dy
                },
                ProtoEvent::Input(InputEvent::Pointer(PointerEvent::Button {
                    time,
                    button,
                    state,
                })) => {
                    &&& n == 13
                    &&& datagram[0] == 1
                    &&& field(datagram, 1, 4) == time
                    &&& field(datagram, 5, 4) == button
                    &&& field(datagram, 9, 4) == state
                },
                ProtoEvent::Input(InputEvent::Pointer(PointerEvent::Axis {
                    time,
                    axis,
                    value,
                })) => {
                    &&& n == 14
                    &&& datagram[0] == 2
                    &&& field(datagram, 1, 4) == time
                    &&& datagram[5] == axis
                    &&& field(datagram, 6, 8) == value
                },
                ProtoEvent::Input(InputEvent::Pointer(PointerEvent::AxisDiscrete120 {
                    axis,
                    value,
                })) => {
                    &&& n == 6
                    &&& datagram[0] == 3
                    &&& datagram[1] == axis
                    &&& value >= 0 ==> field(datagram, 2, 4) == value
                    &&& value < 0 ==> field(datagram, 2, 4) == value + 0x1_0000_0000
                },
                ProtoEvent::Input(InputEvent::Keyboard(KeyboardEvent::Key {
                    time,
                    key,
                    state,
                })) => {
                    &&& n == 10
                    &&& datagram[0] == 4
                    &&& field(datagram, 1, 4) == time
                    &&& field(datagram, 5, 4) == key
                    &&& datagram[9] == state
                },
                ProtoEvent::Input(InputEvent::Keyboard(KeyboardEvent::Modifiers {
                    depressed,
                    latched,
                    locked,
                    group,
                })) => {
                    &&& n == 17
                    &&& datagram[0] == 5
                    &&& field(datagram, 1, 4) == depressed
                    &&& field(datagram, 5, 4) == latched
                    &&& field(datagram, 9, 4) == locked
                    &&& field(datagram, 13, 4) == group
                },
                ProtoEvent::Ping => n == 1 && datagram[0] == 6,
                ProtoEvent::Pong(alive) => {
                    &&& n == 2
                    &&& datagram[0] == 7
                    &&& alive ==> datagram[1] == 1
                    &&& !alive ==> datagram[1] == 0
                },
                ProtoEvent::Enter(position) => {
                    &&& n == 2
                    &&& datagram[0] == 8
                    &&& position is Left ==> datagram[1] == 0
                    &&& position is Right ==> datagram[1] == 1
                    &&& position is Top ==> datagram[1] == 2
                    &&& position is Bottom ==> datagram[1] == 3
                },
                ProtoEvent::Leave(serial) => {
                    &&& n == 5
                    &&& datagram[0] == 9
                    &&& field(datagram, 1, 4) == serial
                },
                ProtoEvent::Ack(serial) => {
                    &&& n == 5
                    &&& datagram[0] == 10
                    &&& field(datagram, 1, 4) == serial
                },
                ProtoEvent::Hello { commit } => {
                    &&& n == 9
                    &&& datagram[0] == 11
                    &&& forall|i: int| 0 <= i < 8 ==> datagram[1 + i] == #[trigger] commit@[i]
                },
                ProtoEvent::Clipboard(chunk) => {
                    &&& n == 12 + chunk.data@.len()
                    &&& datagram[0] == 12
                    &&& field(datagram, 1, 4) == chunk.transfer
                    &&& field(datagram, 5, 4) == chunk.index
                    &&& chunk.last ==> datagram[9] == 1
                    &&& !chunk.last ==> datagram[9] == 0
                    &&& field(datagram, 10, 2) == chunk.data@.len()
                    &&& forall|i: int|
                        0 <= i < chunk.data@.len() ==> datagram[12 + i] == #[trigger] chunk.data@[i]
                },
            }
        }),
{
    lemma_field_widths();
    lemma_be_limits();
    let buf = event@.encoding() + rest;
    match event {
        ProtoEvent::Input(InputEvent::Pointer(PointerEvent::Motion { time, dx, dy })) => {
            assert(buf.subrange(1, 5) =~= be_bytes(time as nat, 4));
            assert(buf.subrange(5, 13) =~= be_bytes(dx as nat, 8));
            assert(buf.subrange(13, 21) =~= be_bytes(dy as nat, 8));
            lemma_field_of_bytes(buf, 1, time as nat, 4);
            lemma_field_of_bytes(buf, 5, dx as nat, 8);
            lemma_field_of_bytes(buf, 13, dy as nat, 8);
        },
        ProtoEvent::Input(InputEvent::Pointer(PointerEvent::Button { time, button, state })) => {
            assert(buf.subrange(1, 5) =~= be_bytes(time as nat, 4));
            assert(buf.subrange(5, 9) =~= be_bytes(button as nat, 4));
            assert(buf.subrange(9, 13) =~= be_bytes(state as nat, 4));
            lemma_field_of_bytes(buf, 1, time as nat, 4);
            lemma_field_of_bytes(buf, 5, button as nat, 4);
            lemma_field_of_bytes(buf, 9, state as nat, 4);
        },
        ProtoEvent::Input(InputEvent::Pointer(PointerEvent::Axis { time, value, .. })) => {
            assert(buf.subrange(1, 5) =~= be_bytes(time as nat, 4));
            assert(buf.subrange(6, 14) =~= be_bytes(value as nat, 8));
            lemma_field_of_bytes(buf, 1, time as nat, 4);
            lemma_field_of_bytes(buf, 6, value as nat, 8);
        },
        ProtoEvent::Input(InputEvent::Pointer(PointerEvent::AxisDiscrete120 { value, .. })) => {
            lemma_i32_bits(value);
            assert(buf.subrange(2, 6) =~= be_bytes(i32_bits(value), 4));
            lemma_field_of_bytes(buf, 2, i32_bits(value), 4);
        },
        ProtoEvent::Input(InputEvent::Keyboard(KeyboardEvent::Key { time, key, .. })) => {
            assert(buf.subrange(1, 5) =~= be_bytes(time as nat, 4));
            assert(buf.subrange(5, 9) =~= be_bytes(key as nat, 4));
            lemma_field_of_bytes(buf, 1, time as nat, 4);
            lemma_field_of_bytes(buf, 5, key as nat, 4);
        },
        ProtoEvent::Input(InputEvent::Keyboard(KeyboardEvent::Modifiers {
            depressed,
            latched,
            locked,
            group,
        })) => {
            assert(buf.subrange(1, 5) =~= be_bytes(depressed as nat, 4));
            assert(buf.subrange(5, 9) =~= be_bytes(latched as nat, 4));
            assert(buf.subrange(9, 13) =~= be_bytes(locked as nat, 4));
            assert(buf.subrange(13, 17) =~= be_bytes(group as nat, 4));
            lemma_field_of_bytes(buf, 1, depressed as nat, 4);
            lemma_field_of_bytes(buf, 5, latched as nat, 4);
            lemma_field_of_bytes(buf, 9, locked as nat, 4);
            lemma_field_of_bytes(buf, 13, group as nat, 4);
        },
        ProtoEvent::Leave(serial) => {
            assert(buf.subrange(1, 5) =~= be_bytes(serial as nat, 4));
            lemma_field_of_bytes(buf, 1, serial as nat, 4);
        },
        ProtoEvent::Ack(serial) => {
            assert(buf.subrange(1, 5) =~= be_bytes(serial as nat, 4));
            lemma_field_of_bytes(buf, 1, serial as nat, 4);
        },
        ProtoEvent::Clipboard(chunk) => {
            assert(buf.subrange(1, 5) =~= be_bytes(chunk.transfer as nat, 4));
            assert(buf.subrange(5, 9) =~= be_bytes(chunk.index as nat, 4));
            assert(buf.subrange(10, 12) =~= be_bytes(chunk.data@.len(), 2));
            lemma_field_of_bytes(buf, 1, chunk.transfer as nat, 4);
            lemma_field_of_bytes(buf, 5, chunk.index as nat, 4);
            lemma_field_of_bytes(buf, 10, chunk.data@.len(), 2);
        },
        _ => {},
    }
}

/// What a datagram decodes to, by its first byte and the places of the values: `result` is what
/// decoding it returned.
pub proof fn law_decoded_values(buf: Seq<u8>, result: Result<ProtoEvent, ProtocolError>)
    requires
        buf.len() == 1036,
        decoded_view(result) == decode_event(buf),
    ensures
        buf[0] == 0 ==> (result matches Ok(
            ProtoEvent::Input(InputEvent::Pointer(PointerEvent::Motion { time, dx, dy })),
        ) && time == field(buf, 1, 4) && dx == field(buf, 5, 8) && dy == field(buf, 13, 8)),
        buf[0] == 1 ==> (result matches Ok(
            ProtoEvent::Input(InputEvent::Pointer(PointerEvent::Button { time, button, state })),
        ) && time == field(buf, 1, 4) && button == field(buf, 5, 4) && state == field(buf, 9, 4)),
        buf[0] == 2 ==> (result matches Ok(
            ProtoEvent::Input(InputEvent::Pointer(PointerEvent::Axis { time, axis, value })),
        ) && time == field(buf, 1, 4) && axis == buf[5] && value == field(buf, 6, 8)),
        buf[0] == 3 ==> (result matches Ok(
            ProtoEvent::Input(InputEvent::Pointer(PointerEvent::AxisDiscrete120 { axis, value })),
        ) && axis == buf[1] && value == field(buf, 2, 4) - if buf[2] >= 0x80 {
            0x1_0000_0000int
        } else {
            0
        }),
        buf[0] == 4 ==> (result matches Ok(
            ProtoEvent::Input(InputEvent::Keyboard(KeyboardEvent::Key { time, key, state })),
        ) && time == field(buf, 1, 4) && key == field(buf, 5, 4) && state == buf[9]),
        buf[0] == 5 ==> (result matches Ok(
            ProtoEvent::Input(
                InputEvent::Keyboard(
                    KeyboardEvent::Modifiers { depressed, latched, locked, group },
                ),
            ),
        ) && depressed == field(buf, 1, 4) && latched == field(buf, 5, 4) && locked == field(
            buf,
            9,
            4,
        ) && group == field(buf, 13, 4)),
        buf[0] == 6 ==> result matches Ok(ProtoEvent::Ping),
        buf[0] == 7 ==> (result matches Ok(ProtoEvent::Pong(alive)) && (alive <==> buf[1] != 0)),
        buf[0] == 8 && buf[1] == 0 ==> result matches Ok(ProtoEvent::Enter(Position::Left)),
        buf[0] == 8 && buf[1] == 1 ==> result matches Ok(ProtoEvent::Enter(Position::Right)),
        buf[0] == 8 && buf[1] == 2 ==> result matches Ok(ProtoEvent::Enter(Position::Top)),
        buf[0] == 8 && buf[1] == 3 ==> result matches Ok(ProtoEvent::Enter(Position::Bottom)),
        buf[0] == 8 && buf[1] > 3 ==> (result matches Err(ProtocolError::InvalidPosition(code))
            && code == buf[1]),
        buf[0] == 9 ==> (result matches Ok(ProtoEvent::Leave(serial)) && serial == field(
            buf,
            1,
            4,
        )),
        buf[0] == 10 ==> (result matches Ok(ProtoEvent::Ack(serial)) && serial == field(buf, 1, 4)),
        buf[0] == 11 ==> (result matches Ok(ProtoEvent::Hello { commit }) && forall|i: int|
            0 <= i < 8 ==> #[trigger] commit@[i] == buf[1 + i]),
        buf[0] == 12 && field(buf, 10, 2) <= 1024 ==> (result matches Ok(
            ProtoEvent::Clipboard(chunk),
        ) && chunk.transfer == field(buf, 1, 4) && chunk.index == field(buf, 5, 4) && (chunk.last
            <==> buf[9] != 0) && chunk.data@.len() == field(buf, 10, 2) && forall|i: int|
            0 <= i < chunk.data@.len() ==> #[trigger] chunk.data@[i] == buf[12 + i]),
        buf[0] == 12 && field(buf, 10, 2) > 1024 ==> result matches Err(
            ProtocolError::InvalidClipboardLength,
        ),
        buf[0] > 12 ==> (result matches Err(ProtocolError::InvalidEventId(code)) && code == buf[0]),
{
    lemma_be_limits();
    lemma_bytes_of_field(buf, 1, 4);
    lemma_bytes_of_field(buf, 2, 4);
    lemma_bytes_of_field(buf, 5, 4);
    lemma_bytes_of_field(buf, 5, 8);
    lemma_bytes_of_field(buf, 6, 8);
    lemma_bytes_of_field(buf, 9, 4);
    lemma_bytes_of_field(buf, 10, 2);
    lemma_bytes_of_field(buf, 13, 4);
    lemma_bytes_of_field(buf, 13, 8);
    law_field_bytes(buf, 2);
    if buf[0] == 11 {
        let commit = result->Ok_0->commit;
        assert(commit@ == buf.subrange(1, 9));
    }
    if buf[0] == 12 && field(buf, 10, 2) <= 1024 {
        let chunk = result->Ok_0->Clipboard_0;
        assert(chunk@.data == buf.subrange(12, 12 + field(buf, 10, 2) as int));
    }
}

/// The type of each event.
pub proof fn law_type_of_event(event: ProtoEvent)
    ensures
        match event {
            ProtoEvent::Input(InputEvent::Pointer(PointerEvent::Motion { .. })) =>
                event@.event_type() is PointerMotion,
            ProtoEvent::Input(InputEvent::Pointer(PointerEvent::Button { .. })) =>
                event@.event_type() is PointerButton,
            ProtoEvent::Input(InputEvent::Pointer(PointerEvent::Axis { .. })) =>
                event@.event_type() is PointerAxis,
            ProtoEvent::Input(InputEvent::Pointer(PointerEvent::AxisDiscrete120 { .. })) =>
                event@.event_type() is PointerAxisValue120,
            ProtoEvent::Input(InputEvent::Keyboard(KeyboardEvent::Key { .. })) =>
                event@.event_type() is KeyboardKey,
            ProtoEvent::Input(InputEvent::Keyboard(KeyboardEvent::Modifiers { .. })) =>
                event@.event_type() is KeyboardModifiers,
            ProtoEvent::Ping => event@.event_type() is Ping,
            ProtoEvent::Pong(_) => event@.event_type() is Pong,
            ProtoEvent::Enter(_) => event@.event_type() is Enter,
            ProtoEvent::Leave(_) => event@.event_type() is Leave,
            ProtoEvent::Ack(_) => event@.event_type() is Ack,
            ProtoEvent::Hello { .. } => event@.event_type() is Hello,
            ProtoEvent::Clipboard(_) => event@.event_type() is Clipboard,
        },
{
}

/// The numbers of the event types and of the positions, from zero on in the order in which the
/// protocol lists them.
pub proof fn law_numbers(code: u8)
    ensures
        event_type_code(EventType::PointerMotion) == 0,
        event_type_code(EventType::PointerButton) == 1,
        event_type_code(EventType::PointerAxis) == 2,
        event_type_code(EventType::PointerAxisValue120) == 3,
        event_type_code(EventType::KeyboardKey) == 4,
        event_type_code(EventType::KeyboardModifiers) == 5,
        event_type_code(EventType::Ping) == 6,
        event_type_code(EventType::Pong) == 7,
        event_type_code(EventType::Enter) == 8,
        event_type_code(EventType::Leave) == 9,
        event_type_code(EventType::Ack) == 10,
        event_type_code(EventType::Hello) == 11,
        event_type_code(EventType::Clipboard) == 12,
        position_code(Position::Left) == 0,
        position_code(Position::Right) == 1,
        position_code(Position::Top) == 2,
        position_code(Position::Bottom) == 3,
        code <= 12 <==> event_type_of(code) is Some,
        event_type_of(code) matches Some(event_type) ==> event_type_code(event_type) == code,
        code <= 3 <==> position_of(code) is Some,
        position_of(code) matches Some(position) ==> position_code(position) == code,
{
}

/// The conversions between bytes, event types and positions go by these numbers, and refuse every
/// byte that is none of them with an error that names the byte.
pub proof fn law_conversions(event_type: EventType, position: Position, code: u8)
    ensures
        <u8 as FromSpec<EventType>>::obeys_from_spec(),
        <u8 as FromSpec<Position>>::obeys_from_spec(),
        <EventType as TryFromSpec<u8>>::obeys_try_from_spec(),
        <Position as TryFromSpec<u8>>::obeys_try_from_spec(),
        <u8 as FromSpec<EventType>>::from_spec(event_type) == event_type_code(event_type),
        <u8 as FromSpec<Position>>::from_spec(position) == position_code(position),
        code <= 12 ==> (<EventType as TryFromSpec<u8>>::try_from_spec(code) matches Ok(found)
            && event_type_code(found) == code),
        code > 12 ==> (<EventType as TryFromSpec<u8>>::try_from_spec(code) matches Err(
            ProtocolError::InvalidEventId(refused),
        ) && refused == code),
        code <= 3 ==> (<Position as TryFromSpec<u8>>::try_from_spec(code) matches Ok(found)
            && position_code(found) == code),
        code > 3 ==> (<Position as TryFromSpec<u8>>::try_from_spec(code) matches Err(
            ProtocolError::InvalidPosition(refused),
        ) && refused == code),
{
}

/// How each event is described.
pub proof fn law_event_descriptions(event: ProtoEvent, input: Seq<char>)
    ensures
        match event {
            ProtoEvent::Enter(Position::Left) => event_text(event@, input) == "Enter("@ + "left"@
                + ")"@,
            ProtoEvent::Enter(Position::Right) => event_text(event@, input) == "Enter("@ + "right"@
                + ")"@,
            ProtoEvent::Enter(Position::Top) => event_text(event@, input) == "Enter("@ + "top"@
                + ")"@,
            ProtoEvent::Enter(Position::Bottom) => event_text(event@, input) == "Enter("@
                + "bottom"@ + ")"@,
            ProtoEvent::Leave(serial) => event_text(event@, input) == "Leave("@ + decimal(
                serial as nat,
            ) + ")"@,
            ProtoEvent::Ack(serial) => event_text(event@, input) == "Ack("@ + decimal(serial as nat)
                + ")"@,
            ProtoEvent::Input(_) => event_text(event@, input) == input,
            ProtoEvent::Ping => event_text(event@, input) == "ping"@,
            ProtoEvent::Pong(true) => event_text(event@, input) == "pong: "@ + "alive"@,
            ProtoEvent::Pong(false) => event_text(event@, input) == "pong: "@ + "not available"@,
            ProtoEvent::Hello { commit } => {
                &&& vstd::utf8::valid_utf8(commit@) ==> event_text(event@, input) == "Hello("@
                    + vstd::utf8::decode_utf8(commit@) + ")"@
                &&& !vstd::utf8::valid_utf8(commit@) ==> event_text(event@, input) == "Hello("@
                    + "????????"@ + ")"@
            },
            ProtoEvent::Clipboard(chunk) => event_text(event@, input) == "Clipboard(transfer: "@
                + decimal(chunk.transfer as nat) + ", chunk: "@ + decimal(chunk.index as nat)
                + ", "@ + decimal(chunk.data@.len()) + " bytes"@ + (if chunk.last {
                ", last"@
            } else {
                Seq::<char>::empty()
            }) + ")"@,
        },
        position_text(Position::Left) == "left"@,
        position_text(Position::Right) == "right"@,
        position_text(Position::Top) == "top"@,
        position_text(Position::Bottom) == "bottom"@,
{
    reveal_strlit("");
    assert(""@ =~= Seq::<char>::empty());
}

/// How each protocol violation is described.
pub proof fn law_violation_descriptions(code: u8)
    ensures
        protocol_error_text(ProtocolError::InvalidEventId(code))
            == "invalid event id: `No discriminant in enum `EventType` matches the value `"@
            + decimal(code as nat) + "``"@,
        protocol_error_text(ProtocolError::InvalidPosition(code))
            == "invalid event id: `No discriminant in enum `Position` matches the value `"@
            + decimal(code as nat) + "``"@,
        protocol_error_text(ProtocolError::InvalidClipboardLength)
            == "clipboard chunk length exceeds datagram size"@,
{
}

} // verus!
