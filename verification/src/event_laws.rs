//! What the encoding of events promises as a whole.
use vstd::prelude::*;

use crate::chunk::CLIPBOARD_CHUNK_SIZE;
use crate::event::{
    decode_event, event_type_code, event_type_of, flag_code, position_code, position_of, EventType,
    EventView, Position, ProtocolError, MAX_EVENT_SIZE,
};
use crate::input_event::{Event as InputEvent, KeyboardEvent, PointerEvent};
use crate::wire::{
    be_bytes, field, i32_bits, lemma_be_bytes_len, lemma_be_limits, lemma_bytes_of_field,
    lemma_field_of_bytes, lemma_i32_bits, lemma_i32_of_bits,
};

verus! {

/// The byte of an event type stands for that type and for no other.
pub proof fn law_event_type_codes(event_type: EventType, code: u8)
    ensures
        event_type_of(event_type_code(event_type)) == Some(event_type),
        event_type_of(code) == Some(event_type) <==> code == event_type_code(event_type),
        event_type_of(code) is None <==> code > 12,
{
}

/// The byte of a position stands for that position and for no other.
pub proof fn law_position_codes(position: Position, code: u8)
    ensures
        position_of(position_code(position)) == Some(position),
        position_of(code) == Some(position) <==> code == position_code(position),
        position_of(code) is None <==> code > 3,
{
}

/// The lengths of all the integer fields of an event.
pub(crate) proof fn lemma_field_widths()
    ensures
        forall|n: nat, width: nat| #[trigger] be_bytes(n, width).len() == width,
{
    assert forall|n: nat, width: nat| #[trigger] be_bytes(n, width).len() == width by {
        lemma_be_bytes_len(n, width);
    }
}

/// An event that fits a datagram encodes to at most [`MAX_EVENT_SIZE`] bytes, a clipboard chunk
/// to twelve bytes more than its payload, and every other event to at most 21 bytes.
pub proof fn law_encoding_size(event: EventView)
    requires
        event.fits(),
    ensures
        1 <= event.encoding().len() <= MAX_EVENT_SIZE,
        event matches EventView::Clipboard(chunk) ==> event.encoding().len() == 12
            + chunk.data.len(),
        event !is Clipboard ==> event.encoding().len() <= 21,
{
    lemma_field_widths();
}

/// Decoding gives back the event that was encoded, whatever follows its encoding in the datagram.
pub proof fn law_decode_encoding(event: EventView, rest: Seq<u8>)
    requires
        event.fits(),
    ensures
        decode_event(event.encoding() + rest) == Ok::<EventView, ProtocolError>(event),
{
    lemma_field_widths();
    lemma_be_limits();
    let buf = event.encoding() + rest;
    match event {
        EventView::Input(InputEvent::Pointer(PointerEvent::Motion { time, dx, dy })) => {
            assert(buf.subrange(1, 5) =~= be_bytes(time as nat, 4));
            assert(buf.subrange(5, 13) =~= be_bytes(dx as nat, 8));
            assert(buf.subrange(13, 21) =~= be_bytes(dy as nat, 8));
            lemma_field_of_bytes(buf, 1, time as nat, 4);
            lemma_field_of_bytes(buf, 5, dx as nat, 8);
            lemma_field_of_bytes(buf, 13, dy as nat, 8);
        },
        EventView::Input(InputEvent::Pointer(PointerEvent::Button { time, button, state })) => {
            assert(buf.subrange(1, 5) =~= be_bytes(time as nat, 4));
            assert(buf.subrange(5, 9) =~= be_bytes(button as nat, 4));
            assert(buf.subrange(9, 13) =~= be_bytes(state as nat, 4));
            lemma_field_of_bytes(buf, 1, time as nat, 4);
            lemma_field_of_bytes(buf, 5, button as nat, 4);
            lemma_field_of_bytes(buf, 9, state as nat, 4);
        },
        EventView::Input(InputEvent::Pointer(PointerEvent::Axis { time, axis, value })) => {
            assert(buf.subrange(1, 5) =~= be_bytes(time as nat, 4));
            assert(buf.subrange(6, 14) =~= be_bytes(value as nat, 8));
            lemma_field_of_bytes(buf, 1, time as nat, 4);
            lemma_field_of_bytes(buf, 6, value as nat, 8);
        },
        EventView::Input(InputEvent::Pointer(PointerEvent::AxisDiscrete120 { axis, value })) => {
            lemma_i32_bits(value);
            assert(buf.subrange(2, 6) =~= be_bytes(i32_bits(value), 4));
            lemma_field_of_bytes(buf, 2, i32_bits(value), 4);
        },
        EventView::Input(InputEvent::Keyboard(KeyboardEvent::Key { time, key, state })) => {
            assert(buf.subrange(1, 5) =~= be_bytes(time as nat, 4));
            assert(buf.subrange(5, 9) =~= be_bytes(key as nat, 4));
            lemma_field_of_bytes(buf, 1, time as nat, 4);
            lemma_field_of_bytes(buf, 5, key as nat, 4);
        },
        EventView::Input(InputEvent::Keyboard(KeyboardEvent::Modifiers {
            depressed,
            latched,
            locked,
            group,
        })) => {
            assert(buf.subrange(1, 5) =~= be_bytes(depressed as nat, 4));
            assert(buf.subrange(5, 9) =~= be_bytes(latched as nat, 4));
            assert(buf.subrange(9, 13) =~= be_bytes(locked as nat, 4));
            assert(buf.subrange(13, 17) =~= be_bytes(group as nat, 4));
            lemma_field_of_bytes(buf, 1, depressed as nat, 4);
            lemma_field_of_bytes(buf, 5, latched as nat, 4);
            lemma_field_of_bytes(buf, 9, locked as nat, 4);
            lemma_field_of_bytes(buf, 13, group as nat, 4);
        },
        EventView::Leave(serial) => {
            assert(buf.subrange(1, 5) =~= be_bytes(serial as nat, 4));
            lemma_field_of_bytes(buf, 1, serial as nat, 4);
        },
        EventView::Ack(serial) => {
            assert(buf.subrange(1, 5) =~= be_bytes(serial as nat, 4));
            lemma_field_of_bytes(buf, 1, serial as nat, 4);
        },
        EventView::Hello { commit } => {
            assert(buf.subrange(1, 9) =~= commit);
        },
        EventView::Clipboard(chunk) => {
            assert(buf.subrange(1, 5) =~= be_bytes(chunk.transfer as nat, 4));
            assert(buf.subrange(5, 9) =~= be_bytes(chunk.index as nat, 4));
            assert(buf.subrange(10, 12) =~= be_bytes(chunk.data.len(), 2));
            assert(buf.subrange(12, 12 + chunk.data.len() as int) =~= chunk.data);
            lemma_field_of_bytes(buf, 1, chunk.transfer as nat, 4);
            lemma_field_of_bytes(buf, 5, chunk.index as nat, 4);
            lemma_field_of_bytes(buf, 10, chunk.data.len(), 2);
        },
        _ => {},
    }
}

/// Two different events never encode to the same bytes, nor is the encoding of one a prefix of
/// the encoding of the other.
pub proof fn law_encoding_prefix_free(
    a: EventView,
    b: EventView,
    after_a: Seq<u8>,
    after_b: Seq<u8>,
)
    requires
        a.fits(),
        b.fits(),
        a.encoding() + after_a == b.encoding() + after_b,
    ensures
        a == b,
{
    law_decode_encoding(a, after_a);
    law_decode_encoding(b, after_b);
}

/// When a datagram is refused, and with which error: an unknown type byte, an unknown position in
/// an enter event, or a clipboard chunk that declares more data than the datagram holds. Every
/// other datagram decodes.
pub proof fn law_decode_errors(buf: Seq<u8>, code: u8)
    requires
        buf.len() == MAX_EVENT_SIZE,
    ensures
        decode_event(buf) == Err::<EventView, ProtocolError>(ProtocolError::InvalidEventId(code))
            <==> buf[0] > 12 && code == buf[0],
        decode_event(buf) == Err::<EventView, ProtocolError>(ProtocolError::InvalidPosition(code))
            <==> buf[0] == event_type_code(EventType::Enter) && buf[1] > 3 && code == buf[1],
        decode_event(buf) == Err::<EventView, ProtocolError>(ProtocolError::InvalidClipboardLength)
            <==> buf[0] == event_type_code(EventType::Clipboard) && field(buf, 10, 2)
            > CLIPBOARD_CHUNK_SIZE,
        decode_event(buf) is Ok <==> !(buf[0] > 12 || (buf[0] == event_type_code(EventType::Enter)
            && buf[1] > 3) || (buf[0] == event_type_code(EventType::Clipboard) && field(buf, 10, 2)
            > CLIPBOARD_CHUNK_SIZE)),
{
}

/// What was decoded fits a datagram again, and its type is the first byte of the datagram.
pub proof fn law_decoded_fits(buf: Seq<u8>, event: EventView)
    requires
        buf.len() == MAX_EVENT_SIZE,
        decode_event(buf) == Ok::<EventView, ProtocolError>(event),
    ensures
        event.fits(),
        event_type_code(event.event_type()) == buf[0],
{
}

/// Encoding what was decoded gives a datagram that decodes to the same event, whatever it is
/// filled up with.
pub proof fn law_decode_again(buf: Seq<u8>, event: EventView, rest: Seq<u8>)
    requires
        buf.len() == MAX_EVENT_SIZE,
        decode_event(buf) == Ok::<EventView, ProtocolError>(event),
    ensures
        decode_event(event.encoding() + rest) == Ok::<EventView, ProtocolError>(event),
{
    law_decoded_fits(buf, event);
    law_decode_encoding(event, rest);
}

/// A datagram with its flag byte, if its event has one, as it is written: 1 for a flag that is
/// set, though any nonzero byte stands for it.
pub open spec fn with_written_flag(buf: Seq<u8>) -> Seq<u8> {
    if buf[0] == event_type_code(EventType::Pong) {
        buf.update(1, flag_code(buf[1] != 0))
    } else if buf[0] == event_type_code(EventType::Clipboard) {
        buf.update(9, flag_code(buf[9] != 0))
    } else {
        buf
    }
}

/// Encoding what was decoded gives back the bytes that were decoded, except that a nonzero flag
/// byte comes back as 1; where flags are spelled as 0 or 1 all bytes come back.
pub proof fn law_encode_decoded(buf: Seq<u8>, event: EventView)
    requires
        buf.len() == MAX_EVENT_SIZE,
        decode_event(buf) == Ok::<EventView, ProtocolError>(event),
    ensures
        event.encoding() == with_written_flag(buf).take(event.encoding().len() as int),
        (event is Pong ==> buf[1] <= 1) && (event is Clipboard ==> buf[9] <= 1)
            ==> event.encoding() == buf.take(event.encoding().len() as int),
{
    law_decoded_fits(buf, event);
    law_encoding_size(event);
    lemma_field_widths();
    lemma_be_limits();
    lemma_bytes_of_field(buf, 1, 4);
    lemma_bytes_of_field(buf, 2, 4);
    lemma_bytes_of_field(buf, 5, 4);
    lemma_bytes_of_field(buf, 5, 8);
    lemma_bytes_of_field(buf, 6, 8);
    lemma_bytes_of_field(buf, 9, 4);
    lemma_bytes_of_field(buf, 10, 2);
    lemma_bytes_of_field(buf, 13, 4);
    lemma_bytes_of_field(buf, 13, 8);
    lemma_i32_of_bits(field(buf, 2, 4));
    lemma_position_code_of(buf[1]);
    let n = event.encoding().len() as int;
    let written = with_written_flag(buf);
    assert(buf.take(n)[0] == event.encoding()[0]);
    match event {
        EventView::Input(InputEvent::Pointer(PointerEvent::Motion { .. })) => {
            assert(event.payload() =~= buf.subrange(1, 5) + buf.subrange(5, 13) + buf.subrange(
                13,
                21,
            ));
        },
        EventView::Input(InputEvent::Pointer(PointerEvent::Button { .. })) => {
            assert(event.payload() =~= buf.subrange(1, 5) + buf.subrange(5, 9) + buf.subrange(
                9,
                13,
            ));
        },
        EventView::Input(InputEvent::Pointer(PointerEvent::Axis { .. })) => {
            assert(event.payload() =~= buf.subrange(1, 5).push(buf[5]) + buf.subrange(6, 14));
        },
        EventView::Input(InputEvent::Pointer(PointerEvent::AxisDiscrete120 { .. })) => {
            assert(event.payload() =~= seq![buf[1]] + buf.subrange(2, 6));
        },
        EventView::Input(InputEvent::Keyboard(KeyboardEvent::Key { .. })) => {
            assert(event.payload() =~= (buf.subrange(1, 5) + buf.subrange(5, 9)).push(buf[9]));
        },
        EventView::Input(InputEvent::Keyboard(KeyboardEvent::Modifiers { .. })) => {
            assert(event.payload() =~= buf.subrange(1, 5) + buf.subrange(5, 9) + buf.subrange(
                9,
                13,
            ) + buf.subrange(13, 17));
        },
        EventView::Clipboard(chunk) => {
            assert(event.payload() =~= (buf.subrange(1, 5) + buf.subrange(5, 9)).push(written[9])
                + buf.subrange(10, 12) + chunk.data);
        },
        _ => {},
    }
    assert(event.encoding() =~= written.take(n));
    if (event is Pong ==> buf[1] <= 1) && (event is Clipboard ==> buf[9] <= 1) {
        assert(written =~= buf);
    }
}

/// The byte of the position that a byte stands for is that byte.
proof fn lemma_position_code_of(code: u8)
    ensures
        position_of(code) matches Some(position) ==> position_code(position) == code,
{
}

/// Decoding depends on no byte of the datagram behind the encoded event.
pub proof fn law_decode_ignores_rest(buf: Seq<u8>, other: Seq<u8>, event: EventView)
    requires
        buf.len() == MAX_EVENT_SIZE,
        other.len() == MAX_EVENT_SIZE,
        decode_event(buf) == Ok::<EventView, ProtocolError>(event),
        other.take(event.encoding().len() as int) == buf.take(event.encoding().len() as int),
    ensures
        decode_event(other) == Ok::<EventView, ProtocolError>(event),
{
    law_decoded_fits(buf, event);
    law_encoding_size(event);
    lemma_field_widths();
    let n = event.encoding().len() as int;
    assert forall|at: int, width: int|
        0 <= at && 0 <= width && at + width <= n implies #[trigger] field(other, at, width)
        == field(buf, at, width) by {
        assert(other.subrange(at, at + width) =~= other.take(n).subrange(at, at + width));
        assert(buf.subrange(at, at + width) =~= buf.take(n).subrange(at, at + width));
    }
    assert forall|i: int| 0 <= i < n implies #[trigger] other[i] == buf[i] by {
        assert(other[i] == other.take(n)[i]);
        assert(buf[i] == buf.take(n)[i]);
    }
    if let EventView::Clipboard(chunk) = event {
        assert(other.subrange(12, n) =~= buf.subrange(12, n));
    }
    if let EventView::Hello { commit } = event {
        assert(other.subrange(1, 9) =~= buf.subrange(1, 9));
    }
}

} // verus!
