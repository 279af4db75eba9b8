use lan_mouse_proto::input_event::{Event, KeyboardEvent, PointerEvent};
use lan_mouse_proto::{
    ClipboardChunk, EventType, Position, ProtoEvent, ProtocolError, CLIPBOARD_CHUNK_SIZE,
    MAX_EVENT_SIZE,
};

fn encoded(event: ProtoEvent) -> Vec<u8> {
    let (buf, len) = event.encode();
    assert!(buf[len..].iter().all(|b| *b == 0));
    buf[..len].to_vec()
}

fn decoded(bytes: &[u8], fill: u8) -> Result<ProtoEvent, ProtocolError> {
    let mut buf = [fill; MAX_EVENT_SIZE];
    buf[..bytes.len()].copy_from_slice(bytes);
    ProtoEvent::try_from(buf)
}

/// encodes to `bytes` and back, whatever the datagram is filled up with
fn check(event: ProtoEvent, bytes: &[u8]) {
    assert_eq!(encoded(event.clone()), bytes);
    for fill in [0u8, 1, 0xff] {
        let again = decoded(bytes, fill).unwrap();
        assert_eq!(format!("{:?}", again), format!("{:?}", event));
    }
}

fn chunk(last: bool, data: Vec<u8>) -> ClipboardChunk {
    ClipboardChunk {
        transfer: 0x01020304,
        index: 0x05060708,
        last,
        data,
    }
}

#[test]
fn sizes() {
    assert_eq!(MAX_EVENT_SIZE, 1036);
    assert_eq!(CLIPBOARD_CHUNK_SIZE, 1024);
}

#[test]
fn motion_carries_floats_as_bits() {
    let mut bytes = vec![0u8];
    bytes.extend(7u32.to_be_bytes());
    bytes.extend(1.5f64.to_be_bytes());
    bytes.extend((-0.25f64).to_be_bytes());
    check(
        ProtoEvent::Input(Event::Pointer(PointerEvent::Motion {
            time: 7,
            dx: 1.5f64.to_bits(),
            dy: (-0.25f64).to_bits(),
        })),
        &bytes,
    );
}

#[test]
fn button_bytes() {
    check(
        ProtoEvent::Input(Event::Pointer(PointerEvent::Button {
            time: 1,
            button: 0x110,
            state: 0xfffefdfc,
        })),
        &[1, 0, 0, 0, 1, 0, 0, 1, 0x10, 0xff, 0xfe, 0xfd, 0xfc],
    );
}

#[test]
fn axis_bytes() {
    let mut bytes = vec![2u8, 0, 0, 0, 9, 1];
    bytes.extend(f64::NAN.to_be_bytes());
    check(
        ProtoEvent::Input(Event::Pointer(PointerEvent::Axis {
            time: 9,
            axis: 1,
            value: f64::NAN.to_bits(),
        })),
        &bytes,
    );
}

#[test]
fn discrete_axis_is_signed() {
    for value in [0i32, 1, -1, 120, -120, i32::MAX, i32::MIN] {
        let mut bytes = vec![3u8, 1];
        bytes.extend(value.to_be_bytes());
        check(
            ProtoEvent::Input(Event::Pointer(PointerEvent::AxisDiscrete120 { axis: 1, value })),
            &bytes,
        );
    }
}

#[test]
fn key_bytes() {
    check(
        ProtoEvent::Input(Event::Keyboard(KeyboardEvent::Key {
            time: 2,
            key: 30,
            state: 1,
        })),
        &[4, 0, 0, 0, 2, 0, 0, 0, 30, 1],
    );
}

#[test]
fn modifiers_bytes() {
    check(
        ProtoEvent::Input(Event::Keyboard(KeyboardEvent::Modifiers {
            depressed: 1,
            latched: 2,
            locked: 3,
            group: 0x01000000,
        })),
        &[5, 0, 0, 0, 1, 0, 0, 0, 2, 0, 0, 0, 3, 1, 0, 0, 0],
    );
}

#[test]
fn short_events_bytes() {
    check(ProtoEvent::Ping, &[6]);
    check(ProtoEvent::Pong(true), &[7, 1]);
    check(ProtoEvent::Pong(false), &[7, 0]);
    check(ProtoEvent::Enter(Position::Left), &[8, 0]);
    check(ProtoEvent::Enter(Position::Right), &[8, 1]);
    check(ProtoEvent::Enter(Position::Top), &[8, 2]);
    check(ProtoEvent::Enter(Position::Bottom), &[8, 3]);
    check(ProtoEvent::Leave(0x01020304), &[9, 1, 2, 3, 4]);
    check(ProtoEvent::Ack(u32::MAX), &[10, 255, 255, 255, 255]);
    check(
        ProtoEvent::Hello {
            commit: *b"0123abcd",
        },
        b"\x0b0123abcd",
    );
}

#[test]
fn clipboard_bytes() {
    let mut bytes = vec![12u8, 1, 2, 3, 4, 5, 6, 7, 8, 1, 0, 3];
    bytes.extend(b"abc");
    check(ProtoEvent::Clipboard(chunk(true, b"abc".to_vec())), &bytes);
    check(
        ProtoEvent::Clipboard(chunk(false, vec![])),
        &[12, 1, 2, 3, 4, 5, 6, 7, 8, 0, 0, 0],
    );
}

#[test]
fn full_chunk_fills_the_datagram() {
    let (buf, len) =
        ProtoEvent::Clipboard(chunk(false, vec![0xab; CLIPBOARD_CHUNK_SIZE])).encode();
    assert_eq!(len, MAX_EVENT_SIZE);
    assert_eq!(buf[10..12], [4, 0]);
    match ProtoEvent::try_from(buf) {
        Ok(ProtoEvent::Clipboard(c)) => assert_eq!(c.data, vec![0xab; CLIPBOARD_CHUNK_SIZE]),
        _ => panic!("not a chunk"),
    }
}

#[test]
fn any_nonzero_byte_is_a_set_flag() {
    assert!(matches!(decoded(&[7, 2], 0), Ok(ProtoEvent::Pong(true))));
    // but it is written as 1
    assert_eq!(encoded(decoded(&[7, 2], 0).unwrap()), [7, 1]);
}

#[test]
fn unknown_event_type_is_rejected() {
    for code in 13..=255u8 {
        match decoded(&[code], 0) {
            Err(ProtocolError::InvalidEventId(n)) => assert_eq!(n, code),
            _ => panic!("accepted {code}"),
        }
    }
    for code in 0..13u8 {
        assert!(decoded(&[code], 0).is_ok());
    }
}

#[test]
fn unknown_position_is_rejected() {
    for code in 4..=255u8 {
        match decoded(&[8, code], 0) {
            Err(ProtocolError::InvalidPosition(n)) => assert_eq!(n, code),
            _ => panic!("accepted {code}"),
        }
    }
}

#[test]
fn chunk_length_is_bounded_by_the_datagram() {
    assert!(decoded(&[12, 0, 0, 0, 0, 0, 0, 0, 0, 0, 4, 0], 0).is_ok());
    assert!(matches!(
        decoded(&[12, 0, 0, 0, 0, 0, 0, 0, 0, 0, 4, 1], 0),
        Err(ProtocolError::InvalidClipboardLength)
    ));
}

#[test]
fn type_codes_are_inverse() {
    for code in 0..13u8 {
        assert_eq!(u8::from(EventType::try_from(code).unwrap()), code);
    }
    assert!(matches!(
        EventType::try_from(13),
        Err(ProtocolError::InvalidEventId(13))
    ));
    for code in 0..4u8 {
        assert_eq!(u8::from(Position::try_from(code).unwrap()), code);
    }
    assert!(matches!(
        Position::try_from(4),
        Err(ProtocolError::InvalidPosition(4))
    ));
}

#[test]
fn event_type_is_the_first_byte() {
    let event = ProtoEvent::Ack(3);
    assert_eq!(u8::from(event.event_type()), 10);
    assert_eq!(encoded(event)[0], 10);
}

#[test]
fn positions_are_named() {
    assert_eq!(Position::Left.to_text(), "left");
    assert_eq!(Position::Right.to_text(), "right");
    assert_eq!(Position::Top.to_text(), "top");
    assert_eq!(Position::Bottom.to_text(), "bottom");
}

#[test]
fn events_are_described() {
    assert_eq!(ProtoEvent::Enter(Position::Top).to_text(""), "Enter(top)");
    assert_eq!(ProtoEvent::Leave(0).to_text(""), "Leave(0)");
    assert_eq!(
        ProtoEvent::Ack(u32::MAX).to_text(""),
        "Ack(4294967295)"
    );
    let input = ProtoEvent::Input(Event::Keyboard(KeyboardEvent::Key {
        time: 0,
        key: 30,
        state: 1,
    }));
    assert_eq!(input.to_text("key(30, 1)"), "key(30, 1)");
    assert_eq!(ProtoEvent::Ping.to_text("x"), "ping");
    assert_eq!(ProtoEvent::Pong(true).to_text(""), "pong: alive");
    assert_eq!(ProtoEvent::Pong(false).to_text(""), "pong: not available");
    assert_eq!(
        ProtoEvent::Hello {
            commit: *b"0123abcd"
        }
        .to_text(""),
        "Hello(0123abcd)"
    );
    assert_eq!(
        ProtoEvent::Hello { commit: [0xff; 8] }.to_text(""),
        "Hello(????????)"
    );
    let mut c = chunk(true, vec![0; 1000]);
    c.transfer = 10;
    c.index = 9;
    assert_eq!(
        ProtoEvent::Clipboard(c.clone()).to_text(""),
        "Clipboard(transfer: 10, chunk: 9, 1000 bytes, last)"
    );
    c.last = false;
    assert_eq!(
        ProtoEvent::Clipboard(c).to_text(""),
        "Clipboard(transfer: 10, chunk: 9, 1000 bytes)"
    );
}

#[test]
fn protocol_errors_are_described() {
    assert_eq!(
        ProtocolError::InvalidEventId(13).to_text(),
        "invalid event id: `No discriminant in enum `EventType` matches the value `13``"
    );
    assert_eq!(
        ProtocolError::InvalidPosition(200).to_text(),
        "invalid event id: `No discriminant in enum `Position` matches the value `200``"
    );
    assert_eq!(
        ProtocolError::InvalidClipboardLength.to_text(),
        "clipboard chunk length exceeds datagram size"
    );
}

#[test]
fn no_encoding_is_a_prefix_of_another() {
    let all = [
        encoded(ProtoEvent::Ping),
        encoded(ProtoEvent::Pong(false)),
        encoded(ProtoEvent::Pong(true)),
        encoded(ProtoEvent::Enter(Position::Left)),
        encoded(ProtoEvent::Leave(0)),
        encoded(ProtoEvent::Leave(1)),
        encoded(ProtoEvent::Ack(0)),
        encoded(ProtoEvent::Hello { commit: [0; 8] }),
        encoded(ProtoEvent::Clipboard(chunk(true, vec![]))),
        encoded(ProtoEvent::Clipboard(chunk(true, vec![0]))),
        encoded(ProtoEvent::Clipboard(chunk(true, vec![0, 0]))),
    ];
    for (i, a) in all.iter().enumerate() {
        for (j, b) in all.iter().enumerate() {
            assert!(i == j || !b.starts_with(a));
        }
    }
}

#[test]
fn decoded_bytes_are_encoded_again() {
    for code in 0..13u8 {
        let mut bytes: Vec<u8> = (0..40u8).collect();
        bytes[0] = code;
        // a flag, a position, and a payload length of eleven bytes
        if code == 7 || code == 8 {
            bytes[1] = 1;
        }
        if code == 12 {
            bytes[9] = 1;
            bytes[10] = 0;
        }
        let again = encoded(decoded(&bytes, 0).unwrap());
        assert_eq!(again, bytes[..again.len()]);
    }
}

#[test]
fn nonzero_flags_are_encoded_as_one() {
    for flag in [1u8, 2, 0x80, 0xff] {
        assert_eq!(encoded(decoded(&[7, flag], 0xaa).unwrap()), [7, 1]);
        let bytes = [12, 0, 0, 0, 1, 0, 0, 0, 2, flag, 0, 1, 0x61];
        let again = [12, 0, 0, 0, 1, 0, 0, 0, 2, 1, 0, 1, 0x61];
        assert_eq!(encoded(decoded(&bytes, 0xaa).unwrap()), again);
    }
}
