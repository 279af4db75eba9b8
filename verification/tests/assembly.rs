use lan_mouse_proto::{
    clipboard_chunks, ClipboardAssembly, ClipboardAssemblyError, ClipboardChunk, ProtoEvent,
    CLIPBOARD_CHUNK_SIZE, MAX_CLIPBOARD_SIZE,
};

fn chunk(transfer: u32, index: u32, last: bool, data: &[u8]) -> ClipboardChunk {
    ClipboardChunk {
        transfer,
        index,
        last,
        data: data.to_vec(),
    }
}

fn lengths(text: &str) -> Vec<usize> {
    clipboard_chunks(1, text)
        .iter()
        .map(|c| c.data.len())
        .collect()
}

#[test]
fn chunks_end_between_characters() {
    assert_eq!(lengths(&"a".repeat(1024)), [1024]);
    assert_eq!(lengths(&"a".repeat(1025)), [1024, 1]);
    assert_eq!(lengths(&"ä".repeat(513)), [1024, 2]);
    // three bytes each
    assert_eq!(lengths(&"€".repeat(342)), [1023, 3]);
    // four bytes each, shifted by one
    let text = format!("a{}", "😀".repeat(300));
    assert_eq!(lengths(&text), [1021, 180]);
}

#[test]
fn chunks_are_numbered_and_only_the_last_is_marked() {
    let text = "€".repeat(1000);
    let chunks = clipboard_chunks(9, &text);
    assert_eq!(chunks.len(), 3);
    let mut joined: Vec<u8> = Vec::new();
    for (k, c) in chunks.iter().enumerate() {
        assert_eq!(c.transfer, 9);
        assert_eq!(c.index as usize, k);
        assert_eq!(c.last, k == 2);
        assert!(std::str::from_utf8(&c.data).is_ok());
        joined.extend(&c.data);
    }
    assert_eq!(joined, text.as_bytes());
}

#[test]
fn largest_text_survives_datagrams() {
    let text = "x".repeat(MAX_CLIPBOARD_SIZE);
    let mut assembly = ClipboardAssembly::default();
    // another transfer is under way
    assert!(matches!(
        assembly.handle(chunk(1, 0, false, b"other")),
        Ok(None)
    ));
    let chunks = clipboard_chunks(2, &text);
    let n = chunks.len();
    assert_eq!(n, 1024);
    for (k, c) in chunks.into_iter().enumerate() {
        let (buf, _) = ProtoEvent::Clipboard(c).encode();
        let received = match ProtoEvent::try_from(buf) {
            Ok(ProtoEvent::Clipboard(c)) => c,
            _ => panic!("not a chunk"),
        };
        match assembly.handle(received).unwrap() {
            None => assert!(k < n - 1),
            Some(t) => {
                assert_eq!(k, n - 1);
                assert_eq!(t, text);
            }
        }
    }
}

#[test]
fn longer_text_is_never_delivered() {
    let text = "x".repeat(MAX_CLIPBOARD_SIZE + 1);
    let mut assembly = ClipboardAssembly::default();
    let mut results = Vec::new();
    for c in clipboard_chunks(2, &text) {
        results.push(assembly.handle(c));
    }
    assert_eq!(results.len(), 1025);
    assert!(results[..1024].iter().all(|r| matches!(r, Ok(None))));
    assert!(matches!(
        results[1024],
        Err(ClipboardAssemblyError::TransferTooLarge)
    ));

    let text = "x".repeat(MAX_CLIPBOARD_SIZE + 2000);
    let mut late = Vec::new();
    for c in clipboard_chunks(3, &text) {
        late.push(assembly.handle(c));
    }
    assert!(matches!(
        late[1024],
        Err(ClipboardAssemblyError::TransferTooLarge)
    ));
    assert!(matches!(late[1025], Err(ClipboardAssemblyError::OutOfOrder)));
}

#[test]
fn oversized_chunk_drops_the_transfer() {
    let mut assembly = ClipboardAssembly::default();
    assembly.handle(chunk(1, 0, false, b"a")).unwrap();
    assert!(matches!(
        assembly.handle(chunk(1, 1, true, &[b'a'; CLIPBOARD_CHUNK_SIZE + 1])),
        Err(ClipboardAssemblyError::ChunkTooLarge)
    ));
    assert!(matches!(
        assembly.handle(chunk(1, 1, true, b"b")),
        Err(ClipboardAssemblyError::OutOfOrder)
    ));
}

#[test]
fn broken_utf8_is_rejected_at_the_end() {
    let mut assembly = ClipboardAssembly::default();
    assert!(matches!(
        assembly.handle(chunk(1, 0, false, &[0xe2, 0x82])),
        Ok(None)
    ));
    assert!(matches!(
        assembly.handle(chunk(1, 1, true, b"x")),
        Err(ClipboardAssemblyError::InvalidUtf8)
    ));
    // a character may be spread over chunks
    assembly.handle(chunk(2, 0, false, &[0xe2, 0x82])).unwrap();
    let text = assembly.handle(chunk(2, 1, true, &[0xac])).unwrap();
    assert_eq!(text.as_deref(), Some("€"));
}

#[test]
fn interrupted_transfer_is_dropped() {
    let mut assembly = ClipboardAssembly::default();
    assembly.handle(chunk(1, 0, false, b"a")).unwrap();
    assembly.handle(chunk(2, 0, false, b"b")).unwrap();
    assert!(matches!(
        assembly.handle(chunk(1, 1, true, b"c")),
        Err(ClipboardAssemblyError::OutOfOrder)
    ));
}

#[test]
fn repeated_chunk_is_out_of_order() {
    let mut assembly = ClipboardAssembly::default();
    assembly.handle(chunk(1, 0, false, b"a")).unwrap();
    assert!(matches!(
        assembly.handle(chunk(1, 0, false, b"a")),
        Err(ClipboardAssemblyError::OutOfOrder)
    ));
}

#[test]
fn ordinary_chunks_can_be_handled() {
    let mut assembly = ClipboardAssembly::default();
    assert!(assembly.can_handle(&chunk(1, 0, false, b"a")));
    assert!(assembly.can_handle(&chunk(1, u32::MAX, false, b"a")));
    assembly.handle(chunk(1, 0, false, b"a")).unwrap();
    assert!(assembly.can_handle(&chunk(1, 1, false, b"a")));
}

#[test]
fn assembly_errors_are_described() {
    assert_eq!(
        ClipboardAssemblyError::ChunkTooLarge.to_text(),
        "clipboard chunk exceeds `1024` bytes"
    );
    assert_eq!(
        ClipboardAssemblyError::OutOfOrder.to_text(),
        "out of order clipboard chunk, dropping transfer"
    );
    assert_eq!(
        ClipboardAssemblyError::TransferTooLarge.to_text(),
        "clipboard transfer exceeds `1048576` bytes, dropping transfer"
    );
    assert_eq!(
        ClipboardAssemblyError::InvalidUtf8.to_text(),
        "clipboard text is not valid UTF-8"
    );
}

#[test]
fn only_the_latest_sequence_is_delivered() {
    let mut assembly = ClipboardAssembly::default();
    for (c, accepted) in [
        (chunk(1, 0, false, b"lost"), true),
        (chunk(2, 0, false, b"gone"), true),
        (chunk(2, 2, true, b"gap"), false),
        (chunk(2, 1, true, b"late"), false),
        (chunk(3, 0, false, b"he"), true),
        (chunk(3, 1, false, b"ll"), true),
    ] {
        match assembly.handle(c) {
            Ok(None) => assert!(accepted),
            Ok(Some(t)) => panic!("delivered {t}"),
            Err(_) => assert!(!accepted),
        }
    }
    let text = assembly.handle(chunk(3, 2, true, b"o")).unwrap();
    assert_eq!(text.as_deref(), Some("hello"));
}

#[test]
fn empty_chunks_continue_a_transfer() {
    let mut assembly = ClipboardAssembly::default();
    for index in 0..1000 {
        assert!(matches!(
            assembly.handle(chunk(1, index, false, b"")),
            Ok(None)
        ));
    }
    let text = assembly.handle(chunk(1, 1000, true, b"end")).unwrap();
    assert_eq!(text.as_deref(), Some("end"));
}
