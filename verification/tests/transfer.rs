use lan_mouse_proto::{
    clipboard_chunks, ClipboardAssembly, ClipboardAssemblyError, ClipboardChunk, ProtoEvent,
    ProtocolError, CLIPBOARD_CHUNK_SIZE, MAX_EVENT_SIZE,
};

fn roundtrip(event: ProtoEvent) -> Result<ProtoEvent, ProtocolError> {
    let (buf, len): ([u8; MAX_EVENT_SIZE], usize) = event.encode();
    assert!(len <= MAX_EVENT_SIZE);
    ProtoEvent::try_from(buf)
}

#[test]
fn clipboard_chunk_roundtrip() {
    let chunk = ClipboardChunk {
        transfer: 7,
        index: 3,
        last: true,
        data: b"hello".to_vec(),
    };
    let decoded = roundtrip(ProtoEvent::Clipboard(chunk.clone())).expect("decode");
    match decoded {
        ProtoEvent::Clipboard(c) => assert_eq!(c, chunk),
        _ => panic!("unexpected event type"),
    }
}

#[test]
fn clipboard_chunk_length_overflow_is_rejected() {
    let (mut buf, _): ([u8; MAX_EVENT_SIZE], usize) = ProtoEvent::Clipboard(ClipboardChunk {
        transfer: 0,
        index: 0,
        last: false,
        data: b"abc".to_vec(),
    })
    .encode();
    // patch the declared payload length (offset: 1 + 4 + 4 + 1 = 10)
    // to exceed the datagram size
    let inflated = 60000u16.to_be_bytes();
    buf[10] = inflated[0];
    buf[11] = inflated[1];
    assert!(matches!(
        ProtoEvent::try_from(buf),
        Err(ProtocolError::InvalidClipboardLength)
    ));
}

#[test]
fn chunk_split_join_ascii() {
    let text = "a".repeat(CLIPBOARD_CHUNK_SIZE * 2 + 5);
    let chunks = clipboard_chunks(1, &text);
    assert_eq!(chunks.len(), 3);
    assert!(chunks.last().unwrap().last);
    let mut assembly = ClipboardAssembly::default();
    let mut result = None;
    for chunk in chunks {
        if let Some(text) = assembly.handle(chunk).unwrap() {
            result = Some(text);
        }
    }
    assert_eq!(result.as_deref(), Some(text.as_str()));
}

#[test]
fn chunk_split_never_breaks_codepoints() {
    // 3-byte codepoints around the chunk boundary
    let text = "ä".repeat(1000);
    let chunks = clipboard_chunks(2, &text);
    let mut assembly = ClipboardAssembly::default();
    let mut result = None;
    for chunk in chunks {
        if let Some(t) = assembly.handle(chunk).unwrap() {
            result = Some(t);
        }
    }
    assert_eq!(result.as_deref(), Some(text.as_str()));
}

#[test]
fn empty_text_is_one_final_chunk() {
    let chunks = clipboard_chunks(3, "");
    assert_eq!(chunks.len(), 1);
    assert!(chunks[0].last);
    let mut assembly = ClipboardAssembly::default();
    let text = assembly.handle(chunks[0].clone()).unwrap();
    assert_eq!(text.as_deref(), Some(""));
}

#[test]
fn out_of_order_chunk_drops_transfer() {
    let chunks = clipboard_chunks(4, &"b".repeat(CLIPBOARD_CHUNK_SIZE + 1));
    let mut assembly = ClipboardAssembly::default();
    // index 1 cannot be the first chunk of a transfer
    let err = assembly.handle(chunks[1].clone()).unwrap_err();
    assert!(matches!(err, ClipboardAssemblyError::OutOfOrder));
    // the assembly was reset, replaying the transfer works
    assembly.handle(chunks[0].clone()).unwrap();
    let text = assembly.handle(chunks[1].clone()).unwrap();
    assert_eq!(
        text.as_deref(),
        Some(&"b".repeat(CLIPBOARD_CHUNK_SIZE + 1)[..])
    );
}

#[test]
fn new_transfer_id_resets_assembly() {
    let mut assembly = ClipboardAssembly::default();
    let mut chunks = clipboard_chunks(5, &"c".repeat(CLIPBOARD_CHUNK_SIZE + 1));
    assembly.handle(chunks.remove(0)).unwrap();
    let text = assembly
        .handle(ClipboardChunk {
            transfer: 6,
            index: 0,
            last: true,
            data: b"fresh".to_vec(),
        })
        .unwrap();
    assert_eq!(text.as_deref(), Some("fresh"));
}

#[test]
fn oversized_transfer_is_dropped() {
    let big = "d".repeat(CLIPBOARD_CHUNK_SIZE);
    let big = big.as_bytes();
    let mut assembly = ClipboardAssembly::default();
    let mut index = 0;
    let mut result = None;
    while result.is_none() {
        let chunk = ClipboardChunk {
            transfer: 0,
            index,
            last: false,
            data: big.to_vec(),
        };
        index += 1;
        match assembly.handle(chunk) {
            Ok(t) => result = t,
            Err(ClipboardAssemblyError::TransferTooLarge) => break,
            Err(e) => panic!("unexpected error: {}", e.to_text()),
        }
    }
    // assembly was reset, a new transfer works again
    let text = assembly
        .handle(ClipboardChunk {
            transfer: 1,
            index: 0,
            last: true,
            data: vec![],
        })
        .unwrap();
    assert_eq!(text.as_deref(), Some(""));
}
