use lan_mouse_proto::clipboard::{
    settle_request, Clipboard, ClipboardEvent, ClipboardRequest, ClipboardTask, PollAction,
    MAX_BROADCAST_SIZE,
};
use lan_mouse_proto::text::normalize;
use local_channel::mpsc::{channel, Receiver};

/// the next request in the queue
fn next(rx: &mut Receiver<ClipboardRequest>) -> Option<(String, u64)> {
    let runtime = tokio::runtime::Builder::new_current_thread()
        .build()
        .unwrap();
    match runtime.block_on(rx.recv()) {
        Some(ClipboardRequest::SetText { text, generation }) => Some((text, generation)),
        None => None,
    }
}

fn broadcast(action: PollAction) -> Option<String> {
    match action {
        PollAction::Broadcast(text) => Some(text),
        PollAction::Wait => None,
        PollAction::Stop => panic!("stopped"),
    }
}

#[test]
fn trailing_line_breaks_are_removed() {
    assert_eq!(normalize("abc".to_string()), "abc");
    assert_eq!(normalize("abc\r\n\n\r".to_string()), "abc");
    assert_eq!(normalize("\na\n b\n".to_string()), "\na\n b");
    assert_eq!(normalize("\n\r\n".to_string()), "");
    assert_eq!(normalize("".to_string()), "");
    assert_eq!(normalize("ä€😀\n".to_string()), "ä€😀");
    // only these two characters count
    assert_eq!(normalize("a \n\t".to_string()), "a \n\t");
    assert_eq!(normalize("a\u{85}\n".to_string()), "a\u{85}");
    assert_eq!(normalize(normalize("x\n".to_string())), "x");
}

#[test]
fn texts_are_queued_with_their_numbers() {
    let (tx, mut rx) = channel();
    let mut clipboard = Clipboard::new(tx);
    let mut pending = None;
    clipboard.set_text("one".to_string(), &mut pending);
    assert_eq!(pending, Some(1));
    clipboard.set_text("two".to_string(), &mut pending);
    assert_eq!(pending, Some(2));
    drop(clipboard);
    assert_eq!(next(&mut rx), Some(("one".to_string(), 1)));
    assert_eq!(next(&mut rx), Some(("two".to_string(), 2)));
    assert_eq!(next(&mut rx), None);
}

#[test]
fn refused_request_leaves_nothing_pending() {
    let (tx, rx) = channel();
    let mut clipboard = Clipboard::new(tx);
    drop(rx);
    let mut pending = Some(7);
    clipboard.set_text("lost".to_string(), &mut pending);
    assert_eq!(pending, None);
}

#[test]
fn closed_clipboard_refuses_requests() {
    let (tx, mut rx) = channel();
    let mut clipboard = Clipboard::new(tx);
    let mut pending = None;
    clipboard.set_text("kept".to_string(), &mut pending);
    clipboard.close();
    clipboard.set_text("lost".to_string(), &mut pending);
    assert_eq!(pending, None);
    drop(clipboard);
    assert_eq!(next(&mut rx), Some(("kept".to_string(), 1)));
    assert_eq!(next(&mut rx), None);
}

#[test]
fn end_of_the_task_disables_the_clipboard() {
    let (tx, mut rx) = channel();
    let mut clipboard = Clipboard::new(tx);
    let event = clipboard.event(Some(ClipboardEvent::Changed("x".to_string())));
    assert!(matches!(event, ClipboardEvent::Changed(t) if t == "x"));
    assert!(matches!(clipboard.event(None), ClipboardEvent::Unavailable));
    let mut pending = Some(3);
    clipboard.set_text("ignored".to_string(), &mut pending);
    assert_eq!(pending, Some(3));
    assert!(clipboard.next_request("ignored".to_string()).is_none());
    drop(clipboard);
    assert_eq!(next(&mut rx), None);
}

#[test]
fn requests_are_settled() {
    let mut pending = Some(1);
    settle_request(&mut pending, 2, true);
    assert_eq!(pending, Some(2));
    settle_request(&mut pending, 3, false);
    assert_eq!(pending, None);
}

#[test]
fn only_the_latest_write_settles() {
    let mut task = ClipboardTask::default();
    let mut pending = Some(2);
    task.applied("one".to_string(), 1, true, &mut pending);
    assert_eq!(pending, Some(2));
    task.applied("two".to_string(), 2, false, &mut pending);
    assert_eq!(pending, None);
    // the failed write left no trace
    assert_eq!(broadcast(task.observe("two".to_string())).as_deref(), Some("two"));
    assert_eq!(broadcast(task.observe("one".to_string())), None);
}

#[test]
fn new_text_is_broadcast_once() {
    let mut task = ClipboardTask::default();
    assert_eq!(
        broadcast(task.polled(Some(b"hello\n"), None)).as_deref(),
        Some("hello")
    );
    assert_eq!(broadcast(task.polled(Some(b"hello"), None)), None);
    assert_eq!(broadcast(task.polled(Some(b"hello\r\n"), None)), None);
    assert_eq!(
        broadcast(task.polled(Some(b"bye"), None)).as_deref(),
        Some("bye")
    );
    assert_eq!(
        broadcast(task.polled(Some(b"hello"), None)).as_deref(),
        Some("hello")
    );
}

#[test]
fn applied_text_is_not_echoed() {
    let mut task = ClipboardTask::default();
    let mut pending = Some(1);
    task.applied("remote".to_string(), 1, true, &mut pending);
    assert_eq!(broadcast(task.polled(Some(b"remote\n"), pending)), None);
    assert_eq!(
        broadcast(task.polled(Some(b"local"), None)).as_deref(),
        Some("local")
    );
    // not even later
    assert_eq!(broadcast(task.polled(Some(b"remote"), None)), None);
}

#[test]
fn polls_are_discarded_while_a_write_is_pending() {
    let mut task = ClipboardTask::default();
    assert_eq!(broadcast(task.polled(Some(b"stale"), Some(1))), None);
    // it was not remembered either
    assert_eq!(
        broadcast(task.polled(Some(b"stale"), None)).as_deref(),
        Some("stale")
    );
}

#[test]
fn failed_poll_stops() {
    let mut task = ClipboardTask::default();
    assert!(matches!(task.polled(None, None), PollAction::Stop));
    assert!(matches!(task.polled(None, Some(1)), PollAction::Stop));
}

#[test]
fn invalid_utf8_is_replaced() {
    let mut task = ClipboardTask::default();
    assert_eq!(
        broadcast(task.polled(Some(b"a\xffb\n"), None)).as_deref(),
        Some("a\u{fffd}b")
    );
}

#[test]
fn large_text_is_not_broadcast() {
    let mut task = ClipboardTask::default();
    let fits = "x".repeat(MAX_BROADCAST_SIZE);
    let large = "x".repeat(MAX_BROADCAST_SIZE + 1);
    assert_eq!(broadcast(task.observe(large.clone())), None);
    assert_eq!(broadcast(task.observe(fits.clone())), Some(fits));
    // two bytes per character
    assert_eq!(
        broadcast(task.observe("ä".repeat(MAX_BROADCAST_SIZE / 2 + 1))),
        None
    );
}

#[test]
fn applied_text_with_line_breaks_is_not_echoed() {
    for read_back in [&b"x\n"[..], b"x", b"x\r\n\n"] {
        let mut task = ClipboardTask::default();
        let mut pending = Some(1);
        task.applied("x\n".to_string(), 1, true, &mut pending);
        assert_eq!(pending, None);
        assert_eq!(broadcast(task.polled(Some(read_back), pending)), None);
        assert_eq!(
            broadcast(task.polled(Some(b"other"), None)).as_deref(),
            Some("other")
        );
        assert_eq!(broadcast(task.polled(Some(read_back), None)), None);
    }
}

#[test]
fn queued_text_is_kept_verbatim() {
    let (tx, mut rx) = channel();
    let mut clipboard = Clipboard::new(tx);
    let mut pending = None;
    clipboard.set_text("x\n".to_string(), &mut pending);
    drop(clipboard);
    assert_eq!(next(&mut rx), Some(("x\n".to_string(), 1)));
    assert_eq!(next(&mut rx), None);
}
