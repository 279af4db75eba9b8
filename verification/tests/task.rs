use lan_mouse_proto::clipboard::ClipboardRequest;
use lan_mouse_proto::task::{ClipboardRun, RunAction, RunEvent};
use lan_mouse_proto::tools::{tool_candidates, Platform};

fn x11_run() -> ClipboardRun {
    ClipboardRun::start(tool_candidates(Platform::Linux, false, None, true))
}

/// a run that has found `xsel`
fn xsel_run() -> ClipboardRun {
    let run = x11_run().step(RunEvent::Probed(Some(false)), &mut None);
    run.step(RunEvent::Probed(Some(true)), &mut None)
}

fn request(text: &str, generation: u64) -> RunEvent {
    RunEvent::Requested(Some(ClipboardRequest::SetText {
        text: text.to_string(),
        generation,
    }))
}

fn read(text: &str) -> RunEvent {
    RunEvent::Read(Some(text.as_bytes().to_vec()))
}

fn every_event() -> Vec<RunEvent> {
    vec![
        RunEvent::Probed(Some(true)),
        RunEvent::Probed(None),
        request("late", 9),
        RunEvent::Requested(None),
        RunEvent::Due,
        RunEvent::Written(true),
        read("late"),
        RunEvent::Read(None),
        RunEvent::Shared,
    ]
}

fn shared(run: &ClipboardRun) -> Option<String> {
    match run.action() {
        RunAction::Share { text } => Some(text),
        _ => None,
    }
}

fn assert_ended(mut run: ClipboardRun) {
    assert!(matches!(run.action(), RunAction::End));
    for event in every_event() {
        let mut pending = Some(9);
        run = run.step(event, &mut pending);
        assert_eq!(pending, Some(9));
        assert!(matches!(run.action(), RunAction::End));
    }
}

#[test]
fn task_ends_without_candidates() {
    assert_ended(ClipboardRun::start(tool_candidates(Platform::Other, true, None, true)));
}

#[test]
fn task_ends_when_every_probe_fails() {
    let mut run = x11_run();
    for (tool, exit) in [("xclip", None), ("xsel", Some(false))] {
        match run.action() {
            RunAction::Probe { name, command } => {
                assert_eq!(name, tool);
                assert_eq!(command.program, tool);
            }
            other => panic!("{other:?}"),
        }
        // a queued request is not taken during the search
        let mut pending = Some(1);
        run = run.step(request("queued", 1), &mut pending);
        assert_eq!(pending, Some(1));
        run = run.step(RunEvent::Probed(exit), &mut pending);
    }
    assert_ended(run);
}

#[test]
fn first_tool_that_works_is_used() {
    let run = xsel_run();
    assert!(matches!(run.action(), RunAction::Wait));
    let run = run.step(RunEvent::Due, &mut None);
    match run.action() {
        RunAction::Read { command } => {
            assert_eq!(command.program, "xsel");
            assert_eq!(command.args, ["--clipboard", "--output"]);
        }
        other => panic!("{other:?}"),
    }
}

#[test]
fn task_ends_with_the_requests() {
    assert_ended(xsel_run().step(RunEvent::Requested(None), &mut None));
}

#[test]
fn task_ends_when_the_clipboard_cannot_be_read() {
    let run = xsel_run().step(RunEvent::Due, &mut None);
    assert_ended(run.step(RunEvent::Read(None), &mut None));
}

#[test]
fn requests_are_written_word_for_word() {
    for written in [true, false] {
        let mut pending = Some(3);
        let run = xsel_run().step(request("x\n", 3), &mut pending);
        assert_eq!(pending, Some(3));
        match run.action() {
            RunAction::Write { command, text } => {
                assert_eq!(command.program, "xsel");
                assert_eq!(command.args, ["--clipboard", "--input"]);
                assert_eq!(text, "x\n");
            }
            other => panic!("{other:?}"),
        }
        // a write that fails does not end the task
        let run = run.step(RunEvent::Written(written), &mut pending);
        assert_eq!(pending, None);
        assert!(matches!(run.action(), RunAction::Wait));
        // only what was written is kept to itself
        let run = run.step(RunEvent::Due, &mut pending).step(read("x"), &mut pending);
        assert_eq!(shared(&run), if written { None } else { Some("x".to_string()) });
    }
}

#[test]
fn new_text_is_shared_once() {
    let run = xsel_run().step(RunEvent::Due, &mut None).step(read("ä€\n"), &mut None);
    assert_eq!(shared(&run).as_deref(), Some("ä€"));
    let run = run.step(RunEvent::Shared, &mut None);
    assert!(matches!(run.action(), RunAction::Wait));
    let run = run.step(RunEvent::Due, &mut None).step(read("ä€"), &mut None);
    assert!(matches!(run.action(), RunAction::Wait));
}

#[test]
fn stale_text_is_not_shared() {
    let run = xsel_run().step(RunEvent::Due, &mut None);
    // a write was queued while the tool was reading
    let run = run.step(read("old"), &mut Some(1));
    assert!(matches!(run.action(), RunAction::Wait));
    let run = run.step(request("new", 1), &mut Some(1));
    let mut pending = Some(1);
    let run = run.step(RunEvent::Written(true), &mut pending);
    assert_eq!(pending, None);
    let run = run.step(RunEvent::Due, &mut pending).step(read("new\n"), &mut pending);
    assert!(matches!(run.action(), RunAction::Wait));
}

#[test]
fn other_events_change_nothing() {
    let mut pending = Some(1);
    let mut run = xsel_run();
    for event in [RunEvent::Probed(None), RunEvent::Written(true), read("x"), RunEvent::Shared] {
        run = run.step(event, &mut pending);
        assert_eq!(pending, Some(1));
        assert!(matches!(run.action(), RunAction::Wait));
    }
}
