//! The clipboard task, from the search for a tool to its end.
//!
//! [`ClipboardRun`] decides what the task does next and takes what came of it. It starts with the
//! search for a tool; with a tool it waits for requests and polls, writes and reads the clipboard,
//! and shares what is new. It ends when no tool works, when the channel of the requests has ended,
//! and when the clipboard cannot be read.
use vstd::prelude::*;
use vstd::utf8::{decode_utf8, valid_utf8};

use crate::clipboard::{
    pending_after, ActionView, ClipboardRequest, ClipboardTask, PollAction, RequestView, TaskView,
};
use crate::text::{normalized, utf8_lossy};
use crate::tools::{
    probe_succeeded, tool_views, CliCommand, CliTool, CommandView, Detection, DetectionView,
    ToolView,
};

verus! {

/// what the task is to do next
#[derive(Debug)]
pub enum RunAction {
    /// run the command that probes the tool of this name
    Probe { name: &'static str, command: CliCommand },
    /// wait for a request or for the next poll; a request goes first
    Wait,
    /// run the command on the text
    Write { command: CliCommand, text: String },
    /// run the command for its output
    Read { command: CliCommand },
    /// share the text with the peers
    Share { text: String },
    /// there is nothing more to do
    End,
}

/// what came of the last action
#[derive(Debug)]
pub enum RunEvent {
    /// a probe exited with or without success, nothing if it could not be run
    Probed(Option<bool>),
    /// a request was received, nothing if there will be no more
    Requested(Option<ClipboardRequest>),
    /// the next poll is due
    Due,
    /// the command that writes was run, or could not be run
    Written(bool),
    /// the output of the command that reads, nothing if it could not be run
    Read(Option<Vec<u8>>),
    /// the text was shared
    Shared,
}

/// What a [`RunAction`] asks for.
pub enum RunActionView {
    Probe { name: Seq<char>, command: CommandView },
    Wait,
    Write { command: CommandView, text: Seq<char> },
    Read { command: CommandView },
    Share { text: Seq<char> },
    End,
}

/// What a [`RunEvent`] says, with the output of a command as text.
pub enum RunEventView {
    Probed(Option<bool>),
    Requested(Option<RequestView>),
    Due,
    Written(bool),
    Read(Option<Seq<char>>),
    Shared,
}

impl View for RunAction {
    type V = RunActionView;

    open spec fn view(&self) -> RunActionView {
        match *self {
            RunAction::Probe { name, command } => RunActionView::Probe {
                name: name@,
                command: command@,
            },
            RunAction::Wait => RunActionView::Wait,
            RunAction::Write { command, text } => RunActionView::Write {
                command: command@,
                text: text@,
            },
            RunAction::Read { command } => RunActionView::Read { command: command@ },
            RunAction::Share { text } => RunActionView::Share { text: text@ },
            RunAction::End => RunActionView::End,
        }
    }
}

impl View for RunEvent {
    type V = RunEventView;

    open spec fn view(&self) -> RunEventView {
        match *self {
            RunEvent::Probed(exit) => RunEventView::Probed(exit),
            RunEvent::Requested(Some(request)) => RunEventView::Requested(Some(request@)),
            RunEvent::Requested(None) => RunEventView::Requested(None),
            RunEvent::Due => RunEventView::Due,
            RunEvent::Written(written) => RunEventView::Written(written),
            RunEvent::Read(Some(bytes)) => RunEventView::Read(Some(utf8_lossy(bytes@))),
            RunEvent::Read(None) => RunEventView::Read(None),
            RunEvent::Shared => RunEventView::Shared,
        }
    }
}

enum Phase {
    Searching(Detection),
    Waiting { tool: CliTool },
    Writing { tool: CliTool, text: String, generation: u64 },
    Reading { tool: CliTool },
    Sharing { tool: CliTool, text: String },
    Ended,
}

/// What the task is in the middle of.
pub enum PhaseView {
    Searching(DetectionView),
    Waiting { tool: ToolView },
    Writing { tool: ToolView, request: RequestView },
    Reading { tool: ToolView },
    Sharing { tool: ToolView, text: Seq<char> },
    Ended,
}

/// the state of the clipboard task
pub struct ClipboardRun {
    phase: Phase,
    memory: ClipboardTask,
}

/// What the task is in the middle of, and what it remembers of the clipboard.
pub struct RunView {
    pub phase: PhaseView,
    pub memory: TaskView,
}

impl View for ClipboardRun {
    type V = RunView;

    closed spec fn view(&self) -> RunView {
        RunView {
            phase: match self.phase {
                Phase::Searching(search) => PhaseView::Searching(search@),
                Phase::Waiting { tool } => PhaseView::Waiting { tool: tool@ },
                Phase::Writing { tool, text, generation } => PhaseView::Writing {
                    tool: tool@,
                    request: RequestView { text: text@, generation },
                },
                Phase::Reading { tool } => PhaseView::Reading { tool: tool@ },
                Phase::Sharing { tool, text } => PhaseView::Sharing { tool: tool@, text: text@ },
                Phase::Ended => PhaseView::Ended,
            },
            memory: self.memory@,
        }
    }
}

impl PhaseView {
    /// The search goes on as long as there is a candidate; without one the task ends.
    pub open spec fn searching(search: DetectionView) -> PhaseView {
        if search.candidate() is Some {
            PhaseView::Searching(search)
        } else {
            PhaseView::Ended
        }
    }
}

impl RunView {
    /// The task before the first probe.
    pub open spec fn start(candidates: Seq<ToolView>) -> RunView {
        RunView {
            phase: PhaseView::searching(DetectionView { candidates, next: 0 }),
            memory: TaskView { last_seen: None, last_set: None },
        }
    }

    /// True when a search that goes on has a candidate to probe.
    pub open spec fn wf(self) -> bool {
        self.phase matches PhaseView::Searching(search) ==> search.candidate() is Some
    }

    /// What the task is to do.
    pub open spec fn action(self) -> RunActionView {
        match self.phase {
            PhaseView::Searching(search) => match search.candidate() {
                Some(tool) => RunActionView::Probe { name: tool.name, command: tool.get.probe() },
                None => RunActionView::End,
            },
            PhaseView::Waiting { .. } => RunActionView::Wait,
            PhaseView::Writing { tool, request } => RunActionView::Write {
                command: tool.set,
                text: request.text,
            },
            PhaseView::Reading { tool } => RunActionView::Read { command: tool.get },
            PhaseView::Sharing { text, .. } => RunActionView::Share { text },
            PhaseView::Ended => RunActionView::End,
        }
    }

    /// The task, and the pending write, after an event. One that does not answer what the task is
    /// to do changes nothing.
    pub open spec fn step(self, event: RunEventView, pending: Option<u64>) -> (
        RunView,
        Option<u64>,
    ) {
        match (self.phase, event) {
            (PhaseView::Searching(search), RunEventView::Probed(exit)) => {
                let (search, found) = search.probed(exit);
                let phase = match found {
                    Some(tool) => PhaseView::Waiting { tool },
                    None => PhaseView::searching(search),
                };
                (RunView { phase, ..self }, pending)
            },
            (PhaseView::Waiting { tool }, RunEventView::Requested(request)) => {
                let phase = match request {
                    Some(request) => PhaseView::Writing { tool, request },
                    None => PhaseView::Ended,
                };
                (RunView { phase, ..self }, pending)
            },
            (PhaseView::Waiting { tool }, RunEventView::Due) => (
                RunView { phase: PhaseView::Reading { tool }, ..self },
                pending,
            ),
            (PhaseView::Writing { tool, request }, RunEventView::Written(written)) => (
                RunView {
                    phase: PhaseView::Waiting { tool },
                    memory: self.memory.applied(request.text, written),
                },
                pending_after(pending, request.generation),
            ),
            (PhaseView::Reading { tool }, RunEventView::Read(raw)) => {
                let (memory, action) = self.memory.polled(raw, pending);
                let phase = match action {
                    ActionView::Wait => PhaseView::Waiting { tool },
                    ActionView::Broadcast(text) => PhaseView::Sharing { tool, text },
                    ActionView::Stop => PhaseView::Ended,
                };
                (RunView { phase, memory }, pending)
            },
            (PhaseView::Sharing { tool, .. }, RunEventView::Shared) => (
                RunView { phase: PhaseView::Waiting { tool }, ..self },
                pending,
            ),
            _ => (self, pending),
        }
    }

    /// The task after a sequence of events; with each comes the write then pending.
    pub open spec fn run(self, events: Seq<(RunEventView, Option<u64>)>) -> RunView
        decreases events.len(),
    {
        if events.len() == 0 {
            self
        } else {
            self.run(events.drop_last()).step(events.last().0, events.last().1).0
        }
    }
}

/// continues the search, or ends the task if there is nothing left to probe
fn searching(search: Detection) -> (phase: Phase)
    ensures
        search@.candidate() is Some ==> phase == Phase::Searching(search),
        search@.candidate() is None ==> phase is Ended,
{
    if search.candidate().is_some() {
        Phase::Searching(search)
    } else {
        Phase::Ended
    }
}

impl ClipboardRun {
    /// starts the task, which is to use the first of the `candidates` that works
    pub fn start(candidates: Vec<CliTool>) -> (run: ClipboardRun)
        ensures
            run@ == RunView::start(tool_views(candidates@)),
            run@.wf(),
    {
        ClipboardRun {
            phase: searching(Detection::new(candidates)),
            memory: ClipboardTask::default(),
        }
    }

    /// what the task is to do
    pub fn action(&self) -> (action: RunAction)
        ensures
            action@ == self@.action(),
    {
        match &self.phase {
            Phase::Searching(search) => match search.candidate() {
                Some(tool) => RunAction::Probe { name: tool.name, command: tool.get.probe() },
                None => RunAction::End,
            },
            Phase::Waiting { .. } => RunAction::Wait,
            Phase::Writing { tool, text, .. } => RunAction::Write {
                command: tool.set,
                text: text.clone(),
            },
            Phase::Reading { tool } => RunAction::Read { command: tool.get },
            Phase::Sharing { text, .. } => RunAction::Share { text: text.clone() },
            Phase::Ended => RunAction::End,
        }
    }

    /// takes what came of the action
    pub fn step(self, event: RunEvent, pending_remote_write: &mut Option<u64>) -> (run:
        ClipboardRun)
        ensures
            (run@, *final(pending_remote_write)) == self@.step(event@, *old(pending_remote_write)),
            event matches RunEvent::Read(Some(bytes)) ==> (valid_utf8(bytes@) ==> run@
                == self@.step(
                RunEventView::Read(Some(decode_utf8(bytes@))),
                *old(pending_remote_write),
            ).0),
            self@.wf() ==> run@.wf(),
    {
        let mut memory: ClipboardTask = self.memory;
        let phase: Phase = match (self.phase, event) {
            (Phase::Searching(mut search), RunEvent::Probed(exit)) => match search.probed(exit) {
                Some(tool) => Phase::Waiting { tool },
                None => searching(search),
            },
            (Phase::Waiting { tool }, RunEvent::Requested(request)) => match request {
                Some(ClipboardRequest::SetText { text, generation }) => Phase::Writing {
                    tool,
                    text,
                    generation,
                },
                None => Phase::Ended,
            },
            (Phase::Waiting { tool }, RunEvent::Due) => Phase::Reading { tool },
            (Phase::Writing { tool, text, generation }, RunEvent::Written(written)) => {
                memory.applied(text, generation, written, pending_remote_write);
                Phase::Waiting { tool }
            },
            (Phase::Reading { tool }, RunEvent::Read(stdout)) => {
                let action: PollAction = match stdout {
                    Some(bytes) => memory.polled(Some(bytes.as_slice()), *pending_remote_write),
                    None => memory.polled(None, *pending_remote_write),
                };
                match action {
                    PollAction::Wait => Phase::Waiting { tool },
                    PollAction::Broadcast(text) => Phase::Sharing { tool, text },
                    PollAction::Stop => Phase::Ended,
                }
            },
            (Phase::Sharing { tool, .. }, RunEvent::Shared) => Phase::Waiting { tool },
            (phase, _) => phase,
        };
        ClipboardRun { phase, memory }
    }
}

/// An action is seen as what it asks for, an event as what it says; of what was read only the text
/// counts.
pub proof fn law_action_and_event_views(action: RunAction, event: RunEvent)
    ensures
        match action {
            RunAction::Probe { name, command } => action@ == (RunActionView::Probe {
                name: name@,
                command: command@,
            }),
            RunAction::Wait => action@ is Wait,
            RunAction::Write { command, text } => action@ == (RunActionView::Write {
                command: command@,
                text: text@,
            }),
            RunAction::Read { command } => action@ == (RunActionView::Read { command: command@ }),
            RunAction::Share { text } => action@ == (RunActionView::Share { text: text@ }),
            RunAction::End => action@ is End,
        },
        match event {
            RunEvent::Probed(exit) => event@ == RunEventView::Probed(exit),
            RunEvent::Requested(Some(request)) => event@ == RunEventView::Requested(Some(request@)),
            RunEvent::Requested(None) => event@ == RunEventView::Requested(None),
            RunEvent::Due => event@ is Due,
            RunEvent::Written(written) => event@ == RunEventView::Written(written),
            RunEvent::Read(Some(bytes)) => event@ == RunEventView::Read(Some(utf8_lossy(bytes@))),
            RunEvent::Read(None) => event@ == RunEventView::Read(None),
            RunEvent::Shared => event@ is Shared,
        },
{
}

/// An event that does not answer what the task is to do changes nothing: neither the task nor which
/// write is pending.
pub proof fn law_other_events_change_nothing(
    run: RunView,
    event: RunEventView,
    pending: Option<u64>,
)
    requires
        !(run.action() is Probe && event is Probed),
        !(run.action() is Wait && (event is Requested || event is Due)),
        !(run.action() is Write && event is Written),
        !(run.action() is Read && event is Read),
        !(run.action() is Share && event is Shared),
        run.wf(),
    ensures
        run.step(event, pending) == (run, pending),
{
}

/// A probe moves the search on: with success the task waits with the tool that was probed, without
/// the next candidate is probed, and after the last one the task ends. What the task remembers and
/// which write is pending stay the same.
pub proof fn law_probe_moves_on(
    run: RunView,
    search: DetectionView,
    exit: Option<bool>,
    pending: Option<u64>,
)
    requires
        run.phase == PhaseView::Searching(search),
        search.next < search.candidates.len(),
    ensures
        ({
            let (after, now_pending) = run.step(RunEventView::Probed(exit), pending);
            let tool = search.candidates[search.next as int];
            &&& run.action() == (RunActionView::Probe {
                name: tool.name,
                command: tool.get.probe(),
            })
            &&& now_pending == pending
            &&& after.memory == run.memory
            &&& exit == Some(true) ==> after.phase == (PhaseView::Waiting { tool })
            &&& exit != Some(true) && search.next + 1 < search.candidates.len() ==> after.phase
                == PhaseView::Searching(
                DetectionView { candidates: search.candidates, next: search.next + 1 },
            )
            &&& exit != Some(true) && search.next + 1 == search.candidates.len() ==> after.phase
                is Ended
        }),
{
}

/// The task starts with the probe of the first candidate and without any memory of the clipboard;
/// without a candidate it ends at once.
pub proof fn law_start(candidates: Seq<ToolView>)
    ensures
        ({
            let run = RunView::start(candidates);
            &&& run.wf()
            &&& run.memory.last_seen is None && run.memory.last_set is None
            &&& candidates.len() == 0 ==> run.phase is Ended
            &&& candidates.len() > 0 ==> run.phase == PhaseView::Searching(
                DetectionView { candidates, next: 0 },
            )
        }),
{
}

/// A poll never changes which write is pending, and neither does sharing.
pub proof fn law_polls_keep_pending(run: RunView, event: RunEventView, pending: Option<u64>)
    requires
        !(event is Written),
    ensures
        run.step(event, pending).1 == pending,
{
}

/// Once the task has ended, it does nothing more, whatever happens.
pub proof fn law_end_is_final(run: RunView, events: Seq<(RunEventView, Option<u64>)>)
    requires
        run.phase is Ended,
    ensures
        run.run(events) == run,
        run.action() is End,
        forall|event: RunEventView, pending: Option<u64>| #[trigger]
            run.step(event, pending) == (run, pending),
    decreases events.len(),
{
    if events.len() > 0 {
        law_end_is_final(run, events.drop_last());
    }
}

/// The task ends when the last candidate fails its probe, when there will be no more requests, and
/// when the clipboard cannot be read; nothing else ends it, not even a write that fails. An end
/// changes neither what the task remembers nor the pending write.
pub proof fn law_what_ends_the_task(run: RunView, event: RunEventView, pending: Option<u64>)
    requires
        run.wf(),
        !(run.phase is Ended),
    ensures
        run.step(event, pending).0.phase is Ended <==> {
            ||| run.phase matches PhaseView::Searching(search) && search.next + 1
                == search.candidates.len() && (event matches RunEventView::Probed(exit)
                && !probe_succeeded(exit))
            ||| run.phase is Waiting && event == RunEventView::Requested(None)
            ||| run.phase is Reading && event == RunEventView::Read(None)
        },
        run.step(event, pending).0.phase is Ended ==> run.step(event, pending) == (
            RunView { phase: PhaseView::Ended, ..run },
            pending,
        ),
{
}

/// How many probes there are among the events.
pub open spec fn probes(events: Seq<(RunEventView, Option<u64>)>) -> nat
    decreases events.len(),
{
    if events.len() == 0 {
        0
    } else {
        probes(events.drop_last()) + if events.last().0 is Probed {
            1nat
        } else {
            0
        }
    }
}

/// As long as every probe fails, the task does nothing but probe one candidate after the other,
/// and ends after the last: it reads, writes, shares and remembers nothing, and takes no request.
/// The first candidate whose probe succeeds is used.
pub proof fn law_search(
    candidates: Seq<ToolView>,
    events: Seq<(RunEventView, Option<u64>)>,
    pending: Option<u64>,
)
    requires
        forall|i: int|
            #![trigger events[i]]
            0 <= i < events.len() ==> (events[i].0 matches RunEventView::Probed(exit)
                ==> !probe_succeeded(exit)),
    ensures
        ({
            let run = RunView::start(candidates).run(events);
            let next = probes(events);
            &&& run.memory == (TaskView { last_seen: None, last_set: None })
            &&& next < candidates.len() ==> {
                &&& run.phase == PhaseView::Searching(DetectionView { candidates, next })
                &&& run.action() == (RunActionView::Probe {
                    name: candidates[next as int].name,
                    command: candidates[next as int].get.probe(),
                })
                &&& run.step(RunEventView::Probed(Some(true)), pending) == (
                    RunView {
                        phase: PhaseView::Waiting { tool: candidates[next as int] },
                        ..run
                    },
                    pending,
                )
            }
            &&& next >= candidates.len() ==> run.phase is Ended && run.action() is End
            &&& forall|event: RunEventView| (#[trigger] run.step(event, pending)).1 == pending
        }),
    decreases events.len(),
{
    if events.len() > 0 {
        let before = events.drop_last();
        assert forall|i: int| #![trigger before[i]] 0 <= i < before.len() implies (
        before[i].0 matches RunEventView::Probed(exit) ==> !probe_succeeded(exit)) by {
            assert(before[i] == events[i]);
        }
        law_search(candidates, before, pending);
        assert(events.last() == events[events.len() - 1]);
    }
}

/// A request that is received leads to the write of its text, word for word, with the tool in use.
/// Whether or not that can be run, the task then goes on; what it remembers and which write is
/// pending follow from the outcome.
pub proof fn law_request_is_written(
    run: RunView,
    request: RequestView,
    written: bool,
    pending: Option<u64>,
    pending_then: Option<u64>,
)
    requires
        run.phase is Waiting,
    ensures
        ({
            let tool = run.phase->Waiting_tool;
            let (writing, still_pending) = run.step(
                RunEventView::Requested(Some(request)),
                pending,
            );
            &&& still_pending == pending
            &&& writing.action() == (RunActionView::Write { command: tool.set, text: request.text })
            &&& writing.step(RunEventView::Written(written), pending_then) == (
                RunView { phase: run.phase, memory: run.memory.applied(request.text, written) },
                pending_after(pending_then, request.generation),
            )
        }),
{
}

/// A poll reads with the tool in use. If what was read is to be broadcast, it is shared before
/// anything else is done, if not, it is not shared; then the task waits again.
pub proof fn law_poll(
    run: RunView,
    raw: Seq<char>,
    pending: Option<u64>,
    pending_then: Option<u64>,
)
    requires
        run.phase is Waiting,
    ensures
        ({
            let tool = run.phase->Waiting_tool;
            let (memory, action) = run.memory.polled(Some(raw), pending_then);
            let reading = run.step(RunEventView::Due, pending).0;
            let read = reading.step(RunEventView::Read(Some(raw)), pending_then).0;
            &&& reading.action() == (RunActionView::Read { command: tool.get })
            &&& action matches ActionView::Broadcast(text) ==> read.action() == (
            RunActionView::Share { text }) && read.step(RunEventView::Shared, pending).0 == (
            RunView { phase: run.phase, memory })
            &&& !(action is Broadcast) ==> read == (RunView { phase: run.phase, memory })
        }),
{
}

/// While a remote write is pending, no event makes the task share a text.
pub proof fn law_pending_write_shares_nothing(
    run: RunView,
    event: RunEventView,
    generation: u64,
)
    ensures
        run.step(event, Some(generation)).0.phase is Sharing ==> run.step(
            event,
            Some(generation),
        ).0 == run,
{
}

/// Once a text of a peer has been written, the task never shares it, with whatever line breaks at
/// its end, until it has written another.
pub proof fn law_written_text_is_not_shared(
    run: RunView,
    pending: Option<u64>,
    events: Seq<(RunEventView, Option<u64>)>,
)
    requires
        run.phase is Writing,
        forall|i: int|
            #![trigger events[i]]
            0 <= i < events.len() ==> events[i].0 != RunEventView::Written(true),
    ensures
        ({
            let text = normalized(run.phase->Writing_request.text);
            let later = run.step(RunEventView::Written(true), pending).0.run(events);
            &&& later.memory.last_set == Some(text)
            &&& later.action() != (RunActionView::Share { text })
        }),
    decreases events.len(),
{
    if events.len() > 0 {
        let before = events.drop_last();
        assert forall|i: int| #![trigger before[i]] 0 <= i < before.len() implies before[i].0
            != RunEventView::Written(true) by {
            assert(before[i] == events[i]);
        }
        law_written_text_is_not_shared(run, pending, before);
        assert(events.last() == events[events.len() - 1]);
    }
}

} // verus!
