//! Keeping the local clipboard in step with the one of a peer.
//!
//! [`Clipboard`] is the side that peers write to, [`ClipboardTask`] the side that works with the
//! clipboard tool. Both know of the remote write that is pending: a write that has been queued
//! but has not yet become observable through the tool.
use local_channel::mpsc::Sender;
use vstd::prelude::*;
use vstd::utf8::{decode_utf8, encode_utf8, valid_utf8};

use crate::chunk::MAX_CLIPBOARD_SIZE;
use crate::text::{normalize, normalized, opt_text, string_from_utf8_lossy, utf8_lossy};

verus! {

/// clipboard text larger than this is never broadcast
pub const MAX_BROADCAST_SIZE: usize = 1024 * 1024;

#[derive(Debug)]
pub enum ClipboardEvent {
    /// the local clipboard changed, text should be shared with peers
    Changed(String),
    /// clipboard access is unavailable on this platform, syncing stopped
    Unavailable,
}

#[derive(Debug)]
pub enum ClipboardRequest {
    /// apply text received from a peer to the local clipboard
    SetText { text: String, generation: u64 },
}

/// What a [`ClipboardRequest`] asks for.
pub struct RequestView {
    pub text: Seq<char>,
    pub generation: u64,
}

impl View for ClipboardRequest {
    type V = RequestView;

    open spec fn view(&self) -> RequestView {
        match *self {
            ClipboardRequest::SetText { text, generation } => RequestView {
                text: text@,
                generation,
            },
        }
    }
}

/// The sending end of a channel.
#[verifier::external_type_specification]
#[verifier::external_body]
#[verifier::reject_recursive_types(T)]
pub struct ExSender<T>(local_channel::mpsc::Sender<T>);

/// The requests that the channel has taken from this sending end so far, in order.
pub uninterp spec fn requests_sent(tx: Sender<ClipboardRequest>) -> Seq<RequestView>;

/// The requests that the channel has refused to take from this sending end so far, in order.
pub uninterp spec fn requests_refused(tx: Sender<ClipboardRequest>) -> Seq<RequestView>;

/// True once the channel takes no more requests because this sending end has closed it.
pub uninterp spec fn requests_closed(tx: Sender<ClipboardRequest>) -> bool;

/// Calls [`Sender::send`], which puts `request` at the end of the channel's queue unless the
/// receiving end is gone or the channel is closed.
///
/// Claimed of it: the request is either taken, and put behind those taken before, or refused and
/// handed back, which leaves the queue as it is; a closed channel refuses every request. Whether a
/// channel that is not closed takes the request depends on its receiving end.
#[verifier::external_body]
fn send_request(tx: &mut Sender<ClipboardRequest>, request: ClipboardRequest) -> (taken: bool)
    ensures
        requests_sent(*final(tx)) == if taken {
            requests_sent(*old(tx)).push(request@)
        } else {
            requests_sent(*old(tx))
        },
        requests_refused(*final(tx)) == if taken {
            requests_refused(*old(tx))
        } else {
            requests_refused(*old(tx)).push(request@)
        },
        requests_closed(*final(tx)) == requests_closed(*old(tx)),
        requests_closed(*old(tx)) ==> !taken,
{
    tx.send(request).is_ok()
}

/// Calls [`Sender::close`], after which the channel takes no more requests.
///
/// Claimed of it: the channel is closed; it takes and refuses no request by that.
#[verifier::external_body]
fn close_requests(tx: &mut Sender<ClipboardRequest>)
    ensures
        requests_closed(*final(tx)),
        requests_sent(*final(tx)) == requests_sent(*old(tx)),
        requests_refused(*final(tx)) == requests_refused(*old(tx)),
{
    tx.close()
}

/// the side of the clipboard that takes text from peers
pub struct Clipboard {
    request_tx: Sender<ClipboardRequest>,
    disabled: bool,
    next_generation: u64,
}

/// What a [`Clipboard`] has done and knows: the requests that it has queued and those that it
/// offered in vain, whether more can be queued, whether it is switched off, and the number of the
/// latest write.
pub struct ClipboardView {
    pub sent: Seq<RequestView>,
    pub refused: Seq<RequestView>,
    pub closed: bool,
    pub disabled: bool,
    pub next_generation: u64,
}

impl View for Clipboard {
    type V = ClipboardView;

    closed spec fn view(&self) -> ClipboardView {
        ClipboardView {
            sent: requests_sent(self.request_tx),
            refused: requests_refused(self.request_tx),
            closed: requests_closed(self.request_tx),
            disabled: self.disabled,
            next_generation: self.next_generation,
        }
    }
}

/// The number of the write after the one numbered `generation`; the numbers wrap around.
pub open spec fn generation_after(generation: u64) -> u64 {
    if generation == u64::MAX {
        0
    } else {
        (generation + 1) as u64
    }
}

impl ClipboardView {
    /// The state, and the pending write, after a text was to be set: one request for it is offered
    /// to the channel, and `taken` says whether the channel took it.
    pub open spec fn set_text(self, text: Seq<char>, pending: Option<u64>, taken: bool) -> (
        ClipboardView,
        Option<u64>,
    ) {
        let generation = generation_after(self.next_generation);
        let request = RequestView { text, generation };
        if self.disabled {
            (self, pending)
        } else if taken {
            (
                ClipboardView {
                    sent: self.sent.push(request),
                    next_generation: generation,
                    ..self
                },
                Some(generation),
            )
        } else {
            (
                ClipboardView {
                    refused: self.refused.push(request),
                    next_generation: generation,
                    ..self
                },
                None,
            )
        }
    }
}

/// The pending write after the channel took or refused the request for it.
pub fn settle_request(pending: &mut Option<u64>, generation: u64, taken: bool)
    ensures
        *final(pending) == if taken {
            Some(generation)
        } else {
            None
        },
{
    *pending = if taken { Some(generation) } else { None };
}

impl Clipboard {
    /// a clipboard that queues its requests in `request_tx`
    pub fn new(request_tx: Sender<ClipboardRequest>) -> (clipboard: Clipboard)
        ensures
            clipboard@ == (ClipboardView {
                sent: requests_sent(request_tx),
                refused: requests_refused(request_tx),
                closed: requests_closed(request_tx),
                disabled: false,
                next_generation: 0,
            }),
    {
        Clipboard { request_tx, disabled: false, next_generation: 0 }
    }

    /// numbers the write of `text` and makes the request for it, unless the clipboard is disabled
    pub fn next_request(&mut self, text: String) -> (request: Option<ClipboardRequest>)
        ensures
            request is None <==> old(self)@.disabled,
            old(self)@.disabled ==> final(self)@ == old(self)@,
            request matches Some(request) ==> {
                &&& request@ == (RequestView {
                    text: text@,
                    generation: generation_after(old(self)@.next_generation),
                })
                &&& final(self)@ == (ClipboardView {
                    next_generation: generation_after(old(self)@.next_generation),
                    ..old(self)@
                })
            },
    {
        if self.disabled {
            return None;
        }
        let generation: u64 = self.next_generation.wrapping_add(1);
        self.next_generation = generation;
        Some(ClipboardRequest::SetText { text, generation })
    }

    /// queues the write of a text received from a peer
    pub fn set_text(&mut self, text: String, pending_remote_write: &mut Option<u64>)
        ensures
            exists|taken: bool|
                (final(self)@, *final(pending_remote_write)) == #[trigger] old(self)@.set_text(
                    text@,
                    *old(pending_remote_write),
                    taken,
                ) && (old(self)@.closed ==> !taken),
    {
        let ghost before = self@;
        let ghost was_pending = *pending_remote_write;
        let ghost words = text@;
        match self.next_request(text) {
            None => {
                proof {
                    assert((self@, *pending_remote_write) == before.set_text(
                        words,
                        was_pending,
                        false,
                    ));
                }
            },
            Some(request) => {
                let generation: u64 = self.next_generation;
                let taken = send_request(&mut self.request_tx, request);
                settle_request(pending_remote_write, generation, taken);
                proof {
                    assert((self@, *pending_remote_write) == before.set_text(
                        words,
                        was_pending,
                        taken,
                    ));
                }
            },
        }
    }

    /// takes what came from the task, nothing if the task has ended
    pub fn event(&mut self, received: Option<ClipboardEvent>) -> (event: ClipboardEvent)
        ensures
            received matches Some(e) ==> event == e && final(self)@ == old(self)@,
            received is None ==> event is Unavailable && final(self)@ == (ClipboardView {
                disabled: true,
                ..old(self)@
            }),
    {
        match received {
            Some(event) => event,
            None => {
                self.disabled = true;
                ClipboardEvent::Unavailable
            },
        }
    }

    /// stops taking text from peers
    pub fn close(&mut self)
        ensures
            final(self)@ == (ClipboardView { closed: true, ..old(self)@ }),
    {
        close_requests(&mut self.request_tx);
    }
}

/// the side of the clipboard that works with the tool
pub struct ClipboardTask {
    /// last text observed on the clipboard, normalized
    last_seen: Option<String>,
    /// last text applied from a remote peer, normalized
    last_set: Option<String>,
}

/// what to do after the clipboard was polled
#[derive(Debug)]
pub enum PollAction {
    /// wait for the next poll
    Wait,
    /// share the text with the peers, then wait for the next poll
    Broadcast(String),
    /// the clipboard cannot be read, stop polling
    Stop,
}

/// What a [`ClipboardTask`] remembers.
pub struct TaskView {
    pub last_seen: Option<Seq<char>>,
    pub last_set: Option<Seq<char>>,
}

/// What a [`PollAction`] says.
pub enum ActionView {
    Wait,
    Broadcast(Seq<char>),
    Stop,
}

impl View for ClipboardTask {
    type V = TaskView;

    closed spec fn view(&self) -> TaskView {
        TaskView { last_seen: opt_text(self.last_seen), last_set: opt_text(self.last_set) }
    }
}

impl View for PollAction {
    type V = ActionView;

    open spec fn view(&self) -> ActionView {
        match *self {
            PollAction::Wait => ActionView::Wait,
            PollAction::Broadcast(text) => ActionView::Broadcast(text@),
            PollAction::Stop => ActionView::Stop,
        }
    }
}

impl TaskView {
    /// The state, and what to do, after `raw` was read from the clipboard: a text is broadcast if
    /// it is new, was not applied from a peer, and is not too large.
    pub open spec fn observe(self, raw: Seq<char>) -> (TaskView, ActionView) {
        let text = normalized(raw);
        let seen = TaskView { last_seen: Some(text), ..self };
        if self.last_seen == Some(text) {
            (self, ActionView::Wait)
        } else if self.last_set == Some(text) || encode_utf8(text).len() > MAX_BROADCAST_SIZE {
            (seen, ActionView::Wait)
        } else {
            (seen, ActionView::Broadcast(text))
        }
    }

    /// The state, and what to do, after a poll: `raw` is what was read, nothing if reading failed.
    /// What was read while a remote write is pending may be stale and is discarded.
    pub open spec fn polled(self, raw: Option<Seq<char>>, pending: Option<u64>) -> (
        TaskView,
        ActionView,
    ) {
        match raw {
            None => (self, ActionView::Stop),
            Some(raw) => if pending is Some {
                (self, ActionView::Wait)
            } else {
                self.observe(raw)
            },
        }
    }

    /// The state after an attempt to apply a text of a peer. The text is remembered as it compares
    /// to what is read back.
    pub open spec fn applied(self, text: Seq<char>, written: bool) -> TaskView {
        if written {
            TaskView { last_seen: Some(normalized(text)), last_set: Some(normalized(text)) }
        } else {
            self
        }
    }

    /// The state after a sequence of polls; each is what was read and the write then pending.
    pub open spec fn run(self, polls: Seq<(Option<Seq<char>>, Option<u64>)>) -> TaskView
        decreases polls.len(),
    {
        if polls.len() == 0 {
            self
        } else {
            self.run(polls.drop_last()).polled(polls.last().0, polls.last().1).0
        }
    }
}

/// The pending write after an attempt to perform the one numbered `generation`.
pub open spec fn pending_after(pending: Option<u64>, generation: u64) -> Option<u64> {
    if pending == Some(generation) {
        None
    } else {
        pending
    }
}

/// True when the two texts are the same, which they are not if one is missing.
fn is_text(text: &Option<String>, other: &String) -> (same: bool)
    ensures
        same == (opt_text(*text) == Some(other@)),
{
    match text {
        Some(text) => *text == *other,
        None => false,
    }
}

impl Default for ClipboardTask {
    fn default() -> (task: ClipboardTask)
        ensures
            task@ == (TaskView { last_seen: None, last_set: None }),
    {
        ClipboardTask { last_seen: None, last_set: None }
    }
}

impl ClipboardTask {
    /// takes the outcome of writing `text`, which the write numbered `generation` asked for
    pub fn applied(
        &mut self,
        text: String,
        generation: u64,
        written: bool,
        pending_remote_write: &mut Option<u64>,
    )
        ensures
            final(self)@ == old(self)@.applied(text@, written),
            *final(pending_remote_write) == pending_after(*old(pending_remote_write), generation),
    {
        if written {
            let text: String = normalize(text);
            self.last_set = Some(text.clone());
            self.last_seen = Some(text);
        }
        if let Some(pending) = *pending_remote_write {
            if pending == generation {
                *pending_remote_write = None;
            }
        }
    }

    /// takes the text that was read from the clipboard
    pub fn observe(&mut self, raw: String) -> (action: PollAction)
        ensures
            (final(self)@, action@) == old(self)@.observe(raw@),
    {
        let text: String = normalize(raw);
        if is_text(&self.last_seen, &text) {
            return PollAction::Wait;
        }
        self.last_seen = Some(text.clone());
        // suppress the echo of a text we applied ourselves
        if is_text(&self.last_set, &text) {
            return PollAction::Wait;
        }
        if text.as_str().as_bytes().len() > MAX_BROADCAST_SIZE {
            return PollAction::Wait;
        }
        PollAction::Broadcast(text)
    }

    /// takes the outcome of a poll: the output of the tool, nothing if it could not be run
    pub fn polled(
        &mut self,
        stdout: Option<&[u8]>,
        pending_remote_write: Option<u64>,
    ) -> (action: PollAction)
        ensures
            (final(self)@, action@) == old(self)@.polled(
                match stdout {
                    Some(bytes) => Some(utf8_lossy(bytes@)),
                    None => None,
                },
                pending_remote_write,
            ),
            stdout matches Some(bytes) ==> (pending_remote_write is None && valid_utf8(bytes@)
                ==> (final(self)@, action@) == old(self)@.observe(decode_utf8(bytes@))),
    {
        match stdout {
            None => PollAction::Stop,
            Some(bytes) => {
                // The tool may have started before the
                // remote write was queued. Its output is stale in
                // that case; dropping it prevents a feedback loop.
                if pending_remote_write.is_some() {
                    return PollAction::Wait;
                }
                self.observe(string_from_utf8_lossy(bytes))
            },
        }
    }
}

/// What a poll finds is shared whenever it should be: if no remote write is pending, and the text
/// without the line breaks at its end is neither the one seen last nor the one that a peer set
/// last, and takes at most 1 MiB, then that text is broadcast.
pub proof fn law_new_text_is_shared(task: TaskView, raw: Seq<char>)
    requires
        task.last_seen != Some(normalized(raw)),
        task.last_set != Some(normalized(raw)),
        encode_utf8(normalized(raw)).len() <= 0x10_0000,
    ensures
        task.polled(Some(raw), None).1 == ActionView::Broadcast(normalized(raw)),
        task.observe(raw).1 == ActionView::Broadcast(normalized(raw)),
{
}

/// What a poll finds is not shared when it should not be, and is remembered either way: a text
/// that was seen last, was set last by a peer or takes more than 1 MiB makes the task wait. A text
/// that is read never stops it, and never changes which text a peer set last.
pub proof fn law_observed_text(task: TaskView, raw: Seq<char>)
    ensures
        task.observe(raw).0.last_seen == Some(normalized(raw)),
        task.observe(raw).0.last_set == task.last_set,
        task.last_seen == Some(normalized(raw)) ==> task.observe(raw).1 is Wait,
        task.last_set == Some(normalized(raw)) ==> task.observe(raw).1 is Wait,
        encode_utf8(normalized(raw)).len() > 0x10_0000 ==> task.observe(raw).1 is Wait,
        !(task.observe(raw).1 is Stop),
{
}

/// A poll stops the task if and only if nothing could be read, and does so whether or not a remote
/// write is pending; with a write pending what was read is dropped; otherwise it is observed.
pub proof fn law_poll_outcomes(task: TaskView, raw: Option<Seq<char>>, pending: Option<u64>)
    ensures
        task.polled(raw, pending).1 is Stop <==> raw is None,
        raw is None ==> task.polled(raw, pending).0 == task,
        raw is Some && pending is Some ==> task.polled(raw, pending).0 == task && task.polled(
            raw,
            pending,
        ).1 is Wait,
        raw is Some && pending is None ==> task.polled(raw, pending) == task.observe(raw->0),
{
}

/// A text of a peer that was written counts as seen and as set by a peer, both without the line
/// breaks at its end; one that was not written counts as neither.
pub proof fn law_applied_text(task: TaskView, text: Seq<char>)
    ensures
        task.applied(text, true).last_seen == Some(normalized(text)),
        task.applied(text, true).last_set == Some(normalized(text)),
        task.applied(text, false).last_seen == task.last_seen,
        task.applied(text, false).last_set == task.last_set,
{
}

/// An action is seen as what it says, a request as what it asks for.
pub proof fn law_action_and_request_views(action: PollAction, request: ClipboardRequest)
    ensures
        match action {
            PollAction::Wait => action@ is Wait,
            PollAction::Broadcast(text) => action@ == ActionView::Broadcast(text@),
            PollAction::Stop => action@ is Stop,
        },
        request matches ClipboardRequest::SetText { text, generation } ==> request@.text == text@
            && request@.generation == generation,
{
}

/// Performing a write settles it if it is the one that is pending, and leaves any other pending.
pub proof fn law_settled(pending: Option<u64>, generation: u64)
    ensures
        pending == Some(generation) ==> pending_after(pending, generation) is None,
        pending != Some(generation) ==> pending_after(pending, generation) == pending,
{
}

/// A text to set is offered once, word for word, with the number after the latest one, where 0
/// follows the largest. If the channel takes it, it is queued behind the others and pending under
/// that number; if not, nothing is pending. A clipboard that is switched off does nothing.
pub proof fn law_text_is_offered(
    clipboard: ClipboardView,
    text: Seq<char>,
    pending: Option<u64>,
    taken: bool,
)
    ensures
        ({
            let (after, now_pending) = clipboard.set_text(text, pending, taken);
            let number = (clipboard.next_generation + 1) % 0x1_0000_0000_0000_0000;
            &&& clipboard.disabled ==> after == clipboard && now_pending == pending
            &&& !clipboard.disabled ==> {
                &&& after.next_generation == number
                &&& generation_after(clipboard.next_generation) == number
                &&& after.closed == clipboard.closed && !after.disabled
                &&& taken ==> {
                    &&& after.sent.len() == clipboard.sent.len() + 1
                    &&& after.sent.drop_last() == clipboard.sent
                    &&& after.sent.last().text == text
                    &&& after.sent.last().generation == number
                    &&& after.refused == clipboard.refused
                    &&& now_pending is Some && now_pending->0 == number
                }
                &&& !taken ==> {
                    &&& after.refused.len() == clipboard.refused.len() + 1
                    &&& after.refused.drop_last() == clipboard.refused
                    &&& after.refused.last().text == text
                    &&& after.refused.last().generation == number
                    &&& after.sent == clipboard.sent
                    &&& now_pending is None
                }
            }
        }),
{
    let after = clipboard.set_text(text, pending, taken).0;
    if !clipboard.disabled && taken {
        assert(after.sent.drop_last() =~= clipboard.sent);
    }
    if !clipboard.disabled && !taken {
        assert(after.refused.drop_last() =~= clipboard.refused);
    }
}

/// While a remote write is pending, a poll neither shares nor remembers anything.
pub proof fn law_pending_write_silences_polls(
    task: TaskView,
    raw: Option<Seq<char>>,
    generation: u64,
)
    ensures
        task.polled(raw, Some(generation)).0 == task,
        !(task.polled(raw, Some(generation)).1 is Broadcast),
{
}

/// Whatever is shared is normalized, small enough to be transferred, new, and not the text that a
/// peer set last.
pub proof fn law_broadcast(task: TaskView, raw: Option<Seq<char>>, pending: Option<u64>)
    ensures
        task.polled(raw, pending).1 matches ActionView::Broadcast(text) ==> {
            &&& pending is None
            &&& raw is Some
            &&& text == normalized(raw->0)
            &&& encode_utf8(text).len() <= MAX_CLIPBOARD_SIZE
            &&& task.last_seen != Some(text)
            &&& task.last_set != Some(text)
            &&& task.polled(raw, pending).0.last_seen == Some(text)
        },
{
}

/// Reading the same text again, with whatever line breaks at its end, shares nothing more.
pub proof fn law_broadcast_once(task: TaskView, raw: Seq<char>, again: Seq<char>)
    requires
        normalized(again) == normalized(raw),
    ensures
        task.observe(raw).0.observe(again) == (task.observe(raw).0, ActionView::Wait),
{
}

/// Polls do not change which text a peer set last.
proof fn lemma_run_keeps_last_set(
    task: TaskView,
    polls: Seq<(Option<Seq<char>>, Option<u64>)>,
)
    ensures
        task.run(polls).last_set == task.last_set,
    decreases polls.len(),
{
    if polls.len() > 0 {
        lemma_run_keeps_last_set(task, polls.drop_last());
    }
}

/// A text that was applied for a peer is never sent back, not even without the line breaks at its
/// end: whatever is polled after it, no poll shares it until another one is applied.
pub proof fn law_no_echo(
    task: TaskView,
    text: Seq<char>,
    polls: Seq<(Option<Seq<char>>, Option<u64>)>,
    raw: Option<Seq<char>>,
    pending: Option<u64>,
)
    ensures
        task.applied(text, true).run(polls).polled(raw, pending).1 != ActionView::Broadcast(
            normalized(text),
        ),
{
    lemma_run_keeps_last_set(task.applied(text, true), polls);
}

/// Right after a text was applied for a peer, reading it back, with whatever line breaks the tool
/// adds or removes at its end, shares nothing.
pub proof fn law_applied_text_is_not_news(task: TaskView, text: Seq<char>, raw: Seq<char>)
    requires
        normalized(raw) == normalized(text),
    ensures
        task.applied(text, true).observe(raw) == (task.applied(text, true), ActionView::Wait),
{
}

/// A write that fails leaves no trace.
pub proof fn law_failed_write(task: TaskView, text: Seq<char>)
    ensures
        task.applied(text, false) == task,
{
}

/// Two writes in a row have different numbers; performing the earlier one does not settle the
/// later one, performing the later one does.
pub proof fn law_latest_write_stays_pending(
    clipboard: ClipboardView,
    first: Seq<char>,
    second: Seq<char>,
    pending: Option<u64>,
)
    requires
        !clipboard.disabled,
    ensures
        ({
            let (after_first, pending_first) = clipboard.set_text(first, pending, true);
            let (after_second, pending_second) = after_first.set_text(
                second,
                pending_first,
                true,
            );
            &&& pending_first is Some && pending_second is Some
            &&& pending_first != pending_second
            &&& after_second.sent == clipboard.sent.push(
                RequestView { text: first, generation: pending_first->0 },
            ).push(RequestView { text: second, generation: pending_second->0 })
            &&& pending_after(pending_second, pending_first->0) == pending_second
            &&& pending_after(pending_second, pending_second->0) is None
        }),
{
}

/// Once the task has ended, no text of a peer is queued any more.
pub proof fn law_disabled_stays_silent(
    clipboard: ClipboardView,
    text: Seq<char>,
    pending: Option<u64>,
    taken: bool,
)
    requires
        clipboard.disabled,
    ensures
        clipboard.set_text(text, pending, taken) == (clipboard, pending),
{
}

} // verus!
