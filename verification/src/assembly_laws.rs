//! What splitting a text and assembling its chunks promise together.
use vstd::prelude::*;
use vstd::utf8::{decode_utf8, encode_utf8, valid_utf8};

use crate::assembly::{
    assembly_error_text, outcome_view, AssemblyView, ClipboardAssemblyError, Outcome,
};
use crate::chunk::{
    chunk_data, law_chunk_count, law_text_chunks, text_chunks, ChunkView, CLIPBOARD_CHUNK_SIZE,
    MAX_CLIPBOARD_SIZE,
};
use crate::event::{decode_event, EventView, ProtocolError};
use crate::event_laws::law_decode_encoding;
use crate::text::decimal;

verus! {

impl AssemblyView {
    /// The state after a sequence of chunks.
    pub open spec fn run(self, chunks: Seq<ChunkView>) -> AssemblyView
        decreases chunks.len(),
    {
        if chunks.len() == 0 {
            self
        } else {
            self.run(chunks.drop_last()).step(chunks.last()).0
        }
    }

    /// What the chunk at position `k` of a sequence of chunks leads to.
    pub open spec fn outcome_at(self, chunks: Seq<ChunkView>, k: int) -> Outcome {
        self.run(chunks.take(k)).step(chunks[k]).1
    }
}

/// Running through one chunk more is one step more.
proof fn lemma_run_next(state: AssemblyView, chunks: Seq<ChunkView>, k: int)
    requires
        0 <= k < chunks.len(),
    ensures
        state.run(chunks.take(k + 1)) == state.run(chunks.take(k)).step(chunks[k]).0,
{
    assert(chunks.take(k + 1).drop_last() =~= chunks.take(k));
    assert(chunks.take(k + 1).last() == chunks[k]);
}

/// The payloads of one chunk more are those before and its own.
proof fn lemma_chunk_data_push(chunks: Seq<ChunkView>, chunk: ChunkView)
    ensures
        chunk_data(chunks.push(chunk)) == chunk_data(chunks) + chunk.data,
    decreases chunks.len(),
{
    reveal_with_fuel(chunk_data, 2);
    let more = chunks.push(chunk);
    if chunks.len() == 0 {
        assert(more.drop_first() =~= seq![]);
        assert(chunk_data(more) =~= chunk_data(chunks) + chunk.data);
    } else {
        lemma_chunk_data_push(chunks.drop_first(), chunk);
        assert(more.drop_first() =~= chunks.drop_first().push(chunk));
        assert(chunk_data(more) =~= chunk_data(chunks) + chunk.data);
    }
}

/// The payloads of a prefix are no longer than those of the whole.
proof fn lemma_chunk_data_prefix(chunks: Seq<ChunkView>, k: int)
    requires
        0 <= k <= chunks.len(),
    ensures
        chunk_data(chunks.take(k)).len() <= chunk_data(chunks).len(),
        k < chunks.len() ==> chunk_data(chunks.take(k + 1)) == chunk_data(chunks.take(k))
            + chunks[k].data,
    decreases chunks.len() - k,
{
    if k < chunks.len() {
        lemma_chunk_data_prefix(chunks, k + 1);
        assert(chunks.take(k + 1) =~= chunks.take(k).push(chunks[k]));
        lemma_chunk_data_push(chunks.take(k), chunks[k]);
    } else {
        assert(chunks.take(k) =~= chunks);
    }
}

/// Every chunk keeps what holds of every assembly.
pub proof fn law_step_keeps_wf(state: AssemblyView, chunk: ChunkView)
    requires
        state.wf(),
    ensures
        state.step(chunk).0.wf(),
{
}

/// However many chunks of whatever kind arrive, an assembly never holds more than
/// [`MAX_CLIPBOARD_SIZE`] bytes.
pub proof fn law_bounded(state: AssemblyView, chunks: Seq<ChunkView>)
    requires
        state.wf(),
    ensures
        state.run(chunks).wf(),
        state.run(chunks).buf.len() <= MAX_CLIPBOARD_SIZE,
    decreases chunks.len(),
{
    if chunks.len() > 0 {
        law_bounded(state, chunks.drop_last());
    }
}

/// After an error, and after a complete text, no transfer is under way.
pub proof fn law_end_resets(state: AssemblyView, chunk: ChunkView)
    ensures
        state.step(chunk).1 is Err ==> state.step(chunk).0 == AssemblyView::idle(),
        state.step(chunk).1 matches Ok(Some(_)) ==> state.step(chunk).0 == AssemblyView::idle(),
        state.step(chunk).0 != AssemblyView::idle() <==> state.step(chunk).1 == Ok::<
            Option<Seq<char>>,
            ClipboardAssemblyError,
        >(None),
{
}

/// A chunk of another transfer is met as if no transfer were under way.
pub proof fn law_new_transfer_starts_afresh(state: AssemblyView, chunk: ChunkView)
    requires
        state.transfer != Some(chunk.transfer),
    ensures
        state.step(chunk) == AssemblyView::idle().step(chunk),
{
}

/// A chunk of another transfer drops the one under way: none of its later chunks is accepted after
/// it.
pub proof fn law_interruption_drops_transfer(
    state: AssemblyView,
    other: ChunkView,
    later: ChunkView,
)
    requires
        other.transfer != later.transfer,
        later.index > 0,
    ensures
        state.step(other).0.step(later).0 == AssemblyView::idle(),
        later.data.len() <= CLIPBOARD_CHUNK_SIZE ==> state.step(other).0.step(later).1 == Err::<
            Option<Seq<char>>,
            ClipboardAssemblyError,
        >(ClipboardAssemblyError::OutOfOrder),
{
}

/// What a call of `handle` returned is seen as it is, with the text that it delivered.
pub proof fn law_outcome_view(result: Result<Option<String>, ClipboardAssemblyError>)
    ensures
        match result {
            Ok(None) => outcome_view(result) == Ok::<Option<Seq<char>>, ClipboardAssemblyError>(
                None,
            ),
            Ok(Some(text)) => outcome_view(result) == Ok::<
                Option<Seq<char>>,
                ClipboardAssemblyError,
            >(Some(text@)),
            Err(error) => outcome_view(result) == Err::<Option<Seq<char>>, ClipboardAssemblyError>(
                error,
            ),
        },
{
}

/// How an assembly is while no transfer is under way.
pub proof fn law_idle(state: AssemblyView)
    ensures
        AssemblyView::idle().transfer is None,
        AssemblyView::idle().next_index == 0,
        AssemblyView::idle().buf.len() == 0,
        state.wf() ==> state.buf.len() <= 0x10_0000,
        state.wf() && state.transfer is None ==> state.next_index == 0 && state.buf.len() == 0,
{
}

/// What a chunk leads to. A chunk is expected to carry the number of the chunks that its transfer
/// has given so far, which is 0 if another transfer or none is under way; `held` is what these
/// have given. Each error comes on exactly the chunks named here, and on all others none does.
pub proof fn law_next_chunk(
    state: AssemblyView,
    chunk: ChunkView,
    expected: nat,
    held: Seq<u8>,
    after: AssemblyView,
    outcome: Outcome,
)
    requires
        state.transfer == Some(chunk.transfer) ==> expected == state.next_index && held
            == state.buf,
        state.transfer != Some(chunk.transfer) ==> expected == 0 && held == Seq::<u8>::empty(),
        state.step(chunk) == (after, outcome),
    ensures
        outcome == Err::<Option<Seq<char>>, ClipboardAssemblyError>(
            ClipboardAssemblyError::ChunkTooLarge,
        ) <==> chunk.data.len() > 1024,
        outcome == Err::<Option<Seq<char>>, ClipboardAssemblyError>(
            ClipboardAssemblyError::OutOfOrder,
        ) <==> chunk.data.len() <= 1024 && chunk.index != expected,
        outcome == Err::<Option<Seq<char>>, ClipboardAssemblyError>(
            ClipboardAssemblyError::TransferTooLarge,
        ) <==> chunk.data.len() <= 1024 && chunk.index == expected && held.len() + chunk.data.len()
            > 0x10_0000,
        outcome == Err::<Option<Seq<char>>, ClipboardAssemblyError>(
            ClipboardAssemblyError::InvalidUtf8,
        ) <==> chunk.data.len() <= 1024 && chunk.index == expected && held.len() + chunk.data.len()
            <= 0x10_0000 && chunk.last && !valid_utf8(held + chunk.data),
        outcome is Ok ==> (outcome->Ok_0 is Some <==> chunk.last),
        outcome matches Ok(Some(text)) ==> text == decode_utf8(held + chunk.data)
            && encode_utf8(text) == held + chunk.data,
        outcome == Ok::<Option<Seq<char>>, ClipboardAssemblyError>(None) ==> after.transfer == Some(
            chunk.transfer,
        ) && after.next_index == expected + 1 && after.buf == held + chunk.data,
        outcome != Ok::<Option<Seq<char>>, ClipboardAssemblyError>(None) ==> after.transfer is None
            && after.next_index == 0 && after.buf.len() == 0,
{
    assert(state.joined(chunk.transfer).buf =~= held);
    if outcome is Ok && chunk.last {
        vstd::utf8::decode_utf8_encode_utf8(held + chunk.data);
    }
}

/// Whatever bytes are cut into pieces of at most 1024 bytes, 1 MiB at most in all, and fed as the
/// chunks of one transfer, numbered from 0 on and the last marked as such: no chunk before the last
/// delivers anything, and the last delivers the text that the bytes encode, or the error if they
/// encode none. Then no transfer is under way. `states` are the assembly before the first chunk
/// and after each, `outcomes` what each chunk led to.
pub proof fn law_any_pieces(
    states: Seq<AssemblyView>,
    outcomes: Seq<Outcome>,
    chunks: Seq<ChunkView>,
    transfer: u32,
    bytes: Seq<u8>,
    cuts: Seq<int>,
)
    requires
        1 <= chunks.len() <= 0x1_0000_0000,
        bytes.len() <= 0x10_0000,
        cuts.len() == chunks.len() + 1,
        cuts[0] == 0,
        cuts[chunks.len() as int] == bytes.len(),
        forall|k: int|
            #![trigger chunks[k]]
            0 <= k < chunks.len() ==> {
                &&& 0 <= cuts[k] <= cuts[k + 1] <= bytes.len()
                &&& cuts[k + 1] - cuts[k] <= 1024
                &&& chunks[k].transfer == transfer
                &&& chunks[k].index == k
                &&& (chunks[k].last <==> k == chunks.len() - 1)
                &&& chunks[k].data == bytes.subrange(cuts[k], cuts[k + 1])
            },
        states.len() == chunks.len() + 1,
        outcomes.len() == chunks.len(),
        states[0].transfer != Some(transfer),
        forall|k: int|
            #![trigger chunks[k]]
            0 <= k < chunks.len() ==> states[k].step(chunks[k]) == (states[k + 1], outcomes[k]),
    ensures
        forall|k: int|
            0 <= k < chunks.len() - 1 ==> #[trigger] outcomes[k] == Ok::<
                Option<Seq<char>>,
                ClipboardAssemblyError,
            >(None),
        valid_utf8(bytes) ==> outcomes.last() == Ok::<Option<Seq<char>>, ClipboardAssemblyError>(
            Some(decode_utf8(bytes)),
        ),
        !valid_utf8(bytes) ==> outcomes.last() == Err::<Option<Seq<char>>, ClipboardAssemblyError>(
            ClipboardAssemblyError::InvalidUtf8,
        ),
        states.last().transfer is None,
        states.last().next_index == 0,
        states.last().buf.len() == 0,
{
    let n = chunks.len() as int;
    assert forall|k: int| 0 <= k < n implies #[trigger] fed_in_pieces(
        states,
        outcomes,
        chunks,
        transfer,
        bytes,
        cuts,
        k,
    ) by {
        assert(chunks[k].transfer == transfer);
    }
    assert forall|k: int| 0 <= k < n - 1 implies #[trigger] outcomes[k] == Ok::<
        Option<Seq<char>>,
        ClipboardAssemblyError,
    >(None) by {
        lemma_pieces(states, outcomes, chunks, transfer, bytes, cuts, k + 1);
    }
    lemma_pieces(states, outcomes, chunks, transfer, bytes, cuts, n - 1);
    let state = states[n - 1];
    let chunk = chunks[n - 1];
    assert(state.joined(transfer).buf + chunk.data =~= bytes);
    assert(state.step(chunk) == (states[n], outcomes[n - 1]));
}

/// True when `chunks` carry the pieces of `bytes` between neighbouring `cuts`, and are fed one
/// after the other.
spec fn fed_in_pieces(
    states: Seq<AssemblyView>,
    outcomes: Seq<Outcome>,
    chunks: Seq<ChunkView>,
    transfer: u32,
    bytes: Seq<u8>,
    cuts: Seq<int>,
    k: int,
) -> bool {
    &&& 0 <= cuts[k] <= cuts[k + 1] <= bytes.len()
    &&& cuts[k + 1] - cuts[k] <= 1024
    &&& chunks[k].transfer == transfer
    &&& chunks[k].index == k
    &&& (chunks[k].last <==> k == chunks.len() - 1)
    &&& chunks[k].data == bytes.subrange(cuts[k], cuts[k + 1])
    &&& states[k].step(chunks[k]) == (states[k + 1], outcomes[k])
}

/// How far the pieces have come.
proof fn lemma_pieces(
    states: Seq<AssemblyView>,
    outcomes: Seq<Outcome>,
    chunks: Seq<ChunkView>,
    transfer: u32,
    bytes: Seq<u8>,
    cuts: Seq<int>,
    k: int,
)
    requires
        0 <= k < chunks.len() <= 0x1_0000_0000,
        bytes.len() <= 0x10_0000,
        cuts[0] == 0,
        forall|j: int|
            0 <= j < chunks.len() ==> #[trigger] fed_in_pieces(
                states,
                outcomes,
                chunks,
                transfer,
                bytes,
                cuts,
                j,
            ),
        states[0].transfer != Some(transfer),
    ensures
        0 <= cuts[k] <= bytes.len(),
        states[k].joined(transfer) == (AssemblyView {
            transfer: Some(transfer),
            next_index: k as nat,
            buf: bytes.take(cuts[k]),
        }),
        k > 0 ==> outcomes[k - 1] == Ok::<Option<Seq<char>>, ClipboardAssemblyError>(None),
    decreases k,
{
    assert(fed_in_pieces(states, outcomes, chunks, transfer, bytes, cuts, k));
    if k == 0 {
        assert(bytes.take(0) =~= seq![]);
    } else {
        lemma_pieces(states, outcomes, chunks, transfer, bytes, cuts, k - 1);
        assert(fed_in_pieces(states, outcomes, chunks, transfer, bytes, cuts, k - 1));
        let chunk = chunks[k - 1];
        assert(bytes.take(cuts[k - 1]) + chunk.data =~= bytes.take(cuts[k]));
        assert(states[k - 1].step(chunk) == (states[k], outcomes[k - 1]));
    }
}

/// The only chunk that must not be handled is one that would continue a transfer behind the last
/// number there is.
pub proof fn law_can_count(state: AssemblyView, chunk: ChunkView)
    requires
        state.wf(),
        state.next_index <= u32::MAX,
    ensures
        !state.can_count(chunk) <==> state.transfer == Some(chunk.transfer) && state.next_index
            == u32::MAX && chunk.index == u32::MAX && !chunk.last && chunk.data.len() <= 1024
            && state.buf.len() + chunk.data.len() <= 0x10_0000,
{
}

/// How each error is described.
pub proof fn law_assembly_error_descriptions()
    ensures
        assembly_error_text(ClipboardAssemblyError::ChunkTooLarge) == "clipboard chunk exceeds `"@
            + decimal(1024) + "` bytes"@,
        assembly_error_text(ClipboardAssemblyError::OutOfOrder)
            == "out of order clipboard chunk, dropping transfer"@,
        assembly_error_text(ClipboardAssemblyError::TransferTooLarge)
            == "clipboard transfer exceeds `"@ + decimal(0x10_0000)
            + "` bytes, dropping transfer"@,
        assembly_error_text(ClipboardAssemblyError::InvalidUtf8)
            == "clipboard text is not valid UTF-8"@,
{
}

/// Each chunk of a text fits a datagram and is the same after it was encoded and decoded.
pub proof fn law_chunks_survive_the_wire(transfer: u32, text: Seq<char>, k: int, rest: Seq<u8>)
    requires
        0 <= k < text_chunks(transfer, text).len(),
    ensures
        ({
            let event = EventView::Clipboard(text_chunks(transfer, text)[k]);
            &&& event.fits()
            &&& decode_event(event.encoding() + rest) == Ok::<EventView, ProtocolError>(event)
        }),
{
    law_text_chunks(transfer, text);
    law_decode_encoding(EventView::Clipboard(text_chunks(transfer, text)[k]), rest);
}

/// How the chunks of a text are collected, as long as they fit.
proof fn lemma_collecting(state: AssemblyView, transfer: u32, text: Seq<char>, k: int)
    requires
        state.transfer != Some(transfer),
        text_chunks(transfer, text).len() <= 0x1_0000_0000,
        0 <= k < text_chunks(transfer, text).len(),
        chunk_data(text_chunks(transfer, text).take(k)).len() <= MAX_CLIPBOARD_SIZE,
    ensures
        state.run(text_chunks(transfer, text).take(k)).joined(transfer) == (AssemblyView {
            transfer: Some(transfer),
            next_index: k as nat,
            buf: chunk_data(text_chunks(transfer, text).take(k)),
        }),
        forall|j: int|
            0 <= j < k ==> #[trigger] state.outcome_at(text_chunks(transfer, text), j) == Ok::<
                Option<Seq<char>>,
                ClipboardAssemblyError,
            >(None),
    decreases k,
{
    let chunks = text_chunks(transfer, text);
    law_text_chunks(transfer, text);
    if k == 0 {
        assert(chunks.take(0) =~= seq![]);
    } else {
        lemma_chunk_data_prefix(chunks, k - 1);
        lemma_collecting(state, transfer, text, k - 1);
        lemma_run_next(state, chunks, k - 1);
        let before = state.run(chunks.take(k - 1));
        let chunk = chunks[k - 1];
        assert(before.joined(transfer).buf + chunk.data == chunk_data(chunks.take(k)));
    }
}

/// A text of at most [`MAX_CLIPBOARD_SIZE`] bytes that is split and fed chunk by chunk to any
/// assembly not yet busy with a transfer of the same id comes out again, with the last chunk and
/// not before; then no transfer is under way.
pub proof fn law_reassembly(state: AssemblyView, transfer: u32, text: Seq<char>)
    requires
        state.transfer != Some(transfer),
        encode_utf8(text).len() <= MAX_CLIPBOARD_SIZE,
    ensures
        ({
            let chunks = text_chunks(transfer, text);
            let n = chunks.len();
            &&& n <= 0x1_0000_0000
            &&& forall|k: int|
                0 <= k < n - 1 ==> #[trigger] state.outcome_at(chunks, k) == Ok::<
                    Option<Seq<char>>,
                    ClipboardAssemblyError,
                >(None)
            &&& state.outcome_at(chunks, n - 1) == Ok::<Option<Seq<char>>, ClipboardAssemblyError>(
                Some(text),
            )
            &&& state.run(chunks) == AssemblyView::idle()
            &&& forall|k: int|
                0 <= k < n ==> #[trigger] state.run(chunks.take(k)).can_count(chunks[k])
        }),
{
    let chunks = text_chunks(transfer, text);
    let n = chunks.len();
    law_text_chunks(transfer, text);
    law_chunk_count(transfer, text);
    lemma_chunk_data_prefix(chunks, n - 1);
    lemma_collecting(state, transfer, text, n - 1);
    lemma_run_next(state, chunks, n - 1);
    assert(chunks.take(n as int) =~= chunks);
    vstd::utf8::encode_utf8_valid_utf8(text);
    vstd::utf8::encode_utf8_decode_utf8(text);
    assert forall|k: int| 0 <= k < n implies #[trigger] state.run(chunks.take(k)).can_count(
        chunks[k],
    ) by {
        lemma_chunk_data_prefix(chunks, k);
        lemma_collecting(state, transfer, text, k);
    }
}

/// The chunk that a datagram carries.
pub open spec fn received_chunk(datagram: Seq<u8>) -> ChunkView {
    match decode_event(datagram) {
        Ok(EventView::Clipboard(chunk)) => chunk,
        _ => arbitrary(),
    }
}

/// A text of at most [`MAX_CLIPBOARD_SIZE`] bytes that is split, encoded into datagrams filled up
/// with anything, decoded and assembled comes out again: every datagram decodes, the last chunk
/// delivers the text and none before it delivers anything.
pub proof fn law_end_to_end(
    state: AssemblyView,
    transfer: u32,
    text: Seq<char>,
    rests: Seq<Seq<u8>>,
)
    requires
        state.transfer != Some(transfer),
        encode_utf8(text).len() <= MAX_CLIPBOARD_SIZE,
    ensures
        ({
            let chunks = text_chunks(transfer, text);
            let n = chunks.len();
            let datagrams = Seq::new(
                n,
                |k: int| EventView::Clipboard(chunks[k]).encoding() + rests[k],
            );
            let received = Seq::new(n, |k: int| received_chunk(datagrams[k]));
            &&& n >= 1
            &&& forall|k: int|
                0 <= k < n ==> (#[trigger] decode_event(datagrams[k])) == Ok::<
                    EventView,
                    ProtocolError,
                >(EventView::Clipboard(received[k]))
            &&& forall|k: int|
                0 <= k < n - 1 ==> #[trigger] state.outcome_at(received, k) == Ok::<
                    Option<Seq<char>>,
                    ClipboardAssemblyError,
                >(None)
            &&& state.outcome_at(received, n - 1) == Ok::<
                Option<Seq<char>>,
                ClipboardAssemblyError,
            >(Some(text))
            &&& state.run(received) == AssemblyView::idle()
        }),
{
    let chunks = text_chunks(transfer, text);
    let n = chunks.len();
    let datagrams = Seq::new(n, |k: int| EventView::Clipboard(chunks[k]).encoding() + rests[k]);
    let received = Seq::new(n, |k: int| received_chunk(datagrams[k]));
    law_text_chunks(transfer, text);
    law_reassembly(state, transfer, text);
    assert forall|k: int| 0 <= k < n implies (#[trigger] decode_event(datagrams[k])) == Ok::<
        EventView,
        ProtocolError,
    >(EventView::Clipboard(chunks[k])) by {
        law_chunks_survive_the_wire(transfer, text, k, rests[k]);
    }
    assert forall|k: int| 0 <= k < n implies received[k] == chunks[k] by {
        assert(decode_event(datagrams[k]) is Ok);
    }
    assert(received =~= chunks);
}

/// A longer text is never delivered, not even in part: one of its chunks is answered with
/// [`ClipboardAssemblyError::TransferTooLarge`], and every chunk after that one is out of order.
pub proof fn law_too_large(state: AssemblyView, transfer: u32, text: Seq<char>) -> (at: int)
    requires
        state.transfer != Some(transfer),
        encode_utf8(text).len() > MAX_CLIPBOARD_SIZE,
        text_chunks(transfer, text).len() <= 0x1_0000_0000,
    ensures
        ({
            let chunks = text_chunks(transfer, text);
            let n = chunks.len();
            &&& 0 <= at < n
            &&& forall|k: int|
                0 <= k < at ==> #[trigger] state.outcome_at(chunks, k) == Ok::<
                    Option<Seq<char>>,
                    ClipboardAssemblyError,
                >(None)
            &&& state.outcome_at(chunks, at) == Err::<Option<Seq<char>>, ClipboardAssemblyError>(
                ClipboardAssemblyError::TransferTooLarge,
            )
            &&& forall|k: int|
                at < k < n ==> #[trigger] state.outcome_at(chunks, k) == Err::<
                    Option<Seq<char>>,
                    ClipboardAssemblyError,
                >(ClipboardAssemblyError::OutOfOrder)
        }),
{
    let chunks = text_chunks(transfer, text);
    let n = chunks.len();
    law_text_chunks(transfer, text);
    assert(chunks.take(n as int) =~= chunks);
    assert(chunks.take(0) =~= seq![]);
    let at = lemma_first_excess(chunks, n as int);
    lemma_collecting(state, transfer, text, at);
    lemma_chunk_data_prefix(chunks, at);
    lemma_run_next(state, chunks, at);
    assert forall|k: int| at < k < n implies #[trigger] state.outcome_at(chunks, k) == Err::<
        Option<Seq<char>>,
        ClipboardAssemblyError,
    >(ClipboardAssemblyError::OutOfOrder) by {
        lemma_stays_idle(state, transfer, text, at + 1, k);
    }
    at
}

/// The first chunk whose payload goes beyond the maximum.
proof fn lemma_first_excess(chunks: Seq<ChunkView>, n: int) -> (at: int)
    requires
        0 < n <= chunks.len(),
        chunk_data(chunks.take(n)).len() > MAX_CLIPBOARD_SIZE,
    ensures
        0 <= at < n,
        chunk_data(chunks.take(at)).len() <= MAX_CLIPBOARD_SIZE,
        chunk_data(chunks.take(at + 1)).len() > MAX_CLIPBOARD_SIZE,
    decreases n,
{
    if chunk_data(chunks.take(n - 1)).len() <= MAX_CLIPBOARD_SIZE {
        n - 1
    } else {
        assert(n - 1 != 0) by {
            assert(chunks.take(0) =~= seq![]);
        }
        lemma_first_excess(chunks, n - 1)
    }
}

/// Once dropped, a transfer is not picked up again by one of its later chunks.
proof fn lemma_stays_idle(state: AssemblyView, transfer: u32, text: Seq<char>, from: int, k: int)
    requires
        text_chunks(transfer, text).len() <= 0x1_0000_0000,
        0 < from <= k < text_chunks(transfer, text).len(),
        state.run(text_chunks(transfer, text).take(from)) == AssemblyView::idle(),
    ensures
        state.run(text_chunks(transfer, text).take(k)) == AssemblyView::idle(),
        state.outcome_at(text_chunks(transfer, text), k) == Err::<
            Option<Seq<char>>,
            ClipboardAssemblyError,
        >(ClipboardAssemblyError::OutOfOrder),
    decreases k,
{
    let chunks = text_chunks(transfer, text);
    law_text_chunks(transfer, text);
    if k > from {
        lemma_stays_idle(state, transfer, text, from, k - 1);
        lemma_run_next(state, chunks, k - 1);
    }
    assert(chunks[k].index == k);
}

/// True when `chunks` are the first chunks of transfer `transfer`, each in its place.
pub open spec fn in_sequence(chunks: Seq<ChunkView>, transfer: u32) -> bool {
    forall|k: int|
        #![trigger chunks[k]]
        0 <= k < chunks.len() ==> chunks[k].transfer == transfer && chunks[k].index == k
            && chunks[k].data.len() <= CLIPBOARD_CHUNK_SIZE
}

/// What is under way is always what the latest chunks gave, in sequence.
proof fn lemma_history(chunks: Seq<ChunkView>)
    ensures
        ({
            let state = AssemblyView::idle().run(chunks);
            let m = state.next_index;
            &&& m <= chunks.len()
            &&& state.transfer matches Some(transfer) ==> {
                let latest = chunks.subrange(chunks.len() - m, chunks.len() as int);
                &&& m >= 1
                &&& in_sequence(latest, transfer)
                &&& forall|k: int| #![trigger latest[k]] 0 <= k < m ==> !latest[k].last
                &&& state.buf == chunk_data(latest)
            }
            &&& state.wf()
        }),
    decreases chunks.len(),
{
    if chunks.len() > 0 {
        let before = chunks.drop_last();
        let chunk = chunks.last();
        lemma_history(before);
        let was = AssemblyView::idle().run(before);
        let now = AssemblyView::idle().run(chunks);
        assert(now == was.step(chunk).0);
        if now.transfer is Some {
            lemma_latest(was, before, chunk);
            let m = now.next_index;
            assert(before.push(chunk) =~= chunks);
            let earlier = before.subrange(before.len() - (m - 1), before.len() as int);
            let latest = chunks.subrange(chunks.len() - m, chunks.len() as int);
            assert(latest =~= earlier.push(chunk));
            lemma_chunk_data_push(earlier, chunk);
        }
    } else {
        assert(AssemblyView::idle().run(chunks) == AssemblyView::idle());
    }
}

/// A chunk that is not refused continues the latest chunks in sequence.
proof fn lemma_latest(was: AssemblyView, before: Seq<ChunkView>, chunk: ChunkView)
    requires
        was.wf(),
        was.next_index <= before.len(),
        was.transfer matches Some(transfer) ==> {
            let latest = before.subrange(before.len() - was.next_index, before.len() as int);
            &&& in_sequence(latest, transfer)
            &&& forall|k: int| #![trigger latest[k]] 0 <= k < was.next_index ==> !latest[k].last
            &&& was.buf == chunk_data(latest)
        },
        chunk.data.len() <= CLIPBOARD_CHUNK_SIZE,
        chunk.index == was.joined(chunk.transfer).next_index,
    ensures
        ({
            let m = was.joined(chunk.transfer).next_index;
            let earlier = before.subrange(before.len() - m, before.len() as int);
            &&& m <= before.len()
            &&& in_sequence(earlier.push(chunk), chunk.transfer)
            &&& forall|k: int| #![trigger earlier[k]] 0 <= k < m ==> !earlier[k].last
            &&& was.joined(chunk.transfer).buf == chunk_data(earlier)
        }),
{
    let m = was.joined(chunk.transfer).next_index;
    let earlier = before.subrange(before.len() - m, before.len() as int);
    if was.transfer != Some(chunk.transfer) {
        assert(earlier =~= seq![]);
    }
    let all = earlier.push(chunk);
    assert forall|k: int| #![trigger all[k]] 0 <= k < all.len() implies all[k].transfer
        == chunk.transfer && all[k].index == k && all[k].data.len() <= CLIPBOARD_CHUNK_SIZE by {
        if k < m {
            assert(all[k] == earlier[k]);
        }
    }
}

/// Nothing is delivered that was not sent: if the last of `chunks` makes an assembly that started
/// idle deliver a text, then the latest `m` of them belong to one transfer, are numbered from 0
/// on, only the last is marked as such, and their payloads joined are the text.
pub proof fn law_delivery_is_sound(chunks: Seq<ChunkView>, text: Seq<char>) -> (m: int)
    requires
        chunks.len() > 0,
        AssemblyView::idle().outcome_at(chunks, chunks.len() - 1) == Ok::<
            Option<Seq<char>>,
            ClipboardAssemblyError,
        >(Some(text)),
    ensures
        1 <= m <= chunks.len(),
        ({
            let latest = chunks.subrange(chunks.len() - m, chunks.len() as int);
            &&& in_sequence(latest, chunks.last().transfer)
            &&& forall|k: int| #![trigger latest[k]] 0 <= k < m ==> (latest[k].last <==> k == m - 1)
            &&& chunk_data(latest) == encode_utf8(text)
        }),
{
    let before = chunks.drop_last();
    let chunk = chunks.last();
    assert(chunks.take(chunks.len() - 1) =~= before);
    lemma_history(before);
    let was = AssemblyView::idle().run(before);
    lemma_latest(was, before, chunk);
    let m = was.joined(chunk.transfer).next_index as int + 1;
    let earlier = before.subrange(before.len() - (m - 1), before.len() as int);
    let latest = chunks.subrange(chunks.len() - m, chunks.len() as int);
    assert(latest =~= earlier.push(chunk));
    lemma_chunk_data_push(earlier, chunk);
    vstd::utf8::decode_utf8_encode_utf8(chunk_data(latest));
    m
}

} // verus!
