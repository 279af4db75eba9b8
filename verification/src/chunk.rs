//! Clipboard text in pieces that fit a datagram.
use vstd::prelude::*;
use vstd::utf8::{encode_utf8, is_char_boundary, valid_utf8};

verus! {

/// maximum payload size of a single [`ClipboardChunk`]
pub const CLIPBOARD_CHUNK_SIZE: usize = 1024;

/// maximum size of a reassembled clipboard transfer
pub const MAX_CLIPBOARD_SIZE: usize = 1024 * 1024;

/// a fragment of a clipboard text transfer
///
/// A text is split into chunks of at most [`CLIPBOARD_CHUNK_SIZE`] bytes
/// (on UTF-8 boundaries). Chunks of one transfer share a `transfer` id and
/// are numbered by `index`. The chunk with `last == true` terminates the
/// transfer.
#[derive(Clone, Debug, PartialEq, Eq)]
pub struct ClipboardChunk {
    /// id distinguishing concurrent/sequential transfers
    pub transfer: u32,
    /// index of this chunk within the transfer, starting at 0
    pub index: u32,
    /// true if this is the last chunk of the transfer
    pub last: bool,
    /// raw UTF-8 payload fragment
    pub data: Vec<u8>,
}

/// What a [`ClipboardChunk`] holds.
pub struct ChunkView {
    pub transfer: u32,
    pub index: u32,
    pub last: bool,
    pub data: Seq<u8>,
}

impl View for ClipboardChunk {
    type V = ChunkView;

    open spec fn view(&self) -> ChunkView {
        ChunkView {
            transfer: self.transfer,
            index: self.index,
            last: self.last,
            data: self.data@,
        }
    }
}

/// The last position up to `limit` at which `bytes` can be split between two characters.
pub open spec fn boundary_before(bytes: Seq<u8>, limit: int) -> int
    decreases limit,
{
    if limit <= 0 || is_char_boundary(bytes, limit) {
        limit
    } else {
        boundary_before(bytes, limit - 1)
    }
}

/// Where the chunk that starts at `start` ends: as far on as the chunk size and the end of the
/// text allow, but never within a character.
pub open spec fn chunk_end(bytes: Seq<u8>, start: int) -> int {
    if start + CLIPBOARD_CHUNK_SIZE < bytes.len() {
        boundary_before(bytes, start + CLIPBOARD_CHUNK_SIZE)
    } else {
        bytes.len() as int
    }
}

/// The chunks of what is left of a text from position `start` on, the first of them numbered
/// `index`.
pub open spec fn chunks_from(transfer: u32, bytes: Seq<u8>, start: int, index: nat) -> Seq<
    ChunkView,
>
    decreases bytes.len() - start,
{
    let end = chunk_end(bytes, start);
    let last = end == bytes.len();
    let chunk = ChunkView {
        transfer,
        index: index as u32,
        last,
        data: bytes.subrange(start, end),
    };
    if last || end <= start || end > bytes.len() {
        seq![chunk]
    } else {
        seq![chunk] + chunks_from(transfer, bytes, end, index + 1)
    }
}

/// The chunks that a text is sent in.
pub open spec fn text_chunks(transfer: u32, text: Seq<char>) -> Seq<ChunkView> {
    chunks_from(transfer, encode_utf8(text), 0, 0)
}

/// What a sequence of chunks holds.
pub open spec fn chunk_views(chunks: Seq<ClipboardChunk>) -> Seq<ChunkView> {
    chunks.map_values(|chunk: ClipboardChunk| chunk@)
}

/// Every character ends at most four bytes after it starts.
pub proof fn lemma_next_boundary(bytes: Seq<u8>, at: int) -> (next: int)
    requires
        valid_utf8(bytes),
        0 <= at < bytes.len(),
        is_char_boundary(bytes, at),
    ensures
        at < next <= at + 4,
        next <= bytes.len(),
        is_char_boundary(bytes, next),
    decreases bytes.len(),
{
    let width = vstd::utf8::length_of_first_scalar(bytes);
    let rest = vstd::utf8::pop_first_scalar(bytes);
    if at == 0 {
        assert(is_char_boundary(rest, 0));
        width
    } else {
        assert(is_char_boundary(rest, at - width));
        let next = lemma_next_boundary(rest, at - width);
        next + width
    }
}

/// The boundary found is the last one up to the limit, and not before a known one.
pub proof fn lemma_boundary_before(bytes: Seq<u8>, limit: int, known: int)
    requires
        valid_utf8(bytes),
        0 <= known <= limit <= bytes.len(),
        is_char_boundary(bytes, known),
    ensures
        known <= boundary_before(bytes, limit) <= limit,
        is_char_boundary(bytes, boundary_before(bytes, limit)),
        forall|i: int|
            boundary_before(bytes, limit) < i <= limit ==> !is_char_boundary(bytes, i),
    decreases limit - known,
{
    if limit > known && !is_char_boundary(bytes, limit) {
        lemma_boundary_before(bytes, limit - 1, known);
    }
}

/// A chunk ends between two characters; it is never empty while text is left, and falls short of
/// the chunk size by at most three bytes unless it is the last.
pub proof fn lemma_chunk_end(bytes: Seq<u8>, start: int)
    requires
        valid_utf8(bytes),
        0 <= start <= bytes.len(),
        is_char_boundary(bytes, start),
    ensures
        start <= chunk_end(bytes, start) <= bytes.len(),
        chunk_end(bytes, start) <= start + CLIPBOARD_CHUNK_SIZE,
        start < bytes.len() ==> start < chunk_end(bytes, start),
        is_char_boundary(bytes, chunk_end(bytes, start)),
        chunk_end(bytes, start) < bytes.len() ==> start + CLIPBOARD_CHUNK_SIZE - 3 <= chunk_end(
            bytes,
            start,
        ),
{
    vstd::utf8::is_char_boundary_start_end_of_seq(bytes);
    if start + CLIPBOARD_CHUNK_SIZE < bytes.len() {
        let limit = start + CLIPBOARD_CHUNK_SIZE;
        lemma_boundary_before(bytes, limit, start);
        let end = chunk_end(bytes, start);
        let next = lemma_next_boundary(bytes, end);
        assert(next > limit);
    }
}

/// split clipboard text into protocol chunks ready to be sent
///
/// The chunks of one text are numbered by a `u32`, so a text must not need more chunks than there
/// are numbers. No text shorter than 4 TB does, see [`law_chunk_count`].
pub fn clipboard_chunks(transfer: u32, text: &str) -> (chunks: Vec<ClipboardChunk>)
    requires
        text_chunks(transfer, text@).len() <= 0x1_0000_0000,
    ensures
        chunk_views(chunks@) == text_chunks(transfer, text@),
{
    let bytes: &[u8] = text.as_bytes();
    let mut chunks: Vec<ClipboardChunk> = Vec::new();
    let mut start: usize = 0;
    let mut index: u32 = 0;
    proof {
        vstd::utf8::encode_utf8_valid_utf8(text@);
        vstd::utf8::is_char_boundary_start_end_of_seq(bytes@);
        assert(chunk_views(chunks@) =~= seq![]);
        assert(chunk_views(chunks@) + chunks_from(transfer, bytes@, 0, 0) =~= chunks_from(
            transfer,
            bytes@,
            0,
            0,
        ));
    }
    loop
        invariant
            bytes@ == encode_utf8(text@),
            valid_utf8(bytes@),
            start <= bytes@.len(),
            is_char_boundary(bytes@, start as int),
            chunks@.len() == index,
            text_chunks(transfer, text@).len() <= 0x1_0000_0000,
            chunk_views(chunks@) + chunks_from(transfer, bytes@, start as int, index as nat)
                == text_chunks(transfer, text@),
        decreases bytes@.len() - start,
    {
        let mut end: usize = if bytes.len() - start > CLIPBOARD_CHUNK_SIZE {
            start + CLIPBOARD_CHUNK_SIZE
        } else {
            bytes.len()
        };
        proof {
            lemma_chunk_end(bytes@, start as int);
            vstd::utf8::is_char_boundary_start_end_of_seq(bytes@);
        }
        // never split a UTF-8 codepoint
        while !text.is_char_boundary(end)
            invariant
                bytes@ == encode_utf8(text@),
                valid_utf8(bytes@),
                start <= end <= bytes@.len(),
                is_char_boundary(bytes@, start as int),
                chunk_end(bytes@, start as int) <= end,
                is_char_boundary(bytes@, end as int) || boundary_before(bytes@, end as int)
                    == chunk_end(bytes@, start as int),
                is_char_boundary(bytes@, end as int) ==> end == chunk_end(bytes@, start as int),
            decreases end,
        {
            proof {
                lemma_boundary_before(bytes@, end as int, start as int);
            }
            end -= 1;
        }
        let last = end == bytes.len();
        let ghost before = chunks@;
        let (_, rest) = bytes.split_at(start);
        let (fragment, _) = rest.split_at(end - start);
        let mut data: Vec<u8> = Vec::new();
        data.extend_from_slice(fragment);
        chunks.push(ClipboardChunk { transfer, index, last, data });
        proof {
            assert(data@ =~= bytes@.subrange(start as int, end as int));
            assert(chunk_views(chunks@) =~= chunk_views(before).push(chunks@.last()@));
        }
        if last {
            proof {
                assert(chunk_views(chunks@) =~= text_chunks(transfer, text@));
            }
            return chunks;
        }
        proof {
            assert(chunk_views(chunks@) + chunks_from(
                transfer,
                bytes@,
                end as int,
                (index + 1) as nat,
            ) =~= chunk_views(before) + chunks_from(
                transfer,
                bytes@,
                start as int,
                index as nat,
            ));
            assert(chunks_from(transfer, bytes@, end as int, (index + 1) as nat).len() >= 1);
        }
        start = end;
        index += 1;
    }
}

/// The payloads of all `chunks`, one after the other.
pub open spec fn chunk_data(chunks: Seq<ChunkView>) -> Seq<u8>
    decreases chunks.len(),
{
    if chunks.len() == 0 {
        seq![]
    } else {
        chunks[0].data + chunk_data(chunks.drop_first())
    }
}

/// True when `chunk` is the one at position `k` of `n` chunks that are numbered from `index` on.
pub open spec fn chunk_in_place(
    chunk: ChunkView,
    transfer: u32,
    index: nat,
    k: int,
    n: nat,
) -> bool {
    &&& chunk.transfer == transfer
    &&& chunk.index == (index + k) as u32
    &&& (chunk.last <==> k == n - 1)
    &&& chunk.data.len() <= CLIPBOARD_CHUNK_SIZE
    &&& valid_utf8(chunk.data)
    &&& (k < n - 1 ==> CLIPBOARD_CHUNK_SIZE - 3 <= chunk.data.len())
}

/// The chunks of what is left of a text.
proof fn lemma_chunks_from(transfer: u32, bytes: Seq<u8>, start: int, index: nat)
    requires
        valid_utf8(bytes),
        0 <= start <= bytes.len(),
        is_char_boundary(bytes, start),
    ensures
        ({
            let chunks = chunks_from(transfer, bytes, start, index);
            let n = chunks.len();
            &&& n >= 1
            &&& chunk_data(chunks) == bytes.subrange(start, bytes.len() as int)
            &&& forall|k: int|
                0 <= k < n ==> #[trigger] chunk_in_place(chunks[k], transfer, index, k, n)
        }),
    decreases bytes.len() - start,
{
    lemma_chunk_end(bytes, start);
    let end = chunk_end(bytes, start);
    let chunks = chunks_from(transfer, bytes, start, index);
    let n = chunks.len();
    assert(valid_utf8(bytes.subrange(start, end))) by {
        lemma_boundary_in_prefix(bytes, start, end);
        vstd::utf8::valid_utf8_split(bytes.subrange(0, end), start);
        assert(bytes.subrange(0, end).subrange(start, end) =~= bytes.subrange(start, end));
    }
    reveal_with_fuel(chunk_data, 2);
    if end == bytes.len() {
        assert(chunk_data(chunks) =~= bytes.subrange(start, end));
    } else {
        let rest = chunks_from(transfer, bytes, end, index + 1);
        lemma_chunks_from(transfer, bytes, end, index + 1);
        assert(chunks.drop_first() =~= rest);
        assert(chunk_data(chunks) =~= bytes.subrange(start, bytes.len() as int));
        assert forall|k: int| 0 <= k < n implies #[trigger] chunk_in_place(
            chunks[k],
            transfer,
            index,
            k,
            n,
        ) by {
            if k > 0 {
                assert(chunks[k] == rest[k - 1]);
                assert(chunk_in_place(rest[k - 1], transfer, index + 1, k - 1, rest.len()));
            }
        }
    }
}

/// A boundary of a text is a boundary of each prefix that ends at a later boundary.
proof fn lemma_boundary_in_prefix(bytes: Seq<u8>, at: int, end: int)
    requires
        valid_utf8(bytes),
        0 <= at <= end <= bytes.len(),
        is_char_boundary(bytes, at),
        is_char_boundary(bytes, end),
    ensures
        valid_utf8(bytes.subrange(0, end)),
        is_char_boundary(bytes.subrange(0, end), at),
{
    vstd::utf8::valid_utf8_split(bytes, end);
    let prefix = bytes.subrange(0, end);
    vstd::utf8::is_char_boundary_start_end_of_seq(prefix);
    if at < end {
        vstd::utf8::is_char_boundary_iff_not_is_continuation_byte(bytes, at);
        vstd::utf8::is_char_boundary_iff_not_is_continuation_byte(prefix, at);
    }
}

/// Splitting a text: there is always a chunk; the payloads joined are the text; every chunk
/// carries the transfer id and its position; the last one and no other is marked as such; no
/// payload exceeds the chunk size, and none but the last falls short of it by more than three
/// bytes; and no character is broken, so each payload is text by itself.
pub proof fn law_text_chunks(transfer: u32, text: Seq<char>)
    ensures
        ({
            let chunks = text_chunks(transfer, text);
            let n = chunks.len();
            &&& n >= 1
            &&& chunk_data(chunks) == encode_utf8(text)
            &&& forall|k: int|
                #![trigger chunks[k]]
                0 <= k < n ==> {
                    &&& chunks[k].transfer == transfer
                    &&& n <= 0x1_0000_0000 ==> chunks[k].index == k
                    &&& (chunks[k].last <==> k == n - 1)
                    &&& chunks[k].data.len() <= CLIPBOARD_CHUNK_SIZE
                    &&& k < n - 1 ==> CLIPBOARD_CHUNK_SIZE - 3 <= chunks[k].data.len()
                    &&& valid_utf8(chunks[k].data)
                }
        }),
{
    let bytes = encode_utf8(text);
    let chunks = text_chunks(transfer, text);
    let n = chunks.len();
    vstd::utf8::encode_utf8_valid_utf8(text);
    lemma_chunks_from(transfer, bytes, 0, 0);
    assert(bytes.subrange(0, bytes.len() as int) =~= bytes);
    assert forall|k: int| #![trigger chunks[k]] 0 <= k < n implies {
        &&& chunks[k].transfer == transfer
        &&& n <= 0x1_0000_0000 ==> chunks[k].index == k
        &&& (chunks[k].last <==> k == n - 1)
        &&& chunks[k].data.len() <= CLIPBOARD_CHUNK_SIZE
        &&& k < n - 1 ==> CLIPBOARD_CHUNK_SIZE - 3 <= chunks[k].data.len()
        &&& valid_utf8(chunks[k].data)
    } by {
        assert(chunk_in_place(chunks[k], transfer, 0, k, n));
    }
}

/// Where what is left of a text is cut into its chunks.
proof fn lemma_cuts(transfer: u32, bytes: Seq<u8>, start: int, index: nat) -> (cuts: Seq<int>)
    requires
        valid_utf8(bytes),
        0 <= start <= bytes.len(),
        is_char_boundary(bytes, start),
    ensures
        ({
            let chunks = chunks_from(transfer, bytes, start, index);
            let n = chunks.len() as int;
            &&& n >= 1
            &&& cuts.len() == n + 1
            &&& cuts[0] == start
            &&& cuts[n] == bytes.len()
            &&& forall|k: int|
                #![trigger chunks[k]]
                #![trigger cuts[k]]
                0 <= k < n ==> {
                    &&& 0 <= cuts[k] <= cuts[k + 1] <= cuts[k] + 1024
                    &&& cuts[k + 1] <= bytes.len()
                    &&& cuts[k] < bytes.len() ==> cuts[k] < cuts[k + 1]
                    &&& is_char_boundary(bytes, cuts[k + 1])
                    &&& forall|j: int|
                        cuts[k + 1] < j <= cuts[k] + 1024 && j <= bytes.len()
                            ==> !is_char_boundary(bytes, j)
                    &&& chunks[k].transfer == transfer
                    &&& chunks[k].index == (index + k) as u32
                    &&& chunks[k].data == bytes.subrange(cuts[k], cuts[k + 1])
                    &&& (chunks[k].last <==> k == n - 1)
                    &&& (cuts[k + 1] == bytes.len() <==> k == n - 1)
                }
        }),
    decreases bytes.len() - start,
{
    lemma_chunk_end(bytes, start);
    let end = chunk_end(bytes, start);
    let chunks = chunks_from(transfer, bytes, start, index);
    let n = chunks.len() as int;
    if start + CLIPBOARD_CHUNK_SIZE < bytes.len() {
        lemma_boundary_before(bytes, start + CLIPBOARD_CHUNK_SIZE, start);
    }
    if end == bytes.len() {
        seq![start, end]
    } else {
        let rest = chunks_from(transfer, bytes, end, index + 1);
        let later = lemma_cuts(transfer, bytes, end, index + 1);
        let cuts = seq![start] + later;
        assert forall|k: int|
            #![trigger chunks[k]]
            #![trigger cuts[k]]
            0 <= k < n implies {
            &&& 0 <= cuts[k] <= cuts[k + 1] <= cuts[k] + 1024
            &&& cuts[k + 1] <= bytes.len()
            &&& cuts[k] < bytes.len() ==> cuts[k] < cuts[k + 1]
            &&& is_char_boundary(bytes, cuts[k + 1])
            &&& forall|j: int|
                cuts[k + 1] < j <= cuts[k] + 1024 && j <= bytes.len() ==> !is_char_boundary(
                    bytes,
                    j,
                )
            &&& chunks[k].transfer == transfer
            &&& chunks[k].index == (index + k) as u32
            &&& chunks[k].data == bytes.subrange(cuts[k], cuts[k + 1])
            &&& (chunks[k].last <==> k == n - 1)
            &&& (cuts[k + 1] == bytes.len() <==> k == n - 1)
        } by {
            if k > 0 {
                assert(chunks[k] == rest[k - 1]);
                assert(cuts[k] == later[k - 1] && cuts[k + 1] == later[k]);
            } else {
                assert(cuts[1] == later[0]);
            }
        }
        cuts
    }
}

/// How a text is cut into chunks: `cuts` are the positions, from the first byte to the last, at
/// which its bytes are cut. The chunk at position `k` carries the id of the transfer, the number
/// `k`, and the bytes between two neighbouring cuts; only the last one is marked as such. Each cut
/// lies between two characters, and is the last such place within 1024 bytes of the one before.
pub proof fn law_cuts(transfer: u32, text: Seq<char>, chunks: Seq<ClipboardChunk>) -> (cuts: Seq<
    int,
>)
    requires
        chunk_views(chunks) == text_chunks(transfer, text),
        chunks.len() <= 0x1_0000_0000,
    ensures
        ({
            let bytes = encode_utf8(text);
            let n = chunks.len() as int;
            &&& n >= 1
            &&& cuts.len() == n + 1
            &&& cuts[0] == 0
            &&& cuts[n] == bytes.len()
            &&& forall|k: int|
                #![trigger chunks[k]]
                #![trigger cuts[k]]
                0 <= k < n ==> {
                    &&& chunks[k].transfer == transfer
                    &&& chunks[k].index == k
                    &&& (chunks[k].last <==> k == n - 1)
                    &&& (chunks[k].last <==> cuts[k + 1] == bytes.len())
                    &&& chunks[k].data@ == bytes.subrange(cuts[k], cuts[k + 1])
                    &&& 0 <= cuts[k] <= cuts[k + 1] <= cuts[k] + 1024
                    &&& cuts[k] < bytes.len() ==> cuts[k] < cuts[k + 1]
                    &&& cuts[k + 1] <= bytes.len()
                    &&& is_char_boundary(bytes, cuts[k + 1])
                    &&& forall|j: int|
                        cuts[k + 1] < j <= cuts[k] + 1024 && j <= bytes.len()
                            ==> !is_char_boundary(bytes, j)
                }
        }),
{
    let bytes = encode_utf8(text);
    vstd::utf8::encode_utf8_valid_utf8(text);
    vstd::utf8::is_char_boundary_start_end_of_seq(bytes);
    let views = text_chunks(transfer, text);
    let cuts = lemma_cuts(transfer, bytes, 0, 0);
    assert forall|k: int| 0 <= k < chunks.len() implies #[trigger] views[k] == chunks[k]@ by {
        assert(views[k] == chunk_views(chunks)[k]);
    }
    cuts
}

/// Every text of less than 1021 * 2^32 bytes can be split.
pub proof fn law_can_be_split(transfer: u32, text: Seq<char>)
    requires
        encode_utf8(text).len() < 1021 * 0x1_0000_0000,
    ensures
        1 <= text_chunks(transfer, text).len() <= 0x1_0000_0000,
{
    law_text_chunks(transfer, text);
    law_chunk_count(transfer, text);
}

/// Chunks that are full but for at most three bytes, the last of them excepted, hold as much as
/// their number says.
proof fn lemma_chunk_data_len(chunks: Seq<ChunkView>)
    requires
        chunks.len() >= 1,
        forall|k: int|
            #![trigger chunks[k]]
            0 <= k < chunks.len() ==> chunks[k].data.len() <= CLIPBOARD_CHUNK_SIZE,
        forall|k: int|
            #![trigger chunks[k]]
            0 <= k < chunks.len() - 1 ==> CLIPBOARD_CHUNK_SIZE - 3 <= chunks[k].data.len(),
    ensures
        (chunks.len() - 1) * (CLIPBOARD_CHUNK_SIZE - 3) <= chunk_data(chunks).len(),
        chunk_data(chunks).len() <= chunks.len() * CLIPBOARD_CHUNK_SIZE,
    decreases chunks.len(),
{
    reveal_with_fuel(chunk_data, 2);
    if chunks.len() > 1 {
        let rest = chunks.drop_first();
        assert forall|k: int| #![trigger rest[k]] 0 <= k < rest.len() implies rest[k].data.len()
            <= CLIPBOARD_CHUNK_SIZE && (k < rest.len() - 1 ==> CLIPBOARD_CHUNK_SIZE - 3
            <= rest[k].data.len()) by {
            assert(rest[k] == chunks[k + 1]);
        }
        lemma_chunk_data_len(rest);
    }
}

/// How many chunks a text takes: no more than chunks that are three bytes short of the chunk size
/// would give, no fewer than full ones would. So every text of less than 1021 * 2^32 bytes can be
/// split.
pub proof fn law_chunk_count(transfer: u32, text: Seq<char>)
    ensures
        (text_chunks(transfer, text).len() - 1) * (CLIPBOARD_CHUNK_SIZE - 3) <= encode_utf8(
            text,
        ).len() <= text_chunks(transfer, text).len() * CLIPBOARD_CHUNK_SIZE,
        encode_utf8(text).len() < (CLIPBOARD_CHUNK_SIZE - 3) * 0x1_0000_0000 ==> text_chunks(
            transfer,
            text,
        ).len() <= 0x1_0000_0000,
{
    let chunks = text_chunks(transfer, text);
    law_text_chunks(transfer, text);
    lemma_chunk_data_len(chunks);
}

} // verus!
