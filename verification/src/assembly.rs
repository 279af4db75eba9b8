//! Putting the chunks of a clipboard transfer together again.
use vstd::prelude::*;
use vstd::utf8::{decode_utf8, valid_utf8};

use crate::chunk::{ChunkView, ClipboardChunk, CLIPBOARD_CHUNK_SIZE, MAX_CLIPBOARD_SIZE};
use crate::text::{append_decimal, decimal, string_from_utf8};

verus! {

/// collects [`ClipboardChunk`]s and reconstructs the transferred text
pub struct ClipboardAssembly {
    transfer: Option<u32>,
    next_index: u32,
    buf: Vec<u8>,
}

/// errors that invalidate a clipboard transfer
#[derive(Debug)]
pub enum ClipboardAssemblyError {
    /// a chunk exceeds [`CLIPBOARD_CHUNK_SIZE`] bytes
    ChunkTooLarge,
    /// out of order chunk, the transfer is dropped
    OutOfOrder,
    /// the transfer exceeds [`MAX_CLIPBOARD_SIZE`] bytes and is dropped
    TransferTooLarge,
    /// the text is not valid UTF-8
    InvalidUtf8,
}

/// How an error is shown.
pub open spec fn assembly_error_text(error: ClipboardAssemblyError) -> Seq<char> {
    match error {
        ClipboardAssemblyError::ChunkTooLarge => "clipboard chunk exceeds `"@ + decimal(
            CLIPBOARD_CHUNK_SIZE as nat,
        ) + "` bytes"@,
        ClipboardAssemblyError::OutOfOrder =>
            "out of order clipboard chunk, dropping transfer"@,
        ClipboardAssemblyError::TransferTooLarge => "clipboard transfer exceeds `"@ + decimal(
            MAX_CLIPBOARD_SIZE as nat,
        ) + "` bytes, dropping transfer"@,
        ClipboardAssemblyError::InvalidUtf8 => "clipboard text is not valid UTF-8"@,
    }
}

impl ClipboardAssemblyError {
    /// the message for the error
    pub fn to_text(&self) -> (text: String)
        ensures
            text@ == assembly_error_text(*self),
    {
        let mut text: String = String::new();
        match self {
            ClipboardAssemblyError::ChunkTooLarge => {
                text.append("clipboard chunk exceeds `");
                append_decimal(&mut text, CLIPBOARD_CHUNK_SIZE as u64);
                text.append("` bytes");
            },
            ClipboardAssemblyError::OutOfOrder => {
                text.append("out of order clipboard chunk, dropping transfer");
            },
            ClipboardAssemblyError::TransferTooLarge => {
                text.append("clipboard transfer exceeds `");
                append_decimal(&mut text, MAX_CLIPBOARD_SIZE as u64);
                text.append("` bytes, dropping transfer");
            },
            ClipboardAssemblyError::InvalidUtf8 => {
                text.append("clipboard text is not valid UTF-8");
            },
        }
        proof {
            assert(text@ =~= assembly_error_text(*self));
        }
        text
    }
}

/// How far a transfer has come: its id, the number of chunks it has given, and their payloads.
pub struct AssemblyView {
    pub transfer: Option<u32>,
    pub next_index: nat,
    pub buf: Seq<u8>,
}

/// What a chunk leads to: nothing yet, a complete text, or an error.
pub type Outcome = Result<Option<Seq<char>>, ClipboardAssemblyError>;

impl View for ClipboardAssembly {
    type V = AssemblyView;

    closed spec fn view(&self) -> AssemblyView {
        AssemblyView {
            transfer: self.transfer,
            next_index: self.next_index as nat,
            buf: self.buf@,
        }
    }
}

impl AssemblyView {
    /// No transfer is under way.
    pub open spec fn idle() -> AssemblyView {
        AssemblyView { transfer: None, next_index: 0, buf: seq![] }
    }

    /// What holds of every assembly: it never collects more than the maximum, nor more than the
    /// chunks it has seen can hold, and without a transfer under way it holds nothing.
    pub open spec fn wf(self) -> bool {
        &&& self.buf.len() <= MAX_CLIPBOARD_SIZE
        &&& self.buf.len() <= self.next_index * CLIPBOARD_CHUNK_SIZE
        &&& self.transfer is None ==> self == AssemblyView::idle()
        &&& self.transfer is Some ==> self.next_index > 0
    }

    /// The state that a chunk of transfer `transfer` meets: a new transfer starts afresh.
    pub open spec fn joined(self, transfer: u32) -> AssemblyView {
        if self.transfer == Some(transfer) {
            self
        } else {
            AssemblyView { transfer: Some(transfer), next_index: 0, buf: seq![] }
        }
    }

    /// The state after a chunk, and what the chunk leads to.
    pub open spec fn step(self, chunk: ChunkView) -> (AssemblyView, Outcome) {
        let state = self.joined(chunk.transfer);
        let buf = state.buf + chunk.data;
        if chunk.data.len() > CLIPBOARD_CHUNK_SIZE {
            (AssemblyView::idle(), Err(ClipboardAssemblyError::ChunkTooLarge))
        } else if chunk.index != state.next_index {
            (AssemblyView::idle(), Err(ClipboardAssemblyError::OutOfOrder))
        } else if buf.len() > MAX_CLIPBOARD_SIZE {
            (AssemblyView::idle(), Err(ClipboardAssemblyError::TransferTooLarge))
        } else if !chunk.last {
            (
                AssemblyView {
                    transfer: Some(chunk.transfer),
                    next_index: state.next_index + 1,
                    buf,
                },
                Ok(None),
            )
        } else if valid_utf8(buf) {
            (AssemblyView::idle(), Ok(Some(decode_utf8(buf))))
        } else {
            (AssemblyView::idle(), Err(ClipboardAssemblyError::InvalidUtf8))
        }
    }

    /// True when the next chunk number after `chunk` is one that a chunk can carry.
    pub open spec fn can_count(self, chunk: ChunkView) -> bool {
        self.step(chunk).0.next_index <= u32::MAX
    }
}

/// What a call of [`ClipboardAssembly::handle`] returned.
pub open spec fn outcome_view(
    result: Result<Option<String>, ClipboardAssemblyError>,
) -> Outcome {
    match result {
        Ok(None) => Ok(None),
        Ok(Some(text)) => Ok(Some(text@)),
        Err(error) => Err(error),
    }
}

impl Default for ClipboardAssembly {
    fn default() -> (assembly: ClipboardAssembly)
        ensures
            assembly@ == AssemblyView::idle(),
            assembly@.wf(),
    {
        let assembly = ClipboardAssembly { transfer: None, next_index: 0, buf: Vec::new() };
        proof {
            assert(assembly@.buf =~= seq![]);
        }
        assembly
    }
}

impl ClipboardAssembly {
    /// feed a received chunk, returns the complete text if the transfer finished
    ///
    /// A transfer of more chunks than a `u32` can number must not be continued; whether `chunk`
    /// would do that is what [`ClipboardAssembly::can_handle`] tells.
    pub fn handle(&mut self, chunk: ClipboardChunk) -> (result: Result<
        Option<String>,
        ClipboardAssemblyError,
    >)
        requires
            old(self)@.wf(),
            old(self)@.can_count(chunk@),
        ensures
            final(self)@ == old(self)@.step(chunk@).0,
            outcome_view(result) == old(self)@.step(chunk@).1,
            final(self)@.wf(),
    {
        if chunk.data.len() > CLIPBOARD_CHUNK_SIZE {
            self.reset();
            return Err(ClipboardAssemblyError::ChunkTooLarge);
        }

        // a new transfer id always starts a fresh assembly
        if self.transfer != Some(chunk.transfer) {
            self.reset();
            self.transfer = Some(chunk.transfer);
        }
        proof {
            assert(self@ == old(self)@.joined(chunk.transfer));
        }
        if chunk.index != self.next_index {
            self.reset();
            return Err(ClipboardAssemblyError::OutOfOrder);
        }
        if self.buf.len() + chunk.data.len() > MAX_CLIPBOARD_SIZE {
            self.reset();
            return Err(ClipboardAssemblyError::TransferTooLarge);
        }
        self.buf.extend_from_slice(chunk.data.as_slice());
        proof {
            assert(self.buf@ =~= old(self)@.joined(chunk.transfer).buf + chunk.data@);
        }
        if !chunk.last {
            self.next_index += 1;
            return Ok(None);
        }
        let mut transfer: Vec<u8> = Vec::new();
        core::mem::swap(&mut transfer, &mut self.buf);
        self.transfer = None;
        self.next_index = 0;
        match string_from_utf8(transfer) {
            Some(text) => Ok(Some(text)),
            None => Err(ClipboardAssemblyError::InvalidUtf8),
        }
    }

    /// true unless `chunk` would continue its transfer past the last chunk number there is
    pub fn can_handle(&self, chunk: &ClipboardChunk) -> (able: bool)
        requires
            self@.wf(),
        ensures
            able == self@.can_count(chunk@),
    {
        self.transfer != Some(chunk.transfer) || self.next_index != u32::MAX || chunk.index
            != u32::MAX || chunk.last || chunk.data.len() > CLIPBOARD_CHUNK_SIZE || self.buf.len()
            + chunk.data.len() > MAX_CLIPBOARD_SIZE
    }

    fn reset(&mut self)
        ensures
            final(self)@ == AssemblyView::idle(),
    {
        self.transfer = None;
        self.next_index = 0;
        self.buf.clear();
    }
}

} // verus!
