//! A sequential reader that hands out the 4-byte words of a buffer.

use crate::word::WORD_BYTES;
use vstd::prelude::*;

verus! {

/// Why a scan could not begin.
#[derive(Debug, Clone, Copy, PartialEq, Eq, Structural)]
pub enum ScanError {
    /// The requested start offset lies beyond the end of the buffer.
    SeekOutOfRange,
}

/// The word that starts at byte `pos` of the buffer.
pub open spec fn word_at(buffer: Seq<u8>, pos: int) -> [u8; 4] {
    [buffer[pos], buffer[pos + 1], buffer[pos + 2], buffer[pos + 3]]
}

/// Reads the words of a buffer from left to right, starting at a chosen
/// offset. The reader ends when fewer than four bytes remain.
pub struct WordReader<'a> {
    buffer: &'a [u8],
    cursor: usize,
}

impl<'a> WordReader<'a> {
    /// The bytes that the reader walks over.
    pub closed spec fn buffer(&self) -> Seq<u8> {
        self.buffer@
    }

    /// The offset of the next byte to be read.
    pub closed spec fn position(&self) -> int {
        self.cursor as int
    }

    /// The cursor never leaves the buffer.
    pub open spec fn well_formed(&self) -> bool {
        0 <= self.position() <= self.buffer().len()
    }

    /// A further word can be read.
    pub open spec fn has_word(&self) -> bool {
        self.position() + 4 <= self.buffer().len()
    }

    /// Places a reader at `start_offset`. A start beyond the end of the buffer
    /// is refused; a start at the very end gives a reader without words.
    pub fn new(buffer: &'a [u8], start_offset: u64) -> (result: Result<Self, ScanError>)
        ensures
            start_offset > buffer@.len() <==> result is Err,
            result matches Ok(reader) ==> {
                &&& reader.well_formed()
                &&& reader.buffer() == buffer@
                &&& reader.position() == start_offset
            },
    {
        if start_offset > buffer.len() as u64 {
            Err(ScanError::SeekOutOfRange)
        } else {
            Ok(WordReader { buffer, cursor: start_offset as usize })
        }
    }

    /// The offset of the next byte to be read.
    pub fn offset(&self) -> (offset: u64)
        ensures
            offset == self.position(),
    {
        self.cursor as u64
    }

    /// Reads the next word and moves four bytes on. When fewer than four bytes
    /// remain there is no word, and the reader stays where it is.
    pub fn next_word(&mut self) -> (word: Option<[u8; 4]>)
        requires
            old(self).well_formed(),
        ensures
            final(self).well_formed(),
            final(self).buffer() == old(self).buffer(),
            old(self).has_word() <==> word is Some,
            word matches Some(w) ==> {
                &&& w == word_at(old(self).buffer(), old(self).position())
                &&& final(self).position() == old(self).position() + 4
            },
            word is None ==> final(self).position() == old(self).position(),
    {
        let at: usize = self.cursor;
        if self.buffer.len() - at < WORD_BYTES as usize {
            None
        } else {
            let word: [u8; 4] = [
                self.buffer[at],
                self.buffer[at + 1],
                self.buffer[at + 2],
                self.buffer[at + 3],
            ];
            self.cursor = at + 4;
            Some(word)
        }
    }
}

} // verus!
