//! Run segmentation: the words of a buffer, grouped into maximal runs of
//! all-zero words and of non-zero words.

use crate::reader::{word_at, ScanError, WordReader};
use crate::word::{is_zero_word, word_is_zero};
use vstd::prelude::*;

verus! {

/// The class that all words of a run share.
#[derive(Debug, Clone, Copy, PartialEq, Eq, Structural)]
pub enum RunKind {
    /// Every word of the run is the all-zero word.
    Zero,
    /// No word of the run is the all-zero word.
    Data,
}

/// A contiguous stretch of words of one class, by its byte offsets.
#[derive(Debug, Clone, Copy, PartialEq, Eq, Structural)]
pub struct Run {
    pub kind: RunKind,
    pub start_offset: u64,
    pub end_offset: u64,
    pub word_count: u64,
}

/// The class of the word that starts at byte `pos`.
pub open spec fn kind_at(buffer: Seq<u8>, pos: int) -> RunKind {
    if is_zero_word(word_at(buffer, pos)) {
        RunKind::Zero
    } else {
        RunKind::Data
    }
}

/// The number of whole words between `start` and the end of a buffer of
/// `len` bytes.
pub open spec fn word_total(len: nat, start: int) -> int {
    (len - start) / 4
}

impl Run {
    /// A run holds at least one word and ends four bytes per word after its
    /// start.
    pub open spec fn well_formed(&self) -> bool {
        &&& self.word_count >= 1
        &&& self.end_offset == self.start_offset + 4 * self.word_count
    }

    /// The offset of the `w`-th word of the run.
    pub open spec fn word_offset(&self, w: int) -> int {
        self.start_offset + 4 * w
    }

    /// Every word of the run lies in the buffer and has the run's class.
    pub open spec fn uniform_in(&self, buffer: Seq<u8>) -> bool {
        &&& self.end_offset <= buffer.len()
        &&& forall|w: int|
            0 <= w < self.word_count ==> kind_at(buffer, #[trigger] self.word_offset(w))
                == self.kind
    }

    /// The number of bytes that the run spans.
    pub open spec fn spec_size(&self) -> int {
        4 * self.word_count
    }

    /// The number of bytes that the run spans.
    pub fn size(&self) -> (size: u64)
        requires
            self.well_formed(),
        ensures
            size == self.spec_size(),
            size == self.end_offset - self.start_offset,
    {
        self.end_offset - self.start_offset
    }
}

/// The runs of the first `n` words that follow `start`, in order. Each word
/// either extends the last run, when it has the same class, or opens a new one.
pub open spec fn runs_of_prefix(buffer: Seq<u8>, start: int, n: nat) -> Seq<Run>
    decreases n,
{
    if n == 0 {
        Seq::empty()
    } else {
        let before = runs_of_prefix(buffer, start, (n - 1) as nat);
        let pos = start + 4 * (n - 1);
        let kind = kind_at(buffer, pos);
        if before.len() > 0 && before.last().kind == kind {
            before.drop_last().push(
                Run {
                    kind,
                    start_offset: before.last().start_offset,
                    end_offset: (pos + 4) as u64,
                    word_count: (before.last().word_count + 1) as u64,
                },
            )
        } else {
            before.push(
                Run {
                    kind,
                    start_offset: pos as u64,
                    end_offset: (pos + 4) as u64,
                    word_count: 1,
                },
            )
        }
    }
}

/// The runs of all whole words between `start` and the end of the buffer.
pub open spec fn segmentation(buffer: Seq<u8>, start: int) -> Seq<Run> {
    runs_of_prefix(buffer, start, word_total(buffer.len(), start) as nat)
}

/// What it means for `runs` to segment the first `n` words that follow
/// `start`: the runs are well formed and uniform, they follow one another
/// without gap from `start` to the end of the `n`-th word, and no two
/// neighbours have the same class.
pub open spec fn segments_words(buffer: Seq<u8>, start: int, n: nat, runs: Seq<Run>) -> bool {
    &&& forall|k: int|
        0 <= k < runs.len() ==> (#[trigger] runs[k]).well_formed() && runs[k].uniform_in(buffer)
    &&& runs.len() > 0 ==> runs[0].start_offset == start
    &&& forall|j: int, k: int|
        0 <= j && k == j + 1 && k < runs.len() ==> (#[trigger] runs[k]).start_offset == (
        #[trigger] runs[j]).end_offset
    &&& forall|j: int, k: int|
        0 <= j && k == j + 1 && k < runs.len() ==> (#[trigger] runs[k]).kind != (
        #[trigger] runs[j]).kind
    &&& if runs.len() == 0 {
        n == 0
    } else {
        runs.last().end_offset == start + 4 * n
    }
}

/// What it means for `runs` to segment all whole words of `buffer` from
/// `start` on.
pub open spec fn is_segmentation(buffer: Seq<u8>, start: int, runs: Seq<Run>) -> bool {
    segments_words(buffer, start, word_total(buffer.len(), start) as nat, runs)
}

/// The number of words in all the runs together.
pub open spec fn total_words(runs: Seq<Run>) -> int
    decreases runs.len(),
{
    if runs.len() == 0 {
        0
    } else {
        total_words(runs.drop_last()) + runs.last().word_count
    }
}

/// Splits the words of `buffer`, from `start_offset` on, into maximal runs.
///
/// Bytes after the last whole word are ignored. A start beyond the end of the
/// buffer is refused before any word is read.
pub fn segment(buffer: &[u8], start_offset: u64) -> (result: Result<Vec<Run>, ScanError>)
    ensures
        start_offset > buffer@.len() <==> result is Err,
        result is Err ==> result == Err::<Vec<Run>, ScanError>(ScanError::SeekOutOfRange),
        result matches Ok(runs) ==> {
            &&& runs@ == segmentation(buffer@, start_offset as int)
            &&& is_segmentation(buffer@, start_offset as int, runs@)
            &&& total_words(runs@) == word_total(buffer@.len(), start_offset as int)
        },
{
    let mut reader = match WordReader::new(buffer, start_offset) {
        Ok(reader) => reader,
        Err(error) => {
            return Err(error);
        },
    };
    let ghost start = start_offset as int;
    let ghost total = word_total(buffer@.len(), start);
    let mut runs: Vec<Run> = Vec::new();
    let mut open: Option<Run> = None;
    let mut words: Ghost<nat> = Ghost(0);

    assert(buffer@.len() == buffer.len());
    loop
        invariant
            buffer@.len() <= u64::MAX,
            reader.well_formed(),
            reader.buffer() == buffer@,
            start == start_offset,
            total == word_total(buffer@.len(), start),
            reader.position() == start + 4 * words@,
            words@ <= total,
            match open {
                None => words@ == 0 && runs@.len() == 0,
                Some(run) => runs_of_prefix(buffer@, start, words@) == runs@.push(run),
            },
        ensures
            words@ == total,
            match open {
                None => words@ == 0 && runs@.len() == 0,
                Some(run) => runs_of_prefix(buffer@, start, words@) == runs@.push(run),
            },
        decreases total - words@,
    {
        let pos: u64 = reader.offset();
        let word: [u8; 4] = match reader.next_word() {
            Some(word) => word,
            None => {
                break ;
            },
        };
        let kind = if word_is_zero(&word) {
            RunKind::Zero
        } else {
            RunKind::Data
        };
        proof {
            lemma_prefix_shape(buffer@, start, words@);
        }
        open =
        match open {
            Some(run) if run.kind == kind => {
                Some(
                    Run {
                        kind,
                        start_offset: run.start_offset,
                        end_offset: pos + 4,
                        word_count: run.word_count + 1,
                    },
                )
            },
            Some(run) => {
                runs.push(run);
                Some(Run { kind, start_offset: pos, end_offset: pos + 4, word_count: 1 })
            },
            None => Some(Run { kind, start_offset: pos, end_offset: pos + 4, word_count: 1 }),
        };
        proof {
            words@ = words@ + 1;
        }
    }
    if let Some(run) = open {
        runs.push(run);
    }
    proof {
        lemma_segmentation_is_valid(buffer@, start);
        lemma_coverage(buffer@, start, runs@);
    }
    Ok(runs)
}

/// The runs of a prefix are well formed, start at `start` and end where the
/// prefix ends.
pub proof fn lemma_prefix_shape(buffer: Seq<u8>, start: int, n: nat)
    requires
        0 <= start,
        start + 4 * n <= buffer.len(),
        buffer.len() <= u64::MAX,
    ensures
        n == 0 <==> runs_of_prefix(buffer, start, n).len() == 0,
        n > 0 ==> {
            let runs = runs_of_prefix(buffer, start, n);
            &&& runs.last().end_offset == start + 4 * n
            &&& runs.last().well_formed()
            &&& start <= runs.last().start_offset
        },
    decreases n,
{
    if n > 0 {
        lemma_prefix_shape(buffer, start, (n - 1) as nat);
    }
}

/// The runs computed for a prefix do segment that prefix.
pub proof fn lemma_prefix_is_valid(buffer: Seq<u8>, start: int, n: nat)
    requires
        0 <= start,
        start + 4 * n <= buffer.len(),
        buffer.len() <= u64::MAX,
    ensures
        segments_words(buffer, start, n, runs_of_prefix(buffer, start, n)),
    decreases n,
{
    if n > 0 {
        let m = (n - 1) as nat;
        let before = runs_of_prefix(buffer, start, m);
        let last = runs_of_prefix(buffer, start, n).last();
        lemma_prefix_is_valid(buffer, start, m);
        lemma_prefix_shape(buffer, start, m);
        lemma_prefix_shape(buffer, start, n);
        // The last run either grew by the new word or consists of it; all
        // runs before it are those of the shorter prefix.
        assert forall|w: int| 0 <= w < last.word_count implies kind_at(
            buffer,
            #[trigger] last.word_offset(w),
        ) == last.kind by {
            if w < last.word_count - 1 {
                assert(before.last().word_offset(w) == last.word_offset(w));
            }
        }
    }
}

/// Only one sequence of runs segments a prefix: the one that
/// `runs_of_prefix` gives.
pub proof fn lemma_prefix_is_unique(buffer: Seq<u8>, start: int, n: nat, runs: Seq<Run>)
    requires
        0 <= start,
        start + 4 * n <= buffer.len(),
        buffer.len() <= u64::MAX,
        segments_words(buffer, start, n, runs),
    ensures
        runs == runs_of_prefix(buffer, start, n),
    decreases n,
{
    if n == 0 {
        if runs.len() > 0 {
            lemma_runs_advance(runs, runs.len() - 1);
        }
    } else {
        let m = (n - 1) as nat;
        let last = runs.last();
        let head = runs.drop_last();
        lemma_runs_advance(runs, runs.len() - 1);
        // The last word of the last run is the last word of the prefix.
        assert(last.word_offset(last.word_count - 1) == start + 4 * m);
        if last.word_count == 1 {
            // Without that word the last run is gone, and the others remain.
            assert(segments_words(buffer, start, m, head));
            lemma_prefix_is_unique(buffer, start, m, head);
        } else {
            // Without that word the last run is one word shorter.
            let shorter = Run {
                kind: last.kind,
                start_offset: last.start_offset,
                end_offset: (last.end_offset - 4) as u64,
                word_count: (last.word_count - 1) as u64,
            };
            let trimmed = head.push(shorter);
            assert(segments_words(buffer, start, m, trimmed)) by {
                assert forall|w: int| 0 <= w < shorter.word_count implies kind_at(
                    buffer,
                    #[trigger] shorter.word_offset(w),
                ) == shorter.kind by {
                    assert(last.word_offset(w) == shorter.word_offset(w));
                }
            }
            lemma_prefix_is_unique(buffer, start, m, trimmed);
        }
    }
}

/// In a gapless sequence of well-formed runs each run starts after the first
/// one started, and ends later than it starts.
pub proof fn lemma_runs_advance(runs: Seq<Run>, k: int)
    requires
        0 <= k < runs.len(),
        forall|i: int| 0 <= i < runs.len() ==> (#[trigger] runs[i]).well_formed(),
        forall|i: int, j: int|
            0 <= i && j == i + 1 && j < runs.len() ==> (#[trigger] runs[j]).start_offset == (
            #[trigger] runs[i]).end_offset,
    ensures
        runs[0].start_offset <= runs[k].start_offset < runs[k].end_offset,
    decreases k,
{
    if k > 0 {
        lemma_runs_advance(runs, k - 1);
    }
}

/// The runs of a prefix hold exactly the words of the prefix.
pub proof fn lemma_prefix_word_count(buffer: Seq<u8>, start: int, n: nat)
    requires
        0 <= start,
        start + 4 * n <= buffer.len(),
        buffer.len() <= u64::MAX,
    ensures
        total_words(runs_of_prefix(buffer, start, n)) == n,
    decreases n,
{
    if n > 0 {
        let m = (n - 1) as nat;
        let before = runs_of_prefix(buffer, start, m);
        let runs = runs_of_prefix(buffer, start, n);
        lemma_prefix_word_count(buffer, start, m);
        lemma_prefix_shape(buffer, start, m);
        if before.len() > 0 && before.last().kind == kind_at(buffer, start + 4 * m) {
            assert(runs.drop_last() =~= before.drop_last());
        } else {
            assert(runs.drop_last() =~= before);
        }
    }
}

/// The segmentation that `segment` computes is a segmentation: its runs are
/// well formed, uniform, gapless from the start to the last whole word, and
/// alternate in class.
pub proof fn lemma_segmentation_is_valid(buffer: Seq<u8>, start: int)
    requires
        0 <= start <= buffer.len() <= u64::MAX,
    ensures
        is_segmentation(buffer, start, segmentation(buffer, start)),
{
    lemma_prefix_is_valid(buffer, start, word_total(buffer.len(), start) as nat);
}

/// A buffer has one segmentation only: whatever sequence of runs is well
/// formed, uniform, gapless and alternating is the one that `segment` computes.
pub proof fn lemma_segmentation_is_unique(buffer: Seq<u8>, start: int, runs: Seq<Run>)
    requires
        0 <= start <= buffer.len() <= u64::MAX,
        is_segmentation(buffer, start, runs),
    ensures
        runs == segmentation(buffer, start),
{
    lemma_prefix_is_unique(buffer, start, word_total(buffer.len(), start) as nat, runs);
}

/// Coverage: the word counts of the runs of a segmentation add up to the
/// number of whole words between the start and the end of the buffer.
pub proof fn lemma_coverage(buffer: Seq<u8>, start: int, runs: Seq<Run>)
    requires
        0 <= start <= buffer.len() <= u64::MAX,
        is_segmentation(buffer, start, runs),
    ensures
        total_words(runs) == word_total(buffer.len(), start),
        total_words(runs) == (buffer.len() - start) / 4,
{
    lemma_segmentation_is_unique(buffer, start, runs);
    lemma_prefix_word_count(buffer, start, word_total(buffer.len(), start) as nat);
}

/// Alternation: no two consecutive runs of a segmentation share a class.
pub proof fn lemma_alternation(buffer: Seq<u8>, start: int, runs: Seq<Run>, k: int)
    requires
        is_segmentation(buffer, start, runs),
        0 <= k,
        k + 1 < runs.len(),
    ensures
        runs[k].kind != runs[k + 1].kind,
{
}

} // verus!
