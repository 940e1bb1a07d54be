//! Reporting: which runs of a segmentation are written down, and what the
//! record of a run holds.
//!
//! Every run of non-zero words is reported together with its inference. A run
//! of zero words counts as a void region, and is reported, only when it holds
//! at least eight words and a non-zero word follows it: shorter gaps are
//! padding, and zero words that reach the end of the buffer stay unreported.

use crate::command::LogLevel;
use crate::infer::{infer, inference_of, lemma_run_bounds, run_bytes, Inference};
use crate::reader::{word_at, ScanError};
use crate::render::{
    append_digits, append_padded, append_signed, append_truth, digits, padded, signed_decimal, truth,
};
use crate::segment::{is_segmentation, segment, segmentation, Run, RunKind};
use crate::word::{decode_signed, decode_unsigned, signed_value, unsigned_value, Endian};
use vstd::prelude::*;
use vstd::string::StringExecFns;

verus! {

/// The least number of words that makes a run of zero words a void region.
pub const VOID_THRESHOLD: u64 = 8;

/// One line of the report.
#[derive(Debug, Clone, Copy, PartialEq, Eq, Structural)]
pub enum Record {
    /// A run of non-zero words, with what was inferred about it.
    Data { start: u64, end: u64, size: u64, inference: Inference },
    /// A void region: a long run of zero words.
    Void { start: u64, end: u64, size: u64 },
}

/// The end offset as it is displayed: the raw end less the report offset,
/// modulo 2^64.
pub open spec fn displayed_end(end_offset: u64, report_offset: u64) -> u64 {
    if end_offset >= report_offset {
        (end_offset - report_offset) as u64
    } else {
        (end_offset - report_offset + 0x1_0000_0000_0000_0000) as u64
    }
}

/// The words of a run, in order.
pub open spec fn run_words(buffer: Seq<u8>, run: Run) -> Seq<[u8; 4]> {
    Seq::new(run.word_count as nat, |w: int| word_at(buffer, run.word_offset(w)))
}

/// The record of one run.
pub open spec fn record_of(buffer: Seq<u8>, run: Run, endian: Endian, report_offset: u64) -> Record {
    match run.kind {
        RunKind::Data => Record::Data {
            start: run.start_offset,
            end: displayed_end(run.end_offset, report_offset),
            size: run.spec_size() as u64,
            inference: inference_of(run_words(buffer, run), endian),
        },
        RunKind::Zero => Record::Void {
            start: run.start_offset,
            end: displayed_end(run.end_offset, report_offset),
            size: run.spec_size() as u64,
        },
    }
}

/// Whether the `k`-th run is reported. A data run always is; a zero run is
/// when it reaches the threshold and is not the last run.
pub open spec fn is_reported(runs: Seq<Run>, k: int) -> bool {
    match runs[k].kind {
        RunKind::Data => true,
        RunKind::Zero => runs[k].word_count >= VOID_THRESHOLD && k + 1 < runs.len(),
    }
}

/// The records of the reported runs among the first `n`, in order.
pub open spec fn records_of_prefix(
    buffer: Seq<u8>,
    runs: Seq<Run>,
    endian: Endian,
    report_offset: u64,
    n: nat,
) -> Seq<Record>
    decreases n,
{
    if n == 0 {
        Seq::empty()
    } else {
        let before = records_of_prefix(buffer, runs, endian, report_offset, (n - 1) as nat);
        if is_reported(runs, n - 1) {
            before.push(record_of(buffer, runs[n - 1], endian, report_offset))
        } else {
            before
        }
    }
}

/// The records of all reported runs, in order.
pub open spec fn records_of(buffer: Seq<u8>, runs: Seq<Run>, endian: Endian, report_offset: u64) -> Seq<
    Record,
> {
    records_of_prefix(buffer, runs, endian, report_offset, runs.len())
}

/// The line that shows one decoding of a word: the number, the byte order and
/// the signedness.
pub open spec fn decoding_text(value: int, endian: Endian, signed: bool) -> Seq<char> {
    signed_decimal(value) + " as "@ + endian.spec_name() + if signed {
        " signed"@
    } else {
        " unsigned"@
    }
}

/// Writes the lines that show a word decoded as a signed and as an unsigned
/// integer, in this order, for inspection at `Trace`.
pub fn decoding_lines(word: &[u8; 4], endian: Endian) -> (lines: (String, String))
    ensures
        lines.0@ == decoding_text(signed_value(*word, endian), endian, true),
        lines.1@ == decoding_text(unsigned_value(*word, endian), endian, false),
{
    let mut signed = String::new();
    append_signed(&mut signed, decode_signed(word, endian) as i64);
    signed.append(" as ");
    signed.append(endian.name());
    signed.append(" signed");
    let mut unsigned = String::new();
    append_signed(&mut unsigned, decode_unsigned(word, endian) as i64);
    unsigned.append(" as ");
    unsigned.append(endian.name());
    unsigned.append(" unsigned");
    (signed, unsigned)
}

/// An offset as it is written in a report: `0x`, then the offset in
/// hexadecimal with at least eight digits.
pub open spec fn offset_text(offset: u64) -> Seq<char> {
    seq!['0', 'x'] + padded(offset as nat, 16, false, 8)
}

/// Appends an offset as it is written in a report.
pub fn append_offset(out: &mut String, offset: u64)
    ensures
        final(out)@ == old(out)@ + offset_text(offset),
{
    proof {
        reveal_strlit("0x");
    }
    out.append("0x");
    append_padded(out, offset, 16, false, 8);
}

impl Record {
    /// The record as one line of text: the tag, the start and the displayed
    /// end, the size in bytes and, for a data run, what was inferred.
    pub open spec fn spec_line(&self) -> Seq<char> {
        match *self {
            Record::Data { start, end, size, inference } => "DATA "@ + offset_text(start) + " "@
                + offset_text(end) + " size="@ + digits(size as nat, 10, false) + " probably="@
                + inference.assumed_type.spec_name() + " min="@ + signed_decimal(
                inference.min as int,
            ) + " max="@ + signed_decimal(inference.max as int) + " maybe_float="@ + truth(
                inference.float_plausible,
            ) + " maybe_string="@ + truth(inference.string_plausible),
            Record::Void { start, end, size } => "VOID "@ + offset_text(start) + " "@
                + offset_text(end) + " size="@ + digits(size as nat, 10, false),
        }
    }

    /// Writes the record as one line of text.
    pub fn line(&self) -> (line: String)
        ensures
            line@ == self.spec_line(),
    {
        match *self {
            Record::Data { start, end, size, inference } => {
                let mut line = String::from_str("DATA ");
                append_offset(&mut line, start);
                line.append(" ");
                append_offset(&mut line, end);
                line.append(" size=");
                append_digits(&mut line, size, 10, false);
                line.append(" probably=");
                line.append(inference.assumed_type.name());
                line.append(" min=");
                append_signed(&mut line, inference.min);
                line.append(" max=");
                append_signed(&mut line, inference.max);
                line.append(" maybe_float=");
                append_truth(&mut line, inference.float_plausible);
                line.append(" maybe_string=");
                append_truth(&mut line, inference.string_plausible);
                line
            },
            Record::Void { start, end, size } => {
                let mut line = String::from_str("VOID ");
                append_offset(&mut line, start);
                line.append(" ");
                append_offset(&mut line, end);
                line.append(" size=");
                append_digits(&mut line, size, 10, false);
                line
            },
        }
    }

    /// The tier at which the record is written: data runs at `Info`, void
    /// regions at `Debug`.
    pub open spec fn spec_level(&self) -> LogLevel {
        match self {
            Record::Data { .. } => LogLevel::Info,
            Record::Void { .. } => LogLevel::Debug,
        }
    }

    /// The tier at which the record is written.
    pub fn level(&self) -> (level: LogLevel)
        ensures
            level == self.spec_level(),
    {
        match self {
            Record::Data { .. } => LogLevel::Info,
            Record::Void { .. } => LogLevel::Debug,
        }
    }
}

/// Reads the words of a run out of the buffer.
pub fn collect_words(buffer: &[u8], run: &Run) -> (words: Vec<[u8; 4]>)
    requires
        run.well_formed(),
        run.end_offset <= buffer@.len(),
    ensures
        words@ == run_words(buffer@, *run),
{
    let mut words: Vec<[u8; 4]> = Vec::new();
    assert(buffer@.len() == buffer.len());
    let mut at: usize = run.start_offset as usize;
    let mut taken: u64 = 0;
    while taken < run.word_count
        invariant
            run.well_formed(),
            run.end_offset <= buffer@.len(),
            taken <= run.word_count,
            at == run.word_offset(taken as int),
            words@ == Seq::new(taken as nat, |w: int| word_at(buffer@, run.word_offset(w))),
        decreases run.word_count - taken,
    {
        words.push([buffer[at], buffer[at + 1], buffer[at + 2], buffer[at + 3]]);
        at = at + 4;
        taken = taken + 1;
    }
    words
}

/// Writes the record of one run.
pub fn describe(buffer: &[u8], run: &Run, endian: Endian, report_offset: u64) -> (record: Record)
    requires
        run.well_formed(),
        run.end_offset <= buffer@.len(),
    ensures
        record == record_of(buffer@, *run, endian, report_offset),
{
    let end: u64 = run.end_offset.wrapping_sub(report_offset);
    let size: u64 = run.size();
    match run.kind {
        RunKind::Data => {
            let words = collect_words(buffer, run);
            let (assumed_type, min, max, float_plausible, string_plausible) = infer(
                words.as_slice(),
                endian,
            );
            proof {
                lemma_run_bounds(words@, endian);
            }
            Record::Data {
                start: run.start_offset,
                end,
                size,
                inference: Inference { assumed_type, min, max, float_plausible, string_plausible },
            }
        },
        RunKind::Zero => Record::Void { start: run.start_offset, end, size },
    }
}

/// Writes the records of the runs that are reported, in the order of the runs.
pub fn report(buffer: &[u8], runs: &[Run], endian: Endian, report_offset: u64) -> (records: Vec<
    Record,
>)
    requires
        forall|k: int|
            0 <= k < runs@.len() ==> (#[trigger] runs@[k]).well_formed() && runs@[k].end_offset
                <= buffer@.len(),
    ensures
        records@ == records_of(buffer@, runs@, endian, report_offset),
{
    let mut records: Vec<Record> = Vec::new();
    for k in 0..runs.len()
        invariant
            forall|k: int|
                0 <= k < runs@.len() ==> (#[trigger] runs@[k]).well_formed() && runs@[k].end_offset
                    <= buffer@.len(),
            records@ == records_of_prefix(buffer@, runs@, endian, report_offset, k as nat),
    {
        let run: &Run = &runs[k];
        let reported = match run.kind {
            RunKind::Data => true,
            RunKind::Zero => run.word_count >= VOID_THRESHOLD && k + 1 < runs.len(),
        };
        if reported {
            records.push(describe(buffer, run, endian, report_offset));
        }
    }
    records
}

/// Scans a buffer: segments its words from `start_offset` on and writes the
/// records of the runs that are reported.
///
/// A start beyond the end of the buffer is refused before any word is read.
/// Nothing else fails: the end of the buffer, with or without a truncated
/// word before it, ends the scan.
pub fn scan(buffer: &[u8], start_offset: u64, endian: Endian, report_offset: u64) -> (result: Result<
    Vec<Record>,
    ScanError,
>)
    ensures
        start_offset > buffer@.len() <==> result is Err,
        result is Err ==> result == Err::<Vec<Record>, ScanError>(ScanError::SeekOutOfRange),
        result matches Ok(records) ==> records@ == records_of(
            buffer@,
            segmentation(buffer@, start_offset as int),
            endian,
            report_offset,
        ),
{
    let runs = match segment(buffer, start_offset) {
        Ok(runs) => runs,
        Err(error) => {
            return Err(error);
        },
    };
    Ok(report(buffer, runs.as_slice(), endian, report_offset))
}

/// A record is among the records of the first `n` runs exactly when it is the
/// record of a reported run among them.
pub proof fn lemma_records_membership(
    buffer: Seq<u8>,
    runs: Seq<Run>,
    endian: Endian,
    report_offset: u64,
    n: nat,
    record: Record,
)
    ensures
        records_of_prefix(buffer, runs, endian, report_offset, n).contains(record) <==> exists|
            i: int,
        |
            0 <= i < n && #[trigger] is_reported(runs, i) && record == record_of(
                buffer,
                runs[i],
                endian,
                report_offset,
            ),
    decreases n,
{
    if n > 0 {
        let m = (n - 1) as nat;
        let before = records_of_prefix(buffer, runs, endian, report_offset, m);
        let now = records_of_prefix(buffer, runs, endian, report_offset, n);
        lemma_records_membership(buffer, runs, endian, report_offset, m, record);
        if exists|i: int|
            0 <= i < n && #[trigger] is_reported(runs, i) && record == record_of(
                buffer,
                runs[i],
                endian,
                report_offset,
            ) {
            let i = choose|i: int|
                0 <= i < n && #[trigger] is_reported(runs, i) && record == record_of(
                    buffer,
                    runs[i],
                    endian,
                    report_offset,
                );
            if i == n - 1 {
                assert(now[now.len() - 1] == record);
            } else {
                let j = choose|j: int| 0 <= j < before.len() && before[j] == record;
                assert(now[j] == record);
            }
        }
    }
}

/// In a segmentation a later run starts later.
pub proof fn lemma_starts_increase(buffer: Seq<u8>, start: int, runs: Seq<Run>, i: int, k: int)
    requires
        is_segmentation(buffer, start, runs),
        0 <= i < k < runs.len(),
    ensures
        runs[i].start_offset < runs[k].start_offset,
    decreases k - i,
{
    if i + 1 < k {
        lemma_starts_increase(buffer, start, runs, i + 1, k);
    }
}

/// Threshold: the record of a run of zero words is among the records of a
/// segmentation exactly when the run holds at least eight words and is not
/// the last run, that is, when a non-zero word follows it.
pub proof fn lemma_threshold(
    buffer: Seq<u8>,
    start: int,
    runs: Seq<Run>,
    endian: Endian,
    report_offset: u64,
    k: int,
)
    requires
        is_segmentation(buffer, start, runs),
        0 <= k < runs.len(),
        runs[k].kind == RunKind::Zero,
    ensures
        records_of(buffer, runs, endian, report_offset).contains(
            record_of(buffer, runs[k], endian, report_offset),
        ) <==> runs[k].word_count >= VOID_THRESHOLD && k + 1 < runs.len(),
{
    let record = record_of(buffer, runs[k], endian, report_offset);
    lemma_records_membership(buffer, runs, endian, report_offset, runs.len(), record);
    if records_of(buffer, runs, endian, report_offset).contains(record) {
        let i = choose|i: int|
            0 <= i < runs.len() && #[trigger] is_reported(runs, i) && record == record_of(
                buffer,
                runs[i],
                endian,
                report_offset,
            );
        if i < k {
            lemma_starts_increase(buffer, start, runs, i, k);
        }
        if k < i {
            lemma_starts_increase(buffer, start, runs, k, i);
        }
    }
    if runs[k].word_count >= VOID_THRESHOLD && k + 1 < runs.len() {
        assert(is_reported(runs, k));
    }
}

/// Every run of non-zero words of a run sequence has its record among the
/// records.
pub proof fn lemma_data_runs_are_reported(
    buffer: Seq<u8>,
    runs: Seq<Run>,
    endian: Endian,
    report_offset: u64,
    k: int,
)
    requires
        0 <= k < runs.len(),
        runs[k].kind == RunKind::Data,
    ensures
        records_of(buffer, runs, endian, report_offset).contains(
            record_of(buffer, runs[k], endian, report_offset),
        ),
{
    let record = record_of(buffer, runs[k], endian, report_offset);
    lemma_records_membership(buffer, runs, endian, report_offset, runs.len(), record);
    assert(is_reported(runs, k));
}

/// No record of a void region spans fewer than eight words, and every record
/// of a void region stems from a run of zero words that is not the last run.
pub proof fn lemma_void_records_are_long(
    buffer: Seq<u8>,
    runs: Seq<Run>,
    endian: Endian,
    report_offset: u64,
    j: int,
)
    requires
        forall|k: int| 0 <= k < runs.len() ==> (#[trigger] runs[k]).well_formed(),
        0 <= j < records_of(buffer, runs, endian, report_offset).len(),
        records_of(buffer, runs, endian, report_offset)[j] is Void,
    ensures
        records_of(buffer, runs, endian, report_offset)[j]->Void_size >= 4 * VOID_THRESHOLD,
        exists|k: int|
            0 <= k && k + 1 < runs.len() && #[trigger] is_reported(runs, k) && runs[k].kind
                == RunKind::Zero && records_of(buffer, runs, endian, report_offset)[j]
                == record_of(buffer, runs[k], endian, report_offset),
{
    let records = records_of(buffer, runs, endian, report_offset);
    let record = records[j];
    lemma_records_membership(buffer, runs, endian, report_offset, runs.len(), record);
}

/// The bytes of the words of a run are the bytes of the buffer between the
/// start and the end of the run.
pub proof fn lemma_run_bytes_are_buffer_bytes(buffer: Seq<u8>, run: Run)
    requires
        run.well_formed(),
        run.end_offset <= buffer.len(),
    ensures
        run_bytes(run_words(buffer, run)) == buffer.subrange(
            run.start_offset as int,
            run.end_offset as int,
        ),
{
    assert(run_bytes(run_words(buffer, run)) =~= buffer.subrange(
        run.start_offset as int,
        run.end_offset as int,
    ));
}

} // verus!
