//! The record-stream driver: gathering a line from buffered chunks, and the
//! per-line decision of a four-line record.
use vstd::prelude::*;
use crate::header::{header_check, rewrite_header_i5, rewritten_header, HeaderError, NEWLINE};
use crate::search::{contains_byte, find_first, first_index, lemma_first_index_unique};

verus! {

/// What one chunk of input did to the line being gathered.
#[derive(Clone, Copy, Debug, PartialEq, Eq, Structural)]
pub struct ChunkTake {
    /// How many bytes of the chunk now belong to the line.
    pub consumed: usize,
    /// Whether the line is now complete (its `\n` was taken).
    pub complete: bool,
}

/// How many bytes of `chunk` a line takes: through the first `\n` when
/// there is one, else all of them.
pub open spec fn line_take(chunk: Seq<u8>) -> int {
    if contains_byte(chunk, NEWLINE) {
        first_index(chunk, NEWLINE) + 1
    } else {
        chunk.len() as int
    }
}

/// Appends to `line` the bytes of `chunk` that belong to the current line:
/// through the first `\n` (the line is then complete), or the whole chunk
/// when it holds no `\n`.
pub fn append_line_chunk(line: &mut Vec<u8>, chunk: &[u8]) -> (r: ChunkTake)
    ensures
        r.complete == contains_byte(chunk@, NEWLINE),
        r.consumed == line_take(chunk@),
        final(line)@ == old(line)@ + chunk@.subrange(0, line_take(chunk@)),
{
    let n: usize = chunk.len();
    match find_first(NEWLINE, chunk) {
        Some(pos) => {
            proof {
                lemma_first_index_unique(chunk@, NEWLINE, pos as int);
            }
            let ghost before = line@;
            line.extend_from_slice(&chunk[0..pos + 1]);
            assert(line@ =~= before + chunk@.subrange(0, pos + 1));
            ChunkTake { consumed: pos + 1, complete: true }
        },
        None => {
            let ghost before = line@;
            line.extend_from_slice(chunk);
            assert(line@ =~= before + chunk@.subrange(0, chunk@.len() as int));
            ChunkTake { consumed: n, complete: false }
        },
    }
}

/// Number of lines in one record: a header and three payload lines.
pub const LINES_PER_RECORD: usize = 4;

/// Where the driver stands within a record.
#[derive(Clone, Copy, Debug, PartialEq, Eq, Structural)]
pub enum RecordState {
    /// The next line is a header.
    AwaitingHeader,
    /// The next line is payload line `k` of the record, for `k` in 1..=3.
    ReadingPayload(usize),
}

/// Why a stream of records was rejected.
#[derive(Clone, Copy, Debug, PartialEq, Eq, Structural)]
pub enum FixError {
    /// A header line broke one of the header rules.
    Header(HeaderError),
    /// The input ended inside a record.
    TruncatedRecord,
}

impl FixError {
    /// The text shown to a user for this error.
    pub fn message(&self) -> (r: &'static str)
        ensures
            r@ == match *self {
                FixError::Header(e) => e.message_text(),
                FixError::TruncatedRecord => "truncated FASTQ record (expected 4 lines)"@,
            },
    {
        match self {
            FixError::Header(e) => e.message(),
            FixError::TruncatedRecord => "truncated FASTQ record (expected 4 lines)",
        }
    }
}

/// What the driver does after a line.
#[derive(Clone, Copy, Debug, PartialEq, Eq, Structural)]
pub enum Step {
    /// Write the line out, then go on in the given state.
    Emit(RecordState),
    /// The input ended cleanly at a record boundary.
    Done,
}

impl RecordState {
    /// A payload state names one of the three payload lines.
    pub open spec fn wf(self) -> bool {
        match self {
            RecordState::AwaitingHeader => true,
            RecordState::ReadingPayload(k) => 1 <= k < LINES_PER_RECORD,
        }
    }

    /// The state after a line has been emitted in this state.
    pub open spec fn next(self) -> RecordState {
        match self {
            RecordState::AwaitingHeader => RecordState::ReadingPayload(1),
            RecordState::ReadingPayload(k) => if k + 1 == LINES_PER_RECORD {
                RecordState::AwaitingHeader
            } else {
                RecordState::ReadingPayload((k + 1) as usize)
            },
        }
    }
}

/// What the driver decides on reading `line` (empty at end of input) in
/// `state`.
pub open spec fn step_result(state: RecordState, line: Seq<u8>) -> Result<Step, FixError> {
    if line.len() == 0 {
        match state {
            RecordState::AwaitingHeader => Ok(Step::Done),
            RecordState::ReadingPayload(_) => Err(FixError::TruncatedRecord),
        }
    } else {
        match state {
            RecordState::AwaitingHeader => match header_check(line) {
                Ok(_) => Ok(Step::Emit(state.next())),
                Err(e) => Err(FixError::Header(e)),
            },
            RecordState::ReadingPayload(_) => Ok(Step::Emit(state.next())),
        }
    }
}

/// The line as the driver leaves it: a valid header is rewritten, every
/// other line is kept as it was read.
pub open spec fn step_output(state: RecordState, line: Seq<u8>) -> Seq<u8> {
    if state == RecordState::AwaitingHeader && line.len() > 0 && header_check(line) is Ok {
        rewritten_header(line)
    } else {
        line
    }
}

/// Handles one line read in `state`. An empty line stands for the end of
/// input: clean before a header, a truncated record anywhere else. A header
/// is rewritten in place; payload lines pass through unchanged.
pub fn process_line(state: RecordState, line: &mut [u8]) -> (r: Result<Step, FixError>)
    requires
        state.wf(),
    ensures
        r == step_result(state, old(line)@),
        final(line)@ == step_output(state, old(line)@),
        r matches Ok(Step::Emit(next)) ==> next.wf(),
{
    if line.len() == 0 {
        return match state {
            RecordState::AwaitingHeader => Ok(Step::Done),
            RecordState::ReadingPayload(_) => Err(FixError::TruncatedRecord),
        };
    }
    match state {
        RecordState::AwaitingHeader => match rewrite_header_i5(line) {
            Ok(()) => Ok(Step::Emit(RecordState::ReadingPayload(1))),
            Err(e) => Err(FixError::Header(e)),
        },
        RecordState::ReadingPayload(k) => {
            if k + 1 == LINES_PER_RECORD {
                Ok(Step::Emit(RecordState::AwaitingHeader))
            } else {
                Ok(Step::Emit(RecordState::ReadingPayload(k + 1)))
            }
        },
    }
}

/// A complete record with a valid header goes through the driver as one
/// cycle: the header comes out rewritten, the three payload lines come out
/// byte for byte as they were read, and the driver again awaits a header.
pub proof fn lemma_record_passthrough(h: Seq<u8>, l2: Seq<u8>, l3: Seq<u8>, l4: Seq<u8>)
    requires
        header_check(h) is Ok,
        l2.len() > 0,
        l3.len() > 0,
        l4.len() > 0,
    ensures
        step_result(RecordState::AwaitingHeader, h) == Ok::<Step, FixError>(
            Step::Emit(RecordState::ReadingPayload(1)),
        ),
        step_output(RecordState::AwaitingHeader, h) == rewritten_header(h),
        step_result(RecordState::ReadingPayload(1), l2) == Ok::<Step, FixError>(
            Step::Emit(RecordState::ReadingPayload(2)),
        ),
        step_output(RecordState::ReadingPayload(1), l2) == l2,
        step_result(RecordState::ReadingPayload(2), l3) == Ok::<Step, FixError>(
            Step::Emit(RecordState::ReadingPayload(3)),
        ),
        step_output(RecordState::ReadingPayload(2), l3) == l3,
        step_result(RecordState::ReadingPayload(3), l4) == Ok::<Step, FixError>(
            Step::Emit(RecordState::AwaitingHeader),
        ),
        step_output(RecordState::ReadingPayload(3), l4) == l4,
{
}

} // verus!
