//! What a run accumulates: documents added, chunks that failed, and how a
//! failure reads in the error log.

use vstd::prelude::*;
use vstd::string::*;
use crate::text::{decimal, decimal_spec, signed_decimal, signed_decimal_spec};

verus! {

/// Why one chunk was not added.
#[derive(Debug, Clone, PartialEq, Eq)]
pub enum ChunkFailure {
    /// The request got no answer; the transport's description of why.
    Transport { description: String },
    /// The engine answered with a status outside 2xx, and this response text.
    Rejected { status: u16, body: String },
}

/// One failed chunk: its index (the first chunk is 1) and why it failed.
#[derive(Debug, Clone, PartialEq, Eq)]
pub struct ChunkError {
    pub chunk_index: usize,
    pub failure: ChunkFailure,
}

/// The accounting of a run.
#[derive(Debug, Clone, PartialEq, Eq)]
pub struct RunOutcome {
    /// Rows the database returned.
    pub total_retrieved: usize,
    /// Documents the engine accepted.
    pub total_added: usize,
    /// One entry per failed chunk, in chunk order.
    pub errors: Vec<ChunkError>,
}

pub open spec fn message_spec(f: ChunkFailure) -> Seq<char> {
    match f {
        ChunkFailure::Transport { description } => description@,
        ChunkFailure::Rejected { status, body } => "status "@ + decimal_spec(status as nat) + ": "@
            + body@,
    }
}

pub open spec fn log_line_spec(e: ChunkError) -> Seq<char> {
    "Error in chunk "@ + decimal_spec(e.chunk_index as nat) + ": "@ + message_spec(e.failure)
}

/// The lines of `errors`, one per failed chunk, joined by newlines.
pub open spec fn error_log_spec(errors: Seq<ChunkError>) -> Seq<char>
    decreases errors.len(),
{
    if errors.len() == 0 {
        Seq::empty()
    } else if errors.len() == 1 {
        log_line_spec(errors[0])
    } else {
        error_log_spec(errors.drop_last()) + "\n"@ + log_line_spec(errors.last())
    }
}

pub open spec fn error_log_name_spec(millis: int) -> Seq<char> {
    "error-"@ + signed_decimal_spec(millis) + ".log"@
}

impl ChunkFailure {
    /// The text that the error log gives for this failure: the transport's
    /// description, or the status and the response text verbatim.
    pub fn message(&self) -> (r: String)
        ensures
            r@ == message_spec(*self),
    {
        match self {
            ChunkFailure::Transport { description } => description.clone(),
            ChunkFailure::Rejected { status, body } => {
                let mut r = String::from_str("status ");
                let code = decimal(*status as u64);
                r.append(code.as_str());
                r.append(": ");
                r.append(body.as_str());
                r
            },
        }
    }
}

impl ChunkError {
    /// The error log's line for this chunk: "Error in chunk {index}: {message}".
    pub fn log_line(&self) -> (r: String)
        ensures
            r@ == log_line_spec(*self),
    {
        let mut r = String::from_str("Error in chunk ");
        let index = decimal(self.chunk_index as u64);
        r.append(index.as_str());
        r.append(": ");
        let message = self.failure.message();
        r.append(message.as_str());
        r
    }
}

impl RunOutcome {
    /// Failed chunks. The unit is chunks, not the documents inside them.
    pub fn total_skipped(&self) -> (r: usize)
        ensures
            r == self.errors@.len(),
    {
        self.errors.len()
    }

    /// The error log: one line per failed chunk, in chunk order, separated by
    /// newlines.
    pub fn error_log(&self) -> (r: String)
        ensures
            r@ == error_log_spec(self.errors@),
    {
        let mut r = String::new();
        let mut i: usize = 0;
        while i < self.errors.len()
            invariant
                i <= self.errors@.len(),
                r@ == error_log_spec(self.errors@.subrange(0, i as int)),
            decreases self.errors@.len() - i,
        {
            proof {
                let s = self.errors@.subrange(0, i + 1);
                assert(s.drop_last() =~= self.errors@.subrange(0, i as int));
                assert(s.last() == self.errors@[i as int]);
                if i == 0 {
                    assert(s[0] == self.errors@[0]);
                }
            }
            if i > 0 {
                r.append("\n");
            }
            let line = self.errors[i].log_line();
            r.append(line.as_str());
            proof {
                let s = self.errors@.subrange(0, i + 1);
                if i == 0 {
                    assert(Seq::<char>::empty() + log_line_spec(self.errors@[0]) =~= log_line_spec(
                        self.errors@[0],
                    ));
                }
            }
            i = i + 1;
        }
        assert(self.errors@.subrange(0, i as int) =~= self.errors@);
        r
    }
}

/// The name of the error log written when a run that ended at `millis`
/// (milliseconds since the Unix epoch) had failures: "error-{millis}.log".
pub fn error_log_name(millis: i64) -> (r: String)
    ensures
        r@ == error_log_name_spec(millis as int),
{
    let mut r = String::from_str("error-");
    let digits = signed_decimal(millis);
    r.append(digits.as_str());
    r.append(".log");
    r
}

} // verus!
