//! The run coordinator's decisions: validation, loading the rows, which chunk
//! goes next, accounting each chunk's outcome exactly once, cancellation and
//! the exit status. The caller performs each action and reports back.

use vstd::prelude::*;
use crate::chunk::{chunk_of, chunked, chunks, lemma_count_bounds, views};
use crate::config::OptionConfig;
use crate::notes::{
    id_mode_spec, normalize_rows, normalized, notes_query, query_spec, rejected, IdMode, Notes,
    RawRow, RowError,
};
use crate::outcome::{ChunkError, ChunkFailure, RunOutcome};

verus! {

/// The largest number of documents sent in one request.
pub const CHUNK_SIZE: usize = 19456;

/// Exit status of a run that went to the end, failed chunks or not.
pub const EXIT_OK: i32 = 0;

/// Exit status when the run could not start: settings unreadable or invalid,
/// or a collaborator unreachable.
pub const EXIT_FATAL: i32 = 1;

/// Exit status when the operator interrupted the run.
pub const EXIT_CANCELLED: i32 = 130;

/// Why a run does not start.
#[derive(Debug, Clone, PartialEq, Eq)]
pub enum RunError {
    /// The configured identifier type is none that this library knows.
    UnsupportedIdType { idtype: String },
    /// Chunks must hold at least one document.
    InvalidChunkSize,
}

impl RunError {
    /// The exit status for a run that could not start.
    pub fn exit_code(&self) -> (r: i32)
        ensures
            r == EXIT_FATAL,
    {
        EXIT_FATAL
    }
}

/// What the engine's answer to one chunk's upsert request came to.
#[derive(Debug, Clone, PartialEq, Eq)]
pub enum DispatchOutcome {
    /// The engine answered with `status`; `body` is its response text (only
    /// needed when the status is not a success).
    Answered { status: u16, body: String },
    /// No answer came; the transport's description of why.
    TransportFailed { description: String },
}

/// Where a run stands.
#[derive(Debug, Clone, Copy, PartialEq, Eq, Structural)]
pub enum Phase {
    /// Settings are valid; the rows are yet to be fetched.
    Fetching,
    /// The rows are in and chunked; chunks are being sent in order.
    Dispatching,
    /// The operator interrupted the run.
    Interrupted,
}

/// What the caller is to do next.
#[derive(Debug, Clone, Copy, PartialEq, Eq, Structural)]
pub enum Action {
    /// Run the query and hand the rows to `load`.
    FetchRows,
    /// Send the chunk with this index (the first is 1) and hand the result to `record`.
    Dispatch { chunk_index: usize },
    /// Report the outcome and exit with this status.
    Finish { exit_code: i32 },
}

/// Whether an HTTP status is a success (2xx).
pub open spec fn is_success_spec(status: u16) -> bool {
    200 <= status <= 299
}

/// Whether an HTTP status is a success (2xx).
pub fn is_success(status: u16) -> (r: bool)
    ensures
        r == is_success_spec(status),
{
    200 <= status && status <= 299
}

/// Whether the engine took the chunk.
pub open spec fn succeeded(o: DispatchOutcome) -> bool {
    match o {
        DispatchOutcome::Answered { status, body: _ } => is_success_spec(status),
        DispatchOutcome::TransportFailed { description: _ } => false,
    }
}

/// The failure that an outcome records, when it is one.
pub open spec fn failure_spec(o: DispatchOutcome) -> ChunkFailure {
    match o {
        DispatchOutcome::Answered { status, body } => ChunkFailure::Rejected { status, body },
        DispatchOutcome::TransportFailed { description } => ChunkFailure::Transport { description },
    }
}

/// A run as the contracts see it.
pub struct RunView {
    pub mode: IdMode,
    pub chunk_size: nat,
    pub localonly: bool,
    pub limit: Option<u64>,
    pub phase: Phase,
    /// The chunks, in order; empty until the rows are loaded.
    pub chunks: Seq<Seq<Notes>>,
    /// How many chunks have an outcome recorded: always the first ones.
    pub settled: nat,
    pub total_retrieved: nat,
    pub total_added: nat,
    pub errors: Seq<ChunkError>,
    pub row_errors: Seq<RowError>,
}

impl RunView {
    /// A run whose settings were just validated.
    pub open spec fn initial(mode: IdMode, chunk_size: nat, localonly: bool, limit: Option<u64>) -> RunView {
        RunView {
            mode,
            chunk_size,
            localonly,
            limit,
            phase: Phase::Fetching,
            chunks: Seq::empty(),
            settled: 0,
            total_retrieved: 0,
            total_added: 0,
            errors: Seq::empty(),
            row_errors: Seq::empty(),
        }
    }

    /// The run once `rows` came back from the database: every row normalized,
    /// the notes chunked. Only a run waiting for its rows takes them.
    pub open spec fn loaded(self, rows: Seq<RawRow>) -> RunView {
        if self.phase == Phase::Fetching {
            RunView {
                phase: Phase::Dispatching,
                chunks: chunked(normalized(rows, self.mode), self.chunk_size),
                total_retrieved: rows.len(),
                row_errors: rejected(rows, self.mode),
                ..self
            }
        } else {
            self
        }
    }

    /// Whether the run takes an outcome for chunk `chunk_index` now: only for
    /// the next chunk in order, while dispatching.
    pub open spec fn accepts(self, chunk_index: nat) -> bool {
        &&& self.phase == Phase::Dispatching
        &&& self.settled < self.chunks.len()
        &&& chunk_index == self.settled + 1
    }

    /// The run once the next chunk's outcome is recorded: a success adds the
    /// chunk's length, a failure adds one error for it.
    pub open spec fn after(self, o: DispatchOutcome) -> RunView {
        if self.phase == Phase::Dispatching && self.settled < self.chunks.len() {
            if succeeded(o) {
                RunView {
                    settled: self.settled + 1,
                    total_added: self.total_added + self.chunks[self.settled as int].len(),
                    ..self
                }
            } else {
                RunView {
                    settled: self.settled + 1,
                    errors: self.errors.push(
                        ChunkError {
                            chunk_index: (self.settled + 1) as usize,
                            failure: failure_spec(o),
                        },
                    ),
                    ..self
                }
            }
        } else {
            self
        }
    }

    /// The run after the outcomes `os`, one after the other.
    pub open spec fn after_all(self, os: Seq<DispatchOutcome>) -> RunView
        decreases os.len(),
    {
        if os.len() == 0 {
            self
        } else {
            self.after_all(os.drop_last()).after(os.last())
        }
    }

    /// The run once the operator interrupted it.
    pub open spec fn cancelled(self) -> RunView {
        RunView { phase: Phase::Interrupted, ..self }
    }

    pub open spec fn next_action(self) -> Action {
        match self.phase {
            Phase::Fetching => Action::FetchRows,
            Phase::Dispatching => if self.settled < self.chunks.len() {
                Action::Dispatch { chunk_index: (self.settled + 1) as usize }
            } else {
                Action::Finish { exit_code: EXIT_OK }
            },
            Phase::Interrupted => Action::Finish { exit_code: EXIT_CANCELLED },
        }
    }
}

/// Documents added by the outcomes `os` for the chunks from position `from` on.
pub open spec fn added_by(chunks: Seq<Seq<Notes>>, from: nat, os: Seq<DispatchOutcome>) -> nat
    decreases os.len(),
{
    if os.len() == 0 {
        0
    } else {
        added_by(chunks, from, os.drop_last()) + if succeeded(os.last()) {
            chunks[from + os.len() - 1].len()
        } else {
            0
        }
    }
}

/// The errors that the outcomes `os` give for the chunks from position `from` on.
pub open spec fn errors_by(from: nat, os: Seq<DispatchOutcome>) -> Seq<ChunkError>
    decreases os.len(),
{
    if os.len() == 0 {
        Seq::empty()
    } else {
        let before = errors_by(from, os.drop_last());
        if succeeded(os.last()) {
            before
        } else {
            before.push(
                ChunkError {
                    chunk_index: (from + os.len()) as usize,
                    failure: failure_spec(os.last()),
                },
            )
        }
    }
}

/// One run of the transfer.
pub struct Run {
    mode: IdMode,
    chunk_size: usize,
    localonly: bool,
    limit: Option<u64>,
    phase: Phase,
    notes: Ghost<Seq<Notes>>,
    n_notes: usize,
    chunks: Vec<Vec<Notes>>,
    settled: usize,
    outcome: RunOutcome,
    row_errors: Vec<RowError>,
}

spec fn lesser(a: int, b: int) -> int {
    if a < b {
        a
    } else {
        b
    }
}

impl View for Run {
    type V = RunView;

    closed spec fn view(&self) -> RunView {
        RunView {
            mode: self.mode,
            chunk_size: self.chunk_size as nat,
            localonly: self.localonly,
            limit: self.limit,
            phase: self.phase,
            chunks: views(self.chunks@),
            settled: self.settled as nat,
            total_retrieved: self.outcome.total_retrieved as nat,
            total_added: self.outcome.total_added as nat,
            errors: self.outcome.errors@,
            row_errors: self.row_errors@,
        }
    }
}

impl Run {
    /// The chunks are the notes in order; the count of settled chunks and
    /// of documents added stay within them.
    #[verifier::type_invariant]
    spec fn wf(self) -> bool {
        &&& self.chunk_size > 0
        &&& self.n_notes == self.notes@.len()
        &&& views(self.chunks@) == chunked(self.notes@, self.chunk_size as nat)
        &&& self.settled <= self.chunks@.len()
        &&& self.outcome.total_added <= lesser(self.settled * self.chunk_size, self.n_notes as int)
        &&& self.phase == Phase::Fetching ==> self.notes@.len() == 0 && self.settled == 0
            && self.outcome.total_added == 0 && self.outcome.errors@.len() == 0
    }

    /// Validates the settings, before any I/O: the identifier type first, then
    /// the chunk size. A run that starts waits for its rows.
    pub fn start(option: &OptionConfig, chunk_size: usize) -> (r: Result<Run, RunError>)
        ensures
            id_mode_spec(option.idtype) is None ==> (r matches Err(
                RunError::UnsupportedIdType { idtype },
            ) && option.idtype == Some(idtype)),
            id_mode_spec(option.idtype) is Some && chunk_size == 0 ==> r matches Err(
                RunError::InvalidChunkSize,
            ),
            id_mode_spec(option.idtype) is Some && chunk_size > 0 ==> (r matches Ok(run) && run@
                == RunView::initial(
                id_mode_spec(option.idtype)->0,
                chunk_size as nat,
                option.localonly,
                option.limit,
            )),
    {
        let mode = match IdMode::from_idtype(&option.idtype) {
            Some(m) => m,
            None => {
                let idtype = match &option.idtype {
                    Some(s) => s.clone(),
                    None => String::new(),
                };
                return Err(RunError::UnsupportedIdType { idtype });
            },
        };
        if chunk_size == 0 {
            return Err(RunError::InvalidChunkSize);
        }
        let chunks: Vec<Vec<Notes>> = Vec::new();
        let ghost empty = Seq::<Notes>::empty();
        proof {
            lemma_count_bounds(0, chunk_size as nat, 0);
            assert(views(chunks@) =~= chunked(empty, chunk_size as nat));
        }
        let r = Run {
            mode,
            chunk_size,
            localonly: option.localonly,
            limit: option.limit,
            phase: Phase::Fetching,
            notes: Ghost(empty),
            n_notes: 0,
            chunks,
            settled: 0,
            outcome: RunOutcome { total_retrieved: 0, total_added: 0, errors: Vec::new() },
            row_errors: Vec::new(),
        };
        assert(r@.chunks =~= Seq::<Seq<Notes>>::empty());
        assert(r@.errors =~= Seq::<ChunkError>::empty());
        assert(r@.row_errors =~= Seq::<RowError>::empty());
        Ok(r)
    }

    /// What the caller is to do next.
    pub fn next_action(&self) -> (r: Action)
        ensures
            r == self@.next_action(),
    {
        match self.phase {
            Phase::Fetching => Action::FetchRows,
            Phase::Dispatching => if self.settled < self.chunks.len() {
                Action::Dispatch { chunk_index: self.settled + 1 }
            } else {
                Action::Finish { exit_code: EXIT_OK }
            },
            Phase::Interrupted => Action::Finish { exit_code: EXIT_CANCELLED },
        }
    }

    /// The query that fetches the run's rows.
    pub fn query(&self) -> (r: String)
        ensures
            r@ == query_spec(self@.mode, self@.localonly, self@.limit),
    {
        let option = OptionConfig { localonly: self.localonly, idtype: None, limit: self.limit };
        notes_query(self.mode, &option)
    }

    /// Takes the rows that the query returned: normalizes each, drops and
    /// reports those that yield no note, and chunks the notes in order. Only a
    /// run waiting for its rows takes them; any other is left as it was.
    pub fn load(&mut self, rows: Vec<RawRow>) -> (taken: bool)
        ensures
            taken == (old(self)@.phase == Phase::Fetching),
            final(self)@ == old(self)@.loaded(rows@),
    {
        proof {
            use_type_invariant(&*self);
        }
        if self.phase != Phase::Fetching {
            return false;
        }
        let retrieved = rows.len();
        let (notes, row_errors) = normalize_rows(rows, self.mode);
        let n = notes.len();
        let ghost ns = notes@;
        match chunks(notes, self.chunk_size) {
            Ok(c) => {
                *self = Run {
                    mode: self.mode,
                    chunk_size: self.chunk_size,
                    localonly: self.localonly,
                    limit: self.limit,
                    phase: Phase::Dispatching,
                    notes: Ghost(ns),
                    n_notes: n,
                    chunks: c,
                    settled: 0,
                    outcome: RunOutcome {
                        total_retrieved: retrieved,
                        total_added: 0,
                        errors: Vec::new(),
                    },
                    row_errors,
                };
                assert(self.outcome.errors@ =~= old(self).outcome.errors@);
                true
            },
            Err(_) => false,
        }
    }

    /// The chunk with index `chunk_index` (the first is 1), if there is one.
    pub fn chunk(&self, chunk_index: usize) -> (r: Option<&Vec<Notes>>)
        ensures
            r is Some <==> 1 <= chunk_index <= self@.chunks.len(),
            r matches Some(c) ==> c@ == self@.chunks[chunk_index - 1],
    {
        if 1 <= chunk_index && chunk_index <= self.chunks.len() {
            Some(&self.chunks[chunk_index - 1])
        } else {
            None
        }
    }

    /// Records the outcome of chunk `chunk_index`. Only the next chunk in
    /// order is taken, once; then a success adds the chunk's length to the
    /// documents added, and a failure adds one error that names the chunk.
    /// Any other call leaves the run as it was.
    pub fn record(&mut self, chunk_index: usize, outcome: DispatchOutcome) -> (taken: bool)
        ensures
            taken == old(self)@.accepts(chunk_index as nat),
            taken ==> final(self)@ == old(self)@.after(outcome),
            !taken ==> final(self)@ == old(self)@,
    {
        proof {
            use_type_invariant(&*self);
        }
        if self.phase != Phase::Dispatching || self.settled >= self.chunks.len() || chunk_index
            != self.settled + 1 {
            return false;
        }
        let k = self.settled;
        let ok = match &outcome {
            DispatchOutcome::Answered { status, body: _ } => is_success(*status),
            DispatchOutcome::TransportFailed { description: _ } => false,
        };
        if ok {
            let len = self.chunks[k].len();
            proof {
                let size = self.chunk_size as nat;
                let n = self.n_notes as nat;
                lemma_count_bounds(n, size, k as nat);
                assert(views(self.chunks@)[k as int] == self.chunks@[k as int]@);
                assert(chunked(self.notes@, size)[k as int] == chunk_of(self.notes@, size, k as int));
                assert((k + 1) * size == k * size + size) by (nonlinear_arith);
                assert(len == lesser((k + 1) * size, n as int) - k * size);
            }
            self.settled = k + 1;
            self.outcome.total_added = self.outcome.total_added + len;
        } else {
            let failure = match outcome {
                DispatchOutcome::Answered { status, body } => ChunkFailure::Rejected { status, body },
                DispatchOutcome::TransportFailed { description } => ChunkFailure::Transport {
                    description,
                },
            };
            proof {
                let size = self.chunk_size as nat;
                assert(k * size <= (k + 1) * size) by (nonlinear_arith);
            }
            let mut errors: Vec<ChunkError> = Vec::new();
            std::mem::swap(&mut errors, &mut self.outcome.errors);
            errors.push(ChunkError { chunk_index, failure });
            std::mem::swap(&mut errors, &mut self.outcome.errors);
            self.settled = k + 1;
        }
        true
    }

    /// Notes the operator's interrupt: no chunk is sent after it and no
    /// outcome is taken; what was recorded stays.
    pub fn cancel(&mut self)
        ensures
            final(self)@ == old(self)@.cancelled(),
    {
        proof {
            use_type_invariant(&*self);
        }
        self.phase = Phase::Interrupted;
    }

    /// Where the run stands.
    pub fn phase(&self) -> (r: Phase)
        ensures
            r == self@.phase,
    {
        self.phase
    }

    /// The accounting so far.
    pub fn outcome(&self) -> (r: &RunOutcome)
        ensures
            r.total_retrieved == self@.total_retrieved,
            r.total_added == self@.total_added,
            r.errors@ == self@.errors,
    {
        &self.outcome
    }

    /// The rows that yielded no note.
    pub fn row_errors(&self) -> (r: &Vec<RowError>)
        ensures
            r@ == self@.row_errors,
    {
        &self.row_errors
    }

    /// How many chunks the notes make.
    pub fn chunk_total(&self) -> (r: usize)
        ensures
            r == self@.chunks.len(),
    {
        self.chunks.len()
    }
}

/// Partial-failure isolation: recording the outcomes of the chunks one after
/// the other settles each chunk exactly once and in order. The documents added
/// are those of the chunks that succeeded, each failed chunk adds exactly one
/// error that names it, and a failure does not keep the next chunk from being
/// sent.
pub proof fn lemma_failure_isolated(v: RunView, os: Seq<DispatchOutcome>)
    requires
        v.phase == Phase::Dispatching,
        v.settled + os.len() <= v.chunks.len(),
    ensures
        v.after_all(os).phase == Phase::Dispatching,
        v.after_all(os).chunks == v.chunks,
        v.after_all(os).settled == v.settled + os.len(),
        v.after_all(os).total_added == v.total_added + added_by(v.chunks, v.settled, os),
        v.after_all(os).errors == v.errors + errors_by(v.settled, os),
        v.after_all(os).settled < v.chunks.len() ==> v.after_all(os).next_action()
            == (Action::Dispatch { chunk_index: (v.settled + os.len() + 1) as usize }),
    decreases os.len(),
{
    if os.len() == 0 {
        assert(v.errors + Seq::<ChunkError>::empty() =~= v.errors);
    } else {
        lemma_failure_isolated(v, os.drop_last());
        let w = v.after_all(os.drop_last());
        if !succeeded(os.last()) {
            assert(w.errors.push(
                ChunkError {
                    chunk_index: (w.settled + 1) as usize,
                    failure: failure_spec(os.last()),
                },
            ) =~= v.errors + errors_by(v.settled, os));
        }
    }
}

/// The errors that outcomes give name each chunk whose outcome is a failure
/// exactly once, in order, and no other chunk.
#[verifier::rlimit(40)]
pub proof fn lemma_errors_name_failures(from: nat, os: Seq<DispatchOutcome>)
    requires
        from + os.len() <= usize::MAX,
    ensures
        forall|j: int|
            0 <= j < errors_by(from, os).len() ==> from < #[trigger] errors_by(
                from,
                os,
            )[j].chunk_index <= from + os.len() && !succeeded(
                os[errors_by(from, os)[j].chunk_index - from - 1],
            ),
        forall|j: int, l: int|
            0 <= j < l < errors_by(from, os).len() ==> #[trigger] errors_by(from, os)[j].chunk_index
                < #[trigger] errors_by(from, os)[l].chunk_index,
        forall|i: int|
            0 <= i < os.len() && !succeeded(#[trigger] os[i]) ==> (exists|j: int|
                0 <= j < errors_by(from, os).len() && errors_by(from, os)[j].chunk_index == from
                    + i + 1),
    decreases os.len(),
{
    if os.len() > 0 {
        let p = os.drop_last();
        lemma_errors_name_failures(from, p);
        let e = errors_by(from, os);
        let ep = errors_by(from, p);
        let last = ChunkError { chunk_index: (from + os.len()) as usize, failure: failure_spec(os.last()) };
        assert(succeeded(os.last()) ==> e == ep);
        assert(!succeeded(os.last()) ==> e == ep.push(last));
        assert(forall|i: int| 0 <= i < p.len() ==> p[i] == os[i]);
        assert forall|j: int| 0 <= j < e.len() implies from < #[trigger] e[j].chunk_index <= from
            + os.len() && !succeeded(os[e[j].chunk_index - from - 1]) by {
            if j < ep.len() {
                assert(e[j] == ep[j]);
            }
        }
        assert forall|j: int, l: int| 0 <= j < l < e.len() implies #[trigger] e[j].chunk_index
            < #[trigger] e[l].chunk_index by {
            assert(e[j] == ep[j]);
            if l < ep.len() {
                assert(e[l] == ep[l]);
            }
        }
        assert forall|i: int| 0 <= i < os.len() && !succeeded(#[trigger] os[i]) implies exists|j: int|
            0 <= j < e.len() && e[j].chunk_index == from + i + 1 by {
            if i < p.len() {
                assert(!succeeded(p[i]));
                let j = choose|j: int| 0 <= j < ep.len() && ep[j].chunk_index == from + i + 1;
                assert(e[j] == ep[j]);
            } else {
                assert(e[e.len() - 1] == last);
            }
        }
    }
}

/// Cancellation truncation: once the operator interrupts a run, it takes no
/// further outcome and sends no further chunk; the documents added, the
/// errors and the chunks settled stay what they were, and the run finishes
/// with the cancellation status.
pub proof fn lemma_cancel_truncates(v: RunView, os: Seq<DispatchOutcome>)
    ensures
        v.cancelled().after_all(os) == v.cancelled(),
        v.cancelled().next_action() == (Action::Finish { exit_code: EXIT_CANCELLED }),
        v.cancelled().total_added == v.total_added,
        v.cancelled().errors == v.errors,
        v.cancelled().settled == v.settled,
        forall|k: nat| !v.cancelled().accepts(k),
    decreases os.len(),
{
    if os.len() > 0 {
        lemma_cancel_truncates(v, os.drop_last());
    }
}

} // verus!
