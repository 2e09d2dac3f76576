//! Notes, the documents that the index receives, and how a database row
//! becomes one.

use vstd::prelude::*;
use vstd::string::*;
use crate::aid::{aid_millis, has_aid_time, lemma_aid_millis_bounds, parse};
use crate::config::OptionConfig;
use crate::text::{decimal, decimal_spec};

verus! {

/// The largest number of whole seconds, either side of the Unix epoch, whose
/// milliseconds fit in an `i64`.
pub const MAX_SECONDS: i64 = 9_223_372_036_854_774;

/// A point in time as the database hands it over: whole seconds since the
/// Unix epoch and the milliseconds past them.
#[derive(Debug, Clone, Copy, PartialEq, Eq)]
pub struct UtcTimestamp {
    pub seconds: i64,
    pub subsec_millis: u32,
}

impl UtcTimestamp {
    /// The sub-second part is below a second and the whole in milliseconds
    /// fits in an `i64`.
    pub open spec fn wf(self) -> bool {
        &&& self.subsec_millis < 1000
        &&& -MAX_SECONDS <= self.seconds <= MAX_SECONDS
    }

    /// Milliseconds since the Unix epoch.
    pub open spec fn millis_spec(self) -> int {
        self.seconds * 1000 + self.subsec_millis
    }

    /// Milliseconds since the Unix epoch; `None` when the value is not well formed.
    pub fn millis(&self) -> (r: Option<i64>)
        ensures
            r is Some <==> self.wf(),
            r matches Some(ms) ==> ms == self.millis_spec(),
    {
        if self.subsec_millis < 1000 && -MAX_SECONDS <= self.seconds && self.seconds <= MAX_SECONDS {
            Some(self.seconds * 1000 + self.subsec_millis as i64)
        } else {
            None
        }
    }
}

/// One note as the search index stores it.
#[derive(Debug, Clone, PartialEq, Eq)]
pub struct Notes {
    /// Primary key.
    pub id: String,
    /// Milliseconds since the Unix epoch.
    pub created_at: i64,
    pub user_id: String,
    /// Absent for a local author.
    pub user_host: Option<String>,
    pub channel_id: Option<String>,
    /// Content warning.
    pub cw: Option<String>,
    pub text: String,
    pub tags: Vec<String>,
}

impl Notes {
    /// A note whose creation time is `created_at` in milliseconds.
    pub fn new(
        id: String,
        created_at: UtcTimestamp,
        user_id: String,
        user_host: Option<String>,
        channel_id: Option<String>,
        cw: Option<String>,
        text: String,
        tags: Vec<String>,
    ) -> (r: Self)
        requires
            created_at.wf(),
        ensures
            r.created_at == created_at.millis_spec(),
            r.id == id,
            r.user_id == user_id,
            r.user_host == user_host,
            r.channel_id == channel_id,
            r.cw == cw,
            r.text == text,
            r.tags == tags,
    {
        let created_at = created_at.seconds * 1000 + created_at.subsec_millis as i64;
        Notes { id, created_at, user_id, user_host, channel_id, cw, text, tags }
    }
}

/// One row of the note table, as read from the database.
#[derive(Debug, Clone, PartialEq, Eq)]
pub struct RawRow {
    pub id: String,
    /// The creation time column; not read when the identifier carries the time.
    pub created_at: Option<UtcTimestamp>,
    pub user_id: String,
    pub user_host: Option<String>,
    pub channel_id: Option<String>,
    pub cw: Option<String>,
    pub text: String,
    pub tags: Vec<String>,
}

/// Where every note of a run takes its creation time from.
#[derive(Debug, Clone, Copy, PartialEq, Eq, Structural)]
pub enum IdMode {
    /// The row's creation time column.
    Column,
    /// The leading characters of the identifier.
    Aid,
}

/// Whether `name` names the identifier encoding that carries creation times.
pub open spec fn is_aid_name(name: Seq<char>) -> bool {
    name == "aid"@ || name == "aidx"@
}

/// The mode that a configured identifier type selects, if it is a known one.
pub open spec fn id_mode_spec(idtype: Option<String>) -> Option<IdMode> {
    match idtype {
        None => Some(IdMode::Column),
        Some(name) => if is_aid_name(name@) {
            Some(IdMode::Aid)
        } else {
            None
        },
    }
}

impl IdMode {
    /// The mode that the configured identifier type selects: the column when it
    /// is unset, the identifier for "aid" or "aidx", none for any other name.
    pub fn from_idtype(idtype: &Option<String>) -> (r: Option<IdMode>)
        ensures
            r == id_mode_spec(*idtype),
    {
        match idtype {
            None => Some(IdMode::Column),
            Some(name) => {
                let aid = String::from_str("aid");
                let aidx = String::from_str("aidx");
                if *name == aid || *name == aidx {
                    Some(IdMode::Aid)
                } else {
                    None
                }
            },
        }
    }
}

/// Why a row yields no note.
#[derive(Debug, Clone, Copy, PartialEq, Eq, Structural)]
pub enum NoteError {
    /// The creation time column is missing, out of range or before the epoch.
    MalformedRow,
    /// The identifier does not begin with a creation time.
    InvalidIdentifier,
}

/// The creation time, in milliseconds, that `row` has under `mode`.
pub open spec fn created_at_spec(mode: IdMode, row: RawRow) -> Option<int> {
    match mode {
        IdMode::Column => match row.created_at {
            Some(t) => if t.wf() && t.millis_spec() >= 0 {
                Some(t.millis_spec())
            } else {
                None
            },
            None => None,
        },
        IdMode::Aid => if has_aid_time(row.id@) {
            Some(aid_millis(row.id@))
        } else {
            None
        },
    }
}

/// The note that `row` becomes with the creation time `created_at`.
pub open spec fn note_of(row: RawRow, created_at: int) -> Notes {
    Notes {
        id: row.id,
        created_at: created_at as i64,
        user_id: row.user_id,
        user_host: row.user_host,
        channel_id: row.channel_id,
        cw: row.cw,
        text: row.text,
        tags: row.tags,
    }
}

/// The error that a row without a creation time gives under `mode`.
pub open spec fn failure_of(mode: IdMode) -> NoteError {
    match mode {
        IdMode::Column => NoteError::MalformedRow,
        IdMode::Aid => NoteError::InvalidIdentifier,
    }
}

pub open spec fn normalize_spec(row: RawRow, mode: IdMode) -> Result<Notes, NoteError> {
    match created_at_spec(mode, row) {
        Some(ms) => Ok(note_of(row, ms)),
        None => Err(failure_of(mode)),
    }
}

/// Turns one row into a note. Every field but the creation time passes
/// through; the creation time comes from the column or from the identifier,
/// as `mode` says.
pub fn normalize(row: RawRow, mode: IdMode) -> (r: Result<Notes, NoteError>)
    ensures
        r == normalize_spec(row, mode),
        r matches Ok(n) ==> n.created_at >= 0,
{
    let created_at: Option<i64> = match mode {
        IdMode::Column => match &row.created_at {
            Some(t) => match t.millis() {
                Some(ms) => if ms >= 0 {
                    Some(ms)
                } else {
                    None
                },
                None => None,
            },
            None => None,
        },
        IdMode::Aid => parse(row.id.as_str()),
    };
    match created_at {
        None => match mode {
            IdMode::Column => Err(NoteError::MalformedRow),
            IdMode::Aid => Err(NoteError::InvalidIdentifier),
        },
        Some(ms) => {
            let RawRow { id, created_at: _, user_id, user_host, channel_id, cw, text, tags } = row;
            Ok(Notes { id, created_at: ms, user_id, user_host, channel_id, cw, text, tags })
        },
    }
}

/// A row that yielded no note: its position among the rows, its identifier,
/// and why.
#[derive(Debug, Clone, PartialEq, Eq)]
pub struct RowError {
    pub row: usize,
    pub id: String,
    pub error: NoteError,
}

/// The notes that `rows` yield under `mode`, in row order.
pub open spec fn normalized(rows: Seq<RawRow>, mode: IdMode) -> Seq<Notes>
    decreases rows.len(),
{
    if rows.len() == 0 {
        Seq::empty()
    } else {
        let before = normalized(rows.drop_last(), mode);
        match normalize_spec(rows.last(), mode) {
            Ok(n) => before.push(n),
            Err(_) => before,
        }
    }
}

/// The rows of `rows` that yield no note under `mode`, in row order.
pub open spec fn rejected(rows: Seq<RawRow>, mode: IdMode) -> Seq<RowError>
    decreases rows.len(),
{
    if rows.len() == 0 {
        Seq::empty()
    } else {
        let before = rejected(rows.drop_last(), mode);
        match normalize_spec(rows.last(), mode) {
            Ok(_) => before,
            Err(e) => before.push(
                RowError { row: (rows.len() - 1) as usize, id: rows.last().id, error: e },
            ),
        }
    }
}

/// Turns every row into a note. A row that yields none is left out and
/// reported; the others keep their order.
pub fn normalize_rows(rows: Vec<RawRow>, mode: IdMode) -> (r: (Vec<Notes>, Vec<RowError>))
    ensures
        r.0@ == normalized(rows@, mode),
        r.1@ == rejected(rows@, mode),
{
    let ghost all = rows@;
    let mut notes: Vec<Notes> = Vec::new();
    let mut errors: Vec<RowError> = Vec::new();
    let mut index: usize = 0;
    let count = rows.len();
    for row in it: rows.into_iter()
        invariant
            it.seq() == all,
            count == all.len(),
            index == it.index(),
            index <= all.len(),
            notes@ == normalized(all.subrange(0, index as int), mode),
            errors@ == rejected(all.subrange(0, index as int), mode),
    {
        assert(index < count);
        proof {
            let s = all.subrange(0, index + 1);
            assert(s.drop_last() =~= all.subrange(0, index as int));
            assert(s.last() == row);
        }
        let id = row.id.clone();
        match normalize(row, mode) {
            Ok(n) => notes.push(n),
            Err(e) => errors.push(RowError { row: index, id, error: e }),
        }
        index = index + 1;
    }
    assert(all.subrange(0, index as int) =~= all);
    (notes, errors)
}

pub open spec fn query_spec(mode: IdMode, localonly: bool, limit: Option<u64>) -> Seq<char> {
    "SELECT id, "@ + (if mode == IdMode::Column {
        "\"createdAt\", "@
    } else {
        Seq::empty()
    }) + "\"userId\", \"userHost\", \"channelId\", cw, text, tags FROM note"@
        + " WHERE COALESCE(text, cw) IS NOT NULL"@
        + " AND visibility IN ('home', 'public') AND text IS NOT NULL"@ + (if localonly {
        " AND \"userHost\" IS NULL"@
    } else {
        Seq::empty()
    }) + match limit {
        Some(n) => " LIMIT "@ + decimal_spec(n as nat),
        None => Seq::empty(),
    }
}

/// The query that fetches every note worth indexing: public or home notes
/// with text. The creation time column is selected only when it is used;
/// `localonly` keeps local authors only, and `limit` caps the row count.
pub fn notes_query(mode: IdMode, option: &OptionConfig) -> (r: String)
    ensures
        r@ == query_spec(mode, option.localonly, option.limit),
{
    let mut q = String::from_str("SELECT id, ");
    let ghost q0 = q@;
    if mode == IdMode::Column {
        q.append("\"createdAt\", ");
    }
    assert(q@ == q0 + (if mode == IdMode::Column {
        "\"createdAt\", "@
    } else {
        Seq::<char>::empty()
    })) by {
        if mode != IdMode::Column {
            assert(q0 + Seq::<char>::empty() =~= q0);
        }
    }
    q.append("\"userId\", \"userHost\", \"channelId\", cw, text, tags FROM note");
    q.append(" WHERE COALESCE(text, cw) IS NOT NULL");
    q.append(" AND visibility IN ('home', 'public') AND text IS NOT NULL");
    let ghost q1 = q@;
    if option.localonly {
        q.append(" AND \"userHost\" IS NULL");
    }
    assert(q@ == q1 + (if option.localonly {
        " AND \"userHost\" IS NULL"@
    } else {
        Seq::<char>::empty()
    })) by {
        if !option.localonly {
            assert(q1 + Seq::<char>::empty() =~= q1);
        }
    }
    let ghost q2 = q@;
    match option.limit {
        Some(n) => {
            q.append(" LIMIT ");
            let digits = decimal(n);
            q.append(digits.as_str());
            assert(q@ =~= q2 + (" LIMIT "@ + decimal_spec(n as nat)));
        },
        None => {
            assert(q@ =~= q2 + Seq::<char>::empty());
        },
    }
    q
}

/// One provenance per run: every note that the rows yield under `mode` comes
/// from one of the rows, and takes its creation time by the rule of `mode`
/// alone: the row's time column under `Column`, the identifier's time part
/// under `Aid`.
pub proof fn lemma_single_provenance(rows: Seq<RawRow>, mode: IdMode)
    ensures
        forall|i: int|
            0 <= i < normalized(rows, mode).len() ==> (exists|j: int|
                0 <= j < rows.len() && (#[trigger] normalized(rows, mode)[i]).id == rows[j].id && (
                mode == IdMode::Column ==> (rows[j].created_at matches Some(t)
                    && normalized(rows, mode)[i].created_at == t.millis_spec())) && (mode
                == IdMode::Aid ==> normalized(rows, mode)[i].created_at == aid_millis(rows[j].id@))),
    decreases rows.len(),
{
    if rows.len() > 0 {
        let p = rows.drop_last();
        lemma_single_provenance(p, mode);
        let out = normalized(rows, mode);
        let before = normalized(p, mode);
        assert forall|i: int| 0 <= i < out.len() implies (exists|j: int|
            0 <= j < rows.len() && (#[trigger] out[i]).id == rows[j].id && (mode == IdMode::Column
                ==> (rows[j].created_at matches Some(t) && out[i].created_at == t.millis_spec()))
                && (mode == IdMode::Aid ==> out[i].created_at == aid_millis(rows[j].id@))) by {
            if i < before.len() {
                assert(out[i] == before[i]);
                let j = choose|j: int|
                    0 <= j < p.len() && (#[trigger] before[i]).id == p[j].id && (mode
                        == IdMode::Column ==> (p[j].created_at matches Some(t) && before[i].created_at
                        == t.millis_spec())) && (mode == IdMode::Aid ==> before[i].created_at
                        == aid_millis(p[j].id@));
                assert(rows[j] == p[j]);
            } else {
                let j = rows.len() - 1;
                assert(rows[j] == rows.last());
                if mode == IdMode::Aid {
                    lemma_aid_millis_bounds(rows.last().id@);
                }
            }
        }
    }
}

} // verus!
