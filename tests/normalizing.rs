use meili_notes::config::OptionConfig;
use meili_notes::notes::{
    normalize, normalize_rows, notes_query, IdMode, NoteError, Notes, RawRow, RowError,
    UtcTimestamp,
};

fn row(id: &str, created_at: Option<UtcTimestamp>) -> RawRow {
    RawRow {
        id: id.to_string(),
        created_at,
        user_id: "u1".to_string(),
        user_host: Some("remote.example".to_string()),
        channel_id: None,
        cw: Some("spoiler".to_string()),
        text: "hello".to_string(),
        tags: vec!["a".to_string(), "b".to_string()],
    }
}

fn at(seconds: i64, subsec_millis: u32) -> Option<UtcTimestamp> {
    Some(UtcTimestamp { seconds, subsec_millis })
}

#[test]
fn idtype_selects_mode() {
    assert_eq!(IdMode::from_idtype(&None), Some(IdMode::Column));
    assert_eq!(IdMode::from_idtype(&Some("aid".to_string())), Some(IdMode::Aid));
    assert_eq!(IdMode::from_idtype(&Some("aidx".to_string())), Some(IdMode::Aid));
    assert_eq!(IdMode::from_idtype(&Some("bogus".to_string())), None);
    assert_eq!(IdMode::from_idtype(&Some("AID".to_string())), None);
}

#[test]
fn timestamp_millis() {
    assert_eq!(UtcTimestamp { seconds: 1_700_000_000, subsec_millis: 123 }.millis(), Some(1_700_000_000_123));
    assert_eq!(UtcTimestamp { seconds: 0, subsec_millis: 1000 }.millis(), None);
    assert_eq!(UtcTimestamp { seconds: i64::MAX, subsec_millis: 0 }.millis(), None);
}

#[test]
fn notes_new_combines_seconds_and_millis() {
    let n = Notes::new(
        "x".to_string(),
        UtcTimestamp { seconds: 1_700_000_000, subsec_millis: 42 },
        "u".to_string(),
        None,
        Some("c".to_string()),
        None,
        "t".to_string(),
        vec![],
    );
    assert_eq!(n.created_at, 1_700_000_000_042);
    assert_eq!(n.id, "x");
    assert_eq!(n.channel_id, Some("c".to_string()));
}

#[test]
fn column_mode_reads_time_column() {
    let n = normalize(row("9eo7ew8sed", at(1_700_000_000, 5)), IdMode::Column).unwrap();
    assert_eq!(n.created_at, 1_700_000_000_005);
    assert_eq!(n.id, "9eo7ew8sed");
    assert_eq!(n.user_id, "u1");
    assert_eq!(n.user_host, Some("remote.example".to_string()));
    assert_eq!(n.channel_id, None);
    assert_eq!(n.cw, Some("spoiler".to_string()));
    assert_eq!(n.text, "hello");
    assert_eq!(n.tags, vec!["a".to_string(), "b".to_string()]);
}

#[test]
fn column_mode_without_time_is_malformed() {
    assert_eq!(normalize(row("9eo7ew8sed", None), IdMode::Column), Err(NoteError::MalformedRow));
    assert_eq!(normalize(row("a", at(-1, 0)), IdMode::Column), Err(NoteError::MalformedRow));
    assert_eq!(normalize(row("a", at(1, 1000)), IdMode::Column), Err(NoteError::MalformedRow));
}

#[test]
fn aid_mode_decodes_identifier() {
    let n = normalize(row("9eo7ew8sed", at(5, 0)), IdMode::Aid).unwrap();
    assert_eq!(n.created_at, 1_683_900_870_076);
    let z = normalize(row("0000000000", None), IdMode::Aid).unwrap();
    assert_eq!(z.created_at, 946_684_800_000);
}

#[test]
fn aid_mode_bad_identifier() {
    assert_eq!(normalize(row("short", None), IdMode::Aid), Err(NoteError::InvalidIdentifier));
    assert_eq!(normalize(row("!!!!!!!!!!", None), IdMode::Aid), Err(NoteError::InvalidIdentifier));
}

#[test]
fn rows_dropped_and_reported_in_order() {
    let rows = vec![
        row("0000000000", None),
        row("bad", None),
        row("9eo7ew8sed", None),
        row("also-bad", None),
    ];
    let (notes, errors) = normalize_rows(rows, IdMode::Aid);
    let ids: Vec<&str> = notes.iter().map(|n| n.id.as_str()).collect();
    assert_eq!(ids, vec!["0000000000", "9eo7ew8sed"]);
    assert_eq!(
        errors,
        vec![
            RowError { row: 1, id: "bad".to_string(), error: NoteError::InvalidIdentifier },
            RowError { row: 3, id: "also-bad".to_string(), error: NoteError::InvalidIdentifier },
        ]
    );
}

#[test]
fn one_provenance_per_run() {
    // Same rows: under Column every time is the column's, under Aid the identifier's.
    let rows = || vec![row("0000000000", at(10, 0)), row("9eo7ew8sed", at(20, 0))];
    let (by_column, _) = normalize_rows(rows(), IdMode::Column);
    let (by_id, _) = normalize_rows(rows(), IdMode::Aid);
    let c: Vec<i64> = by_column.iter().map(|n| n.created_at).collect();
    let a: Vec<i64> = by_id.iter().map(|n| n.created_at).collect();
    assert_eq!(c, vec![10_000, 20_000]);
    assert_eq!(a, vec![946_684_800_000, 1_683_900_870_076]);
}

#[test]
fn query_for_each_setting() {
    let base = OptionConfig { localonly: false, idtype: None, limit: None };
    assert_eq!(
        notes_query(IdMode::Column, &base),
        "SELECT id, \"createdAt\", \"userId\", \"userHost\", \"channelId\", cw, text, tags FROM note WHERE COALESCE(text, cw) IS NOT NULL AND visibility IN ('home', 'public') AND text IS NOT NULL"
    );
    let local = OptionConfig { localonly: true, idtype: Some("aid".to_string()), limit: Some(500) };
    assert_eq!(
        notes_query(IdMode::Aid, &local),
        "SELECT id, \"userId\", \"userHost\", \"channelId\", cw, text, tags FROM note WHERE COALESCE(text, cw) IS NOT NULL AND visibility IN ('home', 'public') AND text IS NOT NULL AND \"userHost\" IS NULL LIMIT 500"
    );
}
