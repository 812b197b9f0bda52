use worklog::error::Error;
use worklog::from_rows::{ActivityRow, LabelRow};
use worklog::models::{Activity, ActivityNew, Label, LabelNew, Timestamp};
use worklog::my_date_format;
use worklog::my_option_date_format;
use worklog::my_uuid_format;
use worklog::statements::{
    insert_activity, insert_label, insert_label_guard, insert_label_guarded, label_insert_decided,
    label_inserted, schema, search_labels, select_by_id, select_label_by_name, select_labels_of,
    InsertOutcome,
};
use worklog::text::{same_text, starts_with};

const ID: u128 = 0x67e55044_10b1_426f_9247_bb680e5fe0c8;
const ID_TEXT: &str = "67e55044-10b1-426f-9247-bb680e5fe0c8";

fn stamp(year: u16, month: u8, day: u8, hour: u8, minute: u8, second: u8) -> Timestamp {
    Timestamp { year, month, day, hour, minute, second }
}

fn some(s: &str) -> Option<String> {
    Some(s.to_owned())
}

#[test]
fn identifier_is_written_hyphenated() {
    assert_eq!(my_uuid_format::serialize(ID), ID_TEXT);
    assert_eq!(my_uuid_format::serialize(0), "00000000-0000-0000-0000-000000000000");
    assert_eq!(my_uuid_format::serialize(ID).chars().count(), 36);
}

#[test]
fn identifier_is_read_back() {
    assert_eq!(my_uuid_format::deserialize(ID_TEXT), Ok(ID));
    assert_eq!(my_uuid_format::deserialize(&my_uuid_format::serialize(u128::MAX)), Ok(u128::MAX));
}

#[test]
fn malformed_identifier_is_a_parse_error() {
    assert!(matches!(my_uuid_format::deserialize("not an id"), Err(Error::ParseError(_))));
    assert!(matches!(my_uuid_format::deserialize(""), Err(Error::ParseError(_))));
    assert!(matches!(
        my_uuid_format::deserialize("67e55044-10b1-426f-9247-bb680e5fe0cg"),
        Err(Error::ParseError(_))
    ));
}

#[test]
fn fresh_identifiers_differ() {
    let mut db = worklog::db::connect().unwrap();
    let a = worklog::db::label_create(&mut db, LabelNew { name: "a".to_owned(), scope: None })
        .unwrap();
    let b = worklog::db::label_create(&mut db, LabelNew { name: "b".to_owned(), scope: None })
        .unwrap();
    assert_ne!(a.id, b.id);
}

#[test]
fn timestamp_is_written_padded() {
    assert_eq!(my_date_format::serialize(&stamp(2023, 4, 5, 6, 7, 8)), "2023-04-05 06:07:08");
    assert_eq!(my_date_format::serialize(&stamp(1999, 12, 31, 23, 59, 59)), "1999-12-31 23:59:59");
    assert_eq!(my_date_format::serialize(&stamp(7, 1, 1, 0, 0, 0)), "0007-01-01 00:00:00");
}

#[test]
fn timestamp_is_read_back() {
    assert_eq!(my_date_format::deserialize("2023-04-05 06:07:08"), Ok(stamp(2023, 4, 5, 6, 7, 8)));
    assert_eq!(my_date_format::deserialize("2024-02-29 00:00:00"), Ok(stamp(2024, 2, 29, 0, 0, 0)));
    let t = stamp(2000, 2, 29, 13, 14, 15);
    assert_eq!(my_date_format::deserialize(&my_date_format::serialize(&t)), Ok(t));
}

#[test]
fn timestamp_off_the_pattern_is_a_parse_error() {
    for text in [
        "",
        "null",
        "2023-04-05",
        "2023-04-05T06:07:08",
        "2023-4-5 6:7:8",
        "2023-04-05 06:07:08 ",
        " 2023-04-05 06:07:08",
        "2023-04-05 06:07:0x",
        "2023/04/05 06:07:08",
        "2023-04-05 06:07:08.5",
    ] {
        assert!(matches!(my_date_format::deserialize(text), Err(Error::ParseError(_))), "{}", text);
    }
}

#[test]
fn timestamp_that_does_not_exist_is_a_parse_error() {
    for text in [
        "2023-02-29 00:00:00",
        "1900-02-29 00:00:00",
        "2023-13-01 00:00:00",
        "2023-00-10 00:00:00",
        "2023-04-31 00:00:00",
        "2023-04-00 00:00:00",
        "2023-04-05 24:00:00",
        "2023-04-05 00:60:00",
        "2023-04-05 00:00:60",
    ] {
        assert!(matches!(my_date_format::deserialize(text), Err(Error::ParseError(_))), "{}", text);
    }
}

#[test]
fn validity_follows_the_calendar() {
    assert!(my_date_format::is_valid(&stamp(2000, 2, 29, 0, 0, 0)));
    assert!(!my_date_format::is_valid(&stamp(2100, 2, 29, 0, 0, 0)));
    assert!(!my_date_format::is_valid(&stamp(10000, 1, 1, 0, 0, 0)));
    assert!(my_date_format::is_valid(&stamp(9999, 12, 31, 23, 59, 59)));
}

#[test]
fn absent_timestamp_is_the_word_null() {
    assert_eq!(my_option_date_format::serialize(&None), "null");
    assert_eq!(my_option_date_format::deserialize("null"), Ok(None));
    let t = stamp(2023, 4, 5, 6, 7, 8);
    assert_eq!(my_option_date_format::serialize(&Some(t)), "2023-04-05 06:07:08");
    assert_eq!(my_option_date_format::deserialize("2023-04-05 06:07:08"), Ok(Some(t)));
    assert!(matches!(my_option_date_format::deserialize("Null"), Err(Error::ParseError(_))));
    assert!(matches!(my_option_date_format::deserialize(""), Err(Error::ParseError(_))));
}

#[test]
fn texts_are_compared_by_characters() {
    assert!(same_text("größe", "größe"));
    assert!(!same_text("foo", "fo"));
    assert!(!same_text("foo", "fob"));
    assert!(starts_with("größe", "grö"));
    assert!(starts_with("foo", ""));
    assert!(starts_with("foo", "foo"));
    assert!(!starts_with("foo", "fooo"));
    assert!(!starts_with("foo", "oo"));
}

#[test]
fn label_row_maps_column_by_column() {
    let row = LabelRow { id: ID_TEXT.to_owned(), name: "foo".to_owned(), scope: some("bar") };
    assert_eq!(
        Label::from_row(&row),
        Ok(Label { id: ID, name: "foo".to_owned(), scope: some("bar") })
    );
    let bad = LabelRow { id: "x".to_owned(), name: "foo".to_owned(), scope: None };
    assert!(matches!(Label::from_row(&bad), Err(Error::ParseError(_))));
}

#[test]
fn activity_row_maps_column_by_column() {
    let row = ActivityRow {
        id: ID_TEXT.to_owned(),
        name: "run".to_owned(),
        description: None,
        astart: "2023-04-05 06:07:08".to_owned(),
        aend: some("2023-04-05 07:00:00"),
    };
    let expected = Activity {
        id: ID,
        name: "run".to_owned(),
        description: None,
        labels: Vec::new(),
        start: stamp(2023, 4, 5, 6, 7, 8),
        end: Some(stamp(2023, 4, 5, 7, 0, 0)),
    };
    assert_eq!(Activity::from_row(&row), Ok(expected));
    let open = ActivityRow { aend: None, ..row.clone() };
    assert_eq!(Activity::from_row(&open).unwrap().end, None);
    let bad_start = ActivityRow { astart: "yesterday".to_owned(), ..row.clone() };
    assert!(matches!(Activity::from_row(&bad_start), Err(Error::ParseError(_))));
    let bad_end = ActivityRow { aend: some("null"), ..row.clone() };
    assert!(matches!(Activity::from_row(&bad_end), Err(Error::ParseError(_))));
    let bad_id = ActivityRow { id: "1".to_owned(), ..row };
    assert!(matches!(Activity::from_row(&bad_id), Err(Error::ParseError(_))));
}

#[test]
fn found_labels_replace_only_when_there_are_some() {
    let l = Label { id: 1, name: "foo".to_owned(), scope: None };
    let m = Label { id: 2, name: "bar".to_owned(), scope: None };
    let a = Activity {
        id: ID,
        name: "run".to_owned(),
        description: None,
        labels: vec![l.clone()],
        start: stamp(2023, 4, 5, 6, 7, 8),
        end: None,
    };
    assert_eq!(a.clone().with_labels(Vec::new()).labels, vec![l]);
    assert_eq!(a.with_labels(vec![m.clone()]).labels, vec![m]);
}

#[test]
fn label_insert_leaves_out_an_absent_scope() {
    let plain = insert_label(ID, &LabelNew { name: "foo".to_owned(), scope: None });
    assert_eq!(plain.sql, "INSERT INTO labels (id, name) VALUES (?, ?)");
    assert_eq!(plain.binds, vec![some(ID_TEXT), some("foo")]);
    let scoped = insert_label(ID, &LabelNew { name: "foo".to_owned(), scope: some("bar") });
    assert_eq!(scoped.sql, "INSERT INTO labels (id, name, scope) VALUES (?, ?, ?)");
    assert_eq!(scoped.binds, vec![some(ID_TEXT), some("foo"), some("bar")]);
}

#[test]
fn label_is_stored_when_one_row_was_affected() {
    let new = LabelNew { name: "foo".to_owned(), scope: some("bar") };
    assert_eq!(
        label_inserted(1, ID, new.clone()),
        Ok(Label { id: ID, name: "foo".to_owned(), scope: some("bar") })
    );
    assert_eq!(
        label_inserted(0, ID, new.clone()),
        Err(Error::DatabaseError("Cannot insert new label".to_owned()))
    );
    assert!(matches!(label_inserted(2, ID, new), Err(Error::DatabaseError(_))));
}

#[test]
fn lookups_bind_identifier_name_and_scope() {
    let by_id = select_by_id(false, ID);
    assert_eq!(by_id.sql, "SELECT * FROM labels WHERE id = ?");
    assert_eq!(by_id.binds, vec![some(ID_TEXT)]);
    assert_eq!(select_by_id(true, ID).sql, "SELECT * FROM activities WHERE id = ?");
    let scoped = select_label_by_name("foo", Some("bar"));
    assert_eq!(scoped.sql, "SELECT * FROM labels WHERE name = ? AND scope = ?");
    assert_eq!(scoped.binds, vec![some("foo"), some("bar")]);
    let plain = select_label_by_name("foo", None);
    assert_eq!(plain.sql, "SELECT * FROM labels WHERE name = ? AND scope IS NULL");
    assert_eq!(plain.binds, vec![some("foo")]);
    let joined = select_labels_of(ID);
    assert_eq!(
        joined.sql,
        "SELECT l.* FROM labels l, activity_labels al WHERE l.id = al.label_id AND al.activity_id = ? ORDER BY l.rowid"
    );
    assert_eq!(joined.binds, vec![some(ID_TEXT)]);
}

#[test]
fn searches_bind_the_query_as_it_is() {
    let scoped = search_labels("f%o_", Some("bar"));
    assert_eq!(
        scoped.sql,
        "SELECT * FROM labels WHERE substr(name, 1, length(?1)) = ?1 AND scope = ?2 ORDER BY rowid"
    );
    assert_eq!(scoped.binds, vec![some("f%o_"), some("bar")]);
    let plain = search_labels("fo", None);
    assert_eq!(
        plain.sql,
        "SELECT * FROM labels WHERE substr(name, 1, length(?1)) = ?1 OR substr(scope, 1, length(?1)) = ?1 ORDER BY rowid"
    );
    assert_eq!(plain.binds, vec![some("fo")]);
}

#[test]
fn insert_outcome_decides_the_error() {
    let new = LabelNew { name: "foo".to_owned(), scope: some("bar") };
    assert_eq!(
        label_insert_decided(InsertOutcome::Done(1), ID, new.clone()),
        Ok(Label { id: ID, name: "foo".to_owned(), scope: some("bar") })
    );
    assert!(matches!(
        label_insert_decided(InsertOutcome::Done(0), ID, new.clone()),
        Err(Error::DatabaseError(_))
    ));
    assert!(matches!(
        label_insert_decided(
            InsertOutcome::Conflict("UNIQUE constraint failed".to_owned()),
            ID,
            new.clone()
        ),
        Err(Error::DatabaseError(_))
    ));
    assert_eq!(
        label_insert_decided(InsertOutcome::Failed("disk I/O error".to_owned()), ID, new),
        Err(Error::SqlError("disk I/O error".to_owned()))
    );
}

#[test]
fn label_without_scope_is_looked_up_before_the_insert() {
    let plain = insert_label_guard(&LabelNew { name: "foo".to_owned(), scope: None }).unwrap();
    assert_eq!(plain.sql, "SELECT * FROM labels WHERE name = ? AND scope IS NULL");
    assert_eq!(plain.binds, vec![some("foo")]);
    assert_eq!(insert_label_guard(&LabelNew { name: "foo".to_owned(), scope: some("bar") }), None);
    assert_eq!(insert_label_guarded(false), Ok(()));
    assert!(matches!(insert_label_guarded(true), Err(Error::DatabaseError(_))));
}

#[test]
fn activity_insert_binds_name_description_and_start() {
    let new = ActivityNew {
        name: "run".to_owned(),
        description: None,
        labels: vec![Label { id: 1, name: "foo".to_owned(), scope: None }],
        start: Some(stamp(2023, 4, 5, 6, 7, 8)),
    };
    let st = insert_activity(ID, &new);
    assert_eq!(
        st.sql,
        "INSERT INTO activities (id, name, description, astart) VALUES (?, ?, ?, ?)"
    );
    assert_eq!(st.binds, vec![some(ID_TEXT), some("run"), None, some("2023-04-05 06:07:08")]);
}

#[test]
fn schema_declares_three_relations() {
    let s = schema();
    assert_eq!(s.len(), 3);
    assert!(s[0].sql.starts_with("CREATE TABLE labels "));
    assert!(s[0].sql.contains("UNIQUE (name, scope)"));
    assert!(s[1].sql.starts_with("CREATE TABLE activities "));
    assert!(s[2].sql.starts_with("CREATE TABLE activity_labels "));
    assert_eq!(s[2].sql.matches("ON DELETE CASCADE").count(), 2);
    assert!(s.iter().all(|st| st.binds.is_empty()));
}
