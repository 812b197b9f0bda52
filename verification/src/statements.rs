use vstd::prelude::*;
use vstd::string::StringExecFns;
use crate::error::Error;
use crate::ident::hyphenated;
use crate::models::{ActivityNew, Label, LabelNew, LabelView, Timestamp};
use crate::my_date_format::timestamp_text;
use crate::text::opt_text;

verus! {

/// A statement for the backing store: its text, and the values bound to its
/// placeholders in order, `None` for an absent value.
#[derive(Clone, Debug, PartialEq, Eq)]
pub struct Statement {
    pub sql: String,
    pub binds: Vec<Option<String>>,
}

/// What a statement is, as mathematics.
pub struct StatementView {
    pub sql: Seq<char>,
    pub binds: Seq<Option<Seq<char>>>,
}

impl View for Statement {
    type V = StatementView;

    open spec fn view(&self) -> StatementView {
        StatementView {
            sql: self.sql@,
            binds: Seq::new(self.binds@.len(), |i: int| opt_text(self.binds@[i])),
        }
    }
}

fn statement(sql: &str, binds: Vec<Option<String>>) -> (r: Statement)
    ensures
        r.sql@ == sql@,
        r.binds == binds,
{
    Statement { sql: String::from_str(sql), binds: binds }
}

/// The three statements that create the relations, in the order in which
/// they are to be applied.
pub fn schema() -> (r: Vec<Statement>)
    ensures
        r@.len() == 3,
        forall|i: int| 0 <= i < 3 ==> (#[trigger] r@[i])@.binds.len() == 0,
        r@[0]@.sql
            == "CREATE TABLE labels (id VARCHAR PRIMARY KEY NOT NULL, name VARCHAR NOT NULL, scope VARCHAR DEFAULT NULL, UNIQUE (name, scope))"@,
        r@[1]@.sql
            == "CREATE TABLE activities (id VARCHAR PRIMARY KEY NOT NULL, name VARCHAR NOT NULL, description VARCHAR DEFAULT NULL, astart TEXT NOT NULL, aend TEXT DEFAULT NULL)"@,
        r@[2]@.sql
            == "CREATE TABLE activity_labels (activity_id TEXT NOT NULL REFERENCES activities (id) ON DELETE CASCADE, label_id TEXT NOT NULL REFERENCES labels (id) ON DELETE CASCADE, PRIMARY KEY (activity_id, label_id))"@,
{
    let mut r: Vec<Statement> = Vec::new();
    r.push(
        statement(
            "CREATE TABLE labels (id VARCHAR PRIMARY KEY NOT NULL, name VARCHAR NOT NULL, scope VARCHAR DEFAULT NULL, UNIQUE (name, scope))",
            Vec::new(),
        ),
    );
    r.push(
        statement(
            "CREATE TABLE activities (id VARCHAR PRIMARY KEY NOT NULL, name VARCHAR NOT NULL, description VARCHAR DEFAULT NULL, astart TEXT NOT NULL, aend TEXT DEFAULT NULL)",
            Vec::new(),
        ),
    );
    r.push(
        statement(
            "CREATE TABLE activity_labels (activity_id TEXT NOT NULL REFERENCES activities (id) ON DELETE CASCADE, label_id TEXT NOT NULL REFERENCES labels (id) ON DELETE CASCADE, PRIMARY KEY (activity_id, label_id))",
            Vec::new(),
        ),
    );
    r
}

/// The insert of a label. Without a scope the column `scope` is left out of
/// the statement altogether.
pub fn insert_label(id: u128, l: &LabelNew) -> (r: Statement)
    ensures
        r@ == match l.scope {
            Some(s) => StatementView {
                sql: "INSERT INTO labels (id, name, scope) VALUES (?, ?, ?)"@,
                binds: seq![Some(hyphenated(id)), Some(l.name@), Some(s@)],
            },
            None => StatementView {
                sql: "INSERT INTO labels (id, name) VALUES (?, ?)"@,
                binds: seq![Some(hyphenated(id)), Some(l.name@)],
            },
        },
{
    let mut binds: Vec<Option<String>> = Vec::new();
    binds.push(Some(crate::my_uuid_format::serialize(id)));
    binds.push(Some(l.name.clone()));
    match &l.scope {
        Some(s) => {
            binds.push(Some(s.clone()));
            let r = statement("INSERT INTO labels (id, name, scope) VALUES (?, ?, ?)", binds);
            assert(r@.binds =~= seq![Some(hyphenated(id)), Some(l.name@), Some(s@)]);
            r
        },
        None => {
            let r = statement("INSERT INTO labels (id, name) VALUES (?, ?)", binds);
            assert(r@.binds =~= seq![Some(hyphenated(id)), Some(l.name@)]);
            r
        },
    }
}

/// What an insert of a label yields, given the number of rows that the
/// store reports as affected: the label as stored where it is exactly one,
/// else a `DatabaseError`.
pub fn label_inserted(rows_affected: u64, id: u128, l: LabelNew) -> (r: Result<Label, Error>)
    ensures
        match r {
            Ok(lab) => rows_affected == 1 && lab@ == (LabelView {
                id: id,
                name: l.name@,
                scope: opt_text(l.scope),
            }),
            Err(e) => rows_affected != 1 && e is DatabaseError,
        },
{
    if rows_affected != 1 {
        return Err(Error::DatabaseError("Cannot insert new label".to_owned()));
    }
    Ok(Label { id: id, name: l.name, scope: l.scope })
}

/// How an insert ended, as the backing store reported it.
#[derive(Clone, Debug, PartialEq, Eq)]
pub enum InsertOutcome {
    /// The statement ran; the number is that of the rows affected.
    Done(u64),
    /// The store refused the row because a key or a unique pair is taken;
    /// the text is the store's message.
    Conflict(String),
    /// Any other failure, with its cause.
    Failed(String),
}

/// What an insert of a label yields, given how it ended: the label as
/// stored where exactly one row was affected; a `DatabaseError` where
/// another number of rows was affected or the store refused the row as a
/// duplicate; a `SqlError` with the same cause for any other failure.
pub fn label_insert_decided(outcome: InsertOutcome, id: u128, l: LabelNew) -> (r: Result<
    Label,
    Error,
>)
    ensures
        match r {
            Ok(lab) => outcome == InsertOutcome::Done(1) && lab@ == (LabelView {
                id: id,
                name: l.name@,
                scope: opt_text(l.scope),
            }),
            Err(e) => match outcome {
                InsertOutcome::Done(n) => n != 1 && e is DatabaseError,
                InsertOutcome::Conflict(_) => e is DatabaseError,
                InsertOutcome::Failed(cause) => e == Error::SqlError(cause),
            },
        },
{
    match outcome {
        InsertOutcome::Done(n) => label_inserted(n, id, l),
        InsertOutcome::Conflict(_) => Err(
            Error::DatabaseError("Cannot insert new label".to_owned()),
        ),
        InsertOutcome::Failed(cause) => Err(Error::SqlError(cause)),
    }
}

/// The lookup to make before a label is inserted. The store's own unique
/// pair does not tell two absent scopes apart, so a label without scope is
/// looked up by its name first; one with a scope needs no lookup.
pub fn insert_label_guard(l: &LabelNew) -> (r: Option<Statement>)
    ensures
        match r {
            Some(st) => l.scope is None && st@ == (StatementView {
                sql: "SELECT * FROM labels WHERE name = ? AND scope IS NULL"@,
                binds: seq![Some(l.name@)],
            }),
            None => l.scope is Some,
        },
{
    match &l.scope {
        Some(_) => None,
        None => Some(select_label_by_name(l.name.as_str(), None)),
    }
}

/// What the lookup before an insert decides: a label that was found stands
/// in the way, and the insert is rejected with a `DatabaseError`.
pub fn insert_label_guarded(found: bool) -> (r: Result<(), Error>)
    ensures
        r is Ok <==> !found,
        r is Err ==> r->Err_0 is DatabaseError,
{
    if found {
        Err(Error::DatabaseError("Cannot insert new label".to_owned()))
    } else {
        Ok(())
    }
}

/// The lookup of a label or of an activity by its identifier.
pub fn select_by_id(activity: bool, id: u128) -> (r: Statement)
    ensures
        r@ == (StatementView {
            sql: if activity {
                "SELECT * FROM activities WHERE id = ?"@
            } else {
                "SELECT * FROM labels WHERE id = ?"@
            },
            binds: seq![Some(hyphenated(id))],
        }),
{
    let mut binds: Vec<Option<String>> = Vec::new();
    binds.push(Some(crate::my_uuid_format::serialize(id)));
    let r = if activity {
        statement("SELECT * FROM activities WHERE id = ?", binds)
    } else {
        statement("SELECT * FROM labels WHERE id = ?", binds)
    };
    assert(r@.binds =~= seq![Some(hyphenated(id))]);
    r
}

/// The lookup of a label by name and scope: equality on the scope where
/// one is given, "has no scope" where none is.
pub fn select_label_by_name(name: &str, scope: Option<&str>) -> (r: Statement)
    ensures
        r@ == match scope {
            Some(s) => StatementView {
                sql: "SELECT * FROM labels WHERE name = ? AND scope = ?"@,
                binds: seq![Some(name@), Some(s@)],
            },
            None => StatementView {
                sql: "SELECT * FROM labels WHERE name = ? AND scope IS NULL"@,
                binds: seq![Some(name@)],
            },
        },
{
    let mut binds: Vec<Option<String>> = Vec::new();
    binds.push(Some(String::from_str(name)));
    match scope {
        Some(s) => {
            binds.push(Some(String::from_str(s)));
            let r = statement("SELECT * FROM labels WHERE name = ? AND scope = ?", binds);
            assert(r@.binds =~= seq![Some(name@), Some(s@)]);
            r
        },
        None => {
            let r = statement("SELECT * FROM labels WHERE name = ? AND scope IS NULL", binds);
            assert(r@.binds =~= seq![Some(name@)]);
            r
        },
    }
}

/// The search for labels: within a scope by the prefix of the name, without
/// one by the prefix of the name or of the scope. The query is compared,
/// character by character, with as many leading characters of the field as
/// it has itself, so no character of it is a wildcard and case counts; the
/// rows come in the order in which they were stored.
pub fn search_labels(name: &str, scope: Option<&str>) -> (r: Statement)
    ensures
        r@ == match scope {
            Some(s) => StatementView {
                sql: "SELECT * FROM labels WHERE substr(name, 1, length(?1)) = ?1 AND scope = ?2 ORDER BY rowid"@,
                binds: seq![Some(name@), Some(s@)],
            },
            None => StatementView {
                sql: "SELECT * FROM labels WHERE substr(name, 1, length(?1)) = ?1 OR substr(scope, 1, length(?1)) = ?1 ORDER BY rowid"@,
                binds: seq![Some(name@)],
            },
        },
{
    let mut binds: Vec<Option<String>> = Vec::new();
    binds.push(Some(String::from_str(name)));
    match scope {
        Some(s) => {
            binds.push(Some(String::from_str(s)));
            let r = statement(
                "SELECT * FROM labels WHERE substr(name, 1, length(?1)) = ?1 AND scope = ?2 ORDER BY rowid",
                binds,
            );
            assert(r@.binds =~= seq![Some(name@), Some(s@)]);
            r
        },
        None => {
            let r = statement(
                "SELECT * FROM labels WHERE substr(name, 1, length(?1)) = ?1 OR substr(scope, 1, length(?1)) = ?1 ORDER BY rowid",
                binds,
            );
            assert(r@.binds =~= seq![Some(name@)]);
            r
        },
    }
}

/// The text of an optional timestamp as a bound value: absent stays absent.
pub open spec fn bound_time(t: Option<Timestamp>) -> Option<Seq<char>> {
    match t {
        Some(x) => Some(timestamp_text(x)),
        None => None,
    }
}

/// The insert of an activity: identifier, name, description and start; the
/// labels and the end are not part of it.
pub fn insert_activity(id: u128, a: &ActivityNew) -> (r: Statement)
    requires
        a.start is Some ==> a.start->Some_0.valid(),
    ensures
        r@ == (StatementView {
            sql: "INSERT INTO activities (id, name, description, astart) VALUES (?, ?, ?, ?)"@,
            binds: seq![
                Some(hyphenated(id)),
                Some(a.name@),
                opt_text(a.description),
                bound_time(a.start),
            ],
        }),
{
    let mut binds: Vec<Option<String>> = Vec::new();
    binds.push(Some(crate::my_uuid_format::serialize(id)));
    binds.push(Some(a.name.clone()));
    binds.push(
        match &a.description {
            Some(d) => Some(d.clone()),
            None => None,
        },
    );
    binds.push(
        match &a.start {
            Some(t) => Some(crate::my_date_format::serialize(t)),
            None => None,
        },
    );
    let r = statement(
        "INSERT INTO activities (id, name, description, astart) VALUES (?, ?, ?, ?)",
        binds,
    );
    assert(r@.binds =~= seq![
        Some(hyphenated(id)),
        Some(a.name@),
        opt_text(a.description),
        bound_time(a.start),
    ]);
    r
}

/// The join that yields the labels attached to an activity, in the order
/// in which the labels were stored.
pub fn select_labels_of(activity: u128) -> (r: Statement)
    ensures
        r@ == (StatementView {
            sql: "SELECT l.* FROM labels l, activity_labels al WHERE l.id = al.label_id AND al.activity_id = ? ORDER BY l.rowid"@,
            binds: seq![Some(hyphenated(activity))],
        }),
{
    let mut binds: Vec<Option<String>> = Vec::new();
    binds.push(Some(crate::my_uuid_format::serialize(activity)));
    let r = statement(
        "SELECT l.* FROM labels l, activity_labels al WHERE l.id = al.label_id AND al.activity_id = ? ORDER BY l.rowid",
        binds,
    );
    assert(r@.binds =~= seq![Some(hyphenated(activity))]);
    r
}

} // verus!
