use vstd::prelude::*;
use crate::error::Error;
use crate::ident::parsed;
use crate::models::{Activity, ActivityView, Label, LabelView, Timestamp};
use crate::my_date_format::timestamp_of;
use crate::text::opt_text;

verus! {

/// A row of the relation `labels`, column by column, as the store holds it.
#[derive(Clone, Debug, PartialEq, Eq)]
pub struct LabelRow {
    pub id: String,
    pub name: String,
    pub scope: Option<String>,
}

/// A row of the relation `activities`, column by column, as the store holds
/// it: identifier and timestamps are text.
#[derive(Clone, Debug, PartialEq, Eq)]
pub struct ActivityRow {
    pub id: String,
    pub name: String,
    pub description: Option<String>,
    pub astart: String,
    pub aend: Option<String>,
}

/// The label that a row stands for, where its identifier is one.
pub open spec fn label_of_row(row: LabelRow) -> Option<LabelView> {
    match parsed(row.id@) {
        Some(id) => Some(LabelView { id: id, name: row.name@, scope: opt_text(row.scope) }),
        None => None,
    }
}

/// The end that the column `aend` stands for: no text is an open activity,
/// a text must be a timestamp.
pub open spec fn end_of_column(aend: Option<String>) -> Option<Option<Timestamp>> {
    match aend {
        None => Some(None),
        Some(text) => match timestamp_of(text@) {
            Some(t) => Some(Some(t)),
            None => None,
        },
    }
}

/// The activity that a row stands for, without labels, where its
/// identifier and its timestamps are what they should be.
pub open spec fn activity_of_row(row: ActivityRow) -> Option<ActivityView> {
    match (parsed(row.id@), timestamp_of(row.astart@), end_of_column(row.aend)) {
        (Some(id), Some(start), Some(end)) => Some(
            ActivityView {
                id: id,
                name: row.name@,
                description: opt_text(row.description),
                labels: Seq::empty(),
                start: start,
                end: end,
            },
        ),
        _ => None,
    }
}

fn copy_text(s: &Option<String>) -> (r: Option<String>)
    ensures
        r == *s,
{
    match s {
        Some(t) => Some(t.clone()),
        None => None,
    }
}

impl Label {
    /// Maps a row to a label, column by column; a `ParseError` where the
    /// column `id` holds no identifier.
    pub fn from_row(row: &LabelRow) -> (r: Result<Label, Error>)
        ensures
            match r {
                Ok(l) => label_of_row(*row) == Some(l@),
                Err(e) => label_of_row(*row) is None && e is ParseError,
            },
    {
        match crate::my_uuid_format::deserialize(row.id.as_str()) {
            Ok(id) => Ok(Label { id: id, name: row.name.clone(), scope: copy_text(&row.scope) }),
            Err(e) => Err(e),
        }
    }
}

impl Activity {
    /// Maps a row to an activity without labels, column by column; a
    /// `ParseError` where `id` holds no identifier, or `astart` or a present
    /// `aend` no timestamp.
    pub fn from_row(row: &ActivityRow) -> (r: Result<Activity, Error>)
        ensures
            match r {
                Ok(a) => activity_of_row(*row) == Some(a@),
                Err(e) => activity_of_row(*row) is None && e is ParseError,
            },
    {
        let id = match crate::my_uuid_format::deserialize(row.id.as_str()) {
            Ok(id) => id,
            Err(e) => {
                return Err(e);
            },
        };
        let start = match crate::my_date_format::deserialize(row.astart.as_str()) {
            Ok(t) => t,
            Err(e) => {
                return Err(e);
            },
        };
        let end = match &row.aend {
            None => None,
            Some(text) => match crate::my_date_format::deserialize(text.as_str()) {
                Ok(t) => Some(t),
                Err(e) => {
                    return Err(e);
                },
            },
        };
        let a = Activity {
            id: id,
            name: row.name.clone(),
            description: copy_text(&row.description),
            labels: Vec::new(),
            start: start,
            end: end,
        };
        assert(a@.labels =~= Seq::<LabelView>::empty());
        Ok(a)
    }

    /// The activity with the labels that were found for it: where none was
    /// found the activity stays as it is, else the found ones replace its
    /// own, in their order.
    pub fn with_labels(self, found: Vec<Label>) -> (r: Activity)
        ensures
            r@ == (ActivityView {
                labels: if found@.len() > 0 {
                    crate::models::label_views(found@)
                } else {
                    self@.labels
                },
                ..self@
            }),
    {
        let mut a = self;
        if found.len() > 0 {
            a.labels = found;
        }
        a
    }
}

} // verus!
