use vstd::prelude::*;
use crate::error::Error;
use crate::models::{
    Activity, ActivityNew, ActivityView, Label, LabelNew, LabelView, label_views,
};
use crate::ident::fresh_id;
use crate::my_date_format::is_valid;
use crate::text::{opt_text, same_text, starts_with};

verus! {

/// The view of an optional borrowed text.
pub open spec fn opt_str(s: Option<&str>) -> Option<Seq<char>> {
    match s {
        Some(t) => Some(t@),
        None => None,
    }
}

/// The view of an optional label.
pub open spec fn opt_label(l: Option<Label>) -> Option<LabelView> {
    match l {
        Some(x) => Some(x@),
        None => None,
    }
}

/// The view of an optional activity.
pub open spec fn opt_activity(a: Option<Activity>) -> Option<ActivityView> {
    match a {
        Some(x) => Some(x@),
        None => None,
    }
}

/// Whether the start of an activity, and its end where it has one, are
/// days of the calendar and times of the clock.
pub open spec fn times_valid(a: ActivityView) -> bool {
    a.start.valid() && (a.end is Some ==> a.end->Some_0.valid())
}

/// The views of a sequence of activities, in its order.
pub open spec fn activity_views(v: Seq<Activity>) -> Seq<ActivityView> {
    Seq::new(v.len(), |i: int| v[i]@)
}

/// Whether a label has exactly this name and this scope; no scope matches
/// only a label without one.
pub open spec fn named(l: LabelView, name: Seq<char>, scope: Option<Seq<char>>) -> bool {
    l.name == name && l.scope == scope
}

/// Whether a search for `query` finds the label. Within a scope: the name
/// begins with the query and the scope is the given one. Without: the name
/// or the scope begins with the query.
pub open spec fn found_by(l: LabelView, query: Seq<char>, scope: Option<Seq<char>>) -> bool {
    match scope {
        Some(s) => query.is_prefix_of(l.name) && l.scope == Some(s),
        None => query.is_prefix_of(l.name) || (l.scope is Some && query.is_prefix_of(
            l.scope->Some_0,
        )),
    }
}

/// The search as a predicate on labels.
pub open spec fn search_pred(query: Seq<char>, scope: Option<Seq<char>>) -> spec_fn(
    LabelView,
) -> bool {
    |l: LabelView| found_by(l, query, scope)
}

/// The predicate "is attached to this activity" on labels.
pub open spec fn linked_pred(links: Seq<(u128, u128)>, activity: u128) -> spec_fn(
    LabelView,
) -> bool {
    |l: LabelView| links.contains((activity, l.id))
}

/// The three relations of the store, as mathematics: the labels and the
/// activities in the order in which they were stored, and the pairs
/// (activity, label) of the association.
pub struct DbView {
    pub labels: Seq<LabelView>,
    pub activities: Seq<ActivityView>,
    pub links: Seq<(u128, u128)>,
}

impl DbView {
    /// Whether a label is stored under this identifier.
    pub open spec fn has_label_id(self, id: u128) -> bool {
        exists|i: int| 0 <= i < self.labels.len() && (#[trigger] self.labels[i]).id == id
    }

    /// Whether a label with this name and this scope is stored.
    pub open spec fn has_label_named(self, name: Seq<char>, scope: Option<Seq<char>>) -> bool {
        exists|i: int| 0 <= i < self.labels.len() && named(#[trigger] self.labels[i], name, scope)
    }

    /// Whether an activity is stored under this identifier.
    pub open spec fn has_activity_id(self, id: u128) -> bool {
        exists|i: int| 0 <= i < self.activities.len() && (#[trigger] self.activities[i]).id == id
    }

    /// The invariants of the store: identifiers are keys, a pair of name and
    /// scope occurs once, names are not empty, a stored activity row carries
    /// no labels of its own and its timestamps are valid, and each
    /// association joins an activity and a label that exist and occurs once.
    pub open spec fn wf(self) -> bool {
        &&& forall|i: int, j: int|
            0 <= i < j < self.labels.len() ==> (#[trigger] self.labels[i]).id
                != (#[trigger] self.labels[j]).id
        &&& forall|i: int, j: int|
            0 <= i < j < self.labels.len() ==> !named(
                #[trigger] self.labels[i],
                (#[trigger] self.labels[j]).name,
                self.labels[j].scope,
            )
        &&& forall|i: int| 0 <= i < self.labels.len() ==> (#[trigger] self.labels[i]).name.len() > 0
        &&& forall|i: int, j: int|
            0 <= i < j < self.activities.len() ==> (#[trigger] self.activities[i]).id
                != (#[trigger] self.activities[j]).id
        &&& forall|i: int|
            0 <= i < self.activities.len() ==> (#[trigger] self.activities[i]).labels.len() == 0
        &&& forall|i: int|
            0 <= i < self.activities.len() ==> times_valid(#[trigger] self.activities[i])
        &&& forall|k: int|
            0 <= k < self.links.len() ==> self.has_activity_id((#[trigger] self.links[k]).0)
                && self.has_label_id(self.links[k].1)
        &&& forall|k: int, m: int|
            0 <= k < m < self.links.len() ==> #[trigger] self.links[k] != #[trigger] self.links[m]
    }

    /// The label with this identifier, if there is one.
    pub open spec fn label_by_id(self, id: u128) -> Option<LabelView> {
        if self.has_label_id(id) {
            Some(
                self.labels[choose|i: int|
                    0 <= i < self.labels.len() && (#[trigger] self.labels[i]).id == id],
            )
        } else {
            None
        }
    }

    /// The label with this name and this scope, if there is one.
    pub open spec fn label_by_name(self, name: Seq<char>, scope: Option<Seq<char>>) -> Option<
        LabelView,
    > {
        if self.has_label_named(name, scope) {
            Some(
                self.labels[choose|i: int|
                    0 <= i < self.labels.len() && named(#[trigger] self.labels[i], name, scope)],
            )
        } else {
            None
        }
    }

    /// The labels that a search finds, in storage order, each once.
    pub open spec fn label_search(self, query: Seq<char>, scope: Option<Seq<char>>) -> Seq<
        LabelView,
    > {
        self.labels.filter(search_pred(query, scope))
    }

    /// The labels attached to an activity, in the storage order of the labels.
    pub open spec fn labels_of(self, activity: u128) -> Seq<LabelView> {
        self.labels.filter(linked_pred(self.links, activity))
    }

    /// The activity with this identifier, with its labels resolved, if there
    /// is one.
    pub open spec fn activity_by_id(self, id: u128) -> Option<ActivityView> {
        if self.has_activity_id(id) {
            let row = self.activities[choose|i: int|
                0 <= i < self.activities.len() && (#[trigger] self.activities[i]).id == id];
            Some(ActivityView { labels: self.labels_of(id), ..row })
        } else {
            None
        }
    }

    /// Whether a label with these fields can be inserted: neither its
    /// identifier nor its pair of name and scope is taken.
    pub open spec fn accepts_label(
        self,
        id: u128,
        name: Seq<char>,
        scope: Option<Seq<char>>,
    ) -> bool {
        !self.has_label_id(id) && !self.has_label_named(name, scope)
    }

    /// The store with one more label, stored last.
    pub open spec fn with_label(self, l: LabelView) -> DbView {
        DbView { labels: self.labels.push(l), ..self }
    }

    /// The store with one more activity row, stored last.
    pub open spec fn with_activity(self, a: ActivityView) -> DbView {
        DbView { activities: self.activities.push(a), ..self }
    }
}

/// The store: three relations held in memory.
#[derive(Clone, Debug, PartialEq, Eq)]
pub struct DbPool {
    pub labels: Vec<Label>,
    pub activities: Vec<Activity>,
    pub activity_labels: Vec<(u128, u128)>,
}

impl View for DbPool {
    type V = DbView;

    open spec fn view(&self) -> DbView {
        DbView {
            labels: label_views(self.labels@),
            activities: activity_views(self.activities@),
            links: self.activity_labels@,
        }
    }
}

/// A new store with its three relations, all empty.
pub fn connect() -> (r: Result<DbPool, Error>)
    ensures
        r is Ok,
        r->Ok_0@.wf(),
        r->Ok_0@.labels.len() == 0,
        r->Ok_0@.activities.len() == 0,
        r->Ok_0@.links.len() == 0,
{
    Ok(DbPool { labels: Vec::new(), activities: Vec::new(), activity_labels: Vec::new() })
}

fn borrow_text(s: &Option<String>) -> (r: Option<&str>)
    ensures
        opt_str(r) == opt_text(*s),
{
    match s {
        Some(t) => Some(t.as_str()),
        None => None,
    }
}

fn same_scope(a: Option<&str>, b: Option<&str>) -> (r: bool)
    ensures
        r == (opt_str(a) == opt_str(b)),
{
    match (a, b) {
        (Some(x), Some(y)) => same_text(x, y),
        (None, None) => true,
        _ => false,
    }
}

fn find_label_id(db: &DbPool, id: u128) -> (r: Option<usize>)
    ensures
        match r {
            Some(i) => i < db.labels@.len() && db.labels@[i as int].id == id,
            None => !db@.has_label_id(id),
        },
{
    let mut i: usize = 0;
    while i < db.labels.len()
        invariant
            i <= db.labels@.len(),
            forall|j: int| 0 <= j < i ==> (#[trigger] db@.labels[j]).id != id,
        decreases db.labels@.len() - i,
    {
        if db.labels[i].id == id {
            return Some(i);
        }
        i += 1;
    }
    None
}

fn find_label_named(db: &DbPool, name: &str, scope: Option<&str>) -> (r: Option<usize>)
    ensures
        match r {
            Some(i) => i < db.labels@.len() && named(db.labels@[i as int]@, name@, opt_str(scope)),
            None => !db@.has_label_named(name@, opt_str(scope)),
        },
{
    let mut i: usize = 0;
    while i < db.labels.len()
        invariant
            i <= db.labels@.len(),
            forall|j: int| 0 <= j < i ==> !named(#[trigger] db@.labels[j], name@, opt_str(scope)),
        decreases db.labels@.len() - i,
    {
        let l = &db.labels[i];
        if same_text(l.name.as_str(), name) && same_scope(borrow_text(&l.scope), scope) {
            return Some(i);
        }
        i += 1;
    }
    None
}

/// The label with this identifier, or `None`: never an error.
pub fn label_by_id(db: &DbPool, id: u128) -> (r: Result<Option<Label>, Error>)
    requires
        db@.wf(),
    ensures
        r is Ok,
        opt_label(r->Ok_0) == db@.label_by_id(id),
{
    match find_label_id(db, id) {
        Some(i) => {
            assert(db@.labels[i as int].id == id);
            Ok(Some(db.labels[i].copy()))
        },
        None => Ok(None),
    }
}

/// The label with exactly this name and this scope, or `None`. Without a
/// scope only a label without scope is found.
pub fn label_by_name(db: &DbPool, name: &str, scope: Option<&str>) -> (r: Result<
    Option<Label>,
    Error,
>)
    requires
        db@.wf(),
    ensures
        r is Ok,
        opt_label(r->Ok_0) == db@.label_by_name(name@, opt_str(scope)),
{
    match find_label_named(db, name, scope) {
        Some(i) => {
            assert(named(db@.labels[i as int], name@, opt_str(scope)));
            Ok(Some(db.labels[i].copy()))
        },
        None => Ok(None),
    }
}

fn label_found_by(l: &Label, query: &str, scope: Option<&str>) -> (r: bool)
    ensures
        r == found_by(l@, query@, opt_str(scope)),
{
    match scope {
        Some(s) => starts_with(l.name.as_str(), query) && same_scope(
            borrow_text(&l.scope),
            Some(s),
        ),
        None => {
            if starts_with(l.name.as_str(), query) {
                true
            } else {
                match &l.scope {
                    Some(t) => starts_with(t.as_str(), query),
                    None => false,
                }
            }
        },
    }
}

/// The labels that a search for `name` finds, in storage order. Within a
/// scope: those of that scope whose name begins with `name`. Without: those
/// whose name or scope begins with `name`. Finding nothing is no error.
pub fn label_search(db: &DbPool, name: &str, scope: Option<&str>) -> (r: Result<
    Vec<Label>,
    Error,
>)
    requires
        db@.wf(),
    ensures
        r is Ok,
        label_views(r->Ok_0@) == db@.label_search(name@, opt_str(scope)),
{
    let ghost pred = search_pred(name@, opt_str(scope));
    let mut out: Vec<Label> = Vec::new();
    let mut i: usize = 0;
    proof {
        reveal(Seq::filter);
        assert(db@.labels.take(0).filter(pred) =~= label_views(out@));
    }
    while i < db.labels.len()
        invariant
            i <= db.labels@.len(),
            pred == search_pred(name@, opt_str(scope)),
            label_views(out@) == db@.labels.take(i as int).filter(pred),
        decreases db.labels@.len() - i,
    {
        let l = &db.labels[i];
        let ghost before = out@;
        if label_found_by(l, name, scope) {
            out.push(l.copy());
            assert(label_views(out@) =~= label_views(before).push(l@));
        }
        proof {
            let done = db@.labels.take(i as int);
            assert(db@.labels.take(i + 1) =~= done.push(l@));
            done.lemma_filter_push(l@, pred);
        }
        i += 1;
    }
    assert(db@.labels.take(i as int) =~= db@.labels);
    Ok(out)
}

/// Adding a label whose identifier and whose pair of name and scope are
/// free keeps the relational invariants.
pub proof fn lemma_with_label_wf(db: DbView, l: LabelView)
    requires
        db.wf(),
        db.accepts_label(l.id, l.name, l.scope),
        l.name.len() > 0,
    ensures
        db.with_label(l).wf(),
{
    let next = db.with_label(l);
    assert forall|k: int| 0 <= k < next.links.len() implies next.has_activity_id(
        (#[trigger] next.links[k]).0,
    ) && next.has_label_id(next.links[k].1) by {
        assert(db.has_label_id(db.links[k].1));
        let w = choose|i: int|
            0 <= i < db.labels.len() && (#[trigger] db.labels[i]).id == db.links[k].1;
        assert(next.labels[w].id == db.links[k].1);
    }
}

/// Stores a label under a given identifier. The insert is rejected with a
/// `DatabaseError`, and the store left as it was, where the identifier or
/// the pair of name and scope is taken.
pub fn label_insert(db: &mut DbPool, id: u128, l: LabelNew) -> (r: Result<Label, Error>)
    requires
        old(db)@.wf(),
        l.name@.len() > 0,
    ensures
        final(db)@.wf(),
        match r {
            Ok(lab) => {
                &&& old(db)@.accepts_label(id, l.name@, opt_text(l.scope))
                &&& lab@ == (LabelView { id: id, name: l.name@, scope: opt_text(l.scope) })
                &&& final(db)@ == old(db)@.with_label(lab@)
            },
            Err(e) => {
                &&& !old(db)@.accepts_label(id, l.name@, opt_text(l.scope))
                &&& e is DatabaseError
                &&& final(db)@ == old(db)@
            },
        },
{
    let taken = match find_label_id(db, id) {
        Some(i) => {
            assert(db@.labels[i as int].id == id);
            true
        },
        None => match find_label_named(db, l.name.as_str(), borrow_text(&l.scope)) {
            Some(i) => {
                assert(named(db@.labels[i as int], l.name@, opt_text(l.scope)));
                true
            },
            None => false,
        },
    };
    if taken {
        return Err(Error::DatabaseError("Cannot insert new label".to_owned()));
    }
    let lab = Label { id: id, name: l.name, scope: l.scope };
    let ghost before = db.labels@;
    db.labels.push(lab.copy());
    proof {
        assert(label_views(db.labels@) =~= label_views(before).push(lab@));
        lemma_with_label_wf(old(db)@, lab@);
    }
    Ok(lab)
}

/// Creates a label under a fresh random identifier. A pair of name and
/// scope that is taken is rejected with a `DatabaseError`; so is, whatever
/// the pair, an identifier that came out taken, which cannot happen while
/// the store holds no label.
pub fn label_create(db: &mut DbPool, l: LabelNew) -> (r: Result<Label, Error>)
    requires
        old(db)@.wf(),
        l.name@.len() > 0,
    ensures
        final(db)@.wf(),
        old(db)@.has_label_named(l.name@, opt_text(l.scope)) ==> r is Err,
        r is Err ==> old(db)@.has_label_named(l.name@, opt_text(l.scope)) || old(db)@.labels.len()
            > 0,
        match r {
            Ok(lab) => {
                &&& lab@.name == l.name@
                &&& lab@.scope == opt_text(l.scope)
                &&& old(db)@.accepts_label(lab@.id, l.name@, opt_text(l.scope))
                &&& final(db)@ == old(db)@.with_label(lab@)
            },
            Err(e) => e is DatabaseError && final(db)@ == old(db)@,
        },
{
    let id: u128 = fresh_id();
    label_insert(db, id, l)
}

fn find_activity_id(db: &DbPool, id: u128) -> (r: Option<usize>)
    ensures
        match r {
            Some(i) => i < db.activities@.len() && db.activities@[i as int].id == id,
            None => !db@.has_activity_id(id),
        },
{
    let mut i: usize = 0;
    while i < db.activities.len()
        invariant
            i <= db.activities@.len(),
            forall|j: int| 0 <= j < i ==> (#[trigger] db@.activities[j]).id != id,
        decreases db.activities@.len() - i,
    {
        if db.activities[i].id == id {
            return Some(i);
        }
        i += 1;
    }
    None
}

fn has_link(db: &DbPool, activity: u128, label: u128) -> (r: bool)
    ensures
        r == db@.links.contains((activity, label)),
{
    let mut k: usize = 0;
    while k < db.activity_labels.len()
        invariant
            k <= db.activity_labels@.len(),
            forall|j: int| 0 <= j < k ==> db.activity_labels@[j] != (activity, label),
        decreases db.activity_labels@.len() - k,
    {
        let pair = db.activity_labels[k];
        if pair.0 == activity && pair.1 == label {
            assert(db@.links[k as int] == (activity, label));
            return true;
        }
        k += 1;
    }
    false
}

fn labels_of(db: &DbPool, activity: u128) -> (out: Vec<Label>)
    ensures
        label_views(out@) == db@.labels_of(activity),
{
    let ghost pred = linked_pred(db@.links, activity);
    let mut out: Vec<Label> = Vec::new();
    let mut i: usize = 0;
    proof {
        reveal(Seq::filter);
        assert(db@.labels.take(0).filter(pred) =~= label_views(out@));
    }
    while i < db.labels.len()
        invariant
            i <= db.labels@.len(),
            pred == linked_pred(db@.links, activity),
            label_views(out@) == db@.labels.take(i as int).filter(pred),
        decreases db.labels@.len() - i,
    {
        let l = &db.labels[i];
        let ghost before = out@;
        if has_link(db, activity, l.id) {
            out.push(l.copy());
            assert(label_views(out@) =~= label_views(before).push(l@));
        }
        proof {
            let done = db@.labels.take(i as int);
            assert(db@.labels.take(i + 1) =~= done.push(l@));
            done.lemma_filter_push(l@, pred);
        }
        i += 1;
    }
    assert(db@.labels.take(i as int) =~= db@.labels);
    out
}

/// The activity with this identifier, or `None`: never an error. Its labels
/// are those that the association attaches to it, whatever the row held.
pub fn activity_by_id(db: &DbPool, id: u128) -> (r: Result<Option<Activity>, Error>)
    requires
        db@.wf(),
    ensures
        r is Ok,
        opt_activity(r->Ok_0) == db@.activity_by_id(id),
{
    match find_activity_id(db, id) {
        Some(i) => {
            assert(db@.activities[i as int].id == id);
            let row = &db.activities[i];
            let description = match &row.description {
                Some(d) => Some(d.clone()),
                None => None,
            };
            let mut a = Activity {
                id: row.id,
                name: row.name.clone(),
                description,
                labels: Vec::new(),
                start: row.start,
                end: row.end,
            };
            let labs = labels_of(db, id);
            if labs.len() > 0 {
                a.labels = labs;
            }
            assert(a@.labels =~= db@.labels_of(id));
            Ok(Some(a))
        },
        None => Ok(None),
    }
}

/// Adding an activity row whose identifier is free, which carries no
/// labels and whose timestamps are valid, keeps the invariants.
pub proof fn lemma_with_activity_wf(db: DbView, a: ActivityView)
    requires
        db.wf(),
        !db.has_activity_id(a.id),
        a.labels.len() == 0,
        times_valid(a),
    ensures
        db.with_activity(a).wf(),
{
    let next = db.with_activity(a);
    assert forall|k: int| 0 <= k < next.links.len() implies next.has_activity_id(
        (#[trigger] next.links[k]).0,
    ) && next.has_label_id(next.links[k].1) by {
        assert(db.has_activity_id(db.links[k].0));
        let w = choose|i: int|
            0 <= i < db.activities.len() && (#[trigger] db.activities[i]).id == db.links[k].0;
        assert(next.activities[w].id == db.links[k].0);
    }
}

/// An activity without a row has no labels: each association joins an
/// activity that exists.
pub proof fn lemma_unknown_activity_has_no_labels(db: DbView, id: u128)
    requires
        db.wf(),
        !db.has_activity_id(id),
    ensures
        db.labels_of(id) == Seq::<LabelView>::empty(),
{
    let pred = linked_pred(db.links, id);
    assert forall|i: int| 0 <= i < db.labels.len() implies !pred(#[trigger] db.labels[i]) by {
        if db.links.contains((id, db.labels[i].id)) {
            let k = choose|k: int| 0 <= k < db.links.len() && db.links[k] == (id, db.labels[i].id);
            assert(db.has_activity_id(db.links[k].0));
        }
    }
    db.labels.lemma_all_neg_filter_empty(pred);
    assert(db.labels_of(id) =~= Seq::<LabelView>::empty());
}

/// Stores an activity under a given identifier, with its name, description
/// and start; the labels that `a` carries are not stored, and the activity
/// is open. The result is the stored activity read back. A missing start is
/// refused by the store (`SqlError`); a start that is no day of the calendar
/// or no time of the clock is refused before that (`ParseError`); an
/// identifier that is taken rejects the insert (`DatabaseError`). In each
/// case the store is left as it was.
pub fn activity_insert(db: &mut DbPool, id: u128, a: ActivityNew) -> (r: Result<Activity, Error>)
    requires
        old(db)@.wf(),
    ensures
        final(db)@.wf(),
        match r {
            Ok(act) => {
                &&& a.start is Some
                &&& a.start->Some_0.valid()
                &&& !old(db)@.has_activity_id(id)
                &&& act@ == (ActivityView {
                    id: id,
                    name: a.name@,
                    description: opt_text(a.description),
                    labels: Seq::empty(),
                    start: a.start->Some_0,
                    end: None,
                })
                &&& final(db)@ == old(db)@.with_activity(act@)
                &&& final(db)@.activity_by_id(id) == Some(act@)
            },
            Err(e) => {
                &&& final(db)@ == old(db)@
                &&& a.start is None ==> e is SqlError
                &&& a.start is Some && !a.start->Some_0.valid() ==> e is ParseError
                &&& a.start is Some && a.start->Some_0.valid() ==> e is DatabaseError && old(
                    db,
                )@.has_activity_id(id)
            },
        },
{
    let start = match a.start {
        Some(t) => t,
        None => {
            return Err(Error::SqlError("NOT NULL constraint failed: activities.astart".to_owned()));
        },
    };
    if !is_valid(&start) {
        return Err(Error::ParseError("start is no date and time".to_owned()));
    }
    match find_activity_id(db, id) {
        Some(i) => {
            assert(db@.activities[i as int].id == id);
            return Err(Error::DatabaseError("Cannot insert new activity".to_owned()));
        },
        None => {},
    }
    let row = Activity {
        id: id,
        name: a.name,
        description: a.description,
        labels: Vec::new(),
        start: start,
        end: None,
    };
    let ghost before = db.activities@;
    let ghost stored = row@;
    db.activities.push(row);
    proof {
        assert(stored.labels =~= Seq::<LabelView>::empty());
        assert(activity_views(db.activities@) =~= activity_views(before).push(stored));
        assert(db@ == old(db)@.with_activity(stored));
        lemma_with_activity_wf(old(db)@, stored);
        lemma_unknown_activity_has_no_labels(old(db)@, id);
        assert(db@.labels_of(id) == old(db)@.labels_of(id));
        assert(db@.activities[before.len() as int].id == id);
    }
    match activity_by_id(db, id) {
        Ok(Some(act)) => Ok(act),
        _ => {
            proof {
                assert(false);
            }
            Err(Error::DatabaseError("Cannot load newly created activity".to_owned()))
        },
    }
}

/// Starts an activity under a fresh random identifier: see
/// [`activity_insert`]. With a valid start given, only an identifier that
/// came out taken makes it fail, which cannot happen while the store holds
/// no activity.
pub fn activity_start(db: &mut DbPool, a: ActivityNew) -> (r: Result<Activity, Error>)
    requires
        old(db)@.wf(),
    ensures
        final(db)@.wf(),
        a.start is None || !a.start->Some_0.valid() ==> r is Err,
        r is Err && a.start is Some && a.start->Some_0.valid() ==> old(db)@.activities.len() > 0,
        match r {
            Ok(act) => {
                &&& a.start is Some
                &&& a.start->Some_0.valid()
                &&& !old(db)@.has_activity_id(act@.id)
                &&& act@ == (ActivityView {
                    id: act@.id,
                    name: a.name@,
                    description: opt_text(a.description),
                    labels: Seq::empty(),
                    start: a.start->Some_0,
                    end: None,
                })
                &&& final(db)@ == old(db)@.with_activity(act@)
                &&& final(db)@.activity_by_id(act@.id) == Some(act@)
            },
            Err(e) => {
                &&& final(db)@ == old(db)@
                &&& a.start is None ==> e is SqlError
                &&& a.start is Some && !a.start->Some_0.valid() ==> e is ParseError
                &&& a.start is Some && a.start->Some_0.valid() ==> e is DatabaseError
            },
        },
{
    let id: u128 = fresh_id();
    activity_insert(db, id, a)
}

fn label_keys_hold(db: &DbPool) -> (r: bool)
    ensures
        r == {
            &&& forall|i: int, j: int|
                0 <= i < j < db@.labels.len() ==> (#[trigger] db@.labels[i]).id
                    != (#[trigger] db@.labels[j]).id
            &&& forall|i: int, j: int|
                0 <= i < j < db@.labels.len() ==> !named(
                    #[trigger] db@.labels[i],
                    (#[trigger] db@.labels[j]).name,
                    db@.labels[j].scope,
                )
            &&& forall|i: int|
                0 <= i < db@.labels.len() ==> (#[trigger] db@.labels[i]).name.len() > 0
        },
{
    let mut j: usize = 0;
    while j < db.labels.len()
        invariant
            j <= db.labels@.len(),
            forall|a: int, b: int|
                0 <= a < b < j ==> (#[trigger] db@.labels[a]).id != (#[trigger] db@.labels[b]).id,
            forall|a: int, b: int|
                0 <= a < b < j ==> !named(
                    #[trigger] db@.labels[a],
                    (#[trigger] db@.labels[b]).name,
                    db@.labels[b].scope,
                ),
            forall|a: int| 0 <= a < j ==> (#[trigger] db@.labels[a]).name.len() > 0,
        decreases db.labels@.len() - j,
    {
        let l = &db.labels[j];
        if l.name.as_str().unicode_len() == 0 {
            assert(db@.labels[j as int].name.len() == 0);
            return false;
        }
        let mut i: usize = 0;
        while i < j
            invariant
                i <= j,
                j < db.labels@.len(),
                l == &db.labels@[j as int],
                forall|a: int| 0 <= a < i ==> (#[trigger] db@.labels[a]).id != l.id,
                forall|a: int| 0 <= a < i ==> !named(#[trigger] db@.labels[a], l.name@, l@.scope),
            decreases j - i,
        {
            let k = &db.labels[i];
            if k.id == l.id {
                assert(db@.labels[i as int].id == db@.labels[j as int].id);
                return false;
            }
            if same_text(k.name.as_str(), l.name.as_str()) && same_scope(
                borrow_text(&k.scope),
                borrow_text(&l.scope),
            ) {
                assert(named(
                    db@.labels[i as int],
                    db@.labels[j as int].name,
                    db@.labels[j as int].scope,
                ));
                return false;
            }
            i += 1;
        }
        j += 1;
    }
    true
}

fn times_hold(a: &Activity) -> (r: bool)
    ensures
        r == times_valid(a@),
{
    let end_holds = match &a.end {
        Some(t) => is_valid(t),
        None => true,
    };
    is_valid(&a.start) && end_holds
}

fn activity_keys_hold(db: &DbPool) -> (r: bool)
    ensures
        r == {
            &&& forall|i: int, j: int|
                0 <= i < j < db@.activities.len() ==> (#[trigger] db@.activities[i]).id
                    != (#[trigger] db@.activities[j]).id
            &&& forall|i: int|
                0 <= i < db@.activities.len() ==> (#[trigger] db@.activities[i]).labels.len()
                    == 0
            &&& forall|i: int|
                0 <= i < db@.activities.len() ==> times_valid(#[trigger] db@.activities[i])
        },
{
    let mut j: usize = 0;
    while j < db.activities.len()
        invariant
            j <= db.activities@.len(),
            forall|a: int, b: int|
                0 <= a < b < j ==> (#[trigger] db@.activities[a]).id
                    != (#[trigger] db@.activities[b]).id,
            forall|a: int| 0 <= a < j ==> (#[trigger] db@.activities[a]).labels.len() == 0,
            forall|a: int| 0 <= a < j ==> times_valid(#[trigger] db@.activities[a]),
        decreases db.activities@.len() - j,
    {
        let x = &db.activities[j];
        if x.labels.len() != 0 {
            assert(db@.activities[j as int].labels.len() != 0);
            return false;
        }
        if !times_hold(x) {
            assert(!times_valid(db@.activities[j as int]));
            return false;
        }
        let mut i: usize = 0;
        while i < j
            invariant
                i <= j,
                j < db.activities@.len(),
                x == &db.activities@[j as int],
                forall|a: int| 0 <= a < i ==> (#[trigger] db@.activities[a]).id != x.id,
            decreases j - i,
        {
            if db.activities[i].id == x.id {
                assert(db@.activities[i as int].id == db@.activities[j as int].id);
                return false;
            }
            i += 1;
        }
        j += 1;
    }
    true
}

fn links_hold(db: &DbPool) -> (r: bool)
    ensures
        r == {
            &&& forall|k: int|
                0 <= k < db@.links.len() ==> db@.has_activity_id((#[trigger] db@.links[k]).0)
                    && db@.has_label_id(db@.links[k].1)
            &&& forall|k: int, m: int|
                0 <= k < m < db@.links.len() ==> #[trigger] db@.links[k]
                    != #[trigger] db@.links[m]
        },
{
    let mut m: usize = 0;
    while m < db.activity_labels.len()
        invariant
            m <= db.activity_labels@.len(),
            forall|k: int|
                0 <= k < m ==> db@.has_activity_id((#[trigger] db@.links[k]).0)
                    && db@.has_label_id(db@.links[k].1),
            forall|a: int, b: int|
                0 <= a < b < m ==> #[trigger] db@.links[a] != #[trigger] db@.links[b],
        decreases db.activity_labels@.len() - m,
    {
        let pair = db.activity_labels[m];
        match find_activity_id(db, pair.0) {
            Some(i) => {
                assert(db@.activities[i as int].id == pair.0);
            },
            None => {
                assert(!db@.has_activity_id(db@.links[m as int].0));
                return false;
            },
        }
        match find_label_id(db, pair.1) {
            Some(i) => {
                assert(db@.labels[i as int].id == pair.1);
            },
            None => {
                assert(!db@.has_label_id(db@.links[m as int].1));
                return false;
            },
        }
        let mut k: usize = 0;
        while k < m
            invariant
                k <= m,
                m < db.activity_labels@.len(),
                pair == db.activity_labels@[m as int],
                forall|a: int| 0 <= a < k ==> #[trigger] db@.links[a] != pair,
            decreases m - k,
        {
            let other = db.activity_labels[k];
            if other.0 == pair.0 && other.1 == pair.1 {
                assert(db@.links[k as int] == db@.links[m as int]);
                return false;
            }
            k += 1;
        }
        m += 1;
    }
    true
}

/// Whether the relational invariants hold of a store: the test to make
/// before the operations are used on a store that was put together by hand.
pub fn is_consistent(db: &DbPool) -> (r: bool)
    ensures
        r == db@.wf(),
{
    label_keys_hold(db) && activity_keys_hold(db) && links_hold(db)
}

} // verus!
