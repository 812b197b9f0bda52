use vstd::prelude::*;
use crate::db::{DbView, found_by, linked_pred, named, search_pred, times_valid};
use crate::models::{ActivityView, LabelView};

verus! {

/// A label that was created is found by its name and scope, and by its
/// identifier, and what is found is the label that was created.
pub proof fn lemma_created_label_is_found(db: DbView, l: LabelView)
    requires
        db.wf(),
        l.name.len() > 0,
        db.accepts_label(l.id, l.name, l.scope),
    ensures
        db.with_label(l).label_by_name(l.name, l.scope) == Some(l),
        db.with_label(l).label_by_id(l.id) == Some(l),
{
    let next = db.with_label(l);
    let last = db.labels.len() as int;
    crate::db::lemma_with_label_wf(db, l);
    assert(next.labels[last] == l);
    assert(named(next.labels[last], l.name, l.scope));
    let i = choose|i: int|
        0 <= i < next.labels.len() && named(#[trigger] next.labels[i], l.name, l.scope);
    assert(i == last) by {
        if i < last {
            assert(named(next.labels[i], next.labels[last].name, next.labels[last].scope));
        }
    }
    let j = choose|j: int| 0 <= j < next.labels.len() && (#[trigger] next.labels[j]).id == l.id;
    assert(j == last) by {
        if j < last {
            assert(next.labels[j].id == next.labels[last].id);
        }
    }
}

/// Once a label is stored, no label with the same name and scope is
/// accepted, under whatever identifier, with or without a scope.
pub proof fn lemma_same_name_and_scope_is_rejected(db: DbView, l: LabelView, other_id: u128)
    requires
        db.accepts_label(l.id, l.name, l.scope),
    ensures
        !db.with_label(l).accepts_label(other_id, l.name, l.scope),
{
    let next = db.with_label(l);
    assert(named(next.labels[db.labels.len() as int], l.name, l.scope));
}

/// Two labels of one name in different scopes can both be stored: the
/// first does not stand in the way of the second.
pub proof fn lemma_scopes_tell_labels_apart(db: DbView, first: LabelView, second: LabelView)
    requires
        db.accepts_label(first.id, first.name, first.scope),
        db.accepts_label(second.id, second.name, second.scope),
        first.id != second.id,
        first.scope != second.scope,
    ensures
        db.with_label(first).accepts_label(second.id, second.name, second.scope),
{
    let next = db.with_label(first);
    assert forall|i: int| 0 <= i < next.labels.len() implies (#[trigger] next.labels[i]).id
        != second.id && !named(next.labels[i], second.name, second.scope) by {
        if i < db.labels.len() {
            assert(next.labels[i] == db.labels[i]);
        }
    }
}

/// A lookup by name without a scope never yields a label that has one, and
/// a lookup within a scope only labels of that scope.
pub proof fn lemma_lookup_respects_scope(db: DbView, name: Seq<char>, scope: Option<Seq<char>>)
    ensures
        match db.label_by_name(name, scope) {
            Some(l) => l.name == name && l.scope == scope && db.labels.contains(l),
            None => forall|i: int|
                0 <= i < db.labels.len() ==> !named(#[trigger] db.labels[i], name, scope),
        },
{
}

/// A search finds exactly the stored labels that match, and nothing else.
pub proof fn lemma_search_finds_exactly(
    db: DbView,
    query: Seq<char>,
    scope: Option<Seq<char>>,
    l: LabelView,
)
    ensures
        db.label_search(query, scope).contains(l) <==> db.labels.contains(l) && found_by(
            l,
            query,
            scope,
        ),
{
    let pred = search_pred(query, scope);
    let hits = db.labels.filter(pred);
    #[allow(deprecated)]
    db.labels.filter_lemma(pred);
    if hits.contains(l) {
        db.labels.lemma_filter_contains_rev(pred, l);
        let k = choose|k: int| 0 <= k < hits.len() && hits[k] == l;
        assert(pred(hits[k]));
    }
    if db.labels.contains(l) && found_by(l, query, scope) {
        let i = choose|i: int| 0 <= i < db.labels.len() && db.labels[i] == l;
        assert(pred(db.labels[i]));
        assert(hits.contains(db.labels[i]));
    }
}

/// An activity that was started is read back as it was stored.
pub proof fn lemma_started_activity_is_reloaded(db: DbView, a: ActivityView)
    requires
        db.wf(),
        !db.has_activity_id(a.id),
        a.labels.len() == 0,
        times_valid(a),
    ensures
        db.with_activity(a).wf(),
        db.with_activity(a).activity_by_id(a.id) == Some(a),
{
    let next = db.with_activity(a);
    let last = db.activities.len() as int;
    crate::db::lemma_with_activity_wf(db, a);
    crate::db::lemma_unknown_activity_has_no_labels(db, a.id);
    assert(next.labels_of(a.id) == db.labels_of(a.id));
    assert(next.activities[last] == a);
    let i = choose|i: int|
        0 <= i < next.activities.len() && (#[trigger] next.activities[i]).id == a.id;
    assert(i == last) by {
        if i < last {
            assert(next.activities[i].id == next.activities[last].id);
        }
    }
    assert(a.labels =~= Seq::<LabelView>::empty());
}

/// The labels of a loaded activity are exactly the stored labels that the
/// association attaches to it.
pub proof fn lemma_attached_labels_are_visible(db: DbView, id: u128, l: LabelView)
    requires
        db.has_activity_id(id),
    ensures
        db.activity_by_id(id) is Some,
        db.activity_by_id(id)->Some_0.labels.contains(l) <==> db.labels.contains(l)
            && db.links.contains((id, l.id)),
{
    let pred = linked_pred(db.links, id);
    let hits = db.labels.filter(pred);
    #[allow(deprecated)]
    db.labels.filter_lemma(pred);
    if hits.contains(l) {
        db.labels.lemma_filter_contains_rev(pred, l);
        let k = choose|k: int| 0 <= k < hits.len() && hits[k] == l;
        assert(pred(hits[k]));
    }
    if db.labels.contains(l) && db.links.contains((id, l.id)) {
        let i = choose|i: int| 0 <= i < db.labels.len() && db.labels[i] == l;
        assert(pred(db.labels[i]));
        assert(hits.contains(db.labels[i]));
    }
}

/// An identifier that nothing is stored under yields no label and no
/// activity.
pub proof fn lemma_absent_is_none(db: DbView, id: u128)
    ensures
        !db.has_label_id(id) ==> db.label_by_id(id) is None,
        !db.has_activity_id(id) ==> db.activity_by_id(id) is None,
{
}

} // verus!
