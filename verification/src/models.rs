use vstd::prelude::*;
use vstd::string::StringExecFns;
use crate::text::opt_text;

verus! {

/// A local date and time of day, to the second, without a time zone.
#[derive(Clone, Copy, Debug, PartialEq, Eq, Structural)]
pub struct Timestamp {
    pub year: u16,
    pub month: u8,
    pub day: u8,
    pub hour: u8,
    pub minute: u8,
    pub second: u8,
}

/// Whether `year` is a leap year of the Gregorian calendar.
pub open spec fn is_leap_year(year: int) -> bool {
    year % 4 == 0 && (year % 100 != 0 || year % 400 == 0)
}

/// The number of days of a month, 0 for what is no month.
pub open spec fn days_in_month(year: int, month: int) -> int {
    if month == 2 {
        if is_leap_year(year) { 29 } else { 28 }
    } else if month == 4 || month == 6 || month == 9 || month == 11 {
        30
    } else if 1 <= month <= 12 {
        31
    } else {
        0
    }
}

impl Timestamp {
    /// A day of the calendar in the years 0 to 9999 and a time of the 24-hour clock.
    pub open spec fn valid(self) -> bool {
        &&& self.year <= 9999
        &&& 1 <= self.month <= 12
        &&& 1 <= self.day <= days_in_month(self.year as int, self.month as int)
        &&& self.hour <= 23
        &&& self.minute <= 59
        &&& self.second <= 59
    }
}

fn same_optional_text(a: &Option<String>, b: &Option<String>) -> (r: bool)
    ensures
        r == (opt_text(*a) == opt_text(*b)),
{
    match (a, b) {
        (Some(x), Some(y)) => *x == *y,
        (None, None) => true,
        _ => false,
    }
}

fn same_optional_time(a: &Option<Timestamp>, b: &Option<Timestamp>) -> (r: bool)
    ensures
        r == (*a == *b),
{
    match (a, b) {
        (Some(x), Some(y)) => *x == *y,
        (None, None) => true,
        _ => false,
    }
}

/// What a label is, as mathematics.
pub struct LabelView {
    pub id: u128,
    pub name: Seq<char>,
    pub scope: Option<Seq<char>>,
}

/// A named tag, optionally within a scope.
#[derive(Clone, Debug, PartialEq, Eq)]
pub struct Label {
    pub id: u128,
    pub name: String,
    pub scope: Option<String>,
}

impl View for Label {
    type V = LabelView;

    open spec fn view(&self) -> LabelView {
        LabelView { id: self.id, name: self.name@, scope: opt_text(self.scope) }
    }
}

/// The views of a sequence of labels, in its order.
pub open spec fn label_views(v: Seq<Label>) -> Seq<LabelView> {
    Seq::new(v.len(), |i: int| v[i]@)
}

impl LabelView {
    /// The display form: `scope::name` within a scope, else the name.
    pub open spec fn description(self) -> Seq<char> {
        match self.scope {
            Some(s) => s + seq![':', ':'] + self.name,
            None => self.name,
        }
    }
}

impl Label {
    /// The display form: `scope::name` within a scope, else the name.
    pub fn description(&self) -> (r: String)
        ensures
            r@ == self@.description(),
    {
        match &self.scope {
            Some(s) => {
                proof {
                    reveal_strlit("::");
                    assert("::"@ =~= seq![':', ':']);
                }
                s.clone().concat("::").concat(self.name.as_str())
            },
            None => self.name.clone(),
        }
    }

    /// Value equality: every field is equal.
    pub fn same_as(&self, other: &Label) -> (r: bool)
        ensures
            r == (self@ == other@),
    {
        self.id == other.id && self.name == other.name && same_optional_text(
            &self.scope,
            &other.scope,
        )
    }

    /// An independent copy with the same fields.
    pub fn copy(&self) -> (r: Label)
        ensures
            r == *self,
    {
        let scope = match &self.scope {
            Some(s) => Some(s.clone()),
            None => None,
        };
        Label { id: self.id, name: self.name.clone(), scope }
    }
}

/// A label before it is stored: it has no identifier yet.
#[derive(Clone, Debug, PartialEq, Eq)]
pub struct LabelNew {
    pub name: String,
    pub scope: Option<String>,
}

/// What an activity is, as mathematics.
pub struct ActivityView {
    pub id: u128,
    pub name: Seq<char>,
    pub description: Option<Seq<char>>,
    pub labels: Seq<LabelView>,
    pub start: Timestamp,
    pub end: Option<Timestamp>,
}

/// A named occurrence with a start, perhaps an end, and its labels.
#[derive(Clone, Debug, PartialEq, Eq)]
pub struct Activity {
    pub id: u128,
    pub name: String,
    pub description: Option<String>,
    pub labels: Vec<Label>,
    pub start: Timestamp,
    pub end: Option<Timestamp>,
}

impl View for Activity {
    type V = ActivityView;

    open spec fn view(&self) -> ActivityView {
        ActivityView {
            id: self.id,
            name: self.name@,
            description: opt_text(self.description),
            labels: label_views(self.labels@),
            start: self.start,
            end: self.end,
        }
    }
}

impl Activity {
    /// Value equality: every field is equal, the labels one by one in
    /// their order.
    pub fn same_as(&self, other: &Activity) -> (r: bool)
        ensures
            r == (self@ == other@),
    {
        if !(self.id == other.id && self.name == other.name && same_optional_text(
            &self.description,
            &other.description,
        ) && self.start == other.start && same_optional_time(&self.end, &other.end)) {
            return false;
        }
        if self.labels.len() != other.labels.len() {
            assert(self@.labels.len() != other@.labels.len());
            return false;
        }
        let mut i: usize = 0;
        while i < self.labels.len()
            invariant
                i <= self.labels@.len(),
                self.labels@.len() == other.labels@.len(),
                forall|j: int| 0 <= j < i ==> self.labels@[j]@ == other.labels@[j]@,
            decreases self.labels@.len() - i,
        {
            if !self.labels[i].same_as(&other.labels[i]) {
                assert(self@.labels[i as int] != other@.labels[i as int]);
                return false;
            }
            i += 1;
        }
        assert(self@.labels =~= other@.labels);
        true
    }
}

/// An activity before it is stored.
#[derive(Clone, Debug, PartialEq, Eq)]
pub struct ActivityNew {
    pub name: String,
    pub description: Option<String>,
    pub labels: Vec<Label>,
    pub start: Option<Timestamp>,
}

} // verus!
