//! Flag definitions and the string values attached to them.

use vstd::prelude::*;
use crate::kind::ValueKind;
use crate::scan::{first_index, lemma_first_index, lemma_first_index_agree, lemma_first_index_is};
use crate::text::same_text;

verus! {

/// One registered flag. Written once at registration and never changed.
#[derive(Clone, Debug, PartialEq, Eq)]
pub struct Flag<'a> {
    pub name: &'a str,
    pub desc: &'a str,
    pub is_required: bool,
    pub kind: ValueKind,
}

/// The mathematical content of a [`Flag`].
pub struct FlagView {
    pub name: Seq<char>,
    pub desc: Seq<char>,
    pub is_required: bool,
    pub kind: ValueKind,
}

impl<'a> View for Flag<'a> {
    type V = FlagView;

    open spec fn view(&self) -> FlagView {
        FlagView {
            name: self.name@,
            desc: self.desc@,
            is_required: self.is_required,
            kind: self.kind,
        }
    }
}

/// A flag name paired with a value in string form: a declared default, or
/// the outcome of parsing.
#[derive(Clone, Debug, PartialEq, Eq)]
pub struct FlagValue<'a> {
    pub name: &'a str,
    pub str_value: String,
}

/// The mathematical content of a [`FlagValue`].
pub struct FlagValueView {
    pub name: Seq<char>,
    pub str_value: Seq<char>,
}

impl<'a> View for FlagValue<'a> {
    type V = FlagValueView;

    open spec fn view(&self) -> FlagValueView {
        FlagValueView { name: self.name@, str_value: self.str_value@ }
    }
}

/// The contents of a run of flags.
pub open spec fn flag_views(flags: Seq<Flag>) -> Seq<FlagView> {
    Seq::new(flags.len(), |i: int| flags[i]@)
}

/// The contents of a run of flag values.
pub open spec fn value_views(values: Seq<FlagValue>) -> Seq<FlagValueView> {
    Seq::new(values.len(), |i: int| values[i]@)
}

/// The position of the first flag called `name`, if there is one.
pub open spec fn flag_position(flags: Seq<FlagView>, name: Seq<char>) -> Option<int> {
    first_index(flags.len() as int, |i: int| flags[i].name == name)
}

/// The position of the first value filed under `name`, if there is one.
pub open spec fn value_position(values: Seq<FlagValueView>, name: Seq<char>) -> Option<int> {
    first_index(values.len() as int, |i: int| values[i].name == name)
}

/// The string filed under `name`, if there is one.
pub open spec fn value_of(values: Seq<FlagValueView>, name: Seq<char>) -> Option<Seq<char>> {
    match value_position(values, name) {
        Some(i) => Some(values[i].str_value),
        None => None,
    }
}

/// Where `flag_position` finds a flag, that flag has the name and none
/// before it has; where it finds none, no flag has the name.
pub proof fn lemma_flag_position(flags: Seq<FlagView>, name: Seq<char>)
    ensures
        match flag_position(flags, name) {
            Some(i) => 0 <= i < flags.len() && flags[i].name == name && forall|j: int|
                0 <= j < i ==> (#[trigger] flags[j]).name != name,
            None => forall|j: int| 0 <= j < flags.len() ==> (#[trigger] flags[j]).name != name,
        },
{
    let p = |i: int| flags[i].name == name;
    lemma_first_index(flags.len() as int, p);
    match flag_position(flags, name) {
        Some(i) => {
            assert forall|j: int| 0 <= j < i implies (#[trigger] flags[j]).name != name by {
                assert(!p(j));
            }
        },
        None => {
            assert forall|j: int| 0 <= j < flags.len() implies (#[trigger] flags[j]).name
                != name by {
                assert(!p(j));
            }
        },
    }
}

/// Where `value_position` finds a value, it is filed under the name and
/// none before it is; where it finds none, no value is filed under the name.
pub proof fn lemma_value_position(values: Seq<FlagValueView>, name: Seq<char>)
    ensures
        match value_position(values, name) {
            Some(i) => 0 <= i < values.len() && values[i].name == name && forall|j: int|
                0 <= j < i ==> (#[trigger] values[j]).name != name,
            None => forall|j: int| 0 <= j < values.len() ==> (#[trigger] values[j]).name != name,
        },
{
    let p = |i: int| values[i].name == name;
    lemma_first_index(values.len() as int, p);
    match value_position(values, name) {
        Some(i) => {
            assert forall|j: int| 0 <= j < i implies (#[trigger] values[j]).name != name by {
                assert(!p(j));
            }
        },
        None => {
            assert forall|j: int| 0 <= j < values.len() implies (#[trigger] values[j]).name
                != name by {
                assert(!p(j));
            }
        },
    }
}

/// Appending a flag keeps every earlier position and adds the new one for
/// a name that was not there.
pub proof fn lemma_flag_position_push(flags: Seq<FlagView>, flag: FlagView, name: Seq<char>)
    ensures
        flag_position(flags.push(flag), name) == match flag_position(flags, name) {
            Some(i) => Some(i),
            None => if flag.name == name {
                Some(flags.len() as int)
            } else {
                None
            },
        },
{
    let more = flags.push(flag);
    let p = |i: int| flags[i].name == name;
    let q = |i: int| more[i].name == name;
    lemma_first_index_agree(flags.len() as int, p, q);
}

/// Appending a value keeps every earlier position and adds the new one for
/// a name that was not there.
pub proof fn lemma_value_position_push(
    values: Seq<FlagValueView>,
    value: FlagValueView,
    name: Seq<char>,
)
    ensures
        value_position(values.push(value), name) == match value_position(values, name) {
            Some(i) => Some(i),
            None => if value.name == name {
                Some(values.len() as int)
            } else {
                None
            },
        },
{
    let more = values.push(value);
    let p = |i: int| values[i].name == name;
    let q = |i: int| more[i].name == name;
    lemma_first_index_agree(values.len() as int, p, q);
}

/// Finds the first flag called `name` by a linear scan.
pub fn find_flag(flags: &Vec<Flag>, name: &str) -> (found: Option<usize>)
    ensures
        match found {
            Some(k) => k < flags.len() && flags[k as int].name@ == name@ && flag_position(
                flag_views(flags@),
                name@,
            ) == Some(k as int),
            None => flag_position(flag_views(flags@), name@) is None,
        },
{
    let ghost views = flag_views(flags@);
    let ghost p = |i: int| views[i].name == name@;
    let mut k: usize = 0;
    while k < flags.len()
        invariant
            0 <= k <= flags.len(),
            views == flag_views(flags@),
            p == |i: int| views[i].name == name@,
            forall|j: int| 0 <= j < k ==> !#[trigger] p(j),
        decreases flags.len() - k,
    {
        if same_text(flags[k].name, name) {
            proof {
                lemma_first_index_is(views.len() as int, p, k as int);
            }
            return Some(k);
        }
        k += 1;
    }
    proof {
        lemma_first_index(views.len() as int, p);
    }
    None
}

/// Finds the first value filed under `name` by a linear scan.
pub fn find_value(values: &Vec<FlagValue>, name: &str) -> (found: Option<usize>)
    ensures
        match found {
            Some(k) => k < values.len() && values[k as int].name@ == name@ && value_position(
                value_views(values@),
                name@,
            ) == Some(k as int),
            None => value_position(value_views(values@), name@) is None,
        },
{
    let ghost views = value_views(values@);
    let ghost p = |i: int| views[i].name == name@;
    let mut k: usize = 0;
    while k < values.len()
        invariant
            0 <= k <= values.len(),
            views == value_views(values@),
            p == |i: int| views[i].name == name@,
            forall|j: int| 0 <= j < k ==> !#[trigger] p(j),
        decreases values.len() - k,
    {
        if same_text(values[k].name, name) {
            proof {
                lemma_first_index_is(views.len() as int, p, k as int);
            }
            return Some(k);
        }
        k += 1;
    }
    proof {
        lemma_first_index(views.len() as int, p);
    }
    None
}

/// Hands out the string filed under `name`, for a caller who knows that
/// there is one.
pub fn expect_value<'v>(values: &'v Vec<FlagValue>, name: &str) -> (text: &'v String)
    requires
        value_of(value_views(values@), name@) is Some,
    ensures
        Some(text@) == value_of(value_views(values@), name@),
{
    let ghost views = value_views(values@);
    let ghost target = value_position(views, name@)->Some_0;
    proof {
        lemma_value_position(views, name@);
    }
    let mut k: usize = 0;
    loop
        invariant
            views == value_views(values@),
            value_position(views, name@) == Some(target),
            0 <= k <= target < values.len(),
            views[target].name == name@,
            forall|j: int| 0 <= j < target ==> (#[trigger] views[j]).name != name@,
        decreases values.len() - k,
    {
        if same_text(values[k].name, name) {
            assert(views[k as int].name == name@);
            return &values[k].str_value;
        }
        k += 1;
    }
}

} // verus!
