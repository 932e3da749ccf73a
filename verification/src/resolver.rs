//! From tokenized arguments to one string value per registered flag.
//!
//! Flags are resolved in registration order and the first failure ends the
//! whole attempt: either every flag gets its value or none is handed out.

use vstd::prelude::*;
use vstd::string::StringExecFns;
use crate::error::{ErrorView, ProgramError};
use crate::flag::{expect_value, flag_views, value_of, value_views, Flag, FlagValue, FlagValueView, FlagView};
use crate::kind::ValueKind;
use crate::scan::{first_index, lemma_first_index, lemma_first_index_is};
use crate::tokenizer::GivenArgs;

verus! {

/// The string stored for a boolean flag that was switched on by its bare
/// marker.
pub open spec fn switched_on() -> Seq<char> {
    "true"@
}

/// The value of one flag, or why it has none:
/// a value given with the marker is kept as it is;
/// a bare marker switches a boolean flag on and fails any other flag;
/// without a marker a required flag fails and an optional flag falls back
/// to its declared default.
pub open spec fn resolve_one(
    flag: FlagView,
    given: Map<Seq<char>, Option<Seq<char>>>,
    defaults: Seq<FlagValueView>,
) -> Result<FlagValueView, ErrorView> {
    if given.dom().contains(flag.name) {
        match given[flag.name] {
            Some(v) => Ok(FlagValueView { name: flag.name, str_value: v }),
            None => if flag.kind == ValueKind::Boolean {
                Ok(FlagValueView { name: flag.name, str_value: switched_on() })
            } else {
                Err(ErrorView::RequiredArgWasNotGiven { name: flag.name })
            },
        }
    } else if flag.is_required {
        Err(ErrorView::RequiredArgWasNotGiven { name: flag.name })
    } else {
        Ok(FlagValueView { name: flag.name, str_value: value_of(defaults, flag.name).unwrap() })
    }
}

/// The first flag, in registration order, that has no value.
pub open spec fn first_failure(
    flags: Seq<FlagView>,
    given: Map<Seq<char>, Option<Seq<char>>>,
    defaults: Seq<FlagValueView>,
) -> Option<int> {
    first_index(flags.len() as int, |i: int| resolve_one(flags[i], given, defaults) is Err)
}

/// One value per flag, in registration order, or the failure of the first
/// flag that has none.
pub open spec fn resolved(
    flags: Seq<FlagView>,
    given: Map<Seq<char>, Option<Seq<char>>>,
    defaults: Seq<FlagValueView>,
) -> Result<Seq<FlagValueView>, ErrorView> {
    match first_failure(flags, given, defaults) {
        Some(k) => Err(resolve_one(flags[k], given, defaults)->Err_0),
        None => Ok(Seq::new(flags.len(), |i: int| resolve_one(flags[i], given, defaults)->Ok_0)),
    }
}

/// Every optional flag that was not marked has a declared default to fall
/// back to.
pub open spec fn defaults_suffice(
    flags: Seq<FlagView>,
    given: Map<Seq<char>, Option<Seq<char>>>,
    defaults: Seq<FlagValueView>,
) -> bool {
    forall|i: int|
        0 <= i < flags.len() && !flags[i].is_required && !given.dom().contains(
            #[trigger] flags[i].name,
        ) ==> value_of(defaults, flags[i].name) is Some
}

/// Resolves a single flag as [`resolve_one`] says.
fn resolve_flag<'a>(
    flag: &Flag<'a>,
    given: &GivenArgs,
    defaults: &Vec<FlagValue>,
) -> (outcome: Result<FlagValue<'a>, ProgramError>)
    requires
        !flag.is_required && !given@.dom().contains(flag.name@) ==> value_of(
            value_views(defaults@),
            flag.name@,
        ) is Some,
    ensures
        match outcome {
            Ok(v) => resolve_one(flag@, given@, value_views(defaults@)) == Ok::<
                FlagValueView,
                ErrorView,
            >(v@),
            Err(e) => resolve_one(flag@, given@, value_views(defaults@)) == Err::<
                FlagValueView,
                ErrorView,
            >(e@),
        },
{
    match given.get(flag.name) {
        Some(Some(v)) => Ok(FlagValue { name: flag.name, str_value: v.to_owned() }),
        Some(None) => {
            if !flag.kind.requires_value() {
                Ok(FlagValue { name: flag.name, str_value: String::from_str("true") })
            } else {
                Err(ProgramError::RequiredArgWasNotGiven { name: flag.name.to_owned() })
            }
        },
        None => {
            if flag.is_required {
                Err(ProgramError::RequiredArgWasNotGiven { name: flag.name.to_owned() })
            } else {
                let fallback = expect_value(defaults, flag.name);
                Ok(FlagValue { name: flag.name, str_value: fallback.clone() })
            }
        },
    }
}

/// Combines what the arguments said with each flag's kind, requiredness and
/// default into one value per flag, or reports the first flag that has none.
pub fn resolve<'a>(
    flags: &Vec<Flag<'a>>,
    given: &GivenArgs,
    defaults: &Vec<FlagValue>,
) -> (outcome: Result<Vec<FlagValue<'a>>, ProgramError>)
    requires
        defaults_suffice(flag_views(flags@), given@, value_views(defaults@)),
    ensures
        match outcome {
            Ok(values) => resolved(flag_views(flags@), given@, value_views(defaults@)) == Ok::<
                Seq<FlagValueView>,
                ErrorView,
            >(value_views(values@)),
            Err(e) => resolved(flag_views(flags@), given@, value_views(defaults@)) == Err::<
                Seq<FlagValueView>,
                ErrorView,
            >(e@),
        },
{
    let ghost fls = flag_views(flags@);
    let ghost dfs = value_views(defaults@);
    let ghost fails = |i: int| resolve_one(fls[i], given@, dfs) is Err;
    let mut values: Vec<FlagValue<'a>> = Vec::new();
    let mut i: usize = 0;
    while i < flags.len()
        invariant
            0 <= i <= flags.len(),
            fls == flag_views(flags@),
            dfs == value_views(defaults@),
            fails == |i: int| resolve_one(fls[i], given@, dfs) is Err,
            defaults_suffice(fls, given@, dfs),
            values.len() == i,
            forall|j: int| 0 <= j < i ==> !#[trigger] fails(j),
            forall|j: int|
                0 <= j < i ==> resolve_one(fls[j], given@, dfs) == Ok::<FlagValueView, ErrorView>(
                    #[trigger] values[j]@,
                ),
        decreases flags.len() - i,
    {
        assert(fls[i as int].name == flags[i as int].name@);
        match resolve_flag(&flags[i], given, defaults) {
            Ok(v) => {
                values.push(v);
            },
            Err(e) => {
                proof {
                    lemma_first_index_is(fls.len() as int, fails, i as int);
                }
                return Err(e);
            },
        }
        i += 1;
    }
    proof {
        lemma_first_index(fls.len() as int, fails);
        assert(value_views(values@) =~= Seq::new(
            fls.len(),
            |i: int| resolve_one(fls[i], given@, dfs)->Ok_0,
        ));
    }
    Ok(values)
}

} // verus!
