//! What holds of every program and every argument list, stated over the
//! models that the contracts of the library use.

use vstd::prelude::*;
use crate::error::ErrorView;
use crate::flag::{
    lemma_flag_position, lemma_flag_position_push, lemma_value_position,
    lemma_value_position_push, value_of, FlagValueView, FlagView,
};
use crate::kind::ValueKind;
use crate::parser::{lemma_resolved_follows_flags, parse_outcome};
use crate::program::{lemma_with_flag_wf, ProgramView};
use crate::resolver::{first_failure, resolve_one, resolved, switched_on};
use crate::scan::{last_index, lemma_first_index, lemma_first_index_is, lemma_last_index};
use crate::tokenizer::{last_mark, marks, tokenized, value_after};
use crate::value::{FlagType, FromText};

verus! {

/// One call of a registration: the flag's name, description and kind, and
/// its default where it is optional.
pub struct Registration {
    pub name: Seq<char>,
    pub desc: Seq<char>,
    pub kind: ValueKind,
    pub default: Option<Seq<char>>,
}

/// The program after one registration: larger where the name was free, the
/// same where it was taken.
pub open spec fn register(p: ProgramView, r: Registration) -> ProgramView {
    match p.registered(r.name, r.desc, r.kind, r.default) {
        Ok(q) => q,
        Err(e) => p,
    }
}

/// The program after a run of registrations, each applied to what the ones
/// before it left.
pub open spec fn register_all(p: ProgramView, rs: Seq<Registration>) -> ProgramView
    decreases rs.len(),
{
    if rs.len() == 0 {
        p
    } else {
        register(register_all(p, rs.drop_last()), rs.last())
    }
}

/// Whether no marker for `name` is among the arguments.
pub open spec fn unmarked(args: Seq<Seq<char>>, name: Seq<char>) -> bool {
    forall|i: int| 0 <= i < args.len() ==> !marks(#[trigger] args[i], name)
}

/// A registration leaves a program well formed, whether it succeeds or not.
pub proof fn lemma_register_wf(p: ProgramView, r: Registration)
    requires
        p.wf(),
    ensures
        register(p, r).wf(),
{
    if !p.has_flag(r.name) {
        lemma_with_flag_wf(p, r.name, r.desc, r.kind, r.default);
    }
}

/// A registration never removes a flag: a name that is taken stays taken,
/// and the name that was registered is taken afterwards.
pub proof fn lemma_register_keeps_names(p: ProgramView, r: Registration, name: Seq<char>)
    ensures
        p.has_flag(name) ==> register(p, r).has_flag(name),
        register(p, r).has_flag(r.name),
{
    let flag = FlagView { name: r.name, desc: r.desc, is_required: r.default is None, kind: r.kind };
    lemma_flag_position_push(p.flags, flag, name);
    lemma_flag_position_push(p.flags, flag, r.name);
}

/// A name that one of a run of registrations carries is taken after the
/// run, whatever the program was before.
pub proof fn lemma_register_all_takes_names(p: ProgramView, rs: Seq<Registration>, i: int)
    requires
        0 <= i < rs.len(),
    ensures
        register_all(p, rs).has_flag(rs[i].name),
    decreases rs.len(),
{
    let before = register_all(p, rs.drop_last());
    if i == rs.len() - 1 {
        lemma_register_keeps_names(before, rs.last(), rs[i].name);
    } else {
        lemma_register_all_takes_names(p, rs.drop_last(), i);
        lemma_register_keeps_names(before, rs.last(), rs[i].name);
    }
}

/// Uniqueness: after any run of registrations, registering once more under
/// a name that the run has used is refused with that name, and leaves the
/// program, and with it the number of flags, as it was.
pub proof fn lemma_uniqueness(p: ProgramView, rs: Seq<Registration>, again: Registration, i: int)
    requires
        0 <= i < rs.len(),
        rs[i].name == again.name,
    ensures
        register_all(p, rs).registered(again.name, again.desc, again.kind, again.default) == Err::<
            ProgramView,
            ErrorView,
        >(ErrorView::FlagAlreadyExistsWithName { name: again.name }),
        register_all(p, rs.push(again)) == register_all(p, rs),
        register_all(p, rs.push(again)).flags.len() == register_all(p, rs).flags.len(),
{
    lemma_register_all_takes_names(p, rs, i);
    assert(rs.push(again).drop_last() =~= rs);
}

/// Where the arguments hold no marker for a name, the tokenizer has no
/// entry for it; where they hold one, the entry is the value that goes
/// with the last marker.
pub proof fn lemma_tokenized(args: Seq<Seq<char>>, flags: Seq<FlagView>, name: Seq<char>)
    ensures
        unmarked(args, name) <==> !tokenized(args, flags).dom().contains(name),
        match last_mark(args, name) {
            Some(i) => {
                &&& 0 <= i < args.len()
                &&& marks(args[i], name)
                &&& tokenized(args, flags).dom().contains(name)
                &&& tokenized(args, flags)[name] == value_after(args, flags, i)
            },
            None => !tokenized(args, flags).dom().contains(name),
        },
{
    let p = |i: int| marks(args[i], name);
    lemma_last_index(args.len() as int, p);
    if last_index(args.len() as int, p) is None {
        assert forall|i: int| 0 <= i < args.len() implies !marks(#[trigger] args[i], name) by {
            assert(!p(i));
        }
    }
}

/// After a successful parse every flag has its value: the one that
/// resolution gives it, found under the flag's name.
pub proof fn lemma_parsed_value(p: ProgramView, args: Seq<Seq<char>>, k: int)
    requires
        p.wf(),
        0 <= k < p.flags.len(),
        parse_outcome(p, args) is Ok,
    ensures
        resolve_one(p.flags[k], tokenized(args, p.flags), p.defaults) is Ok,
        parse_outcome(p, args)->Ok_0.values.len() == p.flags.len(),
        value_of(parse_outcome(p, args)->Ok_0.values, p.flags[k].name) == Some(
            resolve_one(p.flags[k], tokenized(args, p.flags), p.defaults)->Ok_0.str_value,
        ),
{
    let given = tokenized(args, p.flags);
    let values = resolved(p.flags, given, p.defaults)->Ok_0;
    let name = p.flags[k].name;
    let fails = |i: int| resolve_one(p.flags[i], given, p.defaults) is Err;
    lemma_first_index(p.flags.len() as int, fails);
    assert(!fails(k));
    lemma_resolved_follows_flags(p.flags, given, p.defaults);
    let found = |i: int| values[i].name == name;
    lemma_first_index_is(values.len() as int, found, k);
}

/// A successful parse changes nothing but the resolved values, and leaves
/// the program well formed with one value per flag.
pub proof fn lemma_parse_keeps_registry(p: ProgramView, args: Seq<Seq<char>>)
    requires
        p.wf(),
    ensures
        match parse_outcome(p, args) {
            Ok(q) => q.desc == p.desc && q.flags == p.flags && q.defaults == p.defaults
                && q.values.len() == q.flags.len() && q.wf(),
            Err(e) => true,
        },
{
    lemma_resolved_follows_flags(p.flags, tokenized(args, p.flags), p.defaults);
}

/// Required-flag completeness: where the arguments hold no marker for a
/// required flag, parsing fails and reports a flag that was not given: that
/// very flag, provided every flag registered before it resolves.
pub proof fn lemma_missing_required_flag(p: ProgramView, args: Seq<Seq<char>>, k: int)
    requires
        0 <= k < p.flags.len(),
        p.flags[k].is_required,
        unmarked(args, p.flags[k].name),
    ensures
        match parse_outcome(p, args) {
            Ok(q) => false,
            Err(e) => match first_failure(p.flags, tokenized(args, p.flags), p.defaults) {
                Some(j) => 0 <= j <= k && e == (ErrorView::RequiredArgWasNotGiven {
                    name: p.flags[j].name,
                }),
                None => false,
            },
        },
        (forall|j: int|
            0 <= j < k ==> resolve_one(
                #[trigger] p.flags[j],
                tokenized(args, p.flags),
                p.defaults,
            ) is Ok) ==> parse_outcome(p, args) == Err::<ProgramView, ErrorView>(
            ErrorView::RequiredArgWasNotGiven { name: p.flags[k].name },
        ),
{
    let given = tokenized(args, p.flags);
    let fails = |i: int| resolve_one(p.flags[i], given, p.defaults) is Err;
    lemma_tokenized(args, p.flags, p.flags[k].name);
    assert(fails(k));
    lemma_first_index(p.flags.len() as int, fails);
}

/// The default that a flag is registered with is the one found under its
/// name afterwards.
pub proof fn lemma_registered_default(
    p: ProgramView,
    name: Seq<char>,
    desc: Seq<char>,
    kind: ValueKind,
    text: Seq<char>,
)
    requires
        p.wf(),
        !p.has_flag(name),
    ensures
        value_of(p.with_flag(name, desc, kind, Some(text)).defaults, name) == Some(text),
{
    let entry = FlagValueView { name: name, str_value: text };
    lemma_value_position_push(p.defaults, entry, name);
    lemma_value_position(p.defaults, name);
    lemma_flag_position(p.flags, name);
}

/// Later registrations leave the defaults of earlier flags alone.
pub proof fn lemma_register_keeps_defaults(p: ProgramView, r: Registration, name: Seq<char>)
    requires
        value_of(p.defaults, name) is Some,
    ensures
        value_of(register(p, r).defaults, name) == value_of(p.defaults, name),
{
    lemma_value_position(p.defaults, name);
    match r.default {
        Some(text) => {
            let entry = FlagValueView { name: r.name, str_value: text };
            lemma_value_position_push(p.defaults, entry, name);
        },
        None => {},
    }
}

/// Default fallback: where the arguments hold no marker for an optional
/// flag, a successful parse stores exactly the flag's declared default, and
/// that is what is handed out as its string.
pub proof fn lemma_default_fallback(p: ProgramView, args: Seq<Seq<char>>, k: int)
    requires
        p.wf(),
        0 <= k < p.flags.len(),
        !p.flags[k].is_required,
        unmarked(args, p.flags[k].name),
        parse_outcome(p, args) is Ok,
    ensures
        value_of(p.defaults, p.flags[k].name) is Some,
        parse_outcome(p, args)->Ok_0.string_value(p.flags[k].name) == Ok::<
            Seq<char>,
            ErrorView,
        >(value_of(p.defaults, p.flags[k].name)->Some_0),
{
    lemma_tokenized(args, p.flags, p.flags[k].name);
    lemma_parsed_value(p, args, k);
}

/// A flag that is registered with a default and then left out of the
/// arguments reads as exactly the string it was registered with.
pub proof fn lemma_registered_default_comes_back(
    p: ProgramView,
    r: Registration,
    args: Seq<Seq<char>>,
)
    requires
        p.wf(),
        !p.has_flag(r.name),
        r.default is Some,
        unmarked(args, r.name),
        parse_outcome(register(p, r), args) is Ok,
    ensures
        parse_outcome(register(p, r), args)->Ok_0.string_value(r.name) == Ok::<
            Seq<char>,
            ErrorView,
        >(r.default->Some_0),
{
    let q = register(p, r);
    lemma_register_wf(p, r);
    lemma_registered_default(p, r.name, r.desc, r.kind, r.default->Some_0);
    lemma_default_fallback(q, args, p.flags.len() as int);
}

/// A flag that is registered with a default of type `T` and then left out
/// of the arguments reads, as a `T`, as that default.
pub proof fn lemma_typed_default_comes_back<T: FromText>(
    p: ProgramView,
    name: Seq<char>,
    desc: Seq<char>,
    default: T,
    args: Seq<Seq<char>>,
)
    requires
        p.wf(),
        !p.has_flag(name),
        unmarked(args, name),
        parse_outcome(
            p.with_flag(name, desc, T::kind_spec(), Some(default.text_spec())),
            args,
        ) is Ok,
    ensures
        parse_outcome(
            p.with_flag(name, desc, T::kind_spec(), Some(default.text_spec())),
            args,
        )->Ok_0.typed_value::<T>(name) == Ok::<T::V, ErrorView>(default@),
{
    let r = Registration {
        name: name,
        desc: desc,
        kind: T::kind_spec(),
        default: Some(default.text_spec()),
    };
    lemma_registered_default_comes_back(p, r, args);
    T::lemma_round_trip(default);
}

/// Boolean toggling: a boolean flag that is marked is switched on, whatever
/// token follows the marker, and reads as `true`.
pub proof fn lemma_boolean_toggle(p: ProgramView, args: Seq<Seq<char>>, k: int)
    requires
        p.wf(),
        0 <= k < p.flags.len(),
        p.flags[k].kind == ValueKind::Boolean,
        !unmarked(args, p.flags[k].name),
        parse_outcome(p, args) is Ok,
    ensures
        parse_outcome(p, args)->Ok_0.string_value(p.flags[k].name) == Ok::<
            Seq<char>,
            ErrorView,
        >(switched_on()),
        parse_outcome(p, args)->Ok_0.typed_value::<bool>(p.flags[k].name) == Ok::<
            bool,
            ErrorView,
        >(true),
{
    let name = p.flags[k].name;
    lemma_tokenized(args, p.flags, name);
    lemma_parsed_value(p, args, k);
    lemma_flag_position(p.flags, name);
}

/// A boolean flag that is left out and falls back to the default `false`
/// reads as `false`.
pub proof fn lemma_boolean_default(p: ProgramView, args: Seq<Seq<char>>, k: int)
    requires
        p.wf(),
        0 <= k < p.flags.len(),
        !p.flags[k].is_required,
        value_of(p.defaults, p.flags[k].name) == Some(false.text_spec()),
        unmarked(args, p.flags[k].name),
        parse_outcome(p, args) is Ok,
    ensures
        parse_outcome(p, args)->Ok_0.typed_value::<bool>(p.flags[k].name) == Ok::<
            bool,
            ErrorView,
        >(false),
{
    lemma_default_fallback(p, args, k);
    bool::lemma_round_trip(false);
}

/// Round-trip conversion: where the last marker of a flag that takes a
/// value is followed by the canonical string form of some `value`, a
/// successful parse stores that string, and reading the flag as a `T`
/// gives `value` back.
pub proof fn lemma_round_trip<T: FromText>(
    p: ProgramView,
    args: Seq<Seq<char>>,
    k: int,
    value: T,
)
    requires
        p.wf(),
        0 <= k < p.flags.len(),
        p.flags[k].kind.needs_value(),
        parse_outcome(p, args) is Ok,
        match last_mark(args, p.flags[k].name) {
            Some(i) => i + 1 < args.len() && args[i + 1] == value.text_spec(),
            None => false,
        },
    ensures
        parse_outcome(p, args)->Ok_0.string_value(p.flags[k].name) == Ok::<
            Seq<char>,
            ErrorView,
        >(value.text_spec()),
        parse_outcome(p, args)->Ok_0.typed_value::<T>(p.flags[k].name) == Ok::<
            T::V,
            ErrorView,
        >(value@),
{
    let name = p.flags[k].name;
    lemma_tokenized(args, p.flags, name);
    lemma_parsed_value(p, args, k);
    lemma_flag_position(p.flags, name);
    T::lemma_round_trip(value);
}

/// Type-mismatch reporting: where the stored string of a flag is no `T`,
/// reading the flag as a `T` fails with the flag's name and the name of
/// `T`, whatever kind the flag was registered with.
pub proof fn lemma_type_mismatch<T: FromText>(p: ProgramView, name: Seq<char>)
    requires
        value_of(p.values, name) is Some,
        T::from_text_spec(value_of(p.values, name)->Some_0) is None,
    ensures
        p.typed_value::<T>(name) == Err::<T::V, ErrorView>(
            ErrorView::FailedToParseFlagValue { name: name, target_type: T::label_spec() },
        ),
{
}

/// A flag that was never registered, or a program that was never parsed,
/// has no value to hand out.
pub proof fn lemma_no_value_without_parse(p: ProgramView, name: Seq<char>)
    requires
        p.wf(),
        !p.has_flag(name) || p.values.len() == 0,
    ensures
        p.string_value(name) == Err::<Seq<char>, ErrorView>(
            ErrorView::NoSuchFlagExistsWithName { name: name },
        ),
{
    lemma_value_position(p.values, name);
    lemma_flag_position(p.flags, name);
}

} // verus!
