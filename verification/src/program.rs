//! The program under construction: its description, its registered flags,
//! their defaults and, after a successful parse, their resolved values.

use vstd::prelude::*;
use crate::error::{ErrorView, ProgramError};
use crate::flag::{
    expect_value, find_flag, find_value, flag_position, flag_views, lemma_flag_position,
    lemma_flag_position_push, lemma_value_position_push, value_of, value_views, Flag, FlagValue,
    FlagValueView, FlagView,
};
use crate::kind::ValueKind;
use crate::value::{FlagType, FromText};

verus! {

/// The mathematical content of a [`Program`].
pub struct ProgramView {
    pub desc: Seq<char>,
    pub flags: Seq<FlagView>,
    pub defaults: Seq<FlagValueView>,
    pub values: Seq<FlagValueView>,
}

impl ProgramView {
    /// No two flags share a name.
    pub open spec fn names_distinct(self) -> bool {
        forall|i: int, j: int|
            0 <= i < j < self.flags.len() ==> (#[trigger] self.flags[i]).name
                != (#[trigger] self.flags[j]).name
    }

    /// No two defaults share a name.
    pub open spec fn defaults_distinct(self) -> bool {
        forall|i: int, j: int|
            0 <= i < j < self.defaults.len() ==> (#[trigger] self.defaults[i]).name
                != (#[trigger] self.defaults[j]).name
    }

    /// Every optional flag has a default.
    pub open spec fn optional_flags_have_defaults(self) -> bool {
        forall|i: int|
            0 <= i < self.flags.len() && !(#[trigger] self.flags[i]).is_required ==> value_of(
                self.defaults,
                self.flags[i].name,
            ) is Some
    }

    /// Every default belongs to an optional flag.
    pub open spec fn defaults_belong_to_optional_flags(self) -> bool {
        forall|j: int|
            0 <= j < self.defaults.len() ==> (match flag_position(
                self.flags,
                (#[trigger] self.defaults[j]).name,
            ) {
                Some(i) => !self.flags[i].is_required,
                None => false,
            })
    }

    /// The resolved values line up with the flags they were resolved for:
    /// none before a parse, one per flag after it.
    pub open spec fn values_follow_flags(self) -> bool {
        &&& self.values.len() <= self.flags.len()
        &&& forall|i: int|
            0 <= i < self.values.len() ==> (#[trigger] self.values[i]).name == self.flags[i].name
    }

    /// What holds of every program.
    pub open spec fn wf(self) -> bool {
        &&& self.names_distinct()
        &&& self.defaults_distinct()
        &&& self.optional_flags_have_defaults()
        &&& self.defaults_belong_to_optional_flags()
        &&& self.values_follow_flags()
    }

    /// Whether a flag called `name` is registered.
    pub open spec fn has_flag(self, name: Seq<char>) -> bool {
        flag_position(self.flags, name) is Some
    }

    /// The program with one more flag: required where `default` is `None`,
    /// optional with that default otherwise.
    pub open spec fn with_flag(
        self,
        name: Seq<char>,
        desc: Seq<char>,
        kind: ValueKind,
        default: Option<Seq<char>>,
    ) -> ProgramView {
        ProgramView {
            desc: self.desc,
            flags: self.flags.push(
                FlagView { name: name, desc: desc, is_required: default is None, kind: kind },
            ),
            defaults: match default {
                Some(text) => self.defaults.push(FlagValueView { name: name, str_value: text }),
                None => self.defaults,
            },
            values: self.values,
        }
    }

    /// The resolved string of the flag called `name`, or the refusal of a
    /// name under which nothing is resolved.
    pub open spec fn string_value(self, name: Seq<char>) -> Result<Seq<char>, ErrorView> {
        match value_of(self.values, name) {
            Some(text) => Ok(text),
            None => Err(ErrorView::NoSuchFlagExistsWithName { name: name }),
        }
    }

    /// The resolved string of the flag called `name` read as a `T`. The
    /// kind that the flag was registered with plays no part: a string that
    /// is no `T` fails here, however the flag was declared.
    pub open spec fn typed_value<T: FromText>(self, name: Seq<char>) -> Result<T::V, ErrorView> {
        match value_of(self.values, name) {
            Some(text) => match T::from_text_spec(text) {
                Some(v) => Ok(v),
                None => Err(
                    ErrorView::FailedToParseFlagValue {
                        name: name,
                        target_type: T::label_spec(),
                    },
                ),
            },
            None => Err(ErrorView::NoSuchFlagExistsWithName { name: name }),
        }
    }

    /// What a registration gives: the larger program, or the refusal of a
    /// name that is taken.
    pub open spec fn registered(
        self,
        name: Seq<char>,
        desc: Seq<char>,
        kind: ValueKind,
        default: Option<Seq<char>>,
    ) -> Result<ProgramView, ErrorView> {
        if self.has_flag(name) {
            Err(ErrorView::FlagAlreadyExistsWithName { name: name })
        } else {
            Ok(self.with_flag(name, desc, kind, default))
        }
    }
}

/// The characters of a string that may be absent.
pub open spec fn text_of(text: Option<String>) -> Option<Seq<char>> {
    match text {
        Some(t) => Some(t@),
        None => None,
    }
}

/// Registering under a fresh name keeps a program well formed.
pub proof fn lemma_with_flag_wf(
    p: ProgramView,
    name: Seq<char>,
    desc: Seq<char>,
    kind: ValueKind,
    default: Option<Seq<char>>,
)
    requires
        p.wf(),
        !p.has_flag(name),
    ensures
        p.with_flag(name, desc, kind, default).wf(),
{
    let q = p.with_flag(name, desc, kind, default);
    let flag = FlagView { name: name, desc: desc, is_required: default is None, kind: kind };
    lemma_flag_position(p.flags, name);
    assert forall|j: int| 0 <= j < p.defaults.len() implies (#[trigger] p.defaults[j]).name
        != name by {
        lemma_flag_position(p.flags, p.defaults[j].name);
    }
    assert forall|i: int| 0 <= i < q.flags.len() && !(#[trigger] q.flags[i]).is_required implies value_of(
        q.defaults,
        q.flags[i].name,
    ) is Some by {
        match default {
            Some(text) => {
                lemma_value_position_push(
                    p.defaults,
                    FlagValueView { name: name, str_value: text },
                    q.flags[i].name,
                );
            },
            None => {},
        }
    }
    assert forall|j: int| 0 <= j < q.defaults.len() implies (match flag_position(
        q.flags,
        (#[trigger] q.defaults[j]).name,
    ) {
        Some(i) => !q.flags[i].is_required,
        None => false,
    }) by {
        lemma_flag_position_push(p.flags, flag, q.defaults[j].name);
        lemma_flag_position(p.flags, q.defaults[j].name);
    }
}

/// A command-line program: built by registering flags, then parsed once,
/// then asked for values.
#[derive(Debug, PartialEq, Eq)]
pub struct Program<'a> {
    desc: &'a str,
    flags: Vec<Flag<'a>>,
    flag_defaults: Vec<FlagValue<'a>>,
    flag_values: Vec<FlagValue<'a>>,
}

impl<'a> View for Program<'a> {
    type V = ProgramView;

    closed spec fn view(&self) -> ProgramView {
        ProgramView {
            desc: self.desc@,
            flags: flag_views(self.flags@),
            defaults: value_views(self.flag_defaults@),
            values: value_views(self.flag_values@),
        }
    }
}

impl<'a> Program<'a> {
    #[verifier::type_invariant]
    spec fn well_formed(self) -> bool {
        self@.wf()
    }

    /// A program without description or flags.
    pub fn new() -> (program: Program<'a>)
        ensures
            program@ == (ProgramView {
                desc: Seq::empty(),
                flags: Seq::empty(),
                defaults: Seq::empty(),
                values: Seq::empty(),
            }),
            program@.wf(),
    {
        proof {
            reveal_strlit("");
        }
        let program = Program {
            desc: "",
            flags: Vec::new(),
            flag_defaults: Vec::new(),
            flag_values: Vec::new(),
        };
        assert(program@.desc =~= Seq::empty());
        assert(program@.flags =~= Seq::empty());
        assert(program@.defaults =~= Seq::empty());
        assert(program@.values =~= Seq::empty());
        program
    }

    /// Sets the text that describes the program to its users.
    pub fn with_description(self, desc: &'a str) -> (program: Program<'a>)
        ensures
            program@ == (ProgramView { desc: desc@, ..self@ }),
            program@.wf(),
    {
        proof {
            use_type_invariant(&self);
        }
        let Program { desc: _, flags, flag_defaults, flag_values } = self;
        Program { desc, flags, flag_defaults, flag_values }
    }

    /// Registers one flag in place, required where `default` is `None` and
    /// optional with that default otherwise. A name that is already taken
    /// is refused and the program stays as it was. Any other name is
    /// accepted, the empty one too: two bare dashes mark it.
    pub fn add_flag(
        &mut self,
        name: &'a str,
        desc: &'a str,
        kind: ValueKind,
        default: Option<String>,
    ) -> (outcome: Result<(), ProgramError>)
        ensures
            match outcome {
                Ok(()) => old(self)@.registered(
                    name@,
                    desc@,
                    kind,
                    text_of(default),
                ) == Ok::<ProgramView, ErrorView>(final(self)@),
                Err(e) => old(self)@.registered(
                    name@,
                    desc@,
                    kind,
                    text_of(default),
                ) == Err::<ProgramView, ErrorView>(e@) && final(self)@ == old(self)@,
            },
            final(self)@.wf(),
    {
        proof {
            use_type_invariant(&*self);
        }
        if find_flag(&self.flags, name).is_some() {
            return Err(ProgramError::FlagAlreadyExistsWithName { name: name.to_owned() });
        }
        let ghost before = self@;
        let ghost default_view = text_of(default);
        proof {
            lemma_with_flag_wf(before, name@, desc@, kind, default_view);
        }
        let mut taken = Program::new();
        std::mem::swap(self, &mut taken);
        let Program { desc: d, mut flags, mut flag_defaults, flag_values } = taken;
        flags.push(Flag { name, desc, is_required: default.is_none(), kind });
        match default {
            Some(text) => {
                flag_defaults.push(FlagValue { name, str_value: text });
            },
            None => {},
        }
        proof {
            let after = before.with_flag(name@, desc@, kind, default_view);
            assert(flag_views(flags@) =~= after.flags);
            assert(value_views(flag_defaults@) =~= after.defaults);
        }
        *self = Program { desc: d, flags, flag_defaults, flag_values };
        Ok(())
    }

    /// Registers a required flag of type `T` in place.
    pub fn register_required<T: FlagType>(
        &mut self,
        name: &'a str,
        desc: &'a str,
    ) -> (outcome: Result<(), ProgramError>)
        ensures
            match outcome {
                Ok(()) => old(self)@.registered(name@, desc@, T::kind_spec(), None) == Ok::<
                    ProgramView,
                    ErrorView,
                >(final(self)@),
                Err(e) => old(self)@.registered(name@, desc@, T::kind_spec(), None) == Err::<
                    ProgramView,
                    ErrorView,
                >(e@) && final(self)@ == old(self)@,
            },
            final(self)@.wf(),
    {
        self.add_flag(name, desc, T::kind(), None)
    }

    /// Registers an optional flag of type `T` in place. The default is
    /// stored in its string form as it is now.
    pub fn register_optional<T: FlagType>(
        &mut self,
        name: &'a str,
        default: T,
        desc: &'a str,
    ) -> (outcome: Result<(), ProgramError>)
        ensures
            match outcome {
                Ok(()) => old(self)@.registered(
                    name@,
                    desc@,
                    T::kind_spec(),
                    Some(default.text_spec()),
                ) == Ok::<ProgramView, ErrorView>(final(self)@),
                Err(e) => old(self)@.registered(
                    name@,
                    desc@,
                    T::kind_spec(),
                    Some(default.text_spec()),
                ) == Err::<ProgramView, ErrorView>(e@) && final(self)@ == old(self)@,
            },
            final(self)@.wf(),
    {
        let text = default.to_text();
        self.add_flag(name, desc, T::kind(), Some(text))
    }

    /// Adds an optional flag: one that need not be given, and then has the
    /// value `default`. The name must not be taken.
    pub fn with_optional_flag<T: FlagType>(
        self,
        name: &'a str,
        default: T,
        desc: &'a str,
    ) -> (outcome: Result<Program<'a>, ProgramError>)
        ensures
            match outcome {
                Ok(program) => self@.registered(
                    name@,
                    desc@,
                    T::kind_spec(),
                    Some(default.text_spec()),
                ) == Ok::<ProgramView, ErrorView>(program@) && program@.wf(),
                Err(e) => self@.registered(
                    name@,
                    desc@,
                    T::kind_spec(),
                    Some(default.text_spec()),
                ) == Err::<ProgramView, ErrorView>(e@),
            },
    {
        let mut program = self;
        match program.register_optional::<T>(name, default, desc) {
            Ok(()) => Ok(program),
            Err(e) => Err(e),
        }
    }

    /// Adds a required flag: one that must be given when the arguments are
    /// parsed. The name must not be taken.
    pub fn with_required_flag<T: FlagType>(
        self,
        name: &'a str,
        desc: &'a str,
    ) -> (outcome: Result<Program<'a>, ProgramError>)
        ensures
            match outcome {
                Ok(program) => self@.registered(name@, desc@, T::kind_spec(), None) == Ok::<
                    ProgramView,
                    ErrorView,
                >(program@) && program@.wf(),
                Err(e) => self@.registered(name@, desc@, T::kind_spec(), None) == Err::<
                    ProgramView,
                    ErrorView,
                >(e@),
            },
    {
        let mut program = self;
        match program.register_required::<T>(name, desc) {
            Ok(()) => Ok(program),
            Err(e) => Err(e),
        }
    }

    /// Hands out the resolved value of the flag called `name` as a `T`.
    pub fn get<T: FromText>(&self, name: &str) -> (outcome: Result<T, ProgramError>)
        ensures
            match outcome {
                Ok(v) => self@.typed_value::<T>(name@) == Ok::<T::V, ErrorView>(v@),
                Err(e) => self@.typed_value::<T>(name@) == Err::<T::V, ErrorView>(e@),
            },
    {
        match find_value(&self.flag_values, name) {
            Some(k) => match T::from_text(self.flag_values[k].str_value.as_str()) {
                Some(v) => Ok(v),
                None => Err(
                    ProgramError::FailedToParseFlagValue {
                        name: name.to_owned(),
                        target_type: T::label(),
                    },
                ),
            },
            None => Err(ProgramError::NoSuchFlagExistsWithName { name: name.to_owned() }),
        }
    }

    /// Hands out the resolved value of the flag called `name` as the string
    /// that it is stored as.
    pub fn get_string(&self, name: &str) -> (outcome: Result<String, ProgramError>)
        ensures
            match outcome {
                Ok(text) => self@.string_value(name@) == Ok::<Seq<char>, ErrorView>(text@),
                Err(e) => self@.string_value(name@) == Err::<Seq<char>, ErrorView>(e@),
            },
    {
        match find_value(&self.flag_values, name) {
            Some(k) => Ok(self.flag_values[k].str_value.clone()),
            None => Err(ProgramError::NoSuchFlagExistsWithName { name: name.to_owned() }),
        }
    }

    /// Hands out the default of the optional flag called `name`.
    pub fn unwrap_default_flag_value(&self, name: &str) -> (text: &String)
        requires
            value_of(self@.defaults, name@) is Some,
        ensures
            Some(text@) == value_of(self@.defaults, name@),
    {
        expect_value(&self.flag_defaults, name)
    }

    /// The text that describes the program.
    pub fn description(&self) -> (desc: &'a str)
        ensures
            desc@ == self@.desc,
    {
        self.desc
    }

    /// The registered flags, in registration order.
    pub fn flags(&self) -> (flags: &Vec<Flag<'a>>)
        ensures
            flag_views(flags@) == self@.flags,
            self@.wf(),
    {
        proof {
            use_type_invariant(self);
        }
        &self.flags
    }

    /// The declared defaults, in registration order.
    pub fn flag_defaults(&self) -> (defaults: &Vec<FlagValue<'a>>)
        ensures
            value_views(defaults@) == self@.defaults,
            self@.wf(),
    {
        proof {
            use_type_invariant(self);
        }
        &self.flag_defaults
    }

    /// The resolved values: none before a successful parse.
    pub fn flag_values(&self) -> (values: &Vec<FlagValue<'a>>)
        ensures
            value_views(values@) == self@.values,
            self@.wf(),
    {
        proof {
            use_type_invariant(self);
        }
        &self.flag_values
    }

    /// Replaces the resolved values by a whole new set, one per flag.
    pub(crate) fn commit(&mut self, values: Vec<FlagValue<'a>>)
        requires
            values.len() == old(self)@.flags.len(),
            forall|i: int|
                0 <= i < values.len() ==> (#[trigger] value_views(values@)[i]).name == old(
                    self,
                )@.flags[i].name,
        ensures
            final(self)@ == (ProgramView { values: value_views(values@), ..old(self)@ }),
            final(self)@.wf(),
    {
        proof {
            use_type_invariant(&*self);
        }
        self.flag_values = values;
    }
}

impl<'a> Default for Program<'a> {
    fn default() -> (program: Program<'a>)
        ensures
            program@ == (ProgramView {
                desc: Seq::empty(),
                flags: Seq::empty(),
                defaults: Seq::empty(),
                values: Seq::empty(),
            }),
            program@.wf(),
    {
        Program::new()
    }
}

} // verus!
