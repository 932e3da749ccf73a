//! Parsing: the arguments are tokenized, every flag is resolved, and only
//! if all of them have a value are the values stored in the program.
//!
//! A failure to resolve a flag is reported before a request for help: where
//! a required flag is missing and the help flag is given, the missing flag
//! is what the caller is told.

use vstd::prelude::*;
use crate::error::{ErrorView, ProgramError};
use crate::flag::{FlagValueView, FlagView};
use crate::program::{Program, ProgramView};
use crate::resolver::{resolve, resolve_one, resolved};
use crate::scan::lemma_first_index;
use crate::tokenizer::{token_views, tokenize, tokenized};

verus! {

/// The name of the flag that asks for the help text.
pub open spec fn help_flag() -> Seq<char> {
    "help"@
}

/// The characters of each string slice.
pub open spec fn slice_views(arr: Seq<&str>) -> Seq<Seq<char>> {
    Seq::new(arr.len(), |i: int| arr[i]@)
}

/// What parsing `args` makes of a program: the same program with one
/// resolved value per flag, or the reason why it has none. The help flag
/// counts only where every flag could be resolved.
pub open spec fn parse_outcome(p: ProgramView, args: Seq<Seq<char>>) -> Result<
    ProgramView,
    ErrorView,
> {
    let given = tokenized(args, p.flags);
    match resolved(p.flags, given, p.defaults) {
        Err(e) => Err(e),
        Ok(values) => if given.dom().contains(help_flag()) {
            Err(ErrorView::HelpFlagGiven)
        } else {
            Ok(ProgramView { values: values, ..p })
        },
    }
}

/// Where every flag resolves, there is one value per flag, filed under the
/// flag's name.
pub proof fn lemma_resolved_follows_flags(
    flags: Seq<FlagView>,
    given: Map<Seq<char>, Option<Seq<char>>>,
    defaults: Seq<FlagValueView>,
)
    ensures
        match resolved(flags, given, defaults) {
            Ok(values) => values.len() == flags.len() && forall|i: int|
                0 <= i < flags.len() ==> (#[trigger] values[i]).name == flags[i].name,
            Err(e) => true,
        },
{
    let fails = |i: int| resolve_one(flags[i], given, defaults) is Err;
    lemma_first_index(flags.len() as int, fails);
    match resolved(flags, given, defaults) {
        Ok(values) => {
            assert forall|i: int| 0 <= i < flags.len() implies (#[trigger] values[i]).name
                == flags[i].name by {
                assert(!fails(i));
            }
        },
        Err(e) => {},
    }
}

/// Copies the slices into owned strings.
pub fn to_strings(arr: &[&str]) -> (args: Vec<String>)
    ensures
        token_views(args@) == slice_views(arr@),
{
    let mut args: Vec<String> = Vec::new();
    let mut i: usize = 0;
    while i < arr.len()
        invariant
            0 <= i <= arr.len(),
            args.len() == i,
            forall|j: int| 0 <= j < i ==> (#[trigger] args[j])@ == arr[j]@,
        decreases arr.len() - i,
    {
        args.push(arr[i].to_owned());
        i += 1;
    }
    args
}

impl<'a> Program<'a> {
    /// Parses `args` in place. On success the resolved values are replaced
    /// as a whole; on failure the program is as it was before the call.
    pub fn parse_in_place(&mut self, args: &Vec<String>) -> (outcome: Result<(), ProgramError>)
        ensures
            match outcome {
                Ok(()) => parse_outcome(old(self)@, token_views(args@)) == Ok::<
                    ProgramView,
                    ErrorView,
                >(final(self)@),
                Err(e) => parse_outcome(old(self)@, token_views(args@)) == Err::<
                    ProgramView,
                    ErrorView,
                >(e@) && final(self)@ == old(self)@,
            },
            final(self)@.wf(),
    {
        let given = tokenize(args, self.flags());
        let ghost before = self@;
        proof {
            lemma_resolved_follows_flags(before.flags, given@, before.defaults);
        }
        let values = match resolve(self.flags(), &given, self.flag_defaults()) {
            Ok(values) => values,
            Err(e) => {
                return Err(e);
            },
        };
        if given.contains("help") {
            return Err(ProgramError::HelpFlagGiven);
        }
        self.commit(values);
        Ok(())
    }

    /// Parses `args` and stores one string value per flag. The values stay
    /// strings until they are asked for.
    pub fn parse_from_strings(
        self,
        args: Vec<String>,
    ) -> (outcome: Result<Program<'a>, ProgramError>)
        ensures
            match outcome {
                Ok(program) => parse_outcome(self@, token_views(args@)) == Ok::<
                    ProgramView,
                    ErrorView,
                >(program@) && program@.wf(),
                Err(e) => parse_outcome(self@, token_views(args@)) == Err::<
                    ProgramView,
                    ErrorView,
                >(e@),
            },
    {
        let mut program = self;
        match program.parse_in_place(&args) {
            Ok(()) => Ok(program),
            Err(e) => Err(e),
        }
    }

    /// As [`Program::parse_from_strings`], for arguments given as string
    /// slices.
    pub fn parse_from_str_arr(self, arr: &[&str]) -> (outcome: Result<Program<'a>, ProgramError>)
        ensures
            match outcome {
                Ok(program) => parse_outcome(self@, slice_views(arr@)) == Ok::<
                    ProgramView,
                    ErrorView,
                >(program@) && program@.wf(),
                Err(e) => parse_outcome(self@, slice_views(arr@)) == Err::<
                    ProgramView,
                    ErrorView,
                >(e@),
            },
    {
        self.parse_from_strings(to_strings(arr))
    }

    /// Parses the string slices of `arr`: the same as
    /// [`Program::parse_from_str_arr`] in every respect.
    pub fn parse_from_arr(self, arr: &[&str]) -> (outcome: Result<Program<'a>, ProgramError>)
        ensures
            match outcome {
                Ok(program) => parse_outcome(self@, slice_views(arr@)) == Ok::<
                    ProgramView,
                    ErrorView,
                >(program@) && program@.wf(),
                Err(e) => parse_outcome(self@, slice_views(arr@)) == Err::<
                    ProgramView,
                    ErrorView,
                >(e@),
            },
    {
        self.parse_from_str_arr(arr)
    }
}

} // verus!
