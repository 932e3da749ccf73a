//! Why a registration, a parse or a retrieval did not succeed.

use vstd::prelude::*;
use vstd::string::StringExecFns;

verus! {

/// Every failure is final: nothing is retried, and the caller decides what
/// to do next.
#[derive(Clone, Debug, PartialEq, Eq)]
pub enum ProgramError {
    /// A flag was registered under a name that is already taken.
    FlagAlreadyExistsWithName { name: String },
    /// A value was asked for under a name that holds no resolved value.
    NoSuchFlagExistsWithName { name: String },
    /// The stored string is not a value of the type that was asked for.
    FailedToParseFlagValue { name: String, target_type: String },
    /// A required flag is absent, or a flag that carries a value came
    /// without one.
    RequiredArgWasNotGiven { name: String },
    /// The reserved help flag was among the arguments.
    HelpFlagGiven,
}

/// The mathematical content of a [`ProgramError`].
pub enum ErrorView {
    FlagAlreadyExistsWithName { name: Seq<char> },
    NoSuchFlagExistsWithName { name: Seq<char> },
    FailedToParseFlagValue { name: Seq<char>, target_type: Seq<char> },
    RequiredArgWasNotGiven { name: Seq<char> },
    HelpFlagGiven,
}

impl ErrorView {
    /// The sentence that describes the failure.
    pub open spec fn message(self) -> Seq<char> {
        match self {
            ErrorView::FlagAlreadyExistsWithName { name } => "Flag already exists with name "@
                + name,
            ErrorView::NoSuchFlagExistsWithName { name } => "No such flag exists with name "@
                + name,
            ErrorView::FailedToParseFlagValue { name, target_type } => "Could not parse "@ + name
                + " as type of "@ + target_type,
            ErrorView::RequiredArgWasNotGiven { name } => "Required args was not given with name "@
                + name,
            ErrorView::HelpFlagGiven => "Help flag was given"@,
        }
    }
}

impl View for ProgramError {
    type V = ErrorView;

    open spec fn view(&self) -> ErrorView {
        match self {
            ProgramError::FlagAlreadyExistsWithName { name } => {
                ErrorView::FlagAlreadyExistsWithName { name: name@ }
            },
            ProgramError::NoSuchFlagExistsWithName { name } => {
                ErrorView::NoSuchFlagExistsWithName { name: name@ }
            },
            ProgramError::FailedToParseFlagValue { name, target_type } => {
                ErrorView::FailedToParseFlagValue { name: name@, target_type: target_type@ }
            },
            ProgramError::RequiredArgWasNotGiven { name } => {
                ErrorView::RequiredArgWasNotGiven { name: name@ }
            },
            ProgramError::HelpFlagGiven => ErrorView::HelpFlagGiven,
        }
    }
}

impl ProgramError {
    /// Renders the failure as a sentence for the user.
    pub fn message(&self) -> (text: String)
        ensures
            text@ == self@.message(),
    {
        match self {
            ProgramError::FlagAlreadyExistsWithName { name } => {
                String::from_str("Flag already exists with name ").concat(name.as_str())
            },
            ProgramError::NoSuchFlagExistsWithName { name } => {
                String::from_str("No such flag exists with name ").concat(name.as_str())
            },
            ProgramError::FailedToParseFlagValue { name, target_type } => {
                String::from_str("Could not parse ").concat(name.as_str()).concat(
                    " as type of ",
                ).concat(target_type.as_str())
            },
            ProgramError::RequiredArgWasNotGiven { name } => {
                String::from_str("Required args was not given with name ").concat(name.as_str())
            },
            ProgramError::HelpFlagGiven => String::from_str("Help flag was given"),
        }
    }
}

} // verus!
