//! The semantic tag that every flag carries.

use vstd::prelude::*;

verus! {

/// What sort of value a flag holds. The tag decides how arguments are matched
/// (a boolean flag is switched on by its bare marker and never takes the next
/// token) and nothing else: it is not checked against the type a caller later
/// asks for.
#[derive(Clone, Copy, Debug, PartialEq, Eq, Structural)]
pub enum ValueKind {
    Boolean,
    Integer,
    Float,
    Text,
}

impl ValueKind {
    /// Whether a flag of this kind is followed by a value token.
    pub open spec fn needs_value(self) -> bool {
        self != ValueKind::Boolean
    }

    pub fn requires_value(self) -> (b: bool)
        ensures
            b == self.needs_value(),
    {
        !matches!(self, ValueKind::Boolean)
    }
}

} // verus!
