//! Errors of the value model.
use vstd::prelude::*;

verus! {

/// A coercion between two kinds of value that has no rule: it names the kind
/// of the value and the kind asked for.
#[derive(Debug, Clone, PartialEq, Eq)]
pub struct CannotConvert {
    from: String,
    to: String,
}

impl CannotConvert {
    /// The kind of the value that could not be converted.
    pub closed spec fn from_kind(&self) -> Seq<char> {
        self.from@
    }

    /// The kind that was asked for.
    pub closed spec fn to_kind(&self) -> Seq<char> {
        self.to@
    }

    pub fn new(from: &str, to: &str) -> (r: Self)
        ensures
            r.from_kind() == from@,
            r.to_kind() == to@,
    {
        CannotConvert { from: from.to_string(), to: to.to_string() }
    }

    /// The message `Cannot convert <from> to <to>`.
    pub fn to_string(&self) -> (r: String)
        ensures
            r@ == "Cannot convert "@ + self.from_kind() + " to "@ + self.to_kind(),
    {
        let mut s = String::from_str("Cannot convert ");
        s.append(self.from.as_str());
        s.append(" to ");
        s.append(self.to.as_str());
        s
    }
}

} // verus!
