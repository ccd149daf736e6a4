//! Policies: the absorbing targets of delegation.

use vstd::prelude::*;

verus! {

/// A policy option. Its identity is its primary name; a policy may carry a
/// secondary description, which never takes part in matching.
#[derive(Debug)]
pub enum Policy {
    /// A policy identified by its name alone.
    Short(String),
    /// A policy with a name and a secondary description.
    Long((String, String)),
}

impl Policy {
    /// The primary name of the policy: the sole identity used for matching.
    pub open spec fn spec_name(&self) -> Seq<char> {
        match self {
            Policy::Short(d) => d@,
            Policy::Long(t) => t.0@,
        }
    }

    /// Returns the primary name of the policy.
    pub fn name(&self) -> (r: &str)
        ensures
            r@ == self.spec_name(),
    {
        match self {
            Policy::Short(d) => d.as_str(),
            Policy::Long(t) => t.0.as_str(),
        }
    }
}

/// Relies on str's equality (`<str as PartialEq>::eq`): true exactly when
/// the two strings hold the same characters.
#[verifier::external_body]
pub(crate) fn str_eq(a: &str, b: &str) -> (r: bool)
    ensures
        r == (a@ == b@),
{
    a == b
}

/// Returns whether `id` is the primary name of `policy`; a secondary
/// description never matches.
pub fn match_by_string(policy: &Policy, id: &str) -> (r: bool)
    ensures
        r == (policy.spec_name() == id@),
{
    match policy {
        Policy::Short(desc) => str_eq(desc.as_str(), id),
        Policy::Long(t) => str_eq(t.0.as_str(), id),
    }
}

} // verus!
