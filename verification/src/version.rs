//! Comparing contract versions.

use vstd::prelude::*;

verus! {

/// Whether the first semantic version is the second or a later one, by
/// the order of `semver::Version`; `None` where one of the two texts is
/// no semantic version.
pub uninterp spec fn semver_reached(version: Seq<char>, target: Seq<char>) -> Option<bool>;

/// `semver::Version::parse` on both texts, and `>=` on the two versions:
/// whether `version` has reached `target`, or `None` where one of them
/// does not parse. The order is only given its name here.
#[verifier::external_body]
pub(crate) fn version_reached(version: &str, target: &str) -> (reached: Option<bool>)
    ensures
        reached == semver_reached(version@, target@),
{
    match (semver::Version::parse(version), semver::Version::parse(target)) {
        (Ok(version), Ok(target)) => Some(version >= target),
        _ => None,
    }
}

} // verus!
