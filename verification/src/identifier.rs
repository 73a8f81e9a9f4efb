//! The identifier that a converted event is given.

use vstd::prelude::*;

verus! {

/// The identifier derived from the identifier `uid` of a source event: the
/// name-based (version 5) UUID of `uid` in the namespace of object
/// identifiers, written in lower case with hyphens.
pub uninterp spec fn derived_identifier(uid: Seq<char>) -> Seq<char>;

/// Calls `uuid::Uuid::new_v5` with the namespace `NAMESPACE_OID` and the bytes
/// of `uid`, and writes the result with hyphens. The result is computed from
/// `uid` alone, by hashing: the same `uid` always gives the same identifier.
/// Nothing more is claimed of it.
#[verifier::external_body]
pub(crate) fn derive_identifier(uid: &str) -> (identifier: String)
    ensures
        identifier@ == derived_identifier(uid@),
{
    uuid::Uuid::new_v5(&uuid::Uuid::NAMESPACE_OID, uid.as_bytes()).as_hyphenated().to_string()
}

} // verus!
