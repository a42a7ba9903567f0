//! Member identifiers: the one a connection asks for, or a generated one.

use vstd::prelude::*;

verus! {

/// Calls `uuid::Uuid::new_v4` and writes the identifier out with `to_string`, in
/// the hyphenated form of 36 characters. Which identifier it is depends on the
/// system's random source, so only the length is claimed; `new_v4` panics if that
/// source fails.
#[verifier::external_body]
pub(crate) fn fresh_identifier() -> (id: String)
    ensures
        id@.len() == 36,
{
    uuid::Uuid::new_v4().to_string()
}

/// The identifier a connection is known by: the one it supplied, or else the one
/// that was generated for it.
pub open spec fn chosen_identifier(supplied: Option<String>, generated: Seq<char>) -> Seq<char> {
    match supplied {
        Some(s) => s@,
        None => generated,
    }
}

/// Picks the supplied identifier where there is one, whatever it is, and the
/// generated one otherwise.
pub fn member_id_or(supplied: Option<String>, generated: String) -> (id: String)
    ensures
        id@ == chosen_identifier(supplied, generated@),
{
    match supplied {
        Some(s) => s,
        None => generated,
    }
}

/// The identifier for a new connection: the supplied one, or a fresh random
/// identifier of 36 characters.
pub fn resolve_member_id(supplied: Option<String>) -> (id: String)
    ensures
        supplied matches Some(s) ==> id@ == s@,
        supplied is None ==> id@.len() == 36,
{
    match supplied {
        Some(s) => s,
        None => member_id_or(None, fresh_identifier()),
    }
}

} // verus!
