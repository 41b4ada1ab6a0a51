//! Player account information, as the host's profile lookup returns it.
//!
//! The lookup itself crosses the foreign-call boundary and is performed by
//! the embedding layer; it hands back the account UUID as a raw 128-bit
//! value and the account name, which [`PlayerProfile::from_raw`] turns into
//! a profile.

use vstd::prelude::*;

verus! {

/// `uuid::Uuid` as an opaque foreign type: nothing about a UUID's value is
/// modelled here.
#[verifier::external_type_specification]
#[verifier::external_body]
pub struct ExUuid(uuid::Uuid);

/// The UUID whose bytes are a given 128-bit value in little-endian order: a
/// pure function of the value, computed only by the uuid crate.
pub uninterp spec fn uuid_of_le(v: u128) -> uuid::Uuid;

/// Relies on `uuid::Uuid::from_u128_le`: builds the UUID whose bytes are the
/// given 128-bit value in little-endian order. It never fails and depends on
/// the value alone, so its result is named [`uuid_of_le`].
pub assume_specification[ uuid::Uuid::from_u128_le ](v: u128) -> (r: uuid::Uuid)
    ensures
        r == uuid_of_le(v),
;

/// Publically available account information.
pub struct PlayerProfile {
    /// The account UUID of the player.
    pub uuid: uuid::Uuid,
    /// The username of the player.
    pub name: String,
}

impl PlayerProfile {
    /// Builds a profile from what the host's profile lookup hands back: the
    /// account UUID as a little-endian 128-bit value, and the account name.
    pub fn from_raw(uuid_le: u128, name: String) -> (r: Self)
        ensures
            r.uuid == uuid_of_le(uuid_le),
            r.name == name,
    {
        PlayerProfile { uuid: uuid::Uuid::from_u128_le(uuid_le), name }
    }
}

} // verus!
