//! Player identifiers.

use crate::net::be_value;
use vstd::prelude::*;

verus! {

/// A UUID, as the number its sixteen bytes spell in big-endian order.
#[derive(Clone, Copy, Debug, PartialEq, Eq, Hash, Structural)]
pub struct Uuid(pub u128);

/// Calls `uuid::Uuid::try_from(Vec<u8>)` (which is `Uuid::from_slice`) and
/// reads the result with `Uuid::as_u128`. The crate accepts exactly sixteen
/// bytes, keeps them in order, and `as_u128` reads them big-endian.
#[verifier::external_body]
pub(crate) fn uuid_from_bytes(bytes: Vec<u8>) -> (r: Option<Uuid>)
    ensures
        r is Some <==> bytes@.len() == 16,
        r matches Some(u) ==> u.0 == be_value(bytes@),
{
    match uuid::Uuid::try_from(bytes) {
        Ok(u) => Some(Uuid(u.as_u128())),
        Err(_) => None,
    }
}

} // verus!
