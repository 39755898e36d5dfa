//! The description of the API.

use vstd::prelude::*;

verus! {

/// The API's description, which the documentation page is made from.
#[derive(Clone, Copy, Debug, PartialEq, Eq, Structural)]
pub struct ApiDoc;

} // verus!
