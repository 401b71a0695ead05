//! Conveniences the outer layer implements for the transport's own
//! types.

use vstd::prelude::*;

verus! {

/// Read one named field out of an authorizer context, panicking when it
/// is absent or malformed — the authorizer guarantees its presence on
/// every authorized event. Implemented by the outer layer for the
/// transport's request-context type.
pub trait AuthorizerUtils {
    fn unwrap_field(&self, field: &str) -> String;
}

} // verus!
