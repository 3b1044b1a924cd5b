//! Stealth HTTP fetching: which TLS stack is compiled in.

use vstd::prelude::*;

verus! {

/// Whether browser-grade TLS impersonation is compiled in. This build
/// fetches with the standard TLS stack, so it is not.
pub fn has_stealth_tls() -> (b: bool)
    ensures
        !b,
{
    false
}

} // verus!
