use vstd::prelude::*;

verus! {

/// Payload of the liveness probe.
pub struct Ping {
    pub success: bool,
}

/// Liveness probe: always reports success.
pub fn ping() -> (r: Ping)
    ensures
        r.success,
{
    Ping { success: true }
}

} // verus!
