//! The health request.

use vstd::prelude::*;

verus! {

/// The body of a health answer.
#[derive(Debug, Clone, Copy, PartialEq, Eq)]
pub struct HealthResponse {
    /// `"ok"` while the process serves.
    pub status: &'static str,
}

impl HealthResponse {
    /// The answer of a process that serves.
    pub fn ok() -> (r: Self)
        ensures
            r.status@ == "ok"@,
    {
        HealthResponse { status: "ok" }
    }
}

/// Status code and body of the health request.
pub fn health() -> (r: (u16, HealthResponse))
    ensures
        r.0 == 200,
        r.1.status@ == "ok"@,
{
    (200, HealthResponse::ok())
}

/// The service is well while it answers.
pub proof fn law_health_is_ok(r: (u16, HealthResponse))
    requires
        call_ensures(health, (), r),
    ensures
        r.0 == 200 && r.1.status@ == seq!['o', 'k'],
{
    reveal_strlit("ok");
    assert("ok"@ =~= seq!['o', 'k']);
}

} // verus!
