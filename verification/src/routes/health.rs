//! The liveness and readiness checks.
use vstd::prelude::*;
use crate::errors::AppError;

verus! {

/// The liveness answer.
pub struct HealthResponse {
    pub status: String,
}

/// The readiness answer.
pub struct ReadyResponse {
    pub status: String,
    pub upstream: String,
    pub providers_total: usize,
}

/// The service is alive.
pub fn healthz() -> (r: HealthResponse)
    ensures
        r.status@ == "ok"@,
{
    HealthResponse { status: String::from_str("ok") }
}

/// Ready, with the number of providers listed, where the upstream answered its readiness
/// check; otherwise the upstream is unavailable.
pub fn readyz(upstream_ready: bool, providers_total: usize) -> (r: Result<ReadyResponse, AppError>)
    ensures
        upstream_ready ==> (r matches Ok(v) && v.status@ == "ready"@ && v.upstream@ == "ok"@
            && v.providers_total == providers_total),
        !upstream_ready ==> r == Err::<ReadyResponse, AppError>(AppError::UpstreamUnavailable),
{
    if upstream_ready {
        Ok(
            ReadyResponse {
                status: String::from_str("ready"),
                upstream: String::from_str("ok"),
                providers_total,
            },
        )
    } else {
        Err(AppError::UpstreamUnavailable)
    }
}

} // verus!
