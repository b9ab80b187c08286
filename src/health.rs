use vstd::prelude::*;

use crate::method::Method;

verus! {

/// The answer of the liveness probe.
#[derive(Clone, Debug, PartialEq, Eq)]
pub struct HealthReply {
    pub status: u16,
    pub body: String,
}

/// The liveness probe answers `GET` and `HEAD`, and no other method.
pub open spec fn probe_answers(method: Method) -> bool {
    method == Method::Get || method == Method::Head
}

/// The answer of the liveness probe: success, with the body `ok`.
pub fn health() -> (r: HealthReply)
    ensures
        r.status == 200,
        r.body@ == "ok"@,
{
    HealthReply { status: 200, body: String::from_str("ok") }
}

/// The liveness probe's answer to a request with `method`, or `None` where
/// the probe does not take that method.
pub fn health_route(method: Method) -> (r: Option<HealthReply>)
    ensures
        r is Some <==> probe_answers(method),
        r matches Some(h) ==> h.status == 200 && h.body@ == "ok"@,
{
    match method {
        Method::Get | Method::Head => Some(health()),
        _ => None,
    }
}

} // verus!
