//! The liveness report.

use vstd::prelude::*;
use crate::entitlements::Entitlements;

verus! {

/// What the liveness check answers.
#[derive(Debug)]
pub struct Health {
    pub status: &'static str,
    pub edition: String,
}

/// The liveness report of a process that runs under `ents`: status `ok` and
/// the edition of the license.
pub fn healthz(ents: Entitlements) -> (health: Health)
    ensures
        health.status@ == "ok"@,
        health.edition == ents.edition,
{
    Health { status: "ok", edition: ents.edition }
}

} // verus!
