//! Per-backend health model.
//!
//! Each backend address owns one health cell, an atomically replaceable
//! `Healthiness` value shared between the request path and the probe loop.
//! The update policy distinguishes soft signals (client errors seen on the
//! request path must never demote a backend) from hard ones (transport errors
//! and server errors always do; the probe loop runs in strict mode where even
//! client errors demote).

use vstd::prelude::*;
use vstd::string::StringExecFns;
use crate::text::{spec_decimal_digits, u16_to_string};

verus! {

/// Health probe settings: probe timeout and probe interval, both in
/// milliseconds, and the path probed on every backend.
#[derive(Debug)]
pub struct HealthConfig {
    pub timeout: u64,
    pub interval: u64,
    pub path: String,
}

/// The health of one backend: answering with success, or unresponsive — with
/// the offending HTTP status when the backend answered at all.
#[derive(Clone, Copy, Debug)]
pub enum Healthiness {
    Healthy,
    Unresponsive(Option<u16>),
}

impl PartialEq for Healthiness {
    fn eq(&self, other: &Healthiness) -> (r: bool) {
        match (self, other) {
            (Healthiness::Healthy, Healthiness::Healthy) => true,
            (Healthiness::Unresponsive(a), Healthiness::Unresponsive(b)) => match (a, b) {
                (Option::None, Option::None) => true,
                (Option::Some(x), Option::Some(y)) => x == y,
                _ => false,
            },
            _ => false,
        }
    }
}

impl vstd::std_specs::cmp::PartialEqSpecImpl for Healthiness {
    open spec fn obeys_eq_spec() -> bool {
        true
    }

    open spec fn eq_spec(&self, other: &Healthiness) -> bool {
        self == other
    }
}

/// What `http::StatusCode::canonical_reason` returns for a status code: the
/// canonical reason phrase of that code, if it has one.
pub uninterp spec fn reason_phrase(status: u16) -> Option<Seq<char>>;

/// Relies on `http::StatusCode::{from_u16, canonical_reason}`: the canonical
/// reason phrase of a status code, a fixed table that is the same on every
/// machine. A number that is not a status code, or a code without a canonical
/// phrase, has none.
#[verifier::external_body]
fn canonical_reason(status: u16) -> (r: Option<String>)
    ensures
        r matches Some(phrase) ==> reason_phrase(status) == Some(phrase@),
        r is None ==> reason_phrase(status) is None,
{
    match http::StatusCode::from_u16(status) {
        Ok(code) => code.canonical_reason().map(|phrase| phrase.to_string()),
        Err(_) => None,
    }
}

/// How a status code appears in a status text: its number, a space, and its
/// canonical reason phrase — or the fixed fallback for a code without one.
pub open spec fn spec_status_text(status: u16) -> Seq<char> {
    spec_decimal_digits(status as int) + " "@ + (match reason_phrase(status) {
        Some(phrase) => phrase,
        None => "<unknown status code>"@,
    })
}

pub open spec fn spec_healthiness_text(h: Healthiness) -> Seq<char> {
    match h {
        Healthiness::Healthy => "Healthy"@,
        Healthiness::Unresponsive(Some(status)) => "Unresponsive, status: "@ + spec_status_text(
            status,
        ),
        Healthiness::Unresponsive(None) => "Unresponsive"@,
    }
}

impl Healthiness {
    /// The human-readable form used in health-change log lines.
    pub fn describe(&self) -> (r: String)
        ensures
            r@ == spec_healthiness_text(*self),
    {
        match self {
            Healthiness::Healthy => String::from_str("Healthy"),
            Healthiness::Unresponsive(Some(status)) => {
                let digits = u16_to_string(*status);
                let text = String::from_str("Unresponsive, status: ").concat(digits.as_str())
                    .concat(" ");
                let r = match canonical_reason(*status) {
                    Some(phrase) => text.concat(phrase.as_str()),
                    None => text.concat("<unknown status code>"),
                };
                proof {
                    assert(r@ =~= spec_healthiness_text(*self));
                }
                r
            },
            Healthiness::Unresponsive(None) => String::from_str("Unresponsive"),
        }
    }
}

/// The observable outcome of one upstream HTTP exchange: a transport-level
/// failure, or a response with its status code.
#[derive(Clone, Copy, Debug)]
pub enum UpstreamOutcome {
    TransportError,
    Response(u16),
}

/// The health value that an outcome argues for; `None` means the outcome must
/// not touch the cell (a client error seen in non-strict mode).
pub open spec fn spec_health_candidate(outcome: UpstreamOutcome, strict: bool) -> Option<
    Healthiness,
> {
    match outcome {
        UpstreamOutcome::TransportError => Some(Healthiness::Unresponsive(None)),
        UpstreamOutcome::Response(status) => if 200 <= status && status < 300 {
            Some(Healthiness::Healthy)
        } else if 400 <= status && status < 500 && !strict {
            None
        } else {
            Some(Healthiness::Unresponsive(Some(status)))
        },
    }
}

pub fn health_candidate(outcome: &UpstreamOutcome, strict: bool) -> (r: Option<Healthiness>)
    ensures
        r == spec_health_candidate(*outcome, strict),
{
    match outcome {
        UpstreamOutcome::TransportError => Some(Healthiness::Unresponsive(None)),
        UpstreamOutcome::Response(status) => {
            let s = *status;
            if 200 <= s && s < 300 {
                Some(Healthiness::Healthy)
            } else if 400 <= s && s < 500 && !strict {
                None
            } else {
                Some(Healthiness::Unresponsive(Some(s)))
            }
        },
    }
}

/// A backend's health flag. The cell is shared between the probe loop and
/// concurrent request handlers and is mutated only by atomic replacement, so
/// no two reads are guaranteed to agree; nothing is therefore promised about
/// the value a read returns.
#[verifier::external_body]
pub struct HealthCell {
    cell: arc_swap::ArcSwap<Healthiness>,
}

impl HealthCell {
    /// Relies on `arc_swap::ArcSwap::from_pointee` to allocate the cell.
    #[verifier::external_body]
    pub fn new(initial: Healthiness) -> HealthCell {
        HealthCell { cell: arc_swap::ArcSwap::from_pointee(initial) }
    }

    /// Relies on `arc_swap::ArcSwapAny::load`; the cell may be replaced
    /// concurrently at any moment, so no relation between two loads, or
    /// between a load and an earlier store, is assumed.
    #[verifier::external_body]
    pub fn load(&self) -> Healthiness {
        **self.cell.load()
    }

    /// Relies on `arc_swap::ArcSwapAny::store`.
    #[verifier::external_body]
    pub(crate) fn store(&self, value: Healthiness) {
        self.cell.store(std::sync::Arc::new(value));
    }
}

pub open spec fn spec_health_change_message(address: Seq<char>, h: Healthiness) -> Seq<char> {
    "Backend health change for "@ + address + ": "@ + spec_healthiness_text(h)
}

/// The URI the monitor probes on one backend: `http` scheme, the backend as
/// authority, and the configured probe path.
pub fn probe_uri(server_address: &String, path: &String) -> (r: String)
    ensures
        r@ == "http://"@ + server_address@ + path@,
{
    String::from_str("http://").concat(server_address.as_str()).concat(path.as_str())
}

/// The log line announcing that a backend's health cell changed.
pub fn health_change_message(address: &String, h: &Healthiness) -> (r: String)
    ensures
        r@ == spec_health_change_message(address@, *h),
{
    let text = h.describe();
    String::from_str("Backend health change for ").concat(address.as_str()).concat(": ").concat(
        text.as_str(),
    )
}

/// Applies one outcome to a health cell: if the outcome argues for a value
/// different from the cell's current one, the cell is overwritten and the
/// health-change log line is returned. Returns `None` when nothing was
/// stored — because the outcome must not touch the cell, or because the cell
/// already held the candidate value when it was read.
pub fn update_health(
    server_address: &String,
    result: &UpstreamOutcome,
    healthiness: &HealthCell,
    strict: bool,
) -> (changed: Option<String>)
    ensures
        spec_health_candidate(*result, strict) is None ==> changed is None,
        changed matches Some(msg) ==> (spec_health_candidate(*result, strict) matches Some(c)
            && msg@ == spec_health_change_message(server_address@, c)),
{
    match health_candidate(result, strict) {
        None => None,
        Some(candidate) => {
            let previous = healthiness.load();
            if !(previous == candidate) {
                healthiness.store(candidate);
                Some(health_change_message(server_address, &candidate))
            } else {
                None
            }
        },
    }
}

/// The health value a cell holds after one outcome is applied to it.
pub open spec fn spec_health_apply(h: Healthiness, outcome: UpstreamOutcome, strict: bool) -> Healthiness {
    match spec_health_candidate(outcome, strict) {
        None => h,
        Some(c) => c,
    }
}

/// Health soft-landing: a client-error (4xx) response seen on the request
/// path (non-strict mode) never changes a backend's health, while the same
/// status seen by the probe loop (strict mode) marks the backend
/// unresponsive.
pub proof fn lemma_health_soft_landing(h: Healthiness, status: u16)
    requires
        400 <= status < 500,
    ensures
        spec_health_apply(h, UpstreamOutcome::Response(status), false) == h,
        spec_health_candidate(UpstreamOutcome::Response(status), false) is None,
        spec_health_apply(h, UpstreamOutcome::Response(status), true) == Healthiness::Unresponsive(
            Some(status),
        ),
{
}

/// Health convergence, value part: applying one outcome is idempotent, and in
/// strict mode a single application already leaves the cell at the value the
/// outcome argues for, whatever the cell held before. (The probe loop applies
/// an outcome in strict mode once per interval, so a backend that answers
/// deterministically pins its cell after one probe.)
pub proof fn lemma_health_convergence(h: Healthiness, outcome: UpstreamOutcome, strict: bool)
    ensures
        spec_health_apply(spec_health_apply(h, outcome, strict), outcome, strict)
            == spec_health_apply(h, outcome, strict),
        strict ==> spec_health_candidate(outcome, strict) == Some(
            spec_health_apply(h, outcome, strict),
        ),
{
}

} // verus!
