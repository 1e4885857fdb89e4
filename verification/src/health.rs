//! The readiness protocol: a worker is ready once the reply of its health
//! endpoint is a JSON document whose `port` is the port that the worker was
//! given. That something accepts connections on the port is not enough.

use vstd::prelude::*;
use vstd::string::*;
use crate::text::{decimal, push_decimal};

verus! {

/// How often the health endpoint is asked at most.
pub const HEALTH_ATTEMPTS: u32 = 60;

/// The pause before each question, in milliseconds.
pub const HEALTH_INTERVAL_MS: u64 = 100;

/// The key under which a health reply reports the worker's port.
pub const PORT_KEY: &'static str = "port";

/// The unsigned integer that `serde_json` finds under the key `key` of the
/// JSON text `body`, if it finds one: what `serde_json::from_slice`,
/// `Value::get` and `Value::as_u64` give in turn. It is `None` where `body` is
/// no JSON document, where the document is no object with that key, and where
/// the value under the key is not a number that `serde_json` holds as an
/// unsigned integer of 64 bits.
pub uninterp spec fn json_u64_member(body: Seq<u8>, key: Seq<char>) -> Option<u64>;

/// Parses `body` with `serde_json::from_slice` into a `serde_json::Value`,
/// looks `key` up with `Value::get` and reads the value found with
/// `Value::as_u64`. The contract claims only that the outcome is a function of
/// the bytes and the key; it does not say which.
#[verifier::external_body]
fn read_u64_member(body: &[u8], key: &str) -> (value: Option<u64>)
    ensures
        value == json_u64_member(body@, key@),
{
    match serde_json::from_slice::<serde_json::Value>(body) {
        Ok(document) => document.get(key).and_then(serde_json::Value::as_u64),
        Err(_) => None,
    }
}

/// The port that a health reply reports: none where the request failed or the
/// reply reports no port.
pub open spec fn reported_port(reply: Option<Seq<u8>>) -> Option<u64> {
    match reply {
        Some(body) => json_u64_member(body, PORT_KEY@),
        None => None,
    }
}

/// Whether a reported port confirms that the worker on `port` is ready.
pub open spec fn confirms(reported: Option<u64>, port: u16) -> bool {
    reported == Some(port as u64)
}

/// Whether a reported port confirms that the worker on `port` is ready.
pub fn port_confirmed(reported: Option<u64>, port: u16) -> (ready: bool)
    ensures
        ready == confirms(reported, port),
{
    match reported {
        Some(value) => value == port as u64,
        None => false,
    }
}

/// The address of the health endpoint of the worker on `port`.
pub open spec fn health_url(port: u16) -> Seq<char> {
    "http://127.0.0.1:"@ + decimal(port as nat) + "/health"@
}

/// The course of one readiness check.
#[derive(Clone, Copy, Debug, PartialEq, Eq)]
pub struct HealthCheck {
    /// The port that the worker was given.
    pub port: u16,
    /// How often the endpoint has been asked.
    pub attempts: u32,
    /// Whether a reply has confirmed the port.
    pub healthy: bool,
}

impl HealthCheck {
    /// A check of the worker on `port` that has asked nothing yet.
    pub open spec fn new_spec(port: u16) -> HealthCheck {
        HealthCheck { port, attempts: 0, healthy: false }
    }

    /// Whether the endpoint is to be asked once more: readiness is not
    /// confirmed and attempts are left.
    pub open spec fn pending(self) -> bool {
        !self.healthy && self.attempts < HEALTH_ATTEMPTS
    }

    /// The check after one more question that reported `reported`. A check
    /// that is over stays as it is.
    pub open spec fn after_report(self, reported: Option<u64>) -> HealthCheck {
        if self.pending() {
            HealthCheck {
                port: self.port,
                attempts: (self.attempts + 1) as u32,
                healthy: confirms(reported, self.port),
            }
        } else {
            self
        }
    }

    /// The check after the reports `reports`, in order.
    pub open spec fn after_reports(self, reports: Seq<Option<u64>>) -> HealthCheck
        decreases reports.len(),
    {
        if reports.len() == 0 {
            self
        } else {
            self.after_reports(reports.drop_last()).after_report(reports.last())
        }
    }

    /// A check of the worker on `port` that has asked nothing yet.
    pub fn new(port: u16) -> (check: HealthCheck)
        ensures
            check == HealthCheck::new_spec(port),
    {
        HealthCheck { port, attempts: 0, healthy: false }
    }

    /// Whether the endpoint is to be asked once more.
    pub fn is_pending(&self) -> (pending: bool)
        ensures
            pending == self.pending(),
    {
        !self.healthy && self.attempts < HEALTH_ATTEMPTS
    }

    /// The address to ask.
    pub fn url(&self) -> (url: String)
        ensures
            url@ == health_url(self.port),
    {
        let mut url = String::from_str("http://127.0.0.1:");
        push_decimal(&mut url, self.port as u64);
        url.append("/health");
        url
    }

    /// Takes note of what one more question reported.
    pub fn record_report(&mut self, reported: Option<u64>)
        ensures
            *final(self) == old(self).after_report(reported),
    {
        if self.is_pending() {
            self.attempts = self.attempts + 1;
            self.healthy = port_confirmed(reported, self.port);
        }
    }

    /// Takes note of the reply to one more question: the body of the reply,
    /// or `None` where the request failed.
    pub fn record_reply(&mut self, reply: Option<&[u8]>)
        ensures
            *final(self) == old(self).after_report(
                reported_port(
                    match reply {
                        Some(body) => Some(body@),
                        None => None,
                    },
                ),
            ),
    {
        let reported = match reply {
            Some(body) => read_u64_member(body, PORT_KEY),
            None => None,
        };
        self.record_report(reported);
    }
}

/// A check never asks more often than the attempt budget allows, and it is
/// over once the budget is spent.
pub proof fn lemma_health_check_is_bounded(port: u16, reports: Seq<Option<u64>>)
    ensures
        HealthCheck::new_spec(port).after_reports(reports).attempts <= HEALTH_ATTEMPTS,
        HealthCheck::new_spec(port).after_reports(reports).attempts <= reports.len(),
        HealthCheck::new_spec(port).after_reports(reports).port == port,
        reports.len() >= HEALTH_ATTEMPTS ==> !HealthCheck::new_spec(port).after_reports(
            reports,
        ).pending(),
    decreases reports.len(),
{
    if reports.len() > 0 {
        lemma_health_check_is_bounded(port, reports.drop_last());
        lemma_health_check_counts(port, reports.drop_last());
    }
}

/// While a check is pending, it has asked once for each report.
pub proof fn lemma_health_check_counts(port: u16, reports: Seq<Option<u64>>)
    ensures
        HealthCheck::new_spec(port).after_reports(reports).pending() ==> HealthCheck::new_spec(
            port,
        ).after_reports(reports).attempts == reports.len(),
    decreases reports.len(),
{
    if reports.len() > 0 {
        lemma_health_check_counts(port, reports.drop_last());
    }
}

/// A check ends healthy exactly if one of the reports within the attempt
/// budget confirms the port. Without such a report it ends unhealthy.
pub proof fn lemma_healthy_iff_confirmed(port: u16, reports: Seq<Option<u64>>)
    ensures
        HealthCheck::new_spec(port).after_reports(reports).healthy <==> exists|i: int|
            0 <= i < reports.len() && i < HEALTH_ATTEMPTS && confirms(#[trigger] reports[i], port),
    decreases reports.len(),
{
    let start = HealthCheck::new_spec(port);
    if reports.len() > 0 {
        let before = start.after_reports(reports.drop_last());
        lemma_healthy_iff_confirmed(port, reports.drop_last());
        lemma_health_check_counts(port, reports.drop_last());
        lemma_health_check_is_bounded(port, reports.drop_last());
        let last = reports.len() - 1;
        if start.after_reports(reports).healthy {
            if before.healthy {
                let i = choose|i: int|
                    0 <= i < reports.drop_last().len() && i < HEALTH_ATTEMPTS && confirms(
                        #[trigger] reports.drop_last()[i],
                        port,
                    );
                assert(reports[i] == reports.drop_last()[i]);
            } else {
                assert(before.pending());
                assert(confirms(reports[last], port));
            }
        }
        if exists|i: int|
            0 <= i < reports.len() && i < HEALTH_ATTEMPTS && confirms(#[trigger] reports[i], port) {
            let i = choose|i: int|
                0 <= i < reports.len() && i < HEALTH_ATTEMPTS && confirms(
                    #[trigger] reports[i],
                    port,
                );
            if i < last {
                assert(reports.drop_last()[i] == reports[i]);
            } else {
                if !before.healthy {
                    assert(before.attempts <= last);
                }
            }
        }
    }
}

} // verus!
