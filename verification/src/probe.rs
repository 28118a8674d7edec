//! What the prober needs to know, and what it reports.
//!
//! Opening the connection is the caller's work. This module says where to
//! connect, how long to wait, and which log record a failed probe leaves.

use crate::config::{Target, TargetView};
use crate::text::{decimal, decimal_text};
use vstd::prelude::*;
use vstd::string::*;

verus! {

/// Host part of every probe address, colon included: targets are probed on
/// the loopback interface only.
pub const LOOPBACK: &'static str = "127.0.0.1:";

/// Longest time, in seconds, that one connection attempt may take.
pub const CONNECT_TIMEOUT_SECONDS: u64 = 2;

/// Message of the log record of a failed probe.
pub const FAILURE_MESSAGE: &'static str = "Error connecting to";

/// The socket address a target is probed at.
pub open spec fn address_of(target: TargetView) -> Seq<char> {
    LOOPBACK@ + decimal(target.port)
}

/// The socket address to connect to for `target`.
pub fn probe_address(target: &Target) -> (address: String)
    ensures
        address@ == address_of(target@),
{
    let port = decimal_text(target.port);
    LOOPBACK.to_owned().concat(port.as_str())
}

/// The error-level log record of a probe that found its target down.
#[derive(Debug)]
pub struct ProbeFailure {
    /// Name of the target, logged under the key `service`.
    pub service: String,
    /// Port of the target, logged under the key `port`.
    pub port: u64,
}

impl View for ProbeFailure {
    type V = TargetView;

    open spec fn view(&self) -> TargetView {
        TargetView { name: self.service@, port: self.port as nat }
    }
}

/// What to log for the outcome of a probe: nothing for a target that is
/// up, the target's name and port for one that is down.
pub open spec fn failure_of(target: TargetView, up: bool) -> Option<TargetView> {
    if up {
        None
    } else {
        Some(target)
    }
}

/// The log record, if any, for the outcome `up` of probing `target`.
pub fn probe_failure(target: &Target, up: bool) -> (failure: Option<ProbeFailure>)
    ensures
        failure_of(target@, up) == match failure {
            Some(record) => Some(record@),
            None => None,
        },
{
    if up {
        None
    } else {
        Some(ProbeFailure { service: target.name.clone(), port: target.port })
    }
}

} // verus!
