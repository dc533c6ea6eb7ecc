//! Asset discovery: target and port resolution, liveness and port scanning,
//! and service identification.
//!
//! All network probes are performed by the embedding application; this module
//! holds the data model, the parsers, and the scan state machine that decides
//! which probe comes next and what each outcome means.

pub mod scanner;
pub mod service;
pub mod targets;

use vstd::prelude::*;
use vstd::string::*;
use crate::addr::IpAddress;

verus! {

/// Why discovery failed or a probe could not be used.
#[derive(Debug)]
pub enum DiscoveryError {
    /// A connection could not be made or used; the payload describes it.
    NetworkError(String),
    /// An operation timed out.
    TimeoutError,
    /// A malformed target or port specification; the payload describes it.
    InvalidParameter(String),
}

/// Ghost image of a `DiscoveryError`.
pub ghost enum DiscoveryIssue {
    NetworkError(Seq<char>),
    TimeoutError,
    InvalidParameter(Seq<char>),
}

impl View for DiscoveryError {
    type V = DiscoveryIssue;

    open spec fn view(&self) -> DiscoveryIssue {
        match self {
            DiscoveryError::NetworkError(m) => DiscoveryIssue::NetworkError(m@),
            DiscoveryError::TimeoutError => DiscoveryIssue::TimeoutError,
            DiscoveryError::InvalidParameter(m) => DiscoveryIssue::InvalidParameter(m@),
        }
    }
}

/// The message a `DiscoveryError` renders to.
pub open spec fn discovery_message(i: DiscoveryIssue) -> Seq<char> {
    match i {
        DiscoveryIssue::NetworkError(m) => "Network error: "@ + m,
        DiscoveryIssue::TimeoutError => "Operation timeout"@,
        DiscoveryIssue::InvalidParameter(m) => "Invalid parameter: "@ + m,
    }
}

impl DiscoveryError {
    /// A human-readable description of the failure.
    pub fn message(&self) -> (r: String)
        ensures
            r@ == discovery_message(self@),
    {
        match self {
            DiscoveryError::NetworkError(m) => {
                let mut s = ("Network error: ").to_owned();
                s.append(m.as_str());
                s
            },
            DiscoveryError::TimeoutError => ("Operation timeout").to_owned(),
            DiscoveryError::InvalidParameter(m) => {
                let mut s = ("Invalid parameter: ").to_owned();
                s.append(m.as_str());
                s
            },
        }
    }
}

/// What was learned about one open service: its protocol name, a version
/// where a banner revealed one, and the banner itself.
#[derive(Debug)]
pub struct ServiceInfo {
    pub name: String,
    pub version: Option<String>,
    pub banner: Option<String>,
}

/// Ghost image of a `ServiceInfo`.
pub ghost struct ServiceInfoView {
    pub name: Seq<char>,
    pub version: Option<Seq<char>>,
    pub banner: Option<Seq<char>>,
}

impl View for ServiceInfo {
    type V = ServiceInfoView;

    open spec fn view(&self) -> ServiceInfoView {
        ServiceInfoView {
            name: self.name@,
            version: match &self.version {
                Some(v) => Some(v@),
                None => None,
            },
            banner: match &self.banner {
                Some(b) => Some(b@),
                None => None,
            },
        }
    }
}

impl Clone for ServiceInfo {
    fn clone(&self) -> (r: Self)
        ensures
            r@ == self@,
    {
        ServiceInfo {
            name: self.name.clone(),
            version: match &self.version {
                Some(v) => Some(v.clone()),
                None => None,
            },
            banner: match &self.banner {
                Some(b) => Some(b.clone()),
                None => None,
            },
        }
    }
}

/// One live address and the services found listening on it. Only alive hosts
/// are ever emitted, so `is_alive` is always true on a returned record; no
/// reverse name lookup is performed, so `hostname` stays unset.
#[derive(Debug)]
pub struct Host {
    pub ip: IpAddress,
    pub hostname: Option<String>,
    pub is_alive: bool,
    pub ports: std::collections::HashMap<u16, ServiceInfo>,
}

/// Ghost image of a `Host`, its port table as a map to service images.
pub ghost struct HostView {
    pub ip: IpAddress,
    pub hostname: Option<Seq<char>>,
    pub is_alive: bool,
    pub ports: Map<u16, ServiceInfoView>,
}

impl View for Host {
    type V = HostView;

    open spec fn view(&self) -> HostView {
        HostView {
            ip: self.ip,
            hostname: match &self.hostname {
                Some(h) => Some(h@),
                None => None,
            },
            is_alive: self.is_alive,
            ports: self.ports@.map_values(|s: ServiceInfo| s@),
        }
    }
}

/// The inputs of one scan pass.
#[derive(Debug)]
pub struct DiscoveryConfig {
    /// The raw target specification.
    pub target: String,
    /// The resolved ports to probe on each alive address.
    pub ports: Vec<u16>,
    /// Connect timeout, in seconds.
    pub timeout_secs: u64,
    /// Upper bound on simultaneously in-flight connection attempts.
    pub concurrency: usize,
}

} // verus!
