//! The port scanner: a state machine that decides, probe by probe, how a
//! scan proceeds. The embedding application performs each requested network
//! probe and feeds the outcome back; every decision in between is verified.
//!
//! A scan walks the resolved addresses in order. Each address is first
//! checked for liveness with a single connection attempt to port 80; a dead
//! address is skipped entirely and never appears in the result. On an alive
//! address every resolved port is probed once, an open port's banner is read,
//! and the service is classified; a failed identification merely omits that
//! port. One host record per alive address is emitted, in address order.

use vstd::prelude::*;
use vstd::string::*;
use crate::addr::IpAddress;
use crate::discovery::{
    DiscoveryConfig, DiscoveryError, DiscoveryIssue, Host, HostView, ServiceInfo, ServiceInfoView,
};
use crate::discovery::service::{ServiceIdentifier, classify_spec};
use crate::discovery::targets::{
    issue_message, resolved_ports, resolved_targets, PortSetResolver, TargetResolver,
};

verus! {

/// The scanner's inputs: a raw target specification, an optional raw port
/// specification, and the concurrency cap for the embedding application.
#[derive(Debug)]
pub struct Scanner {
    pub target: String,
    pub ports: Option<String>,
    pub concurrency: usize,
}

/// Ghost image of a `Scanner`.
#[verifier::ext_equal]
pub ghost struct ScannerView {
    pub target: Seq<char>,
    pub ports: Option<Seq<char>>,
    pub concurrency: int,
}

impl View for Scanner {
    type V = ScannerView;

    open spec fn view(&self) -> ScannerView {
        ScannerView {
            target: self.target@,
            ports: match &self.ports {
                Some(p) => Some(p@),
                None => None,
            },
            concurrency: self.concurrency as int,
        }
    }
}

impl Scanner {
    /// Remembers a raw target specification, an optional port specification,
    /// and the number of concurrent probes the caller may keep in flight.
    pub fn new(target: String, ports: Option<String>, threads: usize) -> (r: Self)
        ensures
            r@.target == target@,
            r@.ports == (match ports {
                Some(p) => Some::<Seq<char>>(p@),
                None => None::<Seq<char>>,
            }),
            r@.concurrency == threads,
    {
        Self { target, ports, concurrency: threads }
    }

    /// Resolves the target specification into addresses; a malformed
    /// specification is reported as an invalid parameter.
    pub fn parse_target(&self) -> (r: Result<Vec<IpAddress>, DiscoveryError>)
        ensures
            match r {
                Ok(v) => resolved_targets(self@.target) matches Ok(s) && v@ == s,
                Err(e) => resolved_targets(self@.target) matches Err(i) && e@
                    == DiscoveryIssue::InvalidParameter(issue_message(i)),
            },
    {
        match TargetResolver::resolve(self.target.as_str()) {
            Ok(v) => Ok(v),
            Err(e) => Err(DiscoveryError::InvalidParameter(e.message())),
        }
    }

    /// Resolves the port specification, or the default service ports when
    /// none was given.
    pub fn parse_ports(&self) -> (r: Result<Vec<u16>, DiscoveryError>)
        ensures
            match r {
                Ok(v) => resolved_ports(self@.ports) matches Ok(s) && v@ == s,
                Err(e) => resolved_ports(self@.ports) matches Err(i) && e@
                    == DiscoveryIssue::InvalidParameter(issue_message(i)),
            },
    {
        let spec_text = match &self.ports {
            Some(p) => Some(p.as_str()),
            None => None,
        };
        match PortSetResolver::resolve(spec_text) {
            Ok(v) => Ok(v),
            Err(e) => Err(DiscoveryError::InvalidParameter(e.message())),
        }
    }

    /// The fallback identification used when no banner is examined: the port
    /// is reported as `unknown_<port>` with no version and no banner. The
    /// scan itself does not go through this: its Identify step reads a banner
    /// and classifies through `ServiceIdentifier`.
    pub fn identify_service(&self, _ip: IpAddress, port: u16) -> (r: Result<
        ServiceInfo,
        DiscoveryError,
    >)
        ensures
            r matches Ok(s) && s@ == (ServiceInfoView {
                name: "unknown_"@ + crate::text::dec_text(port as nat),
                version: None,
                banner: None,
            }),
    {
        let mut name = ("unknown_").to_owned();
        name.append(crate::text::dec_string(port).as_str());
        Ok(ServiceInfo { name, version: None, banner: None })
    }

    /// Resolves both specifications and opens a scan session over them; the
    /// first malformed specification aborts the scan before any probe, ports
    /// first as the scan is configured before it starts.
    pub fn begin_scan(&self) -> (r: Result<(DiscoveryConfig, ScanSession), DiscoveryError>)
        ensures
            match r {
                Ok((config, session)) => {
                    &&& resolved_ports(self@.ports) matches Ok(ps) && config.ports@ == ps
                        && session@.ports == ps
                    &&& resolved_targets(self@.target) matches Ok(ts) && session@.ips == ts
                    &&& config.target@ == self@.target
                    &&& config.timeout_secs == 5
                    &&& config.concurrency == self@.concurrency
                    &&& session@.i == 0 && session@.phase is Liveness
                    &&& session@.hosts == Seq::<HostView>::empty()
                    &&& scan_wf(session@)
                },
                Err(e) => {
                    ||| (resolved_ports(self@.ports) matches Err(i) && e@
                        == DiscoveryIssue::InvalidParameter(issue_message(i)))
                    ||| (resolved_ports(self@.ports) is Ok && (resolved_targets(self@.target)
                        matches Err(i) && e@ == DiscoveryIssue::InvalidParameter(
                        issue_message(i),
                    )))
                },
            },
    {
        let ports = match self.parse_ports() {
            Ok(ps) => ps,
            Err(e) => { return Err(e) },
        };
        let ips = match self.parse_target() {
            Ok(ts) => ts,
            Err(e) => { return Err(e) },
        };
        let mut config_ports: Vec<u16> = Vec::new();
        let mut k: usize = 0;
        while k < ports.len()
            invariant
                k <= ports@.len(),
                config_ports@ =~= ports@.take(k as int),
            decreases ports@.len() - k,
        {
            config_ports.push(ports[k]);
            k += 1;
        }
        proof {
            assert(config_ports@ =~= ports@);
        }
        let config = DiscoveryConfig {
            target: self.target.clone(),
            ports: config_ports,
            timeout_secs: 5,
            concurrency: self.concurrency,
        };
        let session = ScanSession::new(ips, ports);
        Ok((config, session))
    }
}

/// One network probe the scan asks the application to perform.
#[derive(Clone, Copy, Debug, PartialEq, Eq, Structural)]
pub enum ScanProbe {
    /// A liveness check: one connection attempt to port 80 with a short
    /// timeout; the address counts as alive exactly when it succeeds.
    Liveness { ip: IpAddress },
    /// One connection attempt to the given port with a short timeout.
    Port { ip: IpAddress, port: u16 },
    /// A banner read from an open port: connect, send a line terminator,
    /// read what comes back; `None` when the service sent nothing.
    Banner { ip: IpAddress, port: u16 },
}

/// The outcome of one probe.
pub enum ScanEvent {
    /// Whether a connection attempt succeeded; a timeout counts as closed.
    ConnectResult { open: bool },
    /// What a banner read produced; a failure to identify is swallowed and
    /// the port is omitted from the host record.
    BannerResult { banner: Result<Option<String>, DiscoveryError> },
}

/// Ghost image of a `ScanEvent`.
#[verifier::ext_equal]
pub ghost enum ScanEventView {
    ConnectResult { open: bool },
    BannerResult { banner: Result<Option<Seq<char>>, DiscoveryIssue> },
}

impl View for ScanEvent {
    type V = ScanEventView;

    open spec fn view(&self) -> ScanEventView {
        match self {
            ScanEvent::ConnectResult { open } => ScanEventView::ConnectResult { open: *open },
            ScanEvent::BannerResult { banner } => ScanEventView::BannerResult {
                banner: match banner {
                    Ok(b) => Ok(b.deep_view()),
                    Err(e) => Err(e@),
                },
            },
        }
    }
}

/// Where the scan stands on the current address.
#[derive(Clone, Copy, Debug, PartialEq, Eq, Structural)]
pub enum ScanPhase {
    /// Waiting for the liveness probe of address `i`.
    Liveness,
    /// Waiting for the connection attempt to port `j` of address `i`.
    PortCheck,
    /// Waiting for the banner of open port `j` of address `i`.
    Identify,
}

/// Ghost image of a `ScanSession`.
#[verifier::ext_equal]
pub ghost struct ScanView {
    pub ips: Seq<IpAddress>,
    pub ports: Seq<u16>,
    pub i: int,
    pub j: int,
    pub phase: ScanPhase,
    pub current: Map<u16, ServiceInfoView>,
    pub hosts: Seq<HostView>,
}

/// A scan in progress: the resolved addresses and ports, the position of the
/// next probe, the open ports gathered on the current address, and the hosts
/// finished so far.
pub struct ScanSession {
    pub identifier: ServiceIdentifier,
    pub ips: Vec<IpAddress>,
    pub ports: Vec<u16>,
    pub i: usize,
    pub j: usize,
    pub phase: ScanPhase,
    pub current: std::collections::HashMap<u16, ServiceInfo>,
    pub hosts: Vec<Host>,
}

impl View for ScanSession {
    type V = ScanView;

    open spec fn view(&self) -> ScanView {
        ScanView {
            ips: self.ips@,
            ports: self.ports@,
            i: self.i as int,
            j: self.j as int,
            phase: self.phase,
            current: self.current@.map_values(|s: ServiceInfo| s@),
            hosts: self.hosts@.map_values(|h: Host| h@),
        }
    }
}

/// A finished host record: alive, nameless, in scan order.
pub open spec fn finished_host(ip: IpAddress, ports: Map<u16, ServiceInfoView>) -> HostView {
    HostView { ip, hostname: None, is_alive: true, ports }
}

/// What the scan machine keeps true between probes.
pub open spec fn scan_wf(v: ScanView) -> bool {
    &&& v.i <= v.ips.len()
    &&& (v.phase is PortCheck || v.phase is Identify) ==> v.i < v.ips.len() && v.j < v.ports.len()
    &&& v.phase is Liveness ==> v.j == 0 && v.current == Map::<u16, ServiceInfoView>::empty()
    &&& forall|k: int|
        0 <= k < v.hosts.len() ==> (#[trigger] v.hosts[k]).is_alive && v.hosts[k].hostname is None
}

/// The probe the scan wants performed next; `None` when the scan is done.
pub open spec fn next_probe_spec(v: ScanView) -> Option<ScanProbe> {
    if v.i >= v.ips.len() {
        None
    } else {
        match v.phase {
            ScanPhase::Liveness => Some(ScanProbe::Liveness { ip: v.ips[v.i] }),
            ScanPhase::PortCheck => Some(ScanProbe::Port { ip: v.ips[v.i], port: v.ports[v.j] }),
            ScanPhase::Identify => Some(ScanProbe::Banner { ip: v.ips[v.i], port: v.ports[v.j] }),
        }
    }
}

/// Whether an event answers the probe that was asked for.
pub open spec fn event_answers(p: ScanProbe, e: ScanEventView) -> bool {
    match p {
        ScanProbe::Liveness { .. } => e is ConnectResult,
        ScanProbe::Port { .. } => e is ConnectResult,
        ScanProbe::Banner { .. } => e is BannerResult,
    }
}

/// Moves past port `j` of the current address: on to the next port, or, when
/// none is left, the host record is emitted and the scan moves to the next
/// address.
pub open spec fn advance_port(v: ScanView) -> ScanView {
    if v.j + 1 < v.ports.len() {
        ScanView { j: v.j + 1, phase: ScanPhase::PortCheck, ..v }
    } else {
        ScanView {
            i: v.i + 1,
            j: 0,
            phase: ScanPhase::Liveness,
            current: Map::empty(),
            hosts: v.hosts.push(finished_host(v.ips[v.i], v.current)),
            ..v
        }
    }
}

/// The whole transition relation of the scan machine: what one probe outcome
/// does to the state.
pub open spec fn scan_step(v: ScanView, e: ScanEventView) -> ScanView {
    match v.phase {
        ScanPhase::Liveness => {
            let open = e ->ConnectResult_open;
            if !open {
                ScanView { i: v.i + 1, ..v }
            } else if v.ports.len() == 0 {
                ScanView {
                    i: v.i + 1,
                    hosts: v.hosts.push(
                        finished_host(v.ips[v.i], Map::<u16, ServiceInfoView>::empty()),
                    ),
                    ..v
                }
            } else {
                ScanView { phase: ScanPhase::PortCheck, j: 0, ..v }
            }
        },
        ScanPhase::PortCheck => {
            let open = e ->ConnectResult_open;
            if open {
                ScanView { phase: ScanPhase::Identify, ..v }
            } else {
                advance_port(v)
            }
        },
        ScanPhase::Identify => {
            let outcome = e ->BannerResult_banner;
            match outcome {
                Ok(b) => advance_port(
                    ScanView {
                        current: v.current.insert(v.ports[v.j], classify_spec(v.ports[v.j], b)),
                        ..v
                    },
                ),
                Err(_) => advance_port(v),
            }
        },
    }
}

impl ScanSession {
    /// Starts a scan over resolved addresses and ports.
    pub fn new(ips: Vec<IpAddress>, ports: Vec<u16>) -> (r: ScanSession)
        ensures
            r@ == (ScanView {
                ips: ips@,
                ports: ports@,
                i: 0,
                j: 0,
                phase: ScanPhase::Liveness,
                current: Map::<u16, ServiceInfoView>::empty(),
                hosts: Seq::<HostView>::empty(),
            }),
            scan_wf(r@),
    {
        broadcast use vstd::std_specs::hash::group_hash_axioms;

        let r = ScanSession {
            identifier: ServiceIdentifier::new(),
            ips,
            ports,
            i: 0,
            j: 0,
            phase: ScanPhase::Liveness,
            current: std::collections::HashMap::new(),
            hosts: Vec::new(),
        };
        proof {
            assert(r.current@.map_values(|s: ServiceInfo| s@) =~= Map::<
                u16,
                ServiceInfoView,
            >::empty());
            assert(r.hosts@.map_values(|h: Host| h@) =~= Seq::<HostView>::empty());
            assert(r@ =~= (ScanView {
                ips: r.ips@,
                ports: r.ports@,
                i: 0,
                j: 0,
                phase: ScanPhase::Liveness,
                current: Map::<u16, ServiceInfoView>::empty(),
                hosts: Seq::<HostView>::empty(),
            }));
        }
        r
    }

    /// True when every address has been handled.
    pub fn is_finished(&self) -> (r: bool)
        ensures
            r == (next_probe_spec(self@) is None),
    {
        self.i >= self.ips.len()
    }

    /// The probe to perform next.
    pub fn next_probe(&self) -> (r: Option<ScanProbe>)
        requires
            scan_wf(self@),
        ensures
            r == next_probe_spec(self@),
    {
        if self.i >= self.ips.len() {
            None
        } else {
            match self.phase {
                ScanPhase::Liveness => Some(ScanProbe::Liveness { ip: self.ips[self.i] }),
                ScanPhase::PortCheck => Some(
                    ScanProbe::Port { ip: self.ips[self.i], port: self.ports[self.j] },
                ),
                ScanPhase::Identify => Some(
                    ScanProbe::Banner { ip: self.ips[self.i], port: self.ports[self.j] },
                ),
            }
        }
    }

    /// Feeds the outcome of the probe that `next_probe` asked for.
    pub fn feed(&mut self, event: ScanEvent)
        requires
            scan_wf(old(self)@),
            next_probe_spec(old(self)@) is Some,
            event_answers(next_probe_spec(old(self)@) -> 0, event@),
        ensures
            scan_wf(final(self)@),
            final(self)@ == scan_step(old(self)@, event@),
    {
        broadcast use vstd::std_specs::hash::group_hash_axioms;

        let ghost pre = self@;
        match event {
            ScanEvent::ConnectResult { open } => {
                match self.phase {
                    ScanPhase::Liveness => {
                        if !open {
                            proof {
                                assert(self.i < self.ips.len());
                            }
                            self.i += 1;
                            proof {
                                assert(self@ =~= scan_step(pre, event@));
                            }
                        } else if self.ports.len() == 0 {
                            self.emit_host(Ghost(pre), Ghost(event@));
                        } else {
                            self.phase = ScanPhase::PortCheck;
                            self.j = 0;
                            proof {
                                assert(self@ =~= scan_step(pre, event@));
                            }
                        }
                    },
                    ScanPhase::PortCheck => {
                        if open {
                            self.phase = ScanPhase::Identify;
                            proof {
                                assert(self@ =~= scan_step(pre, event@));
                            }
                        } else {
                            self.advance(Ghost(pre), Ghost(scan_step(pre, event@)));
                        }
                    },
                    ScanPhase::Identify => {
                        proof {
                            assert(false);
                        }
                    },
                }
            },
            ScanEvent::BannerResult { banner } => {
                match self.phase {
                    ScanPhase::Identify => {
                        match banner {
                            Ok(b) => {
                                let port = self.ports[self.j];
                                let svc = self.identifier.classify(port, b);
                                self.current.insert(port, svc);
                                proof {
                                    assert(self@.current =~= pre.current.insert(
                                        port,
                                        svc@,
                                    ));
                                    assert(self@ =~= (ScanView {
                                        current: pre.current.insert(
                                            port,
                                            classify_spec(port, svc@.banner),
                                        ),
                                        ..pre
                                    }));
                                }
                                let ghost mid = self@;
                                self.advance(Ghost(mid), Ghost(scan_step(pre, event@)));
                            },
                            Err(_) => {
                                self.advance(Ghost(pre), Ghost(scan_step(pre, event@)));
                            },
                        }
                    },
                    _ => {
                        proof {
                            assert(false);
                        }
                    },
                }
            },
        }
    }

    /// Emits the host record for the current address and moves to the next.
    fn emit_host(&mut self, Ghost(pre): Ghost<ScanView>, Ghost(evv): Ghost<ScanEventView>)
        requires
            scan_wf(old(self)@),
            old(self)@.phase is Liveness,
            old(self)@.i < old(self)@.ips.len(),
            old(self)@.ports.len() == 0,
            pre == old(self)@,
            evv matches ScanEventView::ConnectResult { open } && open,
        ensures
            scan_wf(final(self)@),
            final(self)@ == scan_step(pre, evv),
    {
        broadcast use vstd::std_specs::hash::group_hash_axioms;

        let mut finished: std::collections::HashMap<u16, ServiceInfo> =
            std::collections::HashMap::new();
        core::mem::swap(&mut finished, &mut self.current);
        let host = Host {
            ip: self.ips[self.i],
            hostname: None,
            is_alive: true,
            ports: finished,
        };
        proof {
            assert(host@.ports =~= pre.current);
            assert(host@ =~= finished_host(pre.ips[pre.i], Map::<u16, ServiceInfoView>::empty()));
            assert(self.i < self.ips.len());
        }
        self.hosts.push(host);
        self.i += 1;
        self.j = 0;
        self.phase = ScanPhase::Liveness;
        proof {
            assert(self.current@.map_values(|s: ServiceInfo| s@) =~= Map::<
                u16,
                ServiceInfoView,
            >::empty());
            assert(self.hosts@.map_values(|h: Host| h@) =~= pre.hosts.push(host@));
            assert(self@ =~= scan_step(pre, evv));
        }
    }

    /// Moves past the current port, emitting the host when it was the last.
    fn advance(&mut self, Ghost(pre): Ghost<ScanView>, Ghost(target): Ghost<ScanView>)
        requires
            scan_wf(ScanView { phase: ScanPhase::PortCheck, ..old(self)@ }),
            old(self)@.phase is PortCheck || old(self)@.phase is Identify,
            old(self)@.i < old(self)@.ips.len(),
            old(self)@.j < old(self)@.ports.len(),
            pre == old(self)@,
            target == advance_port(pre),
        ensures
            scan_wf(final(self)@),
            final(self)@ == target,
    {
        broadcast use vstd::std_specs::hash::group_hash_axioms;

        proof {
            assert(self.j < self.ports.len());
            assert(self.i < self.ips.len());
        }
        if self.j + 1 < self.ports.len() {
            self.j += 1;
            self.phase = ScanPhase::PortCheck;
            proof {
                assert(self@ =~= advance_port(pre));
            }
        } else {
            let mut finished: std::collections::HashMap<u16, ServiceInfo> =
                std::collections::HashMap::new();
            core::mem::swap(&mut finished, &mut self.current);
            let host = Host {
                ip: self.ips[self.i],
                hostname: None,
                is_alive: true,
                ports: finished,
            };
            proof {
                assert(host@.ports =~= pre.current);
                assert(host@ =~= finished_host(pre.ips[pre.i], pre.current));
                assert(self.i < self.ips.len());
            }
            self.hosts.push(host);
            self.i += 1;
            self.j = 0;
            self.phase = ScanPhase::Liveness;
            proof {
                assert(self.current@.map_values(|s: ServiceInfo| s@) =~= Map::<
                    u16,
                    ServiceInfoView,
                >::empty());
                assert(self.hosts@.map_values(|h: Host| h@) =~= pre.hosts.push(host@));
                assert(self@ =~= advance_port(pre));
            }
        }
    }

    /// Hands over the hosts found, in address order.
    pub fn into_hosts(self) -> (r: Vec<Host>)
        ensures
            r@.map_values(|h: Host| h@) == self@.hosts,
    {
        let ScanSession { hosts, .. } = self;
        hosts
    }
}

/// Law: an address whose liveness probe fails is treated as dead and
/// contributes no host record; the scan simply moves to the next address.
pub proof fn lemma_dead_address_omitted(v: ScanView, e: ScanEventView)
    requires
        scan_wf(v),
        v.phase is Liveness,
        v.i < v.ips.len(),
        e == (ScanEventView::ConnectResult { open: false }),
    ensures
        scan_step(v, e).hosts == v.hosts,
        scan_step(v, e).i == v.i + 1,
        scan_step(v, e).phase is Liveness,
{
}

/// Law: every host record a scan emits is alive and nameless; dead addresses
/// never appear. This holds of every reachable state because it is part of
/// `scan_wf`, which `new` establishes and `feed` preserves.
pub proof fn lemma_hosts_alive(v: ScanView)
    requires
        scan_wf(v),
    ensures
        forall|k: int|
            0 <= k < v.hosts.len() ==> (#[trigger] v.hosts[k]).is_alive && v.hosts[k].hostname
                is None,
{
}

} // verus!
