//! The steps of a scan of the local network: which hosts to probe next, and when it is over.
use crate::scan;
use crate::scan::{copy_batch, merge};
use vstd::prelude::*;

pub mod laws;

verus! {

/// How many devices are probed at a time.
pub const DEVICE_CONCURRENCY: usize = 32;

/// How many endpoints are probed at a time.
pub const ENDPOINT_CONCURRENCY: usize = 64;

/// The first port at which a hub is looked for.
pub const START_PORT: u16 = 8000;

/// The last port at which a hub is looked for.
pub const END_PORT: u16 = 8003;

/// How far a scan is.
#[derive(Clone, Copy, Debug, PartialEq, Eq, Structural)]
pub enum ScanStage {
    /// Nothing was probed yet.
    Ready,
    /// Devices are being probed.
    Devices,
    /// Endpoints are being probed.
    Endpoints,
    /// The scan is over.
    Done,
}

/// What happens to a scan.
#[derive(Debug)]
pub enum ScanEvent {
    /// It starts.
    Started,
    /// A batch of devices was probed; these have answered, in this order.
    DevicesProbed(Vec<String>),
    /// A batch of endpoints was probed; this host was the first to answer, if one did.
    EndpointsProbed(Option<String>),
}

/// What happens to a scan.
pub enum ScanEventModel {
    Started,
    DevicesProbed(Seq<Seq<char>>),
    EndpointsProbed(Option<Seq<char>>),
}

impl View for ScanEvent {
    type V = ScanEventModel;

    open spec fn view(&self) -> ScanEventModel {
        match *self {
            ScanEvent::Started => ScanEventModel::Started,
            ScanEvent::DevicesProbed(found) => ScanEventModel::DevicesProbed(scan::texts(found@)),
            ScanEvent::EndpointsProbed(found) => ScanEventModel::EndpointsProbed(
                crate::hub::option_text(found),
            ),
        }
    }
}

/// What a scan does next.
#[derive(Debug)]
pub enum ScanAction {
    /// It probes these devices.
    ProbeDevices(Vec<String>),
    /// It probes the endpoints at these hosts and this port.
    ProbeEndpoints(Vec<String>, u16),
    /// It has found a hub.
    Found(String, u16),
    /// It has found none.
    NotFound,
    /// Nothing: the event does not belong here.
    Ignore,
}

/// What a scan does next.
pub enum ScanActionModel {
    ProbeDevices(Seq<Seq<char>>),
    ProbeEndpoints(Seq<Seq<char>>, u16),
    Found(Seq<char>, u16),
    NotFound,
    Ignore,
}

impl View for ScanAction {
    type V = ScanActionModel;

    open spec fn view(&self) -> ScanActionModel {
        match *self {
            ScanAction::ProbeDevices(hosts) => ScanActionModel::ProbeDevices(scan::texts(hosts@)),
            ScanAction::ProbeEndpoints(hosts, port) => ScanActionModel::ProbeEndpoints(
                scan::texts(hosts@),
                port,
            ),
            ScanAction::Found(host, port) => ScanActionModel::Found(host@, port),
            ScanAction::NotFound => ScanActionModel::NotFound,
            ScanAction::Ignore => ScanActionModel::Ignore,
        }
    }
}

/// A scan of the local network.
#[derive(Debug)]
pub struct LanScan {
    candidates: Vec<String>,
    devices: Vec<String>,
    hosts: Vec<String>,
    port: u16,
    next: usize,
    stage: ScanStage,
}

/// A scan of the local network: the hosts that come into question, those that have answered as
/// devices, all of them in the order in which their endpoints are probed, and how many hosts
/// of the list at hand were handed out, at which port.
#[verifier::ext_equal]
pub struct ScanModel {
    pub candidates: Seq<Seq<char>>,
    pub devices: Seq<Seq<char>>,
    pub hosts: Seq<Seq<char>>,
    pub port: u16,
    pub next: int,
    pub stage: ScanStage,
}

impl View for LanScan {
    type V = ScanModel;

    closed spec fn view(&self) -> ScanModel {
        ScanModel {
            candidates: scan::texts(self.candidates@),
            devices: scan::texts(self.devices@),
            hosts: scan::texts(self.hosts@),
            port: self.port,
            next: self.next as int,
            stage: self.stage,
        }
    }
}

/// The lesser of two integers.
pub open spec fn least(a: int, b: int) -> int {
    if a <= b {
        a
    } else {
        b
    }
}

impl ScanModel {
    /// A scan that has not started.
    pub open spec fn fresh(candidates: Seq<Seq<char>>) -> ScanModel {
        ScanModel {
            candidates,
            devices: Seq::empty(),
            hosts: Seq::empty(),
            port: START_PORT,
            next: 0,
            stage: ScanStage::Ready,
        }
    }

    /// The scan when it is over.
    pub open spec fn over(self) -> ScanModel {
        ScanModel { stage: ScanStage::Done, ..self }
    }

    /// The next batch of endpoints at the port at hand or, when all hosts were probed there, at
    /// the next port; after the last port the scan is over.
    pub open spec fn next_endpoints(self) -> (ScanModel, ScanActionModel) {
        if self.next < self.hosts.len() {
            (
                ScanModel {
                    next: least(self.next + ENDPOINT_CONCURRENCY, self.hosts.len() as int),
                    ..self
                },
                ScanActionModel::ProbeEndpoints(
                    scan::batch(self.hosts, self.next, ENDPOINT_CONCURRENCY as int),
                    self.port,
                ),
            )
        } else if self.port < END_PORT && self.hosts.len() > 0 {
            (
                ScanModel {
                    port: (self.port + 1) as u16,
                    next: least(ENDPOINT_CONCURRENCY as int, self.hosts.len() as int),
                    ..self
                },
                ScanActionModel::ProbeEndpoints(
                    scan::batch(self.hosts, 0, ENDPOINT_CONCURRENCY as int),
                    (self.port + 1) as u16,
                ),
            )
        } else {
            (self.over(), ScanActionModel::NotFound)
        }
    }

    /// The next batch of devices or, when all were probed, the first batch of endpoints: those
    /// of the devices that have answered come first.
    pub open spec fn next_devices(self) -> (ScanModel, ScanActionModel) {
        if self.next < self.candidates.len() {
            (
                ScanModel {
                    next: least(self.next + DEVICE_CONCURRENCY, self.candidates.len() as int),
                    stage: ScanStage::Devices,
                    ..self
                },
                ScanActionModel::ProbeDevices(
                    scan::batch(self.candidates, self.next, DEVICE_CONCURRENCY as int),
                ),
            )
        } else {
            (ScanModel {
                hosts: scan::merged(self.devices, self.candidates),
                port: START_PORT,
                next: 0,
                stage: ScanStage::Endpoints,
                ..self
            }).next_endpoints()
        }
    }

    /// What an event does to a scan.
    pub open spec fn step(self, event: ScanEventModel) -> (ScanModel, ScanActionModel) {
        match (self.stage, event) {
            (ScanStage::Ready, ScanEventModel::Started) => self.next_devices(),
            (ScanStage::Devices, ScanEventModel::DevicesProbed(found)) => (ScanModel {
                devices: self.devices + found,
                ..self
            }).next_devices(),
            (ScanStage::Endpoints, ScanEventModel::EndpointsProbed(found)) => match found {
                Some(host) => (self.over(), ScanActionModel::Found(host, self.port)),
                None => self.next_endpoints(),
            },
            _ => (self, ScanActionModel::Ignore),
        }
    }
}

impl LanScan {
    /// A scan of these hosts that has not started.
    pub fn new(candidates: Vec<String>) -> (r: LanScan)
        ensures
            r@ == ScanModel::fresh(scan::texts(candidates@)),
    {
        let devices: Vec<String> = Vec::new();
        let hosts: Vec<String> = Vec::new();
        assert(scan::texts(devices@) =~= Seq::empty());
        assert(scan::texts(hosts@) =~= Seq::empty());
        LanScan { candidates, devices, hosts, port: START_PORT, next: 0, stage: ScanStage::Ready }
    }

    /// The devices that have answered, in the order of their answers.
    pub fn devices(&self) -> (r: &Vec<String>)
        ensures
            scan::texts(r@) == self@.devices,
    {
        &self.devices
    }

    /// The hosts whose endpoints are probed, in that order; none before all devices were probed.
    pub fn hosts(&self) -> (r: &Vec<String>)
        ensures
            scan::texts(r@) == self@.hosts,
    {
        &self.hosts
    }

    fn next_endpoints(&mut self) -> (r: ScanAction)
        ensures
            final(self)@ == old(self)@.next_endpoints().0,
            r@ == old(self)@.next_endpoints().1,
    {
        if self.next >= self.hosts.len() {
            if self.port >= END_PORT || self.hosts.len() == 0 {
                self.stage = ScanStage::Done;
                return ScanAction::NotFound;
            }
            self.port = self.port + 1;
            self.next = 0;
        }
        let hosts = copy_batch(&self.hosts, self.next, ENDPOINT_CONCURRENCY);
        self.next = self.next + hosts.len();
        ScanAction::ProbeEndpoints(hosts, self.port)
    }

    fn next_devices(&mut self) -> (r: ScanAction)
        ensures
            final(self)@ == old(self)@.next_devices().0,
            r@ == old(self)@.next_devices().1,
    {
        if self.next < self.candidates.len() {
            let hosts = copy_batch(&self.candidates, self.next, DEVICE_CONCURRENCY);
            self.next = self.next + hosts.len();
            self.stage = ScanStage::Devices;
            return ScanAction::ProbeDevices(hosts);
        }
        self.hosts = merge(&self.devices, &self.candidates);
        self.port = START_PORT;
        self.next = 0;
        self.stage = ScanStage::Endpoints;
        self.next_endpoints()
    }

    /// Takes an event and says what to do next.
    pub fn step(&mut self, event: ScanEvent) -> (r: ScanAction)
        ensures
            final(self)@ == old(self)@.step(event@).0,
            r@ == old(self)@.step(event@).1,
    {
        match (self.stage, event) {
            (ScanStage::Ready, ScanEvent::Started) => self.next_devices(),
            (ScanStage::Devices, ScanEvent::DevicesProbed(found)) => {
                let mut found = found;
                let ghost all = scan::texts(self.devices@) + scan::texts(found@);
                self.devices.append(&mut found);
                assert(scan::texts(self.devices@) =~= all);
                self.next_devices()
            },
            (ScanStage::Endpoints, ScanEvent::EndpointsProbed(found)) => match found {
                Some(host) => {
                    self.stage = ScanStage::Done;
                    ScanAction::Found(host, self.port)
                },
                None => self.next_endpoints(),
            },
            _ => ScanAction::Ignore,
        }
    }
}

/// Endpoints at a port.
pub open spec fn at_port(hosts: Seq<Seq<char>>, port: int) -> Seq<(Seq<char>, int)> {
    Seq::new(hosts.len(), |i: int| (hosts[i], port))
}

/// The endpoints at the first `ports` ports, port after port.
pub open spec fn plan(hosts: Seq<Seq<char>>, ports: nat) -> Seq<(Seq<char>, int)>
    decreases ports,
{
    if ports == 0 {
        Seq::empty()
    } else {
        plan(hosts, (ports - 1) as nat) + at_port(hosts, START_PORT + ports - 1)
    }
}

/// All endpoints of a scan: those of the devices that have answered come first at every port.
pub open spec fn whole_plan(scanned: ScanModel) -> Seq<(Seq<char>, int)> {
    plan(
        scan::merged(scanned.devices, scanned.candidates),
        (END_PORT - START_PORT + 1) as nat,
    )
}

/// What came of a scan: how it stands, which devices and endpoints were to be probed, the hosts of
/// the last batch of devices and of the last batch of endpoints, and what it has ended with.
pub struct ScanTrace {
    pub last: ScanModel,
    pub devices: Seq<Seq<char>>,
    pub device_batch: Seq<Seq<char>>,
    pub endpoints: Seq<(Seq<char>, int)>,
    pub batch: Seq<Seq<char>>,
    pub found: Option<(Seq<char>, u16)>,
    pub missed: bool,
}

/// What comes of a scan to which these events happen.
pub open spec fn scan_trace(
    candidates: Seq<Seq<char>>,
    events: Seq<ScanEventModel>,
) -> ScanTrace
    decreases events.len(),
{
    if events.len() == 0 {
        ScanTrace {
            last: ScanModel::fresh(candidates),
            devices: Seq::empty(),
            device_batch: Seq::empty(),
            endpoints: Seq::empty(),
            batch: Seq::empty(),
            found: None,
            missed: false,
        }
    } else {
        let before = scan_trace(candidates, events.drop_last());
        let (last, action) = before.last.step(events.last());
        match action {
            ScanActionModel::ProbeDevices(hosts) => ScanTrace {
                last,
                devices: before.devices + hosts,
                device_batch: hosts,
                ..before
            },
            ScanActionModel::ProbeEndpoints(hosts, port) => ScanTrace {
                last,
                endpoints: before.endpoints + at_port(hosts, port as int),
                batch: hosts,
                ..before
            },
            ScanActionModel::Found(host, port) => ScanTrace {
                last,
                found: Some((host, port)),
                ..before
            },
            ScanActionModel::NotFound => ScanTrace { last, missed: true, ..before },
            ScanActionModel::Ignore => ScanTrace { last, ..before },
        }
    }
}

impl ScanTrace {
    spec fn consistent(self, candidates: Seq<Seq<char>>) -> bool {
        let last = self.last;
        let hosts = scan::merged(last.devices, candidates);
        &&& last.candidates == candidates
        &&& match last.stage {
            ScanStage::Ready => {
                &&& last.next == 0
                &&& last.devices.len() == 0
                &&& self.devices.len() == 0
                &&& self.endpoints.len() == 0
            },
            ScanStage::Devices => {
                &&& 0 <= last.next <= candidates.len()
                &&& self.devices == candidates.take(last.next)
                &&& self.endpoints.len() == 0
            },
            ScanStage::Endpoints => {
                &&& START_PORT <= last.port <= END_PORT
                &&& 0 <= last.next <= hosts.len()
                &&& last.hosts == hosts
                &&& self.devices == candidates
                &&& self.endpoints == plan(hosts, (last.port - START_PORT) as nat) + at_port(
                    hosts.take(last.next),
                    last.port as int,
                )
            },
            ScanStage::Done => {
                &&& last.hosts == hosts
                &&& self.devices == candidates
                &&& self.endpoints.is_prefix_of(whole_plan(last))
                &&& self.missed ==> self.endpoints == whole_plan(last)
            },
        }
        &&& (self.missed || self.found is Some) == (last.stage == ScanStage::Done)
        &&& !(self.missed && self.found is Some)
    }
}

proof fn empty_plan(ports: nat)
    ensures
        plan(Seq::empty(), ports).len() == 0,
    decreases ports,
{
    if ports > 0 {
        empty_plan((ports - 1) as nat);
    }
}

proof fn plan_grows(hosts: Seq<Seq<char>>, less: nat, more: nat)
    requires
        less <= more,
    ensures
        plan(hosts, less).is_prefix_of(plan(hosts, more)),
    decreases more,
{
    if less < more {
        plan_grows(hosts, less, (more - 1) as nat);
    }
}

proof fn partial_plan_is_a_prefix(hosts: Seq<Seq<char>>, ports: nat, next: int, more: nat)
    requires
        ports < more,
        0 <= next <= hosts.len(),
    ensures
        (plan(hosts, ports) + at_port(hosts.take(next), START_PORT + ports)).is_prefix_of(
            plan(hosts, more),
        ),
{
    let part = plan(hosts, ports) + at_port(hosts.take(next), START_PORT + ports);
    assert(part.is_prefix_of(plan(hosts, ports + 1)));
    plan_grows(hosts, ports + 1, more);
}

proof fn scan_invariant(candidates: Seq<Seq<char>>, events: Seq<ScanEventModel>)
    ensures
        scan_trace(candidates, events).consistent(candidates),
    decreases events.len(),
{
    if events.len() > 0 {
        let before = scan_trace(candidates, events.drop_last());
        let after = scan_trace(candidates, events);
        scan_invariant(candidates, events.drop_last());
        let hosts = scan::merged(after.last.devices, candidates);
        match before.last.stage {
            ScanStage::Endpoints => {
                let ports = (before.last.port - START_PORT) as nat;
                partial_plan_is_a_prefix(hosts, ports, before.last.next, 4);
                if before.last.next == hosts.len() {
                    assert(hosts.take(before.last.next) =~= hosts);
                    assert(before.endpoints =~= plan(hosts, ports + 1));
                    if hosts.len() == 0 {
                        assert(hosts =~= Seq::empty());
                        empty_plan(ports + 1);
                        empty_plan(4);
                        assert(plan(hosts, ports + 1) =~= plan(hosts, 4));
                    }
                }
            },
            ScanStage::Done => {},
            _ => {
                empty_plan(4);
                if hosts.len() == 0 {
                    assert(hosts =~= Seq::empty());
                }
                assert(candidates.take(candidates.len() as int) =~= candidates);
            },
        }
        match after.last.stage {
            ScanStage::Devices => {
                assert(after.devices =~= candidates.take(after.last.next));
            },
            ScanStage::Endpoints => {
                assert(after.devices =~= candidates);
                assert(after.endpoints =~= plan(hosts, (after.last.port - START_PORT) as nat)
                    + at_port(hosts.take(after.last.next), after.last.port as int));
            },
            ScanStage::Done => {
                assert(after.devices =~= candidates);
                if after.missed {
                    assert(after.endpoints =~= whole_plan(after.last));
                }
            },
            ScanStage::Ready => {},
        }
    }
}

/// A scan that ends without a hub has probed every candidate as a device, and the endpoint of
/// every host at every port.
pub proof fn a_scan_that_finds_nothing_has_probed_everything(
    candidates: Seq<Seq<char>>,
    events: Seq<ScanEventModel>,
)
    requires
        scan_trace(candidates, events).missed,
    ensures
        scan_trace(candidates, events).devices == candidates,
        scan_trace(candidates, events).endpoints == whole_plan(
            scan_trace(candidates, events).last,
        ),
{
    scan_invariant(candidates, events);
}

/// At every time the devices that were probed are a front part of the candidates, and the
/// endpoints that were probed a front part of the plan.
pub proof fn probes_follow_the_plan(candidates: Seq<Seq<char>>, events: Seq<ScanEventModel>)
    ensures
        scan_trace(candidates, events).devices.is_prefix_of(candidates),
        scan_trace(candidates, events).endpoints.is_prefix_of(
            whole_plan(scan_trace(candidates, events).last),
        ),
{
    let trace = scan_trace(candidates, events);
    scan_invariant(candidates, events);
    if trace.last.stage == ScanStage::Endpoints {
        let hosts = scan::merged(trace.last.devices, candidates);
        let ports = (trace.last.port - START_PORT) as nat;
        partial_plan_is_a_prefix(hosts, ports, trace.last.next, 4);
    }
}

proof fn plan_names_no_endpoint_twice(hosts: Seq<Seq<char>>, ports: nat)
    requires
        hosts.no_duplicates(),
    ensures
        plan(hosts, ports).no_duplicates(),
        forall|i: int|
            0 <= i < plan(hosts, ports).len() ==> (#[trigger] plan(hosts, ports)[i]).1 < START_PORT
                + ports,
    decreases ports,
{
    if ports > 0 {
        let before = plan(hosts, (ports - 1) as nat);
        let more = at_port(hosts, START_PORT + ports - 1);
        plan_names_no_endpoint_twice(hosts, (ports - 1) as nat);
        assert forall|i: int, j: int|
            0 <= i < (before + more).len() && 0 <= j < (before + more).len() && i != j implies (
        before + more)[i] != (before + more)[j] by {
            if i >= before.len() && j >= before.len() {
                assert(hosts[i - before.len()] != hosts[j - before.len()]);
            }
        }
    }
}

/// No endpoint is probed twice, as long as no device has answered twice.
pub proof fn no_endpoint_is_probed_twice(
    candidates: Seq<Seq<char>>,
    events: Seq<ScanEventModel>,
)
    requires
        scan_trace(candidates, events).last.devices.no_duplicates(),
    ensures
        scan_trace(candidates, events).endpoints.no_duplicates(),
{
    let trace = scan_trace(candidates, events);
    scan_invariant(candidates, events);
    probes_follow_the_plan(candidates, events);
    scan::merging_names_no_host_twice(trace.last.devices, candidates);
    plan_names_no_endpoint_twice(scan::merged(trace.last.devices, candidates), 4);
    let all = whole_plan(trace.last);
    assert forall|i: int, j: int|
        0 <= i < trace.endpoints.len() && 0 <= j < trace.endpoints.len() && i
            != j implies trace.endpoints[i] != trace.endpoints[j] by {
        assert(trace.endpoints[i] == all[i] && trace.endpoints[j] == all[j]);
    }
}

/// A hub that was found has answered, at one of the ports of a hub.
pub proof fn a_found_hub_has_answered(
    candidates: Seq<Seq<char>>,
    events: Seq<ScanEventModel>,
    host: Seq<char>,
    port: u16,
)
    requires
        scan_trace(candidates, events).found == Some((host, port)),
    ensures
        events.contains(ScanEventModel::EndpointsProbed(Some(host))),
        START_PORT <= port <= END_PORT,
    decreases events.len(),
{
    let less = events.drop_last();
    scan_invariant(candidates, less);
    assert(events[events.len() - 1] == events.last());
    if scan_trace(candidates, less).found == Some((host, port)) {
        a_found_hub_has_answered(candidates, less, host, port);
        let i = choose|i: int|
            0 <= i < less.len() && less[i] == ScanEventModel::EndpointsProbed(Some(host));
        assert(events[i] == less[i]);
    }
}

/// Whether the answers to the probes of endpoints are true, where these endpoints are those of a
/// hub: the host that is the first to answer is one of the batch that was handed out, and has a
/// hub; and when none answers, none of the batch has one.
pub open spec fn truthful(
    candidates: Seq<Seq<char>>,
    events: Seq<ScanEventModel>,
    hubs: Set<(Seq<char>, int)>,
) -> bool
    decreases events.len(),
{
    if events.len() == 0 {
        true
    } else {
        let before = scan_trace(candidates, events.drop_last());
        &&& truthful(candidates, events.drop_last(), hubs)
        &&& before.last.stage == ScanStage::Endpoints ==> match events.last() {
            ScanEventModel::EndpointsProbed(Some(host)) => before.batch.contains(host)
                && hubs.contains((host, before.last.port as int)),
            ScanEventModel::EndpointsProbed(None) => forall|host: Seq<char>| #[trigger]
                before.batch.contains(host) ==> !hubs.contains((host, before.last.port as int)),
            _ => true,
        }
    }
}

impl ScanTrace {
    /// The endpoints that were probed before those of the last batch.
    pub open spec fn earlier(self) -> Seq<(Seq<char>, int)> {
        self.endpoints.take(self.endpoints.len() - self.batch.len())
    }

    spec fn searched(self, candidates: Seq<Seq<char>>, hubs: Set<(Seq<char>, int)>) -> bool {
        let hosts = scan::merged(self.last.devices, candidates);
        &&& self.batch.len() <= self.endpoints.len()
        &&& no_hub_at(self.earlier(), hubs)
        &&& self.missed ==> no_hub_at(self.endpoints, hubs)
        &&& self.found matches Some((host, port)) ==> {
            &&& port == self.last.port
            &&& START_PORT <= port <= END_PORT
            &&& self.batch.contains(host)
            &&& hubs.contains((host, port as int))
            &&& self.endpoints == self.earlier() + at_port(self.batch, port as int)
            &&& plan(hosts, (port - START_PORT) as nat).is_prefix_of(self.earlier())
            &&& forall|x: Seq<char>| #[trigger] self.batch.contains(x) ==> hosts.contains(x)
        }
    }
}

/// Whether no hub is at these endpoints.
pub open spec fn no_hub_at(
    endpoints: Seq<(Seq<char>, int)>,
    hubs: Set<(Seq<char>, int)>,
) -> bool {
    forall|i: int| 0 <= i < endpoints.len() ==> !hubs.contains(#[trigger] endpoints[i])
}

proof fn the_batch_was_handed_out_last(
    candidates: Seq<Seq<char>>,
    events: Seq<ScanEventModel>,
)
    requires
        scan_trace(candidates, events).last.stage == ScanStage::Endpoints,
    ensures
        ({
            let trace = scan_trace(candidates, events);
            &&& trace.batch.len() <= trace.last.next <= trace.last.hosts.len()
            &&& trace.batch == trace.last.hosts.subrange(
                trace.last.next - trace.batch.len(),
                trace.last.next,
            )
        }),
    decreases events.len(),
{
    let less = events.drop_last();
    let before = scan_trace(candidates, less);
    scan_invariant(candidates, less);
    if before.last.stage == ScanStage::Endpoints {
        the_batch_was_handed_out_last(candidates, less);
    }
}

proof fn endpoints_end_with_the_batch(candidates: Seq<Seq<char>>, events: Seq<ScanEventModel>)
    requires
        scan_trace(candidates, events).last.stage == ScanStage::Endpoints,
    ensures
        ({
            let trace = scan_trace(candidates, events);
            let hosts = scan::merged(trace.last.devices, candidates);
            let ports = (trace.last.port - START_PORT) as nat;
            &&& trace.batch.len() <= trace.endpoints.len()
            &&& trace.earlier() == plan(hosts, ports) + at_port(
                hosts.take(trace.last.next - trace.batch.len()),
                trace.last.port as int,
            )
            &&& trace.endpoints == trace.earlier() + at_port(trace.batch, trace.last.port as int)
            &&& forall|x: Seq<char>| #[trigger] trace.batch.contains(x) ==> hosts.contains(x)
        }),
{
    scan_invariant(candidates, events);
    the_batch_was_handed_out_last(candidates, events);
    let trace = scan_trace(candidates, events);
    let hosts = scan::merged(trace.last.devices, candidates);
    let ports = (trace.last.port - START_PORT) as nat;
    let port = trace.last.port as int;
    let start = trace.last.next - trace.batch.len();
    assert(at_port(hosts.take(trace.last.next), port) =~= at_port(hosts.take(start), port)
        + at_port(trace.batch, port));
    assert(trace.earlier() =~= plan(hosts, ports) + at_port(hosts.take(start), port));
    assert(trace.endpoints =~= trace.earlier() + at_port(trace.batch, port));
    assert forall|x: Seq<char>| #[trigger] trace.batch.contains(x) implies hosts.contains(x) by {
        let i = choose|i: int| 0 <= i < trace.batch.len() && trace.batch[i] == x;
        assert(hosts[start + i] == x);
    }
}

proof fn search_invariant(
    candidates: Seq<Seq<char>>,
    events: Seq<ScanEventModel>,
    hubs: Set<(Seq<char>, int)>,
)
    requires
        truthful(candidates, events, hubs),
    ensures
        scan_trace(candidates, events).searched(candidates, hubs),
    decreases events.len(),
{
    let after = scan_trace(candidates, events);
    if events.len() > 0 {
        let less = events.drop_last();
        let before = scan_trace(candidates, less);
        search_invariant(candidates, less, hubs);
        scan_invariant(candidates, less);
        scan_invariant(candidates, events);
        let hosts = scan::merged(before.last.devices, candidates);
        if before.last.stage == ScanStage::Endpoints {
            endpoints_end_with_the_batch(candidates, less);
            let port = before.last.port as int;
            match events.last() {
                ScanEventModel::EndpointsProbed(None) => {
                    assert(no_hub_at(before.endpoints, hubs)) by {
                        assert forall|i: int| 0 <= i < before.endpoints.len() implies !hubs.contains(
                            #[trigger] before.endpoints[i],
                        ) by {
                            let k = i - before.earlier().len();
                            if k < 0 {
                                assert(before.endpoints[i] == before.earlier()[i]);
                            } else {
                                assert(before.endpoints[i] == (before.batch[k], port));
                                assert(before.batch.contains(before.batch[k]));
                            }
                        }
                    }
                    if after.last.stage == ScanStage::Endpoints {
                        assert(after.earlier() =~= before.endpoints);
                    } else {
                        assert(after.earlier() == before.earlier());
                    }
                },
                ScanEventModel::EndpointsProbed(Some(_)) => {
                    assert(after.earlier() == before.earlier());
                },
                _ => {},
            }
        } else if after.last.stage == ScanStage::Endpoints {
            assert(before.endpoints =~= Seq::empty());
            assert(after.earlier() =~= Seq::empty());
        } else {
            assert(after.endpoints == before.endpoints && after.batch == before.batch);
            assert(after.missed && !before.missed ==> after.endpoints.len() == 0);
        }
    } else {
        assert(after.earlier() =~= Seq::empty());
    }
}

proof fn plan_holds_every_endpoint(hosts: Seq<Seq<char>>, ports: nat, host: Seq<char>, port: int)
    requires
        hosts.contains(host),
        START_PORT <= port < START_PORT + ports,
    ensures
        plan(hosts, ports).contains((host, port)),
    decreases ports,
{
    let before = plan(hosts, (ports - 1) as nat);
    let more = at_port(hosts, START_PORT + ports - 1);
    if port < START_PORT + ports - 1 {
        plan_holds_every_endpoint(hosts, (ports - 1) as nat, host, port);
        let i = choose|i: int| 0 <= i < before.len() && before[i] == (host, port);
        assert((before + more)[i] == (host, port));
    } else {
        let i = choose|i: int| 0 <= i < hosts.len() && hosts[i] == host;
        assert((before + more)[before.len() + i] == (host, port));
    }
}

/// A hub that was found, by answers that are true, is one: its host is of the batch that was
/// handed out last, and so of the hosts of the scan, and its port is one of a hub. No endpoint
/// that was probed before that batch is a hub, and none of the hosts has a hub at a lower port.
pub proof fn a_found_hub_is_the_first_one(
    candidates: Seq<Seq<char>>,
    events: Seq<ScanEventModel>,
    hubs: Set<(Seq<char>, int)>,
    host: Seq<char>,
    port: u16,
)
    requires
        truthful(candidates, events, hubs),
        scan_trace(candidates, events).found == Some((host, port)),
    ensures
        ({
            let trace = scan_trace(candidates, events);
            let hosts = scan::merged(trace.last.devices, candidates);
            &&& START_PORT <= port <= END_PORT
            &&& hubs.contains((host, port as int))
            &&& trace.batch.contains(host)
            &&& hosts.contains(host)
            &&& trace.endpoints == trace.earlier() + at_port(trace.batch, port as int)
            &&& no_hub_at(trace.earlier(), hubs)
            &&& forall|other: Seq<char>, lower: int|
                hosts.contains(other) && START_PORT <= lower < port ==> !#[trigger] hubs.contains(
                    (other, lower),
                )
        }),
{
    search_invariant(candidates, events, hubs);
    let trace = scan_trace(candidates, events);
    let hosts = scan::merged(trace.last.devices, candidates);
    let ports = (port - START_PORT) as nat;
    assert forall|other: Seq<char>, lower: int|
        hosts.contains(other) && START_PORT <= lower < port implies !#[trigger] hubs.contains(
        (other, lower),
    ) by {
        plan_holds_every_endpoint(hosts, ports, other, lower);
        let part = plan(hosts, ports);
        let i = choose|i: int| 0 <= i < part.len() && part[i] == (other, lower);
        assert(trace.earlier()[i] == part[i]);
    }
}

/// A scan that ends without a hub, by answers that are true, has missed none: no host of the scan
/// has one at any of its ports.
pub proof fn a_scan_misses_no_hub(
    candidates: Seq<Seq<char>>,
    events: Seq<ScanEventModel>,
    hubs: Set<(Seq<char>, int)>,
    host: Seq<char>,
    port: int,
)
    requires
        truthful(candidates, events, hubs),
        scan_trace(candidates, events).missed,
        candidates.contains(host),
        START_PORT <= port <= END_PORT,
    ensures
        !hubs.contains((host, port)),
{
    search_invariant(candidates, events, hubs);
    scan_invariant(candidates, events);
    let trace = scan_trace(candidates, events);
    let hosts = scan::merged(trace.last.devices, candidates);
    scan::merging_keeps_both_lists(trace.last.devices, candidates, host);
    plan_holds_every_endpoint(hosts, 4, host, port);
    let i = choose|i: int| 0 <= i < trace.endpoints.len() && trace.endpoints[i] == (host, port);
    assert(!hubs.contains(trace.endpoints[i]));
}

/// Those of the hosts that are up, in their order.
pub open spec fn those_up(hosts: Seq<Seq<char>>, up: Set<Seq<char>>) -> Seq<Seq<char>> {
    hosts.filter(is_up(up))
}

/// What picks the hosts that are up.
pub open spec fn is_up(up: Set<Seq<char>>) -> spec_fn(Seq<char>) -> bool {
    |host: Seq<char>| up.contains(host)
}

/// Whether the answers to the probes of devices are true, where these hosts are up: each batch is
/// answered by those of its hosts that are up, each of them once, in whatever order.
pub open spec fn truthful_devices(
    candidates: Seq<Seq<char>>,
    events: Seq<ScanEventModel>,
    up: Set<Seq<char>>,
) -> bool
    decreases events.len(),
{
    if events.len() == 0 {
        true
    } else {
        let before = scan_trace(candidates, events.drop_last());
        &&& truthful_devices(candidates, events.drop_last(), up)
        &&& before.last.stage == ScanStage::Devices ==> match events.last() {
            ScanEventModel::DevicesProbed(found) => found.to_multiset() == those_up(
                before.device_batch,
                up,
            ).to_multiset(),
            _ => true,
        }
    }
}

impl ScanTrace {
    /// How many candidates are answered for as devices.
    spec fn answered(self) -> int {
        match self.last.stage {
            ScanStage::Ready => 0,
            ScanStage::Devices => self.last.next - self.device_batch.len(),
            _ => self.last.candidates.len() as int,
        }
    }
}

proof fn device_invariant(
    candidates: Seq<Seq<char>>,
    events: Seq<ScanEventModel>,
    up: Set<Seq<char>>,
)
    requires
        truthful_devices(candidates, events, up),
    ensures
        ({
            let trace = scan_trace(candidates, events);
            &&& 0 <= trace.answered() <= candidates.len()
            &&& trace.last.devices.to_multiset() == those_up(
                candidates.take(trace.answered()),
                up,
            ).to_multiset()
            &&& trace.last.stage == ScanStage::Devices ==> trace.device_batch
                == candidates.subrange(trace.answered(), trace.last.next)
        }),
    decreases events.len(),
{
    let trace = scan_trace(candidates, events);
    scan_invariant(candidates, events);
    if events.len() == 0 {
        assert(candidates.take(0) =~= Seq::empty());
        assert(those_up(candidates.take(0), up) =~= Seq::empty()) by {
            reveal(Seq::filter);
        }
        assert(trace.last.devices =~= Seq::empty());
    } else {
        let less = events.drop_last();
        let before = scan_trace(candidates, less);
        device_invariant(candidates, less, up);
        scan_invariant(candidates, less);
        match (before.last.stage, events.last()) {
            (ScanStage::Devices, ScanEventModel::DevicesProbed(found)) => {
                let front = candidates.take(before.answered());
                let batch = before.device_batch;
                assert(front + batch =~= candidates.take(before.last.next));
                Seq::filter_distributes_over_add(front, batch, is_up(up));
                vstd::seq_lib::lemma_multiset_commutative(before.last.devices, found);
                vstd::seq_lib::lemma_multiset_commutative(
                    those_up(front, up),
                    those_up(batch, up),
                );
                assert(trace.last.devices == before.last.devices + found);
                assert(trace.answered() == before.last.next);
            },
            (ScanStage::Ready, ScanEventModel::Started) => {
                assert(trace.last.devices == before.last.devices);
                assert(trace.answered() == 0);
            },
            _ => {
                assert(trace.last.devices == before.last.devices);
                assert(trace.answered() == before.answered());
            },
        }
    }
}

/// When the answers of devices are true, the devices that a scan goes by once all were probed are
/// the candidates that are up, each as often as it is a candidate.
pub proof fn the_devices_are_the_candidates_that_are_up(
    candidates: Seq<Seq<char>>,
    events: Seq<ScanEventModel>,
    up: Set<Seq<char>>,
)
    requires
        truthful_devices(candidates, events, up),
        ({
            let stage = scan_trace(candidates, events).last.stage;
            stage == ScanStage::Endpoints || stage == ScanStage::Done
        }),
    ensures
        scan_trace(candidates, events).last.devices.to_multiset() == those_up(
            candidates,
            up,
        ).to_multiset(),
{
    scan_invariant(candidates, events);
    device_invariant(candidates, events, up);
    assert(candidates.take(candidates.len() as int) =~= candidates);
}

proof fn devices_are_candidates(
    candidates: Seq<Seq<char>>,
    events: Seq<ScanEventModel>,
    up: Set<Seq<char>>,
    host: Seq<char>,
)
    requires
        truthful_devices(candidates, events, up),
        scan_trace(candidates, events).last.devices.contains(host),
    ensures
        candidates.contains(host),
        up.contains(host),
{
    broadcast use vstd::seq_lib::group_to_multiset_ensures;

    device_invariant(candidates, events, up);
    let trace = scan_trace(candidates, events);
    let front = candidates.take(trace.answered());
    assert(trace.last.devices.to_multiset().count(host) > 0);
    assert(those_up(front, up).contains(host));
    front.lemma_filter_contains_rev(is_up(up), host);
    let i = choose|i: int| 0 <= i < those_up(front, up).len() && those_up(front, up)[i] == host;
    front.lemma_filter_pred(is_up(up), i);
    let k = choose|k: int| 0 <= k < front.len() && front[k] == host;
    assert(candidates[k] == host);
}

/// When all answers are true, a hub that was found is at one of the candidates.
pub proof fn a_found_hub_is_at_a_candidate(
    candidates: Seq<Seq<char>>,
    events: Seq<ScanEventModel>,
    up: Set<Seq<char>>,
    hubs: Set<(Seq<char>, int)>,
    host: Seq<char>,
    port: u16,
)
    requires
        truthful_devices(candidates, events, up),
        truthful(candidates, events, hubs),
        scan_trace(candidates, events).found == Some((host, port)),
    ensures
        candidates.contains(host),
        hubs.contains((host, port as int)),
{
    a_found_hub_is_the_first_one(candidates, events, hubs, host, port);
    let devices = scan_trace(candidates, events).last.devices;
    scan::merging_keeps_both_lists(devices, candidates, host);
    if devices.contains(host) {
        devices_are_candidates(candidates, events, up, host);
    }
}

/// When the answers of devices are true and no candidate is named twice, no endpoint is probed
/// twice.
pub proof fn true_answers_lead_to_no_endpoint_twice(
    candidates: Seq<Seq<char>>,
    events: Seq<ScanEventModel>,
    up: Set<Seq<char>>,
)
    requires
        truthful_devices(candidates, events, up),
        candidates.no_duplicates(),
    ensures
        scan_trace(candidates, events).last.devices.no_duplicates(),
        scan_trace(candidates, events).endpoints.no_duplicates(),
{
    device_invariant(candidates, events, up);
    let trace = scan_trace(candidates, events);
    let front = candidates.take(trace.answered());
    filtering_names_no_host_twice(front, up);
    those_up(front, up).lemma_multiset_has_no_duplicates();
    trace.last.devices.lemma_multiset_has_no_duplicates_conv();
    no_endpoint_is_probed_twice(candidates, events);
}

proof fn filtering_names_no_host_twice(hosts: Seq<Seq<char>>, up: Set<Seq<char>>)
    requires
        hosts.no_duplicates(),
    ensures
        those_up(hosts, up).no_duplicates(),
    decreases hosts.len(),
{
    reveal(Seq::filter);
    if hosts.len() > 0 {
        let front = hosts.drop_last();
        filtering_names_no_host_twice(front, up);
        let kept = those_up(front, up);
        assert forall|i: int| 0 <= i < kept.len() implies #[trigger] kept[i] != hosts.last() by {
            front.lemma_filter_contains_rev(is_up(up), kept[i]);
            let k = choose|k: int| 0 <= k < front.len() && front[k] == kept[i];
            assert(hosts[k] != hosts[hosts.len() - 1]);
        }
    }
}

/// Every batch has at least one host, and no more than are probed at a time.
pub proof fn batches_are_bounded(
    candidates: Seq<Seq<char>>,
    events: Seq<ScanEventModel>,
    event: ScanEventModel,
)
    ensures
        match scan_trace(candidates, events).last.step(event).1 {
            ScanActionModel::ProbeDevices(hosts) => 0 < hosts.len() <= DEVICE_CONCURRENCY,
            ScanActionModel::ProbeEndpoints(hosts, port) => 0 < hosts.len()
                <= ENDPOINT_CONCURRENCY && START_PORT <= port <= END_PORT,
            _ => true,
        },
{
    scan_invariant(candidates, events);
}

} // verus!
