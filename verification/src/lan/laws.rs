//! What holds of every scan, in terms of what it probes and what has answered.
use crate::lan::{self, ScanAction, ScanActionModel, ScanEvent, ScanEventModel, ScanStage};
use crate::scan;
use vstd::prelude::*;

verus! {

/// Events and actions are what they say.
pub proof fn events_and_actions_are_what_they_say(
    hosts: Vec<String>,
    host: String,
    port: u16,
    i: int,
)
    ensures
        scan::texts(hosts@).len() == hosts@.len(),
        0 <= i < hosts@.len() ==> scan::texts(hosts@)[i] == hosts@[i]@,
        ScanEvent::Started@ == ScanEventModel::Started,
        ScanEvent::DevicesProbed(hosts)@ == ScanEventModel::DevicesProbed(scan::texts(hosts@)),
        ScanEvent::EndpointsProbed(Some(host))@ == ScanEventModel::EndpointsProbed(Some(host@)),
        ScanEvent::EndpointsProbed(None)@ == ScanEventModel::EndpointsProbed(None),
        ScanAction::ProbeDevices(hosts)@ == ScanActionModel::ProbeDevices(scan::texts(hosts@)),
        ScanAction::ProbeEndpoints(hosts, port)@ == ScanActionModel::ProbeEndpoints(
            scan::texts(hosts@),
            port,
        ),
        ScanAction::Found(host, port)@ == ScanActionModel::Found(host@, port),
        ScanAction::NotFound@ == ScanActionModel::NotFound,
        ScanAction::Ignore@ == ScanActionModel::Ignore,
{
}

/// The last thing that a scan was told to do.
pub open spec fn doing(
    candidates: Seq<Seq<char>>,
    events: Seq<ScanEventModel>,
) -> Option<ScanActionModel>
    decreases events.len(),
{
    if events.len() == 0 {
        None
    } else {
        let less = events.drop_last();
        let (_next, action) = lan::scan_trace(candidates, less).last.step(events.last());
        if action is Ignore {
            doing(candidates, less)
        } else {
            Some(action)
        }
    }
}

proof fn doing_shows_the_stage(candidates: Seq<Seq<char>>, events: Seq<ScanEventModel>)
    ensures
        ({
            let last = lan::scan_trace(candidates, events).last;
            let doing = doing(candidates, events);
            match last.stage {
                ScanStage::Ready => doing is None,
                ScanStage::Devices => doing is Some && doing->0 is ProbeDevices,
                ScanStage::Endpoints => doing matches Some(
                    ScanActionModel::ProbeEndpoints(_, port),
                ) && port == last.port,
                ScanStage::Done => doing is Some && (doing->0 is Found || doing->0 is NotFound),
            }
        }),
    decreases events.len(),
{
    if events.len() > 0 {
        doing_shows_the_stage(candidates, events.drop_last());
    }
}

/// Where a batch of at most `size` hosts ends that begins at `from`.
pub open spec fn batch_end(from: int, size: int, len: int) -> int {
    if from + size <= len {
        from + size
    } else {
        len
    }
}

/// What a scan does next, by what it was last told to do and by what happens: it probes the
/// candidates as devices, 32 at a time and in their order, and takes note of those that answer, in
/// the order of their answers; then it probes endpoints, 64 at a time and first at port 8000, those
/// of the devices that have answered before the others. The first endpoint that answers is what it
/// has found, at the port at which it was probed; when none answers it goes on, and has found
/// nothing when all were probed. What does not belong there is ignored.
pub proof fn what_a_scan_does(
    candidates: Seq<Seq<char>>,
    events: Seq<ScanEventModel>,
    event: ScanEventModel,
)
    ensures
        ({
            let trace = lan::scan_trace(candidates, events);
            let (next, action) = trace.last.step(event);
            match doing(candidates, events) {
                None => action == if !(event is Started) {
                    ScanActionModel::Ignore
                } else if candidates.len() == 0 {
                    ScanActionModel::NotFound
                } else {
                    ScanActionModel::ProbeDevices(
                        candidates.subrange(0, batch_end(0, 32, candidates.len() as int)),
                    )
                },
                Some(ScanActionModel::ProbeDevices(_)) => match event {
                    ScanEventModel::DevicesProbed(found) => {
                        let hosts = scan::merged(trace.last.devices + found, candidates);
                        let asked = trace.devices.len() as int;
                        &&& next.devices == trace.last.devices + found
                        &&& action == if asked < candidates.len() {
                            ScanActionModel::ProbeDevices(
                                candidates.subrange(
                                    asked,
                                    batch_end(asked, 32, candidates.len() as int),
                                ),
                            )
                        } else if hosts.len() > 0 {
                            ScanActionModel::ProbeEndpoints(
                                hosts.subrange(0, batch_end(0, 64, hosts.len() as int)),
                                8000,
                            )
                        } else {
                            ScanActionModel::NotFound
                        }
                    },
                    _ => action is Ignore,
                },
                Some(ScanActionModel::ProbeEndpoints(_, port)) => match event {
                    ScanEventModel::EndpointsProbed(Some(host)) => action == ScanActionModel::Found(
                        host,
                        port,
                    ),
                    ScanEventModel::EndpointsProbed(None) => {
                        &&& next.devices == trace.last.devices
                        &&& action is ProbeEndpoints || action is NotFound
                        &&& action is NotFound ==> trace.endpoints == lan::whole_plan(next)
                    },
                    _ => action is Ignore,
                },
                Some(_) => action is Ignore,
            }
        }),
{
    doing_shows_the_stage(candidates, events);
    lan::scan_invariant(candidates, events);
    let trace = lan::scan_trace(candidates, events);
    let after = lan::scan_trace(candidates, events.push(event));
    assert(events.push(event).drop_last() =~= events);
    lan::scan_invariant(candidates, events.push(event));
    if trace.last.stage == ScanStage::Ready && candidates.len() == 0 {
        assert(trace.last.devices =~= Seq::empty());
        assert(candidates =~= Seq::empty());
    }
}

/// The plan of a scan names every host at every port from 8000 to 8003, port after port and at each
/// port in the order of the hosts.
pub proof fn the_plan_goes_port_by_port(hosts: Seq<Seq<char>>, i: int)
    requires
        0 <= i < hosts.len(),
    ensures
        lan::plan(hosts, 4).len() == 4 * hosts.len(),
        lan::plan(hosts, 4)[i] == (hosts[i], 8000int),
        lan::plan(hosts, 4)[hosts.len() + i] == (hosts[i], 8001int),
        lan::plan(hosts, 4)[2 * hosts.len() + i] == (hosts[i], 8002int),
        lan::plan(hosts, 4)[3 * hosts.len() + i] == (hosts[i], 8003int),
{
    reveal_with_fuel(lan::plan, 5);
}

} // verus!
