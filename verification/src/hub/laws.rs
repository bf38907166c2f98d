//! What holds of the connection as the game sees it, in terms of what was asked of it.
use crate::hub::{
    self, DghubEvent, Endpoint, EndpointModel, EventModel, Hub, HubModel, SessionModel, Status,
    Task,
};
use crate::mapping::Config;
use crate::text;
use vstd::prelude::*;

verus! {

/// The numbers by which the game knows the status.
pub proof fn the_numbers_of_the_status()
    ensures
        Status::Idle.number() == 0,
        Status::Connecting.number() == 1,
        Status::Connected.number() == 2,
{
}

/// Events are what they say.
pub proof fn events_are_what_they_say(host: String, port: u16, reason: String)
    ensures
        DghubEvent::Scanning@ == EventModel::Scanning,
        (DghubEvent::Connected { host, port })@ == (EventModel::Connected { host: host@, port }),
        DghubEvent::Disconnected(reason)@ == EventModel::Disconnected(reason@),
        DghubEvent::ScanFailed@ == EventModel::ScanFailed,
{
}

/// The connection is what it holds: its events in their order, its status, its session with the
/// endpoint and the sender, and the number of its current task.
pub proof fn a_connection_is_what_it_holds<S>(hub: Hub<S>, task: Task, i: int)
    ensures
        hub@.events.len() == hub.events@.len(),
        0 <= i < hub.events@.len() ==> hub@.events[i] == hub.events@[i]@,
        hub@.status == hub.status,
        hub@.current == hub.current,
        hub@.session is Some <==> hub.session is Some,
        hub.session matches Some(session) ==> {
            &&& hub@.session->0.sender == session.sender
            &&& is_endpoint(hub@.session->0.endpoint, session.endpoint)
        },
        is_endpoint(task@.endpoint, task.endpoint),
        task@.number == task.number,
        task@.scan_on_failure == task.scan_on_failure,
        task@.mapping == task.mapping@,
{
}

/// Whether a model is that of an endpoint: its host, its port and its token, if it has one.
pub open spec fn is_endpoint(model: EndpointModel, endpoint: Endpoint) -> bool {
    &&& model.host == endpoint.host@
    &&& model.port == endpoint.port
    &&& match endpoint.token {
        Some(token) => model.token == Some(token@),
        None => model.token is None,
    }
}

/// The endpoint of the settings is at their host and port, with their token without white space
/// around it, and without one when no other character is left.
pub proof fn the_settings_name_the_endpoint(cfg: Config)
    ensures
        hub::configured_endpoint(cfg).host == cfg.host@,
        hub::configured_endpoint(cfg).port == cfg.port,
        (forall|i: int|
            0 <= i < cfg.token@.len() ==> text::is_white_code(
                (#[trigger] cfg.token@[i]) as u32 as int,
            )) ==> hub::configured_endpoint(cfg).token is None,
        hub::configured_endpoint(cfg).token matches Some(token) ==> token.len() > 0
            && text::is_stripped(
            cfg.token@,
            token,
            |c: char| text::is_white_code(c as u32 as int),
        ),
        hub::configured_endpoint(cfg).token is None ==> forall|i: int|
            0 <= i < cfg.token@.len() ==> text::is_white_code(
                (#[trigger] cfg.token@[i]) as u32 as int,
            ),
{
    let given = cfg.token@;
    let white = |c: char| text::is_white_code(c as u32 as int);
    text::trimming_takes_white_space_off_the_ends(given);
    let left = text::trimmed(given);
    let (i, j) = choose|i: int, j: int|
        #![trigger given.subrange(i, j)]
        {
            &&& 0 <= i <= j <= given.len()
            &&& left == given.subrange(i, j)
            &&& forall|k: int| 0 <= k < given.len() && !(i <= k < j) ==> white(#[trigger] given[k])
            &&& i < j ==> !white(given[i]) && !white(given[j - 1])
        };
    assert(left.len() == j - i);
    if left.len() == 0 {
        assert forall|k: int| 0 <= k < given.len() implies text::is_white_code(
            (#[trigger] given[k]) as u32 as int,
        ) by {
            assert(white(given[k]));
        }
    } else {
        assert(!white(given[i]));
        assert(!text::is_white_code(given[i] as u32 as int));
    }
}

/// A session is running exactly when there is one and the status is not `Idle`, and then with its
/// own sender.
pub proof fn a_session_runs_unless_idle<S>(hub: HubModel<S>)
    ensures
        hub.running_sender() is Some <==> hub.session is Some && hub.status != Status::Idle,
        hub.running_sender() matches Some(sender) ==> sender == hub.session->0.sender,
{
}

/// A new session: the game sees it connecting, at its endpoint and with its sender; what the game
/// was told stays.
pub proof fn a_new_session_is_connecting<S>(hub: HubModel<S>, endpoint: EndpointModel, sender: S)
    ensures
        hub.opened(endpoint, sender).events == hub.events,
        hub.opened(endpoint, sender).status == Status::Connecting,
        hub.opened(endpoint, sender).session == Some(SessionModel { endpoint, sender }),
        hub.opened(endpoint, sender).current != hub.current,
{
}

/// A session that is served anew: the game sees it connecting, at the new endpoint and with the
/// sender that it has; what the game was told stays.
pub proof fn a_restarted_session_is_connecting<S>(hub: HubModel<S>, endpoint: EndpointModel)
    ensures
        hub.restarted(endpoint).events == hub.events,
        hub.restarted(endpoint).status == Status::Connecting,
        hub.restarted(endpoint).current != hub.current,
        hub.session is None ==> hub.restarted(endpoint).session is None,
        hub.session matches Some(session) ==> hub.restarted(endpoint).session == Some(
            SessionModel { endpoint, sender: session.sender },
        ),
{
}

/// A session that is moved changes its host and its port, and nothing else of the connection.
pub proof fn a_moved_session_changes_its_place<S>(hub: HubModel<S>, host: Seq<char>, port: u16)
    ensures
        hub.moved(host, port).events == hub.events,
        hub.moved(host, port).status == hub.status,
        hub.moved(host, port).current == hub.current,
        hub.session is None ==> hub.moved(host, port).session is None,
        hub.session matches Some(session) ==> hub.moved(host, port).session == Some(
            SessionModel {
                endpoint: EndpointModel { host, port, token: session.endpoint.token },
                sender: session.sender,
            },
        ),
{
}

/// Telling the game something adds it after what it was told, and changes nothing else.
pub proof fn telling_adds_at_the_end<S>(hub: HubModel<S>, event: EventModel, events: Seq<EventModel>)
    ensures
        hub.told(seq![event]).events == hub.events.push(event),
        hub.told(events).events.len() == hub.events.len() + events.len(),
        hub.told(events).status == hub.status,
        hub.told(events).session == hub.session,
        hub.told(events).current == hub.current,
{
    assert(hub.events + seq![event] =~= hub.events.push(event));
}

/// The connection after this many new tasks.
pub open spec fn after_tasks<S>(hub: HubModel<S>, tasks: nat) -> HubModel<S>
    decreases tasks,
{
    if tasks == 0 {
        hub
    } else {
        after_tasks(hub, (tasks - 1) as nat).renumbered()
    }
}

/// The number of a task does not come again: however many tasks replace one another, the current
/// one has another number than each of those before it, as long as there are numbers left.
pub proof fn numbers_do_not_come_again<S>(hub: HubModel<S>, tasks: nat)
    requires
        hub.current + tasks <= u64::MAX,
    ensures
        after_tasks(hub, tasks).current == hub.current + tasks,
        tasks > 0 ==> after_tasks(hub, tasks).current != hub.current,
    decreases tasks,
{
    if tasks > 0 {
        numbers_do_not_come_again(hub, (tasks - 1) as nat);
    }
}

/// A new session and a session that is served anew each take the next number.
pub proof fn every_task_takes_the_next_number<S>(
    hub: HubModel<S>,
    endpoint: EndpointModel,
    sender: S,
)
    ensures
        hub.opened(endpoint, sender).current == after_tasks(hub, 1).current,
        hub.restarted(endpoint).current == after_tasks(hub, 1).current,
{
    reveal_with_fuel(after_tasks, 2);
}

} // verus!
