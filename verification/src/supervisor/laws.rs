//! What holds of every connection task, in terms of what happens to it and what it does.
use crate::hub::{EndpointModel, EventModel, HubModel, Status, TaskModel};
use crate::supervisor::{
    self, Attempt, AttemptModel, SupervisorAction, SupervisorActionModel, SupervisorEventModel,
    SupervisorStage, SupervisorStep,
};
use vstd::prelude::*;

verus! {

/// The last thing that a task was told to do. It begins with an attempt at the endpoint and with
/// the mapping that it was given.
pub open spec fn doing(
    task: TaskModel,
    events: Seq<SupervisorEventModel>,
) -> SupervisorActionModel
    decreases events.len(),
{
    if events.len() == 0 {
        SupervisorActionModel::Run(
            AttemptModel { endpoint: task.endpoint, mapping: task.mapping },
        )
    } else {
        let less = events.drop_last();
        let action = supervisor::task_trace(task, less).last.step(events.last()).action;
        if action is Ignore {
            doing(task, less)
        } else {
            action
        }
    }
}

/// Whether a hub has accepted the greeting during an attempt.
pub open spec fn was_accepted(task: TaskModel, events: Seq<SupervisorEventModel>) -> bool
    decreases events.len(),
{
    events.len() > 0 && {
        let less = events.drop_last();
        was_accepted(task, less) || (events.last() is Accepted && doing(task, less) is Run)
    }
}

/// Whether the network was scanned.
pub open spec fn was_scanned(task: TaskModel, events: Seq<SupervisorEventModel>) -> bool
    decreases events.len(),
{
    events.len() > 0 && {
        let less = events.drop_last();
        was_scanned(task, less) || supervisor::task_trace(task, less).last.step(
            events.last(),
        ).action is Scan
    }
}

/// Whether a step tells the game these events, sets this status, moves the session to this place
/// and goes on with this.
pub open spec fn is_step(
    step: SupervisorStep,
    told: Seq<EventModel>,
    status: Option<Status>,
    moved: Option<(Seq<char>, u16)>,
    action: SupervisorActionModel,
) -> bool {
    &&& step.told == told
    &&& step.status == status
    &&& step.moved == moved
    &&& step.action == action
}

/// Whether a step does nothing.
pub open spec fn does_nothing(step: SupervisorStep) -> bool {
    is_step(step, Seq::empty(), None, None, SupervisorActionModel::Ignore)
}

proof fn task_invariant(task: TaskModel, events: Seq<SupervisorEventModel>)
    ensures
        ({
            let last = supervisor::task_trace(task, events).last;
            let own = AttemptModel { endpoint: last.task.endpoint, mapping: last.task.mapping };
            let again = AttemptModel {
                endpoint: EndpointModel { token: None, ..last.task.endpoint },
                mapping: last.task.mapping,
            };
            &&& last.connected == was_accepted(task, events)
            &&& last.task.endpoint.token == task.endpoint.token
            &&& last.task.scan_on_failure == task.scan_on_failure
            &&& match last.stage {
                SupervisorStage::First => doing(task, events) == SupervisorActionModel::Run(own)
                    && !was_scanned(task, events),
                SupervisorStage::FirstAgain => doing(task, events) == SupervisorActionModel::Run(
                    again,
                ) && !was_scanned(task, events),
                SupervisorStage::Scan => doing(task, events) is Scan && was_scanned(task, events)
                    && !was_accepted(task, events),
                SupervisorStage::Second => doing(task, events) == SupervisorActionModel::Run(own)
                    && was_scanned(task, events),
                SupervisorStage::SecondAgain => doing(task, events) == SupervisorActionModel::Run(
                    again,
                ) && was_scanned(task, events),
                SupervisorStage::Done => doing(task, events) is Finish,
            }
        }),
    decreases events.len(),
{
    if events.len() > 0 {
        task_invariant(task, events.drop_last());
    }
}

/// What a task does next, by what it was last told to do and by what happens.
///
/// While it makes an attempt: when the hub accepts the greeting the game is told so, with the place
/// of that attempt, and the status is `Connected`. When the attempt ends after that, the task is
/// over and the game is told so. When it fails before that, it is made again without the token, if
/// it has shown one; else the network is scanned, if that is wanted and was not done yet; else the
/// task is over, and the game is told of a scan that has led nowhere.
///
/// While it scans: a hub that was found is where the session moves to and where the next attempt is
/// made, with the token of the task and the mapping of the settings then; without one the task is
/// over and the game is told that the scan has led nowhere.
///
/// What does not belong there does nothing.
pub proof fn what_a_task_does(
    task: TaskModel,
    events: Seq<SupervisorEventModel>,
    event: SupervisorEventModel,
)
    ensures
        ({
            let step = supervisor::task_trace(task, events).last.step(event);
            match doing(task, events) {
                SupervisorActionModel::Run(attempt) => match event {
                    SupervisorEventModel::Accepted => if was_accepted(task, events) {
                        does_nothing(step)
                    } else {
                        is_step(
                            step,
                            seq![
                                EventModel::Connected {
                                    host: attempt.endpoint.host,
                                    port: attempt.endpoint.port,
                                },
                            ],
                            Some(Status::Connected),
                            None,
                            SupervisorActionModel::Ignore,
                        )
                    },
                    SupervisorEventModel::RunEnded(ok) => if was_accepted(task, events) {
                        is_step(
                            step,
                            seq![EventModel::Disconnected("连接断开"@)],
                            Some(Status::Idle),
                            None,
                            SupervisorActionModel::Finish,
                        )
                    } else if !ok && attempt.endpoint.token is Some {
                        is_step(
                            step,
                            Seq::empty(),
                            None,
                            None,
                            SupervisorActionModel::Run(
                                AttemptModel {
                                    endpoint: EndpointModel {
                                        host: attempt.endpoint.host,
                                        port: attempt.endpoint.port,
                                        token: None,
                                    },
                                    mapping: attempt.mapping,
                                },
                            ),
                        )
                    } else if was_scanned(task, events) {
                        is_step(
                            step,
                            seq![EventModel::ScanFailed],
                            Some(Status::Idle),
                            None,
                            SupervisorActionModel::Finish,
                        )
                    } else if !ok && task.scan_on_failure {
                        is_step(
                            step,
                            seq![EventModel::Scanning],
                            None,
                            None,
                            SupervisorActionModel::Scan,
                        )
                    } else {
                        is_step(
                            step,
                            Seq::empty(),
                            Some(Status::Idle),
                            None,
                            SupervisorActionModel::Finish,
                        )
                    },
                    SupervisorEventModel::ScanEnded(_, _) => does_nothing(step),
                },
                SupervisorActionModel::Scan => match event {
                    SupervisorEventModel::ScanEnded(Some((host, port)), mapping) => is_step(
                        step,
                        Seq::empty(),
                        None,
                        Some((host, port)),
                        SupervisorActionModel::Run(
                            AttemptModel {
                                endpoint: EndpointModel { host, port, token: task.endpoint.token },
                                mapping,
                            },
                        ),
                    ),
                    SupervisorEventModel::ScanEnded(None, _) => is_step(
                        step,
                        seq![EventModel::ScanFailed],
                        Some(Status::Idle),
                        None,
                        SupervisorActionModel::Finish,
                    ),
                    _ => does_nothing(step),
                },
                SupervisorActionModel::Finish => does_nothing(step),
                SupervisorActionModel::Ignore => false,
            }
        }),
{
    task_invariant(task, events);
    let step = supervisor::task_trace(task, events).last.step(event);
    assert(Seq::<EventModel>::empty().push(EventModel::Disconnected("连接断开"@)) =~= seq![
        EventModel::Disconnected("连接断开"@),
    ]);
}

/// Whenever a task that was not yet accepted is making an attempt, the hub's acceptance makes it
/// connected: the game sees the status 2 and is told the place of that attempt.
pub proof fn every_attempt_may_be_accepted<S>(
    task: TaskModel,
    events: Seq<SupervisorEventModel>,
    hub: HubModel<S>,
    attempt: AttemptModel,
)
    requires
        doing(task, events) == SupervisorActionModel::Run(attempt),
        !was_accepted(task, events),
        hub.current == task.number,
    ensures
        ({
            let step = supervisor::task_trace(task, events).last.step(
                SupervisorEventModel::Accepted,
            );
            let after = step.hub(hub);
            &&& was_accepted(task, events.push(SupervisorEventModel::Accepted))
            &&& step.next.connected
            &&& after.status == Status::Connected
            &&& after.status.number() == 2
            &&& after.events == hub.events.push(
                EventModel::Connected {
                    host: attempt.endpoint.host,
                    port: attempt.endpoint.port,
                },
            )
            &&& after.session == hub.session
        }),
{
    task_invariant(task, events);
    what_a_task_does(task, events, SupervisorEventModel::Accepted);
    number_stays(task, events);
    assert(events.push(SupervisorEventModel::Accepted).drop_last() =~= events);
}

proof fn number_stays(task: TaskModel, events: Seq<SupervisorEventModel>)
    ensures
        supervisor::task_trace(task, events).last.task.number == task.number,
    decreases events.len(),
{
    if events.len() > 0 {
        number_stays(task, events.drop_last());
    }
}

/// What the game sees of a step: it is told the events of the step, in their order and after those
/// that it was told before. Of the current task it sees the status, and its session moves to the
/// place that was found, with its token and its sender; a task that was replaced changes neither.
pub proof fn what_the_game_sees_of_a_step<S>(step: SupervisorStep, hub: HubModel<S>)
    ensures
        ({
            let after = step.hub(hub);
            let current = hub.current == step.next.task.number;
            &&& after.events == hub.events + step.told
            &&& after.current == hub.current
            &&& after.status == if current && step.status is Some {
                step.status->0
            } else {
                hub.status
            }
            &&& !current || step.moved is None ==> after.session == hub.session
            &&& hub.session is None ==> after.session is None
            &&& current && step.moved is Some && hub.session is Some ==> {
                let (host, port) = step.moved->0;
                &&& after.session is Some
                &&& after.session->0.endpoint.host == host
                &&& after.session->0.endpoint.port == port
                &&& after.session->0.endpoint.token == hub.session->0.endpoint.token
                &&& after.session->0.sender == hub.session->0.sender
            }
        }),
{
}

/// Actions and attempts are what they say.
pub proof fn actions_are_what_they_say(attempt: Attempt)
    ensures
        SupervisorAction::Run(attempt)@ == SupervisorActionModel::Run(attempt@),
        SupervisorAction::Scan@ == SupervisorActionModel::Scan,
        SupervisorAction::Finish@ == SupervisorActionModel::Finish,
        SupervisorAction::Ignore@ == SupervisorActionModel::Ignore,
        attempt@.endpoint.host == attempt.endpoint.host@,
        attempt@.endpoint.port == attempt.endpoint.port,
        attempt@.endpoint.token is Some <==> attempt.endpoint.token is Some,
        attempt.endpoint.token matches Some(token) ==> attempt@.endpoint.token == Some(token@),
        attempt@.mapping == attempt.mapping@,
{
}

/// Where a scan has found a hub is what it says.
pub proof fn found_places_are_what_they_say(host: String, port: u16)
    ensures
        supervisor::found_model(Some((host, port))) == Some((host@, port)),
        supervisor::found_model(None) is None,
{
}

/// An attempt of a task that was just made is at the endpoint of the task, with its mapping.
pub proof fn a_task_begins_at_its_endpoint(task: TaskModel)
    ensures
        supervisor::SupervisorModel::fresh(task).attempt() == (AttemptModel {
            endpoint: task.endpoint,
            mapping: task.mapping,
        }),
        !supervisor::SupervisorModel::fresh(task).connected,
{
}

} // verus!
