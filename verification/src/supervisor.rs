//! The attempts of one connection task: the configured token, the hub's own token, and the
//! local network.
use crate::hub::{
    update_session_endpoint, DghubEvent, Endpoint, EndpointModel, EventModel, Hub, HubModel,
    Status, Task, TaskModel,
};
use crate::mapping::{Config, Mapping, MappingModel};
use vstd::prelude::*;

pub mod laws;

verus! {

/// How far a connection task is.
#[derive(Clone, Copy, Debug, PartialEq, Eq, Structural)]
pub enum SupervisorStage {
    /// The endpoint of the settings is tried.
    First,
    /// It is tried again, with the hub's own token.
    FirstAgain,
    /// The local network is being scanned.
    Scan,
    /// The hub that the scan has found is tried.
    Second,
    /// It is tried again, with the hub's own token.
    SecondAgain,
    /// The task is over.
    Done,
}

impl SupervisorStage {
    /// Whether an attempt at a session is being made.
    pub open spec fn is_attempt(self) -> bool {
        match self {
            SupervisorStage::Scan => false,
            SupervisorStage::Done => false,
            _ => true,
        }
    }
}

/// An attempt at a session.
#[derive(Debug)]
pub struct Attempt {
    pub endpoint: Endpoint,
    pub mapping: Mapping,
}

/// An attempt at a session.
#[verifier::ext_equal]
pub struct AttemptModel {
    pub endpoint: EndpointModel,
    pub mapping: MappingModel,
}

impl View for Attempt {
    type V = AttemptModel;

    open spec fn view(&self) -> AttemptModel {
        AttemptModel { endpoint: self.endpoint@, mapping: self.mapping@ }
    }
}

/// What a connection task does next.
#[derive(Debug)]
pub enum SupervisorAction {
    /// It makes an attempt.
    Run(Attempt),
    /// It scans the local network.
    Scan,
    /// It is over.
    Finish,
    /// Nothing: the event does not belong here.
    Ignore,
}

/// What a connection task does next.
pub enum SupervisorActionModel {
    Run(AttemptModel),
    Scan,
    Finish,
    Ignore,
}

impl View for SupervisorAction {
    type V = SupervisorActionModel;

    open spec fn view(&self) -> SupervisorActionModel {
        match *self {
            SupervisorAction::Run(attempt) => SupervisorActionModel::Run(attempt@),
            SupervisorAction::Scan => SupervisorActionModel::Scan,
            SupervisorAction::Finish => SupervisorActionModel::Finish,
            SupervisorAction::Ignore => SupervisorActionModel::Ignore,
        }
    }
}

/// A connection task that is being run.
#[derive(Debug)]
pub struct Supervisor {
    task: Task,
    connected: bool,
    stage: SupervisorStage,
}

/// A connection task that is being run: where and with which mapping it connects now, whether
/// a hub has accepted it, and how far it is.
#[verifier::ext_equal]
pub struct SupervisorModel {
    pub task: TaskModel,
    pub connected: bool,
    pub stage: SupervisorStage,
}

impl View for Supervisor {
    type V = SupervisorModel;

    closed spec fn view(&self) -> SupervisorModel {
        SupervisorModel { task: self.task@, connected: self.connected, stage: self.stage }
    }
}

/// What happens to a connection task.
pub enum SupervisorEventModel {
    /// A hub has accepted the greeting.
    Accepted,
    /// The attempt is over, well or not.
    RunEnded(bool),
    /// The scan is over; where it has found a hub, and the mapping of the settings then.
    ScanEnded(Option<(Seq<char>, u16)>, MappingModel),
}

/// A step of a connection task: the task after it, what the game is told, what becomes of the
/// session and the status, and what to do next.
pub struct SupervisorStep {
    pub next: SupervisorModel,
    pub told: Seq<EventModel>,
    pub moved: Option<(Seq<char>, u16)>,
    pub status: Option<Status>,
    pub action: SupervisorActionModel,
}

impl SupervisorStep {
    /// The connection, as the game sees it, after the step. The status and the session are those
    /// of the current task: a task that was replaced tells the game what becomes of it and leaves
    /// both as they are.
    pub open spec fn hub<S>(self, hub: HubModel<S>) -> HubModel<S> {
        let told = hub.told(self.told);
        if hub.current != self.next.task.number {
            told
        } else {
            let moved = match self.moved {
                Some((host, port)) => told.moved(host, port),
                None => told,
            };
            match self.status {
                Some(status) => moved.at(status),
                None => moved,
            }
        }
    }
}

/// The reason that the game is told when a connection is over.
pub open spec fn disconnect_reason() -> Seq<char> {
    "连接断开"@
}

impl SupervisorModel {
    /// A connection task of which nothing was done yet.
    pub open spec fn fresh(task: TaskModel) -> SupervisorModel {
        SupervisorModel { task, connected: false, stage: SupervisorStage::First }
    }

    /// The attempt with the token that is set.
    pub open spec fn attempt(self) -> AttemptModel {
        AttemptModel { endpoint: self.task.endpoint, mapping: self.task.mapping }
    }

    /// The attempt with the hub's own token.
    pub open spec fn attempt_again(self) -> AttemptModel {
        AttemptModel {
            endpoint: EndpointModel { token: None, ..self.task.endpoint },
            mapping: self.task.mapping,
        }
    }

    /// A step to a stage that tells the game nothing.
    pub open spec fn quietly(
        self,
        stage: SupervisorStage,
        action: SupervisorActionModel,
    ) -> SupervisorStep {
        SupervisorStep {
            next: SupervisorModel { stage, ..self },
            told: Seq::empty(),
            moved: None,
            status: None,
            action,
        }
    }

    /// The end of the task, after which the game knows of no connection. It is told of the end
    /// of one if there was one.
    pub open spec fn over(self, told: Seq<EventModel>) -> SupervisorStep {
        SupervisorStep {
            next: SupervisorModel { stage: SupervisorStage::Done, ..self },
            told: if self.connected {
                told.push(EventModel::Disconnected(disconnect_reason()))
            } else {
                told
            },
            moved: None,
            status: Some(Status::Idle),
            action: SupervisorActionModel::Finish,
        }
    }

    /// Whether a failed attempt is made again with the hub's own token: when a token was set and
    /// no hub has accepted it.
    pub open spec fn tries_again(self, ok: bool) -> bool {
        !ok && self.task.endpoint.token is Some && !self.connected
    }

    /// The endpoint of the settings was tried as often as it is tried: the local network is
    /// scanned when that failed without a connection and a scan is wanted.
    pub open spec fn first_over(self, ok: bool) -> SupervisorStep {
        if !ok && self.task.scan_on_failure && !self.connected {
            SupervisorStep {
                next: SupervisorModel { stage: SupervisorStage::Scan, ..self },
                told: seq![EventModel::Scanning],
                moved: None,
                status: None,
                action: SupervisorActionModel::Scan,
            }
        } else {
            self.over(Seq::empty())
        }
    }

    /// The hub that the scan has found was tried as often as it is tried.
    pub open spec fn second_over(self) -> SupervisorStep {
        self.over(
            if self.connected {
                Seq::empty()
            } else {
                seq![EventModel::ScanFailed]
            },
        )
    }

    /// What an event does to a connection task.
    pub open spec fn step(self, event: SupervisorEventModel) -> SupervisorStep {
        match event {
            SupervisorEventModel::Accepted => if self.connected || !self.stage.is_attempt() {
                self.quietly(self.stage, SupervisorActionModel::Ignore)
            } else {
                SupervisorStep {
                    next: SupervisorModel { connected: true, ..self },
                    told: seq![
                        EventModel::Connected {
                            host: self.task.endpoint.host,
                            port: self.task.endpoint.port,
                        },
                    ],
                    moved: None,
                    status: Some(Status::Connected),
                    action: SupervisorActionModel::Ignore,
                }
            },
            SupervisorEventModel::RunEnded(ok) => match self.stage {
                SupervisorStage::First => if self.tries_again(ok) {
                    self.quietly(
                        SupervisorStage::FirstAgain,
                        SupervisorActionModel::Run(self.attempt_again()),
                    )
                } else {
                    self.first_over(ok)
                },
                SupervisorStage::FirstAgain => self.first_over(ok),
                SupervisorStage::Second => if self.tries_again(ok) {
                    self.quietly(
                        SupervisorStage::SecondAgain,
                        SupervisorActionModel::Run(self.attempt_again()),
                    )
                } else {
                    self.second_over()
                },
                SupervisorStage::SecondAgain => self.second_over(),
                _ => self.quietly(self.stage, SupervisorActionModel::Ignore),
            },
            SupervisorEventModel::ScanEnded(found, mapping) => if self.stage
                != SupervisorStage::Scan {
                self.quietly(self.stage, SupervisorActionModel::Ignore)
            } else {
                match found {
                    Some((host, port)) => {
                        let task = TaskModel {
                            endpoint: EndpointModel { host, port, ..self.task.endpoint },
                            mapping,
                            ..self.task
                        };
                        let next = SupervisorModel {
                            task,
                            stage: SupervisorStage::Second,
                            ..self
                        };
                        SupervisorStep {
                            next,
                            told: Seq::empty(),
                            moved: Some((host, port)),
                            status: None,
                            action: SupervisorActionModel::Run(next.attempt()),
                        }
                    },
                    None => self.over(seq![EventModel::ScanFailed]),
                }
            },
        }
    }
}

/// Where a scan has found a hub.
pub open spec fn found_model(found: Option<(String, u16)>) -> Option<(Seq<char>, u16)> {
    match found {
        Some((host, port)) => Some((host@, port)),
        None => None,
    }
}

impl Supervisor {
    /// A connection task of which nothing was done yet.
    pub fn new(task: Task) -> (r: Supervisor)
        ensures
            r@ == SupervisorModel::fresh(task@),
    {
        Supervisor { task, connected: false, stage: SupervisorStage::First }
    }

    /// The attempt with the token that is set, which a task makes first.
    pub fn attempt(&self) -> (r: Attempt)
        ensures
            r@ == self@.attempt(),
    {
        Attempt { endpoint: self.task.endpoint.clone(), mapping: self.task.mapping.clone() }
    }

    fn attempt_again(&self) -> (r: Attempt)
        ensures
            r@ == self@.attempt_again(),
    {
        Attempt {
            endpoint: Endpoint {
                host: self.task.endpoint.host.clone(),
                port: self.task.endpoint.port,
                token: None,
            },
            mapping: self.task.mapping.clone(),
        }
    }

    fn over<S>(&mut self, hub: &mut Hub<S>) -> (r: SupervisorAction)
        ensures
            final(self)@ == old(self)@.over(Seq::empty()).next,
            final(hub)@ == old(self)@.over(Seq::empty()).hub(old(hub)@),
            r@ == SupervisorActionModel::Finish,
    {
        if self.connected {
            hub.push_event(DghubEvent::Disconnected("连接断开".to_owned()));
        }
        assert(hub@.events =~= old(self)@.over(Seq::empty()).hub(old(hub)@).events);
        if hub.current == self.task.number {
            hub.status = Status::Idle;
        }
        self.stage = SupervisorStage::Done;
        SupervisorAction::Finish
    }

    fn first_over<S>(&mut self, hub: &mut Hub<S>, ok: bool) -> (r: SupervisorAction)
        ensures
            final(self)@ == old(self)@.first_over(ok).next,
            final(hub)@ == old(self)@.first_over(ok).hub(old(hub)@),
            r@ == old(self)@.first_over(ok).action,
    {
        if !ok && self.task.scan_on_failure && !self.connected {
            hub.push_event(DghubEvent::Scanning);
            self.stage = SupervisorStage::Scan;
            SupervisorAction::Scan
        } else {
            self.over(hub)
        }
    }

    fn second_over<S>(&mut self, hub: &mut Hub<S>) -> (r: SupervisorAction)
        ensures
            final(self)@ == old(self)@.second_over().next,
            final(hub)@ == old(self)@.second_over().hub(old(hub)@),
            r@ == SupervisorActionModel::Finish,
    {
        if !self.connected {
            hub.push_event(DghubEvent::ScanFailed);
        }
        let action = self.over(hub);
        assert(hub@.events =~= old(self)@.second_over().hub(old(hub)@).events);
        action
    }

    /// Takes note that a hub has accepted the greeting, once in a task.
    pub fn on_accepted<S>(&mut self, hub: &mut Hub<S>)
        ensures
            final(self)@ == old(self)@.step(SupervisorEventModel::Accepted).next,
            final(hub)@ == old(self)@.step(SupervisorEventModel::Accepted).hub(old(hub)@),
    {
        let ghost before = hub@;
        assert(before.told(Seq::empty()) =~= before);
        let is_attempt = match self.stage {
            SupervisorStage::Scan => false,
            SupervisorStage::Done => false,
            _ => true,
        };
        if self.connected || !is_attempt {
            return;
        }
        self.connected = true;
        if hub.current == self.task.number {
            hub.status = Status::Connected;
        }
        hub.push_event(
            DghubEvent::Connected {
                host: self.task.endpoint.host.clone(),
                port: self.task.endpoint.port,
            },
        );
    }

    /// Takes the end of an attempt and says what to do next.
    pub fn on_run_ended<S>(&mut self, hub: &mut Hub<S>, ok: bool) -> (r: SupervisorAction)
        ensures
            final(self)@ == old(self)@.step(SupervisorEventModel::RunEnded(ok)).next,
            final(hub)@ == old(self)@.step(SupervisorEventModel::RunEnded(ok)).hub(old(hub)@),
            r@ == old(self)@.step(SupervisorEventModel::RunEnded(ok)).action,
    {
        let ghost before = hub@;
        let tries_again = !ok && self.task.endpoint.token.is_some() && !self.connected;
        assert(before.told(Seq::empty()) =~= before);
        match self.stage {
            SupervisorStage::First => if tries_again {
                self.stage = SupervisorStage::FirstAgain;
                SupervisorAction::Run(self.attempt_again())
            } else {
                self.first_over(hub, ok)
            },
            SupervisorStage::FirstAgain => self.first_over(hub, ok),
            SupervisorStage::Second => if tries_again {
                self.stage = SupervisorStage::SecondAgain;
                SupervisorAction::Run(self.attempt_again())
            } else {
                self.second_over(hub)
            },
            SupervisorStage::SecondAgain => self.second_over(hub),
            _ => SupervisorAction::Ignore,
        }
    }

    /// Takes the end of a scan, with the settings as they are then, and says what to do next.
    pub fn on_scan_ended<S>(
        &mut self,
        hub: &mut Hub<S>,
        found: Option<(String, u16)>,
        cfg: &Config,
    ) -> (r: SupervisorAction)
        ensures
            final(self)@ == old(self)@.step(
                SupervisorEventModel::ScanEnded(
                    found_model(found),
                    crate::mapping::mapping_of_config(*cfg),
                ),
            ).next,
            final(hub)@ == old(self)@.step(
                SupervisorEventModel::ScanEnded(
                    found_model(found),
                    crate::mapping::mapping_of_config(*cfg),
                ),
            ).hub(old(hub)@),
            r@ == old(self)@.step(
                SupervisorEventModel::ScanEnded(
                    found_model(found),
                    crate::mapping::mapping_of_config(*cfg),
                ),
            ).action,
    {
        let ghost before = hub@;
        assert(before.told(Seq::empty()) =~= before);
        if self.stage != SupervisorStage::Scan {
            return SupervisorAction::Ignore;
        }
        match found {
            Some((host, port)) => {
                if hub.current == self.task.number {
                    update_session_endpoint(hub, host.as_str(), port);
                }
                self.task.endpoint.host = host;
                self.task.endpoint.port = port;
                self.task.mapping = Mapping::from_config(cfg);
                self.stage = SupervisorStage::Second;
                SupervisorAction::Run(self.attempt())
            },
            None => {
                hub.push_event(DghubEvent::ScanFailed);
                let action = self.over(hub);
                assert(hub@.events =~= old(self)@.over(seq![EventModel::ScanFailed]).hub(
                    before,
                ).events);
                action
            },
        }
    }
}

/// What came of a connection task: how it stands, what the game was told, the last status that
/// was set, and how often the task was told to make a further attempt and to scan.
pub struct TaskTrace {
    pub last: SupervisorModel,
    pub told: Seq<EventModel>,
    pub status: Option<Status>,
    pub attempts: nat,
    pub scans: nat,
}

/// What comes of a connection task to which these events happen.
pub open spec fn task_trace(task: TaskModel, events: Seq<SupervisorEventModel>) -> TaskTrace
    decreases events.len(),
{
    if events.len() == 0 {
        TaskTrace {
            last: SupervisorModel::fresh(task),
            told: Seq::empty(),
            status: None,
            attempts: 0,
            scans: 0,
        }
    } else {
        let before = task_trace(task, events.drop_last());
        let step = before.last.step(events.last());
        TaskTrace {
            last: step.next,
            told: before.told + step.told,
            status: if step.status is Some {
                step.status
            } else {
                before.status
            },
            attempts: before.attempts + if step.action is Run {
                1nat
            } else {
                0
            },
            scans: before.scans + if step.action is Scan {
                1nat
            } else {
                0
            },
        }
    }
}

impl TaskTrace {
    /// What the game is told of a task, in this order: that the network is scanned, if it was;
    /// then that a hub has accepted the greeting, or else, at the end of a task with a scan,
    /// that the scan has led nowhere; and at the end, that a connection is over, if there was
    /// one.
    pub open spec fn story(self) -> Seq<EventModel> {
        let done = self.last.stage == SupervisorStage::Done;
        let scanning = if self.scans > 0 {
            seq![EventModel::Scanning]
        } else {
            Seq::empty()
        };
        let result = if self.last.connected {
            seq![
                EventModel::Connected {
                    host: self.last.task.endpoint.host,
                    port: self.last.task.endpoint.port,
                },
            ]
        } else if self.scans > 0 && done {
            seq![EventModel::ScanFailed]
        } else {
            Seq::empty()
        };
        let end = if self.last.connected && done {
            seq![EventModel::Disconnected(disconnect_reason())]
        } else {
            Seq::empty()
        };
        scanning + result + end
    }

    /// The status that a task has set: the connection's while it lasts, and none at the end.
    pub open spec fn final_status(self) -> Option<Status> {
        if self.last.stage == SupervisorStage::Done {
            Some(Status::Idle)
        } else if self.last.connected {
            Some(Status::Connected)
        } else {
            None
        }
    }

    /// How many further attempts there can be.
    pub open spec fn attempts_left(self) -> nat {
        match self.last.stage {
            SupervisorStage::First => 3,
            SupervisorStage::FirstAgain => 2,
            SupervisorStage::Scan => 2,
            SupervisorStage::Second => 1,
            SupervisorStage::SecondAgain => 0,
            SupervisorStage::Done => 0,
        }
    }

    /// Whether the count of scans agrees with the stage.
    pub open spec fn scans_agree(self) -> bool {
        match self.last.stage {
            SupervisorStage::First => self.scans == 0,
            SupervisorStage::FirstAgain => self.scans == 0,
            SupervisorStage::Scan => self.scans == 1 && !self.last.connected,
            SupervisorStage::Second => self.scans == 1,
            SupervisorStage::SecondAgain => self.scans == 1,
            SupervisorStage::Done => self.scans <= 1,
        }
    }
}

proof fn task_invariant(task: TaskModel, events: Seq<SupervisorEventModel>)
    ensures
        ({
            let trace = task_trace(task, events);
            &&& trace.scans_agree()
            &&& trace.told == trace.story()
            &&& trace.status == trace.final_status()
            &&& trace.attempts + trace.attempts_left() <= 3
            &&& trace.last.task.endpoint.token == task.endpoint.token
            &&& trace.last.task.scan_on_failure == task.scan_on_failure
            &&& trace.last.task.number == task.number
            &&& trace.scans > 0 ==> task.scan_on_failure
            &&& trace.scans == 0 ==> trace.last.task == task
        }),
    decreases events.len(),
{
    let trace = task_trace(task, events);
    if events.len() > 0 {
        task_invariant(task, events.drop_last());
    }
    assert(trace.told =~= trace.story());
}

/// Whatever happens to a connection task, the game is told one consistent story of it: a
/// connection is announced at most once, and its end exactly when it was announced and the
/// task is over; a scan is announced before anything that comes of it, and its failure exactly
/// when the task is over without a connection.
pub proof fn the_game_is_told_one_story(task: TaskModel, events: Seq<SupervisorEventModel>)
    ensures
        task_trace(task, events).told == task_trace(task, events).story(),
{
    task_invariant(task, events);
}

/// The status that a task sets follows it: it becomes `Connected` with the connection and `Idle`
/// at the end.
pub proof fn the_status_follows_the_task(task: TaskModel, events: Seq<SupervisorEventModel>)
    ensures
        task_trace(task, events).status == task_trace(task, events).final_status(),
{
    task_invariant(task, events);
}

/// A task and the connection, as the game sees it, after these events of the task.
pub open spec fn steps<S>(
    supervisor: SupervisorModel,
    hub: HubModel<S>,
    events: Seq<SupervisorEventModel>,
) -> (SupervisorModel, HubModel<S>)
    decreases events.len(),
{
    if events.len() == 0 {
        (supervisor, hub)
    } else {
        let before = steps(supervisor, hub, events.drop_last());
        let step = before.0.step(events.last());
        (step.next, step.hub(before.1))
    }
}

/// While a task is the current one the game sees its status: that of the connection while there
/// is one, `Idle` at the end, and till then the one at which the task has begun.
pub proof fn the_game_sees_the_current_task<S>(
    task: TaskModel,
    hub: HubModel<S>,
    events: Seq<SupervisorEventModel>,
)
    requires
        hub.current == task.number,
    ensures
        ({
            let (last, after) = steps(SupervisorModel::fresh(task), hub, events);
            let trace = task_trace(task, events);
            &&& last == trace.last
            &&& after.current == hub.current
            &&& after.events == hub.events + trace.story()
            &&& after.status == match trace.final_status() {
                Some(status) => status,
                None => hub.status,
            }
        }),
    decreases events.len(),
{
    task_invariant(task, events);
    if events.len() > 0 {
        the_game_sees_the_current_task(task, hub, events.drop_last());
        task_invariant(task, events.drop_last());
    }
    let after = steps(SupervisorModel::fresh(task), hub, events).1;
    assert(after.events =~= hub.events + task_trace(task, events).told);
}

/// A task that was replaced changes neither the status nor the session, whatever happens to it.
pub proof fn a_replaced_task_changes_neither_status_nor_session<S>(
    supervisor: SupervisorModel,
    hub: HubModel<S>,
    events: Seq<SupervisorEventModel>,
)
    requires
        hub.current != supervisor.task.number,
    ensures
        steps(supervisor, hub, events).1.status == hub.status,
        steps(supervisor, hub, events).1.session == hub.session,
        steps(supervisor, hub, events).1.current == hub.current,
        steps(supervisor, hub, events).0.task.number == supervisor.task.number,
    decreases events.len(),
{
    if events.len() > 0 {
        a_replaced_task_changes_neither_status_nor_session(supervisor, hub, events.drop_last());
    }
}

/// Two tasks and the connection, as the game sees it, after events of the one or of the other: an
/// event comes with whether it is one of the second task.
pub open spec fn steps_of_two<S>(
    first: SupervisorModel,
    second: SupervisorModel,
    hub: HubModel<S>,
    events: Seq<(bool, SupervisorEventModel)>,
) -> (SupervisorModel, SupervisorModel, HubModel<S>)
    decreases events.len(),
{
    if events.len() == 0 {
        (first, second, hub)
    } else {
        let before = steps_of_two(first, second, hub, events.drop_last());
        let (of_second, event) = events.last();
        if of_second {
            let step = before.1.step(event);
            (before.0, step.next, step.hub(before.2))
        } else {
            let step = before.0.step(event);
            (step.next, before.1, step.hub(before.2))
        }
    }
}

/// The events of the second task alone.
pub open spec fn events_of_second(events: Seq<(bool, SupervisorEventModel)>) -> Seq<
    SupervisorEventModel,
>
    decreases events.len(),
{
    if events.len() == 0 {
        Seq::empty()
    } else if events.last().0 {
        events_of_second(events.drop_last()).push(events.last().1)
    } else {
        events_of_second(events.drop_last())
    }
}

/// However the events of a task that was replaced fall between those of the task that has
/// replaced it, the latter, the status and the session are as if the former were not there.
pub proof fn a_replaced_task_does_not_disturb_the_current_one<S>(
    replaced: SupervisorModel,
    current: SupervisorModel,
    hub: HubModel<S>,
    events: Seq<(bool, SupervisorEventModel)>,
)
    requires
        hub.current == current.task.number,
        hub.current != replaced.task.number,
    ensures
        ({
            let (old_task, task, after) = steps_of_two(replaced, current, hub, events);
            let (alone, after_alone) = steps(current, hub, events_of_second(events));
            &&& task == alone
            &&& after.status == after_alone.status
            &&& after.session == after_alone.session
            &&& after.current == hub.current
            &&& after_alone.current == hub.current
            &&& old_task.task.number == replaced.task.number
            &&& task.task.number == current.task.number
        }),
    decreases events.len(),
{
    if events.len() > 0 {
        let less = events.drop_last();
        a_replaced_task_does_not_disturb_the_current_one(replaced, current, hub, less);
        let (of_second, event) = events.last();
        if of_second {
            let own = events_of_second(events);
            assert(own.drop_last() =~= events_of_second(less));
        }
    }
}

/// The end of a connection whose session is being served anew leaves the game waiting for the
/// new one.
pub proof fn reconnecting_survives_the_end_of_the_old_task<S>(
    old_task: SupervisorModel,
    hub: HubModel<S>,
    endpoint: EndpointModel,
    events: Seq<SupervisorEventModel>,
)
    requires
        hub.current == old_task.task.number,
        hub.session is Some,
    ensures
        ({
            let after = steps(old_task, hub.restarted(endpoint), events).1;
            &&& after.status == Status::Connecting
            &&& after.session == hub.restarted(endpoint).session
            &&& after.running_sender() == Some(hub.session->0.sender)
        }),
{
    a_replaced_task_changes_neither_status_nor_session(old_task, hub.restarted(endpoint), events);
}

/// A task makes at most four attempts, the first one included, and at most one scan, and that
/// only when a scan is wanted.
pub proof fn attempts_and_scans_are_bounded(task: TaskModel, events: Seq<SupervisorEventModel>)
    ensures
        1 + task_trace(task, events).attempts <= 4,
        task_trace(task, events).scans <= 1,
        task_trace(task, events).scans > 0 ==> task.scan_on_failure,
{
    task_invariant(task, events);
}

/// Once a hub has accepted the greeting the task tries nothing more: no other token, no scan,
/// no other hub.
pub proof fn a_connected_task_tries_nothing_more(
    task: TaskModel,
    events: Seq<SupervisorEventModel>,
    event: SupervisorEventModel,
)
    requires
        task_trace(task, events).last.connected,
    ensures
        task_trace(task, events).last.step(event).action !is Run,
        task_trace(task, events).last.step(event).action !is Scan,
{
    task_invariant(task, events);
}

/// Every attempt shows the token of the settings or asks the hub for its own, and an attempt
/// shows the token of the settings wherever it is the first one at its place.
pub proof fn attempts_use_the_token_of_the_settings(
    task: TaskModel,
    events: Seq<SupervisorEventModel>,
    event: SupervisorEventModel,
)
    ensures
        task_trace(task, Seq::empty()).last.attempt() == (AttemptModel {
            endpoint: task.endpoint,
            mapping: task.mapping,
        }),
        task_trace(task, events).last.step(event).action matches SupervisorActionModel::Run(
            attempt,
        ) ==> attempt.endpoint.token == if event is ScanEnded {
            task.endpoint.token
        } else {
            None
        },
{
    task_invariant(task, events);
}

/// A task that is over stays over, and tells the game nothing more.
pub proof fn a_finished_task_stays_finished(
    supervisor: SupervisorModel,
    event: SupervisorEventModel,
)
    requires
        supervisor.stage == SupervisorStage::Done,
    ensures
        supervisor.step(event).next == supervisor,
        supervisor.step(event).told.len() == 0,
        supervisor.step(event).status is None,
        supervisor.step(event).action is Ignore,
{
}

} // verus!
