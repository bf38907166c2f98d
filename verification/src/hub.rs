//! The connection to the hub as the game sees it: its status, its events and its session.
use crate::mapping::{Config, Mapping, MappingModel};
use crate::text;
use crate::token::normalize_token;
use vstd::prelude::*;

pub mod laws;

verus! {

/// What the game is told of the connection.
#[derive(Clone, Debug)]
pub enum DghubEvent {
    /// The local network is being scanned for a hub.
    Scanning,
    /// A hub has accepted the greeting.
    Connected { host: String, port: u16 },
    /// The connection is over, for this reason.
    Disconnected(String),
    /// The scan has led to no connection.
    ScanFailed,
}

/// What the game is told of the connection.
pub enum EventModel {
    Scanning,
    Connected { host: Seq<char>, port: u16 },
    Disconnected(Seq<char>),
    ScanFailed,
}

impl View for DghubEvent {
    type V = EventModel;

    open spec fn view(&self) -> EventModel {
        match *self {
            DghubEvent::Scanning => EventModel::Scanning,
            DghubEvent::Connected { host, port } => EventModel::Connected { host: host@, port },
            DghubEvent::Disconnected(reason) => EventModel::Disconnected(reason@),
            DghubEvent::ScanFailed => EventModel::ScanFailed,
        }
    }
}

/// Events in their order.
pub open spec fn event_models(events: Seq<DghubEvent>) -> Seq<EventModel> {
    Seq::new(events.len(), |i: int| events[i]@)
}

/// How far the connection is.
#[derive(Clone, Copy, Debug, PartialEq, Eq, Structural)]
pub enum Status {
    Idle,
    Connecting,
    Connected,
}

impl Status {
    /// The number by which the game knows the status.
    pub open spec fn number(self) -> u8 {
        match self {
            Status::Idle => 0,
            Status::Connecting => 1,
            Status::Connected => 2,
        }
    }
}

/// Where a hub is and the token to show it, if one is set.
#[derive(Debug)]
pub struct Endpoint {
    pub host: String,
    pub port: u16,
    pub token: Option<String>,
}

/// Where a hub is and the token to show it, if one is set.
#[verifier::ext_equal]
pub struct EndpointModel {
    pub host: Seq<char>,
    pub port: u16,
    pub token: Option<Seq<char>>,
}

/// An optional text by its characters.
pub open spec fn option_text(text: Option<String>) -> Option<Seq<char>> {
    match text {
        Some(t) => Some(t@),
        None => None,
    }
}

impl View for Endpoint {
    type V = EndpointModel;

    open spec fn view(&self) -> EndpointModel {
        EndpointModel { host: self.host@, port: self.port, token: option_text(self.token) }
    }
}

impl Clone for Endpoint {
    fn clone(&self) -> (r: Self)
        ensures
            r@ == self@,
    {
        Endpoint {
            host: self.host.clone(),
            port: self.port,
            token: match &self.token {
                Some(token) => Some(token.clone()),
                None => None,
            },
        }
    }
}

/// The endpoint that the settings of the game name.
pub open spec fn configured_endpoint(cfg: Config) -> EndpointModel {
    EndpointModel {
        host: cfg.host@,
        port: cfg.port,
        token: if text::trimmed(cfg.token@).len() == 0 {
            None
        } else {
            Some(text::trimmed(cfg.token@))
        },
    }
}

impl Endpoint {
    /// The endpoint that the settings of the game name.
    pub fn from_config(cfg: &Config) -> (r: Endpoint)
        ensures
            r@ == configured_endpoint(*cfg),
    {
        Endpoint {
            host: cfg.host.clone(),
            port: cfg.port,
            token: normalize_token(cfg.token.as_str()),
        }
    }
}

/// A session: where it goes, and the sender through which the game hands it hits.
#[derive(Debug)]
pub struct DghubSession<S> {
    pub endpoint: Endpoint,
    pub sender: S,
}

/// The connection as the game sees it. Of the connection tasks that were handed out only the one
/// with the number `current` counts; one with another number was replaced.
#[derive(Debug)]
pub struct Hub<S> {
    pub events: Vec<DghubEvent>,
    pub status: Status,
    pub session: Option<DghubSession<S>>,
    pub current: u64,
}

/// A session: where it goes, and the sender through which the game hands it hits.
#[verifier::ext_equal]
pub struct SessionModel<S> {
    pub endpoint: EndpointModel,
    pub sender: S,
}

/// The connection as the game sees it.
#[verifier::ext_equal]
pub struct HubModel<S> {
    pub events: Seq<EventModel>,
    pub status: Status,
    pub session: Option<SessionModel<S>>,
    pub current: u64,
}

impl<S> View for Hub<S> {
    type V = HubModel<S>;

    open spec fn view(&self) -> HubModel<S> {
        HubModel {
            events: event_models(self.events@),
            status: self.status,
            session: match self.session {
                Some(session) => Some(
                    SessionModel { endpoint: session.endpoint@, sender: session.sender },
                ),
                None => None,
            },
            current: self.current,
        }
    }
}

/// The number of the task after the one with a number. Numbers begin again after the last one.
pub open spec fn next_number(number: u64) -> u64 {
    if number == u64::MAX {
        0
    } else {
        (number + 1) as u64
    }
}

impl<S> HubModel<S> {
    /// The connection with a new task, which replaces the one before.
    pub open spec fn renumbered(self) -> HubModel<S> {
        HubModel { current: next_number(self.current), ..self }
    }

    /// The connection with a new session, and the task that is to serve it.
    pub open spec fn opened(self, endpoint: EndpointModel, sender: S) -> HubModel<S> {
        HubModel {
            status: Status::Connecting,
            session: Some(SessionModel { endpoint, sender }),
            ..self
        }.renumbered()
    }

    /// The connection whose session, if there is one, is served anew at an endpoint.
    pub open spec fn restarted(self, endpoint: EndpointModel) -> HubModel<S> {
        self.redirected(endpoint).at(Status::Connecting).renumbered()
    }

    /// The connection after more events.
    pub open spec fn told(self, events: Seq<EventModel>) -> HubModel<S> {
        HubModel { events: self.events + events, ..self }
    }

    /// The connection at another status.
    pub open spec fn at(self, status: Status) -> HubModel<S> {
        HubModel { status, ..self }
    }

    /// The connection with its session, if there is one, at another place.
    pub open spec fn moved(self, host: Seq<char>, port: u16) -> HubModel<S> {
        HubModel {
            session: match self.session {
                Some(session) => Some(
                    SessionModel {
                        endpoint: EndpointModel { host, port, ..session.endpoint },
                        ..session
                    },
                ),
                None => None,
            },
            ..self
        }
    }

    /// The connection with its session, if there is one, at another endpoint.
    pub open spec fn redirected(self, endpoint: EndpointModel) -> HubModel<S> {
        HubModel {
            session: match self.session {
                Some(session) => Some(SessionModel { endpoint, ..session }),
                None => None,
            },
            ..self
        }
    }

    /// The sender of a session that is running.
    pub open spec fn running_sender(self) -> Option<S> {
        if self.status == Status::Idle {
            None
        } else {
            match self.session {
                Some(session) => Some(session.sender),
                None => None,
            }
        }
    }
}

impl<S> Hub<S> {
    /// No connection, no session and nothing to tell.
    pub fn new() -> (r: Hub<S>)
        ensures
            r@ == (HubModel::<S> {
                events: Seq::empty(),
                status: Status::Idle,
                session: None,
                current: 0,
            }),
    {
        let hub = Hub { events: Vec::new(), status: Status::Idle, session: None, current: 0 };
        assert(hub@.events =~= Seq::empty());
        hub
    }

    /// Adds an event for the game.
    pub fn push_event(&mut self, event: DghubEvent)
        ensures
            final(self)@ == old(self)@.told(seq![event@]),
    {
        let ghost before = self@.events;
        self.events.push(event);
        assert(self@.events =~= before + seq![event@]);
    }

    /// Numbers a new task, which replaces the one before.
    fn renumber(&mut self) -> (r: u64)
        ensures
            final(self)@ == old(self)@.renumbered(),
            r == final(self)@.current,
    {
        self.current = if self.current == u64::MAX {
            0
        } else {
            self.current + 1
        };
        self.current
    }
}

/// Takes all events that are waiting.
pub fn drain_events<S>(hub: &mut Hub<S>) -> (r: Vec<DghubEvent>)
    ensures
        event_models(r@) == old(hub)@.events,
        final(hub)@ == (HubModel { events: Seq::empty(), ..old(hub)@ }),
{
    let mut events: Vec<DghubEvent> = Vec::new();
    std::mem::swap(&mut events, &mut hub.events);
    assert(hub@.events =~= Seq::empty());
    events
}

/// The status of the connection: 0 without one, 1 while connecting, 2 when connected.
pub fn connection_status<S>(hub: &Hub<S>) -> (r: u8)
    ensures
        r == hub@.status.number(),
{
    match hub.status {
        Status::Idle => 0,
        Status::Connecting => 1,
        Status::Connected => 2,
    }
}

/// The sender of the session, if it is running.
pub fn handle_from_session<S>(hub: &Hub<S>) -> (r: Option<&S>)
    ensures
        (match r {
            Some(sender) => hub@.running_sender() == Some(*sender),
            None => hub@.running_sender() is None,
        }),
{
    if connection_status(hub) == 0 {
        return None;
    }
    match &hub.session {
        Some(session) => Some(&session.sender),
        None => None,
    }
}

/// Moves the session to the place where a hub was found.
pub fn update_session_endpoint<S>(hub: &mut Hub<S>, host: &str, port: u16)
    ensures
        final(hub)@ == old(hub)@.moved(host@, port),
{
    if let Some(session) = &mut hub.session {
        session.endpoint.host = host.to_owned();
        session.endpoint.port = port;
    }
}

/// Gives up the session when nobody holds its sender any more.
pub fn release<S>(hub: &mut Hub<S>, held: bool)
    ensures
        final(hub)@ == if held {
            old(hub)@
        } else {
            HubModel { session: None, ..old(hub)@ }
        },
{
    if !held {
        hub.session = None;
    }
}

/// A connection task to be run: where to connect, with which mapping, and whether to scan the
/// local network when that fails. Its number tells whether it was replaced by a later one.
#[derive(Debug)]
pub struct Task {
    pub number: u64,
    pub endpoint: Endpoint,
    pub mapping: Mapping,
    pub scan_on_failure: bool,
}

/// A connection task to be run.
#[verifier::ext_equal]
pub struct TaskModel {
    pub number: u64,
    pub endpoint: EndpointModel,
    pub mapping: MappingModel,
    pub scan_on_failure: bool,
}

impl View for Task {
    type V = TaskModel;

    open spec fn view(&self) -> TaskModel {
        TaskModel {
            number: self.number,
            endpoint: self.endpoint@,
            mapping: self.mapping@,
            scan_on_failure: self.scan_on_failure,
        }
    }
}

/// The answer to a request to connect again.
#[derive(Debug)]
pub enum Reconnect {
    /// The hub is switched off in the settings.
    Disabled,
    /// The session gets a new channel behind its sender, and is served anew.
    Restart(Task),
    /// There is no session yet: one is to be spawned here.
    Spawn(Endpoint),
}

/// Asks for a new connection as the settings are now. A session that exists is kept, at the
/// endpoint of the settings.
pub fn request_reconnect<S>(hub: &mut Hub<S>, cfg: &Config) -> (r: Reconnect)
    ensures
        (match r {
            Reconnect::Disabled => !cfg.enable && final(hub)@ == old(hub)@,
            Reconnect::Restart(task) => cfg.enable && old(hub)@.session is Some && task@ == (
            TaskModel {
                number: final(hub)@.current,
                endpoint: configured_endpoint(*cfg),
                mapping: crate::mapping::mapping_of_config(*cfg),
                scan_on_failure: true,
            }) && final(hub)@ == old(hub)@.restarted(configured_endpoint(*cfg)),
            Reconnect::Spawn(endpoint) => cfg.enable && old(hub)@.session is None && endpoint@
                == configured_endpoint(*cfg) && final(hub)@ == old(hub)@,
        }),
{
    if !cfg.enable {
        return Reconnect::Disabled;
    }
    let endpoint = Endpoint::from_config(cfg);
    if let Some(session) = &mut hub.session {
        session.endpoint = endpoint.clone();
    } else {
        return Reconnect::Spawn(endpoint);
    }
    hub.status = Status::Connecting;
    let number: u64 = hub.renumber();
    Reconnect::Restart(
        Task { number, endpoint, mapping: Mapping::from_config(cfg), scan_on_failure: true },
    )
}

/// The answer to a request for a session.
#[derive(Debug)]
pub enum Start<'a, S> {
    /// A session is running, with this sender.
    Running(&'a S),
    /// None is running, and the hub is switched off in the settings.
    Disabled,
    /// None is running: one is to be spawned here.
    Spawn(Endpoint),
}

/// Asks for a session: the running one, or else a new one as the settings are now.
pub fn start_from_config<'a, S>(hub: &'a Hub<S>, cfg: &Config) -> (r: Start<'a, S>)
    ensures
        (match r {
            Start::Running(sender) => hub@.running_sender() == Some(*sender),
            Start::Disabled => hub@.running_sender() is None && !cfg.enable,
            Start::Spawn(endpoint) => hub@.running_sender() is None && cfg.enable && endpoint@
                == configured_endpoint(*cfg),
        }),
{
    if let Some(sender) = handle_from_session(hub) {
        return Start::Running(sender);
    }
    if !cfg.enable {
        return Start::Disabled;
    }
    Start::Spawn(Endpoint::from_config(cfg))
}

/// Opens a session at an endpoint, with the sender of a new channel, and gives the task that is
/// to serve it.
pub fn spawn_with_scan<S>(
    hub: &mut Hub<S>,
    endpoint: Endpoint,
    sender: S,
    scan_on_failure: bool,
    cfg: &Config,
) -> (r: Task)
    ensures
        r@ == (TaskModel {
            number: final(hub)@.current,
            endpoint: endpoint@,
            mapping: crate::mapping::mapping_of_config(*cfg),
            scan_on_failure,
        }),
        final(hub)@ == old(hub)@.opened(endpoint@, sender),
{
    hub.status = Status::Connecting;
    hub.session = Some(DghubSession { endpoint: endpoint.clone(), sender });
    let number: u64 = hub.renumber();
    Task { number, endpoint, mapping: Mapping::from_config(cfg), scan_on_failure }
}

/// Draining loses no event and tells none twice: what was drained and what is told later is,
/// in order, what was told.
pub proof fn events_are_drained_once<S>(hub: HubModel<S>, later: Seq<EventModel>)
    ensures
        hub.events + (HubModel { events: Seq::empty(), ..hub }).told(later).events == hub.told(
            later,
        ).events,
{
}

/// A session that was just opened is running, with its own sender, and asking for a session
/// gives that one.
pub proof fn opened_session_is_running<S>(hub: HubModel<S>, endpoint: EndpointModel, sender: S)
    ensures
        hub.opened(endpoint, sender).running_sender() == Some(sender),
{
}

/// A session that was given up is not running, whatever the status.
pub proof fn a_released_session_is_not_running<S>(hub: HubModel<S>)
    ensures
        (HubModel { session: None, ..hub }).running_sender() is None,
{
}

/// A request to connect again keeps the sender that the game already holds.
pub proof fn reconnecting_keeps_the_sender<S>(hub: HubModel<S>, endpoint: EndpointModel)
    requires
        hub.session is Some,
    ensures
        hub.restarted(endpoint).running_sender() == Some(hub.session->0.sender),
{
}

/// A new task is the current one, and the task that was current before is not any more.
pub proof fn a_new_task_replaces_the_one_before<S>(
    hub: HubModel<S>,
    endpoint: EndpointModel,
    sender: S,
)
    ensures
        hub.opened(endpoint, sender).current != hub.current,
        hub.restarted(endpoint).current != hub.current,
{
}

} // verus!
