//! One attempt at a session with the hub, from the token to the end of the session.
use crate::grade::Grade;
use crate::hello::hello_message;
use crate::hub::{Endpoint, EndpointModel};
use crate::json::{Json, JsonModel};
use crate::live::{LiveAction, LiveActionModel, LiveModel, LiveSession};
use crate::mapping::{Mapping, MappingModel};
use crate::text;
use crate::token::{socket_url, token_from_text, token_url};
use vstd::prelude::*;
use vstd::string::*;

pub mod laws;

verus! {

/// How far an attempt is.
#[derive(Clone, Copy, Debug, PartialEq, Eq, Structural)]
pub enum RunStage {
    /// Nothing was done yet.
    Ready,
    /// A session token is being fetched.
    Token,
    /// The plugin socket is being opened.
    Opening,
    /// The greeting is being sent.
    Greeting,
    /// The answer to the greeting is awaited.
    Handshake,
    /// The greeting was accepted.
    Accepted,
    /// The session is running.
    Live,
    /// The attempt is over.
    Ended,
}

/// What happens to an attempt.
#[derive(Debug)]
pub enum RunEvent {
    /// The attempt is to begin.
    Begin,
    /// The reply to the token request.
    TokenReply(String),
    /// The plugin socket is open.
    Opened,
    /// The message was sent.
    Sent,
    /// A text came from the hub.
    Text(String),
    /// A frame of another kind came from the hub.
    OtherFrame,
    /// The hub has closed the socket.
    CloseFrame,
    /// Nothing more comes from the hub.
    StreamEnded,
    /// The request, the socket or the wait has failed.
    Failed,
    /// The session starts, with the hub's configuration or without it.
    GoLive { use_phira_config: bool },
    /// The game has judged a hit, at a time in nanoseconds.
    Hit { grade: Grade, now: u64 },
    /// No more hits come from the game.
    HitsEnded,
}

/// Why an attempt has failed.
#[derive(Debug)]
pub enum RunError {
    /// A request, the socket or a wait has failed.
    Io,
    /// The connection was closed before the greeting was answered.
    ClosedEarly,
    /// The answer to the greeting is not JSON.
    BadReply,
    /// The hub has turned the greeting down, for this reason.
    Rejected(String),
}

/// What an attempt does next.
#[derive(Debug)]
pub enum RunAction {
    /// It requests a session token.
    FetchToken { url: String },
    /// It opens the plugin socket.
    Open { url: String },
    /// It sends a text.
    Send { text: String },
    /// It waits for the answer to the greeting, for a limited time.
    AwaitReply,
    /// The greeting was accepted.
    Accepted,
    /// It waits for the hub or for the game.
    AwaitEvent,
    /// It closes the socket and is over.
    Leave,
    /// It is over, well or with an error.
    End(Result<(), RunError>),
    /// Nothing: the event does not belong here.
    Ignore,
}

/// What happens to an attempt; a text comes with what it is as JSON.
pub enum RunEventModel {
    Begin,
    TokenReply { text: Seq<char>, json: Option<JsonModel> },
    Opened,
    Sent,
    Text { json: Option<JsonModel> },
    OtherFrame,
    CloseFrame,
    StreamEnded,
    Failed,
    GoLive { use_phira_config: bool },
    Hit { grade: Grade, now: u64 },
    HitsEnded,
}

/// Why an attempt has failed.
pub enum RunErrorModel {
    Io,
    ClosedEarly,
    BadReply,
    Rejected(Seq<char>),
}

/// What an attempt does next; a text that it sends stands here as JSON.
pub enum RunActionModel {
    FetchToken { url: Seq<char> },
    Open { url: Seq<char> },
    Send { message: JsonModel },
    AwaitReply,
    Accepted,
    AwaitEvent,
    Leave,
    End(Result<(), RunErrorModel>),
    Ignore,
}

impl View for RunEvent {
    type V = RunEventModel;

    open spec fn view(&self) -> RunEventModel {
        match *self {
            RunEvent::Begin => RunEventModel::Begin,
            RunEvent::TokenReply(text) => RunEventModel::TokenReply {
                text: text@,
                json: crate::json::value::json_of_text(text@),
            },
            RunEvent::Opened => RunEventModel::Opened,
            RunEvent::Sent => RunEventModel::Sent,
            RunEvent::Text(text) => RunEventModel::Text {
                json: crate::json::value::json_of_text(text@),
            },
            RunEvent::OtherFrame => RunEventModel::OtherFrame,
            RunEvent::CloseFrame => RunEventModel::CloseFrame,
            RunEvent::StreamEnded => RunEventModel::StreamEnded,
            RunEvent::Failed => RunEventModel::Failed,
            RunEvent::GoLive { use_phira_config } => RunEventModel::GoLive { use_phira_config },
            RunEvent::Hit { grade, now } => RunEventModel::Hit { grade, now },
            RunEvent::HitsEnded => RunEventModel::HitsEnded,
        }
    }
}

impl View for RunError {
    type V = RunErrorModel;

    open spec fn view(&self) -> RunErrorModel {
        match *self {
            RunError::Io => RunErrorModel::Io,
            RunError::ClosedEarly => RunErrorModel::ClosedEarly,
            RunError::BadReply => RunErrorModel::BadReply,
            RunError::Rejected(reason) => RunErrorModel::Rejected(reason@),
        }
    }
}

impl RunAction {
    /// Whether the action is what the model says, each text that is sent being that of the
    /// message in the model.
    pub open spec fn does(self, model: RunActionModel) -> bool {
        match (self, model) {
            (RunAction::FetchToken { url }, RunActionModel::FetchToken { url: model_url }) => url@
                == model_url,
            (RunAction::Open { url }, RunActionModel::Open { url: model_url }) => url@
                == model_url,
            (RunAction::Send { text }, RunActionModel::Send { message }) => text@
                == crate::json::json_text(message),
            (RunAction::AwaitReply, RunActionModel::AwaitReply) => true,
            (RunAction::Accepted, RunActionModel::Accepted) => true,
            (RunAction::AwaitEvent, RunActionModel::AwaitEvent) => true,
            (RunAction::Leave, RunActionModel::Leave) => true,
            (RunAction::End(Ok(())), RunActionModel::End(Ok(()))) => true,
            (RunAction::End(Err(error)), RunActionModel::End(Err(model_error))) => error@
                == model_error,
            (RunAction::Ignore, RunActionModel::Ignore) => true,
            _ => false,
        }
    }
}

impl RunErrorModel {
    /// The message for an error of the protocol; the others have their own.
    pub open spec fn message(self) -> Option<Seq<char>> {
        match self {
            RunErrorModel::ClosedEarly => Some("connection closed before hello_ack"@),
            RunErrorModel::Rejected(reason) => Some("hello rejected: "@ + reason),
            _ => None,
        }
    }
}

impl RunError {
    /// The message for an error of the protocol; the others have their own.
    pub fn message(&self) -> (r: Option<String>)
        ensures
            crate::hub::option_text(r) == self@.message(),
    {
        match self {
            RunError::ClosedEarly => Some("connection closed before hello_ack".to_owned()),
            RunError::Rejected(reason) => {
                let mut message = "hello rejected: ".to_owned();
                message.append(reason.as_str());
                Some(message)
            },
            _ => None,
        }
    }
}

/// What an answer to the greeting says.
#[derive(Debug)]
pub enum Reply {
    /// It is not the answer.
    Other,
    /// The greeting is accepted.
    Accepted,
    /// The greeting is turned down, for this reason.
    Rejected(String),
}

/// What an answer to the greeting says.
pub enum ReplyModel {
    Other,
    Accepted,
    Rejected(Seq<char>),
}

impl View for Reply {
    type V = ReplyModel;

    open spec fn view(&self) -> ReplyModel {
        match *self {
            Reply::Other => ReplyModel::Other,
            Reply::Accepted => ReplyModel::Accepted,
            Reply::Rejected(reason) => ReplyModel::Rejected(reason@),
        }
    }
}

/// What a message says to the greeting: only one with the `op` `hello_ack` answers it, and it
/// accepts it only when its member `accepted` is `true`.
pub open spec fn reply_in(message: JsonModel) -> ReplyModel {
    if message.member_string("op"@) != Some("hello_ack"@) {
        ReplyModel::Other
    } else if message.member("accepted"@) == Some(JsonModel::Bool(true)) {
        ReplyModel::Accepted
    } else {
        ReplyModel::Rejected(
            match message.member_string("reason"@) {
                Some(reason) => reason,
                None => "unknown"@,
            },
        )
    }
}

/// What a message says to the greeting.
pub fn read_reply(message: &Json) -> (r: Reply)
    ensures
        r@ == reply_in(message@),
{
    match message.get_str("op") {
        Some(op) => {
            if !text::same_text(op, "hello_ack") {
                return Reply::Other;
            }
        },
        None => {
            return Reply::Other;
        },
    }
    let accepted = match message.get("accepted") {
        Some(value) => match value.as_bool() {
            Some(b) => b,
            None => false,
        },
        None => false,
    };
    if accepted {
        return Reply::Accepted;
    }
    match message.get_str("reason") {
        Some(reason) => Reply::Rejected(reason.to_owned()),
        None => Reply::Rejected("unknown".to_owned()),
    }
}

/// One attempt at a session.
#[derive(Debug)]
pub struct Run {
    endpoint: Endpoint,
    version: String,
    token: String,
    stage: RunStage,
    live: LiveSession,
    mapping: Mapping,
}

/// One attempt at a session: where the hub is, the version of the game, the token that is in
/// use, how far the attempt is, the mapping with which the session starts, and the session.
#[verifier::ext_equal]
pub struct RunModel {
    pub endpoint: EndpointModel,
    pub version: Seq<char>,
    pub token: Seq<char>,
    pub stage: RunStage,
    pub mapping: MappingModel,
    pub live: LiveModel,
}

impl View for Run {
    type V = RunModel;

    closed spec fn view(&self) -> RunModel {
        RunModel {
            endpoint: self.endpoint@,
            version: self.version@,
            token: self.token@,
            stage: self.stage,
            mapping: self.mapping@,
            live: self.live@,
        }
    }
}

impl RunModel {
    /// An attempt of which nothing was done yet.
    pub open spec fn fresh(
        endpoint: EndpointModel,
        mapping: MappingModel,
        version: Seq<char>,
    ) -> RunModel {
        RunModel {
            endpoint,
            version,
            token: Seq::empty(),
            stage: RunStage::Ready,
            mapping,
            live: LiveModel::fresh(mapping, false),
        }
    }

    /// The attempt at another stage.
    pub open spec fn at(self, stage: RunStage) -> RunModel {
        RunModel { stage, ..self }
    }

    /// The attempt goes on to open the socket with a token.
    pub open spec fn open_with(self, token: Seq<char>) -> (RunModel, RunActionModel) {
        (
            RunModel { token, stage: RunStage::Opening, ..self },
            RunActionModel::Open {
                url: crate::token::socket_url_text(self.endpoint.host, self.endpoint.port, token),
            },
        )
    }

    /// The attempt fails.
    pub open spec fn fail(self, error: RunErrorModel) -> (RunModel, RunActionModel) {
        (self.at(RunStage::Ended), RunActionModel::End(Err(error)))
    }

    /// The attempt ends well.
    pub open spec fn finish(self) -> (RunModel, RunActionModel) {
        (self.at(RunStage::Ended), RunActionModel::End(Ok(())))
    }

    /// The attempt does nothing.
    pub open spec fn ignore(self) -> (RunModel, RunActionModel) {
        (self, RunActionModel::Ignore)
    }

    /// The attempt begins: with the token that is set, unless it is empty, else by fetching one.
    pub open spec fn begin(self) -> (RunModel, RunActionModel) {
        let fetch = (
            self.at(RunStage::Token),
            RunActionModel::FetchToken {
                url: crate::token::token_url_text(self.endpoint.host, self.endpoint.port),
            },
        );
        match self.endpoint.token {
            Some(token) => if token.len() > 0 {
                self.open_with(token)
            } else {
                fetch
            },
            None => fetch,
        }
    }

    /// A text comes while the answer to the greeting is awaited.
    pub open spec fn handshake_text(self, json: Option<JsonModel>) -> (RunModel, RunActionModel) {
        match json {
            None => self.fail(RunErrorModel::BadReply),
            Some(message) => match reply_in(message) {
                ReplyModel::Other => (self, RunActionModel::AwaitReply),
                ReplyModel::Accepted => (self.at(RunStage::Accepted), RunActionModel::Accepted),
                ReplyModel::Rejected(reason) => self.fail(RunErrorModel::Rejected(reason)),
            },
        }
    }

    /// The session takes a step.
    pub open spec fn live_step(self, step: (LiveModel, LiveActionModel)) -> (
        RunModel,
        RunActionModel,
    ) {
        let next = RunModel { live: step.0, ..self };
        match step.1 {
            LiveActionModel::Wait => (next, RunActionModel::AwaitEvent),
            LiveActionModel::Send(message) => (next, RunActionModel::Send { message }),
            LiveActionModel::Stop => next.finish(),
        }
    }

    /// What an event does to an attempt that runs a session.
    pub open spec fn live_event(self, event: RunEventModel) -> (RunModel, RunActionModel) {
        match event {
            RunEventModel::Sent => (self, RunActionModel::AwaitEvent),
            RunEventModel::Text { json } => self.live_step(self.live.receive_text(json)),
            RunEventModel::OtherFrame => (self, RunActionModel::AwaitEvent),
            RunEventModel::CloseFrame => self.finish(),
            RunEventModel::StreamEnded => self.finish(),
            RunEventModel::Failed => self.fail(RunErrorModel::Io),
            RunEventModel::Hit { grade, now } => self.live_step(self.live.hit(grade, now)),
            RunEventModel::HitsEnded => (self.at(RunStage::Ended), RunActionModel::Leave),
            _ => self.ignore(),
        }
    }

    /// What an event does to an attempt.
    pub open spec fn step(self, event: RunEventModel) -> (RunModel, RunActionModel) {
        match self.stage {
            RunStage::Ready => match event {
                RunEventModel::Begin => self.begin(),
                _ => self.ignore(),
            },
            RunStage::Token => match event {
                RunEventModel::TokenReply { text, json } => self.open_with(
                    crate::token::token_in_reply(text, json),
                ),
                RunEventModel::Failed => self.fail(RunErrorModel::Io),
                _ => self.ignore(),
            },
            RunStage::Opening => match event {
                RunEventModel::Opened => (
                    self.at(RunStage::Greeting),
                    RunActionModel::Send {
                        message: crate::hello::hello_model(self.token, self.version),
                    },
                ),
                RunEventModel::Failed => self.fail(RunErrorModel::Io),
                _ => self.ignore(),
            },
            RunStage::Greeting => match event {
                RunEventModel::Sent => (self.at(RunStage::Handshake), RunActionModel::AwaitReply),
                RunEventModel::Failed => self.fail(RunErrorModel::Io),
                _ => self.ignore(),
            },
            RunStage::Handshake => match event {
                RunEventModel::Text { json } => self.handshake_text(json),
                RunEventModel::OtherFrame => (self, RunActionModel::AwaitReply),
                RunEventModel::CloseFrame => (self, RunActionModel::AwaitReply),
                RunEventModel::StreamEnded => self.fail(RunErrorModel::ClosedEarly),
                RunEventModel::Failed => self.fail(RunErrorModel::Io),
                _ => self.ignore(),
            },
            RunStage::Accepted => match event {
                RunEventModel::GoLive { use_phira_config } => (
                    RunModel {
                        stage: RunStage::Live,
                        live: LiveModel::fresh(self.mapping, use_phira_config),
                        ..self
                    },
                    RunActionModel::AwaitEvent,
                ),
                _ => self.ignore(),
            },
            RunStage::Live => self.live_event(event),
            RunStage::Ended => self.ignore(),
        }
    }
}

impl Run {
    /// An attempt of which nothing was done yet.
    pub fn new(endpoint: Endpoint, mapping: Mapping, version: &str) -> (r: Run)
        ensures
            r@ == RunModel::fresh(endpoint@, mapping@, version@),
    {
        Run {
            endpoint,
            version: version.to_owned(),
            token: String::new(),
            stage: RunStage::Ready,
            live: LiveSession::new(mapping.clone(), false),
            mapping,
        }
    }

    fn open_with(&mut self, token: String) -> (r: RunAction)
        ensures
            final(self)@ == old(self)@.open_with(token@).0,
            r.does(old(self)@.open_with(token@).1),
    {
        let url = socket_url(self.endpoint.host.as_str(), self.endpoint.port, token.as_str());
        self.token = token;
        self.stage = RunStage::Opening;
        RunAction::Open { url }
    }

    fn fail(&mut self, error: RunError) -> (r: RunAction)
        ensures
            final(self)@ == old(self)@.fail(error@).0,
            r.does(old(self)@.fail(error@).1),
    {
        self.stage = RunStage::Ended;
        RunAction::End(Err(error))
    }

    fn finish(&mut self) -> (r: RunAction)
        ensures
            final(self)@ == old(self)@.finish().0,
            r.does(old(self)@.finish().1),
    {
        self.stage = RunStage::Ended;
        RunAction::End(Ok(()))
    }

    fn begin(&mut self) -> (r: RunAction)
        ensures
            final(self)@ == old(self)@.begin().0,
            r.does(old(self)@.begin().1),
    {
        if let Some(token) = &self.endpoint.token {
            if !token.as_str().is_empty() {
                let token = token.clone();
                return self.open_with(token);
            }
        }
        self.stage = RunStage::Token;
        RunAction::FetchToken {
            url: token_url(self.endpoint.host.as_str(), self.endpoint.port),
        }
    }

    fn handshake_text(&mut self, text: &str) -> (r: RunAction)
        ensures
            final(self)@ == old(self)@.handshake_text(crate::json::value::json_of_text(text@)).0,
            r.does(old(self)@.handshake_text(crate::json::value::json_of_text(text@)).1),
    {
        match Json::parse(text) {
            Ok(message) => match read_reply(&message) {
                Reply::Other => RunAction::AwaitReply,
                Reply::Accepted => {
                    self.stage = RunStage::Accepted;
                    RunAction::Accepted
                },
                Reply::Rejected(reason) => self.fail(RunError::Rejected(reason)),
            },
            Err(_) => self.fail(RunError::BadReply),
        }
    }

    fn live_action(&mut self, action: LiveAction) -> (r: RunAction)
        ensures
            final(self)@ == old(self)@.live_step((old(self)@.live, action@)).0,
            r.does(old(self)@.live_step((old(self)@.live, action@)).1),
    {
        match action {
            LiveAction::Wait => RunAction::AwaitEvent,
            LiveAction::Send(message) => RunAction::Send { text: message.to_text() },
            LiveAction::Stop => self.finish(),
        }
    }

    fn live_event(&mut self, event: RunEvent) -> (r: RunAction)
        ensures
            final(self)@ == old(self)@.live_event(event@).0,
            r.does(old(self)@.live_event(event@).1),
    {
        match event {
            RunEvent::Sent => RunAction::AwaitEvent,
            RunEvent::Text(text) => {
                let action = self.live.on_text(text.as_str());
                self.live_action(action)
            },
            RunEvent::OtherFrame => RunAction::AwaitEvent,
            RunEvent::CloseFrame => self.finish(),
            RunEvent::StreamEnded => self.finish(),
            RunEvent::Failed => self.fail(RunError::Io),
            RunEvent::Hit { grade, now } => {
                let action = self.live.on_hit(grade, now);
                self.live_action(action)
            },
            RunEvent::HitsEnded => {
                self.stage = RunStage::Ended;
                RunAction::Leave
            },
            _ => RunAction::Ignore,
        }
    }

    /// Takes an event and says what to do next.
    pub fn step(&mut self, event: RunEvent) -> (r: RunAction)
        ensures
            final(self)@ == old(self)@.step(event@).0,
            r.does(old(self)@.step(event@).1),
    {
        match self.stage {
            RunStage::Ready => match event {
                RunEvent::Begin => self.begin(),
                _ => RunAction::Ignore,
            },
            RunStage::Token => match event {
                RunEvent::TokenReply(text) => self.open_with(token_from_text(text.as_str())),
                RunEvent::Failed => self.fail(RunError::Io),
                _ => RunAction::Ignore,
            },
            RunStage::Opening => match event {
                RunEvent::Opened => {
                    self.stage = RunStage::Greeting;
                    let hello = hello_message(self.token.as_str(), self.version.as_str());
                    RunAction::Send { text: hello.to_text() }
                },
                RunEvent::Failed => self.fail(RunError::Io),
                _ => RunAction::Ignore,
            },
            RunStage::Greeting => match event {
                RunEvent::Sent => {
                    self.stage = RunStage::Handshake;
                    RunAction::AwaitReply
                },
                RunEvent::Failed => self.fail(RunError::Io),
                _ => RunAction::Ignore,
            },
            RunStage::Handshake => match event {
                RunEvent::Text(text) => self.handshake_text(text.as_str()),
                RunEvent::OtherFrame => RunAction::AwaitReply,
                RunEvent::CloseFrame => RunAction::AwaitReply,
                RunEvent::StreamEnded => self.fail(RunError::ClosedEarly),
                RunEvent::Failed => self.fail(RunError::Io),
                _ => RunAction::Ignore,
            },
            RunStage::Accepted => match event {
                RunEvent::GoLive { use_phira_config } => {
                    self.live = LiveSession::new(self.mapping.clone(), use_phira_config);
                    self.stage = RunStage::Live;
                    RunAction::AwaitEvent
                },
                _ => RunAction::Ignore,
            },
            RunStage::Live => self.live_event(event),
            RunStage::Ended => RunAction::Ignore,
        }
    }
}

/// Nothing but the greeting is sent before the session runs, and the greeting with the token
/// that is in use.
pub proof fn only_the_greeting_is_sent_before_the_session(run: RunModel, event: RunEventModel)
    requires
        run.step(event).1 is Send,
        run.stage != RunStage::Live,
    ensures
        run.stage == RunStage::Opening,
        run.step(event).1->message == crate::hello::hello_model(run.token, run.version),
{
}

/// What an attempt does in answer to events, one action for each of them.
pub open spec fn run_trace(run: RunModel, events: Seq<RunEventModel>) -> (
    RunModel,
    Seq<RunActionModel>,
)
    decreases events.len(),
{
    if events.len() == 0 {
        (run, Seq::empty())
    } else {
        let before = run_trace(run, events.drop_last());
        let (next, action) = before.0.step(events.last());
        (next, before.1.push(action))
    }
}

/// Whether an event is a message that accepts the greeting.
pub open spec fn accepts(event: RunEventModel) -> bool {
    event matches RunEventModel::Text { json: Some(message) } && reply_in(message) is Accepted
}

/// A session runs only after the hub has accepted the greeting: whatever happens to a new
/// attempt, when it runs a session, a message that accepts the greeting has come, and the attempt
/// has announced that; and when it is over well or is left, it has run a session.
pub proof fn a_session_runs_only_when_accepted(
    endpoint: EndpointModel,
    mapping: MappingModel,
    version: Seq<char>,
    events: Seq<RunEventModel>,
)
    ensures
        ({
            let (run, actions) = run_trace(RunModel::fresh(endpoint, mapping, version), events);
            let announced = actions.contains(RunActionModel::Accepted);
            &&& run.stage == RunStage::Accepted || run.stage == RunStage::Live ==> announced
            &&& announced ==> exists|i: int| 0 <= i < events.len() && accepts(#[trigger] events[i])
            &&& actions.contains(RunActionModel::End(Ok(()))) ==> announced
            &&& actions.contains(RunActionModel::Leave) ==> announced
        }),
    decreases events.len(),
{
    let fresh = RunModel::fresh(endpoint, mapping, version);
    if events.len() > 0 {
        let less = events.drop_last();
        a_session_runs_only_when_accepted(endpoint, mapping, version, less);
        let (before, actions_before) = run_trace(fresh, less);
        let (after, actions) = run_trace(fresh, events);
        let event = events.last();
        assert(events[events.len() - 1] == event);
        pushed_contains(actions_before, before.step(event).1, RunActionModel::Accepted);
        pushed_contains(actions_before, before.step(event).1, RunActionModel::End(Ok(())));
        pushed_contains(actions_before, before.step(event).1, RunActionModel::Leave);
        if actions_before.contains(RunActionModel::Accepted) {
            let i = choose|i: int| 0 <= i < less.len() && accepts(#[trigger] less[i]);
            assert(accepts(events[i]));
        }
    }
}

proof fn pushed_contains<A>(list: Seq<A>, item: A, sought: A)
    ensures
        list.push(item).contains(sought) <==> list.contains(sought) || item == sought,
{
    let longer = list.push(item);
    assert(longer[list.len() as int] == item);
    if list.contains(sought) {
        let i = choose|i: int| 0 <= i < list.len() && list[i] == sought;
        assert(longer[i] == sought);
    }
    if longer.contains(sought) {
        let i = choose|i: int| 0 <= i < longer.len() && longer[i] == sought;
        assert(i < list.len() ==> list[i] == sought);
    }
}

/// A greeting that is turned down ends the attempt, with the hub's reason or, without one, an
/// unknown reason.
pub proof fn a_rejected_greeting_ends_the_attempt(run: RunModel, message: JsonModel)
    requires
        run.stage == RunStage::Handshake,
        message.member_string("op"@) == Some("hello_ack"@),
        message.member("accepted"@) != Some(JsonModel::Bool(true)),
    ensures
        ({
            let (next, action) = run.step(RunEventModel::Text { json: Some(message) });
            let reason = match message.member_string("reason"@) {
                Some(reason) => reason,
                None => "unknown"@,
            };
            &&& next.stage == RunStage::Ended
            &&& action == RunActionModel::End(Err(RunErrorModel::Rejected(reason)))
        }),
{
}

/// A running session survives every message but a request to stop, be it JSON or not.
pub proof fn messages_do_not_break_a_session(run: RunModel, json: Option<JsonModel>)
    requires
        run.stage == RunStage::Live,
    ensures
        ({
            let (next, action) = run.step(RunEventModel::Text { json });
            let stopped = json is Some && json->0.member_string("op"@) == Some("stop"@);
            &&& next.stage == if stopped {
                RunStage::Ended
            } else {
                RunStage::Live
            }
            &&& stopped ==> action == RunActionModel::End(Ok(()))
        }),
{
    if json is Some {
        crate::live::only_a_stop_ends_and_only_a_ping_is_answered(run.live, json->0);
    }
}

/// A session starts with the mapping that the attempt was given, and no trigger sent.
pub proof fn a_session_starts_fresh(run: RunModel, use_phira_config: bool)
    requires
        run.stage == RunStage::Accepted,
    ensures
        run.step(RunEventModel::GoLive { use_phira_config }).0 == (RunModel {
            stage: RunStage::Live,
            live: LiveModel::fresh(run.mapping, use_phira_config),
            ..run
        }),
{
}

/// An attempt that is over stays over and does nothing more.
pub proof fn an_ended_attempt_stays_ended(run: RunModel, event: RunEventModel)
    requires
        run.stage == RunStage::Ended,
    ensures
        run.step(event) == (run, RunActionModel::Ignore),
{
}

/// A token that is set is used as it is, and no token is fetched then.
pub proof fn a_set_token_is_used(
    endpoint: EndpointModel,
    mapping: MappingModel,
    version: Seq<char>,
    token: Seq<char>,
)
    requires
        endpoint.token == Some(token),
        token.len() > 0,
    ensures
        ({
            let (run, action) = RunModel::fresh(endpoint, mapping, version).step(
                RunEventModel::Begin,
            );
            &&& action == RunActionModel::Open {
                url: crate::token::socket_url_text(endpoint.host, endpoint.port, token),
            }
            &&& run.step(RunEventModel::Opened).1 == RunActionModel::Send {
                message: crate::hello::hello_model(token, version),
            }
        }),
{
}

/// The token that a hub hands out is the one that the socket is opened and the hub is greeted
/// with.
pub proof fn a_fetched_token_is_used(
    run: RunModel,
    text: Seq<char>,
    json: Option<JsonModel>,
)
    requires
        run.stage == RunStage::Token,
    ensures
        ({
            let token = crate::token::token_in_reply(text, json);
            let (next, action) = run.step(RunEventModel::TokenReply { text, json });
            &&& action == RunActionModel::Open {
                url: crate::token::socket_url_text(run.endpoint.host, run.endpoint.port, token),
            }
            &&& next.step(RunEventModel::Opened).1 == RunActionModel::Send {
                message: crate::hello::hello_model(token, run.version),
            }
        }),
{
}

} // verus!
