//! A session with the hub once the greeting is accepted.
use crate::grade::Grade;
use crate::json::{self, Json, JsonModel, Members};
use crate::mapping::{Mapping, MappingModel};
use crate::text;
use vstd::prelude::*;

pub mod laws;

verus! {

/// How many nanoseconds a millisecond has.
pub const NANOS_PER_MILLI: u64 = 1_000_000;

/// A running session.
#[derive(Debug)]
pub struct LiveSession {
    mapping: Mapping,
    use_phira_config: bool,
    last_sent: [Option<u64>; 4],
}

/// A running session: the mapping in force, whether the hub may change it, and when the last
/// trigger of each grade was sent, in nanoseconds on a clock of the caller's.
#[verifier::ext_equal]
pub struct LiveModel {
    pub mapping: MappingModel,
    pub use_phira_config: bool,
    pub last_sent: Seq<Option<u64>>,
}

/// What a session does next.
#[derive(Debug)]
pub enum LiveAction {
    /// It waits for what comes next.
    Wait,
    /// It sends a message and waits.
    Send(Json),
    /// It ends.
    Stop,
}

/// What a session does next.
pub enum LiveActionModel {
    Wait,
    Send(JsonModel),
    Stop,
}

impl View for LiveSession {
    type V = LiveModel;

    closed spec fn view(&self) -> LiveModel {
        LiveModel {
            mapping: self.mapping@,
            use_phira_config: self.use_phira_config,
            last_sent: self.last_sent@,
        }
    }
}

impl View for LiveAction {
    type V = LiveActionModel;

    open spec fn view(&self) -> LiveActionModel {
        match *self {
            LiveAction::Wait => LiveActionModel::Wait,
            LiveAction::Send(message) => LiveActionModel::Send(message@),
            LiveAction::Stop => LiveActionModel::Stop,
        }
    }
}

/// How much time has passed; none on a clock that went back.
pub open spec fn elapsed(since: u64, now: u64) -> int {
    if now >= since {
        now - since
    } else {
        0
    }
}

/// The answer to a ping, with the ping's time stamp if it has one.
pub open spec fn pong_model(ping: JsonModel) -> JsonModel {
    let pong = map!["op"@ => JsonModel::String("pong"@)];
    match ping.member("t"@) {
        Some(t) => JsonModel::Object(pong.insert("t"@, t)),
        None => JsonModel::Object(pong),
    }
}

impl LiveModel {
    /// A session in which no trigger was sent yet.
    pub open spec fn fresh(mapping: MappingModel, use_phira_config: bool) -> LiveModel {
        LiveModel { mapping, use_phira_config, last_sent: seq![None, None, None, None] }
    }

    /// Whether triggers of a grade are spaced.
    pub open spec fn throttles(self, grade: Grade) -> bool {
        grade != Grade::Miss || self.mapping.throttle_miss
    }

    /// The least time between two triggers of a grade that are spaced, in nanoseconds.
    pub open spec fn spacing(self) -> int {
        self.mapping.throttle_ms * NANOS_PER_MILLI
    }

    /// Whether a hit of a grade comes too soon after the last trigger of that grade.
    pub open spec fn too_soon(self, grade: Grade, now: u64) -> bool {
        match self.last_sent[grade.place()] {
            Some(last) => self.throttles(grade) && elapsed(last, now) < self.spacing(),
            None => false,
        }
    }

    /// What a hit of a grade does: nothing when it comes too soon or the grade is disabled, and
    /// else it sends the grade's trigger.
    pub open spec fn hit(self, grade: Grade, now: u64) -> (LiveModel, LiveActionModel) {
        if self.too_soon(grade, now) {
            (self, LiveActionModel::Wait)
        } else {
            match self.mapping.trigger(grade) {
                Some(message) => (
                    LiveModel {
                        last_sent: self.last_sent.update(grade.place(), Some(now)),
                        ..self
                    },
                    LiveActionModel::Send(message),
                ),
                None => (self, LiveActionModel::Wait),
            }
        }
    }

    /// The session after a configuration message of the hub.
    pub open spec fn configured(self, message: JsonModel) -> LiveModel {
        match message.member("data"@) {
            Some(data) => match data.members() {
                Some(given) => LiveModel { mapping: self.mapping.updated(given), ..self },
                None => self,
            },
            None => self,
        }
    }

    /// The session after the hub has told of one changed parameter.
    pub open spec fn reconfigured(self, message: JsonModel) -> LiveModel {
        match (message.member_string("key"@), message.member("value"@)) {
            (Some(key), Some(value)) => LiveModel {
                mapping: self.mapping.updated_one(key, value),
                ..self
            },
            _ => self,
        }
    }

    /// What a message of the hub does.
    pub open spec fn receive(self, message: JsonModel) -> (LiveModel, LiveActionModel) {
        match message.member_string("op"@) {
            Some(op) => if op == "config"@ {
                (
                    if self.use_phira_config {
                        self
                    } else {
                        self.configured(message)
                    },
                    LiveActionModel::Wait,
                )
            } else if op == "config_changed"@ {
                (
                    if self.use_phira_config {
                        self
                    } else {
                        self.reconfigured(message)
                    },
                    LiveActionModel::Wait,
                )
            } else if op == "ping"@ {
                (self, LiveActionModel::Send(pong_model(message)))
            } else if op == "stop"@ {
                (self, LiveActionModel::Stop)
            } else {
                (self, LiveActionModel::Wait)
            },
            None => (self, LiveActionModel::Wait),
        }
    }

    /// What a text of the hub does, given what it is as JSON; a text that is not JSON does
    /// nothing.
    pub open spec fn receive_text(self, message: Option<JsonModel>) -> (
        LiveModel,
        LiveActionModel,
    ) {
        match message {
            Some(value) => self.receive(value),
            None => (self, LiveActionModel::Wait),
        }
    }
}

impl LiveSession {
    /// A session in which no trigger was sent yet.
    pub fn new(mapping: Mapping, use_phira_config: bool) -> (r: LiveSession)
        ensures
            r@ == LiveModel::fresh(mapping@, use_phira_config),
    {
        let session = LiveSession {
            mapping,
            use_phira_config,
            last_sent: [None, None, None, None],
        };
        assert(session@.last_sent =~= seq![None, None, None, None]);
        session
    }

    /// Takes a hit of a grade at a time.
    pub fn on_hit(&mut self, grade: Grade, now: u64) -> (r: LiveAction)
        ensures
            (final(self)@, r@) == old(self)@.hit(grade, now),
    {
        let place = grade.index();
        let throttled = grade != Grade::Miss || self.mapping.throttle_miss;
        if throttled {
            if let Some(last) = self.last_sent[place] {
                let spacing: u64 = self.mapping.throttle_ms as u64 * NANOS_PER_MILLI;
                let passed: u64 = if now >= last {
                    now - last
                } else {
                    0
                };
                if passed < spacing {
                    return LiveAction::Wait;
                }
            }
        }
        match self.mapping.trigger(grade) {
            Some(message) => {
                self.last_sent[place] = Some(now);
                LiveAction::Send(message)
            },
            None => LiveAction::Wait,
        }
    }

    /// Takes a message of the hub.
    pub fn on_message(&mut self, message: &Json) -> (r: LiveAction)
        ensures
            (final(self)@, r@) == old(self)@.receive(message@),
    {
        let op = match message.get_str("op") {
            Some(op) => op,
            None => {
                return LiveAction::Wait;
            },
        };
        if text::same_text(op, "config") {
            if !self.use_phira_config {
                if let Some(data) = message.get("data") {
                    if let Some(given) = data.as_object() {
                        self.mapping.apply_all(given);
                    }
                }
            }
            LiveAction::Wait
        } else if text::same_text(op, "config_changed") {
            if !self.use_phira_config {
                if let Some(key) = message.get_str("key") {
                    if let Some(value) = message.get("value") {
                        self.mapping.apply_one(key, value);
                    }
                }
            }
            LiveAction::Wait
        } else if text::same_text(op, "ping") {
            let mut pong = Members::new().with("op", Json::text("pong"));
            if let Some(t) = message.get("t") {
                pong = pong.with("t", t.clone());
            }
            LiveAction::Send(Json::Object(pong))
        } else if text::same_text(op, "stop") {
            LiveAction::Stop
        } else {
            LiveAction::Wait
        }
    }

    /// Takes a text of the hub.
    pub fn on_text(&mut self, text: &str) -> (r: LiveAction)
        ensures
            (final(self)@, r@) == old(self)@.receive_text(json::value::json_of_text(text@)),
    {
        match Json::parse(text) {
            Ok(message) => self.on_message(&message),
            Err(_) => LiveAction::Wait,
        }
    }
}

/// Two triggers of a grade whose triggers are spaced are at least the spacing apart: a hit that
/// sends one comes that long after the last one, and is then the last one itself.
pub proof fn triggers_keep_their_distance(session: LiveModel, grade: Grade, now: u64, last: u64)
    requires
        session.last_sent.len() == 4,
        session.last_sent[grade.place()] == Some(last),
        session.throttles(grade),
        session.hit(grade, now).1 is Send,
    ensures
        elapsed(last, now) >= session.spacing(),
        session.hit(grade, now).0.last_sent[grade.place()] == Some(now),
{
}

/// What happens to a session: a hit at a time, or a text of the hub, with what it is as JSON.
pub enum LiveEventModel {
    Hit { grade: Grade, now: u64 },
    Text { json: Option<JsonModel> },
}

/// A trigger that was sent: of which grade, when, and the spacing that was then in force.
pub struct SentTrigger {
    pub grade: Grade,
    pub now: u64,
    pub spacing: int,
}

/// The session after events, and the triggers that were sent in it.
pub open spec fn live_trace(session: LiveModel, events: Seq<LiveEventModel>) -> (
    LiveModel,
    Seq<SentTrigger>,
)
    decreases events.len(),
{
    if events.len() == 0 {
        (session, Seq::empty())
    } else {
        let (before, sent) = live_trace(session, events.drop_last());
        match events.last() {
            LiveEventModel::Hit { grade, now } => {
                let (next, action) = before.hit(grade, now);
                (
                    next,
                    if action is Send {
                        sent.push(SentTrigger { grade, now, spacing: before.spacing() })
                    } else {
                        sent
                    },
                )
            },
            LiveEventModel::Text { json } => (before.receive_text(json).0, sent),
        }
    }
}

/// A session remembers one time for each grade: every state that a new session reaches does.
pub proof fn a_session_remembers_each_grade(
    mapping: MappingModel,
    use_phira_config: bool,
    events: Seq<LiveEventModel>,
)
    ensures
        live_trace(LiveModel::fresh(mapping, use_phira_config), events).0.last_sent.len() == 4,
    decreases events.len(),
{
    if events.len() > 0 {
        a_session_remembers_each_grade(mapping, use_phira_config, events.drop_last());
    }
}

/// Whether the clock does not go back from one hit to a later one.
pub open spec fn clock_goes_on(events: Seq<LiveEventModel>) -> bool {
    forall|k: int, l: int|
        0 <= k <= l < events.len() && (#[trigger] events[k]) is Hit && (#[trigger] events[l]) is Hit
            ==> events[k]->now <= events[l]->now
}

/// In a new session, whatever the hub sends meanwhile, of any two triggers of a grade the later
/// one was sent at least the spacing after the earlier one that was in force when the later one
/// was sent, if the grade's triggers are spaced and the clock does not go back.
pub proof fn sent_triggers_are_spaced(
    mapping: MappingModel,
    use_phira_config: bool,
    events: Seq<LiveEventModel>,
    i: int,
    j: int,
)
    requires
        clock_goes_on(events),
        ({
            let session = LiveModel::fresh(mapping, use_phira_config);
            let sent = live_trace(session, events).1;
            &&& 0 <= i < j < sent.len()
            &&& sent[i].grade == sent[j].grade
            &&& session.throttles(sent[i].grade)
        }),
    ensures
        ({
            let session = LiveModel::fresh(mapping, use_phira_config);
            let sent = live_trace(session, events).1;
            sent[j].now - sent[i].now >= sent[j].spacing
        }),
    decreases events.len(),
{
    let session = LiveModel::fresh(mapping, use_phira_config);
    let front = events.drop_last();
    let before = live_trace(session, front);
    let after = live_trace(session, events);
    clock_goes_on_before(events);
    sending_is_remembered(session, front);
    if j < before.1.len() {
        assert(after.1[i] == before.1[i] && after.1[j] == before.1[j]);
        sent_triggers_are_spaced(mapping, use_phira_config, front, i, j);
    } else {
        let grade = events.last()->grade;
        let now = events.last()->now;
        let last = before.0.last_sent[grade.place()];
        assert(after.1[i] == before.1[i]);
        assert(last is Some && before.1[i].now <= last->0);
        triggers_keep_their_distance(before.0, grade, now, last->0);
        let m = choose|m: int|
            0 <= m < front.len() && (#[trigger] front[m]) is Hit && front[m]->now == last->0;
        assert(events[m] == front[m] && events[events.len() - 1] == events.last());
        assert(last->0 <= now);
    }
}

proof fn clock_goes_on_before(events: Seq<LiveEventModel>)
    requires
        clock_goes_on(events),
        events.len() > 0,
    ensures
        clock_goes_on(events.drop_last()),
{
    let front = events.drop_last();
    assert forall|k: int, l: int|
        0 <= k <= l < front.len() && (#[trigger] front[k]) is Hit && (
        #[trigger] front[l]) is Hit implies front[k]->now <= front[l]->now by {
        assert(front[k] == events[k] && front[l] == events[l]);
    }
}

/// What a session remembers of the triggers that it has sent.
proof fn sending_is_remembered(session: LiveModel, events: Seq<LiveEventModel>)
    requires
        session.last_sent == seq![None::<u64>, None, None, None],
        clock_goes_on(events),
    ensures
        ({
            let (last, sent) = live_trace(session, events);
            &&& last.mapping.throttle_miss == session.mapping.throttle_miss
            &&& last.last_sent.len() == 4
            &&& forall|k: int|
                0 <= k < sent.len() ==> last.last_sent[(#[trigger] sent[k]).grade.place()] is Some
                    && sent[k].now <= last.last_sent[sent[k].grade.place()]->0
            &&& forall|p: int|
                0 <= p < 4 && (#[trigger] last.last_sent[p]) is Some ==> exists|k: int|
                    0 <= k < events.len() && (#[trigger] events[k]) is Hit && events[k]->now
                        == last.last_sent[p]->0
        }),
    decreases events.len(),
{
    if events.len() > 0 {
        let front = events.drop_last();
        clock_goes_on_before(events);
        sending_is_remembered(session, front);
        let (before, sent_before) = live_trace(session, front);
        let (last, sent) = live_trace(session, events);
        assert(events[events.len() - 1] == events.last());
        if events.last() is Text {
            assert(last.last_sent == before.last_sent);
        }
        assert forall|k: int| 0 <= k < sent.len() implies last.last_sent[(
        #[trigger] sent[k]).grade.place()] is Some && sent[k].now
            <= last.last_sent[sent[k].grade.place()]->0 by {
            if k < sent_before.len() {
                assert(sent[k] == sent_before[k]);
                let p = sent_before[k].grade.place();
                assert(before.last_sent[p] is Some);
                let m = choose|m: int|
                    0 <= m < front.len() && (#[trigger] front[m]) is Hit && front[m]->now
                        == before.last_sent[p]->0;
                assert(events[m] == front[m]);
                if events.last() is Hit {
                    assert(events[m]->now <= events.last()->now);
                }
            }
        }
        assert forall|p: int| 0 <= p < 4 && (
        #[trigger] last.last_sent[p]) is Some implies exists|k: int|
            0 <= k < events.len() && (#[trigger] events[k]) is Hit && events[k]->now
                == last.last_sent[p]->0 by {
            if last.last_sent[p] == before.last_sent[p] {
                let m = choose|m: int|
                    0 <= m < front.len() && (#[trigger] front[m]) is Hit && front[m]->now
                        == before.last_sent[p]->0;
                assert(events[m] == front[m]);
            }
        }
    }
}

/// A hit sends its trigger exactly when the grade is enabled and the hit does not come too soon.
pub proof fn hits_that_count(session: LiveModel, grade: Grade, now: u64)
    ensures
        session.hit(grade, now).1 is Send <==> session.mapping.grade(grade).enable
            && !session.too_soon(grade, now),
{
}

/// Without spacing every hit of an enabled grade sends its trigger.
pub proof fn without_spacing_every_hit_counts(session: LiveModel, grade: Grade, now: u64)
    requires
        !session.throttles(grade) || session.mapping.throttle_ms == 0,
        session.mapping.grade(grade).enable,
    ensures
        session.hit(grade, now).1 == LiveActionModel::Send(session.mapping.trigger(grade)->0),
{
}

/// The first hit of an enabled grade sends its trigger.
pub proof fn the_first_hit_counts(
    mapping: MappingModel,
    use_phira_config: bool,
    grade: Grade,
    now: u64,
)
    requires
        mapping.grade(grade).enable,
    ensures
        LiveModel::fresh(mapping, use_phira_config).hit(grade, now).1 == LiveActionModel::Send(
            mapping.trigger(grade)->0,
        ),
{
}

/// A hit of one grade does not delay the triggers of another.
pub proof fn grades_are_spaced_apart_from_each_other(
    session: LiveModel,
    grade: Grade,
    now: u64,
    other: Grade,
    later: u64,
)
    requires
        session.last_sent.len() == 4,
        other != grade,
    ensures
        session.hit(grade, now).0.hit(other, later).1 == session.hit(other, later).1,
{
}

/// A hit of a disabled grade does nothing.
pub proof fn a_disabled_grade_is_silent(session: LiveModel, grade: Grade, now: u64)
    requires
        !session.mapping.grade(grade).enable,
    ensures
        session.hit(grade, now) == (session, LiveActionModel::Wait),
{
}

/// When the game's own settings hold, no message of the hub changes the session.
pub proof fn own_settings_hold_against_the_hub(session: LiveModel, message: JsonModel)
    requires
        session.use_phira_config,
    ensures
        session.receive(message).0 == session,
{
}

/// Whether a message has an operation.
pub open spec fn is_op(message: JsonModel, op: Seq<char>) -> bool {
    message.member_string("op"@) == Some(op)
}

/// A ping is answered, with its time stamp where it has one, and changes nothing.
pub proof fn a_ping_is_answered(session: LiveModel, ping: JsonModel)
    requires
        is_op(ping, "ping"@),
    ensures
        session.receive(ping).0 == session,
        session.receive(ping).1 matches LiveActionModel::Send(pong) && is_op(pong, "pong"@)
            && pong.member("t"@) == ping.member("t"@),
{
    operations_are_distinct();
    reveal_strlit("op");
    reveal_strlit("t");
    assert("op"@.len() != "t"@.len());
}

/// The time stamp of a ping that was read from JSON is written in the answer as it was read.
pub proof fn a_time_stamp_is_written_as_it_was_read(ping: JsonModel)
    requires
        json::canonical(ping) == ping,
    ensures
        json::canonical(pong_model(ping)).member("t"@) == ping.member("t"@),
{
    reveal_strlit("op");
    reveal_strlit("t");
    assert("op"@.len() != "t"@.len());
    if ping is Object && ping->Object_0.contains_key("t"@) {
        assert(json::canonical(ping)->Object_0["t"@] == json::canonical(ping->Object_0["t"@]));
    }
}

/// The hub ends a session by asking for it, and a session sends nothing of its own accord in
/// answer to any message but a ping.
pub proof fn only_a_stop_ends_and_only_a_ping_is_answered(session: LiveModel, message: JsonModel)
    ensures
        session.receive(message).1 is Stop <==> is_op(message, "stop"@),
        session.receive(message).1 is Send <==> is_op(message, "ping"@),
{
    operations_are_distinct();
}

/// The whole configuration and a single change have the same effect on a parameter.
pub proof fn a_change_is_a_small_configuration(
    session: LiveModel,
    config: JsonModel,
    change: JsonModel,
    key: Seq<char>,
    value: JsonModel,
)
    requires
        is_op(config, "config"@),
        config.member("data"@) == Some(
            JsonModel::Object(Map::<Seq<char>, JsonModel>::empty().insert(key, value)),
        ),
        is_op(change, "config_changed"@),
        change.member_string("key"@) == Some(key),
        change.member("value"@) == Some(value),
    ensures
        session.receive(config) == session.receive(change),
{
    operations_are_distinct();
}

/// The operations of the hub's messages differ from one another.
pub proof fn operations_are_distinct()
    ensures
        "config"@ != "config_changed"@,
        "config"@ != "ping"@,
        "config"@ != "stop"@,
        "config_changed"@ != "ping"@,
        "config_changed"@ != "stop"@,
        "ping"@ != "stop"@,
{
    reveal_strlit("config");
    reveal_strlit("config_changed");
    reveal_strlit("ping");
    reveal_strlit("stop");
    assert("config"@.len() != "config_changed"@.len());
    assert("config"@.len() != "ping"@.len());
    assert("config"@.len() != "stop"@.len());
    assert("config_changed"@.len() != "ping"@.len());
    assert("config_changed"@.len() != "stop"@.len());
    assert("ping"@[0] != "stop"@[0]);
}

} // verus!
