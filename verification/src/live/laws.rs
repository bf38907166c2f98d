//! What holds of every session, in terms of what comes in and what goes out.
use crate::grade::Grade;
use crate::json::{Json, JsonModel};
use crate::live::{self, LiveAction, LiveActionModel, LiveEventModel, LiveModel};
use crate::mapping::{GradeCfgModel, MappingModel};
use vstd::prelude::*;

verus! {

/// What is set for a grade.
pub open spec fn set_for(mapping: MappingModel, grade: Grade) -> GradeCfgModel {
    match grade {
        Grade::Perfect => mapping.perfect,
        Grade::Good => mapping.good,
        Grade::Bad => mapping.bad,
        Grade::Miss => mapping.miss,
    }
}

/// Whether triggers of a grade are spaced: those of `Perfect`, `Good` and `Bad` are, and those of
/// `Miss` where that is set.
pub open spec fn is_spaced(mapping: MappingModel, grade: Grade) -> bool {
    match grade {
        Grade::Perfect => true,
        Grade::Good => true,
        Grade::Bad => true,
        Grade::Miss => mapping.throttle_miss,
    }
}

/// Whether less than this many milliseconds have passed between two times in nanoseconds.
pub open spec fn is_within(first: u64, second: u64, milliseconds: u32) -> bool {
    if second >= first {
        second - first < milliseconds * 1_000_000
    } else {
        0 < milliseconds
    }
}

/// A hit of `Perfect`, `Good` or `Bad` less than the interval after the last trigger of that grade
/// is held back, and so is one of `Miss` where misses are spaced; one that comes later sends its
/// trigger, if the grade is enabled, and so does one of `Miss` at any time where they are not.
pub proof fn hits_within_the_interval_are_held_back(session: LiveModel, last: u64, now: u64)
    requires
        session.last_sent.len() == 4,
    ensures
        ({
            let held = is_within(last, now, session.mapping.throttle_ms);
            let wait = (session, LiveActionModel::Wait);
            &&& session.last_sent[0] == Some(last) && held ==> session.hit(Grade::Perfect, now)
                == wait
            &&& session.last_sent[1] == Some(last) && held ==> session.hit(Grade::Good, now) == wait
            &&& session.last_sent[2] == Some(last) && held ==> session.hit(Grade::Bad, now) == wait
            &&& session.last_sent[3] == Some(last) && held && session.mapping.throttle_miss
                ==> session.hit(Grade::Miss, now) == wait
            &&& session.last_sent[0] == Some(last) && !held && session.mapping.perfect.enable
                ==> session.hit(Grade::Perfect, now).1 is Send
            &&& session.last_sent[1] == Some(last) && !held && session.mapping.good.enable
                ==> session.hit(Grade::Good, now).1 is Send
            &&& session.last_sent[2] == Some(last) && !held && session.mapping.bad.enable
                ==> session.hit(Grade::Bad, now).1 is Send
            &&& session.last_sent[3] == Some(last) && !held && session.mapping.miss.enable
                ==> session.hit(Grade::Miss, now).1 is Send
            &&& !session.mapping.throttle_miss && session.mapping.miss.enable ==> session.hit(
                Grade::Miss,
                now,
            ).1 is Send
        }),
{
}

/// The time of the last hit of a grade that has sent a trigger.
pub open spec fn sent_at(
    session: LiveModel,
    events: Seq<LiveEventModel>,
    grade: Grade,
) -> Option<u64>
    decreases events.len(),
{
    if events.len() == 0 {
        None
    } else {
        let less = events.drop_last();
        match events.last() {
            LiveEventModel::Hit { grade: hit, now } => if hit == grade && live::live_trace(
                session,
                less,
            ).0.hit(hit, now).1 is Send {
                Some(now)
            } else {
                sent_at(session, less, grade)
            },
            LiveEventModel::Text { .. } => sent_at(session, less, grade),
        }
    }
}

/// A session remembers of every grade when it has last sent a trigger of it.
pub proof fn a_session_remembers_its_triggers(
    mapping: MappingModel,
    use_phira_config: bool,
    events: Seq<LiveEventModel>,
)
    ensures
        ({
            let fresh = LiveModel::fresh(mapping, use_phira_config);
            let last_sent = live::live_trace(fresh, events).0.last_sent;
            &&& last_sent.len() == 4
            &&& last_sent[0] == sent_at(fresh, events, Grade::Perfect)
            &&& last_sent[1] == sent_at(fresh, events, Grade::Good)
            &&& last_sent[2] == sent_at(fresh, events, Grade::Bad)
            &&& last_sent[3] == sent_at(fresh, events, Grade::Miss)
        }),
    decreases events.len(),
{
    if events.len() > 0 {
        a_session_remembers_its_triggers(mapping, use_phira_config, events.drop_last());
    }
}

/// Whether a hit sends its trigger, by the clock: it does exactly when its grade is enabled and,
/// where the grade is spaced, the interval has passed since the last hit of that grade that has
/// sent one. What it sends is the trigger of the mapping in force.
pub proof fn hits_count_by_the_clock(
    mapping: MappingModel,
    use_phira_config: bool,
    events: Seq<LiveEventModel>,
    grade: Grade,
    now: u64,
)
    ensures
        ({
            let fresh = LiveModel::fresh(mapping, use_phira_config);
            let session = live::live_trace(fresh, events).0;
            let held = match sent_at(fresh, events, grade) {
                Some(last) => is_spaced(session.mapping, grade) && is_within(
                    last,
                    now,
                    session.mapping.throttle_ms,
                ),
                None => false,
            };
            session.hit(grade, now).1 == if set_for(session.mapping, grade).enable && !held {
                LiveActionModel::Send(session.mapping.trigger(grade)->0)
            } else {
                LiveActionModel::Wait
            }
        }),
{
    a_session_remembers_its_triggers(mapping, use_phira_config, events);
}

/// Whether an object has a string under a key.
pub open spec fn has_text(
    members: Map<Seq<char>, JsonModel>,
    key: Seq<char>,
    text: Seq<char>,
) -> bool {
    members.contains_key(key) && members[key] == JsonModel::String(text)
}

/// The mapping after a text of the hub. The hub may change it unless the game's own settings hold:
/// by `config`, with the parameters as the members of `data`, and by `config_changed`, with one
/// parameter by `key` and `value`.
pub open spec fn after_text(
    own: bool,
    mapping: MappingModel,
    json: Option<JsonModel>,
) -> MappingModel {
    match json {
        Some(JsonModel::Object(members)) => if own {
            mapping
        } else if has_text(members, "op"@, "config"@) {
            match members["data"@] {
                JsonModel::Object(given) => if members.contains_key("data"@) {
                    mapping.updated(given)
                } else {
                    mapping
                },
                _ => mapping,
            }
        } else if has_text(members, "op"@, "config_changed"@) {
            match members["key"@] {
                JsonModel::String(key) => if members.contains_key("key"@) && members.contains_key(
                    "value"@,
                ) {
                    mapping.updated_one(key, members["value"@])
                } else {
                    mapping
                },
                _ => mapping,
            }
        } else {
            mapping
        },
        _ => mapping,
    }
}

/// The mapping after the texts of the hub among events.
pub open spec fn after_events(
    own: bool,
    mapping: MappingModel,
    events: Seq<LiveEventModel>,
) -> MappingModel
    decreases events.len(),
{
    if events.len() == 0 {
        mapping
    } else {
        let before = after_events(own, mapping, events.drop_last());
        match events.last() {
            LiveEventModel::Hit { .. } => before,
            LiveEventModel::Text { json } => after_text(own, before, json),
        }
    }
}

/// The mapping in force is the one that the session has started with, changed by each text of the
/// hub that asks for it, and by nothing else.
pub proof fn the_hub_changes_the_mapping_and_nothing_else_does(
    mapping: MappingModel,
    own: bool,
    events: Seq<LiveEventModel>,
)
    ensures
        ({
            let session = live::live_trace(LiveModel::fresh(mapping, own), events).0;
            &&& session.mapping == after_events(own, mapping, events)
            &&& session.use_phira_config == own
        }),
    decreases events.len(),
{
    live::operations_are_distinct();
    if events.len() > 0 {
        the_hub_changes_the_mapping_and_nothing_else_does(mapping, own, events.drop_last());
    }
}

/// What a session answers to a text: a ping by a pong with the same time stamp and nothing more, a
/// request to stop by stopping, and every other text, be it JSON or not, by nothing. No text makes
/// a session forget a trigger.
pub proof fn only_pings_and_stops_are_answered(
    session: LiveModel,
    members: Map<Seq<char>, JsonModel>,
    other: JsonModel,
)
    ensures
        ({
            let (next, answer) = session.receive_text(Some(JsonModel::Object(members)));
            let pong = map!["op"@ => JsonModel::String("pong"@)];
            &&& next.last_sent == session.last_sent
            &&& next.use_phira_config == session.use_phira_config
            &&& answer == if has_text(members, "op"@, "ping"@) {
                LiveActionModel::Send(
                    JsonModel::Object(
                        if members.contains_key("t"@) {
                            pong.insert("t"@, members["t"@])
                        } else {
                            pong
                        },
                    ),
                )
            } else if has_text(members, "op"@, "stop"@) {
                LiveActionModel::Stop
            } else {
                LiveActionModel::Wait
            }
        }),
        !(other is Object) ==> session.receive_text(Some(other)) == (
            session,
            LiveActionModel::Wait,
        ),
        session.receive_text(None) == (session, LiveActionModel::Wait),
{
    live::operations_are_distinct();
}

/// Actions are what they say.
pub proof fn actions_are_what_they_say(message: Json)
    ensures
        LiveAction::Wait@ == LiveActionModel::Wait,
        LiveAction::Send(message)@ == LiveActionModel::Send(message@),
        LiveAction::Stop@ == LiveActionModel::Stop,
{
}

/// What is set for a grade is what the mapping holds for it.
pub proof fn each_grade_has_its_own_parameters(mapping: MappingModel, grade: Grade)
    ensures
        mapping.grade(grade) == set_for(mapping, grade),
{
}

} // verus!
