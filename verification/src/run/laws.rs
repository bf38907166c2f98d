//! What holds of every attempt, in terms of what comes in and what goes out.
use crate::grade::Grade;
use crate::hub::EndpointModel;
use crate::json::JsonModel;
use crate::live;
use crate::mapping::MappingModel;
use crate::run::{
    self, Reply, ReplyModel, RunAction, RunActionModel, RunError, RunErrorModel, RunEvent, RunEventModel, RunModel,
    RunStage,
};
use crate::token;
use vstd::prelude::*;

verus! {

/// An event is what it says: a hit is of its grade and at its time, and a text is what it is as
/// JSON.
pub proof fn events_are_what_they_say(text: String, own: bool, grade: Grade, now: u64)
    ensures
        RunEvent::Begin@ == RunEventModel::Begin,
        RunEvent::TokenReply(text)@ == (RunEventModel::TokenReply {
            text: text@,
            json: crate::json::value::json_of_text(text@),
        }),
        RunEvent::Opened@ == RunEventModel::Opened,
        RunEvent::Sent@ == RunEventModel::Sent,
        RunEvent::Text(text)@ == (RunEventModel::Text {
            json: crate::json::value::json_of_text(text@),
        }),
        RunEvent::OtherFrame@ == RunEventModel::OtherFrame,
        RunEvent::CloseFrame@ == RunEventModel::CloseFrame,
        RunEvent::StreamEnded@ == RunEventModel::StreamEnded,
        RunEvent::Failed@ == RunEventModel::Failed,
        (RunEvent::GoLive { use_phira_config: own })@ == (RunEventModel::GoLive {
            use_phira_config: own,
        }),
        (RunEvent::Hit { grade, now })@ == (RunEventModel::Hit { grade, now }),
        RunEvent::HitsEnded@ == RunEventModel::HitsEnded,
{
}

/// An action does what its model says: it goes to that address, sends the text of that message, or
/// ends with that error.
pub proof fn actions_do_what_they_say(action: RunAction, model: RunActionModel)
    requires
        action.does(model),
    ensures
        model matches RunActionModel::FetchToken { url: address } ==> (action matches
            RunAction::FetchToken { url } && url@ == address),
        model matches RunActionModel::Open { url: address } ==> (action matches RunAction::Open {
            url,
        } && url@ == address),
        model matches RunActionModel::Send { message } ==> (action matches RunAction::Send { text }
            && text@ == crate::json::value::text_of_json(crate::json::canonical(message))),
        model is AwaitReply <==> action is AwaitReply,
        model is Accepted <==> action is Accepted,
        model is AwaitEvent <==> action is AwaitEvent,
        model is Leave <==> action is Leave,
        model is Ignore <==> action is Ignore,
        (model matches RunActionModel::End(Ok(_))) <==> (action matches RunAction::End(Ok(_))),
        model matches RunActionModel::End(Err(error)) ==> (action matches RunAction::End(
            Err(actual),
        ) && actual@ == error),
{
}

/// Errors are what they say, and those of the protocol have a message with their reason.
pub proof fn errors_say_what_happened(reason: String, text: Seq<char>)
    ensures
        RunError::Io@ == RunErrorModel::Io,
        RunError::ClosedEarly@ == RunErrorModel::ClosedEarly,
        RunError::BadReply@ == RunErrorModel::BadReply,
        RunError::Rejected(reason)@ == RunErrorModel::Rejected(reason@),
        RunErrorModel::Rejected(text).message() == Some("hello rejected: "@ + text),
        RunErrorModel::ClosedEarly.message() == Some("connection closed before hello_ack"@),
        RunErrorModel::Io.message() is None,
        RunErrorModel::BadReply.message() is None,
{
}

/// The last thing that an attempt was told to do.
pub open spec fn doing(actions: Seq<RunActionModel>) -> Option<RunActionModel>
    decreases actions.len(),
{
    if actions.len() == 0 {
        None
    } else if actions.last() is Ignore {
        doing(actions.drop_last())
    } else {
        Some(actions.last())
    }
}

/// Whether the greeting was accepted in the course of these actions.
pub open spec fn announced(actions: Seq<RunActionModel>) -> bool
    decreases actions.len(),
{
    actions.len() > 0 && (actions.last() is Accepted || announced(actions.drop_last()))
}

/// How the last thing that an attempt was told to do shows its stage.
spec fn shows(stage: RunStage, actions: Seq<RunActionModel>) -> bool {
    let last = doing(actions);
    match stage {
        RunStage::Ready => last is None && !announced(actions),
        RunStage::Token => last is Some && last->0 is FetchToken && !announced(actions),
        RunStage::Opening => last is Some && last->0 is Open && !announced(actions),
        RunStage::Greeting => last is Some && last->0 is Send && !announced(actions),
        RunStage::Handshake => last is Some && last->0 is AwaitReply && !announced(actions),
        RunStage::Accepted => last is Some && last->0 is Accepted && announced(actions),
        RunStage::Live => last is Some && (last->0 is AwaitEvent || last->0 is Send) && announced(
            actions,
        ),
        RunStage::Ended => last is Some && (last->0 is End || last->0 is Leave),
    }
}

proof fn attempt_invariant(
    endpoint: EndpointModel,
    mapping: MappingModel,
    version: Seq<char>,
    events: Seq<RunEventModel>,
)
    ensures
        ({
            let (run, actions) = run::run_trace(
                RunModel::fresh(endpoint, mapping, version),
                events,
            );
            &&& shows(run.stage, actions)
            &&& run.endpoint == endpoint
            &&& run.version == version
            &&& run.mapping == mapping
            &&& run.stage == RunStage::Opening ==> doing(actions) == Some(
                RunActionModel::Open {
                    url: token::socket_url_text(endpoint.host, endpoint.port, run.token),
                },
            )
        }),
    decreases events.len(),
{
    let fresh = RunModel::fresh(endpoint, mapping, version);
    if events.len() > 0 {
        let less = events.drop_last();
        attempt_invariant(endpoint, mapping, version, less);
        let (before, actions_before) = run::run_trace(fresh, less);
        let (after, actions) = run::run_trace(fresh, events);
        assert(actions.drop_last() =~= actions_before);
    }
}

/// Whether an object has a string under a key.
pub open spec fn has_text(
    members: Map<Seq<char>, JsonModel>,
    key: Seq<char>,
    text: Seq<char>,
) -> bool {
    live::laws::has_text(members, key, text)
}

/// What an attempt does with a text while it awaits the answer to its greeting. The answer is an
/// object whose `op` is `hello_ack`; it accepts the greeting exactly when its `accepted` is `true`.
pub open spec fn on_answer(json: Option<JsonModel>) -> RunActionModel {
    match json {
        None => RunActionModel::End(Err(RunErrorModel::BadReply)),
        Some(JsonModel::Object(members)) => if !has_text(members, "op"@, "hello_ack"@) {
            RunActionModel::AwaitReply
        } else if members.contains_key("accepted"@) && members["accepted"@] == JsonModel::Bool(
            true,
        ) {
            RunActionModel::Accepted
        } else if members.contains_key("reason"@) && members["reason"@] is String {
            RunActionModel::End(Err(RunErrorModel::Rejected(members["reason"@]->String_0)))
        } else {
            RunActionModel::End(Err(RunErrorModel::Rejected("unknown"@)))
        },
        Some(_) => RunActionModel::AwaitReply,
    }
}

/// What an attempt does next, by what it was last told to do and by what happens: it gets a token
/// unless one is set, opens the socket with it, greets the hub with the same token, awaits the
/// answer, and once it is accepted runs the session till it ends. What does not belong there is
/// ignored. Of hits and of texts in a session other laws speak.
pub proof fn what_an_attempt_does(
    endpoint: EndpointModel,
    mapping: MappingModel,
    version: Seq<char>,
    events: Seq<RunEventModel>,
    event: RunEventModel,
)
    ensures
        ({
            let (run, actions) = run::run_trace(
                RunModel::fresh(endpoint, mapping, version),
                events,
            );
            let next = run.step(event).1;
            let failed = RunActionModel::End(Err(RunErrorModel::Io));
            match doing(actions) {
                None => next == if !(event is Begin) {
                    RunActionModel::Ignore
                } else if endpoint.token is Some && endpoint.token->0.len() > 0 {
                    RunActionModel::Open {
                        url: token::socket_url_text(
                            endpoint.host,
                            endpoint.port,
                            endpoint.token->0,
                        ),
                    }
                } else {
                    RunActionModel::FetchToken {
                        url: token::token_url_text(endpoint.host, endpoint.port),
                    }
                },
                Some(RunActionModel::FetchToken { .. }) => next == match event {
                    RunEventModel::TokenReply { text, json } => RunActionModel::Open {
                        url: token::socket_url_text(
                            endpoint.host,
                            endpoint.port,
                            token::token_in_reply(text, json),
                        ),
                    },
                    RunEventModel::Failed => failed,
                    _ => RunActionModel::Ignore,
                },
                Some(RunActionModel::Open { url }) => match event {
                    RunEventModel::Opened => exists|token: Seq<char>|
                        #![trigger crate::hello::hello_model(token, version)]
                        url == token::socket_url_text(endpoint.host, endpoint.port, token) && next
                            == (RunActionModel::Send {
                            message: crate::hello::hello_model(token, version),
                        }),
                    RunEventModel::Failed => next == failed,
                    _ => next is Ignore,
                },
                Some(RunActionModel::AwaitReply) => next == match event {
                    RunEventModel::Text { json } => on_answer(json),
                    RunEventModel::OtherFrame => RunActionModel::AwaitReply,
                    RunEventModel::CloseFrame => RunActionModel::AwaitReply,
                    RunEventModel::StreamEnded => RunActionModel::End(
                        Err(RunErrorModel::ClosedEarly),
                    ),
                    RunEventModel::Failed => failed,
                    _ => RunActionModel::Ignore,
                },
                Some(RunActionModel::Accepted) => next == if event is GoLive {
                    RunActionModel::AwaitEvent
                } else {
                    RunActionModel::Ignore
                },
                Some(RunActionModel::End(_)) => next is Ignore,
                Some(RunActionModel::Leave) => next is Ignore,
                _ => if !announced(actions) {
                    next == match event {
                        RunEventModel::Sent => RunActionModel::AwaitReply,
                        RunEventModel::Failed => failed,
                        _ => RunActionModel::Ignore,
                    }
                } else {
                    match event {
                        RunEventModel::Sent => next is AwaitEvent,
                        RunEventModel::OtherFrame => next is AwaitEvent,
                        RunEventModel::CloseFrame => next == RunActionModel::End(Ok(())),
                        RunEventModel::StreamEnded => next == RunActionModel::End(Ok(())),
                        RunEventModel::Failed => next == failed,
                        RunEventModel::HitsEnded => next is Leave,
                        RunEventModel::Hit { .. } => next is AwaitEvent || next is Send,
                        RunEventModel::Text { .. } => next is AwaitEvent || next is Send || next
                            == RunActionModel::End(Ok(())),
                        _ => next is Ignore,
                    }
                },
            }
        }),
{
    attempt_invariant(endpoint, mapping, version, events);
    let (run, actions) = run::run_trace(RunModel::fresh(endpoint, mapping, version), events);
    if run.stage == RunStage::Opening && event is Opened {
        assert(run.step(event).1 == RunActionModel::Send {
            message: crate::hello::hello_model(run.token, version),
        });
    }
}

/// Whether an attempt runs a session: it was accepted, has gone live, and was not told to end.
pub open spec fn is_running(actions: Seq<RunActionModel>) -> bool {
    announced(actions) && match doing(actions) {
        Some(RunActionModel::AwaitEvent) => true,
        Some(RunActionModel::Send { .. }) => true,
        _ => false,
    }
}

/// The time of the last hit of a grade among the events to which the attempt has answered by
/// sending.
pub open spec fn sent_at(
    run: RunModel,
    events: Seq<RunEventModel>,
    grade: Grade,
) -> Option<u64>
    decreases events.len(),
{
    if events.len() == 0 {
        None
    } else {
        let less = events.drop_last();
        match events.last() {
            RunEventModel::Hit { grade: hit, now } => if hit == grade && run::run_trace(
                run,
                less,
            ).0.step(events.last()).1 is Send {
                Some(now)
            } else {
                sent_at(run, less, grade)
            },
            _ => sent_at(run, less, grade),
        }
    }
}

/// Whether the game's own settings hold in the session, and the mapping in force, once the attempt
/// has gone live: the mapping of the attempt, changed by the texts that have come since then.
pub open spec fn in_force(
    run: RunModel,
    events: Seq<RunEventModel>,
) -> Option<(bool, MappingModel)>
    decreases events.len(),
{
    if events.len() == 0 {
        None
    } else {
        let less = events.drop_last();
        let before = in_force(run, less);
        match (before, events.last()) {
            (Some((own, mapping)), RunEventModel::Text { json }) => if is_running(
                run::run_trace(run, less).1,
            ) {
                Some((own, live::laws::after_text(own, mapping, json)))
            } else {
                before
            },
            (None, RunEventModel::GoLive { use_phira_config }) => if doing(
                run::run_trace(run, less).1,
            ) is Some && doing(run::run_trace(run, less).1)->0 is Accepted {
                Some((use_phira_config, run.mapping))
            } else {
                before
            },
            _ => before,
        }
    }
}

proof fn session_invariant(
    endpoint: EndpointModel,
    mapping: MappingModel,
    version: Seq<char>,
    events: Seq<RunEventModel>,
)
    ensures
        ({
            let fresh = RunModel::fresh(endpoint, mapping, version);
            let run = run::run_trace(fresh, events).0;
            &&& run.stage == RunStage::Live ==> {
                &&& run.live.last_sent.len() == 4
                &&& run.live.last_sent[0] == sent_at(fresh, events, Grade::Perfect)
                &&& run.live.last_sent[1] == sent_at(fresh, events, Grade::Good)
                &&& run.live.last_sent[2] == sent_at(fresh, events, Grade::Bad)
                &&& run.live.last_sent[3] == sent_at(fresh, events, Grade::Miss)
                &&& in_force(fresh, events) == Some((run.live.use_phira_config, run.live.mapping))
            }
            &&& run.stage != RunStage::Live && run.stage != RunStage::Ended ==> {
                &&& sent_at(fresh, events, Grade::Perfect) is None
                &&& sent_at(fresh, events, Grade::Good) is None
                &&& sent_at(fresh, events, Grade::Bad) is None
                &&& sent_at(fresh, events, Grade::Miss) is None
                &&& in_force(fresh, events) is None
            }
        }),
    decreases events.len(),
{
    let fresh = RunModel::fresh(endpoint, mapping, version);
    if events.len() > 0 {
        let less = events.drop_last();
        session_invariant(endpoint, mapping, version, less);
        attempt_invariant(endpoint, mapping, version, less);
        live::operations_are_distinct();
        let (before, actions_before) = run::run_trace(fresh, less);
        let after = run::run_trace(fresh, events).0;
        if before.stage == RunStage::Live {
            match events.last() {
                RunEventModel::Text { json } => {
                    assert(before.live.receive_text(json).0.mapping == live::laws::after_text(
                        before.live.use_phira_config,
                        before.live.mapping,
                        json,
                    ));
                    assert(before.live.receive_text(json).0.last_sent == before.live.last_sent);
                },
                _ => {},
            }
        }
    }
}

/// The hits of a session, by the times of the events of the attempt: a hit is answered by sending
/// the trigger of the mapping in force exactly when its grade is enabled and, where the grade is
/// spaced, at least the interval has passed since the last hit of that grade that was; else by
/// waiting. One millisecond of the interval is a million of the nanoseconds of the events.
pub proof fn hits_count_by_the_times_of_the_events(
    endpoint: EndpointModel,
    mapping: MappingModel,
    version: Seq<char>,
    events: Seq<RunEventModel>,
    grade: Grade,
    now: u64,
)
    requires
        is_running(run::run_trace(RunModel::fresh(endpoint, mapping, version), events).1),
    ensures
        ({
            let fresh = RunModel::fresh(endpoint, mapping, version);
            let run = run::run_trace(fresh, events).0;
            let last = sent_at(fresh, events, grade);
            &&& in_force(fresh, events) is Some
            &&& {
                let (_own, mapping_now) = in_force(fresh, events)->0;
                let held = last is Some && live::laws::is_spaced(mapping_now, grade)
                    && live::laws::is_within(last->0, now, mapping_now.throttle_ms);
                run.step(RunEventModel::Hit { grade, now }).1 == if live::laws::set_for(
                    mapping_now,
                    grade,
                ).enable && !held {
                    RunActionModel::Send { message: mapping_now.trigger(grade)->0 }
                } else {
                    RunActionModel::AwaitEvent
                }
            }
        }),
{
    attempt_invariant(endpoint, mapping, version, events);
    session_invariant(endpoint, mapping, version, events);
}

/// The texts of a session: a ping is answered by a pong with its time stamp, a request to stop ends
/// the attempt well, and with every other text the session waits on.
pub proof fn texts_of_a_session_are_answered(
    endpoint: EndpointModel,
    mapping: MappingModel,
    version: Seq<char>,
    events: Seq<RunEventModel>,
    members: Map<Seq<char>, JsonModel>,
    other: JsonModel,
)
    requires
        is_running(run::run_trace(RunModel::fresh(endpoint, mapping, version), events).1),
    ensures
        ({
            let run = run::run_trace(RunModel::fresh(endpoint, mapping, version), events).0;
            let pong = map!["op"@ => JsonModel::String("pong"@)];
            let answer = run.step(
                RunEventModel::Text { json: Some(JsonModel::Object(members)) },
            ).1;
            &&& has_text(members, "op"@, "ping"@) ==> answer == (RunActionModel::Send {
                message: JsonModel::Object(
                    if members.contains_key("t"@) {
                        pong.insert("t"@, members["t"@])
                    } else {
                        pong
                    },
                ),
            })
            &&& has_text(members, "op"@, "stop"@) ==> answer == RunActionModel::End(Ok(()))
            &&& !has_text(members, "op"@, "ping"@) && !has_text(members, "op"@, "stop"@)
                ==> answer is AwaitEvent
            &&& !(other is Object) ==> run.step(RunEventModel::Text { json: Some(other) }).1
                is AwaitEvent
            &&& run.step(RunEventModel::Text { json: None }).1 is AwaitEvent
        }),
{
    attempt_invariant(endpoint, mapping, version, events);
    let run = run::run_trace(RunModel::fresh(endpoint, mapping, version), events).0;
    live::laws::only_pings_and_stops_are_answered(run.live, members, other);
    live::operations_are_distinct();
}

/// A new attempt is at the endpoint, with the mapping and of the version that it is made with.
pub proof fn an_attempt_starts_with_what_it_is_given(
    endpoint: EndpointModel,
    mapping: MappingModel,
    version: Seq<char>,
)
    ensures
        RunModel::fresh(endpoint, mapping, version).endpoint == endpoint,
        RunModel::fresh(endpoint, mapping, version).mapping == mapping,
        RunModel::fresh(endpoint, mapping, version).version == version,
{
}

/// What a message says to the greeting, for every message.
pub proof fn replies_say_what_they_say(
    members: Map<Seq<char>, JsonModel>,
    other: JsonModel,
    reason: String,
)
    ensures
        Reply::Other@ == ReplyModel::Other,
        Reply::Accepted@ == ReplyModel::Accepted,
        Reply::Rejected(reason)@ == ReplyModel::Rejected(reason@),
        !(other is Object) ==> run::reply_in(other) is Other,
        ({
            let reply = run::reply_in(JsonModel::Object(members));
            match on_answer(Some(JsonModel::Object(members))) {
                RunActionModel::AwaitReply => reply is Other,
                RunActionModel::Accepted => reply is Accepted,
                RunActionModel::End(Err(RunErrorModel::Rejected(text))) => reply
                    == ReplyModel::Rejected(text),
                _ => false,
            }
        }),
{
}

} // verus!
