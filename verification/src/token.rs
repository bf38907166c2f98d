//! Session tokens and the addresses of the hub.
use crate::json::{self, Json, JsonModel};
use crate::text;
use vstd::prelude::*;
use vstd::string::*;

verus! {

/// A token as the user entered it, without white space around it; nothing when no character is
/// left.
pub fn normalize_token(token: &str) -> (r: Option<String>)
    ensures
        (match r {
            Some(t) => t@ == text::trimmed(token@) && t@.len() > 0,
            None => text::trimmed(token@).len() == 0,
        }),
{
    let token = text::trim(token);
    if token.is_empty() {
        None
    } else {
        Some(token.to_owned())
    }
}

/// The token in the reply to a token request, when the reply is read as JSON: the string member
/// `token`, or else the reply itself when it is a string.
pub open spec fn token_in_json(reply: JsonModel) -> Option<Seq<char>> {
    match reply.member_string("token"@) {
        Some(token) => Some(token),
        None => reply.string(),
    }
}

/// The token in a reply that holds none as JSON: its text, without white space and then without
/// quotation marks around it.
pub open spec fn plain_token(text: Seq<char>) -> Seq<char> {
    text::trimmed_of(text::trimmed(text), '"')
}

/// The token in a reply whose JSON value, if it has one, is `reply`.
pub open spec fn token_in_reply(text: Seq<char>, reply: Option<JsonModel>) -> Seq<char> {
    match reply {
        Some(json) => match token_in_json(json) {
            Some(token) => token,
            None => plain_token(text),
        },
        None => plain_token(text),
    }
}

/// The token in the reply to a token request, given what the reply is as JSON.
pub fn token_from_reply(text: &str, reply: Option<&Json>) -> (r: String)
    ensures
        r@ == token_in_reply(
            text@,
            match reply {
                Some(json) => Some(json@),
                None => None,
            },
        ),
{
    if let Some(json) = reply {
        if let Some(token) = json.get_str("token") {
            return token.to_owned();
        }
        if let Some(token) = json.as_str() {
            return token.to_owned();
        }
    }
    text::trim_edge(text::trim(text), '"').to_owned()
}

/// The token in the reply to a token request.
pub fn token_from_text(text: &str) -> (r: String)
    ensures
        r@ == token_in_reply(text@, json::value::json_of_text(text@)),
{
    match Json::parse(text) {
        Ok(json) => token_from_reply(text, Some(&json)),
        Err(_) => token_from_reply(text, None),
    }
}

/// A host and a port as they stand in an address.
pub open spec fn authority(host: Seq<char>, port: u16) -> Seq<char> {
    host + ":"@ + text::decimal_text(port as nat)
}

/// The address from which a hub hands out its session token.
pub open spec fn token_url_text(host: Seq<char>, port: u16) -> Seq<char> {
    "http://"@ + authority(host, port) + "/api/plugins/_session_token"@
}

/// The address of a hub's plugin socket.
pub open spec fn socket_url_text(host: Seq<char>, port: u16, token: Seq<char>) -> Seq<char> {
    "ws://"@ + authority(host, port) + "/ws/plugin?token="@ + token
}

/// The address from which a hub hands out its session token.
pub fn token_url(host: &str, port: u16) -> (r: String)
    ensures
        r@ == token_url_text(host@, port),
{
    let mut url = "http://".to_owned();
    url.append(host);
    url.append(":");
    url.append(text::decimal(port as u64).as_str());
    url.append("/api/plugins/_session_token");
    assert(url@ =~= token_url_text(host@, port));
    url
}

/// The address of a hub's plugin socket.
pub fn socket_url(host: &str, port: u16, token: &str) -> (r: String)
    ensures
        r@ == socket_url_text(host@, port, token@),
{
    let mut url = "ws://".to_owned();
    url.append(host);
    url.append(":");
    url.append(text::decimal(port as u64).as_str());
    url.append("/ws/plugin?token=");
    url.append(token);
    assert(url@ =~= socket_url_text(host@, port, token@));
    url
}

/// A token that is taken from plain text has no quotation mark at either end.
pub proof fn a_plain_token_has_no_quotes_around_it(text: Seq<char>)
    ensures
        plain_token(text).len() > 0 ==> plain_token(text).first() != '"' && plain_token(
            text,
        ).last() != '"',
{
    text::trimming_leaves_no_edge(text::trimmed(text), '"');
}

/// A normalized token is not changed by normalizing it again.
pub proof fn normalized_token_stays(token: Seq<char>)
    ensures
        text::trimmed(text::trimmed(token)) == text::trimmed(token),
{
    text::strip_is_idempotent(token, |c: char| text::is_white_space(c));
}

/// The token in a reply to a token request: the member `token` of an object, where it is a string;
/// the string itself, where the reply is one; and else the text of the reply, without white space
/// and then without quotation marks at its ends.
pub proof fn the_token_of_each_kind_of_reply(
    text: Seq<char>,
    token: Seq<char>,
    members: Map<Seq<char>, JsonModel>,
    other: JsonModel,
)
    ensures
        members.contains_key("token"@) && members["token"@] == JsonModel::String(token)
            ==> token_in_reply(text, Some(JsonModel::Object(members))) == token,
        !(members.contains_key("token"@) && members["token"@] is String) ==> token_in_reply(
            text,
            Some(JsonModel::Object(members)),
        ) == text::trimmed_of(text::trimmed(text), '"'),
        token_in_reply(text, Some(JsonModel::String(token))) == token,
        !(other is Object) && !(other is String) ==> token_in_reply(text, Some(other))
            == text::trimmed_of(text::trimmed(text), '"'),
        token_in_reply(text, None) == text::trimmed_of(text::trimmed(text), '"'),
{
}

/// The addresses of a hub name its host, then its port in decimal, and the socket's address ends
/// with the token.
pub proof fn addresses_name_host_port_and_token(host: Seq<char>, port: u16, token: Seq<char>)
    ensures
        exists|digits: Seq<char>|
            #![trigger text::number_of(digits)]
            {
                &&& text::number_of(digits) == port
                &&& digits == text::decimal_text(port as nat)
                &&& token_url_text(host, port) == "http://"@ + host + ":"@ + digits
                    + "/api/plugins/_session_token"@
                &&& socket_url_text(host, port, token) == "ws://"@ + host + ":"@ + digits
                    + "/ws/plugin?token="@ + token
            },
{
    let digits = text::decimal_text(port as nat);
    text::a_decimal_text_stands_for_its_number(port as nat);
    assert(text::number_of(digits) == port);
    assert(token_url_text(host, port) =~= "http://"@ + host + ":"@ + digits
        + "/api/plugins/_session_token"@);
    assert(socket_url_text(host, port, token) =~= "ws://"@ + host + ":"@ + digits
        + "/ws/plugin?token="@ + token);
}

} // verus!
