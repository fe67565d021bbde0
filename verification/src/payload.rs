//! JSON payloads: what a chat message carries, and the notices that the
//! server itself sends.
use vstd::prelude::*;

verus! {

/// What a JSON value holds, as far as the server looks into one: the texts and
/// the objects that it builds. Any other value is carried through as it is.
pub enum Json {
    Text(Seq<char>),
    Object(Map<Seq<char>, Json>),
    Other(serde_json::Value),
}

/// `serde_json::Value`, carried through unread.
#[verifier::external_type_specification]
#[verifier::external_body]
pub struct ExValue(serde_json::Value);

/// `serde_json::Map`, the members of a JSON object.
#[verifier::external_type_specification]
#[verifier::external_body]
#[verifier::reject_recursive_types(K)]
#[verifier::reject_recursive_types(V)]
pub struct ExMembers<K, V>(serde_json::Map<K, V>);

/// What a `serde_json::Value` holds.
pub uninterp spec fn json(value: serde_json::Value) -> Json;

/// What a `serde_json::Map` holds: each member's value by the member's name.
pub uninterp spec fn json_members(
    members: serde_json::Map<String, serde_json::Value>,
) -> Map<Seq<char>, Json>;

/// `serde_json::Value::clone`, a derived copy: the copy is the value.
pub assume_specification[ <serde_json::Value as Clone>::clone ](
    value: &serde_json::Value,
) -> (copy: serde_json::Value)
    ensures
        copy == *value,
;

/// `serde_json::Map::new` gives a map without members.
pub assume_specification[ serde_json::Map::<String, serde_json::Value>::new ]() -> (members: serde_json::Map<String, serde_json::Value>)
    ensures
        json_members(members).is_empty(),
;

/// `serde_json::Map::insert` sets one member and hands back the value that
/// the member had before.
pub assume_specification[ serde_json::Map::<String, serde_json::Value>::insert ](
    members: &mut serde_json::Map<String, serde_json::Value>,
    k: String,
    v: serde_json::Value,
) -> (previous: Option<serde_json::Value>)
    ensures
        json_members(*final(members)) == json_members(*old(members)).insert(k@, json(v)),
        previous is Some <==> json_members(*old(members)).contains_key(k@),
        previous matches Some(value) ==> json(value) == json_members(*old(members))[k@],
;

/// `serde_json::Value::from` on a `String` gives the JSON text with those
/// characters.
#[verifier::external_body]
fn text_value(text: String) -> (value: serde_json::Value)
    ensures
        json(value) == Json::Text(text@),
{
    serde_json::Value::from(text)
}

/// `serde_json::Value::from` on a map gives the JSON object with those members.
#[verifier::external_body]
fn object_value(members: serde_json::Map<String, serde_json::Value>) -> (value: serde_json::Value)
    ensures
        json(value) == Json::Object(json_members(members)),
{
    serde_json::Value::from(members)
}

/// The object that announces an event of the given kind in the given words.
pub open spec fn notice(kind: Seq<char>, words: Seq<char>) -> Json {
    Json::Object(map!["type"@ => Json::Text(kind), "message"@ => Json::Text(words)])
}

/// The notice that `username` has joined.
pub open spec fn joined_notice(username: Seq<char>) -> Json {
    notice("user_joined"@, username + " joined the chat"@)
}

/// The notice that `username` has left.
pub open spec fn left_notice(username: Seq<char>) -> Json {
    notice("user_left"@, username + " left the chat"@)
}

/// Builds a notice.
pub fn notice_payload(kind: &str, words: String) -> (payload: serde_json::Value)
    ensures
        json(payload) == notice(kind@, words@),
{
    let mut members = serde_json::Map::new();
    members.insert("type".to_owned(), text_value(kind.to_owned()));
    members.insert("message".to_owned(), text_value(words));
    assert(json_members(members) =~= map![
        "type"@ => Json::Text(kind@),
        "message"@ => Json::Text(words@),
    ]);
    object_value(members)
}

/// Builds the notice that a user has joined.
pub fn joined_payload(username: &str) -> (payload: serde_json::Value)
    ensures
        json(payload) == joined_notice(username@),
{
    notice_payload("user_joined", username.to_owned().concat(" joined the chat"))
}

/// Builds the notice that a user has left.
pub fn left_payload(username: &str) -> (payload: serde_json::Value)
    ensures
        json(payload) == left_notice(username@),
{
    notice_payload("user_left", username.to_owned().concat(" left the chat"))
}

} // verus!
