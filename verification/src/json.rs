//! JSON values, as far as this library builds them.
//!
//! The values are those of `serde_json` and are opaque here. What such a
//! value holds is modelled by [`Json`]. The functions of this file that make a
//! value, fill an object or render a value are believed, not proved; each one
//! is a single call into `serde_json`, and its contract says what the result
//! holds. The builders further down are verified against those contracts.

use vstd::prelude::*;
use vstd::string::*;
use serde_json::Value;
use twilight_cache_inmemory::model::CachedGuild;
use twilight_model::channel::Channel;
use twilight_model::user::User;
use crate::ident::decimal;
use crate::ident::id_text;

verus! {

/// `serde_json::Map`, the object type of `serde_json`.
#[verifier::external_type_specification]
#[verifier::external_body]
#[verifier::reject_recursive_types(K)]
#[verifier::reject_recursive_types(V)]
pub struct ExJsonMap<K, V>(serde_json::Map<K, V>);

/// `serde_json::Value`, any JSON value.
#[verifier::external_type_specification]
#[verifier::external_body]
pub struct ExJsonValue(Value);

/// `serde_json::Error`, the failure of a serialisation.
#[verifier::external_type_specification]
#[verifier::external_body]
pub struct ExJsonError(serde_json::Error);

/// A JSON object with string keys.
pub type JsonObject = serde_json::Map<String, Value>;

/// The mathematical content of a JSON value.
pub enum Json {
    Null,
    Bool(bool),
    /// A number, as the text that writes it.
    Number(Seq<char>),
    Text(Seq<char>),
    Array(Seq<Json>),
    Object(Map<Seq<char>, Json>),
}

/// What a JSON value holds.
pub uninterp spec fn json_view(value: Value) -> Json;

/// What a JSON object holds: each key with what its value holds.
pub uninterp spec fn json_members(object: JsonObject) -> Map<Seq<char>, Json>;

/// The compact text of a JSON value, as `serde_json` writes it. The text
/// follows from the members of an object alone because `serde_json` keeps the
/// keys of an object sorted; this library is built without the feature of
/// `serde_json` that keeps them in order of insertion instead, under which two
/// objects with the same members could be written differently.
pub uninterp spec fn json_rendering(json: Json) -> Seq<char>;

/// What each of the values holds, in their order.
pub open spec fn json_views(values: Seq<Value>) -> Seq<Json> {
    values.map_values(|value: Value| json_view(value))
}

/// No members at all.
pub open spec fn no_members() -> Map<Seq<char>, Json> {
    Map::empty()
}

/// A JSON object without members (`serde_json::Map::new`).
#[verifier::external_body]
pub(crate) fn empty_object() -> (object: JsonObject)
    ensures
        json_members(object) == no_members(),
{
    serde_json::Map::new()
}

/// Sets a member of a JSON object (`serde_json::Map::insert`): the key then
/// has the new value, whether or not it had one before, and every other
/// member stays as it was.
#[verifier::external_body]
pub(crate) fn put(object: &mut JsonObject, key: &str, value: Value)
    ensures
        json_members(*final(object)) == json_members(*old(object)).insert(key@, json_view(value)),
{
    object.insert(key.to_owned(), value);
}

/// Wraps a string as a JSON value (`Value::String`).
#[verifier::external_body]
pub(crate) fn text_value(text: String) -> (value: Value)
    ensures
        json_view(value) == Json::Text(text@),
{
    Value::String(text)
}

/// Wraps a boolean as a JSON value (`Value::Bool`).
#[verifier::external_body]
pub(crate) fn bool_value(flag: bool) -> (value: Value)
    ensures
        json_view(value) == Json::Bool(flag),
{
    Value::Bool(flag)
}

/// Wraps a list of values as a JSON array (`Value::Array`).
#[verifier::external_body]
pub(crate) fn array_value(items: Vec<Value>) -> (value: Value)
    ensures
        json_view(value) == Json::Array(json_views(items@)),
{
    Value::Array(items)
}

/// Wraps an object as a JSON value (`Value::Object`).
#[verifier::external_body]
pub(crate) fn object_value(object: JsonObject) -> (value: Value)
    ensures
        json_view(value) == Json::Object(json_members(object)),
{
    Value::Object(object)
}

/// Writes a JSON value as compact text (`Value`'s `Display`, through
/// `to_string`).
#[verifier::external_body]
pub(crate) fn render(value: &Value) -> (text: String)
    ensures
        text@ == json_rendering(json_view(*value)),
{
    value.to_string()
}

/// The JSON text of a guild's scalar attributes, if they can be serialised.
pub uninterp spec fn guild_json(guild: CachedGuild) -> Option<Seq<char>>;

/// The JSON text of a channel, if it can be serialised.
pub uninterp spec fn channel_json(channel: Channel) -> Option<Seq<char>>;

/// The JSON text of a user, if it can be serialised.
pub uninterp spec fn user_json(user: User) -> Option<Seq<char>>;

/// What a serialisation gave is the text, or the lack of it, that the name
/// stands for.
pub open spec fn is_serialisation(
    text: Result<String, serde_json::Error>,
    named: Option<Seq<char>>,
) -> bool {
    match text {
        Ok(text) => named == Some(text@),
        Err(_) => named is None,
    }
}

/// Serialises a guild's scalar attributes (`serde_json::to_string`). Whether
/// it succeeds is up to the record's own serialisation.
#[verifier::external_body]
pub(crate) fn guild_to_json(guild: &CachedGuild) -> (text: Result<String, serde_json::Error>)
    ensures
        is_serialisation(text, guild_json(*guild)),
{
    serde_json::to_string(guild)
}

/// Serialises a channel (`serde_json::to_string`). Whether it succeeds is up
/// to the record's own serialisation.
#[verifier::external_body]
pub(crate) fn channel_to_json(channel: &Channel) -> (text: Result<String, serde_json::Error>)
    ensures
        is_serialisation(text, channel_json(*channel)),
{
    serde_json::to_string(channel)
}

/// Serialises a user (`serde_json::to_string`). Whether it succeeds is up to
/// the record's own serialisation.
#[verifier::external_body]
pub(crate) fn user_to_json(user: &User) -> (text: Result<String, serde_json::Error>)
    ensures
        is_serialisation(text, user_json(*user)),
{
    serde_json::to_string(user)
}

/// The stub that stands for a guild in a session-ready payload: an object
/// with the identifier as decimal text under `id`, and `true` under
/// `unavailable`.
pub open spec fn stub_json(id: u64) -> Json {
    Json::Object(
        no_members().insert("id"@, Json::Text(decimal(id as nat))).insert(
            "unavailable"@,
            Json::Bool(true),
        ),
    )
}

/// The stubs of a list of guilds, in its order.
pub open spec fn stubs_json(ids: Seq<u64>) -> Seq<Json> {
    ids.map_values(|id: u64| stub_json(id))
}

/// The error object: the given text under `message`.
pub open spec fn message_json(text: Seq<char>) -> Json {
    Json::Object(no_members().insert("message"@, Json::Text(text)))
}

/// The answer of a membership probe: the result under `found`.
pub open spec fn found_json(found: bool) -> Json {
    Json::Object(no_members().insert("found"@, Json::Bool(found)))
}

/// Builds the stub that stands for a guild in a session-ready payload.
pub fn guild_stub(id: u64) -> (value: Value)
    ensures
        json_view(value) == stub_json(id),
{
    let mut object = empty_object();
    put(&mut object, "id", text_value(id_text(id)));
    put(&mut object, "unavailable", bool_value(true));
    object_value(object)
}

/// Builds the stubs of a list of guilds, in its order.
pub fn guild_stubs(ids: &Vec<u64>) -> (stubs: Vec<Value>)
    ensures
        json_views(stubs@) == stubs_json(ids@),
{
    let mut stubs: Vec<Value> = Vec::new();
    let mut i: usize = 0;
    while i < ids.len()
        invariant
            i <= ids.len(),
            json_views(stubs@) == stubs_json(ids@.take(i as int)),
        decreases ids.len() - i,
    {
        let ghost before = stubs@;
        let stub = guild_stub(ids[i]);
        stubs.push(stub);
        proof {
            assert(json_views(stubs@) =~= json_views(before).push(json_view(stub)));
            assert(ids@.take(i + 1) =~= ids@.take(i as int).push(ids@[i as int]));
            assert(stubs_json(ids@.take(i + 1)) =~= stubs_json(ids@.take(i as int)).push(
                stub_json(ids@[i as int]),
            ));
        }
        i += 1;
    }
    assert(ids@.take(ids@.len() as int) == ids@);
    stubs
}

/// Renders the error object for a message.
pub fn message_body(text: &str) -> (body: String)
    ensures
        body@ == json_rendering(message_json(text@)),
{
    let mut object = empty_object();
    put(&mut object, "message", text_value(String::from_str(text)));
    let value = object_value(object);
    render(&value)
}

/// Renders the answer of a membership probe.
pub fn found_body(found: bool) -> (body: String)
    ensures
        body@ == json_rendering(found_json(found)),
{
    let mut object = empty_object();
    put(&mut object, "found", bool_value(found));
    let value = object_value(object);
    render(&value)
}

} // verus!
