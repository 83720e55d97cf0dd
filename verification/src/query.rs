//! Point queries across the stores of all shards.
//!
//! A query names an entity by its identifier as text. The text is checked
//! before any store is touched. Then every shard is asked; where several
//! shards hold the entity, the answer of the last one in the registry's order
//! is returned.

use vstd::prelude::*;
use vstd::string::*;
use twilight_model::user::User;
use crate::entities::{ChannelEntry, GuildEntry};
use crate::ident::id_of_text;
use crate::ident::parse_id;
use crate::json::channel_json;
use crate::json::found_json;
use crate::json::guild_json;
use crate::json::json_rendering;
use crate::json::message_json;
use crate::json::user_json;
use crate::json::{channel_to_json, found_body, guild_to_json, message_body, user_to_json};
use crate::reading::listed_ids;
use crate::store::channel_at;
use crate::store::guild_at;
use crate::store::index_at;
use crate::store::user_at;
use crate::store::{Guilds, IndexKey};

verus! {

/// One upstream shard, with its entity store borrowed for reading.
pub struct Shard<'a> {
    pub guilds: &'a Guilds,
}

/// The registry of shards, in a fixed order. It borrows the stores for as
/// long as a query runs, so that each shard can keep its store behind a lock
/// of its own.
pub struct State<'a> {
    pub shards: Vec<Shard<'a>>,
}

/// Why a query gave no entity.
#[derive(Debug, PartialEq, Eq, Clone, Copy)]
pub enum QueryError {
    /// The identifier is no positive number.
    Malformed,
    /// No shard holds the entity.
    NotFound,
    /// The entity was found but could not be serialised.
    Serialization,
    /// The operation needs a setting that was never supplied.
    MissingConfiguration,
}

/// The answer to a query: a status code and a JSON body.
#[derive(Debug)]
pub struct Response {
    pub status: u16,
    pub body: String,
}

/// The media type of every body.
pub const CONTENT_TYPE: &'static str = "application/json";

/// The body that rejects a request.
pub open spec fn bad_request_text() -> Seq<char> {
    json_rendering(message_json("Bad Request"@))
}

/// The body that reports an unknown entity of the named kind.
pub open spec fn not_found_text(kind: Seq<char>) -> Seq<char> {
    json_rendering(message_json("Unknown "@ + kind))
}

/// The body that reports an entity of the named kind that could not be
/// serialised.
pub open spec fn serialize_fail_text(kind: Seq<char>) -> Seq<char> {
    json_rendering(message_json("Failed to serialize "@ + kind))
}

/// The body that carries the result of a membership probe.
pub open spec fn found_text(found: bool) -> Seq<char> {
    json_rendering(found_json(found))
}

/// The response that rejects a request.
pub open spec fn is_bad_request(response: Response) -> bool {
    response.status == 400 && response.body@ == bad_request_text()
}

/// The response for an entity that no shard holds.
pub open spec fn is_not_found(response: Response, kind: Seq<char>) -> bool {
    response.status == 404 && response.body@ == not_found_text(kind)
}

/// The response for an entity that could not be serialised.
pub open spec fn is_serialize_failure(response: Response, kind: Seq<char>) -> bool {
    response.status == 503 && response.body@ == serialize_fail_text(kind)
}

/// The response that carries a serialised entity.
pub open spec fn is_entity(response: Response, text: Seq<char>) -> bool {
    response.status == 200 && response.body@ == text
}

/// The response that the outcome of an entity query calls for: the serialised
/// entity with status 200, a rejection with 400, an unknown entity with 404, a
/// failed serialisation with 503.
pub open spec fn responds(
    response: Response,
    kind: Seq<char>,
    outcome: Result<Seq<char>, QueryError>,
) -> bool {
    match outcome {
        Ok(text) => is_entity(response, text),
        Err(QueryError::Malformed) => is_bad_request(response),
        Err(QueryError::MissingConfiguration) => is_bad_request(response),
        Err(QueryError::NotFound) => is_not_found(response, kind),
        Err(QueryError::Serialization) => is_serialize_failure(response, kind),
    }
}

/// The response that the outcome of a membership probe calls for: the result
/// with status 200, or a rejection with 400.
pub open spec fn responds_to_probe(response: Response, outcome: Result<bool, QueryError>) -> bool {
    match outcome {
        Ok(found) => response.status == 200 && response.body@ == found_text(found),
        Err(_) => is_bad_request(response),
    }
}

/// An outcome with its text taken as characters.
pub open spec fn outcome_view(outcome: Result<String, QueryError>) -> Result<
    Seq<char>,
    QueryError,
> {
    match outcome {
        Ok(text) => Ok(text@),
        Err(error) => Err(error),
    }
}

/// The outcome of a query whose entity was found: its text, or the failure to
/// serialise it.
pub open spec fn outcome_of_text(text: Option<Seq<char>>) -> Result<Seq<char>, QueryError> {
    match text {
        Some(text) => Ok(text),
        None => Err(QueryError::Serialization),
    }
}

/// The last answer that is a hit, if any answer is.
pub open spec fn last_present<T>(found: Seq<Option<T>>) -> Option<T>
    decreases found.len(),
{
    if found.len() == 0 {
        None
    } else {
        match found.last() {
            Some(value) => Some(value),
            None => last_present(found.drop_last()),
        }
    }
}

/// What each shard, in the registry's order, holds as the guild with an
/// identifier.
pub open spec fn guild_answers(state: State<'_>, guild_id: u64) -> Seq<Option<GuildEntry>> {
    state.shards@.map_values(|shard: Shard| guild_at(*shard.guilds, guild_id))
}

/// What each shard, in the registry's order, holds as the channel with an
/// identifier.
pub open spec fn channel_answers(state: State<'_>, channel_id: u64) -> Seq<Option<ChannelEntry>> {
    state.shards@.map_values(|shard: Shard| channel_at(*shard.guilds, channel_id))
}

/// What each shard, in the registry's order, holds as the user with an
/// identifier.
pub open spec fn user_answers(state: State<'_>, user_id: u64) -> Seq<Option<User>> {
    state.shards@.map_values(|shard: Shard| user_at(*shard.guilds, user_id))
}

/// The outcome of the query for a guild by the text of its identifier.
pub open spec fn guild_outcome(state: State<'_>, text: Seq<u8>) -> Result<Seq<char>, QueryError> {
    match id_of_text(text) {
        Some(guild_id) => match last_present(guild_answers(state, guild_id)) {
            Some(entry) => outcome_of_text(guild_json(entry.guild)),
            None => Err(QueryError::NotFound),
        },
        None => Err(QueryError::Malformed),
    }
}

/// The outcome of the query for a channel by the text of its identifier.
pub open spec fn channel_outcome(state: State<'_>, text: Seq<u8>) -> Result<Seq<char>, QueryError> {
    match id_of_text(text) {
        Some(channel_id) => match last_present(channel_answers(state, channel_id)) {
            Some(entry) => outcome_of_text(channel_json(entry.channel)),
            None => Err(QueryError::NotFound),
        },
        None => Err(QueryError::Malformed),
    }
}

/// The outcome of the query for a user by the text of its identifier.
pub open spec fn user_outcome(state: State<'_>, text: Seq<u8>) -> Result<Seq<char>, QueryError> {
    match id_of_text(text) {
        Some(user_id) => match last_present(user_answers(state, user_id)) {
            Some(user) => outcome_of_text(user_json(user)),
            None => Err(QueryError::NotFound),
        },
        None => Err(QueryError::Malformed),
    }
}

/// The guilds that a store records a user in, or `None` where the store does
/// not hold the user. A user that is held without a record of guilds is in
/// none.
pub open spec fn membership_at(store: Guilds, user_id: u64) -> Option<Set<u64>> {
    if user_at(store, user_id) is Some {
        Some(listed_ids(index_at(store, IndexKey::UserGuilds(user_id))))
    } else {
        None
    }
}

/// Whether the set names a guild other than the excluded one.
pub open spec fn holds_other_guild(guilds: Set<u64>, excluded: u64) -> bool {
    exists|guild_id: u64| #[trigger] guilds.contains(guild_id) && guild_id != excluded
}

/// Whether a store holds the user and records it in a guild other than the
/// excluded one.
pub open spec fn recorded_elsewhere(store: Guilds, user_id: u64, excluded: u64) -> bool {
    membership_at(store, user_id) matches Some(guilds) && holds_other_guild(guilds, excluded)
}

/// Whether any shard holds the user and records it in a guild other than the
/// excluded one.
pub open spec fn known_elsewhere(state: State<'_>, user_id: u64, excluded: u64) -> bool {
    exists|i: int|
        0 <= i < state.shards@.len() && recorded_elsewhere(
            *(#[trigger] state.shards@[i]).guilds,
            user_id,
            excluded,
        )
}

/// The outcome of a membership probe by the text of the user's identifier.
/// Without a configured guild to exclude, every probe is refused.
pub open spec fn probe_outcome(state: State<'_>, text: Seq<u8>, excluded: Option<u64>) -> Result<
    bool,
    QueryError,
> {
    match id_of_text(text) {
        Some(user_id) => match excluded {
            Some(excluded) => Ok(known_elsewhere(state, user_id, excluded)),
            None => Err(QueryError::MissingConfiguration),
        },
        None => Err(QueryError::Malformed),
    }
}

/// Whether some list names a guild other than the excluded one. `memberships`
/// holds, for each shard, the guilds that the shard records the user in, or
/// `None` where the shard does not hold the user.
pub open spec fn in_other_guild(memberships: Seq<Option<Vec<u64>>>, excluded: u64) -> bool {
    exists|i: int|
        0 <= i < memberships.len() && lists_other_guild(#[trigger] memberships[i], excluded)
}

/// Whether a shard holds the user and its list names a guild other than the
/// excluded one.
pub open spec fn lists_other_guild(guilds: Option<Vec<u64>>, excluded: u64) -> bool {
    guilds matches Some(guilds) && names_other_guild(guilds@, excluded)
}

/// Whether the list names a guild other than the excluded one.
pub open spec fn names_other_guild(guilds: Seq<u64>, excluded: u64) -> bool {
    exists|j: int| 0 <= j < guilds.len() && #[trigger] guilds[j] != excluded
}

/// What was read of a user's memberships from one store.
pub open spec fn is_membership(guilds: Option<Vec<u64>>, store: Guilds, user_id: u64) -> bool {
    match guilds {
        Some(guilds) => membership_at(store, user_id) == Some(guilds@.to_set()),
        None => membership_at(store, user_id) is None,
    }
}

/// A hit after which every answer is a miss is the one returned.
pub proof fn last_match_wins<T>(found: Seq<Option<T>>, i: int)
    requires
        0 <= i < found.len(),
        found[i] is Some,
        forall|j: int| i < j < found.len() ==> found[j] is None,
    ensures
        last_present(found) == found[i],
    decreases found.len(),
{
    if i < found.len() - 1 {
        last_match_wins(found.drop_last(), i);
    }
}

/// Where exactly one shard holds the entity, that shard's entity is returned.
pub proof fn single_match_is_returned<T>(found: Seq<Option<T>>, i: int)
    requires
        0 <= i < found.len(),
        found[i] is Some,
        forall|j: int| 0 <= j < found.len() && j != i ==> found[j] is None,
    ensures
        last_present(found) == found[i],
{
    last_match_wins(found, i);
}

/// Where no shard holds the entity, none is returned; and where none is
/// returned, no shard held it.
pub proof fn nothing_found_means_no_shard_holds_it<T>(found: Seq<Option<T>>)
    ensures
        last_present(found) is None <==> forall|j: int| 0 <= j < found.len() ==> found[j] is None,
    decreases found.len(),
{
    if found.len() > 0 {
        nothing_found_means_no_shard_holds_it(found.drop_last());
        if last_present(found) is None {
            assert forall|j: int| 0 <= j < found.len() implies found[j] is None by {
                if j < found.len() - 1 {
                    assert(found.drop_last()[j] is None);
                }
            }
        } else if found.last() is None {
            let j = choose|j: int| 0 <= j < found.len() - 1 && !(found.drop_last()[j] is None);
            assert(found[j] is Some);
        }
    }
}

/// Exactly one shard, the one at `holder`, holds the entity.
pub open spec fn held_only_at<T>(found: Seq<Option<T>>, holder: int) -> bool {
    &&& 0 <= holder < found.len()
    &&& found[holder] is Some
    &&& forall|j: int| 0 <= j < found.len() && j != holder ==> found[j] is None
}

/// No shard holds the entity.
pub open spec fn held_nowhere<T>(found: Seq<Option<T>>) -> bool {
    forall|j: int| 0 <= j < found.len() ==> found[j] is None
}

/// A query with a well-formed identifier for an entity that exactly one shard
/// holds is answered with that shard's entity, serialised.
pub proof fn query_returns_the_only_holder_s_entity(state: State<'_>, text: Seq<u8>, holder: int)
    requires
        id_of_text(text) is Some,
    ensures
        held_only_at(guild_answers(state, id_of_text(text).unwrap()), holder) ==> guild_outcome(
            state,
            text,
        ) == outcome_of_text(
            guild_json(guild_answers(state, id_of_text(text).unwrap())[holder].unwrap().guild),
        ),
        held_only_at(channel_answers(state, id_of_text(text).unwrap()), holder)
            ==> channel_outcome(state, text) == outcome_of_text(
            channel_json(
                channel_answers(state, id_of_text(text).unwrap())[holder].unwrap().channel,
            ),
        ),
        held_only_at(user_answers(state, id_of_text(text).unwrap()), holder) ==> user_outcome(
            state,
            text,
        ) == outcome_of_text(user_json(user_answers(state, id_of_text(text).unwrap())[holder].unwrap())),
{
    let id = id_of_text(text).unwrap();
    if held_only_at(guild_answers(state, id), holder) {
        single_match_is_returned(guild_answers(state, id), holder);
    }
    if held_only_at(channel_answers(state, id), holder) {
        single_match_is_returned(channel_answers(state, id), holder);
    }
    if held_only_at(user_answers(state, id), holder) {
        single_match_is_returned(user_answers(state, id), holder);
    }
}

/// A query with a well-formed identifier for an entity that no shard holds is
/// answered as not found.
pub proof fn query_for_an_entity_held_nowhere_is_not_found(state: State<'_>, text: Seq<u8>)
    requires
        id_of_text(text) is Some,
    ensures
        held_nowhere(guild_answers(state, id_of_text(text).unwrap())) ==> guild_outcome(state, text)
            == Err::<Seq<char>, QueryError>(QueryError::NotFound),
        held_nowhere(channel_answers(state, id_of_text(text).unwrap())) ==> channel_outcome(
            state,
            text,
        ) == Err::<Seq<char>, QueryError>(QueryError::NotFound),
        held_nowhere(user_answers(state, id_of_text(text).unwrap())) ==> user_outcome(state, text)
            == Err::<Seq<char>, QueryError>(QueryError::NotFound),
{
    let id = id_of_text(text).unwrap();
    nothing_found_means_no_shard_holds_it(guild_answers(state, id));
    nothing_found_means_no_shard_holds_it(channel_answers(state, id));
    nothing_found_means_no_shard_holds_it(user_answers(state, id));
}

/// Text that names no identifier is refused by every query, whatever the
/// stores hold.
pub proof fn malformed_id_is_always_refused(state: State<'_>, text: Seq<u8>, excluded: Option<u64>)
    requires
        id_of_text(text) is None,
    ensures
        guild_outcome(state, text) == Err::<Seq<char>, QueryError>(QueryError::Malformed),
        channel_outcome(state, text) == Err::<Seq<char>, QueryError>(QueryError::Malformed),
        user_outcome(state, text) == Err::<Seq<char>, QueryError>(QueryError::Malformed),
        probe_outcome(state, text, excluded) == Err::<bool, QueryError>(QueryError::Malformed),
{
}

/// A user that no shard holds, or that shards hold only as a member of the
/// excluded guild, is not known elsewhere.
pub proof fn member_of_excluded_guild_only_is_not_elsewhere(
    state: State<'_>,
    user_id: u64,
    excluded: u64,
)
    requires
        forall|i: int|
            0 <= i < state.shards@.len() ==> (membership_at(
                *(#[trigger] state.shards@[i]).guilds,
                user_id,
            ) matches Some(guilds) ==> forall|guild_id: u64|
                guilds.contains(guild_id) ==> guild_id == excluded),
    ensures
        !known_elsewhere(state, user_id, excluded),
{
}

/// Picks the answer of the last shard that holds the entity.
pub fn last_match<T>(found: Vec<Option<T>>) -> (entity: Option<T>)
    ensures
        entity == last_present(found@),
{
    let mut entity: Option<T> = None;
    let ghost all = found@;
    for item in it: found
        invariant
            it.seq() == all,
            entity == last_present(all.take(it.index() as int)),
    {
        proof {
            let n = it.index() as int;
            assert(all.take(n + 1).drop_last() == all.take(n));
            assert(all.take(n + 1).last() == item);
        }
        match item {
            Some(value) => {
                entity = Some(value);
            },
            None => {},
        }
    }
    proof {
        assert(all.take(all.len() as int) == all);
    }
    entity
}

/// Whether a list of guilds names one other than the excluded guild.
pub fn any_other_guild(guilds: &Vec<u64>, excluded: u64) -> (found: bool)
    ensures
        found == names_other_guild(guilds@, excluded),
{
    let mut i: usize = 0;
    while i < guilds.len()
        invariant
            i <= guilds.len(),
            forall|j: int| 0 <= j < i ==> guilds@[j] == excluded,
        decreases guilds.len() - i,
    {
        if guilds[i] != excluded {
            return true;
        }
        i += 1;
    }
    false
}

/// Whether any shard records the user in a guild other than the excluded one.
pub fn member_elsewhere(memberships: &Vec<Option<Vec<u64>>>, excluded: u64) -> (found: bool)
    ensures
        found == in_other_guild(memberships@, excluded),
{
    let mut i: usize = 0;
    while i < memberships.len()
        invariant
            i <= memberships.len(),
            forall|k: int| 0 <= k < i ==> !lists_other_guild(#[trigger] memberships@[k], excluded),
        decreases memberships.len() - i,
    {
        match &memberships[i] {
            Some(guilds) => {
                if any_other_guild(guilds, excluded) {
                    assert(lists_other_guild(memberships@[i as int], excluded));
                    return true;
                }
            },
            None => {},
        }
        i += 1;
    }
    false
}

/// The body that reports an unknown entity of the named kind.
pub fn not_found_body(kind: &str) -> (body: String)
    ensures
        body@ == not_found_text(kind@),
{
    let text = String::from_str("Unknown ").concat(kind);
    message_body(text.as_str())
}

/// The body that reports an entity of the named kind that could not be
/// serialised.
pub fn serialize_fail_body(kind: &str) -> (body: String)
    ensures
        body@ == serialize_fail_text(kind@),
{
    let text = String::from_str("Failed to serialize ").concat(kind);
    message_body(text.as_str())
}

/// The body that rejects a request.
pub fn bad_request_body() -> (body: String)
    ensures
        body@ == bad_request_text(),
{
    message_body("Bad Request")
}

/// The response to a query for an entity of the named kind, given how the
/// query went.
pub fn entity_response(kind: &str, outcome: Result<String, QueryError>) -> (response: Response)
    ensures
        responds(response, kind@, outcome_view(outcome)),
{
    match outcome {
        Ok(text) => Response { status: 200, body: text },
        Err(QueryError::Malformed) => Response { status: 400, body: bad_request_body() },
        Err(QueryError::MissingConfiguration) => Response {
            status: 400,
            body: bad_request_body(),
        },
        Err(QueryError::NotFound) => Response { status: 404, body: not_found_body(kind) },
        Err(QueryError::Serialization) => Response {
            status: 503,
            body: serialize_fail_body(kind),
        },
    }
}

/// The response to a membership probe, given how the probe went.
pub fn probe_response(outcome: Result<bool, QueryError>) -> (response: Response)
    ensures
        responds_to_probe(response, outcome),
{
    match outcome {
        Ok(found) => Response { status: 200, body: found_body(found) },
        Err(_) => Response { status: 400, body: bad_request_body() },
    }
}

/// Turns the result of a serialisation into a query outcome.
pub fn serialized(text: Result<String, serde_json::Error>) -> (outcome: Result<String, QueryError>)
    ensures
        match text {
            Ok(text) => outcome == Ok::<String, QueryError>(text),
            Err(_) => outcome == Err::<String, QueryError>(QueryError::Serialization),
        },
{
    match text {
        Ok(text) => Ok(text),
        Err(_) => Err(QueryError::Serialization),
    }
}

impl Guilds {
    /// The guilds that this shard records a user in, or `None` where the shard
    /// does not hold the user. A user that is held without a record of guilds
    /// is in none.
    pub fn user_memberships(&self, user_id: u64) -> (guilds: Option<Vec<u64>>)
        requires
            user_id != 0,
        ensures
            is_membership(guilds, *self, user_id),
    {
        match self.lookup_user(user_id) {
            Some(_) => match self.user_guild_ids(user_id) {
                Some(guilds) => Some(guilds),
                None => {
                    let guilds: Vec<u64> = Vec::new();
                    assert(guilds@.to_set() =~= Set::<u64>::empty());
                    Some(guilds)
                },
            },
            None => None,
        }
    }
}

impl<'a> State<'a> {
    /// Asks every shard for a guild; the last shard that holds it wins.
    pub fn find_guild(&self, guild_id: u64) -> (found: Option<GuildEntry>)
        requires
            guild_id != 0,
        ensures
            found == last_present(guild_answers(*self, guild_id)),
    {
        let mut found: Vec<Option<GuildEntry>> = Vec::new();
        let mut i: usize = 0;
        while i < self.shards.len()
            invariant
                i <= self.shards.len(),
                guild_id != 0,
                found@ == guild_answers(*self, guild_id).take(i as int),
            decreases self.shards.len() - i,
        {
            found.push(self.shards[i].guilds.lookup_guild(guild_id));
            assert(found@ =~= guild_answers(*self, guild_id).take(i + 1));
            i += 1;
        }
        assert(found@ =~= guild_answers(*self, guild_id));
        last_match(found)
    }

    /// Asks every shard for a channel; the last shard that holds it wins.
    pub fn find_channel(&self, channel_id: u64) -> (found: Option<ChannelEntry>)
        requires
            channel_id != 0,
        ensures
            found == last_present(channel_answers(*self, channel_id)),
    {
        let mut found: Vec<Option<ChannelEntry>> = Vec::new();
        let mut i: usize = 0;
        while i < self.shards.len()
            invariant
                i <= self.shards.len(),
                channel_id != 0,
                found@ == channel_answers(*self, channel_id).take(i as int),
            decreases self.shards.len() - i,
        {
            found.push(self.shards[i].guilds.lookup_channel(channel_id));
            assert(found@ =~= channel_answers(*self, channel_id).take(i + 1));
            i += 1;
        }
        assert(found@ =~= channel_answers(*self, channel_id));
        last_match(found)
    }

    /// Asks every shard for a user; the last shard that holds it wins.
    pub fn find_user(&self, user_id: u64) -> (found: Option<User>)
        requires
            user_id != 0,
        ensures
            found == last_present(user_answers(*self, user_id)),
    {
        let mut found: Vec<Option<User>> = Vec::new();
        let mut i: usize = 0;
        while i < self.shards.len()
            invariant
                i <= self.shards.len(),
                user_id != 0,
                found@ == user_answers(*self, user_id).take(i as int),
            decreases self.shards.len() - i,
        {
            found.push(self.shards[i].guilds.lookup_user(user_id));
            assert(found@ =~= user_answers(*self, user_id).take(i + 1));
            i += 1;
        }
        assert(found@ =~= user_answers(*self, user_id));
        last_match(found)
    }

    /// Asks every shard for the guilds that it records a user in.
    pub fn memberships(&self, user_id: u64) -> (found: Vec<Option<Vec<u64>>>)
        requires
            user_id != 0,
        ensures
            found@.len() == self.shards@.len(),
            forall|i: int|
                0 <= i < found@.len() ==> is_membership(
                    #[trigger] found@[i],
                    *self.shards@[i].guilds,
                    user_id,
                ),
    {
        let mut found: Vec<Option<Vec<u64>>> = Vec::new();
        let mut i: usize = 0;
        while i < self.shards.len()
            invariant
                i <= self.shards.len(),
                found@.len() == i,
                user_id != 0,
                forall|k: int|
                    0 <= k < found@.len() ==> is_membership(
                        #[trigger] found@[k],
                        *self.shards@[k].guilds,
                        user_id,
                    ),
            decreases self.shards.len() - i,
        {
            found.push(self.shards[i].guilds.user_memberships(user_id));
            i += 1;
        }
        found
    }

    /// Whether any shard holds the user and records it in a guild other than
    /// the excluded one.
    pub fn is_member_elsewhere(&self, user_id: u64, excluded: u64) -> (found: bool)
        requires
            user_id != 0,
        ensures
            found == known_elsewhere(*self, user_id, excluded),
    {
        let memberships = self.memberships(user_id);
        let found = member_elsewhere(&memberships, excluded);
        proof {
            if found {
                let i = choose|i: int|
                    0 <= i < memberships@.len() && lists_other_guild(
                        #[trigger] memberships@[i],
                        excluded,
                    );
                let guilds = memberships@[i].unwrap();
                let j = choose|j: int| 0 <= j < guilds@.len() && #[trigger] guilds@[j] != excluded;
                assert(is_membership(memberships@[i], *self.shards@[i].guilds, user_id));
                assert(guilds@.to_set().contains(guilds@[j]));
                assert(recorded_elsewhere(*self.shards@[i].guilds, user_id, excluded));
            }
            if known_elsewhere(*self, user_id, excluded) {
                let i = choose|i: int|
                    0 <= i < self.shards@.len() && recorded_elsewhere(
                        *(#[trigger] self.shards@[i]).guilds,
                        user_id,
                        excluded,
                    );
                assert(is_membership(memberships@[i], *self.shards@[i].guilds, user_id));
                let guilds = memberships@[i].unwrap();
                let guild_id = choose|guild_id: u64|
                    #[trigger] guilds@.to_set().contains(guild_id) && guild_id != excluded;
                let j = choose|j: int| 0 <= j < guilds@.len() && guilds@[j] == guild_id;
                assert(guilds@[j] != excluded);
                assert(names_other_guild(guilds@, excluded));
                assert(lists_other_guild(memberships@[i], excluded));
            }
        }
        found
    }
}

/// Looks a guild up by its identifier as text.
///
/// Text that names no identifier is rejected with 400 whatever the stores
/// hold. Otherwise the answer is 404 where no shard holds the guild, else 200
/// with the serialised guild of the last shard that holds it, or 503 where
/// its serialisation failed.
pub fn handle_cache_guild(value: &str, state: &State<'_>) -> (response: Response)
    ensures
        responds(response, "guild"@, guild_outcome(*state, value.spec_bytes())),
{
    let outcome = match parse_id(value) {
        Some(guild_id) => match state.find_guild(guild_id) {
            Some(entry) => serialized(guild_to_json(&entry.guild)),
            None => Err(QueryError::NotFound),
        },
        None => Err(QueryError::Malformed),
    };
    entity_response("guild", outcome)
}

/// Looks a channel up by its identifier as text.
///
/// Text that names no identifier is rejected with 400 whatever the stores
/// hold. Otherwise the answer is 404 where no shard holds the channel, else
/// 200 with the serialised channel of the last shard that holds it, or 503
/// where its serialisation failed.
pub fn handle_cache_channel(value: &str, state: &State<'_>) -> (response: Response)
    ensures
        responds(response, "channel"@, channel_outcome(*state, value.spec_bytes())),
{
    let outcome = match parse_id(value) {
        Some(channel_id) => match state.find_channel(channel_id) {
            Some(entry) => serialized(channel_to_json(&entry.channel)),
            None => Err(QueryError::NotFound),
        },
        None => Err(QueryError::Malformed),
    };
    entity_response("channel", outcome)
}

/// Looks a user up by its identifier as text.
///
/// Text that names no identifier is rejected with 400 whatever the stores
/// hold. Otherwise the answer is 404 where no shard holds the user, else 200
/// with the serialised user of the last shard that holds it, or 503 where its
/// serialisation failed.
pub fn handle_cache_user(value: &str, state: &State<'_>) -> (response: Response)
    ensures
        responds(response, "user"@, user_outcome(*state, value.spec_bytes())),
{
    let outcome = match parse_id(value) {
        Some(user_id) => match state.find_user(user_id) {
            Some(user) => serialized(user_to_json(&user)),
            None => Err(QueryError::NotFound),
        },
        None => Err(QueryError::Malformed),
    };
    entity_response("user", outcome)
}

/// Answers whether a user is a member of any guild other than the support
/// guild, on any shard.
///
/// Text that names no identifier is rejected with 400, and so is every probe
/// while no support guild is configured. Otherwise the answer has status 200
/// and carries the result.
pub fn handle_cache_isbotuser(value: &str, state: &State<'_>, support_guild_id: Option<u64>) -> (response:
    Response)
    ensures
        responds_to_probe(
            response,
            probe_outcome(*state, value.spec_bytes(), support_guild_id),
        ),
{
    let outcome = match parse_id(value) {
        Some(user_id) => match support_guild_id {
            Some(excluded) => Ok(state.is_member_elsewhere(user_id, excluded)),
            None => Err(QueryError::MissingConfiguration),
        },
        None => Err(QueryError::Malformed),
    };
    probe_response(outcome)
}

} // verus!
