//! The replay stream of a session: a session-ready payload, then one event for
//! each guild, every payload stamped with the next sequence number.
//!
//! The sequence counter belongs to the caller's session. It is handed to each
//! producing function and advanced by exactly one for each payload produced,
//! whatever the payload is.

use vstd::prelude::*;
use crate::entities::GuildEntry;
use crate::json::guild_stubs;
use crate::json::json_members;
use crate::json::stubs_json;
use crate::json::{array_value, put, Json, JsonObject};
use crate::reading::rebuilt_from;
use crate::reading::reconstruction_is_repeatable;
use crate::snapshot::GuildAggregate;
use crate::store::all_entries_wf;
use crate::store::distinct_ids;
use crate::store::guild_at;
use crate::store::is_guild_walk;
use crate::store::walk_names;
use crate::store::Guilds;

verus! {

/// The operation code of a dispatch.
pub const OP_DISPATCH: u8 = 0;

/// A payload in its envelope: the data, the operation code, the name of the
/// event type and the sequence number.
#[derive(Debug)]
pub struct Payload<T> {
    pub d: T,
    pub op: u8,
    pub t: &'static str,
    pub s: usize,
}

/// The minimal stand-in for a guild that is not available.
#[derive(Debug)]
pub struct GuildDelete {
    pub id: u64,
    pub unavailable: bool,
}

/// What the replay emits for one guild: either the stub of an unavailable
/// guild or the guild rebuilt in full. There is nothing in between.
#[derive(Debug)]
pub enum GuildEvent {
    Delete(GuildDelete),
    Create(GuildAggregate),
}

/// The sequence number after one more payload.
pub open spec fn next_sequence(sequence: int) -> int {
    sequence + 1
}

/// The sequence number after `emitted` payloads.
pub open spec fn sequence_after(start: int, emitted: nat) -> int
    decreases emitted,
{
    if emitted == 0 {
        start
    } else {
        next_sequence(sequence_after(start, (emitted - 1) as nat))
    }
}

/// The identifiers of the walked guilds that are not marked unavailable, in
/// the order of the walk.
pub open spec fn loaded_guild_ids(entries: Seq<GuildEntry>) -> Seq<u64>
    decreases entries.len(),
{
    if entries.len() == 0 {
        Seq::empty()
    } else if entries.last().is_unavailable() {
        loaded_guild_ids(entries.drop_last())
    } else {
        loaded_guild_ids(entries.drop_last()).push(entries.last().id)
    }
}

/// The guilds that a session-ready payload lists: first the loaded guilds of
/// the walk, then the guilds recorded as unavailable.
pub open spec fn ready_guild_ids(entries: Seq<GuildEntry>, unavailable: Seq<u64>) -> Seq<u64> {
    loaded_guild_ids(entries) + unavailable
}

/// The walk holds a guild under the identifier that is not marked unavailable.
pub open spec fn walk_names_loaded(entries: Seq<GuildEntry>, guild_id: u64) -> bool {
    exists|i: int|
        0 <= i < entries.len() && !(#[trigger] entries[i]).is_unavailable() && entries[i].id
            == guild_id
}

/// No loaded guild of the walk is recorded as unavailable.
pub open spec fn record_names_no_loaded_guild(entries: Seq<GuildEntry>, unavailable: Seq<u64>) -> bool {
    forall|i: int|
        0 <= i < entries.len() && !(#[trigger] entries[i]).is_unavailable()
            ==> !unavailable.contains(entries[i].id)
}

/// How many payloads are taken from a cursor that is asked for at most `limit`
/// and has `remaining` still to come.
pub open spec fn taken(limit: usize, remaining: nat) -> nat {
    if limit <= remaining {
        limit as nat
    } else {
        remaining
    }
}

/// The base object with the list of guild stubs set under `guilds`.
pub open spec fn ready_members(ready: JsonObject, ids: Seq<u64>) -> Map<Seq<char>, Json> {
    json_members(ready).insert("guilds"@, Json::Array(stubs_json(ids)))
}

/// The payload that the replay emits for a guild entry: a delete event with
/// the stub where the guild is marked unavailable, else a create event with
/// the guild rebuilt from the store.
pub open spec fn emitted_for(entry: GuildEntry, store: Guilds, payload: Payload<GuildEvent>) -> bool {
    &&& payload.op == OP_DISPATCH
    &&& if entry.is_unavailable() {
        &&& payload.t@ == "GUILD_DELETE"@
        &&& payload.d == GuildEvent::Delete(GuildDelete { id: entry.id, unavailable: true })
    } else {
        &&& payload.t@ == "GUILD_CREATE"@
        &&& payload.d matches GuildEvent::Create(aggregate)
        &&& rebuilt_from(aggregate, store, entry)
        &&& aggregate.wf()
    }
}

/// After any number of payloads the counter stands at its start plus that
/// number.
pub proof fn sequence_advances_by_count(start: int, emitted: nat)
    ensures
        sequence_after(start, emitted) == start + emitted,
    decreases emitted,
{
    if emitted > 0 {
        sequence_advances_by_count(start, (emitted - 1) as nat);
    }
}

/// A whole replay, one ready payload and one event for each walked guild,
/// leaves the counter at its start plus the number of payloads. Which of the
/// guilds are unavailable plays no part.
pub proof fn replay_advances_by_payload_count(start: int, entries: Seq<GuildEntry>)
    ensures
        sequence_after(next_sequence(start), entries.len()) == start + 1 + entries.len(),
        sequence_after(start, 1 + entries.len()) == start + 1 + entries.len(),
{
    sequence_advances_by_count(next_sequence(start), entries.len());
    sequence_advances_by_count(start, 1 + entries.len());
}

/// A replay that is abandoned after any number of guild events leaves the
/// counter at its start plus the payloads that were produced: the ready
/// payload and the events taken, and nothing for the guilds not reached.
pub proof fn abandoned_replay_counts_what_was_produced(
    start: int,
    limit: usize,
    entries: Seq<GuildEntry>,
)
    ensures
        taken(limit, entries.len()) <= entries.len(),
        sequence_after(next_sequence(start), taken(limit, entries.len())) == start + 1 + taken(
            limit,
            entries.len(),
        ),
{
    sequence_advances_by_count(next_sequence(start), taken(limit, entries.len()));
}

/// A guild gets exactly one of the two kinds of event, never both and never
/// neither: the stub where it is marked unavailable, the full aggregate
/// otherwise.
pub proof fn each_guild_gets_one_kind_of_event(
    entry: GuildEntry,
    store: Guilds,
    payload: Payload<GuildEvent>,
)
    requires
        emitted_for(entry, store, payload),
    ensures
        (payload.d is Delete) != (payload.d is Create),
        payload.d is Delete <==> entry.is_unavailable(),
        payload.d is Create <==> !entry.is_unavailable(),
{
}

/// The guild that an event is about.
pub open spec fn event_guild_id(event: GuildEvent) -> u64 {
    match event {
        GuildEvent::Delete(stub) => stub.id,
        GuildEvent::Create(aggregate) => aggregate.id,
    }
}

/// One pass over the guilds of a store emits, for each guild that the store
/// holds, exactly one event: there is one payload about the guild and no
/// other, and it is the stub where the store marks the guild unavailable and
/// the full aggregate otherwise.
pub proof fn each_stored_guild_gets_exactly_one_event(
    store: Guilds,
    entries: Seq<GuildEntry>,
    payloads: Seq<Payload<GuildEvent>>,
    guild_id: u64,
) -> (i: int)
    requires
        is_guild_walk(entries, store),
        payloads.len() == entries.len(),
        forall|k: int|
            0 <= k < entries.len() ==> emitted_for(entries[k], store, #[trigger] payloads[k]),
        guild_at(store, guild_id) is Some,
    ensures
        0 <= i < payloads.len(),
        event_guild_id(payloads[i].d) == guild_id,
        forall|j: int|
            0 <= j < payloads.len() && j != i ==> event_guild_id((#[trigger] payloads[j]).d)
                != guild_id,
        payloads[i].d is Delete <==> guild_at(store, guild_id).unwrap().is_unavailable(),
        payloads[i].d is Create <==> !guild_at(store, guild_id).unwrap().is_unavailable(),
{
    assert(walk_names(entries, guild_id));
    let i = choose|i: int| 0 <= i < entries.len() && (#[trigger] entries[i]).id == guild_id;
    assert(emitted_for(entries[i], store, payloads[i]));
    assert forall|j: int| 0 <= j < payloads.len() && j != i implies event_guild_id(
        (#[trigger] payloads[j]).d,
    ) != guild_id by {
        assert(emitted_for(entries[j], store, payloads[j]));
        if j < i {
            assert(entries[j].id != entries[i].id);
        } else {
            assert(entries[i].id != entries[j].id);
        }
    }
    i
}

/// Two passes over a store that has not changed in between agree on every
/// guild: both emit its stub, or both emit it rebuilt in full, with the same
/// scalar attributes and the same set of children in every collection.
pub proof fn passes_agree_on_every_guild(
    store: Guilds,
    first_walk: Seq<GuildEntry>,
    second_walk: Seq<GuildEntry>,
    first: Seq<Payload<GuildEvent>>,
    second: Seq<Payload<GuildEvent>>,
    i: int,
    j: int,
)
    requires
        is_guild_walk(first_walk, store),
        is_guild_walk(second_walk, store),
        first.len() == first_walk.len(),
        second.len() == second_walk.len(),
        forall|k: int|
            0 <= k < first.len() ==> emitted_for(first_walk[k], store, #[trigger] first[k]),
        forall|k: int|
            0 <= k < second.len() ==> emitted_for(second_walk[k], store, #[trigger] second[k]),
        0 <= i < first.len(),
        0 <= j < second.len(),
        event_guild_id(first[i].d) == event_guild_id(second[j].d),
    ensures
        first[i].t@ == second[j].t@,
        first[i].d is Delete ==> first[i].d == second[j].d,
        first[i].d matches GuildEvent::Create(rebuilt) ==> second[j].d matches GuildEvent::Create(
            again,
        ) && rebuilt.agrees_with(again),
{
    assert(emitted_for(first_walk[i], store, first[i]));
    assert(emitted_for(second_walk[j], store, second[j]));
    assert(first_walk[i].id == second_walk[j].id);
    assert(first_walk[i] == second_walk[j]);
    match (first[i].d, second[j].d) {
        (GuildEvent::Create(rebuilt), GuildEvent::Create(again)) => {
            reconstruction_is_repeatable(store, first_walk[i], rebuilt, again);
        },
        _ => {},
    }
}

/// The payloads are the guild events of a walk, one for each guild in the order
/// of the walk, stamped with the sequence numbers that follow `start`.
pub open spec fn follows_walk(
    payloads: Seq<Payload<GuildEvent>>,
    entries: Seq<GuildEntry>,
    store: Guilds,
    start: int,
) -> bool {
    &&& payloads.len() == entries.len()
    &&& forall|k: int|
        0 <= k < payloads.len() ==> {
            &&& emitted_for(entries[k], store, #[trigger] payloads[k])
            &&& payloads[k].s == start + k + 1
        }
}

/// The payloads are one full pass over the guilds of a store: the guild events
/// of one walk over its guilds, taken to the end.
pub open spec fn is_pass(payloads: Seq<Payload<GuildEvent>>, store: Guilds, start: int) -> bool {
    exists|entries: Seq<GuildEntry>|
        is_guild_walk(entries, store) && #[trigger] follows_walk(payloads, entries, store, start)
}

/// In one full pass every guild that the store holds gets exactly one event,
/// never none and never two. It is the stub, a delete event with the guild's
/// identifier and the flag set and nothing else, exactly where the store marks
/// the guild unavailable; otherwise it is a create event with the guild
/// rebuilt from the store.
pub proof fn pass_has_one_event_for_each_stored_guild(
    store: Guilds,
    payloads: Seq<Payload<GuildEvent>>,
    start: int,
    guild_id: u64,
) -> (i: int)
    requires
        is_pass(payloads, store, start),
        guild_at(store, guild_id) is Some,
    ensures
        0 <= i < payloads.len(),
        event_guild_id(payloads[i].d) == guild_id,
        forall|j: int|
            0 <= j < payloads.len() && j != i ==> event_guild_id((#[trigger] payloads[j]).d)
                != guild_id,
        payloads[i].op == OP_DISPATCH,
        emitted_for(guild_at(store, guild_id).unwrap(), store, payloads[i]),
        guild_at(store, guild_id).unwrap().is_unavailable() <==> payloads[i].t@ == "GUILD_DELETE"@
            && payloads[i].d == GuildEvent::Delete(GuildDelete { id: guild_id, unavailable: true }),
        !guild_at(store, guild_id).unwrap().is_unavailable() <==> payloads[i].t@
            == "GUILD_CREATE"@ && payloads[i].d is Create,
{
    let entries = choose|entries: Seq<GuildEntry>|
        is_guild_walk(entries, store) && #[trigger] follows_walk(payloads, entries, store, start);
    let i = each_stored_guild_gets_exactly_one_event(store, entries, payloads, guild_id);
    assert(walk_names(entries, guild_id));
    assert(emitted_for(entries[i], store, payloads[i]));
    assert(entries[i].id == guild_id);
    assert(guild_at(store, entries[i].id) == Some(entries[i]));
    i
}

/// Two full passes over a store that has not changed agree on every guild: the
/// events for one guild are both its stub, or both the guild rebuilt, with the
/// same scalar attributes and the same set of children in every collection.
/// They may differ in their sequence numbers only.
pub proof fn two_passes_agree_on_every_guild(
    store: Guilds,
    first: Seq<Payload<GuildEvent>>,
    second: Seq<Payload<GuildEvent>>,
    first_start: int,
    second_start: int,
    i: int,
    j: int,
)
    requires
        is_pass(first, store, first_start),
        is_pass(second, store, second_start),
        0 <= i < first.len(),
        0 <= j < second.len(),
        event_guild_id(first[i].d) == event_guild_id(second[j].d),
    ensures
        first[i].op == second[j].op,
        first[i].t@ == second[j].t@,
        first[i].d is Delete ==> first[i].d == second[j].d,
        first[i].d matches GuildEvent::Create(rebuilt) ==> second[j].d matches GuildEvent::Create(
            again,
        ) && rebuilt.agrees_with(again),
{
    let first_walk = choose|entries: Seq<GuildEntry>|
        is_guild_walk(entries, store) && #[trigger] follows_walk(
            first,
            entries,
            store,
            first_start,
        );
    let second_walk = choose|entries: Seq<GuildEntry>|
        is_guild_walk(entries, store) && #[trigger] follows_walk(
            second,
            entries,
            store,
            second_start,
        );
    assert(emitted_for(first_walk[i], store, first[i]));
    assert(emitted_for(second_walk[j], store, second[j]));
    passes_agree_on_every_guild(store, first_walk, second_walk, first, second, i, j);
}

/// The loaded part of the ready list names exactly the guilds of the walk that
/// are not marked unavailable.
pub proof fn loaded_list_names_the_loaded_guilds(entries: Seq<GuildEntry>, guild_id: u64)
    ensures
        loaded_guild_ids(entries).contains(guild_id) <==> walk_names_loaded(entries, guild_id),
    decreases entries.len(),
{
    let listed = loaded_guild_ids(entries);
    if entries.len() > 0 {
        let before = entries.drop_last();
        let rest = loaded_guild_ids(before);
        loaded_list_names_the_loaded_guilds(before, guild_id);
        if walk_names_loaded(before, guild_id) {
            let i = choose|i: int|
                0 <= i < before.len() && !(#[trigger] before[i]).is_unavailable() && before[i].id
                    == guild_id;
            assert(entries[i] == before[i]);
        }
        if rest.contains(guild_id) {
            let k = choose|k: int| 0 <= k < rest.len() && rest[k] == guild_id;
            assert(listed[k] == guild_id);
        }
        if !entries.last().is_unavailable() && entries.last().id == guild_id {
            assert(listed[listed.len() - 1] == guild_id);
            assert(!entries[entries.len() - 1].is_unavailable());
        }
        if listed.contains(guild_id) && !rest.contains(guild_id) {
            let k = choose|k: int| 0 <= k < listed.len() && listed[k] == guild_id;
            assert(k == rest.len());
            assert(!entries[entries.len() - 1].is_unavailable());
        }
        if walk_names_loaded(entries, guild_id) && !walk_names_loaded(before, guild_id) {
            let i = choose|i: int|
                0 <= i < entries.len() && !(#[trigger] entries[i]).is_unavailable() && entries[i].id
                    == guild_id;
            if i < before.len() {
                assert(before[i] == entries[i]);
            }
        }
    }
}

/// The ready list names exactly the loaded guilds of the walk and the guilds
/// recorded as unavailable: none of them is missing and nothing else is
/// listed.
pub proof fn ready_list_names_every_known_guild(
    entries: Seq<GuildEntry>,
    unavailable: Seq<u64>,
    guild_id: u64,
)
    ensures
        ready_guild_ids(entries, unavailable).contains(guild_id) <==> walk_names_loaded(
            entries,
            guild_id,
        ) || unavailable.contains(guild_id),
{
    let loaded = loaded_guild_ids(entries);
    let listed = ready_guild_ids(entries, unavailable);
    loaded_list_names_the_loaded_guilds(entries, guild_id);
    if loaded.contains(guild_id) {
        let k = choose|k: int| 0 <= k < loaded.len() && loaded[k] == guild_id;
        assert(listed[k] == guild_id);
    }
    if unavailable.contains(guild_id) {
        let k = choose|k: int| 0 <= k < unavailable.len() && unavailable[k] == guild_id;
        assert(listed[loaded.len() + k] == guild_id);
    }
    if listed.contains(guild_id) {
        let k = choose|k: int| 0 <= k < listed.len() && listed[k] == guild_id;
        if k < loaded.len() {
            assert(loaded[k] == guild_id);
        } else {
            assert(unavailable[k - loaded.len()] == guild_id);
        }
    }
}

/// The loaded part of the ready list names no guild twice.
pub proof fn loaded_list_has_no_repeats(entries: Seq<GuildEntry>)
    requires
        distinct_ids(entries),
    ensures
        loaded_guild_ids(entries).no_duplicates(),
    decreases entries.len(),
{
    if entries.len() > 0 {
        let before = entries.drop_last();
        let rest = loaded_guild_ids(before);
        assert(distinct_ids(before)) by {
            assert forall|i: int, j: int| 0 <= i < j < before.len() implies (
            #[trigger] before[i]).id != (#[trigger] before[j]).id by {
                assert(entries[i].id != entries[j].id);
            }
        }
        loaded_list_has_no_repeats(before);
        if !entries.last().is_unavailable() {
            let last = entries.last().id;
            loaded_list_names_the_loaded_guilds(before, last);
            if walk_names_loaded(before, last) {
                let i = choose|i: int|
                    0 <= i < before.len() && !(#[trigger] before[i]).is_unavailable()
                        && before[i].id == last;
                assert(entries[i].id != entries[entries.len() - 1].id);
            }
            assert(!rest.contains(last));
            assert forall|i: int, j: int|
                0 <= i < rest.len() + 1 && 0 <= j < rest.len() + 1 && i != j implies rest.push(
                last,
            )[i] != rest.push(last)[j] by {
                if i < rest.len() && j < rest.len() {
                } else if i < rest.len() {
                    assert(rest.contains(rest[i]));
                } else {
                    assert(rest.contains(rest[j]));
                }
            }
        }
    }
}

/// The ready list holds exactly one stub for each known guild: where the walk
/// names no guild twice, the record names no guild twice and no loaded guild
/// is recorded as unavailable, no guild is listed twice, and the list is as
/// long as the two parts together.
pub proof fn ready_list_has_one_stub_per_guild(entries: Seq<GuildEntry>, unavailable: Seq<u64>)
    requires
        distinct_ids(entries),
        unavailable.no_duplicates(),
        record_names_no_loaded_guild(entries, unavailable),
    ensures
        ready_guild_ids(entries, unavailable).no_duplicates(),
        ready_guild_ids(entries, unavailable).len() == loaded_guild_ids(entries).len()
            + unavailable.len(),
{
    let loaded = loaded_guild_ids(entries);
    let listed = ready_guild_ids(entries, unavailable);
    loaded_list_has_no_repeats(entries);
    assert forall|i: int, j: int| 0 <= i < listed.len() && 0 <= j < listed.len() && i
        != j implies listed[i] != listed[j] by {
        if i < loaded.len() && j < loaded.len() {
        } else if i >= loaded.len() && j >= loaded.len() {
            assert(unavailable[i - loaded.len()] != unavailable[j - loaded.len()]);
        } else {
            let (k, u) = if i < loaded.len() {
                (i, j - loaded.len())
            } else {
                (j, i - loaded.len())
            };
            loaded_list_names_the_loaded_guilds(entries, loaded[k]);
            assert(loaded.contains(loaded[k]));
            let e = choose|e: int|
                0 <= e < entries.len() && !(#[trigger] entries[e]).is_unavailable() && entries[e].id
                    == loaded[k];
            assert(!unavailable.contains(entries[e].id));
            assert(unavailable.contains(unavailable[u]));
        }
    }
}

/// The identifiers of the walked guilds that are not marked unavailable.
pub fn collect_loaded_ids(entries: &Vec<GuildEntry>) -> (ids: Vec<u64>)
    ensures
        ids@ == loaded_guild_ids(entries@),
{
    let mut ids: Vec<u64> = Vec::new();
    let mut i: usize = 0;
    while i < entries.len()
        invariant
            i <= entries.len(),
            ids@ == loaded_guild_ids(entries@.take(i as int)),
        decreases entries.len() - i,
    {
        proof {
            assert(entries@.take(i + 1).drop_last() == entries@.take(i as int));
            assert(entries@.take(i + 1).last() == entries@[i as int]);
        }
        if !entries[i].marked_unavailable() {
            ids.push(entries[i].id);
        }
        i += 1;
    }
    proof {
        assert(entries@.take(entries@.len() as int) == entries@);
    }
    ids
}

/// The identifiers of a list, copied.
fn copied_ids(ids: &Vec<u64>) -> (copy: Vec<u64>)
    ensures
        copy@ == ids@,
{
    let mut copy: Vec<u64> = Vec::new();
    let mut i: usize = 0;
    while i < ids.len()
        invariant
            i <= ids.len(),
            copy@ == ids@.take(i as int),
        decreases ids.len() - i,
    {
        copy.push(ids[i]);
        assert(copy@ =~= ids@.take(i + 1));
        i += 1;
    }
    assert(ids@.take(ids@.len() as int) == ids@);
    copy
}

/// Builds the session-ready payload from the guilds that a walk over the store
/// gave and the record of unavailable guilds. Every known guild is listed as
/// an unavailable stub, the loaded ones too: their data follows in events of
/// their own. The loaded guilds of the walk come first, then the recorded
/// ones. The list goes under `guilds` into the base object, and the counter
/// advances by one.
pub fn ready_payload(
    ready: JsonObject,
    entries: &Vec<GuildEntry>,
    unavailable: &Vec<u64>,
    sequence: &mut usize,
) -> (payload: Payload<JsonObject>)
    requires
        *old(sequence) < usize::MAX,
    ensures
        *final(sequence) == next_sequence(*old(sequence) as int),
        payload.s == *final(sequence),
        payload.op == OP_DISPATCH,
        payload.t@ == "READY"@,
        json_members(payload.d) == ready_members(ready, ready_guild_ids(entries@, unavailable@)),
{
    *sequence = *sequence + 1;
    let mut ids = collect_loaded_ids(entries);
    let mut recorded = copied_ids(unavailable);
    ids.append(&mut recorded);
    let stubs = guild_stubs(&ids);
    let mut ready = ready;
    put(&mut ready, "guilds", array_value(stubs));
    Payload { d: ready, op: OP_DISPATCH, t: "READY", s: *sequence }
}

/// The delete event for an unavailable guild.
pub fn delete_payload(id: u64, sequence: usize) -> (payload: Payload<GuildEvent>)
    ensures
        payload.s == sequence,
        payload.op == OP_DISPATCH,
        payload.t@ == "GUILD_DELETE"@,
        payload.d == GuildEvent::Delete(GuildDelete { id, unavailable: true }),
{
    Payload {
        d: GuildEvent::Delete(GuildDelete { id, unavailable: true }),
        op: OP_DISPATCH,
        t: "GUILD_DELETE",
        s: sequence,
    }
}

/// The create event for a guild rebuilt in full.
pub fn create_payload(aggregate: GuildAggregate, sequence: usize) -> (payload: Payload<GuildEvent>)
    ensures
        payload.s == sequence,
        payload.op == OP_DISPATCH,
        payload.t@ == "GUILD_CREATE"@,
        payload.d == GuildEvent::Create(aggregate),
{
    Payload { d: GuildEvent::Create(aggregate), op: OP_DISPATCH, t: "GUILD_CREATE", s: sequence }
}

/// Turns a list around.
fn reversed<T>(items: Vec<T>) -> (out: Vec<T>)
    ensures
        out@ == items@.reverse(),
{
    let mut items = items;
    let ghost all = items@;
    let mut out: Vec<T> = Vec::new();
    while items.len() > 0
        invariant
            items@.len() + out@.len() == all.len(),
            items@ == all.take(items@.len() as int),
            forall|k: int| 0 <= k < out@.len() ==> out@[k] == all[all.len() - 1 - k],
        decreases items@.len(),
    {
        match items.pop() {
            Some(item) => {
                out.push(item);
            },
            None => {},
        }
    }
    assert(out@ =~= all.reverse());
    out
}

/// A cursor over the guild events of one replay.
///
/// It is made from one walk over the guilds of a store and yields one payload
/// for each walked guild, in the order of the walk. A guild's children are read
/// from the store only when its payload is asked for. The cursor can be
/// dropped at any point.
pub struct GuildPayloads {
    /// The guilds still to come, the next one last.
    pending: Vec<GuildEntry>,
}

impl GuildPayloads {
    /// Every guild still to come has a positive identifier.
    pub closed spec fn wf(&self) -> bool {
        all_entries_wf(self.pending@)
    }

    /// The guilds still to come, the next one first.
    pub closed spec fn remaining(&self) -> Seq<GuildEntry> {
        self.pending@.reverse()
    }

    /// A cursor over the given guilds, in their order.
    pub fn new(entries: Vec<GuildEntry>) -> (cursor: GuildPayloads)
        requires
            all_entries_wf(entries@),
        ensures
            cursor.wf(),
            cursor.remaining() == entries@,
    {
        let pending = reversed(entries);
        assert(pending@.reverse() =~= entries@);
        GuildPayloads { pending }
    }

    /// Whether a payload is still to come.
    pub fn has_next(&self) -> (more: bool)
        ensures
            more == (self.remaining().len() > 0),
    {
        self.pending.len() > 0
    }

    /// How many payloads are still to come.
    pub fn len(&self) -> (count: usize)
        ensures
            count == self.remaining().len(),
    {
        self.pending.len()
    }

    /// Produces the payload of the next guild and advances the counter by one;
    /// at the end of the walk it produces nothing and leaves the counter alone.
    ///
    /// A guild marked unavailable yields its stub as a delete event, and
    /// nothing of it is read from the store. Any other guild is rebuilt from
    /// the store and yields a create event.
    pub fn next_payload(&mut self, guilds: &Guilds, sequence: &mut usize) -> (payload: Option<
        Payload<GuildEvent>,
    >)
        requires
            old(self).wf(),
            old(self).remaining().len() > 0 ==> *old(sequence) < usize::MAX,
        ensures
            final(self).wf(),
            old(self).remaining().len() == 0 ==> {
                &&& payload is None
                &&& final(self).remaining() == old(self).remaining()
                &&& *final(sequence) == *old(sequence)
            },
            old(self).remaining().len() > 0 ==> {
                &&& payload matches Some(emitted)
                &&& emitted_for(old(self).remaining()[0], *guilds, emitted)
                &&& emitted.s == *final(sequence)
                &&& *final(sequence) == next_sequence(*old(sequence) as int)
                &&& final(self).remaining() == old(self).remaining().skip(1)
            },
    {
        let ghost before = self.pending@;
        match self.pending.pop() {
            Some(entry) => {
                proof {
                    assert(entry == before.reverse()[0]);
                    assert(self.pending@.reverse() =~= before.reverse().skip(1));
                    assert(entry.wf());
                }
                *sequence = *sequence + 1;
                if entry.marked_unavailable() {
                    Some(delete_payload(entry.id, *sequence))
                } else {
                    Some(create_payload(guilds.guild_aggregate(entry), *sequence))
                }
            },
            None => None,
        }
    }

    /// Produces the payloads of the next guilds, in order, and stops after
    /// `limit` of them or at the end of the walk, whichever comes first. The
    /// counter advances by one for each payload produced and by no more; the
    /// guilds not reached stay in the cursor.
    pub fn collect_up_to(&mut self, guilds: &Guilds, limit: usize, sequence: &mut usize) -> (payloads:
        Vec<Payload<GuildEvent>>)
        requires
            old(self).wf(),
            *old(sequence) + taken(limit, old(self).remaining().len()) <= usize::MAX,
        ensures
            final(self).wf(),
            payloads@.len() == taken(limit, old(self).remaining().len()),
            forall|i: int|
                0 <= i < payloads@.len() ==> {
                    &&& emitted_for(old(self).remaining()[i], *guilds, #[trigger] payloads@[i])
                    &&& payloads@[i].s == *old(sequence) + i + 1
                },
            *final(sequence) == sequence_after(*old(sequence) as int, payloads@.len()),
            final(self).remaining() == old(self).remaining().skip(payloads@.len() as int),
    {
        let ghost all = self.remaining();
        let ghost start = *sequence as int;
        let mut payloads: Vec<Payload<GuildEvent>> = Vec::new();
        while payloads.len() < limit && self.has_next()
            invariant
                self.wf(),
                payloads@.len() <= taken(limit, all.len()),
                self.remaining() == all.skip(payloads@.len() as int),
                *sequence == start + payloads@.len(),
                start + taken(limit, all.len()) <= usize::MAX,
                forall|i: int|
                    0 <= i < payloads@.len() ==> {
                        &&& emitted_for(all[i], *guilds, #[trigger] payloads@[i])
                        &&& payloads@[i].s == start + i + 1
                    },
            decreases self.remaining().len(),
        {
            let ghost done = payloads@.len() as int;
            let ghost rest = self.remaining();
            assert(rest[0] == all[done]);
            match self.next_payload(guilds, sequence) {
                Some(payload) => {
                    payloads.push(payload);
                    assert(rest.skip(1) =~= all.skip(done + 1));
                },
                None => {},
            }
        }
        proof {
            sequence_advances_by_count(start, payloads@.len());
        }
        payloads
    }

    /// Produces the payloads of all the guilds still to come, in order. The
    /// counter advances by one for each of them.
    pub fn collect_remaining(&mut self, guilds: &Guilds, sequence: &mut usize) -> (payloads: Vec<
        Payload<GuildEvent>,
    >)
        requires
            old(self).wf(),
            *old(sequence) + old(self).remaining().len() <= usize::MAX,
        ensures
            final(self).wf(),
            payloads@.len() == old(self).remaining().len(),
            forall|i: int|
                0 <= i < payloads@.len() ==> {
                    &&& emitted_for(old(self).remaining()[i], *guilds, #[trigger] payloads@[i])
                    &&& payloads@[i].s == *old(sequence) + i + 1
                },
            *final(sequence) == sequence_after(*old(sequence) as int, payloads@.len()),
            final(self).remaining().len() == 0,
    {
        let limit = self.len();
        self.collect_up_to(guilds, limit, sequence)
    }
}

impl Guilds {
    /// The session-ready payload for the guilds that are known at this moment:
    /// the loaded guilds of one walk over the store, and the guilds recorded
    /// as unavailable. The counter advances by one.
    pub fn get_ready_payload(
        &self,
        ready: JsonObject,
        unavailable: &Vec<u64>,
        sequence: &mut usize,
    ) -> (payload: Payload<JsonObject>)
        requires
            *old(sequence) < usize::MAX,
        ensures
            *final(sequence) == next_sequence(*old(sequence) as int),
            payload.s == *final(sequence),
            payload.op == OP_DISPATCH,
            payload.t@ == "READY"@,
            exists|entries: Seq<GuildEntry>|
                is_guild_walk(entries, *self) && json_members(payload.d) == #[trigger] ready_members(
                    ready,
                    ready_guild_ids(entries, unavailable@),
                ),
    {
        let entries = self.guild_entries();
        ready_payload(ready, &entries, unavailable, sequence)
    }

    /// One full pass: the guild events of one walk over the guilds that the
    /// store holds at this moment, taken to the end. The counter advances by
    /// one for each payload. Where the counter has no room for the whole
    /// pass, nothing is produced and the counter stays as it was.
    pub fn collect_guild_payloads(&self, sequence: &mut usize) -> (payloads: Option<
        Vec<Payload<GuildEvent>>,
    >)
        ensures
            match payloads {
                Some(payloads) => {
                    &&& is_pass(payloads@, *self, *old(sequence) as int)
                    &&& *final(sequence) == sequence_after(*old(sequence) as int, payloads@.len())
                },
                None => {
                    &&& *final(sequence) == *old(sequence)
                    &&& exists|entries: Seq<GuildEntry>|
                        #[trigger] is_guild_walk(entries, *self) && *old(sequence) + entries.len()
                            > usize::MAX
                },
            },
    {
        let mut cursor = self.get_guild_payloads();
        let ghost entries = cursor.remaining();
        let ghost start = *sequence as int;
        if cursor.len() <= usize::MAX - *sequence {
            let payloads = cursor.collect_remaining(self, sequence);
            proof {
                assert(follows_walk(payloads@, entries, *self, start));
            }
            Some(payloads)
        } else {
            None
        }
    }

    /// Starts the guild events of a replay: walks the guilds that the store
    /// holds at this moment and returns the cursor over them.
    pub fn get_guild_payloads(&self) -> (cursor: GuildPayloads)
        ensures
            cursor.wf(),
            is_guild_walk(cursor.remaining(), *self),
    {
        GuildPayloads::new(self.guild_entries())
    }
}

} // verus!
