//! What a store holds for a guild, and what a reading of it gives.
//!
//! Each child collection of a guild is read in the same way: one walk over the
//! guild's index of that kind, and for every identifier of the walk a point
//! lookup of its own. A lookup may miss although the index names the
//! identifier; such a miss is an ordinary answer, never a failure, and the
//! child is left out. The order in which an index is walked is up to the
//! store, so what a reading gives is fixed only up to that order.

use vstd::prelude::*;
use twilight_cache_inmemory::model::CachedPresence;
use twilight_model::channel::StageInstance;
use twilight_model::guild::scheduled_event::GuildScheduledEvent;
use twilight_model::guild::Role;
use crate::entities::{ChannelEntry, GuildEntry};
use crate::snapshot::{
    EmojiRecord, GuildAggregate, GuildSources, MemberRecord, MemberSource, StickerRecord,
    VoiceSource, VoiceStateRecord,
};
use crate::snapshot::channels_of_kind;
use crate::snapshot::hit_is_present;
use crate::snapshot::joined_members;
use crate::snapshot::joined_voice_state;
use crate::snapshot::joined_voice_states;
use crate::snapshot::present;
use crate::snapshot::present_stems_from_answers;
use crate::snapshot::resolved_member;
use crate::store::{Guilds, IndexKey};
use crate::store::channel_at;
use crate::store::emoji_at;
use crate::store::index_at;
use crate::store::is_walk;
use crate::store::member_at;
use crate::store::presence_at;
use crate::store::role_at;
use crate::store::scheduled_event_at;
use crate::store::stage_instance_at;
use crate::store::sticker_at;
use crate::store::user_at;
use crate::store::voice_state_at;

verus! {

/// The emoji under an identifier, with its creator where the emoji names one
/// and the store holds that user.
pub open spec fn emoji_record_at(store: Guilds, emoji_id: u64) -> Option<EmojiRecord> {
    match emoji_at(store, emoji_id) {
        Some(emoji) => Some(
            EmojiRecord {
                emoji,
                user: match emoji.user_id {
                    Some(user_id) => user_at(store, user_id),
                    None => None,
                },
            },
        ),
        None => None,
    }
}

/// The sticker under an identifier, with its uploader where the sticker names
/// one and the store holds that user.
pub open spec fn sticker_record_at(store: Guilds, sticker_id: u64) -> Option<StickerRecord> {
    match sticker_at(store, sticker_id) {
        Some(sticker) => Some(
            StickerRecord {
                sticker,
                user: match sticker.user_id {
                    Some(user_id) => user_at(store, user_id),
                    None => None,
                },
            },
        ),
        None => None,
    }
}

/// The membership record of a user in a guild, with the answer of the lookup
/// of the user that the record refers to.
pub open spec fn member_source_at(store: Guilds, guild_id: u64, user_id: u64) -> Option<
    MemberSource,
> {
    match member_at(store, guild_id, user_id) {
        Some(member) => Some(MemberSource { member, user: user_at(store, member.user_id) }),
        None => None,
    }
}

/// The member of a guild for a user, where both its membership record and the
/// user that the record refers to are in the store.
pub open spec fn member_record_at(store: Guilds, guild_id: u64, user_id: u64) -> Option<
    MemberRecord,
> {
    resolved_member(member_source_at(store, guild_id, user_id))
}

/// The voice record of a user in a guild, with what the store holds for the
/// member of that user.
pub open spec fn voice_source_at(store: Guilds, guild_id: u64, user_id: u64) -> Option<
    VoiceSource,
> {
    match voice_state_at(store, guild_id, user_id) {
        Some(state) => Some(
            VoiceSource { state, member: member_source_at(store, guild_id, user_id) },
        ),
        None => None,
    }
}

/// The voice state of a user in a guild, where the store holds the voice
/// record; its member is embedded where one can be composed.
pub open spec fn voice_record_at(store: Guilds, guild_id: u64, user_id: u64) -> Option<
    VoiceStateRecord,
> {
    match voice_source_at(store, guild_id, user_id) {
        Some(source) => Some(joined_voice_state(source)),
        None => None,
    }
}

/// The channel under an identifier, if its thread tag is as asked.
pub open spec fn tagged_channel_at(store: Guilds, channel_id: u64, threads: bool) -> Option<
    ChannelEntry,
> {
    match channel_at(store, channel_id) {
        Some(channel) if channel.thread == threads => Some(channel),
        _ => None,
    }
}

/// Lookup of a channel by its identifier.
pub open spec fn channels_of(store: Guilds) -> spec_fn(u64) -> Option<ChannelEntry> {
    |channel_id: u64| channel_at(store, channel_id)
}

/// Lookup of a channel of one kind by its identifier.
pub open spec fn tagged_channels_of(store: Guilds, threads: bool) -> spec_fn(u64) -> Option<
    ChannelEntry,
> {
    |channel_id: u64| tagged_channel_at(store, channel_id, threads)
}

/// Lookup of a guild's presence by the identifier of its user.
pub open spec fn presences_of(store: Guilds, guild_id: u64) -> spec_fn(u64) -> Option<
    CachedPresence,
> {
    |user_id: u64| presence_at(store, guild_id, user_id)
}

/// Lookup of an emoji, with its creator, by its identifier.
pub open spec fn emojis_of(store: Guilds) -> spec_fn(u64) -> Option<EmojiRecord> {
    |emoji_id: u64| emoji_record_at(store, emoji_id)
}

/// Lookup of what the store holds for a guild's member by the identifier of
/// its user.
pub open spec fn member_sources_of(store: Guilds, guild_id: u64) -> spec_fn(u64) -> Option<
    MemberSource,
> {
    |user_id: u64| member_source_at(store, guild_id, user_id)
}

/// Lookup of a guild's member by the identifier of its user.
pub open spec fn members_of(store: Guilds, guild_id: u64) -> spec_fn(u64) -> Option<MemberRecord> {
    |user_id: u64| member_record_at(store, guild_id, user_id)
}

/// Lookup of a role by its identifier.
pub open spec fn roles_of(store: Guilds) -> spec_fn(u64) -> Option<Role> {
    |role_id: u64| role_at(store, role_id)
}

/// Lookup of a scheduled event by its identifier.
pub open spec fn scheduled_events_of(store: Guilds) -> spec_fn(u64) -> Option<
    GuildScheduledEvent,
> {
    |event_id: u64| scheduled_event_at(store, event_id)
}

/// Lookup of a stage instance by its identifier.
pub open spec fn stage_instances_of(store: Guilds) -> spec_fn(u64) -> Option<StageInstance> {
    |stage_id: u64| stage_instance_at(store, stage_id)
}

/// Lookup of a sticker, with its uploader, by its identifier.
pub open spec fn stickers_of(store: Guilds) -> spec_fn(u64) -> Option<StickerRecord> {
    |sticker_id: u64| sticker_record_at(store, sticker_id)
}

/// Lookup of what the store holds for a guild's voice state by the identifier
/// of its user.
pub open spec fn voice_sources_of(store: Guilds, guild_id: u64) -> spec_fn(u64) -> Option<
    VoiceSource,
> {
    |user_id: u64| voice_source_at(store, guild_id, user_id)
}

/// Lookup of a guild's voice state by the identifier of its user.
pub open spec fn voice_states_of(store: Guilds, guild_id: u64) -> spec_fn(u64) -> Option<
    VoiceStateRecord,
> {
    |user_id: u64| voice_record_at(store, guild_id, user_id)
}

/// The answer of a lookup for each identifier of a walk, in its order.
pub open spec fn answers<T>(ids: Seq<u64>, lookup: spec_fn(u64) -> Option<T>) -> Seq<Option<T>> {
    ids.map_values(lookup)
}

/// `found` is what one reading gives: the answers of the lookup for one walk
/// over the index.
pub open spec fn is_reading<T>(
    found: Seq<Option<T>>,
    index: Option<Set<u64>>,
    lookup: spec_fn(u64) -> Option<T>,
) -> bool {
    exists|ids: Seq<u64>| is_walk(ids, index) && #[trigger] answers(ids, lookup) == found
}

/// `listed` is what one reading lists: for one walk over the index, the
/// entities that the lookup finds, in the order of the walk. An identifier
/// whose lookup misses leaves no trace.
pub open spec fn lists<T>(
    listed: Seq<T>,
    index: Option<Set<u64>>,
    lookup: spec_fn(u64) -> Option<T>,
) -> bool {
    exists|ids: Seq<u64>| is_walk(ids, index) && present(#[trigger] answers(ids, lookup)) == listed
}

/// `sources` is what one reading of each index of the guild gives.
pub open spec fn read_from(sources: GuildSources, store: Guilds, guild_id: u64) -> bool {
    &&& is_reading(
        sources.channels@,
        index_at(store, IndexKey::Channels(guild_id)),
        channels_of(store),
    )
    &&& is_reading(
        sources.presences@,
        index_at(store, IndexKey::Presences(guild_id)),
        presences_of(store, guild_id),
    )
    &&& is_reading(sources.emojis@, index_at(store, IndexKey::Emojis(guild_id)), emojis_of(store))
    &&& is_reading(
        sources.members@,
        index_at(store, IndexKey::Members(guild_id)),
        member_sources_of(store, guild_id),
    )
    &&& is_reading(sources.roles@, index_at(store, IndexKey::Roles(guild_id)), roles_of(store))
    &&& is_reading(
        sources.scheduled_events@,
        index_at(store, IndexKey::ScheduledEvents(guild_id)),
        scheduled_events_of(store),
    )
    &&& is_reading(
        sources.stage_instances@,
        index_at(store, IndexKey::StageInstances(guild_id)),
        stage_instances_of(store),
    )
    &&& is_reading(
        sources.stickers@,
        index_at(store, IndexKey::Stickers(guild_id)),
        stickers_of(store),
    )
    &&& is_reading(
        sources.voice_states@,
        index_at(store, IndexKey::VoiceStates(guild_id)),
        voice_sources_of(store, guild_id),
    )
}

/// `aggregate` is the guild of `entry` rebuilt from the store: the guild's own
/// attributes, and under them each child collection as one reading of the
/// store lists it. Channels and threads come from the one channel index and
/// are told apart by each channel's own tag; a member is listed where its
/// membership record and its user are both held; a voice state is listed
/// wherever its voice record is held.
pub open spec fn rebuilt_from(aggregate: GuildAggregate, store: Guilds, entry: GuildEntry) -> bool {
    let guild_id = entry.id;
    &&& aggregate.id == entry.id
    &&& aggregate.guild == entry.guild
    &&& lists(
        aggregate.channels@,
        index_at(store, IndexKey::Channels(guild_id)),
        tagged_channels_of(store, false),
    )
    &&& lists(
        aggregate.threads@,
        index_at(store, IndexKey::Channels(guild_id)),
        tagged_channels_of(store, true),
    )
    &&& lists(
        aggregate.presences@,
        index_at(store, IndexKey::Presences(guild_id)),
        presences_of(store, guild_id),
    )
    &&& lists(aggregate.emojis@, index_at(store, IndexKey::Emojis(guild_id)), emojis_of(store))
    &&& lists(
        aggregate.members@,
        index_at(store, IndexKey::Members(guild_id)),
        members_of(store, guild_id),
    )
    &&& lists(aggregate.roles@, index_at(store, IndexKey::Roles(guild_id)), roles_of(store))
    &&& lists(
        aggregate.scheduled_events@,
        index_at(store, IndexKey::ScheduledEvents(guild_id)),
        scheduled_events_of(store),
    )
    &&& lists(
        aggregate.stage_instances@,
        index_at(store, IndexKey::StageInstances(guild_id)),
        stage_instances_of(store),
    )
    &&& lists(
        aggregate.stickers@,
        index_at(store, IndexKey::Stickers(guild_id)),
        stickers_of(store),
    )
    &&& lists(
        aggregate.voice_states@,
        index_at(store, IndexKey::VoiceStates(guild_id)),
        voice_states_of(store, guild_id),
    )
}

/// What a reading found is what it lists.
pub proof fn reading_lists_what_it_found<T>(
    found: Seq<Option<T>>,
    index: Option<Set<u64>>,
    lookup: spec_fn(u64) -> Option<T>,
)
    requires
        is_reading(found, index, lookup),
    ensures
        lists(present(found), index, lookup),
{
    let ids = choose|ids: Seq<u64>| is_walk(ids, index) && #[trigger] answers(ids, lookup) == found;
    assert(present(answers(ids, lookup)) == present(found));
}

/// Dropping the channels of the other kind from what was found gives the same
/// as looking up only channels of the kind asked for.
pub proof fn kind_is_told_at_lookup(store: Guilds, ids: Seq<u64>, threads: bool)
    ensures
        channels_of_kind(answers(ids, channels_of(store)), threads) == present(
            answers(ids, tagged_channels_of(store, threads)),
        ),
    decreases ids.len(),
{
    let found = answers(ids, channels_of(store));
    let kept = answers(ids, tagged_channels_of(store, threads));
    if ids.len() > 0 {
        kind_is_told_at_lookup(store, ids.drop_last(), threads);
        assert(found.drop_last() =~= answers(ids.drop_last(), channels_of(store)));
        assert(kept.drop_last() =~= answers(ids.drop_last(), tagged_channels_of(store, threads)));
    }
}

/// Joining the members from what was found gives the same as looking up the
/// joined members.
pub proof fn members_are_joined_at_lookup(store: Guilds, guild_id: u64, ids: Seq<u64>)
    ensures
        joined_members(answers(ids, member_sources_of(store, guild_id))) == present(
            answers(ids, members_of(store, guild_id)),
        ),
{
    let found = answers(ids, member_sources_of(store, guild_id));
    assert(found.map_values(|source: Option<MemberSource>| resolved_member(source)) =~= answers(
        ids,
        members_of(store, guild_id),
    ));
}

/// Joining the voice states from what was found gives the same as looking up
/// the joined voice states.
pub proof fn voice_states_are_joined_at_lookup(store: Guilds, guild_id: u64, ids: Seq<u64>)
    ensures
        joined_voice_states(answers(ids, voice_sources_of(store, guild_id))) == present(
            answers(ids, voice_states_of(store, guild_id)),
        ),
    decreases ids.len(),
{
    let found = answers(ids, voice_sources_of(store, guild_id));
    let joined = answers(ids, voice_states_of(store, guild_id));
    if ids.len() > 0 {
        voice_states_are_joined_at_lookup(store, guild_id, ids.drop_last());
        assert(found.drop_last() =~= answers(ids.drop_last(), voice_sources_of(store, guild_id)));
        assert(joined.drop_last() =~= answers(ids.drop_last(), voice_states_of(store, guild_id)));
        let rest = present(found.drop_last());
        match found.last() {
            Some(source) => {
                assert(present(found) == rest.push(source));
                assert(rest.push(source).map_values(|source: VoiceSource| joined_voice_state(source))
                    =~= rest.map_values(|source: VoiceSource| joined_voice_state(source)).push(
                    joined_voice_state(source),
                ));
            },
            None => {},
        }
    } else {
        assert(joined_voice_states(found) =~= present(joined));
    }
}

/// An aggregate built from one reading of the guild's indices is the guild
/// rebuilt from the store.
pub proof fn built_from_a_reading_is_rebuilt(
    aggregate: GuildAggregate,
    store: Guilds,
    entry: GuildEntry,
    sources: GuildSources,
)
    requires
        read_from(sources, store, entry.id),
        aggregate.built_from(entry, sources),
    ensures
        rebuilt_from(aggregate, store, entry),
{
    let guild_id = entry.id;
    let channel_index = index_at(store, IndexKey::Channels(guild_id));
    let channel_ids = choose|ids: Seq<u64>|
        is_walk(ids, channel_index) && #[trigger] answers(ids, channels_of(store))
            == sources.channels@;
    kind_is_told_at_lookup(store, channel_ids, false);
    kind_is_told_at_lookup(store, channel_ids, true);
    assert(lists(aggregate.channels@, channel_index, tagged_channels_of(store, false)));
    assert(lists(aggregate.threads@, channel_index, tagged_channels_of(store, true)));
    reading_lists_what_it_found(
        sources.presences@,
        index_at(store, IndexKey::Presences(guild_id)),
        presences_of(store, guild_id),
    );
    reading_lists_what_it_found(
        sources.emojis@,
        index_at(store, IndexKey::Emojis(guild_id)),
        emojis_of(store),
    );
    let member_index = index_at(store, IndexKey::Members(guild_id));
    let member_ids = choose|ids: Seq<u64>|
        is_walk(ids, member_index) && #[trigger] answers(ids, member_sources_of(store, guild_id))
            == sources.members@;
    members_are_joined_at_lookup(store, guild_id, member_ids);
    assert(lists(aggregate.members@, member_index, members_of(store, guild_id)));
    reading_lists_what_it_found(
        sources.roles@,
        index_at(store, IndexKey::Roles(guild_id)),
        roles_of(store),
    );
    reading_lists_what_it_found(
        sources.scheduled_events@,
        index_at(store, IndexKey::ScheduledEvents(guild_id)),
        scheduled_events_of(store),
    );
    reading_lists_what_it_found(
        sources.stage_instances@,
        index_at(store, IndexKey::StageInstances(guild_id)),
        stage_instances_of(store),
    );
    reading_lists_what_it_found(
        sources.stickers@,
        index_at(store, IndexKey::Stickers(guild_id)),
        stickers_of(store),
    );
    let voice_index = index_at(store, IndexKey::VoiceStates(guild_id));
    let voice_ids = choose|ids: Seq<u64>|
        is_walk(ids, voice_index) && #[trigger] answers(ids, voice_sources_of(store, guild_id))
            == sources.voice_states@;
    voice_states_are_joined_at_lookup(store, guild_id, voice_ids);
    assert(lists(aggregate.voice_states@, voice_index, voice_states_of(store, guild_id)));
}

/// The identifiers that an index lists; none where the store does not hold
/// the index.
pub open spec fn listed_ids(index: Option<Set<u64>>) -> Set<u64> {
    match index {
        Some(listed) => listed,
        None => Set::empty(),
    }
}

/// What a reading lists does not depend on the order of the walk: an entity is
/// listed exactly where the index names an identifier under which the lookup
/// finds it.
pub proof fn listed_is_what_the_index_finds<T>(
    listed: Seq<T>,
    index: Option<Set<u64>>,
    lookup: spec_fn(u64) -> Option<T>,
    entity: T,
)
    requires
        lists(listed, index, lookup),
    ensures
        listed.contains(entity) <==> exists|id: u64|
            listed_ids(index).contains(id) && #[trigger] lookup(id) == Some(entity),
{
    let ids = choose|ids: Seq<u64>|
        is_walk(ids, index) && present(#[trigger] answers(ids, lookup)) == listed;
    let found = answers(ids, lookup);
    if listed.contains(entity) {
        let k = choose|k: int| 0 <= k < listed.len() && listed[k] == entity;
        let i = present_stems_from_answers(found, k);
        assert(ids.contains(ids[i]));
        assert(lookup(ids[i]) == Some(entity));
        assert(listed_ids(index).contains(ids[i]));
    }
    if exists|id: u64| listed_ids(index).contains(id) && #[trigger] lookup(id) == Some(entity) {
        let id = choose|id: u64|
            listed_ids(index).contains(id) && #[trigger] lookup(id) == Some(entity);
        assert(ids.to_set().contains(id));
        let i = choose|i: int| 0 <= i < ids.len() && ids[i] == id;
        assert(found[i] == Some(entity));
        let k = hit_is_present(found, i);
        assert(listed[k] == entity);
    }
}

/// Two readings of one index list the same set of entities.
pub proof fn readings_list_the_same_set<T>(
    first: Seq<T>,
    second: Seq<T>,
    index: Option<Set<u64>>,
    lookup: spec_fn(u64) -> Option<T>,
)
    requires
        lists(first, index, lookup),
        lists(second, index, lookup),
    ensures
        first.to_set() == second.to_set(),
{
    assert forall|entity: T| first.to_set().contains(entity) == second.to_set().contains(
        entity,
    ) by {
        listed_is_what_the_index_finds(first, index, lookup, entity);
        listed_is_what_the_index_finds(second, index, lookup, entity);
    }
    assert(first.to_set() =~= second.to_set());
}

/// The identifiers of an index under which the lookup finds an entity.
pub open spec fn hits<T>(index: Option<Set<u64>>, lookup: spec_fn(u64) -> Option<T>) -> Set<u64> {
    Set::new(|id: u64| listed_ids(index).contains(id) && lookup(id) is Some)
}

/// The identifiers of a walk under which the lookup finds an entity, in the
/// order of the walk.
pub open spec fn hit_ids<T>(ids: Seq<u64>, lookup: spec_fn(u64) -> Option<T>) -> Seq<u64>
    decreases ids.len(),
{
    if ids.len() == 0 {
        Seq::empty()
    } else if lookup(ids.last()) is Some {
        hit_ids(ids.drop_last(), lookup).push(ids.last())
    } else {
        hit_ids(ids.drop_last(), lookup)
    }
}

/// A walk lists one entity for each of its identifiers under which the lookup
/// finds one.
proof fn one_listed_for_each_hit_of_the_walk<T>(ids: Seq<u64>, lookup: spec_fn(u64) -> Option<T>)
    ensures
        present(answers(ids, lookup)).len() == hit_ids(ids, lookup).len(),
    decreases ids.len(),
{
    if ids.len() > 0 {
        one_listed_for_each_hit_of_the_walk(ids.drop_last(), lookup);
        assert(answers(ids, lookup).drop_last() =~= answers(ids.drop_last(), lookup));
    }
}

/// The hits of a walk are the identifiers of the walk under which the lookup
/// finds an entity.
proof fn hit_of_the_walk_is_found<T>(ids: Seq<u64>, lookup: spec_fn(u64) -> Option<T>, id: u64)
    ensures
        hit_ids(ids, lookup).contains(id) <==> ids.contains(id) && lookup(id) is Some,
    decreases ids.len(),
{
    let found = hit_ids(ids, lookup);
    if ids.len() > 0 {
        let before = ids.drop_last();
        let rest = hit_ids(before, lookup);
        hit_of_the_walk_is_found(before, lookup, id);
        if before.contains(id) {
            let i = choose|i: int| 0 <= i < before.len() && before[i] == id;
            assert(ids[i] == id);
        }
        if ids.contains(id) && !before.contains(id) {
            let i = choose|i: int| 0 <= i < ids.len() && ids[i] == id;
            if i < before.len() {
                assert(before[i] == id);
            }
        }
        if ids.last() == id {
            assert(ids[ids.len() - 1] == id);
        }
        if rest.contains(id) {
            let k = choose|k: int| 0 <= k < rest.len() && rest[k] == id;
            assert(found[k] == id);
        }
        if lookup(ids.last()) is Some {
            assert(found == rest.push(ids.last()));
            assert(found[found.len() - 1] == ids.last());
            if found.contains(id) && !rest.contains(id) {
                let k = choose|k: int| 0 <= k < found.len() && found[k] == id;
                if k < rest.len() {
                    assert(rest[k] == id);
                }
            }
        }
    }
}

/// The hits of a walk without repeats have no repeats.
proof fn hits_of_the_walk_have_no_repeats<T>(ids: Seq<u64>, lookup: spec_fn(u64) -> Option<T>)
    requires
        ids.no_duplicates(),
    ensures
        hit_ids(ids, lookup).no_duplicates(),
    decreases ids.len(),
{
    if ids.len() > 0 {
        let before = ids.drop_last();
        let rest = hit_ids(before, lookup);
        assert(before.no_duplicates());
        hits_of_the_walk_have_no_repeats(before, lookup);
        if lookup(ids.last()) is Some {
            let last = ids.last();
            hit_of_the_walk_is_found(before, lookup, last);
            if before.contains(last) {
                let i = choose|i: int| 0 <= i < before.len() && before[i] == last;
                assert(ids[i] == ids[ids.len() - 1]);
            }
            assert(!rest.contains(last));
            assert forall|i: int, j: int|
                0 <= i < rest.len() + 1 && 0 <= j < rest.len() + 1 && i != j implies rest.push(
                last,
            )[i] != rest.push(last)[j] by {
                if i < rest.len() && j < rest.len() {
                } else if i < rest.len() {
                    assert(rest.contains(rest[i]));
                } else {
                    assert(rest.contains(rest[j]));
                }
            }
        }
    }
}

/// Whatever the order of the walk, it has as many hits as the index has.
pub proof fn walk_has_the_hits_of_the_index<T>(
    ids: Seq<u64>,
    index: Option<Set<u64>>,
    lookup: spec_fn(u64) -> Option<T>,
)
    requires
        is_walk(ids, index),
    ensures
        hits(index, lookup).finite(),
        hit_ids(ids, lookup).len() == hits(index, lookup).len(),
{
    let found = hit_ids(ids, lookup);
    assert(ids.no_duplicates()) by {
        if index is None {
            assert(ids.len() == 0);
        }
    }
    hits_of_the_walk_have_no_repeats(ids, lookup);
    found.unique_seq_to_set();
    vstd::seq_lib::seq_to_set_is_finite(found);
    assert forall|id: u64| found.to_set().contains(id) == hits(index, lookup).contains(id) by {
        hit_of_the_walk_is_found(ids, lookup, id);
        if index is Some {
            assert(ids.to_set().contains(id) == ids.contains(id));
        } else {
            assert(!ids.contains(id));
        }
    }
    assert(found.to_set() =~= hits(index, lookup));
}

/// A reading lists exactly one entity for each identifier of the index under
/// which the lookup finds one: the list is as long as the index has hits,
/// whatever the order of the walk.
pub proof fn listing_has_one_entry_for_each_hit<T>(
    listed: Seq<T>,
    index: Option<Set<u64>>,
    lookup: spec_fn(u64) -> Option<T>,
)
    requires
        lists(listed, index, lookup),
    ensures
        hits(index, lookup).finite(),
        listed.len() == hits(index, lookup).len(),
{
    let ids = choose|ids: Seq<u64>|
        is_walk(ids, index) && present(#[trigger] answers(ids, lookup)) == listed;
    one_listed_for_each_hit_of_the_walk(ids, lookup);
    walk_has_the_hits_of_the_index(ids, index, lookup);
}

/// On one walk, the channels that are threads and those that are not are
/// together the channels that are found.
proof fn walk_splits_its_channels_by_kind(store: Guilds, ids: Seq<u64>)
    ensures
        hit_ids(ids, tagged_channels_of(store, false)).len() + hit_ids(
            ids,
            tagged_channels_of(store, true),
        ).len() == hit_ids(ids, channels_of(store)).len(),
    decreases ids.len(),
{
    if ids.len() > 0 {
        walk_splits_its_channels_by_kind(store, ids.drop_last());
    }
}

/// The two channel lists of a guild hold together exactly one entry for each
/// channel of the guild's index that the store holds, also where they stem
/// from two separate readings.
pub proof fn channels_and_threads_are_the_resolved_channels(
    store: Guilds,
    guild_id: u64,
    channels: Seq<ChannelEntry>,
    threads: Seq<ChannelEntry>,
)
    requires
        lists(
            channels,
            index_at(store, IndexKey::Channels(guild_id)),
            tagged_channels_of(store, false),
        ),
        lists(
            threads,
            index_at(store, IndexKey::Channels(guild_id)),
            tagged_channels_of(store, true),
        ),
    ensures
        hits(index_at(store, IndexKey::Channels(guild_id)), channels_of(store)).finite(),
        channels.len() + threads.len() == hits(
            index_at(store, IndexKey::Channels(guild_id)),
            channels_of(store),
        ).len(),
{
    let index = index_at(store, IndexKey::Channels(guild_id));
    let ids = choose|ids: Seq<u64>|
        is_walk(ids, index) && present(#[trigger] answers(ids, tagged_channels_of(store, false)))
            == channels;
    listing_has_one_entry_for_each_hit(channels, index, tagged_channels_of(store, false));
    listing_has_one_entry_for_each_hit(threads, index, tagged_channels_of(store, true));
    walk_has_the_hits_of_the_index(ids, index, tagged_channels_of(store, false));
    walk_has_the_hits_of_the_index(ids, index, tagged_channels_of(store, true));
    walk_has_the_hits_of_the_index(ids, index, channels_of(store));
    walk_splits_its_channels_by_kind(store, ids);
}

/// A member is listed for a guild only where the store holds both its
/// membership record and the user that the record refers to.
pub proof fn listed_member_is_held_with_its_user(
    store: Guilds,
    guild_id: u64,
    members: Seq<MemberRecord>,
    k: int,
) -> (user_id: u64)
    requires
        lists(members, index_at(store, IndexKey::Members(guild_id)), members_of(store, guild_id)),
        0 <= k < members.len(),
    ensures
        listed_ids(index_at(store, IndexKey::Members(guild_id))).contains(user_id),
        member_at(store, guild_id, user_id) == Some(members[k].member),
        user_at(store, members[k].member.user_id) == Some(members[k].user),
{
    let index = index_at(store, IndexKey::Members(guild_id));
    let lookup = members_of(store, guild_id);
    assert(members.contains(members[k]));
    listed_is_what_the_index_finds(members, index, lookup, members[k]);
    let user_id = choose|id: u64|
        listed_ids(index).contains(id) && #[trigger] lookup(id) == Some(members[k]);
    assert(member_record_at(store, guild_id, user_id) == Some(members[k]));
    user_id
}

/// A membership record whose user the store does not hold never appears in
/// the member list of its guild.
pub proof fn member_without_user_is_not_listed(
    store: Guilds,
    guild_id: u64,
    members: Seq<MemberRecord>,
    user_id: u64,
)
    requires
        lists(members, index_at(store, IndexKey::Members(guild_id)), members_of(store, guild_id)),
        member_at(store, guild_id, user_id) matches Some(member) && user_at(store, member.user_id)
            is None,
    ensures
        forall|k: int|
            0 <= k < members.len() ==> (#[trigger] members[k]).member != member_at(
                store,
                guild_id,
                user_id,
            ).unwrap(),
{
    let orphan = member_at(store, guild_id, user_id).unwrap();
    assert forall|k: int| 0 <= k < members.len() implies (#[trigger] members[k]).member
        != orphan by {
        listed_member_is_held_with_its_user(store, guild_id, members, k);
    }
}

/// Every member whose membership record and user the store holds is listed for
/// its guild, provided the guild's member index names it.
pub proof fn member_with_user_is_listed(
    store: Guilds,
    guild_id: u64,
    members: Seq<MemberRecord>,
    user_id: u64,
)
    requires
        lists(members, index_at(store, IndexKey::Members(guild_id)), members_of(store, guild_id)),
        listed_ids(index_at(store, IndexKey::Members(guild_id))).contains(user_id),
        member_record_at(store, guild_id, user_id) is Some,
    ensures
        members.contains(member_record_at(store, guild_id, user_id).unwrap()),
{
    let index = index_at(store, IndexKey::Members(guild_id));
    let lookup = members_of(store, guild_id);
    let member = member_record_at(store, guild_id, user_id).unwrap();
    assert(lookup(user_id) == Some(member));
    listed_is_what_the_index_finds(members, index, lookup, member);
}

/// A voice record that the store holds for a user named in the guild's
/// voice-state index is listed, whether or not a member can be composed for
/// that user: where the membership record or its user is missing, the voice
/// state is listed without a member.
pub proof fn voice_state_is_listed_without_its_member(
    store: Guilds,
    guild_id: u64,
    states: Seq<VoiceStateRecord>,
    user_id: u64,
)
    requires
        lists(
            states,
            index_at(store, IndexKey::VoiceStates(guild_id)),
            voice_states_of(store, guild_id),
        ),
        listed_ids(index_at(store, IndexKey::VoiceStates(guild_id))).contains(user_id),
        voice_state_at(store, guild_id, user_id) is Some,
    ensures
        states.contains(
            VoiceStateRecord {
                state: voice_state_at(store, guild_id, user_id).unwrap(),
                member: member_record_at(store, guild_id, user_id),
            },
        ),
        member_at(store, guild_id, user_id) is None ==> member_record_at(store, guild_id, user_id)
            is None,
        member_at(store, guild_id, user_id) matches Some(member) && user_at(store, member.user_id)
            is None ==> member_record_at(store, guild_id, user_id) is None,
{
    let index = index_at(store, IndexKey::VoiceStates(guild_id));
    let lookup = voice_states_of(store, guild_id);
    let state = VoiceStateRecord {
        state: voice_state_at(store, guild_id, user_id).unwrap(),
        member: member_record_at(store, guild_id, user_id),
    };
    assert(lookup(user_id) == Some(state));
    listed_is_what_the_index_finds(states, index, lookup, state);
}

/// Rebuilding is repeatable: two aggregates rebuilt for the same guild from the
/// same store have the same scalar attributes and, child collection by child
/// collection, the same set of children.
pub proof fn reconstruction_is_repeatable(
    store: Guilds,
    entry: GuildEntry,
    first: GuildAggregate,
    second: GuildAggregate,
)
    requires
        rebuilt_from(first, store, entry),
        rebuilt_from(second, store, entry),
    ensures
        first.agrees_with(second),
{
    let guild_id = entry.id;
    let channel_index = index_at(store, IndexKey::Channels(guild_id));
    readings_list_the_same_set(
        first.channels@,
        second.channels@,
        channel_index,
        tagged_channels_of(store, false),
    );
    readings_list_the_same_set(
        first.threads@,
        second.threads@,
        channel_index,
        tagged_channels_of(store, true),
    );
    readings_list_the_same_set(
        first.presences@,
        second.presences@,
        index_at(store, IndexKey::Presences(guild_id)),
        presences_of(store, guild_id),
    );
    readings_list_the_same_set(
        first.emojis@,
        second.emojis@,
        index_at(store, IndexKey::Emojis(guild_id)),
        emojis_of(store),
    );
    readings_list_the_same_set(
        first.members@,
        second.members@,
        index_at(store, IndexKey::Members(guild_id)),
        members_of(store, guild_id),
    );
    readings_list_the_same_set(
        first.roles@,
        second.roles@,
        index_at(store, IndexKey::Roles(guild_id)),
        roles_of(store),
    );
    readings_list_the_same_set(
        first.scheduled_events@,
        second.scheduled_events@,
        index_at(store, IndexKey::ScheduledEvents(guild_id)),
        scheduled_events_of(store),
    );
    readings_list_the_same_set(
        first.stage_instances@,
        second.stage_instances@,
        index_at(store, IndexKey::StageInstances(guild_id)),
        stage_instances_of(store),
    );
    readings_list_the_same_set(
        first.stickers@,
        second.stickers@,
        index_at(store, IndexKey::Stickers(guild_id)),
        stickers_of(store),
    );
    readings_list_the_same_set(
        first.voice_states@,
        second.voice_states@,
        index_at(store, IndexKey::VoiceStates(guild_id)),
        voice_states_of(store, guild_id),
    );
}

/// A channel of the guild's index is listed in exactly one of the two channel
/// buckets of its aggregate: among the threads where its own tag says so,
/// among the other channels where it does not.
pub proof fn channel_is_in_the_bucket_of_its_kind(
    aggregate: GuildAggregate,
    store: Guilds,
    entry: GuildEntry,
    channel_id: u64,
)
    requires
        rebuilt_from(aggregate, store, entry),
        listed_ids(index_at(store, IndexKey::Channels(entry.id))).contains(channel_id),
        channel_at(store, channel_id) is Some,
    ensures
        ({
            let channel = channel_at(store, channel_id).unwrap();
            if channel.thread {
                aggregate.threads@.contains(channel) && !aggregate.channels@.contains(channel)
            } else {
                aggregate.channels@.contains(channel) && !aggregate.threads@.contains(channel)
            }
        }),
{
    let channel = channel_at(store, channel_id).unwrap();
    let index = index_at(store, IndexKey::Channels(entry.id));
    let plain = tagged_channels_of(store, false);
    let threads = tagged_channels_of(store, true);
    listed_is_what_the_index_finds(aggregate.channels@, index, plain, channel);
    listed_is_what_the_index_finds(aggregate.threads@, index, threads, channel);
    if channel.thread {
        assert(threads(channel_id) == Some(channel));
    } else {
        assert(plain(channel_id) == Some(channel));
    }
}

} // verus!
