//! A shard's entity store, and every call that this library makes into it.
//!
//! The store is `twilight_cache_inmemory::InMemoryCache`. A [`Guilds`] owns
//! its cache: ingestion changes it through [`Guilds::update`], which takes the
//! store exclusively, and nothing else reaches it. While a store is borrowed
//! for reading it therefore does not change, and what it holds is a function
//! of the store: the two tables named below. A process that ingests and
//! serves at the same time keeps each store behind a lock of its own and
//! takes the lock anew for each call.
//!
//! The functions of this file that call into the cache are believed, not
//! proved. Each one makes a single kind of call and copies what comes back
//! into values of this library; its contract says, over the two tables, what
//! the cache's source shows of the call. All decisions on those values are
//! taken in verified code. That holds of ingestion too: the cache moves some
//! counts by plain arithmetic, so [`Guilds::update`] asks that the count has
//! room, and [`Guilds::try_update`] tests that before it calls.

use vstd::prelude::*;
use twilight_cache_inmemory::{InMemoryCache, ResourceType};
use twilight_cache_inmemory::model::{CachedPresence, CachedVoiceState};
use twilight_model::channel::StageInstance;
use twilight_model::gateway::event::Event;
use twilight_model::guild::scheduled_event::GuildScheduledEvent;
use twilight_model::guild::Role;
use twilight_model::id::Id;
use twilight_model::user::User;
use twilight_model::channel::message::EmojiReactionType;
use crate::entities::same_emoji;
use crate::entities::{
    is_same_emoji, ChannelEntry, CountChange, EmojiEntry, GuildEntry, MemberEntry, ReactionCount,
    ReactionKey, StickerEntry,
};

verus! {

/// The entity store of one shard.
///
/// It holds an `InMemoryCache` with the default models. The cache is generic
/// over a trait of its crate, which keeps its type out of verified
/// signatures, so it lives in this private field and is reached only through
/// the functions below.
#[verifier::external_body]
pub struct Guilds(InMemoryCache);

/// How many entities of each kind a store holds.
#[derive(Debug)]
pub struct CacheStats {
    pub channels: usize,
    pub emojis: usize,
    pub guilds: usize,
    pub members: usize,
    pub presences: usize,
    pub roles: usize,
    pub unavailable_guilds: usize,
    pub users: usize,
    pub voice_states: usize,
}

/// What an entity is stored under: its kind and its identifier. Members,
/// presences and voice states belong to a guild and a user.
pub enum EntityKey {
    Guild(u64),
    Channel(u64),
    User(u64),
    Member { guild_id: u64, user_id: u64 },
    Presence { guild_id: u64, user_id: u64 },
    Emoji(u64),
    Role(u64),
    ScheduledEvent(u64),
    StageInstance(u64),
    Sticker(u64),
    VoiceState { guild_id: u64, user_id: u64 },
    Message(u64),
}

/// An entity of the store.
pub enum Entity {
    Guild(GuildEntry),
    Channel(ChannelEntry),
    User(User),
    Member(MemberEntry),
    Presence(CachedPresence),
    Emoji(EmojiEntry),
    Role(Role),
    ScheduledEvent(GuildScheduledEvent),
    StageInstance(StageInstance),
    Sticker(StickerEntry),
    VoiceState(CachedVoiceState),
    /// Of a message the store is asked only for the counts of its reactions.
    Message(Seq<ReactionCount>),
}

/// What an index of the store is kept under: the guild whose children of one
/// kind it lists, or the user whose guilds it lists.
pub enum IndexKey {
    Channels(u64),
    Presences(u64),
    Emojis(u64),
    Members(u64),
    Roles(u64),
    ScheduledEvents(u64),
    StageInstances(u64),
    Stickers(u64),
    VoiceStates(u64),
    UserGuilds(u64),
}

/// The entities that a store holds.
pub uninterp spec fn store_entities(store: Guilds) -> Map<EntityKey, Entity>;

/// The indices that a store holds: for each, the set of identifiers it lists.
pub uninterp spec fn store_indices(store: Guilds) -> Map<IndexKey, Set<u64>>;

/// The entity stored under a key, if there is one.
pub open spec fn entity_at(store: Guilds, key: EntityKey) -> Option<Entity> {
    if store_entities(store).contains_key(key) {
        Some(store_entities(store)[key])
    } else {
        None
    }
}

/// The identifiers that an index lists, if the store holds the index.
pub open spec fn index_at(store: Guilds, key: IndexKey) -> Option<Set<u64>> {
    if store_indices(store).contains_key(key) {
        Some(store_indices(store)[key])
    } else {
        None
    }
}

/// The guild stored under an identifier.
pub open spec fn guild_at(store: Guilds, guild_id: u64) -> Option<GuildEntry> {
    match entity_at(store, EntityKey::Guild(guild_id)) {
        Some(Entity::Guild(guild)) => Some(guild),
        _ => None,
    }
}

/// The channel stored under an identifier.
pub open spec fn channel_at(store: Guilds, channel_id: u64) -> Option<ChannelEntry> {
    match entity_at(store, EntityKey::Channel(channel_id)) {
        Some(Entity::Channel(channel)) => Some(channel),
        _ => None,
    }
}

/// The user stored under an identifier.
pub open spec fn user_at(store: Guilds, user_id: u64) -> Option<User> {
    match entity_at(store, EntityKey::User(user_id)) {
        Some(Entity::User(user)) => Some(user),
        _ => None,
    }
}

/// The membership record stored for a user in a guild.
pub open spec fn member_at(store: Guilds, guild_id: u64, user_id: u64) -> Option<MemberEntry> {
    match entity_at(store, EntityKey::Member { guild_id, user_id }) {
        Some(Entity::Member(member)) => Some(member),
        _ => None,
    }
}

/// The presence stored for a user in a guild.
pub open spec fn presence_at(store: Guilds, guild_id: u64, user_id: u64) -> Option<
    CachedPresence,
> {
    match entity_at(store, EntityKey::Presence { guild_id, user_id }) {
        Some(Entity::Presence(presence)) => Some(presence),
        _ => None,
    }
}

/// The emoji stored under an identifier.
pub open spec fn emoji_at(store: Guilds, emoji_id: u64) -> Option<EmojiEntry> {
    match entity_at(store, EntityKey::Emoji(emoji_id)) {
        Some(Entity::Emoji(emoji)) => Some(emoji),
        _ => None,
    }
}

/// The role stored under an identifier.
pub open spec fn role_at(store: Guilds, role_id: u64) -> Option<Role> {
    match entity_at(store, EntityKey::Role(role_id)) {
        Some(Entity::Role(role)) => Some(role),
        _ => None,
    }
}

/// The scheduled event stored under an identifier.
pub open spec fn scheduled_event_at(store: Guilds, event_id: u64) -> Option<GuildScheduledEvent> {
    match entity_at(store, EntityKey::ScheduledEvent(event_id)) {
        Some(Entity::ScheduledEvent(event)) => Some(event),
        _ => None,
    }
}

/// The stage instance stored under an identifier.
pub open spec fn stage_instance_at(store: Guilds, stage_id: u64) -> Option<StageInstance> {
    match entity_at(store, EntityKey::StageInstance(stage_id)) {
        Some(Entity::StageInstance(stage)) => Some(stage),
        _ => None,
    }
}

/// The sticker stored under an identifier.
pub open spec fn sticker_at(store: Guilds, sticker_id: u64) -> Option<StickerEntry> {
    match entity_at(store, EntityKey::Sticker(sticker_id)) {
        Some(Entity::Sticker(sticker)) => Some(sticker),
        _ => None,
    }
}

/// The voice state stored for a user in a guild.
pub open spec fn voice_state_at(store: Guilds, guild_id: u64, user_id: u64) -> Option<
    CachedVoiceState,
> {
    match entity_at(store, EntityKey::VoiceState { guild_id, user_id }) {
        Some(Entity::VoiceState(state)) => Some(state),
        _ => None,
    }
}

/// The reaction counts of the message stored under an identifier.
pub open spec fn reactions_at(store: Guilds, message_id: u64) -> Option<Seq<ReactionCount>> {
    match entity_at(store, EntityKey::Message(message_id)) {
        Some(Entity::Message(reactions)) => Some(reactions),
        _ => None,
    }
}

/// What a lookup of a message's reactions gave is what the store holds.
pub open spec fn is_reactions(
    found: Option<Vec<ReactionCount>>,
    held: Option<Seq<ReactionCount>>,
) -> bool {
    match found {
        Some(found) => held == Some(found@),
        None => held is None,
    }
}

/// The count that an upstream event moves by one in the store, if it moves
/// any.
pub uninterp spec fn count_change_of(event: Event) -> CountChange;

/// No reaction with the emoji has been counted as often as a number can say.
pub open spec fn emoji_has_room(reactions: Seq<ReactionCount>, emoji: ReactionKey) -> bool {
    forall|i: int|
        0 <= i < reactions.len() && same_emoji((#[trigger] reactions[i]).emoji, emoji)
            ==> reactions[i].count < u64::MAX
}

/// The count that is to move has room to move: a member count that goes up is
/// below the largest number, one that goes down is above zero, and so for the
/// count of a reaction that goes up. A count that the store does not hold
/// does not move.
pub open spec fn has_room(store: Guilds, change: CountChange) -> bool {
    match change {
        CountChange::MemberJoins(guild_id) => guild_at(store, guild_id) matches Some(guild)
            ==> guild.member_count != Some(u64::MAX),
        CountChange::MemberLeaves(guild_id) => guild_at(store, guild_id) matches Some(guild)
            ==> guild.member_count != Some(0u64),
        CountChange::ReactionAdded { message_id, emoji } => reactions_at(
            store,
            message_id,
        ) matches Some(reactions) ==> emoji_has_room(reactions, emoji),
        CountChange::Unchanged => true,
    }
}

/// The store can take the event: the count that the event moves has room.
pub open spec fn admits(store: Guilds, event: Event) -> bool {
    has_room(store, count_change_of(event))
}

/// No entity at all.
pub open spec fn no_entities() -> Map<EntityKey, Entity> {
    Map::empty()
}

/// No index at all.
pub open spec fn no_indices() -> Map<IndexKey, Set<u64>> {
    Map::empty()
}

/// Every identifier in the sequence is a positive number.
pub open spec fn all_nonzero(ids: Seq<u64>) -> bool {
    forall|i: int| 0 <= i < ids.len() ==> ids[i] != 0
}

/// Every entry of the sequence has a positive identifier.
pub open spec fn all_entries_wf(entries: Seq<GuildEntry>) -> bool {
    forall|i: int| 0 <= i < entries.len() ==> (#[trigger] entries[i]).wf()
}

/// The sequence is one walk over an index: it names each identifier of the
/// index once and nothing else, in some order. An index that the store does
/// not hold is walked as if it were empty.
pub open spec fn is_walk(ids: Seq<u64>, index: Option<Set<u64>>) -> bool {
    match index {
        Some(listed) => ids.no_duplicates() && ids.to_set() == listed,
        None => ids.len() == 0,
    }
}

/// What a walk over an index gave: the listed identifiers, once each in some
/// order, or nothing where the store does not hold the index.
pub open spec fn walked(ids: Option<Vec<u64>>, index: Option<Set<u64>>) -> bool {
    match ids {
        Some(ids) => index is Some && is_walk(ids@, index) && all_nonzero(ids@),
        None => index is None,
    }
}

/// The walk holds a guild under the identifier.
pub open spec fn walk_names(entries: Seq<GuildEntry>, guild_id: u64) -> bool {
    exists|i: int| 0 <= i < entries.len() && (#[trigger] entries[i]).id == guild_id
}

/// No two entries of the walk have the same identifier.
pub open spec fn distinct_ids(entries: Seq<GuildEntry>) -> bool {
    forall|i: int, j: int|
        0 <= i < j < entries.len() ==> (#[trigger] entries[i]).id != (#[trigger] entries[j]).id
}

/// The sequence is one walk over the guilds of a store: it holds each stored
/// guild once, under its identifier, and nothing else, in some order.
pub open spec fn is_guild_walk(entries: Seq<GuildEntry>, store: Guilds) -> bool {
    &&& forall|i: int|
        0 <= i < entries.len() ==> guild_at(store, (#[trigger] entries[i]).id) == Some(entries[i])
    &&& distinct_ids(entries)
    &&& forall|guild_id: u64|
        guild_at(store, guild_id) is Some ==> #[trigger] walk_names(entries, guild_id)
}

impl Guilds {
    /// An empty store that caches only the kinds of resource whose bits are
    /// set in `resource_types` (`InMemoryCache::builder`, then
    /// `InMemoryCacheBuilder::resource_types` and `build`). Bits that name no
    /// kind are ignored; with every bit set, every kind is cached.
    #[verifier::external_body]
    pub fn new(resource_types: u64) -> (store: Guilds)
        ensures
            store_entities(store) == no_entities(),
            store_indices(store) == no_indices(),
    {
        let kinds = ResourceType::from_bits_truncate(resource_types);
        Guilds(InMemoryCache::builder().resource_types(kinds).build())
    }

    /// Applies an upstream dispatch event to the store
    /// (`InMemoryCache::update`). What the store holds afterwards is up to the
    /// cache. The cache moves a guild's member count and the count of a
    /// reaction by plain arithmetic, which fails where the count has no room;
    /// such an event is left out.
    #[verifier::external_body]
    pub fn update(&mut self, event: &Event)
        requires
            admits(*old(self), *event),
    {
        self.0.update(event);
    }

    /// Counts of the store's entities (`InMemoryCache::stats` and the counting
    /// methods of `InMemoryCacheStats`).
    #[verifier::external_body]
    pub fn stats(&self) -> CacheStats {
        let stats = self.0.stats();
        CacheStats {
            channels: stats.channels(),
            emojis: stats.emojis(),
            guilds: stats.guilds(),
            members: stats.members(),
            presences: stats.presences(),
            roles: stats.roles(),
            unavailable_guilds: stats.unavailable_guilds(),
            users: stats.users(),
            voice_states: stats.voice_states(),
        }
    }

    /// One walk over the guilds of the store (`InMemoryCache::iter`, then
    /// `InMemoryCacheIter::guilds`), in the order of the walk: every stored
    /// guild once, with the identifier it is stored under, its availability
    /// flag and its member count copied out beside its record. An identifier of the
    /// store is a non-zero integer by its type.
    #[verifier::external_body]
    pub(crate) fn guild_entries(&self) -> (entries: Vec<GuildEntry>)
        ensures
            all_entries_wf(entries@),
            is_guild_walk(entries@, *self),
    {
        self.0.iter().guilds().map(|guild| GuildEntry {
            id: guild.key().get(),
            unavailable: guild.unavailable(),
            member_count: guild.member_count(),
            guild: guild.value().clone(),
        }).collect()
    }

    /// One walk over the channel identifiers indexed under a guild
    /// (`InMemoryCache::guild_channels`), or `None` where the store has no such
    /// index. `Id::new` refuses zero, which is left out.
    #[verifier::external_body]
    pub(crate) fn channel_ids(&self, guild_id: u64) -> (ids: Option<Vec<u64>>)
        requires
            guild_id != 0,
        ensures
            walked(ids, index_at(*self, IndexKey::Channels(guild_id))),
    {
        match self.0.guild_channels(Id::new(guild_id)) {
            Some(ids) => Some(ids.iter().map(|id| id.get()).collect()),
            None => None,
        }
    }

    /// One walk over the user identifiers of the presences indexed under a
    /// guild (`InMemoryCache::guild_presences`), or `None` where the store has
    /// no such index.
    #[verifier::external_body]
    pub(crate) fn presence_ids(&self, guild_id: u64) -> (ids: Option<Vec<u64>>)
        requires
            guild_id != 0,
        ensures
            walked(ids, index_at(*self, IndexKey::Presences(guild_id))),
    {
        match self.0.guild_presences(Id::new(guild_id)) {
            Some(ids) => Some(ids.iter().map(|id| id.get()).collect()),
            None => None,
        }
    }

    /// One walk over the emoji identifiers indexed under a guild
    /// (`InMemoryCache::guild_emojis`), or `None` where the store has no such
    /// index.
    #[verifier::external_body]
    pub(crate) fn emoji_ids(&self, guild_id: u64) -> (ids: Option<Vec<u64>>)
        requires
            guild_id != 0,
        ensures
            walked(ids, index_at(*self, IndexKey::Emojis(guild_id))),
    {
        match self.0.guild_emojis(Id::new(guild_id)) {
            Some(ids) => Some(ids.iter().map(|id| id.get()).collect()),
            None => None,
        }
    }

    /// One walk over the user identifiers of the members indexed under a guild
    /// (`InMemoryCache::guild_members`), or `None` where the store has no such
    /// index.
    #[verifier::external_body]
    pub(crate) fn member_ids(&self, guild_id: u64) -> (ids: Option<Vec<u64>>)
        requires
            guild_id != 0,
        ensures
            walked(ids, index_at(*self, IndexKey::Members(guild_id))),
    {
        match self.0.guild_members(Id::new(guild_id)) {
            Some(ids) => Some(ids.iter().map(|id| id.get()).collect()),
            None => None,
        }
    }

    /// One walk over the role identifiers indexed under a guild
    /// (`InMemoryCache::guild_roles`), or `None` where the store has no such
    /// index.
    #[verifier::external_body]
    pub(crate) fn role_ids(&self, guild_id: u64) -> (ids: Option<Vec<u64>>)
        requires
            guild_id != 0,
        ensures
            walked(ids, index_at(*self, IndexKey::Roles(guild_id))),
    {
        match self.0.guild_roles(Id::new(guild_id)) {
            Some(ids) => Some(ids.iter().map(|id| id.get()).collect()),
            None => None,
        }
    }

    /// One walk over the scheduled-event identifiers indexed under a guild
    /// (`InMemoryCache::scheduled_events`), or `None` where the store has no
    /// such index.
    #[verifier::external_body]
    pub(crate) fn scheduled_event_ids(&self, guild_id: u64) -> (ids: Option<Vec<u64>>)
        requires
            guild_id != 0,
        ensures
            walked(ids, index_at(*self, IndexKey::ScheduledEvents(guild_id))),
    {
        match self.0.scheduled_events(Id::new(guild_id)) {
            Some(ids) => Some(ids.iter().map(|id| id.get()).collect()),
            None => None,
        }
    }

    /// One walk over the stage-instance identifiers indexed under a guild
    /// (`InMemoryCache::guild_stage_instances`), or `None` where the store has
    /// no such index.
    #[verifier::external_body]
    pub(crate) fn stage_instance_ids(&self, guild_id: u64) -> (ids: Option<Vec<u64>>)
        requires
            guild_id != 0,
        ensures
            walked(ids, index_at(*self, IndexKey::StageInstances(guild_id))),
    {
        match self.0.guild_stage_instances(Id::new(guild_id)) {
            Some(ids) => Some(ids.iter().map(|id| id.get()).collect()),
            None => None,
        }
    }

    /// One walk over the sticker identifiers indexed under a guild
    /// (`InMemoryCache::guild_stickers`), or `None` where the store has no such
    /// index.
    #[verifier::external_body]
    pub(crate) fn sticker_ids(&self, guild_id: u64) -> (ids: Option<Vec<u64>>)
        requires
            guild_id != 0,
        ensures
            walked(ids, index_at(*self, IndexKey::Stickers(guild_id))),
    {
        match self.0.guild_stickers(Id::new(guild_id)) {
            Some(ids) => Some(ids.iter().map(|id| id.get()).collect()),
            None => None,
        }
    }

    /// One walk over the user identifiers of the voice states indexed under a
    /// guild (`InMemoryCache::guild_voice_states`), or `None` where the store
    /// has no such index.
    #[verifier::external_body]
    pub(crate) fn voice_state_ids(&self, guild_id: u64) -> (ids: Option<Vec<u64>>)
        requires
            guild_id != 0,
        ensures
            walked(ids, index_at(*self, IndexKey::VoiceStates(guild_id))),
    {
        match self.0.guild_voice_states(Id::new(guild_id)) {
            Some(ids) => Some(ids.iter().map(|id| id.get()).collect()),
            None => None,
        }
    }

    /// One walk over the identifiers of the guilds that a user is recorded in
    /// (`InMemoryCache::user_guilds`), or `None` where the store has no such
    /// record.
    #[verifier::external_body]
    pub(crate) fn user_guild_ids(&self, user_id: u64) -> (ids: Option<Vec<u64>>)
        requires
            user_id != 0,
        ensures
            walked(ids, index_at(*self, IndexKey::UserGuilds(user_id))),
    {
        match self.0.user_guilds(Id::new(user_id)) {
            Some(ids) => Some(ids.iter().map(|id| id.get()).collect()),
            None => None,
        }
    }

    /// A copy of the guild stored under an identifier (`InMemoryCache::guild`),
    /// if there is one, with that identifier, the guild's availability flag
    /// and its member count (`CachedGuild::member_count`) beside it.
    #[verifier::external_body]
    pub(crate) fn lookup_guild(&self, guild_id: u64) -> (found: Option<GuildEntry>)
        requires
            guild_id != 0,
        ensures
            found == guild_at(*self, guild_id),
            found matches Some(entry) ==> entry.id == guild_id,
    {
        match self.0.guild(Id::new(guild_id)) {
            Some(guild) => Some(GuildEntry {
                id: guild_id,
                unavailable: guild.unavailable(),
                member_count: guild.member_count(),
                guild: guild.value().clone(),
            }),
            None => None,
        }
    }

    /// A copy of the channel stored under an identifier
    /// (`InMemoryCache::channel`), if there is one, with the answer of
    /// `ChannelType::is_thread` for its type tag beside it.
    #[verifier::external_body]
    pub(crate) fn lookup_channel(&self, channel_id: u64) -> (found: Option<ChannelEntry>)
        requires
            channel_id != 0,
        ensures
            found == channel_at(*self, channel_id),
    {
        match self.0.channel(Id::new(channel_id)) {
            Some(channel) => Some(ChannelEntry {
                thread: channel.kind.is_thread(),
                channel: channel.value().clone(),
            }),
            None => None,
        }
    }

    /// A copy of the user stored under an identifier (`InMemoryCache::user`),
    /// if there is one.
    #[verifier::external_body]
    pub(crate) fn lookup_user(&self, user_id: u64) -> (found: Option<User>)
        requires
            user_id != 0,
        ensures
            found == user_at(*self, user_id),
    {
        match self.0.user(Id::new(user_id)) {
            Some(user) => Some(user.value().clone()),
            None => None,
        }
    }

    /// A copy of the membership record stored for a user in a guild
    /// (`InMemoryCache::member`), if there is one, with the user identifier
    /// that the record itself names (`CachedMember::user_id`) beside it.
    #[verifier::external_body]
    pub(crate) fn lookup_member(&self, guild_id: u64, user_id: u64) -> (found: Option<MemberEntry>)
        requires
            guild_id != 0,
            user_id != 0,
        ensures
            found == member_at(*self, guild_id, user_id),
            found matches Some(entry) ==> entry.wf(),
    {
        match self.0.member(Id::new(guild_id), Id::new(user_id)) {
            Some(member) => Some(MemberEntry {
                user_id: member.user_id().get(),
                member: member.value().clone(),
            }),
            None => None,
        }
    }

    /// A copy of the presence stored for a user in a guild
    /// (`InMemoryCache::presence`), if there is one.
    #[verifier::external_body]
    pub(crate) fn lookup_presence(&self, guild_id: u64, user_id: u64) -> (found: Option<
        CachedPresence,
    >)
        requires
            guild_id != 0,
            user_id != 0,
        ensures
            found == presence_at(*self, guild_id, user_id),
    {
        match self.0.presence(Id::new(guild_id), Id::new(user_id)) {
            Some(presence) => Some(presence.value().clone()),
            None => None,
        }
    }

    /// A copy of the emoji stored under an identifier (`InMemoryCache::emoji`),
    /// if there is one, with the creator that the record names
    /// (`CachedEmoji::user_id`) beside it.
    #[verifier::external_body]
    pub(crate) fn lookup_emoji(&self, emoji_id: u64) -> (found: Option<EmojiEntry>)
        requires
            emoji_id != 0,
        ensures
            found == emoji_at(*self, emoji_id),
            found matches Some(entry) ==> entry.wf(),
    {
        match self.0.emoji(Id::new(emoji_id)) {
            Some(emoji) => Some(EmojiEntry {
                user_id: emoji.user_id().map(|id| id.get()),
                emoji: emoji.resource().clone(),
            }),
            None => None,
        }
    }

    /// A copy of the role stored under an identifier (`InMemoryCache::role`),
    /// if there is one.
    #[verifier::external_body]
    pub(crate) fn lookup_role(&self, role_id: u64) -> (found: Option<Role>)
        requires
            role_id != 0,
        ensures
            found == role_at(*self, role_id),
    {
        match self.0.role(Id::new(role_id)) {
            Some(role) => Some(role.resource().clone()),
            None => None,
        }
    }

    /// A copy of the scheduled event stored under an identifier
    /// (`InMemoryCache::scheduled_event`), if there is one.
    #[verifier::external_body]
    pub(crate) fn lookup_scheduled_event(&self, event_id: u64) -> (found: Option<
        GuildScheduledEvent,
    >)
        requires
            event_id != 0,
        ensures
            found == scheduled_event_at(*self, event_id),
    {
        match self.0.scheduled_event(Id::new(event_id)) {
            Some(event) => Some(event.resource().clone()),
            None => None,
        }
    }

    /// A copy of the stage instance stored under an identifier
    /// (`InMemoryCache::stage_instance`), if there is one.
    #[verifier::external_body]
    pub(crate) fn lookup_stage_instance(&self, stage_id: u64) -> (found: Option<StageInstance>)
        requires
            stage_id != 0,
        ensures
            found == stage_instance_at(*self, stage_id),
    {
        match self.0.stage_instance(Id::new(stage_id)) {
            Some(stage) => Some(stage.resource().clone()),
            None => None,
        }
    }

    /// A copy of the sticker stored under an identifier
    /// (`InMemoryCache::sticker`), if there is one, with the uploader that the
    /// record names (`CachedSticker::user_id`) beside it.
    #[verifier::external_body]
    pub(crate) fn lookup_sticker(&self, sticker_id: u64) -> (found: Option<StickerEntry>)
        requires
            sticker_id != 0,
        ensures
            found == sticker_at(*self, sticker_id),
            found matches Some(entry) ==> entry.wf(),
    {
        match self.0.sticker(Id::new(sticker_id)) {
            Some(sticker) => Some(StickerEntry {
                user_id: sticker.user_id().map(|id| id.get()),
                sticker: sticker.resource().clone(),
            }),
            None => None,
        }
    }

    /// A copy of the voice state stored for a user in a guild
    /// (`InMemoryCache::voice_state`), if there is one.
    #[verifier::external_body]
    pub(crate) fn lookup_voice_state(&self, user_id: u64, guild_id: u64) -> (found: Option<
        CachedVoiceState,
    >)
        requires
            user_id != 0,
            guild_id != 0,
        ensures
            found == voice_state_at(*self, guild_id, user_id),
    {
        match self.0.voice_state(Id::new(user_id), Id::new(guild_id)) {
            Some(state) => Some(state.value().clone()),
            None => None,
        }
    }

    /// The reaction counts of the message stored under an identifier
    /// (`InMemoryCache::message`, `CachedMessage::reactions`), if the store
    /// holds the message: for each reaction what tells its emoji apart and its
    /// count, in the message's order.
    #[verifier::external_body]
    pub(crate) fn lookup_reactions(&self, message_id: u64) -> (found: Option<Vec<ReactionCount>>)
        requires
            message_id != 0,
        ensures
            is_reactions(found, reactions_at(*self, message_id)),
    {
        match self.0.message(Id::new(message_id)) {
            Some(message) => Some(message.reactions().iter().map(|reaction| ReactionCount {
                emoji: match &reaction.emoji {
                    EmojiReactionType::Custom { id, .. } => ReactionKey::Custom(id.get()),
                    EmojiReactionType::Unicode { name } => ReactionKey::Unicode(name.clone()),
                },
                count: reaction.count,
            }).collect()),
            None => None,
        }
    }

    /// Whether the count that is to move has room to move in this store.
    pub fn has_room_for(&self, change: &CountChange) -> (room: bool)
        requires
            change.wf(),
        ensures
            room == has_room(*self, *change),
    {
        match change {
            CountChange::MemberJoins(guild_id) => match self.lookup_guild(*guild_id) {
                Some(guild) => match guild.member_count {
                    Some(count) => count != u64::MAX,
                    None => true,
                },
                None => true,
            },
            CountChange::MemberLeaves(guild_id) => match self.lookup_guild(*guild_id) {
                Some(guild) => match guild.member_count {
                    Some(count) => count != 0,
                    None => true,
                },
                None => true,
            },
            CountChange::ReactionAdded { message_id, emoji } => match self.lookup_reactions(
                *message_id,
            ) {
                Some(reactions) => {
                    let mut i: usize = 0;
                    while i < reactions.len()
                        invariant
                            i <= reactions.len(),
                            reactions_at(*self, *message_id) == Some(reactions@),
                            *change == (CountChange::ReactionAdded {
                                message_id: *message_id,
                                emoji: *emoji,
                            }),
                            forall|k: int|
                                0 <= k < i && same_emoji((#[trigger] reactions@[k]).emoji, *emoji)
                                    ==> reactions@[k].count < u64::MAX,
                        decreases reactions.len() - i,
                    {
                        if is_same_emoji(&reactions[i].emoji, emoji) && reactions[i].count
                            == u64::MAX {
                            assert(same_emoji(reactions@[i as int].emoji, *emoji));
                            assert(!emoji_has_room(reactions@, *emoji));
                            return false;
                        }
                        i += 1;
                    }
                    true
                },
                None => true,
            },
            CountChange::Unchanged => true,
        }
    }

    /// Applies an upstream dispatch event to the store where the store can
    /// take it, and says whether it did. An event that would move a count
    /// beyond what a number can say is not applied, and the store stays as it
    /// was.
    pub fn try_update(&mut self, event: &Event) -> (applied: bool)
        ensures
            applied == admits(*old(self), *event),
            !applied ==> *final(self) == *old(self),
    {
        let change = read_count_change(event);
        if self.has_room_for(&change) {
            self.update(event);
            true
        } else {
            false
        }
    }
}

/// Reads out of an upstream event the count that it moves in the store
/// (`twilight_model::gateway::event::Event`): the guild of a member-add or a
/// member-remove event, and the message and the emoji of a reaction-add
/// event. Every other event reads as moving no count. An identifier of an
/// event is a non-zero integer by its type.
#[verifier::external_body]
pub(crate) fn read_count_change(event: &Event) -> (change: CountChange)
    ensures
        change == count_change_of(*event),
        change.wf(),
{
    match event {
        Event::MemberAdd(add) => CountChange::MemberJoins(add.guild_id.get()),
        Event::MemberRemove(remove) => CountChange::MemberLeaves(remove.guild_id.get()),
        Event::ReactionAdd(add) => match &add.emoji {
            EmojiReactionType::Custom { id, .. } => CountChange::ReactionAdded { message_id: add.message_id.get(), emoji: ReactionKey::Custom(id.get()) },
            EmojiReactionType::Unicode { name } => CountChange::ReactionAdded { message_id: add.message_id.get(), emoji: ReactionKey::Unicode(name.clone()) },
        },
        _ => CountChange::Unchanged,
    }
}

} // verus!
