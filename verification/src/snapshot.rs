//! Rebuilding a guild from the flat collections of a store.
//!
//! A rebuild has two halves. The first reads: it walks a guild's indices and
//! resolves each identifier by a point lookup, keeping every answer, a miss
//! included ([`GuildSources`]). The second half, in this file, joins what was
//! read into the nested aggregate; it touches no store and is a function of
//! the answers alone.

use vstd::prelude::*;
use twilight_cache_inmemory::model::{CachedGuild, CachedPresence, CachedVoiceState};
use twilight_model::channel::StageInstance;
use twilight_model::guild::scheduled_event::GuildScheduledEvent;
use twilight_model::guild::Role;
use twilight_model::user::User;
use crate::entities::{ChannelEntry, EmojiEntry, GuildEntry, MemberEntry, StickerEntry};

verus! {

/// What was read for one member: the membership record, and the answer of the
/// lookup of the user that the record refers to.
#[derive(Debug)]
pub struct MemberSource {
    pub member: MemberEntry,
    pub user: Option<User>,
}

/// A member: a membership record joined with its user.
#[derive(Debug)]
pub struct MemberRecord {
    pub member: MemberEntry,
    pub user: User,
}

/// An emoji, with its creator embedded where the store holds that user.
#[derive(Debug)]
pub struct EmojiRecord {
    pub emoji: EmojiEntry,
    pub user: Option<User>,
}

/// A sticker, with its uploader embedded where the store holds that user.
#[derive(Debug)]
pub struct StickerRecord {
    pub sticker: StickerEntry,
    pub user: Option<User>,
}

/// What was read for one voice state: the voice record, and what was read for
/// the member of the same user, if a membership record was found.
#[derive(Debug)]
pub struct VoiceSource {
    pub state: CachedVoiceState,
    pub member: Option<MemberSource>,
}

/// A voice state, with the member of its user where one could be composed.
#[derive(Debug)]
pub struct VoiceStateRecord {
    pub state: CachedVoiceState,
    pub member: Option<MemberRecord>,
}

impl MemberSource {
    pub open spec fn wf(&self) -> bool {
        self.member.wf()
    }
}

impl MemberRecord {
    pub open spec fn wf(&self) -> bool {
        self.member.wf()
    }
}

impl EmojiRecord {
    /// A creator is embedded only where the emoji names one.
    pub open spec fn wf(&self) -> bool {
        &&& self.emoji.wf()
        &&& self.emoji.user_id is None ==> self.user is None
    }
}

impl StickerRecord {
    /// An uploader is embedded only where the sticker names one.
    pub open spec fn wf(&self) -> bool {
        &&& self.sticker.wf()
        &&& self.sticker.user_id is None ==> self.user is None
    }
}

impl VoiceSource {
    pub open spec fn wf(&self) -> bool {
        self.member matches Some(source) ==> source.wf()
    }
}

impl VoiceStateRecord {
    pub open spec fn wf(&self) -> bool {
        self.member matches Some(member) ==> member.wf()
    }
}

/// Everything that was read from a store for one guild: for each of its
/// indices, one answer per identifier, in the order of the walk over the index.
/// `None` stands for an identifier whose lookup missed. An index that the store
/// does not hold reads as empty.
#[derive(Debug)]
pub struct GuildSources {
    pub channels: Vec<Option<ChannelEntry>>,
    pub presences: Vec<Option<CachedPresence>>,
    pub emojis: Vec<Option<EmojiRecord>>,
    pub members: Vec<Option<MemberSource>>,
    pub roles: Vec<Option<Role>>,
    pub scheduled_events: Vec<Option<GuildScheduledEvent>>,
    pub stage_instances: Vec<Option<StageInstance>>,
    pub stickers: Vec<Option<StickerRecord>>,
    pub voice_states: Vec<Option<VoiceSource>>,
}

/// A guild rebuilt in full: its scalar attributes and its child collections.
/// Channels and threads come from one index and are told apart by each
/// channel's own type tag.
#[derive(Debug)]
pub struct GuildAggregate {
    pub id: u64,
    pub guild: CachedGuild,
    pub channels: Vec<ChannelEntry>,
    pub threads: Vec<ChannelEntry>,
    pub presences: Vec<CachedPresence>,
    pub emojis: Vec<EmojiRecord>,
    pub members: Vec<MemberRecord>,
    pub roles: Vec<Role>,
    pub scheduled_events: Vec<GuildScheduledEvent>,
    pub stage_instances: Vec<StageInstance>,
    pub stickers: Vec<StickerRecord>,
    pub voice_states: Vec<VoiceStateRecord>,
}

impl GuildSources {
    /// Every identifier that was read is positive, and a creator or uploader
    /// was looked up only where the record names one.
    pub open spec fn wf(&self) -> bool {
        &&& forall|i: int|
            0 <= i < self.emojis@.len() ==> (#[trigger] self.emojis@[i] matches Some(emoji)
                ==> emoji.wf())
        &&& forall|i: int|
            0 <= i < self.members@.len() ==> (#[trigger] self.members@[i] matches Some(source)
                ==> source.wf())
        &&& forall|i: int|
            0 <= i < self.stickers@.len() ==> (#[trigger] self.stickers@[i] matches Some(sticker)
                ==> sticker.wf())
        &&& forall|i: int|
            0 <= i < self.voice_states@.len() ==> (#[trigger] self.voice_states@[i] matches Some(
                source,
            ) ==> source.wf())
    }
}

impl GuildAggregate {
    /// The two channel buckets hold what their names say, and every
    /// identifier inside the aggregate is positive.
    pub open spec fn wf(&self) -> bool {
        &&& self.id != 0
        &&& forall|i: int| 0 <= i < self.channels@.len() ==> !(#[trigger] self.channels@[i]).thread
        &&& forall|i: int| 0 <= i < self.threads@.len() ==> (#[trigger] self.threads@[i]).thread
        &&& forall|i: int| 0 <= i < self.emojis@.len() ==> (#[trigger] self.emojis@[i]).wf()
        &&& forall|i: int| 0 <= i < self.members@.len() ==> (#[trigger] self.members@[i]).wf()
        &&& forall|i: int| 0 <= i < self.stickers@.len() ==> (#[trigger] self.stickers@[i]).wf()
        &&& forall|i: int|
            0 <= i < self.voice_states@.len() ==> (#[trigger] self.voice_states@[i]).wf()
    }

    /// Two aggregates of one guild with the same scalar attributes and, child
    /// collection by child collection, the same set of children.
    pub open spec fn agrees_with(&self, other: GuildAggregate) -> bool {
        &&& self.id == other.id
        &&& self.guild == other.guild
        &&& self.channels@.to_set() == other.channels@.to_set()
        &&& self.threads@.to_set() == other.threads@.to_set()
        &&& self.presences@.to_set() == other.presences@.to_set()
        &&& self.emojis@.to_set() == other.emojis@.to_set()
        &&& self.members@.to_set() == other.members@.to_set()
        &&& self.roles@.to_set() == other.roles@.to_set()
        &&& self.scheduled_events@.to_set() == other.scheduled_events@.to_set()
        &&& self.stage_instances@.to_set() == other.stage_instances@.to_set()
        &&& self.stickers@.to_set() == other.stickers@.to_set()
        &&& self.voice_states@.to_set() == other.voice_states@.to_set()
    }

    /// This aggregate is the one that `entry` and `sources` determine: the
    /// guild's own attributes, and each child collection joined from what was
    /// read for it.
    pub open spec fn built_from(&self, entry: GuildEntry, sources: GuildSources) -> bool {
        &&& self.id == entry.id
        &&& self.guild == entry.guild
        &&& self.channels@ == channels_of_kind(sources.channels@, false)
        &&& self.threads@ == channels_of_kind(sources.channels@, true)
        &&& self.presences@ == present(sources.presences@)
        &&& self.emojis@ == present(sources.emojis@)
        &&& self.members@ == joined_members(sources.members@)
        &&& self.roles@ == present(sources.roles@)
        &&& self.scheduled_events@ == present(sources.scheduled_events@)
        &&& self.stage_instances@ == present(sources.stage_instances@)
        &&& self.stickers@ == present(sources.stickers@)
        &&& self.voice_states@ == joined_voice_states(sources.voice_states@)
    }
}

/// The values that were found, in the order in which they were looked up.
/// A miss leaves no trace.
pub open spec fn present<T>(found: Seq<Option<T>>) -> Seq<T>
    decreases found.len(),
{
    if found.len() == 0 {
        Seq::empty()
    } else {
        match found.last() {
            Some(value) => present(found.drop_last()).push(value),
            None => present(found.drop_last()),
        }
    }
}

/// The resolved channels whose thread tag equals `threads`, in lookup order.
pub open spec fn channels_of_kind(found: Seq<Option<ChannelEntry>>, threads: bool) -> Seq<
    ChannelEntry,
>
    decreases found.len(),
{
    if found.len() == 0 {
        Seq::empty()
    } else {
        match found.last() {
            Some(channel) if channel.thread == threads => channels_of_kind(
                found.drop_last(),
                threads,
            ).push(channel),
            _ => channels_of_kind(found.drop_last(), threads),
        }
    }
}

/// The member composed from what was read: the membership record joined with
/// its user, and nothing where the user was not found.
pub open spec fn joined_member(source: MemberSource) -> Option<MemberRecord> {
    match source.user {
        Some(user) => Some(MemberRecord { member: source.member, user }),
        None => None,
    }
}

/// The member composed from an answer that may itself be a miss.
pub open spec fn resolved_member(source: Option<MemberSource>) -> Option<MemberRecord> {
    match source {
        Some(source) => joined_member(source),
        None => None,
    }
}

/// The members that could be composed, in lookup order.
pub open spec fn joined_members(sources: Seq<Option<MemberSource>>) -> Seq<MemberRecord> {
    present(sources.map_values(|source: Option<MemberSource>| resolved_member(source)))
}

/// The voice state composed from what was read. It is composed whether or not
/// its member could be.
pub open spec fn joined_voice_state(source: VoiceSource) -> VoiceStateRecord {
    VoiceStateRecord { state: source.state, member: resolved_member(source.member) }
}

/// The voice states of every voice record that was found, in lookup order.
pub open spec fn joined_voice_states(sources: Seq<Option<VoiceSource>>) -> Seq<VoiceStateRecord> {
    present(sources).map_values(|source: VoiceSource| joined_voice_state(source))
}

/// Keeps what was found and drops the misses.
pub fn collect_present<T>(found: Vec<Option<T>>) -> (out: Vec<T>)
    ensures
        out@ == present(found@),
{
    let mut out: Vec<T> = Vec::new();
    let ghost all = found@;
    for item in it: found
        invariant
            it.seq() == all,
            out@ == present(all.take(it.index() as int)),
    {
        proof {
            let n = it.index() as int;
            assert(all.take(n + 1).drop_last() == all.take(n));
            assert(all.take(n + 1).last() == item);
        }
        match item {
            Some(value) => {
                out.push(value);
            },
            None => {},
        }
    }
    proof {
        assert(all.take(all.len() as int) == all);
    }
    out
}

/// Keeps the resolved channels of one kind: the threads, or the channels that
/// are no threads. The kind is each channel's own tag.
pub fn select_channels(found: Vec<Option<ChannelEntry>>, threads: bool) -> (out: Vec<ChannelEntry>)
    ensures
        out@ == channels_of_kind(found@, threads),
{
    let mut out: Vec<ChannelEntry> = Vec::new();
    let ghost all = found@;
    for item in it: found
        invariant
            it.seq() == all,
            out@ == channels_of_kind(all.take(it.index() as int), threads),
    {
        proof {
            let n = it.index() as int;
            assert(all.take(n + 1).drop_last() == all.take(n));
            assert(all.take(n + 1).last() == item);
        }
        match item {
            Some(channel) => {
                if channel.thread == threads {
                    out.push(channel);
                }
            },
            None => {},
        }
    }
    proof {
        assert(all.take(all.len() as int) == all);
    }
    out
}

/// Sorts the resolved channels into the two buckets of an aggregate: first the
/// channels that are no threads, then the threads.
pub fn partition_channels(found: Vec<Option<ChannelEntry>>) -> (out: (
    Vec<ChannelEntry>,
    Vec<ChannelEntry>,
))
    ensures
        out.0@ == channels_of_kind(found@, false),
        out.1@ == channels_of_kind(found@, true),
{
    let mut channels: Vec<ChannelEntry> = Vec::new();
    let mut threads: Vec<ChannelEntry> = Vec::new();
    let ghost all = found@;
    for item in it: found
        invariant
            it.seq() == all,
            channels@ == channels_of_kind(all.take(it.index() as int), false),
            threads@ == channels_of_kind(all.take(it.index() as int), true),
    {
        proof {
            let n = it.index() as int;
            assert(all.take(n + 1).drop_last() == all.take(n));
            assert(all.take(n + 1).last() == item);
        }
        match item {
            Some(channel) => {
                if channel.thread {
                    threads.push(channel);
                } else {
                    channels.push(channel);
                }
            },
            None => {},
        }
    }
    proof {
        assert(all.take(all.len() as int) == all);
    }
    (channels, threads)
}

/// Composes a member from what was read for it. A member whose user was not
/// found is left out: there is then no member at all.
pub fn join_member(source: MemberSource) -> (member: Option<MemberRecord>)
    ensures
        member == joined_member(source),
{
    let MemberSource { member, user } = source;
    match user {
        Some(user) => Some(MemberRecord { member, user }),
        None => None,
    }
}

/// Composes a member from an answer that may be a miss.
pub fn resolve_member(source: Option<MemberSource>) -> (member: Option<MemberRecord>)
    ensures
        member == resolved_member(source),
{
    match source {
        Some(source) => join_member(source),
        None => None,
    }
}

/// Composes the members of a guild from what was read for each identifier of
/// its member index.
pub fn join_members(sources: Vec<Option<MemberSource>>) -> (out: Vec<MemberRecord>)
    ensures
        out@ == joined_members(sources@),
{
    let mut out: Vec<MemberRecord> = Vec::new();
    let ghost all = sources@;
    let ghost resolved = all.map_values(|source: Option<MemberSource>| resolved_member(source));
    for item in it: sources
        invariant
            it.seq() == all,
            resolved == all.map_values(|source: Option<MemberSource>| resolved_member(source)),
            out@ == present(resolved.take(it.index() as int)),
    {
        proof {
            let n = it.index() as int;
            assert(resolved.take(n + 1).drop_last() == resolved.take(n));
            assert(resolved.take(n + 1).last() == resolved_member(item));
        }
        match resolve_member(item) {
            Some(member) => {
                out.push(member);
            },
            None => {},
        }
    }
    proof {
        assert(resolved.take(all.len() as int) == resolved);
    }
    out
}

/// Composes a voice state from what was read for it. The member is embedded
/// where it could be composed and absent otherwise; the voice state is kept
/// either way.
pub fn join_voice_state(source: VoiceSource) -> (state: VoiceStateRecord)
    ensures
        state == joined_voice_state(source),
{
    let VoiceSource { state, member } = source;
    VoiceStateRecord { state, member: resolve_member(member) }
}

/// Composes the voice states of a guild from what was read for each identifier
/// of its voice-state index.
pub fn join_voice_states(sources: Vec<Option<VoiceSource>>) -> (out: Vec<VoiceStateRecord>)
    ensures
        out@ == joined_voice_states(sources@),
{
    let mut out: Vec<VoiceStateRecord> = Vec::new();
    let ghost all = sources@;
    for item in it: sources
        invariant
            it.seq() == all,
            out@ == joined_voice_states(all.take(it.index() as int)),
    {
        proof {
            let n = it.index() as int;
            assert(all.take(n + 1).drop_last() == all.take(n));
            assert(all.take(n + 1).last() == item);
        }
        match item {
            Some(source) => {
                out.push(join_voice_state(source));
            },
            None => {},
        }
    }
    proof {
        assert(all.take(all.len() as int) == all);
    }
    out
}

/// Every value in `present(found)` is one of the answers in `found`.
pub proof fn present_stems_from_answers<T>(found: Seq<Option<T>>, k: int) -> (i: int)
    requires
        0 <= k < present(found).len(),
    ensures
        0 <= i < found.len(),
        found[i] == Some(present(found)[k]),
    decreases found.len(),
{
    let rest = present(found.drop_last());
    if k < rest.len() {
        present_stems_from_answers(found.drop_last(), k)
    } else {
        found.len() - 1
    }
}

/// Every answer that is a hit is among the values in `present(found)`.
pub proof fn hit_is_present<T>(found: Seq<Option<T>>, i: int) -> (k: int)
    requires
        0 <= i < found.len(),
        found[i] is Some,
    ensures
        0 <= k < present(found).len(),
        found[i] == Some(present(found)[k]),
    decreases found.len(),
{
    if i == found.len() - 1 {
        present(found).len() - 1
    } else {
        hit_is_present(found.drop_last(), i)
    }
}

/// Every channel in a bucket is one of the answers, and carries the bucket's
/// tag.
pub proof fn bucket_holds_its_kind(found: Seq<Option<ChannelEntry>>, threads: bool, k: int) -> (i:
    int)
    requires
        0 <= k < channels_of_kind(found, threads).len(),
    ensures
        0 <= i < found.len(),
        found[i] == Some(channels_of_kind(found, threads)[k]),
        channels_of_kind(found, threads)[k].thread == threads,
    decreases found.len(),
{
    let rest = channels_of_kind(found.drop_last(), threads);
    if k < rest.len() {
        bucket_holds_its_kind(found.drop_last(), threads, k)
    } else {
        found.len() - 1
    }
}

/// Every resolved channel lands in exactly one of the two buckets: together
/// they hold as many channels as were resolved.
pub proof fn buckets_partition_the_resolved(found: Seq<Option<ChannelEntry>>)
    ensures
        channels_of_kind(found, false).len() + channels_of_kind(found, true).len() == present(
            found,
        ).len(),
    decreases found.len(),
{
    if found.len() > 0 {
        buckets_partition_the_resolved(found.drop_last());
    }
}

/// A member appears in a guild's member list only where both its membership
/// record and its user were found: each listed member stems from an answer
/// that holds that record and that user.
pub proof fn listed_member_has_its_user(sources: Seq<Option<MemberSource>>, k: int) -> (i: int)
    requires
        0 <= k < joined_members(sources).len(),
    ensures
        0 <= i < sources.len(),
        sources[i] == Some(
            MemberSource {
                member: joined_members(sources)[k].member,
                user: Some(joined_members(sources)[k].user),
            },
        ),
{
    let resolved = sources.map_values(|source: Option<MemberSource>| resolved_member(source));
    let i = present_stems_from_answers(resolved, k);
    assert(resolved[i] == resolved_member(sources[i]));
    i
}

/// Where no membership record was read together with its user, the member list
/// is empty.
pub proof fn members_without_users_are_omitted(sources: Seq<Option<MemberSource>>)
    requires
        forall|i: int|
            0 <= i < sources.len() ==> (#[trigger] sources[i] matches Some(source)
                ==> source.user is None),
    ensures
        joined_members(sources).len() == 0,
{
    if joined_members(sources).len() > 0 {
        let i = listed_member_has_its_user(sources, 0);
        assert(sources[i] matches Some(source) && source.user is Some);
    }
}

/// Every voice record that was found yields a voice state, whether or not a
/// member could be composed for it: the list is as long as the records found,
/// keeps their order, and embeds for each what the member join gives, which is
/// nothing where the membership record or its user is missing.
pub proof fn voice_states_are_never_dropped(sources: Seq<Option<VoiceSource>>)
    ensures
        joined_voice_states(sources).len() == present(sources).len(),
        forall|k: int|
            0 <= k < present(sources).len() ==> {
                let source = #[trigger] present(sources)[k];
                let state = joined_voice_states(sources)[k];
                &&& state.state == source.state
                &&& state.member == resolved_member(source.member)
                &&& (source.member is None ==> state.member is None)
                &&& (source.member matches Some(member) && member.user is None
                    ==> state.member is None)
            },
{
}

/// An aggregate built from well-formed answers is well-formed.
pub proof fn aggregate_is_well_formed(
    entry: GuildEntry,
    sources: GuildSources,
    aggregate: GuildAggregate,
)
    requires
        entry.wf(),
        sources.wf(),
        aggregate.built_from(entry, sources),
    ensures
        aggregate.wf(),
{
    assert forall|k: int| 0 <= k < aggregate.channels@.len() implies !(
    #[trigger] aggregate.channels@[k]).thread by {
        bucket_holds_its_kind(sources.channels@, false, k);
    }
    assert forall|k: int| 0 <= k < aggregate.threads@.len() implies (
    #[trigger] aggregate.threads@[k]).thread by {
        bucket_holds_its_kind(sources.channels@, true, k);
    }
    assert forall|k: int| 0 <= k < aggregate.emojis@.len() implies (
    #[trigger] aggregate.emojis@[k]).wf() by {
        let i = present_stems_from_answers(sources.emojis@, k);
        assert(sources.emojis@[i] is Some);
    }
    assert forall|k: int| 0 <= k < aggregate.stickers@.len() implies (
    #[trigger] aggregate.stickers@[k]).wf() by {
        let i = present_stems_from_answers(sources.stickers@, k);
        assert(sources.stickers@[i] is Some);
    }
    assert forall|k: int| 0 <= k < aggregate.members@.len() implies (
    #[trigger] aggregate.members@[k]).wf() by {
        let i = listed_member_has_its_user(sources.members@, k);
        assert(sources.members@[i] is Some);
    }
    assert forall|k: int| 0 <= k < aggregate.voice_states@.len() implies (
    #[trigger] aggregate.voice_states@[k]).wf() by {
        let found = present(sources.voice_states@);
        let i = present_stems_from_answers(sources.voice_states@, k);
        assert(sources.voice_states@[i] is Some);
        assert(aggregate.voice_states@[k] == joined_voice_state(found[k]));
    }
}

/// Joins what was read for a guild into its aggregate.
pub fn assemble(entry: GuildEntry, sources: GuildSources) -> (aggregate: GuildAggregate)
    ensures
        aggregate.built_from(entry, sources),
        entry.wf() && sources.wf() ==> aggregate.wf(),
{
    let GuildEntry { id, unavailable: _, member_count: _, guild } = entry;
    let GuildSources {
        channels,
        presences,
        emojis,
        members,
        roles,
        scheduled_events,
        stage_instances,
        stickers,
        voice_states,
    } = sources;
    let (channels, threads) = partition_channels(channels);
    let aggregate = GuildAggregate {
        id,
        guild,
        channels,
        threads,
        presences: collect_present(presences),
        emojis: collect_present(emojis),
        members: join_members(members),
        roles: collect_present(roles),
        scheduled_events: collect_present(scheduled_events),
        stage_instances: collect_present(stage_instances),
        stickers: collect_present(stickers),
        voice_states: join_voice_states(voice_states),
    };
    proof {
        if entry.wf() && sources.wf() {
            aggregate_is_well_formed(entry, sources, aggregate);
        }
    }
    aggregate
}

} // verus!
