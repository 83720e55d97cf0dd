//! Reading a guild's children out of a store and rebuilding the guild.

use vstd::prelude::*;
use twilight_cache_inmemory::model::CachedPresence;
use twilight_model::channel::StageInstance;
use twilight_model::guild::scheduled_event::GuildScheduledEvent;
use twilight_model::guild::Role;
use crate::entities::{ChannelEntry, GuildEntry};
use crate::reading::answers;
use crate::reading::built_from_a_reading_is_rebuilt;
use crate::reading::channels_of;
use crate::reading::emoji_record_at;
use crate::reading::emojis_of;
use crate::reading::is_reading;
use crate::reading::kind_is_told_at_lookup;
use crate::reading::lists;
use crate::reading::member_record_at;
use crate::reading::member_source_at;
use crate::reading::member_sources_of;
use crate::reading::members_are_joined_at_lookup;
use crate::reading::members_of;
use crate::reading::presences_of;
use crate::reading::read_from;
use crate::reading::reading_lists_what_it_found;
use crate::reading::rebuilt_from;
use crate::reading::roles_of;
use crate::reading::scheduled_events_of;
use crate::reading::stage_instances_of;
use crate::reading::sticker_record_at;
use crate::reading::stickers_of;
use crate::reading::tagged_channels_of;
use crate::reading::voice_source_at;
use crate::reading::voice_sources_of;
use crate::reading::voice_states_are_joined_at_lookup;
use crate::reading::voice_states_of;
use crate::snapshot::{
    assemble, collect_present, join_members, join_voice_states, resolve_member, select_channels,
    EmojiRecord, GuildAggregate, GuildSources, MemberRecord, MemberSource, StickerRecord,
    VoiceSource, VoiceStateRecord,
};
use crate::snapshot::joined_members;
use crate::snapshot::joined_voice_state;
use crate::snapshot::joined_voice_states;
use crate::snapshot::listed_member_has_its_user;
use crate::snapshot::present;
use crate::snapshot::present_stems_from_answers;
use crate::store::{all_nonzero, Guilds, IndexKey};
use crate::store::index_at;
use crate::store::is_walk;

verus! {

impl Guilds {
    /// Reads an emoji and, where it names a creator, that user.
    pub fn emoji_record(&self, emoji_id: u64) -> (found: Option<EmojiRecord>)
        requires
            emoji_id != 0,
        ensures
            found == emoji_record_at(*self, emoji_id),
            found matches Some(record) ==> record.wf(),
    {
        match self.lookup_emoji(emoji_id) {
            Some(emoji) => {
                let user = match emoji.user_id {
                    Some(user_id) => self.lookup_user(user_id),
                    None => None,
                };
                Some(EmojiRecord { emoji, user })
            },
            None => None,
        }
    }

    /// Reads a sticker and, where it names an uploader, that user.
    pub fn sticker_record(&self, sticker_id: u64) -> (found: Option<StickerRecord>)
        requires
            sticker_id != 0,
        ensures
            found == sticker_record_at(*self, sticker_id),
            found matches Some(record) ==> record.wf(),
    {
        match self.lookup_sticker(sticker_id) {
            Some(sticker) => {
                let user = match sticker.user_id {
                    Some(user_id) => self.lookup_user(user_id),
                    None => None,
                };
                Some(StickerRecord { sticker, user })
            },
            None => None,
        }
    }

    /// Reads the membership record of a user in a guild and, where there is
    /// one, the user that the record refers to.
    pub fn member_source(&self, guild_id: u64, user_id: u64) -> (found: Option<MemberSource>)
        requires
            guild_id != 0,
            user_id != 0,
        ensures
            found == member_source_at(*self, guild_id, user_id),
            found matches Some(source) ==> source.wf(),
    {
        match self.lookup_member(guild_id, user_id) {
            Some(member) => {
                let user = self.lookup_user(member.user_id);
                Some(MemberSource { member, user })
            },
            None => None,
        }
    }

    /// The member of a guild for a user: the membership record joined with the
    /// user it refers to. There is none where either of the two is not in the
    /// store.
    pub fn member(&self, guild_id: u64, user_id: u64) -> (found: Option<MemberRecord>)
        requires
            guild_id != 0,
            user_id != 0,
        ensures
            found == member_record_at(*self, guild_id, user_id),
            found matches Some(member) ==> member.wf(),
    {
        resolve_member(self.member_source(guild_id, user_id))
    }

    /// Reads the voice record of a user in a guild and, where there is one,
    /// what the store holds for the member of that user.
    pub fn voice_source(&self, guild_id: u64, user_id: u64) -> (found: Option<VoiceSource>)
        requires
            guild_id != 0,
            user_id != 0,
        ensures
            found == voice_source_at(*self, guild_id, user_id),
            found matches Some(source) ==> source.wf(),
    {
        match self.lookup_voice_state(user_id, guild_id) {
            Some(state) => {
                let member = self.member_source(guild_id, user_id);
                Some(VoiceSource { state, member })
            },
            None => None,
        }
    }

    /// One answer for each identifier of the guild's channel index.
    pub fn read_channels(&self, guild_id: u64) -> (found: Vec<Option<ChannelEntry>>)
        requires
            guild_id != 0,
        ensures
            is_reading(found@, index_at(*self, IndexKey::Channels(guild_id)), channels_of(*self)),
    {
        let mut found: Vec<Option<ChannelEntry>> = Vec::new();
        match self.channel_ids(guild_id) {
            Some(ids) => {
                let mut i: usize = 0;
                while i < ids.len()
                    invariant
                        i <= ids.len(),
                        all_nonzero(ids@),
                        found@ == answers(ids@.take(i as int), channels_of(*self)),
                    decreases ids.len() - i,
                {
                    found.push(self.lookup_channel(ids[i]));
                    assert(found@ =~= answers(ids@.take(i + 1), channels_of(*self)));
                    i += 1;
                }
                assert(ids@.take(ids@.len() as int) == ids@);
            },
            None => {
                assert(found@ =~= answers(Seq::<u64>::empty(), channels_of(*self)));
            },
        }
        found
    }

    /// One answer for each identifier of the guild's presence index.
    pub fn read_presences(&self, guild_id: u64) -> (found: Vec<Option<CachedPresence>>)
        requires
            guild_id != 0,
        ensures
            is_reading(
                found@,
                index_at(*self, IndexKey::Presences(guild_id)),
                presences_of(*self, guild_id),
            ),
    {
        let mut found: Vec<Option<CachedPresence>> = Vec::new();
        match self.presence_ids(guild_id) {
            Some(ids) => {
                let mut i: usize = 0;
                while i < ids.len()
                    invariant
                        i <= ids.len(),
                        guild_id != 0,
                        all_nonzero(ids@),
                        found@ == answers(ids@.take(i as int), presences_of(*self, guild_id)),
                    decreases ids.len() - i,
                {
                    found.push(self.lookup_presence(guild_id, ids[i]));
                    assert(found@ =~= answers(ids@.take(i + 1), presences_of(*self, guild_id)));
                    i += 1;
                }
                assert(ids@.take(ids@.len() as int) == ids@);
            },
            None => {
                assert(found@ =~= answers(Seq::<u64>::empty(), presences_of(*self, guild_id)));
            },
        }
        found
    }

    /// One answer for each identifier of the guild's emoji index.
    pub fn read_emojis(&self, guild_id: u64) -> (found: Vec<Option<EmojiRecord>>)
        requires
            guild_id != 0,
        ensures
            is_reading(found@, index_at(*self, IndexKey::Emojis(guild_id)), emojis_of(*self)),
            forall|k: int|
                0 <= k < found@.len() ==> (#[trigger] found@[k] matches Some(emoji)
                    ==> emoji.wf()),
    {
        let mut found: Vec<Option<EmojiRecord>> = Vec::new();
        match self.emoji_ids(guild_id) {
            Some(ids) => {
                let mut i: usize = 0;
                while i < ids.len()
                    invariant
                        i <= ids.len(),
                        all_nonzero(ids@),
                        found@ == answers(ids@.take(i as int), emojis_of(*self)),
                        forall|k: int|
                            0 <= k < found@.len() ==> (#[trigger] found@[k] matches Some(emoji)
                                ==> emoji.wf()),
                    decreases ids.len() - i,
                {
                    found.push(self.emoji_record(ids[i]));
                    assert(found@ =~= answers(ids@.take(i + 1), emojis_of(*self)));
                    i += 1;
                }
                assert(ids@.take(ids@.len() as int) == ids@);
            },
            None => {
                assert(found@ =~= answers(Seq::<u64>::empty(), emojis_of(*self)));
            },
        }
        found
    }

    /// One answer for each identifier of the guild's member index.
    pub fn read_members(&self, guild_id: u64) -> (found: Vec<Option<MemberSource>>)
        requires
            guild_id != 0,
        ensures
            is_reading(
                found@,
                index_at(*self, IndexKey::Members(guild_id)),
                member_sources_of(*self, guild_id),
            ),
            forall|k: int|
                0 <= k < found@.len() ==> (#[trigger] found@[k] matches Some(source)
                    ==> source.wf()),
    {
        let mut found: Vec<Option<MemberSource>> = Vec::new();
        match self.member_ids(guild_id) {
            Some(ids) => {
                let mut i: usize = 0;
                while i < ids.len()
                    invariant
                        i <= ids.len(),
                        guild_id != 0,
                        all_nonzero(ids@),
                        found@ == answers(ids@.take(i as int), member_sources_of(*self, guild_id)),
                        forall|k: int|
                            0 <= k < found@.len() ==> (#[trigger] found@[k] matches Some(source)
                                ==> source.wf()),
                    decreases ids.len() - i,
                {
                    found.push(self.member_source(guild_id, ids[i]));
                    assert(found@ =~= answers(
                        ids@.take(i + 1),
                        member_sources_of(*self, guild_id),
                    ));
                    i += 1;
                }
                assert(ids@.take(ids@.len() as int) == ids@);
            },
            None => {
                assert(found@ =~= answers(
                    Seq::<u64>::empty(),
                    member_sources_of(*self, guild_id),
                ));
            },
        }
        found
    }

    /// One answer for each identifier of the guild's role index.
    pub fn read_roles(&self, guild_id: u64) -> (found: Vec<Option<Role>>)
        requires
            guild_id != 0,
        ensures
            is_reading(found@, index_at(*self, IndexKey::Roles(guild_id)), roles_of(*self)),
    {
        let mut found: Vec<Option<Role>> = Vec::new();
        match self.role_ids(guild_id) {
            Some(ids) => {
                let mut i: usize = 0;
                while i < ids.len()
                    invariant
                        i <= ids.len(),
                        all_nonzero(ids@),
                        found@ == answers(ids@.take(i as int), roles_of(*self)),
                    decreases ids.len() - i,
                {
                    found.push(self.lookup_role(ids[i]));
                    assert(found@ =~= answers(ids@.take(i + 1), roles_of(*self)));
                    i += 1;
                }
                assert(ids@.take(ids@.len() as int) == ids@);
            },
            None => {
                assert(found@ =~= answers(Seq::<u64>::empty(), roles_of(*self)));
            },
        }
        found
    }

    /// One answer for each identifier of the guild's scheduled-event index.
    pub fn read_scheduled_events(&self, guild_id: u64) -> (found: Vec<Option<GuildScheduledEvent>>)
        requires
            guild_id != 0,
        ensures
            is_reading(
                found@,
                index_at(*self, IndexKey::ScheduledEvents(guild_id)),
                scheduled_events_of(*self),
            ),
    {
        let mut found: Vec<Option<GuildScheduledEvent>> = Vec::new();
        match self.scheduled_event_ids(guild_id) {
            Some(ids) => {
                let mut i: usize = 0;
                while i < ids.len()
                    invariant
                        i <= ids.len(),
                        all_nonzero(ids@),
                        found@ == answers(ids@.take(i as int), scheduled_events_of(*self)),
                    decreases ids.len() - i,
                {
                    found.push(self.lookup_scheduled_event(ids[i]));
                    assert(found@ =~= answers(ids@.take(i + 1), scheduled_events_of(*self)));
                    i += 1;
                }
                assert(ids@.take(ids@.len() as int) == ids@);
            },
            None => {
                assert(found@ =~= answers(Seq::<u64>::empty(), scheduled_events_of(*self)));
            },
        }
        found
    }

    /// One answer for each identifier of the guild's stage-instance index.
    pub fn read_stage_instances(&self, guild_id: u64) -> (found: Vec<Option<StageInstance>>)
        requires
            guild_id != 0,
        ensures
            is_reading(
                found@,
                index_at(*self, IndexKey::StageInstances(guild_id)),
                stage_instances_of(*self),
            ),
    {
        let mut found: Vec<Option<StageInstance>> = Vec::new();
        match self.stage_instance_ids(guild_id) {
            Some(ids) => {
                let mut i: usize = 0;
                while i < ids.len()
                    invariant
                        i <= ids.len(),
                        all_nonzero(ids@),
                        found@ == answers(ids@.take(i as int), stage_instances_of(*self)),
                    decreases ids.len() - i,
                {
                    found.push(self.lookup_stage_instance(ids[i]));
                    assert(found@ =~= answers(ids@.take(i + 1), stage_instances_of(*self)));
                    i += 1;
                }
                assert(ids@.take(ids@.len() as int) == ids@);
            },
            None => {
                assert(found@ =~= answers(Seq::<u64>::empty(), stage_instances_of(*self)));
            },
        }
        found
    }

    /// One answer for each identifier of the guild's sticker index.
    pub fn read_stickers(&self, guild_id: u64) -> (found: Vec<Option<StickerRecord>>)
        requires
            guild_id != 0,
        ensures
            is_reading(found@, index_at(*self, IndexKey::Stickers(guild_id)), stickers_of(*self)),
            forall|k: int|
                0 <= k < found@.len() ==> (#[trigger] found@[k] matches Some(sticker)
                    ==> sticker.wf()),
    {
        let mut found: Vec<Option<StickerRecord>> = Vec::new();
        match self.sticker_ids(guild_id) {
            Some(ids) => {
                let mut i: usize = 0;
                while i < ids.len()
                    invariant
                        i <= ids.len(),
                        all_nonzero(ids@),
                        found@ == answers(ids@.take(i as int), stickers_of(*self)),
                        forall|k: int|
                            0 <= k < found@.len() ==> (#[trigger] found@[k] matches Some(sticker)
                                ==> sticker.wf()),
                    decreases ids.len() - i,
                {
                    found.push(self.sticker_record(ids[i]));
                    assert(found@ =~= answers(ids@.take(i + 1), stickers_of(*self)));
                    i += 1;
                }
                assert(ids@.take(ids@.len() as int) == ids@);
            },
            None => {
                assert(found@ =~= answers(Seq::<u64>::empty(), stickers_of(*self)));
            },
        }
        found
    }

    /// One answer for each identifier of the guild's voice-state index.
    pub fn read_voice_states(&self, guild_id: u64) -> (found: Vec<Option<VoiceSource>>)
        requires
            guild_id != 0,
        ensures
            is_reading(
                found@,
                index_at(*self, IndexKey::VoiceStates(guild_id)),
                voice_sources_of(*self, guild_id),
            ),
            forall|k: int|
                0 <= k < found@.len() ==> (#[trigger] found@[k] matches Some(source)
                    ==> source.wf()),
    {
        let mut found: Vec<Option<VoiceSource>> = Vec::new();
        match self.voice_state_ids(guild_id) {
            Some(ids) => {
                let mut i: usize = 0;
                while i < ids.len()
                    invariant
                        i <= ids.len(),
                        guild_id != 0,
                        all_nonzero(ids@),
                        found@ == answers(ids@.take(i as int), voice_sources_of(*self, guild_id)),
                        forall|k: int|
                            0 <= k < found@.len() ==> (#[trigger] found@[k] matches Some(source)
                                ==> source.wf()),
                    decreases ids.len() - i,
                {
                    found.push(self.voice_source(guild_id, ids[i]));
                    assert(found@ =~= answers(
                        ids@.take(i + 1),
                        voice_sources_of(*self, guild_id),
                    ));
                    i += 1;
                }
                assert(ids@.take(ids@.len() as int) == ids@);
            },
            None => {
                assert(found@ =~= answers(Seq::<u64>::empty(), voice_sources_of(*self, guild_id)));
            },
        }
        found
    }

    /// Reads every child collection of a guild, index by index.
    pub fn read_guild(&self, guild_id: u64) -> (sources: GuildSources)
        requires
            guild_id != 0,
        ensures
            read_from(sources, *self, guild_id),
            sources.wf(),
    {
        GuildSources {
            channels: self.read_channels(guild_id),
            presences: self.read_presences(guild_id),
            emojis: self.read_emojis(guild_id),
            members: self.read_members(guild_id),
            roles: self.read_roles(guild_id),
            scheduled_events: self.read_scheduled_events(guild_id),
            stage_instances: self.read_stage_instances(guild_id),
            stickers: self.read_stickers(guild_id),
            voice_states: self.read_voice_states(guild_id),
        }
    }

    /// The channels of a guild that are no threads.
    pub fn channels_in_guild(&self, guild_id: u64) -> (channels: Vec<ChannelEntry>)
        requires
            guild_id != 0,
        ensures
            lists(
                channels@,
                index_at(*self, IndexKey::Channels(guild_id)),
                tagged_channels_of(*self, false),
            ),
    {
        let found = self.read_channels(guild_id);
        proof {
            let ids = choose|ids: Seq<u64>|
                is_walk(ids, index_at(*self, IndexKey::Channels(guild_id))) && #[trigger] answers(
                    ids,
                    channels_of(*self),
                ) == found@;
            kind_is_told_at_lookup(*self, ids, false);
        }
        select_channels(found, false)
    }

    /// The threads of a guild.
    pub fn threads_in_guild(&self, guild_id: u64) -> (threads: Vec<ChannelEntry>)
        requires
            guild_id != 0,
        ensures
            lists(
                threads@,
                index_at(*self, IndexKey::Channels(guild_id)),
                tagged_channels_of(*self, true),
            ),
    {
        let found = self.read_channels(guild_id);
        proof {
            let ids = choose|ids: Seq<u64>|
                is_walk(ids, index_at(*self, IndexKey::Channels(guild_id))) && #[trigger] answers(
                    ids,
                    channels_of(*self),
                ) == found@;
            kind_is_told_at_lookup(*self, ids, true);
        }
        select_channels(found, true)
    }

    /// The presences of a guild.
    pub fn presences_in_guild(&self, guild_id: u64) -> (presences: Vec<CachedPresence>)
        requires
            guild_id != 0,
        ensures
            lists(
                presences@,
                index_at(*self, IndexKey::Presences(guild_id)),
                presences_of(*self, guild_id),
            ),
    {
        let found = self.read_presences(guild_id);
        proof {
            reading_lists_what_it_found(
                found@,
                index_at(*self, IndexKey::Presences(guild_id)),
                presences_of(*self, guild_id),
            );
        }
        collect_present(found)
    }

    /// The emojis of a guild, each with its creator where the store holds that
    /// user.
    pub fn emojis_in_guild(&self, guild_id: u64) -> (emojis: Vec<EmojiRecord>)
        requires
            guild_id != 0,
        ensures
            lists(emojis@, index_at(*self, IndexKey::Emojis(guild_id)), emojis_of(*self)),
            forall|k: int| 0 <= k < emojis@.len() ==> (#[trigger] emojis@[k]).wf(),
    {
        let found = self.read_emojis(guild_id);
        proof {
            reading_lists_what_it_found(
                found@,
                index_at(*self, IndexKey::Emojis(guild_id)),
                emojis_of(*self),
            );
            assert forall|k: int| 0 <= k < present(found@).len() implies (#[trigger] present(
                found@,
            )[k]).wf() by {
                let i = present_stems_from_answers(found@, k);
                assert(found@[i] is Some);
            }
        }
        collect_present(found)
    }

    /// The members of a guild. A membership record whose user is not in the
    /// store yields no member.
    pub fn members_in_guild(&self, guild_id: u64) -> (members: Vec<MemberRecord>)
        requires
            guild_id != 0,
        ensures
            lists(
                members@,
                index_at(*self, IndexKey::Members(guild_id)),
                members_of(*self, guild_id),
            ),
            forall|k: int| 0 <= k < members@.len() ==> (#[trigger] members@[k]).wf(),
    {
        let found = self.read_members(guild_id);
        proof {
            let ids = choose|ids: Seq<u64>|
                is_walk(ids, index_at(*self, IndexKey::Members(guild_id))) && #[trigger] answers(
                    ids,
                    member_sources_of(*self, guild_id),
                ) == found@;
            members_are_joined_at_lookup(*self, guild_id, ids);
            assert forall|k: int| 0 <= k < joined_members(found@).len() implies (
            #[trigger] joined_members(found@)[k]).wf() by {
                let i = listed_member_has_its_user(found@, k);
                assert(found@[i] is Some);
            }
        }
        join_members(found)
    }

    /// The roles of a guild.
    pub fn roles_in_guild(&self, guild_id: u64) -> (roles: Vec<Role>)
        requires
            guild_id != 0,
        ensures
            lists(roles@, index_at(*self, IndexKey::Roles(guild_id)), roles_of(*self)),
    {
        let found = self.read_roles(guild_id);
        proof {
            reading_lists_what_it_found(
                found@,
                index_at(*self, IndexKey::Roles(guild_id)),
                roles_of(*self),
            );
        }
        collect_present(found)
    }

    /// The scheduled events of a guild.
    pub fn scheduled_events_in_guild(&self, guild_id: u64) -> (events: Vec<GuildScheduledEvent>)
        requires
            guild_id != 0,
        ensures
            lists(
                events@,
                index_at(*self, IndexKey::ScheduledEvents(guild_id)),
                scheduled_events_of(*self),
            ),
    {
        let found = self.read_scheduled_events(guild_id);
        proof {
            reading_lists_what_it_found(
                found@,
                index_at(*self, IndexKey::ScheduledEvents(guild_id)),
                scheduled_events_of(*self),
            );
        }
        collect_present(found)
    }

    /// The stage instances of a guild.
    pub fn stage_instances_in_guild(&self, guild_id: u64) -> (stages: Vec<StageInstance>)
        requires
            guild_id != 0,
        ensures
            lists(
                stages@,
                index_at(*self, IndexKey::StageInstances(guild_id)),
                stage_instances_of(*self),
            ),
    {
        let found = self.read_stage_instances(guild_id);
        proof {
            reading_lists_what_it_found(
                found@,
                index_at(*self, IndexKey::StageInstances(guild_id)),
                stage_instances_of(*self),
            );
        }
        collect_present(found)
    }

    /// The stickers of a guild, each with its uploader where the store holds
    /// that user.
    pub fn stickers_in_guild(&self, guild_id: u64) -> (stickers: Vec<StickerRecord>)
        requires
            guild_id != 0,
        ensures
            lists(stickers@, index_at(*self, IndexKey::Stickers(guild_id)), stickers_of(*self)),
            forall|k: int| 0 <= k < stickers@.len() ==> (#[trigger] stickers@[k]).wf(),
    {
        let found = self.read_stickers(guild_id);
        proof {
            reading_lists_what_it_found(
                found@,
                index_at(*self, IndexKey::Stickers(guild_id)),
                stickers_of(*self),
            );
            assert forall|k: int| 0 <= k < present(found@).len() implies (#[trigger] present(
                found@,
            )[k]).wf() by {
                let i = present_stems_from_answers(found@, k);
                assert(found@[i] is Some);
            }
        }
        collect_present(found)
    }

    /// The voice states of a guild. A voice state is listed whether or not a
    /// member could be composed for its user.
    pub fn voice_states_in_guild(&self, guild_id: u64) -> (states: Vec<VoiceStateRecord>)
        requires
            guild_id != 0,
        ensures
            lists(
                states@,
                index_at(*self, IndexKey::VoiceStates(guild_id)),
                voice_states_of(*self, guild_id),
            ),
            forall|k: int| 0 <= k < states@.len() ==> (#[trigger] states@[k]).wf(),
    {
        let found = self.read_voice_states(guild_id);
        proof {
            let ids = choose|ids: Seq<u64>|
                is_walk(ids, index_at(*self, IndexKey::VoiceStates(guild_id)))
                    && #[trigger] answers(ids, voice_sources_of(*self, guild_id)) == found@;
            voice_states_are_joined_at_lookup(*self, guild_id, ids);
            assert forall|k: int| 0 <= k < joined_voice_states(found@).len() implies (
            #[trigger] joined_voice_states(found@)[k]).wf() by {
                let i = present_stems_from_answers(found@, k);
                assert(found@[i] is Some);
                assert(joined_voice_states(found@)[k] == joined_voice_state(present(found@)[k]));
            }
        }
        join_voice_states(found)
    }

    /// Rebuilds a guild in full from the store: reads each of its child
    /// collections and joins them under the guild's own attributes.
    pub fn guild_aggregate(&self, entry: GuildEntry) -> (aggregate: GuildAggregate)
        requires
            entry.wf(),
        ensures
            rebuilt_from(aggregate, *self, entry),
            aggregate.wf(),
    {
        let sources = self.read_guild(entry.id);
        let aggregate = assemble(entry, sources);
        proof {
            built_from_a_reading_is_rebuilt(aggregate, *self, entry, sources);
        }
        aggregate
    }
}

} // verus!
