//! The entities that a shard's store holds, as this library sees them.
//!
//! The store keeps its records in types of the `twilight` crates. Their fields
//! are of no concern here: such a record is carried through unchanged. What the
//! joins do read (an identifier, a type tag, a reference to a user) is copied
//! out beside the record when it leaves the store, into the entry types below.

use vstd::prelude::*;
use twilight_cache_inmemory::model::{
    CachedEmoji, CachedGuild, CachedMember, CachedPresence, CachedSticker, CachedVoiceState,
};
use twilight_model::channel::{Channel, StageInstance};
use twilight_model::gateway::event::Event;
use twilight_model::guild::scheduled_event::GuildScheduledEvent;
use twilight_model::guild::Role;
use twilight_model::user::User;

verus! {

/// `twilight_model::channel::Channel`, carried as an opaque value.
#[verifier::external_type_specification]
#[verifier::external_body]
pub struct ExChannel(Channel);

/// `twilight_model::channel::StageInstance`, carried as an opaque value.
#[verifier::external_type_specification]
#[verifier::external_body]
pub struct ExStageInstance(StageInstance);

/// `twilight_model::guild::scheduled_event::GuildScheduledEvent`, carried as an
/// opaque value.
#[verifier::external_type_specification]
#[verifier::external_body]
pub struct ExGuildScheduledEvent(GuildScheduledEvent);

/// `twilight_model::guild::Role`, carried as an opaque value.
#[verifier::external_type_specification]
#[verifier::external_body]
pub struct ExRole(Role);

/// `twilight_model::user::User`, carried as an opaque value.
#[verifier::external_type_specification]
#[verifier::external_body]
pub struct ExUser(User);

/// `twilight_model::gateway::event::Event`, an upstream dispatch event; it is
/// only handed on to the store.
#[verifier::external_type_specification]
#[verifier::external_body]
pub struct ExEvent(Event);

/// `twilight_cache_inmemory::model::CachedGuild`: the scalar attributes of a
/// guild, carried as an opaque value.
#[verifier::external_type_specification]
#[verifier::external_body]
pub struct ExCachedGuild(CachedGuild);

/// `twilight_cache_inmemory::model::CachedMember`: a membership-scoped record,
/// carried as an opaque value.
#[verifier::external_type_specification]
#[verifier::external_body]
pub struct ExCachedMember(CachedMember);

/// `twilight_cache_inmemory::model::CachedEmoji`, carried as an opaque value.
#[verifier::external_type_specification]
#[verifier::external_body]
pub struct ExCachedEmoji(CachedEmoji);

/// `twilight_cache_inmemory::model::CachedSticker`, carried as an opaque value.
#[verifier::external_type_specification]
#[verifier::external_body]
pub struct ExCachedSticker(CachedSticker);

/// `twilight_cache_inmemory::model::CachedPresence`, carried as an opaque value.
#[verifier::external_type_specification]
#[verifier::external_body]
pub struct ExCachedPresence(CachedPresence);

/// `twilight_cache_inmemory::model::CachedVoiceState`, carried as an opaque
/// value.
#[verifier::external_type_specification]
#[verifier::external_body]
pub struct ExCachedVoiceState(CachedVoiceState);

/// One item of a walk over the guilds of a store.
#[derive(Debug)]
pub struct GuildEntry {
    /// The guild's identifier; never zero.
    pub id: u64,
    /// The store's availability flag for the guild, as the store holds it.
    pub unavailable: Option<bool>,
    /// The number of members that the store counts for the guild, where it
    /// counts them.
    pub member_count: Option<u64>,
    /// The guild's scalar attributes.
    pub guild: CachedGuild,
}

impl GuildEntry {
    /// An identifier is a positive number.
    pub open spec fn wf(&self) -> bool {
        self.id != 0
    }

    /// A guild counts as unavailable only where the store marks it so
    /// explicitly.
    pub open spec fn is_unavailable(&self) -> bool {
        self.unavailable == Some(true)
    }

    /// Whether the store marks this guild as unavailable.
    pub fn marked_unavailable(&self) -> (flag: bool)
        ensures
            flag == self.is_unavailable(),
    {
        match self.unavailable {
            Some(flag) => flag,
            None => false,
        }
    }
}

/// A channel as resolved from the store, with its own type tag read out.
#[derive(Debug)]
pub struct ChannelEntry {
    /// Whether the channel's type is one of the thread types.
    pub thread: bool,
    /// The channel itself.
    pub channel: Channel,
}

/// A membership record as resolved from the store.
#[derive(Debug)]
pub struct MemberEntry {
    /// The user that the record refers to; never zero.
    pub user_id: u64,
    /// The membership-scoped record.
    pub member: CachedMember,
}

impl MemberEntry {
    /// An identifier is a positive number.
    pub open spec fn wf(&self) -> bool {
        self.user_id != 0
    }
}

/// An emoji as resolved from the store.
#[derive(Debug)]
pub struct EmojiEntry {
    /// The user who created the emoji, where the record names one; never zero.
    pub user_id: Option<u64>,
    /// The emoji itself.
    pub emoji: CachedEmoji,
}

impl EmojiEntry {
    /// An identifier is a positive number.
    pub open spec fn wf(&self) -> bool {
        self.user_id != Some(0u64)
    }
}

/// A sticker as resolved from the store.
#[derive(Debug)]
pub struct StickerEntry {
    /// The user who uploaded the sticker, where the record names one; never
    /// zero.
    pub user_id: Option<u64>,
    /// The sticker itself.
    pub sticker: CachedSticker,
}

impl StickerEntry {
    /// An identifier is a positive number.
    pub open spec fn wf(&self) -> bool {
        self.user_id != Some(0u64)
    }
}

/// What tells the reactions of one message apart: the identifier of a custom
/// emoji, or the name of a unicode emoji.
#[derive(Debug)]
pub enum ReactionKey {
    Custom(u64),
    Unicode(String),
}

/// How often a message was reacted to with one emoji.
#[derive(Debug)]
pub struct ReactionCount {
    pub emoji: ReactionKey,
    pub count: u64,
}

/// The count that an upstream event moves by one in the store.
#[derive(Debug)]
pub enum CountChange {
    /// A member joined the guild: its member count goes up.
    MemberJoins(u64),
    /// A member left the guild: its member count goes down.
    MemberLeaves(u64),
    /// A reaction was added to the message: the count of its emoji goes up.
    ReactionAdded { message_id: u64, emoji: ReactionKey },
    /// The event moves no count.
    Unchanged,
}

impl CountChange {
    /// An identifier is a positive number.
    pub open spec fn wf(&self) -> bool {
        match *self {
            CountChange::MemberJoins(guild_id) => guild_id != 0,
            CountChange::MemberLeaves(guild_id) => guild_id != 0,
            CountChange::ReactionAdded { message_id, emoji } => message_id != 0,
            CountChange::Unchanged => true,
        }
    }
}

/// Whether two keys stand for the same emoji: two custom emojis with the same
/// identifier, or two unicode emojis with the same name.
pub open spec fn same_emoji(first: ReactionKey, second: ReactionKey) -> bool {
    match (first, second) {
        (ReactionKey::Custom(one), ReactionKey::Custom(other)) => one == other,
        (ReactionKey::Unicode(one), ReactionKey::Unicode(other)) => one@ == other@,
        _ => false,
    }
}

/// Whether two keys stand for the same emoji.
pub fn is_same_emoji(first: &ReactionKey, second: &ReactionKey) -> (same: bool)
    ensures
        same == same_emoji(*first, *second),
{
    match first {
        ReactionKey::Custom(one) => match second {
            ReactionKey::Custom(other) => *one == *other,
            ReactionKey::Unicode(_) => false,
        },
        ReactionKey::Unicode(one) => match second {
            ReactionKey::Custom(_) => false,
            ReactionKey::Unicode(other) => *one == *other,
        },
    }
}

} // verus!
