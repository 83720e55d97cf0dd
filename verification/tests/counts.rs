use gateway_proxy::entities::{is_same_emoji, CountChange, ReactionKey};
use gateway_proxy::query::{Shard, State};
use gateway_proxy::store::Guilds;
use twilight_model::gateway::event::Event;
use twilight_model::gateway::payload::incoming::{
    GuildCreate, MemberAdd, MemberRemove, MessageCreate, ReactionAdd,
};
use twilight_model::guild::Guild;

fn user_json(id: u64) -> String {
    format!(r#"{{"id":"{}","username":"user","discriminator":"0001","avatar":null}}"#, id)
}

fn guild_with_member_count(count: &str) -> Event {
    let json = format!(
        r#"{{"id":"100","name":"guild","afk_timeout":300,"default_message_notifications":0,"explicit_content_filter":0,"features":[],"mfa_level":0,"nsfw_level":0,"owner_id":"1","preferred_locale":"en-US","roles":[],"emojis":[],"system_channel_flags":0,"premium_progress_bar_enabled":false,"verification_level":0{}}}"#,
        count
    );
    let guild: Guild = serde_json::from_str(&json).expect("guild json");
    Event::GuildCreate(Box::new(GuildCreate::Available(guild)))
}

fn member_add(guild_id: u64, user_id: u64) -> Event {
    let json = format!(
        r#"{{"guild_id":"{}","user":{},"roles":[],"deaf":false,"mute":false,"flags":0,"joined_at":null,"communication_disabled_until":null,"nick":null}}"#,
        guild_id,
        user_json(user_id)
    );
    let event: MemberAdd = serde_json::from_str(&json).expect("member add json");
    Event::MemberAdd(Box::new(event))
}

fn member_remove(guild_id: u64, user_id: u64) -> Event {
    let json = format!(r#"{{"guild_id":"{}","user":{}}}"#, guild_id, user_json(user_id));
    let event: MemberRemove = serde_json::from_str(&json).expect("member remove json");
    Event::MemberRemove(event)
}

fn message_with_reaction(message_id: u64, emoji: &str, count: &str) -> Event {
    let json = format!(
        r#"{{"id":"{}","channel_id":"2","author":{},"content":"hello","timestamp":"2021-01-01T00:00:00.000000+00:00","edited_timestamp":null,"tts":false,"mention_everyone":false,"mentions":[],"mention_roles":[],"attachments":[],"embeds":[],"pinned":false,"type":0,"reactions":[{{"burst_colors":[],"count":{},"count_details":{{"burst":0,"normal":1}},"emoji":{},"me":false,"me_burst":false}}]}}"#,
        message_id,
        user_json(7),
        count,
        emoji
    );
    let event: MessageCreate = serde_json::from_str(&json).expect("message json");
    Event::MessageCreate(Box::new(event))
}

fn reaction_add(message_id: u64, emoji: &str) -> Event {
    let json = format!(
        r#"{{"burst":false,"channel_id":"2","emoji":{},"guild_id":null,"member":null,"message_id":"{}","user_id":"8"}}"#,
        emoji, message_id
    );
    let event: ReactionAdd = serde_json::from_str(&json).expect("reaction json");
    Event::ReactionAdd(Box::new(event))
}

fn member_count(store: &Guilds) -> Option<u64> {
    let state = State { shards: vec![Shard { guilds: store }] };
    state.find_guild(100).expect("guild 100").member_count
}

const THUMB: &str = r#"{"id":null,"name":"thumb"}"#;
const HEART: &str = r#"{"id":null,"name":"heart"}"#;
const CUSTOM: &str = r#"{"id":"55","name":"party","animated":false}"#;
const MOST: &str = "18446744073709551615";

#[test]
fn member_count_follows_joins_and_leaves() {
    let mut store = Guilds::new(u64::MAX);
    assert!(store.try_update(&guild_with_member_count(r#","member_count":2"#)));
    assert_eq!(member_count(&store), Some(2));
    assert!(store.try_update(&member_remove(100, 7)));
    assert_eq!(member_count(&store), Some(1));
    assert!(store.try_update(&member_add(100, 8)));
    assert!(store.try_update(&member_add(100, 9)));
    assert_eq!(member_count(&store), Some(3));
}

#[test]
fn leave_from_a_guild_counted_empty_is_not_applied() {
    let mut store = Guilds::new(u64::MAX);
    assert!(store.try_update(&guild_with_member_count(r#","member_count":0"#)));
    assert!(store.has_room_for(&CountChange::MemberJoins(100)));
    assert!(!store.has_room_for(&CountChange::MemberLeaves(100)));
    assert!(!store.try_update(&member_remove(100, 7)));
    assert_eq!(member_count(&store), Some(0));
    assert!(store.try_update(&member_add(100, 7)));
    assert_eq!(member_count(&store), Some(1));
    assert!(store.try_update(&member_remove(100, 7)));
    assert_eq!(member_count(&store), Some(0));
    assert_eq!(store.stats().members, 0);
}

#[test]
fn join_to_a_guild_counted_full_is_not_applied() {
    let mut store = Guilds::new(u64::MAX);
    let count = format!(r#","member_count":{}"#, MOST);
    assert!(store.try_update(&guild_with_member_count(&count)));
    assert!(!store.has_room_for(&CountChange::MemberJoins(100)));
    assert!(store.has_room_for(&CountChange::MemberLeaves(100)));
    assert!(!store.try_update(&member_add(100, 7)));
    assert_eq!(member_count(&store), Some(u64::MAX));
    assert_eq!(store.stats().members, 0);
    assert!(store.try_update(&member_remove(100, 7)));
    assert_eq!(member_count(&store), Some(u64::MAX - 1));
}

#[test]
fn guild_without_a_count_takes_every_join_and_leave() {
    let mut store = Guilds::new(u64::MAX);
    assert!(store.try_update(&guild_with_member_count("")));
    assert_eq!(member_count(&store), None);
    assert!(store.try_update(&member_remove(100, 7)));
    assert!(store.try_update(&member_add(100, 7)));
    assert_eq!(member_count(&store), None);
    assert!(store.try_update(&member_remove(300, 7)));
    assert!(store.try_update(&member_add(300, 7)));
    assert!(store.has_room_for(&CountChange::MemberLeaves(300)));
    assert!(store.has_room_for(&CountChange::Unchanged));
}

#[test]
fn reaction_counted_to_the_end_is_not_applied() {
    let mut store = Guilds::new(u64::MAX);
    assert!(store.try_update(&message_with_reaction(4, THUMB, MOST)));
    let thumb = ReactionKey::Unicode("thumb".to_owned());
    let heart = ReactionKey::Unicode("heart".to_owned());
    assert!(!store.has_room_for(&CountChange::ReactionAdded { message_id: 4, emoji: thumb }));
    assert!(store.has_room_for(&CountChange::ReactionAdded { message_id: 4, emoji: heart }));
    assert!(store.has_room_for(&CountChange::ReactionAdded {
        message_id: 4,
        emoji: ReactionKey::Custom(55)
    }));
    assert!(store.has_room_for(&CountChange::ReactionAdded {
        message_id: 5,
        emoji: ReactionKey::Unicode("thumb".to_owned())
    }));
    assert!(!store.try_update(&reaction_add(4, THUMB)));
    assert!(store.try_update(&reaction_add(4, HEART)));
    assert!(store.try_update(&reaction_add(4, CUSTOM)));
    assert!(store.try_update(&reaction_add(5, THUMB)));
    assert!(!store.try_update(&reaction_add(4, THUMB)));
}

#[test]
fn reaction_with_room_is_counted() {
    let mut store = Guilds::new(u64::MAX);
    assert!(store.try_update(&message_with_reaction(4, CUSTOM, "18446744073709551614")));
    assert!(store.try_update(&reaction_add(4, CUSTOM)));
    assert!(!store.try_update(&reaction_add(4, CUSTOM)));
    assert!(store.try_update(&reaction_add(4, THUMB)));
}

#[test]
fn emojis_are_told_apart_by_identifier_or_name() {
    let custom = ReactionKey::Custom(5);
    let thumb = ReactionKey::Unicode("thumb".to_owned());
    assert!(is_same_emoji(&custom, &ReactionKey::Custom(5)));
    assert!(!is_same_emoji(&custom, &ReactionKey::Custom(6)));
    assert!(is_same_emoji(&thumb, &ReactionKey::Unicode("thumb".to_owned())));
    assert!(!is_same_emoji(&thumb, &ReactionKey::Unicode("heart".to_owned())));
    assert!(!is_same_emoji(&thumb, &custom));
    assert!(!is_same_emoji(&custom, &thumb));
}
