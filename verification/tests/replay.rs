use gateway_proxy::replay::{GuildEvent, GuildPayloads, Payload, OP_DISPATCH};
use gateway_proxy::snapshot::{
    assemble, join_member, join_members, join_voice_state, join_voice_states, partition_channels,
    select_channels, GuildAggregate,
};
use gateway_proxy::store::Guilds;
use twilight_model::gateway::event::Event;
use twilight_model::gateway::payload::incoming::{
    GuildCreate, GuildDelete, MemberAdd, MemberRemove, UnavailableGuild, VoiceStateUpdate,
};
use twilight_model::guild::Guild;
use twilight_model::id::Id;

const ALL_RESOURCES: u64 = u64::MAX;

fn user_json(id: u64, name: &str) -> String {
    format!(
        r#"{{"id":"{}","username":"{}","discriminator":"0001","avatar":null}}"#,
        id, name
    )
}

fn member_json(user_id: u64, name: &str) -> String {
    format!(
        r#"{{"user":{},"roles":[],"deaf":false,"mute":false,"flags":0,"joined_at":null,"communication_disabled_until":null,"nick":null}}"#,
        user_json(user_id, name)
    )
}

fn guild_json(id: u64, name: &str, children: &str) -> String {
    format!(
        r#"{{"id":"{}","name":"{}","afk_timeout":300,"default_message_notifications":0,"explicit_content_filter":0,"features":[],"mfa_level":0,"nsfw_level":0,"owner_id":"1","preferred_locale":"en-US","system_channel_flags":0,"premium_progress_bar_enabled":false,"verification_level":0{}}}"#,
        id, name, children
    )
}

fn add_guild(store: &mut Guilds, json: &str) {
    let guild: Guild = serde_json::from_str(json).expect("guild json");
    assert!(store.try_update(&Event::GuildCreate(Box::new(GuildCreate::Available(guild)))));
}

fn mark_unavailable(store: &mut Guilds, id: u64) {
    assert!(store.try_update(&Event::UnavailableGuild(UnavailableGuild { id: Id::new(id) })));
}

fn add_member(store: &mut Guilds, guild_id: u64, user_id: u64, name: &str) {
    let json = format!(
        r#"{{"guild_id":"{}","user":{},"roles":[],"deaf":false,"mute":false,"flags":0,"joined_at":null,"communication_disabled_until":null,"nick":null}}"#,
        guild_id,
        user_json(user_id, name)
    );
    let event: MemberAdd = serde_json::from_str(&json).expect("member add json");
    assert!(store.try_update(&Event::MemberAdd(Box::new(event))));
}

fn remove_member(store: &mut Guilds, guild_id: u64, user_id: u64, name: &str) {
    let json = format!(r#"{{"guild_id":"{}","user":{}}}"#, guild_id, user_json(user_id, name));
    let event: MemberRemove = serde_json::from_str(&json).expect("member remove json");
    assert!(store.try_update(&Event::MemberRemove(event)));
}

fn add_voice_state(store: &mut Guilds, guild_id: u64, channel_id: u64, user_id: u64) {
    let json = format!(
        r#"{{"channel_id":"{}","guild_id":"{}","user_id":"{}","deaf":false,"mute":false,"self_deaf":false,"self_mute":false,"self_video":false,"session_id":"session","suppress":false,"request_to_speak_timestamp":null}}"#,
        channel_id, guild_id, user_id
    );
    let event: VoiceStateUpdate = serde_json::from_str(&json).expect("voice state json");
    assert!(store.try_update(&Event::VoiceStateUpdate(Box::new(event))));
}

/// Guild 100 with one text channel (11), one thread (12) and member 7.
fn store_with_guild_100() -> Guilds {
    let mut store = Guilds::new(ALL_RESOURCES);
    let children = format!(
        r#","roles":[],"emojis":[],"channels":[{{"id":"11","type":0,"name":"general"}}],"threads":[{{"id":"12","type":11,"name":"side"}}],"members":[{}]"#,
        member_json(7, "seven")
    );
    add_guild(&mut store, &guild_json(100, "hundred", &children));
    store
}

/// A store in which user 7 has a membership record in guild 100 but is not
/// itself held: the user was last seen with another name in guild 300 and
/// then left that guild.
fn store_with_orphaned_member() -> Guilds {
    let mut store = store_with_guild_100();
    add_member(&mut store, 300, 7, "renamed");
    remove_member(&mut store, 300, 7, "renamed");
    store
}

fn entry_of(store: &Guilds, guild_id: u64) -> gateway_proxy::entities::GuildEntry {
    let mut cursor_entries = Vec::new();
    let mut sequence = 0usize;
    let mut cursor = store.get_guild_payloads();
    while let Some(payload) = cursor.next_payload(store, &mut sequence) {
        cursor_entries.push(payload);
    }
    for payload in cursor_entries {
        if let GuildEvent::Create(aggregate) = payload.d {
            if aggregate.id == guild_id {
                return gateway_proxy::entities::GuildEntry {
                    id: aggregate.id,
                    unavailable: None,
                    member_count: aggregate.guild.member_count(),
                    guild: aggregate.guild,
                };
            }
        }
    }
    panic!("guild {} is not loaded", guild_id);
}

fn drain(store: &Guilds, sequence: &mut usize) -> Vec<Payload<GuildEvent>> {
    let mut cursor = store.get_guild_payloads();
    cursor.collect_remaining(store, sequence)
}

fn aggregate_of(store: &Guilds, guild_id: u64) -> GuildAggregate {
    let entry = entry_of(store, guild_id);
    store.guild_aggregate(entry)
}

#[test]
fn loaded_guild_is_rebuilt_with_channels_threads_and_members() {
    let store = store_with_guild_100();
    let mut sequence = 5usize;
    let mut payloads = drain(&store, &mut sequence);
    assert_eq!(payloads.len(), 1);
    let payload = payloads.pop().unwrap();
    assert_eq!(payload.t, "GUILD_CREATE");
    assert_eq!(payload.op, OP_DISPATCH);
    assert_eq!(payload.s, 6);
    assert_eq!(sequence, 6);
    let aggregate = match payload.d {
        GuildEvent::Create(aggregate) => aggregate,
        GuildEvent::Delete(_) => panic!("a loaded guild must be rebuilt in full"),
    };
    assert_eq!(aggregate.id, 100);
    assert_eq!(aggregate.guild.id(), Id::new(100));
    assert_eq!(aggregate.guild.name(), "hundred");
    assert_eq!(aggregate.channels.len(), 1);
    assert_eq!(aggregate.channels[0].channel.id, Id::new(11));
    assert!(!aggregate.channels[0].thread);
    assert_eq!(aggregate.threads.len(), 1);
    assert_eq!(aggregate.threads[0].channel.id, Id::new(12));
    assert!(aggregate.threads[0].thread);
    assert_eq!(aggregate.members.len(), 1);
    assert_eq!(aggregate.members[0].member.user_id, 7);
    assert_eq!(aggregate.members[0].member.member.user_id(), Id::new(7));
    assert_eq!(aggregate.members[0].user.id, Id::new(7));
    assert_eq!(aggregate.members[0].user.name, "seven");
    assert!(aggregate.presences.is_empty());
    assert!(aggregate.emojis.is_empty());
    assert!(aggregate.roles.is_empty());
    assert!(aggregate.scheduled_events.is_empty());
    assert!(aggregate.stage_instances.is_empty());
    assert!(aggregate.stickers.is_empty());
    assert!(aggregate.voice_states.is_empty());
}

#[test]
fn unavailable_guild_yields_a_stub() {
    let mut store = Guilds::new(ALL_RESOURCES);
    let children = format!(
        r#","roles":[],"emojis":[],"channels":[{{"id":"21","type":0,"name":"general"}}],"members":[{}]"#,
        member_json(8, "eight")
    );
    add_guild(&mut store, &guild_json(200, "two hundred", &children));
    mark_unavailable(&mut store, 200);
    let mut sequence = 0usize;
    let mut cursor = store.get_guild_payloads();
    assert!(cursor.has_next());
    assert_eq!(cursor.len(), 1);
    let payload = cursor.next_payload(&store, &mut sequence).expect("one guild");
    assert_eq!(payload.t, "GUILD_DELETE");
    assert_eq!(payload.op, 0);
    assert_eq!(payload.s, 1);
    match payload.d {
        GuildEvent::Delete(stub) => {
            assert_eq!(stub.id, 200);
            assert!(stub.unavailable);
        },
        GuildEvent::Create(_) => panic!("an unavailable guild must not be rebuilt"),
    }
    assert!(!cursor.has_next());
    assert!(cursor.next_payload(&store, &mut sequence).is_none());
    assert_eq!(sequence, 1);
}

#[test]
fn every_guild_gets_exactly_one_event() {
    let mut store = Guilds::new(ALL_RESOURCES);
    for id in [1u64, 2, 3, 4, 5, 6] {
        add_guild(&mut store, &guild_json(id, "guild", r#","roles":[],"emojis":[]"#));
    }
    mark_unavailable(&mut store, 2);
    mark_unavailable(&mut store, 5);
    let mut sequence = 0usize;
    let payloads = drain(&store, &mut sequence);
    assert_eq!(payloads.len(), 6);
    let mut stubs: Vec<u64> = Vec::new();
    let mut full: Vec<u64> = Vec::new();
    for payload in &payloads {
        match &payload.d {
            GuildEvent::Delete(stub) => {
                assert_eq!(payload.t, "GUILD_DELETE");
                stubs.push(stub.id);
            },
            GuildEvent::Create(aggregate) => {
                assert_eq!(payload.t, "GUILD_CREATE");
                full.push(aggregate.id);
            },
        }
    }
    stubs.sort();
    full.sort();
    assert_eq!(stubs, vec![2, 5]);
    assert_eq!(full, vec![1, 3, 4, 6]);
}

#[test]
fn sequence_counts_every_payload() {
    let mut store = Guilds::new(ALL_RESOURCES);
    for id in [10u64, 20, 30] {
        add_guild(&mut store, &guild_json(id, "guild", r#","roles":[],"emojis":[]"#));
    }
    mark_unavailable(&mut store, 20);
    let mut sequence = 41usize;
    let ready = store.get_ready_payload(serde_json::Map::new(), &vec![20], &mut sequence);
    assert_eq!(ready.s, 42);
    assert_eq!(sequence, 42);
    let payloads = drain(&store, &mut sequence);
    assert_eq!(payloads.len(), 3);
    assert_eq!(sequence, 41 + 1 + 3);
    let stamps: Vec<usize> = payloads.iter().map(|payload| payload.s).collect();
    assert_eq!(stamps, vec![43, 44, 45]);
}

#[test]
fn sequence_starts_from_unset() {
    let store = Guilds::new(ALL_RESOURCES);
    let mut sequence = 0usize;
    let ready = store.get_ready_payload(serde_json::Map::new(), &Vec::new(), &mut sequence);
    assert_eq!(ready.s, 1);
    let payloads = drain(&store, &mut sequence);
    assert!(payloads.is_empty());
    assert_eq!(sequence, 1);
    let mut cursor = store.get_guild_payloads();
    assert!(!cursor.has_next());
    assert_eq!(cursor.len(), 0);
    assert!(cursor.next_payload(&store, &mut sequence).is_none());
    assert_eq!(sequence, 1);
}

#[test]
fn removed_guild_is_not_replayed() {
    let mut store = store_with_guild_100();
    assert!(store.try_update(&Event::GuildDelete(GuildDelete { id: Id::new(100), unavailable: None })));
    let mut sequence = 0usize;
    assert!(drain(&store, &mut sequence).is_empty());
    assert_eq!(sequence, 0);
}

#[test]
fn member_without_user_is_left_out() {
    let store = store_with_orphaned_member();
    let source = store.member_source(100, 7).expect("the membership record is held");
    assert_eq!(source.member.user_id, 7);
    assert!(source.user.is_none());
    assert!(store.member(100, 7).is_none());
    assert!(store.members_in_guild(100).is_empty());
    let aggregate = aggregate_of(&store, 100);
    assert!(aggregate.members.is_empty());
    assert_eq!(aggregate.channels.len(), 1);
    assert_eq!(aggregate.threads.len(), 1);
}

#[test]
fn member_with_user_is_composed() {
    let store = store_with_guild_100();
    let member = store.member(100, 7).expect("member 7");
    assert_eq!(member.member.user_id, 7);
    assert_eq!(member.user.name, "seven");
    assert!(store.member(100, 8).is_none());
    assert!(store.member(101, 7).is_none());
    let members = store.members_in_guild(100);
    assert_eq!(members.len(), 1);
    assert!(store.members_in_guild(101).is_empty());
}

#[test]
fn join_member_needs_the_user() {
    let store = store_with_guild_100();
    let source = store.member_source(100, 7).expect("member 7");
    assert!(source.user.is_some());
    let mut without = store.member_source(100, 7).expect("member 7");
    without.user = None;
    assert!(join_member(without).is_none());
    let joined = join_member(source).expect("user is present");
    assert_eq!(joined.user.id, Id::new(7));
}

#[test]
fn join_members_keeps_order_and_drops_misses() {
    let mut store = store_with_guild_100();
    add_member(&mut store, 100, 8, "eight");
    add_member(&mut store, 100, 9, "nine");
    let mut orphan = store.member_source(100, 8).expect("member 8");
    orphan.user = None;
    let sources = vec![
        store.member_source(100, 9),
        None,
        Some(orphan),
        store.member_source(100, 7),
        store.member_source(100, 77),
    ];
    let members = join_members(sources);
    let ids: Vec<u64> = members.iter().map(|member| member.member.user_id).collect();
    assert_eq!(ids, vec![9, 7]);
    assert!(join_members(Vec::new()).is_empty());
}

#[test]
fn voice_state_without_member_is_kept() {
    let mut store = store_with_guild_100();
    add_voice_state(&mut store, 100, 11, 9);
    let states = store.voice_states_in_guild(100);
    assert_eq!(states.len(), 1);
    assert_eq!(states[0].state.user_id(), Id::new(9));
    assert_eq!(states[0].state.channel_id(), Id::new(11));
    assert!(states[0].member.is_none());
    let aggregate = aggregate_of(&store, 100);
    assert_eq!(aggregate.voice_states.len(), 1);
    assert!(aggregate.voice_states[0].member.is_none());
}

#[test]
fn voice_state_embeds_a_resolvable_member() {
    let mut store = store_with_guild_100();
    add_voice_state(&mut store, 100, 11, 7);
    let states = store.voice_states_in_guild(100);
    assert_eq!(states.len(), 1);
    let member = states[0].member.as_ref().expect("member 7 is resolvable");
    assert_eq!(member.member.user_id, 7);
    assert_eq!(member.user.id, Id::new(7));
}

#[test]
fn voice_state_of_member_without_user_is_kept_without_member() {
    let mut store = store_with_orphaned_member();
    add_voice_state(&mut store, 100, 11, 7);
    let source = store.voice_source(100, 7).expect("voice record");
    assert!(source.member.is_some());
    let state = join_voice_state(source);
    assert!(state.member.is_none());
    let states = store.voice_states_in_guild(100);
    assert_eq!(states.len(), 1);
    assert!(states[0].member.is_none());
}

#[test]
fn join_voice_states_drops_only_misses() {
    let mut store = store_with_guild_100();
    add_voice_state(&mut store, 100, 11, 7);
    add_voice_state(&mut store, 100, 11, 9);
    let sources = vec![None, store.voice_source(100, 9), store.voice_source(100, 7), None];
    let states = join_voice_states(sources);
    assert_eq!(states.len(), 2);
    assert_eq!(states[0].state.user_id(), Id::new(9));
    assert!(states[0].member.is_none());
    assert_eq!(states[1].state.user_id(), Id::new(7));
    assert!(states[1].member.is_some());
}

#[test]
fn rebuilding_twice_gives_the_same_aggregate() {
    let mut store = store_with_guild_100();
    add_voice_state(&mut store, 100, 11, 7);
    let first = aggregate_of(&store, 100);
    let second = aggregate_of(&store, 100);
    assert_eq!(format!("{:?}", first), format!("{:?}", second));
    assert_eq!(first.channels.len(), 1);
    assert_eq!(first.voice_states.len(), 1);
}

#[test]
fn assemble_joins_what_was_read() {
    let store = store_with_guild_100();
    let entry = entry_of(&store, 100);
    let sources = store.read_guild(100);
    assert_eq!(sources.channels.len(), 2);
    assert_eq!(sources.members.len(), 1);
    let aggregate = assemble(entry, sources);
    assert_eq!(aggregate.id, 100);
    assert_eq!(aggregate.channels.len(), 1);
    assert_eq!(aggregate.threads.len(), 1);
    assert_eq!(aggregate.members.len(), 1);
}

#[test]
fn assemble_drops_children_that_were_not_found() {
    let store = store_with_guild_100();
    let entry = entry_of(&store, 100);
    let mut sources = store.read_guild(100);
    sources.channels.insert(0, None);
    sources.channels.push(None);
    sources.members.push(None);
    sources.roles.push(None);
    sources.presences.push(None);
    sources.emojis.push(None);
    sources.stickers.push(None);
    sources.stage_instances.push(None);
    sources.scheduled_events.push(None);
    sources.voice_states.push(None);
    let aggregate = assemble(entry, sources);
    assert_eq!(aggregate.channels.len(), 1);
    assert_eq!(aggregate.threads.len(), 1);
    assert_eq!(aggregate.members.len(), 1);
    assert!(aggregate.roles.is_empty());
    assert!(aggregate.presences.is_empty());
    assert!(aggregate.emojis.is_empty());
    assert!(aggregate.stickers.is_empty());
    assert!(aggregate.stage_instances.is_empty());
    assert!(aggregate.scheduled_events.is_empty());
    assert!(aggregate.voice_states.is_empty());
}

#[test]
fn channels_and_threads_are_told_apart_by_their_own_tag() {
    let mut store = Guilds::new(ALL_RESOURCES);
    let children = r#","roles":[],"emojis":[],"channels":[{"id":"1","type":0},{"id":"2","type":2},{"id":"3","type":10},{"id":"4","type":11},{"id":"5","type":12},{"id":"6","type":13},{"id":"7","type":15}]"#;
    add_guild(&mut store, &guild_json(100, "mixed", children));
    let mut channels: Vec<u64> =
        store.channels_in_guild(100).iter().map(|entry| entry.channel.id.get()).collect();
    let mut threads: Vec<u64> =
        store.threads_in_guild(100).iter().map(|entry| entry.channel.id.get()).collect();
    channels.sort();
    threads.sort();
    assert_eq!(channels, vec![1, 2, 6, 7]);
    assert_eq!(threads, vec![3, 4, 5]);
    let (plain, side) = partition_channels(store.read_channels(100));
    assert_eq!(plain.len(), 4);
    assert_eq!(side.len(), 3);
    assert!(plain.iter().all(|entry| !entry.thread));
    assert!(side.iter().all(|entry| entry.thread));
    assert_eq!(select_channels(store.read_channels(100), true).len(), 3);
    assert_eq!(select_channels(store.read_channels(100), false).len(), 4);
    assert!(store.channels_in_guild(999).is_empty());
    assert!(store.threads_in_guild(999).is_empty());
}

#[test]
fn children_of_every_kind_are_collected() {
    let mut store = Guilds::new(ALL_RESOURCES);
    let children = format!(
        r#","roles":[{{"id":"31","name":"role","color":0,"hoist":false,"managed":false,"mentionable":false,"permissions":"0","position":1,"flags":0}}],"emojis":[{{"id":"41","name":"smile","user":{}}},{{"id":"42","name":"plain"}}],"stickers":[{{"id":"51","name":"sticker","description":"d","format_type":1,"type":2,"tags":"t","user":{}}}],"stage_instances":[{{"id":"61","channel_id":"11","guild_id":"100","privacy_level":2,"topic":"stage"}}],"guild_scheduled_events":[{{"id":"71","guild_id":"100","entity_type":2,"name":"event","privacy_level":2,"scheduled_start_time":"2022-01-01T00:00:00.000000+00:00","status":1}}],"presences":[{{"user":{{"id":"7"}},"status":"online","client_status":{{}},"activities":[]}}],"voice_states":[{{"channel_id":"11","user_id":"7","deaf":false,"mute":false,"self_deaf":false,"self_mute":false,"self_video":false,"session_id":"s","suppress":false,"request_to_speak_timestamp":null}}],"channels":[{{"id":"11","type":2}}],"members":[{}]"#,
        user_json(7, "seven"),
        user_json(8, "eight"),
        member_json(7, "seven")
    );
    add_guild(&mut store, &guild_json(100, "full", &children));
    let aggregate = aggregate_of(&store, 100);
    assert_eq!(aggregate.roles.len(), 1);
    assert_eq!(aggregate.roles[0].id, Id::new(31));
    assert_eq!(aggregate.emojis.len(), 2);
    assert_eq!(aggregate.stickers.len(), 1);
    assert_eq!(aggregate.stickers[0].sticker.user_id, Some(8));
    assert_eq!(aggregate.stickers[0].user.as_ref().map(|user| user.id), Some(Id::new(8)));
    assert_eq!(aggregate.stage_instances.len(), 1);
    assert_eq!(aggregate.stage_instances[0].id, Id::new(61));
    assert_eq!(aggregate.scheduled_events.len(), 1);
    assert_eq!(aggregate.scheduled_events[0].id, Id::new(71));
    assert_eq!(aggregate.presences.len(), 1);
    assert_eq!(aggregate.presences[0].user_id(), Id::new(7));
    assert_eq!(aggregate.voice_states.len(), 1);
    assert!(aggregate.voice_states[0].member.is_some());
    assert_eq!(aggregate.members.len(), 1);
    for emoji in &aggregate.emojis {
        if emoji.emoji.emoji.id() == Id::new(41) {
            assert_eq!(emoji.emoji.user_id, Some(7));
            assert_eq!(emoji.user.as_ref().map(|user| user.id), Some(Id::new(7)));
        } else {
            assert_eq!(emoji.emoji.emoji.id(), Id::new(42));
            assert_eq!(emoji.emoji.user_id, None);
            assert!(emoji.user.is_none());
        }
    }
    assert_eq!(store.roles_in_guild(100).len(), 1);
    assert_eq!(store.emojis_in_guild(100).len(), 2);
    assert_eq!(store.stickers_in_guild(100).len(), 1);
    assert_eq!(store.stage_instances_in_guild(100).len(), 1);
    assert_eq!(store.scheduled_events_in_guild(100).len(), 1);
    assert_eq!(store.presences_in_guild(100).len(), 1);
}

#[test]
fn emoji_keeps_its_place_when_its_creator_is_gone() {
    let mut store = Guilds::new(ALL_RESOURCES);
    let children = format!(
        r#","roles":[],"emojis":[{{"id":"41","name":"smile","user":{}}}]"#,
        user_json(8, "eight")
    );
    add_guild(&mut store, &guild_json(100, "guild", &children));
    let with_creator = store.emoji_record(41).expect("emoji 41");
    assert!(with_creator.user.is_some());
    remove_member(&mut store, 100, 8, "eight");
    let emojis = store.emojis_in_guild(100);
    assert_eq!(emojis.len(), 1);
    assert_eq!(emojis[0].emoji.user_id, Some(8));
    assert!(emojis[0].user.is_none());
    assert!(store.emoji_record(43).is_none());
    assert!(store.sticker_record(43).is_none());
}

#[test]
fn cursor_over_given_entries_follows_their_order() {
    let mut store = Guilds::new(ALL_RESOURCES);
    for id in [1u64, 2, 3] {
        add_guild(&mut store, &guild_json(id, "guild", r#","roles":[],"emojis":[]"#));
    }
    let mut entries = vec![entry_of(&store, 3), entry_of(&store, 1), entry_of(&store, 2)];
    entries[1].unavailable = Some(true);
    entries[2].unavailable = Some(false);
    let mut cursor = GuildPayloads::new(entries);
    assert_eq!(cursor.len(), 3);
    let mut sequence = 100usize;
    let first = cursor.next_payload(&store, &mut sequence).unwrap();
    assert!(matches!(first.d, GuildEvent::Create(ref aggregate) if aggregate.id == 3));
    assert_eq!(first.s, 101);
    let second = cursor.next_payload(&store, &mut sequence).unwrap();
    assert!(matches!(second.d, GuildEvent::Delete(ref stub) if stub.id == 1 && stub.unavailable));
    assert_eq!(second.s, 102);
    assert_eq!(cursor.len(), 1);
    let rest = cursor.collect_remaining(&store, &mut sequence);
    assert_eq!(rest.len(), 1);
    assert!(matches!(rest[0].d, GuildEvent::Create(ref aggregate) if aggregate.id == 2));
    assert_eq!(rest[0].s, 103);
    assert_eq!(sequence, 103);
    assert!(!cursor.has_next());
}

#[test]
fn stats_count_what_the_store_holds() {
    let mut store = store_with_guild_100();
    let stats = store.stats();
    assert_eq!(stats.guilds, 1);
    assert_eq!(stats.channels, 2);
    assert_eq!(stats.members, 1);
    assert_eq!(stats.users, 1);
    assert_eq!(stats.unavailable_guilds, 0);
    mark_unavailable(&mut store, 100);
    assert_eq!(store.stats().unavailable_guilds, 1);
    assert_eq!(store.stats().guilds, 1);
    assert_eq!(store.stats().channels, 0);
}

#[test]
fn store_caches_only_the_kinds_asked_for() {
    let mut guilds_only = Guilds::new(1 << 2);
    let children = format!(
        r#","roles":[],"emojis":[],"channels":[{{"id":"11","type":0}}],"members":[{}]"#,
        member_json(7, "seven")
    );
    add_guild(&mut guilds_only, &guild_json(100, "hundred", &children));
    let stats = guilds_only.stats();
    assert_eq!(stats.guilds, 1);
    assert_eq!(stats.channels, 0);
    assert_eq!(stats.members, 0);
    let aggregate = aggregate_of(&guilds_only, 100);
    assert!(aggregate.channels.is_empty());
    assert!(aggregate.members.is_empty());
    let mut nothing = Guilds::new(0);
    add_guild(&mut nothing, &guild_json(100, "hundred", &children));
    assert_eq!(nothing.stats().guilds, 0);
}

#[test]
fn replay_can_be_abandoned_after_any_number_of_events() {
    let mut store = Guilds::new(ALL_RESOURCES);
    for id in [1u64, 2, 3, 4, 5] {
        add_guild(&mut store, &guild_json(id, "guild", r#","roles":[],"emojis":[]"#));
    }
    mark_unavailable(&mut store, 3);
    for taken in 0..=5usize {
        let mut sequence = 10usize;
        let mut cursor = store.get_guild_payloads();
        let payloads = cursor.collect_up_to(&store, taken, &mut sequence);
        assert_eq!(payloads.len(), taken);
        assert_eq!(sequence, 10 + taken);
        assert_eq!(cursor.len(), 5 - taken);
        for (at, payload) in payloads.iter().enumerate() {
            assert_eq!(payload.s, 10 + at + 1);
        }
    }
    let mut sequence = 0usize;
    let mut cursor = store.get_guild_payloads();
    assert_eq!(cursor.collect_up_to(&store, 2, &mut sequence).len(), 2);
    assert_eq!(cursor.collect_up_to(&store, 0, &mut sequence).len(), 0);
    assert_eq!(sequence, 2);
    assert_eq!(cursor.collect_up_to(&store, 10, &mut sequence).len(), 3);
    assert_eq!(sequence, 5);
    assert!(!cursor.has_next());
    assert_eq!(cursor.collect_up_to(&store, 10, &mut sequence).len(), 0);
    assert_eq!(sequence, 5);
}

#[test]
fn full_pass_gives_every_guild_one_event() {
    let mut store = Guilds::new(ALL_RESOURCES);
    for id in [1u64, 2, 3, 4] {
        add_guild(&mut store, &guild_json(id, "guild", r#","roles":[],"emojis":[]"#));
    }
    mark_unavailable(&mut store, 4);
    let mut sequence = 1usize;
    let payloads = store.collect_guild_payloads(&mut sequence).expect("the counter has room");
    assert_eq!(sequence, 5);
    assert_eq!(payloads.len(), 4);
    let mut ids: Vec<u64> = payloads
        .iter()
        .map(|payload| match &payload.d {
            GuildEvent::Delete(stub) => {
                assert_eq!(stub.id, 4);
                assert!(stub.unavailable);
                assert_eq!(payload.t, "GUILD_DELETE");
                stub.id
            },
            GuildEvent::Create(aggregate) => {
                assert_eq!(payload.t, "GUILD_CREATE");
                aggregate.id
            },
        })
        .collect();
    ids.sort();
    assert_eq!(ids, vec![1, 2, 3, 4]);
    let stamps: Vec<usize> = payloads.iter().map(|payload| payload.s).collect();
    assert_eq!(stamps, vec![2, 3, 4, 5]);
}

#[test]
fn full_pass_needs_room_for_every_payload() {
    let mut store = Guilds::new(ALL_RESOURCES);
    for id in [1u64, 2, 3] {
        add_guild(&mut store, &guild_json(id, "guild", r#","roles":[],"emojis":[]"#));
    }
    let mut sequence = usize::MAX - 2;
    assert!(store.collect_guild_payloads(&mut sequence).is_none());
    assert_eq!(sequence, usize::MAX - 2);
    let mut sequence = usize::MAX - 3;
    let payloads = store.collect_guild_payloads(&mut sequence).expect("just enough room");
    assert_eq!(payloads.len(), 3);
    assert_eq!(sequence, usize::MAX);
    assert_eq!(payloads[2].s, usize::MAX);
    let empty = Guilds::new(ALL_RESOURCES);
    let mut sequence = usize::MAX;
    assert_eq!(empty.collect_guild_payloads(&mut sequence).map(|payloads| payloads.len()), Some(0));
    assert_eq!(sequence, usize::MAX);
}
