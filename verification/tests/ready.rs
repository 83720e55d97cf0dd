use gateway_proxy::replay::ready_payload;
use gateway_proxy::store::Guilds;
use gateway_proxy::unavailable::{
    change_for, changes_for, GuildChange, GuildNotice, NoticeKind, UnavailableGuilds,
};
use twilight_model::gateway::event::Event;
use twilight_model::gateway::payload::incoming::{GuildCreate, GuildDelete, Ready, UnavailableGuild};
use twilight_model::guild::Guild;
use twilight_model::id::Id;

/// A store and, beside it, the record of unavailable guilds, fed together.
struct Feed {
    store: Guilds,
    record: UnavailableGuilds,
}

impl Feed {
    fn new() -> Feed {
        Feed { store: Guilds::new(u64::MAX), record: UnavailableGuilds::new() }
    }

    fn update(&mut self, event: &Event) {
        assert!(self.store.try_update(event));
        self.record.track(event);
    }

    fn load(&mut self, id: u64) {
        let json = format!(
            r#"{{"id":"{}","name":"guild","afk_timeout":300,"default_message_notifications":0,"explicit_content_filter":0,"features":[],"mfa_level":0,"nsfw_level":0,"owner_id":"1","preferred_locale":"en-US","roles":[],"emojis":[],"system_channel_flags":0,"premium_progress_bar_enabled":false,"verification_level":0}}"#,
            id
        );
        let guild: Guild = serde_json::from_str(&json).expect("guild json");
        self.update(&Event::GuildCreate(Box::new(GuildCreate::Available(guild))));
    }

    fn announce(&mut self, id: u64) {
        let guild = twilight_model::guild::UnavailableGuild { id: Id::new(id), unavailable: true };
        self.update(&Event::GuildCreate(Box::new(GuildCreate::Unavailable(guild))));
    }

    fn goes_out(&mut self, id: u64) {
        self.update(&Event::UnavailableGuild(UnavailableGuild { id: Id::new(id) }));
    }

    fn upstream_ready(&mut self, ids: &[u64]) {
        let guilds: Vec<String> =
            ids.iter().map(|id| format!(r#"{{"id":"{}","unavailable":true}}"#, id)).collect();
        let json = format!(
            r#"{{"application":{{"flags":0,"id":"1"}},"guilds":[{}],"resume_gateway_url":"wss://gateway.example","session_id":"session","user":{{"id":"9","username":"proxy","discriminator":"0001","avatar":null,"bot":true,"mfa_enabled":false}},"v":10}}"#,
            guilds.join(",")
        );
        let ready: Ready = serde_json::from_str(&json).expect("ready json");
        self.update(&Event::Ready(Box::new(ready)));
    }

    fn ready_list(&self) -> Vec<serde_json::Value> {
        let mut sequence = 0usize;
        let payload =
            self.store.get_ready_payload(serde_json::Map::new(), self.record.ids(), &mut sequence);
        assert_eq!(sequence, 1);
        assert_eq!(payload.s, 1);
        assert_eq!(payload.t, "READY");
        payload.d.get("guilds").and_then(|value| value.as_array()).expect("guilds").clone()
    }

    fn ready_ids(&self) -> Vec<u64> {
        self.ready_list()
            .iter()
            .map(|stub| {
                assert_eq!(stub.get("unavailable"), Some(&serde_json::Value::Bool(true)));
                assert_eq!(stub.as_object().map(|object| object.len()), Some(2));
                let text = stub.get("id").and_then(|id| id.as_str()).expect("id");
                text.parse::<u64>().expect("decimal id")
            })
            .collect()
    }

    fn agrees_with_the_store_s_count(&self) -> bool {
        self.record.ids().len() == self.store.stats().unavailable_guilds
    }
}

fn sorted(mut ids: Vec<u64>) -> Vec<u64> {
    ids.sort();
    ids
}

#[test]
fn announced_guild_that_was_never_loaded_is_listed() {
    let mut feed = Feed::new();
    feed.announce(7);
    assert_eq!(feed.store.stats().guilds, 0);
    assert_eq!(feed.store.stats().unavailable_guilds, 1);
    assert_eq!(feed.record.ids(), &vec![7]);
    let list = feed.ready_list();
    assert_eq!(list.len(), 1);
    assert_eq!(list[0].to_string(), r#"{"id":"7","unavailable":true}"#);
    assert!(!feed.store.get_guild_payloads().has_next());
}

#[test]
fn guild_that_went_out_without_being_loaded_is_listed() {
    let mut feed = Feed::new();
    feed.goes_out(8);
    assert_eq!(feed.ready_ids(), vec![8]);
    assert!(feed.agrees_with_the_store_s_count());
}

#[test]
fn upstream_ready_announces_its_guilds() {
    let mut feed = Feed::new();
    feed.upstream_ready(&[5, 6, 4]);
    assert_eq!(feed.record.ids(), &vec![5, 6, 4]);
    assert_eq!(feed.ready_ids(), vec![5, 6, 4]);
    assert!(feed.agrees_with_the_store_s_count());
    feed.load(6);
    assert_eq!(feed.record.ids(), &vec![5, 4]);
    assert_eq!(feed.ready_ids(), vec![6, 5, 4]);
    assert!(feed.agrees_with_the_store_s_count());
    feed.load(5);
    feed.load(4);
    assert!(feed.record.ids().is_empty());
    assert_eq!(sorted(feed.ready_ids()), vec![4, 5, 6]);
    assert!(feed.agrees_with_the_store_s_count());
}

#[test]
fn ready_payload_lists_every_guild_as_unavailable() {
    let mut feed = Feed::new();
    feed.load(100);
    feed.load(200);
    feed.goes_out(200);
    let mut base = serde_json::Map::new();
    base.insert("v".to_owned(), serde_json::Value::from(10));
    base.insert("session_id".to_owned(), serde_json::Value::from("abc"));
    let mut sequence = 0usize;
    let payload = feed.store.get_ready_payload(base, feed.record.ids(), &mut sequence);
    assert_eq!(payload.t, "READY");
    assert_eq!(payload.op, 0);
    assert_eq!(payload.s, 1);
    assert_eq!(sequence, 1);
    let expected: serde_json::Value = serde_json::from_str(
        r#"{"v":10,"session_id":"abc","guilds":[{"id":"100","unavailable":true},{"id":"200","unavailable":true}]}"#,
    )
    .unwrap();
    assert_eq!(serde_json::Value::Object(payload.d), expected);
}

#[test]
fn ready_payload_puts_loaded_guilds_first() {
    let mut feed = Feed::new();
    for id in [1u64, 2, 3, 4] {
        feed.load(id);
    }
    feed.goes_out(1);
    feed.goes_out(3);
    feed.announce(9);
    let ids = feed.ready_ids();
    assert_eq!(ids.len(), 5);
    assert_eq!(sorted(ids[..2].to_vec()), vec![2, 4]);
    assert_eq!(ids[2..].to_vec(), vec![1, 3, 9]);
}

#[test]
fn ready_payload_lists_each_known_guild_once() {
    let mut feed = Feed::new();
    feed.upstream_ready(&[1, 2, 3]);
    feed.load(1);
    feed.load(2);
    feed.goes_out(2);
    feed.goes_out(2);
    feed.announce(3);
    feed.load(4);
    assert_eq!(sorted(feed.ready_ids()), vec![1, 2, 3, 4]);
    assert!(feed.agrees_with_the_store_s_count());
    feed.load(2);
    assert_eq!(sorted(feed.ready_ids()), vec![1, 2, 3, 4]);
    assert_eq!(feed.record.ids(), &vec![3]);
    assert!(feed.agrees_with_the_store_s_count());
}

#[test]
fn ready_payload_replaces_an_earlier_guild_list() {
    let store = Guilds::new(u64::MAX);
    let mut base = serde_json::Map::new();
    base.insert("guilds".to_owned(), serde_json::Value::from("stale"));
    let mut sequence = 7usize;
    let payload = store.get_ready_payload(base, &Vec::new(), &mut sequence);
    assert_eq!(payload.d.get("guilds"), Some(&serde_json::Value::Array(Vec::new())));
    assert_eq!(payload.d.len(), 1);
    assert_eq!(payload.s, 8);
}

#[test]
fn ready_payload_is_built_from_the_walk_and_the_record() {
    let mut sequence = 3usize;
    let payload = ready_payload(serde_json::Map::new(), &Vec::new(), &vec![30, 10, 20], &mut sequence);
    assert_eq!(sequence, 4);
    assert_eq!(payload.s, 4);
    assert_eq!(
        serde_json::Value::Object(payload.d).to_string(),
        r#"{"guilds":[{"id":"30","unavailable":true},{"id":"10","unavailable":true},{"id":"20","unavailable":true}]}"#
    );
}

#[test]
fn removed_guild_leaves_the_record_alone() {
    let mut feed = Feed::new();
    feed.load(1);
    feed.announce(2);
    feed.update(&Event::GuildDelete(GuildDelete { id: Id::new(1), unavailable: None }));
    assert_eq!(feed.ready_ids(), vec![2]);
    assert!(feed.agrees_with_the_store_s_count());
}

#[test]
fn record_enters_a_guild_once_and_keeps_the_order() {
    let mut record = UnavailableGuilds::new();
    assert!(record.ids().is_empty());
    assert!(!record.contains(5));
    record.apply(GuildChange::Announced(5));
    record.apply(GuildChange::Announced(3));
    record.apply(GuildChange::Announced(5));
    record.apply(GuildChange::Announced(8));
    assert_eq!(record.ids(), &vec![5, 3, 8]);
    assert!(record.contains(3));
    record.apply(GuildChange::Loaded(3));
    assert_eq!(record.ids(), &vec![5, 8]);
    assert!(!record.contains(3));
    record.apply(GuildChange::Loaded(3));
    record.apply(GuildChange::Loaded(77));
    assert_eq!(record.ids(), &vec![5, 8]);
    record.apply_all(&vec![
        GuildChange::Loaded(5),
        GuildChange::Announced(1),
        GuildChange::Announced(5),
        GuildChange::Loaded(8),
    ]);
    assert_eq!(record.ids(), &vec![1, 5]);
    record.apply_all(&Vec::new());
    assert_eq!(record.ids(), &vec![1, 5]);
}

#[test]
fn record_ignores_events_that_say_nothing_of_availability() {
    let mut record = UnavailableGuilds::new();
    record.apply(GuildChange::Announced(4));
    record.track(&Event::GuildDelete(GuildDelete { id: Id::new(4), unavailable: Some(true) }));
    record.track(&Event::GatewayHeartbeatAck);
    assert_eq!(record.ids(), &vec![4]);
}

#[test]
fn each_kind_of_event_calls_for_its_change() {
    assert_eq!(change_for(NoticeKind::SessionReady, 4), Some(GuildChange::Announced(4)));
    assert_eq!(change_for(NoticeKind::WentOut, 4), Some(GuildChange::Announced(4)));
    assert_eq!(change_for(NoticeKind::CreatedUnavailable, 4), Some(GuildChange::Announced(4)));
    assert_eq!(change_for(NoticeKind::CreatedAvailable, 4), Some(GuildChange::Loaded(4)));
    assert_eq!(change_for(NoticeKind::Other, 4), None);
    let ready = GuildNotice { kind: NoticeKind::SessionReady, guild_ids: vec![3, 1, 2] };
    assert_eq!(
        changes_for(&ready),
        vec![GuildChange::Announced(3), GuildChange::Announced(1), GuildChange::Announced(2)]
    );
    let other = GuildNotice { kind: NoticeKind::Other, guild_ids: vec![3, 1, 2] };
    assert!(changes_for(&other).is_empty());
    let none = GuildNotice { kind: NoticeKind::CreatedAvailable, guild_ids: Vec::new() };
    assert!(changes_for(&none).is_empty());
}

#[test]
fn record_follows_notices() {
    let mut record = UnavailableGuilds::new();
    record.note(&GuildNotice { kind: NoticeKind::SessionReady, guild_ids: vec![1, 2, 3, 2] });
    assert_eq!(record.ids(), &vec![1, 2, 3]);
    record.note(&GuildNotice { kind: NoticeKind::CreatedAvailable, guild_ids: vec![2] });
    assert_eq!(record.ids(), &vec![1, 3]);
    record.note(&GuildNotice { kind: NoticeKind::Other, guild_ids: vec![1, 3, 9] });
    assert_eq!(record.ids(), &vec![1, 3]);
    record.note(&GuildNotice { kind: NoticeKind::WentOut, guild_ids: vec![2] });
    record.note(&GuildNotice { kind: NoticeKind::CreatedUnavailable, guild_ids: vec![7] });
    assert_eq!(record.ids(), &vec![1, 3, 2, 7]);
}
