use vector::account::{
    change_field, is_status, login, npub_of, published_status, status_draft, Lookup, Published,
};
use vector::chat::{ChatState, Metadata, Profile, Status};
use vector::hex::{bytes_to_hex_string, event_id_from_hex};
use vector::relays::{
    inbox_query, inbox_subscription, is_gift_wrap, relays, status_query, TRUSTED_RELAY,
};

const KEY: &str = "17162c921dc4d2518f9a101db33695df1afb56ab82f5ff3e5da6eec3ca5cd917";
const NPUB: &str = "npub1zutzeysacnf9rru6zqwmxd54mud0k44tst6l70ja5mhv8jjumytsd2x7nu";
const PHRASE: &str =
    "leader monkey parrot ring guide accident before fence cannon height naive bean";
const SECRET: &str = "7f7ff03d123792d6ac594bfa67bf6d0c0ab55b6b1fdb6249303fe861f1ccba9a";
const NSEC: &str = "nsec10allq0gjx7fddtzef0ax00mdps9t2kmtrldkyjfs8l5xruwvh2dq0lhhkp";

fn key() -> [u8; 32] {
    event_id_from_hex(KEY).unwrap()
}

fn state_with(name: &str, avatar: &str) -> ChatState {
    let mut state = ChatState::new();
    state.add_self(NPUB.to_string());
    state.profiles[0].name = name.to_string();
    state.profiles[0].avatar = avatar.to_string();
    state.acknowledge_state_change();
    state
}

#[test]
fn a_seed_phrase_gives_an_account() {
    let account = login(PHRASE.to_string()).unwrap();
    assert_eq!(bytes_to_hex_string(&account.keys.secret), SECRET);
    assert_eq!(bytes_to_hex_string(&account.keys.public), KEY);
    assert_eq!(account.pair.public, NPUB);
    assert_eq!(account.pair.private, NSEC);
}

#[test]
fn a_secret_key_gives_the_same_account() {
    let account = login(NSEC.to_string()).unwrap();
    assert_eq!(bytes_to_hex_string(&account.keys.secret), SECRET);
    assert_eq!(bytes_to_hex_string(&account.keys.public), KEY);
    assert_eq!(account.pair.public, NPUB);
    assert_eq!(account.pair.private, NSEC);
}

#[test]
fn other_texts_give_no_account() {
    assert!(login("nsec1nothing".to_string()).is_none());
    assert!(login("not a seed phrase".to_string()).is_none());
    assert!(login(SECRET.to_string()).is_none());
    assert!(login("".to_string()).is_none());
}

#[test]
fn the_account_gets_a_profile() {
    let mut state = ChatState::new();
    state.acknowledge_state_change();
    state.add_self(NPUB.to_string());
    assert_eq!(state.profiles.len(), 1);
    assert_eq!(state.profiles[0].id, NPUB);
    assert!(state.profiles[0].mine);
    assert!(!state.has_state_changed());
}

#[test]
fn keys_are_written_as_npub() {
    assert_eq!(npub_of(&key()), NPUB);
}

#[test]
fn an_unknown_profile_is_made_and_stale() {
    let mut state = ChatState::new();
    state.acknowledge_state_change();
    match state.load_profile(NPUB.to_string(), 1700000000).unwrap() {
        Lookup::Stale(stale) => {
            assert_eq!(stale.key, key());
            assert_eq!(stale.profile.id, NPUB);
            assert_eq!(stale.profile.name, "");
        }
        Lookup::Fresh(_) => panic!("nothing was fetched"),
    }
    assert_eq!(state.profiles.len(), 1);
    assert_eq!(state.profiles[0].id, NPUB);
    assert!(!state.has_state_changed());
    state.load_profile(NPUB.to_string(), 1700000000).unwrap();
    assert_eq!(state.profiles.len(), 1);
}

#[test]
fn a_text_that_is_no_key_has_no_profile() {
    let mut state = ChatState::new();
    assert!(state.load_profile("npub1nothing".to_string(), 1).is_none());
    assert!(state.load_profile(KEY.to_string(), 1).is_none());
    assert!(state.load_profile(NSEC.to_string(), 1).is_none());
    assert!(state.profiles.is_empty());
}

#[test]
fn a_fetched_profile_is_served_for_half_a_minute() {
    let mut state = ChatState::new();
    let stale = match state.load_profile(NPUB.to_string(), 1000).unwrap() {
        Lookup::Stale(stale) => stale,
        Lookup::Fresh(_) => panic!("nothing was fetched"),
    };
    state.acknowledge_state_change();
    let status = Status {
        title: "busy".to_string(),
        purpose: "general".to_string(),
        url: "".to_string(),
    };
    let meta = Metadata { name: Some("Ada".to_string()), picture: None };
    let profile = state.finish_load(stale, &key(), status, Some(meta), 1001);
    assert_eq!(profile.id, NPUB);
    assert_eq!(profile.name, "Ada");
    assert_eq!(profile.status.title, "busy");
    assert_eq!(profile.last_updated, 1001);
    assert!(profile.mine);
    assert!(state.has_state_changed());
    for now in [1001, 1030, 900] {
        match state.load_profile(NPUB.to_string(), now).unwrap() {
            Lookup::Fresh(profile) => assert_eq!(profile.name, "Ada"),
            Lookup::Stale(_) => panic!("it was just fetched"),
        }
    }
    assert!(matches!(state.load_profile(NPUB.to_string(), 1031), Some(Lookup::Stale(_))));
}

#[test]
fn without_metadata_a_profile_stays_as_it_was() {
    let mut state = ChatState::new();
    let stale = match state.load_profile(NPUB.to_string(), 1000).unwrap() {
        Lookup::Stale(stale) => stale,
        Lookup::Fresh(_) => panic!("nothing was fetched"),
    };
    state.acknowledge_state_change();
    let status = Status {
        title: "busy".to_string(),
        purpose: "general".to_string(),
        url: "".to_string(),
    };
    let profile = state.finish_load(stale, &[7; 32], status, None, 1001);
    assert_eq!(profile.id, NPUB);
    assert_eq!(profile.status.title, "");
    assert_eq!(state.profiles[0].last_updated, 0);
    assert_eq!(state.profiles[0].status.title, "");
    assert!(!state.has_state_changed());
}

#[test]
fn a_profile_of_someone_else_is_not_mine() {
    let mut state = ChatState::new();
    let lookup = state.look_up("someone".to_string(), [9; 32], 1000);
    let stale = match lookup {
        Lookup::Stale(stale) => stale,
        Lookup::Fresh(_) => panic!("nothing was fetched"),
    };
    let meta = Metadata { name: None, picture: Some("https://a.b/c".to_string()) };
    let profile = state.finish_load(stale, &[8; 32], Status::new(), Some(meta), 5);
    assert!(!profile.mine);
    assert_eq!(profile.avatar, "https://a.b/c");
    assert_eq!(state.profiles[0].avatar, "https://a.b/c");
}

#[test]
fn the_first_tag_tells_the_purpose_of_a_status() {
    let event = Published {
        content: "At work".to_string(),
        tags: vec![
            vec!["d".to_string(), "general".to_string()],
            vec!["r".to_string(), "https://example.com".to_string()],
        ],
    };
    assert!(is_status(&event));
    let status = published_status(Some(event));
    assert_eq!(status.title, "At work");
    assert_eq!(status.purpose, "general");
    assert_eq!(status.url, "");
    let none = published_status(None);
    assert_eq!(none.title, "");
    assert_eq!(none.purpose, "");
    assert!(!is_status(&Published { content: "x".to_string(), tags: vec![] }));
    assert!(!is_status(&Published {
        content: "x".to_string(),
        tags: vec![vec!["d".to_string()]],
    }));
}

#[test]
fn an_update_replaces_name_and_avatar() {
    let mut state = state_with("Old", "");
    let update = state
        .update_profile(&key(), "New".to_string(), "HTTPS://Example.com/a b".to_string())
        .unwrap();
    assert_eq!(update.meta.name, Some("New".to_string()));
    assert_eq!(update.meta.picture, Some("https://example.com/a%20b".to_string()));
    let before = state.finish_update(update, true).unwrap();
    assert_eq!(before.name, "Old");
    assert_eq!(before.avatar, "");
    assert_eq!(state.profiles[0].name, "New");
    assert_eq!(state.profiles[0].avatar, "https://example.com/a%20b");
    assert!(state.has_state_changed());
}

#[test]
fn blank_fields_of_an_update_stay() {
    let state = state_with("Old", "https://example.com/a");
    let update = state.update_profile(&key(), "".to_string(), "".to_string()).unwrap();
    assert_eq!(update.meta.name, Some("Old".to_string()));
    assert_eq!(update.meta.picture, Some("https://example.com/a".to_string()));
    let state = state_with("Old", "");
    let update = state.update_profile(&key(), "".to_string(), "".to_string()).unwrap();
    assert_eq!(update.meta.picture, None);
    assert_eq!(change_field(&"a".to_string(), "".to_string()), "a");
    assert_eq!(change_field(&"a".to_string(), "b".to_string()), "b");
}

#[test]
fn an_update_needs_a_profile_and_a_url() {
    let state = state_with("Old", "");
    assert!(state.update_profile(&key(), "New".to_string(), "no url".to_string()).is_none());
    assert!(state.update_profile(&[1; 32], "New".to_string(), "".to_string()).is_none());
}

#[test]
fn an_update_that_was_not_published_is_dropped() {
    let mut state = state_with("Old", "");
    let update = state.update_profile(&key(), "New".to_string(), "".to_string()).unwrap();
    assert!(state.finish_update(update, false).is_err());
    assert_eq!(state.profiles[0].name, "Old");
    assert!(!state.has_state_changed());
}

#[test]
fn a_status_is_published_and_taken_over() {
    let draft = status_draft("At work".to_string());
    assert_eq!(draft.kind, 30315);
    assert_eq!(draft.content, "At work");
    assert_eq!(draft.tags, vec![vec!["d".to_string(), "general".to_string()]]);
    let mut state = state_with("Ada", "");
    state.profiles[0].status.url = "kept".to_string();
    let profile =
        state.update_status(NPUB.to_string(), "At work".to_string(), true).unwrap();
    assert_eq!(profile.name, "Ada");
    assert_eq!(profile.status.title, "At work");
    assert_eq!(profile.status.purpose, "general");
    assert_eq!(profile.status.url, "kept");
    assert_eq!(state.profiles[0].status.title, "At work");
    assert!(!state.has_state_changed());
    assert!(state.update_status(NPUB.to_string(), "Away".to_string(), false).is_err());
    assert_eq!(state.profiles[0].status.title, "At work");
}

#[test]
fn relays_are_asked_for_the_right_events() {
    let inbox = inbox_query(&key());
    assert_eq!(inbox.receiver, Some(key()));
    assert_eq!(inbox.author, None);
    assert_eq!(inbox.kind, 1059);
    assert_eq!(inbox.limit, None);
    let live = inbox_subscription(&key());
    assert_eq!(live.receiver, Some(key()));
    assert_eq!(live.kind, 1059);
    assert_eq!(live.limit, Some(0));
    let status = status_query(&key());
    assert_eq!(status.author, Some(key()));
    assert_eq!(status.receiver, None);
    assert_eq!(status.kind, 30315);
    assert_eq!(status.limit, Some(1));
    assert!(is_gift_wrap(1059));
    assert!(!is_gift_wrap(14));
}

#[test]
fn the_trusted_relay_comes_first() {
    assert_eq!(TRUSTED_RELAY, "wss://jskitty.cat/nostr");
    assert_eq!(
        relays(),
        vec![
            "wss://jskitty.cat/nostr",
            "wss://relay.0xchat.com",
            "wss://auth.nostr1.com",
            "wss://relay.damus.io",
        ]
    );
}

#[test]
fn a_second_profile_with_an_id_is_not_found() {
    let mut state = state_with("First", "");
    let mut second = Profile::new();
    second.id = NPUB.to_string();
    second.name = "Second".to_string();
    state.profiles.push(second);
    assert_eq!(state.get_profile(NPUB.to_string()).unwrap().name, "First");
    state.get_profile_mut(NPUB.to_string()).unwrap().name = "Changed".to_string();
    assert_eq!(state.profiles[0].name, "Changed");
    assert_eq!(state.profiles[1].name, "Second");
}
