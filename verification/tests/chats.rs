use vector::chat::{ChatState, Metadata, Profile, Status};
use vector::timeline::{sort_by_time, Message, Reaction};

fn message(id: &str, at: u64, mine: bool) -> Message {
    Message {
        id: id.to_string(),
        content: format!("content of {}", id),
        reactions: Vec::new(),
        at,
        pending: false,
        failed: false,
        mine,
    }
}

fn reaction(id: &str, emoji: &str) -> Reaction {
    Reaction {
        id: id.to_string(),
        reference_id: "m".to_string(),
        author_id: "author".to_string(),
        emoji: emoji.to_string(),
    }
}

fn ids(messages: &[Message]) -> Vec<&str> {
    messages.iter().map(|m| m.id.as_str()).collect()
}

#[test]
fn a_new_profile_is_empty() {
    let profile = Profile::new();
    assert_eq!(profile.id, "");
    assert_eq!(profile.name, "");
    assert_eq!(profile.avatar, "");
    assert!(profile.messages.is_empty());
    assert_eq!(profile.status.title, "");
    assert_eq!(profile.status.purpose, "");
    assert_eq!(profile.status.url, "");
    assert_eq!(profile.last_updated, 0);
    assert_eq!(profile.typing_until, 0);
    assert!(!profile.mine);
}

#[test]
fn a_new_state_is_yet_to_be_shown() {
    let state = ChatState::new();
    assert!(state.profiles.is_empty());
    assert!(state.has_state_changed());
}

#[test]
fn acknowledging_clears_the_mark_alone() {
    let mut state = ChatState::new();
    state.add_message("a".to_string(), message("m", 1, true));
    state.acknowledge_state_change();
    assert!(!state.has_state_changed());
    assert_eq!(state.profiles.len(), 1);
    state.add_message("a".to_string(), message("n", 2, true));
    assert!(state.has_state_changed());
}

#[test]
fn messages_are_sorted_by_time() {
    let mut messages =
        vec![message("c", 30, true), message("a", 10, true), message("b", 20, true)];
    sort_by_time(&mut messages);
    assert_eq!(ids(&messages), vec!["a", "b", "c"]);
}

#[test]
fn messages_of_one_time_keep_their_order() {
    let mut messages = vec![
        message("x", 5, true),
        message("c", 9, true),
        message("y", 5, true),
        message("d", 1, true),
        message("z", 5, true),
    ];
    sort_by_time(&mut messages);
    assert_eq!(ids(&messages), vec!["d", "x", "y", "z", "c"]);
}

#[test]
fn sorted_messages_stay_as_they_are() {
    let mut messages = vec![message("a", 1, true), message("b", 1, true), message("c", 2, true)];
    sort_by_time(&mut messages);
    assert_eq!(ids(&messages), vec!["a", "b", "c"]);
}

#[test]
fn a_message_makes_a_profile() {
    let mut state = ChatState::new();
    state.add_message("npub1x".to_string(), message("m", 3, false));
    assert_eq!(state.profiles.len(), 1);
    let profile = state.get_profile("npub1x".to_string()).unwrap();
    assert_eq!(profile.id, "npub1x");
    assert_eq!(profile.name, "");
    assert!(!profile.mine);
    assert_eq!(profile.messages[0].content, "content of m");
    assert!(state.has_message(&"npub1x".to_string(), &"m".to_string()));
    assert!(!state.has_message(&"npub1x".to_string(), &"n".to_string()));
    assert!(!state.has_message(&"npub1y".to_string(), &"m".to_string()));
}

#[test]
fn a_message_is_added_once() {
    let mut state = ChatState::new();
    state.add_message("a".to_string(), message("m", 3, false));
    let mut again = message("m", 9, true);
    again.content = "another".to_string();
    state.add_message("a".to_string(), again);
    assert_eq!(state.profiles[0].messages.len(), 1);
    assert_eq!(state.profiles[0].messages[0].content, "content of m");
    assert_eq!(state.profiles[0].messages[0].at, 3);
}

#[test]
fn a_known_message_still_marks_the_state() {
    let mut state = ChatState::new();
    state.add_message("a".to_string(), message("m", 3, false));
    state.acknowledge_state_change();
    state.add_message("a".to_string(), message("m", 3, false));
    assert!(state.has_state_changed());
}

#[test]
fn the_order_of_arrival_is_lost() {
    let mut one = ChatState::new();
    let mut other = ChatState::new();
    one.add_message("a".to_string(), message("m", 3, false));
    one.add_message("a".to_string(), message("n", 2, true));
    other.add_message("a".to_string(), message("n", 2, true));
    other.add_message("a".to_string(), message("m", 3, false));
    assert_eq!(ids(&one.profiles[0].messages), vec!["n", "m"]);
    assert_eq!(ids(&other.profiles[0].messages), vec!["n", "m"]);
}

#[test]
fn other_chats_stay_as_they_are() {
    let mut state = ChatState::new();
    state.add_message("a".to_string(), message("m", 3, false));
    state.add_message("b".to_string(), message("m", 4, false));
    assert_eq!(state.profiles.len(), 2);
    assert_eq!(state.get_profile("a".to_string()).unwrap().messages[0].at, 3);
    assert_eq!(state.get_profile("b".to_string()).unwrap().messages[0].at, 4);
    assert!(state.get_profile("c".to_string()).is_err());
}

#[test]
fn their_message_ends_their_typing() {
    let mut profile = Profile::new();
    profile.typing_until = 100;
    profile.internal_add_message(message("mine", 1, true));
    assert_eq!(profile.typing_until, 100);
    profile.internal_add_message(message("theirs", 2, false));
    assert_eq!(profile.typing_until, 0);
    profile.typing_until = 200;
    profile.internal_add_message(message("theirs", 2, false));
    assert_eq!(profile.typing_until, 200);
}

#[test]
fn a_message_can_be_found_and_changed() {
    let mut profile = Profile::new();
    profile.internal_add_message(message("m", 1, true));
    profile.internal_add_message(message("n", 2, true));
    profile.get_message_mut("n".to_string()).unwrap().failed = true;
    assert!(!profile.messages[0].failed);
    assert!(profile.messages[1].failed);
    assert!(profile.get_message_mut("o".to_string()).is_err());
}

#[test]
fn metadata_replace_what_they_give() {
    let mut profile = Profile::new();
    profile.from_metadata(Metadata {
        name: Some("Ada".to_string()),
        picture: Some("https://example.com/a.png".to_string()),
    });
    assert_eq!(profile.name, "Ada");
    assert_eq!(profile.avatar, "https://example.com/a.png");
    profile.from_metadata(Metadata { name: None, picture: None });
    assert_eq!(profile.name, "Ada");
    assert_eq!(profile.avatar, "https://example.com/a.png");
    profile.from_metadata(Metadata { name: Some("".to_string()), picture: None });
    assert_eq!(profile.name, "");
}

#[test]
fn a_reaction_is_shown_once() {
    let mut state = ChatState::new();
    state.add_message("a".to_string(), message("m", 1, true));
    state.add_message("a".to_string(), message("n", 2, true));
    state.acknowledge_state_change();
    assert!(state.add_reaction("a".to_string(), "m".to_string(), reaction("r", "+")));
    assert!(state.has_state_changed());
    assert!(state.add_reaction("a".to_string(), "m".to_string(), reaction("r", "-")));
    assert!(state.add_reaction("a".to_string(), "m".to_string(), reaction("s", "-")));
    let messages = &state.profiles[0].messages;
    assert_eq!(messages[0].reactions.len(), 2);
    assert_eq!(messages[0].reactions[0].emoji, "+");
    assert_eq!(messages[0].reactions[1].id, "s");
    assert!(messages[1].reactions.is_empty());
}

#[test]
fn a_reaction_to_nothing_changes_nothing() {
    let mut state = ChatState::new();
    state.add_message("a".to_string(), message("m", 1, true));
    state.acknowledge_state_change();
    assert!(!state.add_reaction("a".to_string(), "n".to_string(), reaction("r", "+")));
    assert!(!state.add_reaction("b".to_string(), "m".to_string(), reaction("r", "+")));
    assert!(!state.has_state_changed());
    assert_eq!(state.profiles.len(), 1);
    assert!(state.profiles[0].messages[0].reactions.is_empty());
}

#[test]
fn all_profiles_are_given_as_they_are() {
    let mut state = ChatState::new();
    state.add_message("a".to_string(), message("m", 1, true));
    state.add_message("b".to_string(), message("n", 2, true));
    let profiles = state.fetch_profiles();
    state.add_message("a".to_string(), message("o", 3, true));
    assert_eq!(profiles.len(), 2);
    assert_eq!(profiles[0].id, "a");
    assert_eq!(profiles[0].messages.len(), 1);
    assert_eq!(profiles[1].messages[0].content, "content of n");
}

#[test]
fn a_copy_of_a_profile_holds_the_same() {
    let mut profile = Profile::new();
    profile.id = "a".to_string();
    profile.status = Status {
        title: "t".to_string(),
        purpose: "p".to_string(),
        url: "u".to_string(),
    };
    profile.internal_add_message(message("m", 1, true));
    assert!(profile.internal_add_reaction("m".to_string(), reaction("r", "+")));
    assert!(!profile.internal_add_reaction("n".to_string(), reaction("r", "+")));
    let copy = profile.clone();
    assert_eq!(copy.id, "a");
    assert_eq!(copy.status.title, "t");
    assert_eq!(copy.status.purpose, "p");
    assert_eq!(copy.status.url, "u");
    assert_eq!(copy.messages[0].reactions[0].reference_id, "m");
    assert_eq!(copy.messages[0].reactions[0].author_id, "author");
}
