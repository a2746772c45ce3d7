use vector::account::npub_of;
use vector::chat::{ChatState, Profile};
use vector::hex::{bytes_to_hex_string, event_id_from_hex};
use vector::incoming::{contact_of, same_key, trace, Origin, Reception};
use vector::nostr::Rumor;
use vector::outgoing::{direct_message, reaction, start_typing, Delivery};
use vector::timeline::Message;

const ANN: &str = "7e7e9c42a91bfef19fa929e5fda1b72e0ebc1a4c1141673e2794234d86addf4e";
const ANN_NPUB: &str = "npub10elfcs4fr0l0r8af98jlmgdh9c8tcxjvz9qkw038js35mp4dma8qzvjptg";
const BOB: &str = "17162c921dc4d2518f9a101db33695df1afb56ab82f5ff3e5da6eec3ca5cd917";
const BOB_NPUB: &str = "npub1zutzeysacnf9rru6zqwmxd54mud0k44tst6l70ja5mhv8jjumytsd2x7nu";
const NOW: u64 = 1700000000;

fn key(hex: &str) -> [u8; 32] {
    event_id_from_hex(hex).unwrap()
}

fn tags(tags: &[&[&str]]) -> Vec<Vec<String>> {
    tags.iter().map(|tag| tag.iter().map(|part| part.to_string()).collect()).collect()
}

fn rumor(kind: u16, tag_list: &[&[&str]], content: &str) -> Rumor {
    Rumor {
        id: Some([0xab; 32]),
        author: key(ANN),
        created_at: NOW,
        kind,
        tags: tags(tag_list),
        content: content.to_string(),
    }
}

fn knowing(npub: &str, name: &str) -> ChatState {
    let mut state = ChatState::new();
    let mut profile = Profile::new();
    profile.id = npub.to_string();
    profile.name = name.to_string();
    state.profiles.push(profile);
    state.acknowledge_state_change();
    state
}

fn origin(mine: bool, contact: &str) -> Origin {
    Origin {
        mine,
        contact: contact.to_string(),
        author: contact.to_string(),
        sender_id: "sender".to_string(),
    }
}

#[test]
fn a_direct_message_is_composed() {
    let sent = direct_message(BOB_NPUB, "hello".to_string(), &key(ANN), NOW).unwrap();
    assert_eq!(sent.to, key(BOB));
    assert_eq!(sent.rumor.kind, 14);
    assert_eq!(sent.rumor.author, key(ANN));
    assert_eq!(sent.rumor.created_at, NOW);
    assert_eq!(sent.rumor.content, "hello");
    assert_eq!(sent.rumor.tags, tags(&[&["p", BOB]]));
    assert_eq!(
        bytes_to_hex_string(&sent.rumor.id.unwrap()),
        "fede5fe803489c7fe905be292b038a17ee8b811fbf493b4b9dbd97c79a2a2b34"
    );
}

#[test]
fn a_note_to_self_tags_nobody() {
    let sent = direct_message(ANN_NPUB, "note".to_string(), &key(ANN), NOW).unwrap();
    assert_eq!(sent.to, key(ANN));
    assert!(sent.rumor.tags.is_empty());
    assert_eq!(
        bytes_to_hex_string(&sent.rumor.id.unwrap()),
        "72aeb52655209e5250b09e7c307f975772c21d59df376fe4f615ecdf91976e01"
    );
    let mut state = ChatState::new();
    state.handle_event(sent.rumor, &key(ANN), &key(ANN), true, NOW).unwrap();
    assert_eq!(state.profiles[0].id, ANN_NPUB);
    assert!(state.profiles[0].messages[0].mine);
}

#[test]
fn a_receiver_has_to_be_a_key() {
    assert!(direct_message("bob", "hello".to_string(), &key(ANN), NOW).is_none());
    assert!(start_typing("bob", &key(ANN), NOW).is_none());
    assert!(reaction(&"ab".repeat(32), "bob", "+".to_string(), &key(ANN), NOW).is_none());
    assert!(reaction("ab", BOB_NPUB, "+".to_string(), &key(ANN), NOW).is_none());
}

#[test]
fn a_reaction_is_composed() {
    let event = "ab".repeat(32);
    let sent = reaction(&event, BOB_NPUB, "+".to_string(), &key(ANN), NOW + 1).unwrap();
    assert_eq!(sent.to, key(BOB));
    assert_eq!(sent.rumor.kind, 7);
    assert_eq!(sent.rumor.content, "+");
    assert_eq!(sent.rumor.tags, tags(&[&["e", &event], &["p", BOB], &["k", "14"]]));
    assert_eq!(
        bytes_to_hex_string(&sent.rumor.id.unwrap()),
        "3194d548c5a084c27e5e40ff0d535721e542fb649cc685b3e5e2f1345c4de3fe"
    );
}

#[test]
fn a_typing_indicator_is_composed() {
    let typing = start_typing(BOB_NPUB, &key(ANN), NOW).unwrap();
    assert_eq!(typing.message.to, key(BOB));
    assert_eq!(typing.relay, "wss://jskitty.cat/nostr");
    assert_eq!(typing.expires_at, NOW + 3600);
    let rumor = typing.message.rumor;
    assert_eq!(rumor.kind, 30078);
    assert_eq!(rumor.content, "typing");
    assert_eq!(
        rumor.tags,
        tags(&[&["p", BOB], &["d", "vector"], &["expiration", "1700000030"]])
    );
    assert_eq!(
        bytes_to_hex_string(&rumor.id.unwrap()),
        "4016356836579a780b686ce4815040d99d5e04930d3da86aa77c3ca4821ec0ed"
    );
}

#[test]
fn a_direct_message_arrives_with_the_receiver() {
    let sent = direct_message(BOB_NPUB, "hello".to_string(), &key(ANN), NOW).unwrap();
    let mut bob = knowing(ANN_NPUB, "Ann");
    let res = bob.handle_event(sent.rumor, &key(ANN), &key(BOB), true, NOW + 5).unwrap();
    match res {
        Reception::Message(Some(notification)) => {
            assert_eq!(notification.title, "Ann");
            assert_eq!(notification.body, "hello");
        }
        _ => panic!("a notice is due"),
    }
    let message = &bob.profiles[0].messages[0];
    assert_eq!(
        message.id,
        "fede5fe803489c7fe905be292b038a17ee8b811fbf493b4b9dbd97c79a2a2b34"
    );
    assert_eq!(message.content, "hello");
    assert_eq!(message.at, NOW);
    assert!(!message.mine && !message.pending && !message.failed);
    assert!(bob.has_state_changed());
}

#[test]
fn a_sender_without_a_name_is_announced_plainly() {
    let sent = direct_message(BOB_NPUB, "hello".to_string(), &key(ANN), NOW).unwrap();
    let mut bob = knowing(ANN_NPUB, "");
    let res = bob.handle_event(sent.rumor, &key(ANN), &key(BOB), true, NOW).unwrap();
    match res {
        Reception::Message(Some(notification)) => {
            assert_eq!(notification.title, "New Message");
        }
        _ => panic!("a notice is due"),
    }
}

#[test]
fn a_new_message_of_a_stranger_is_not_taken_in() {
    let sent = direct_message(BOB_NPUB, "hello".to_string(), &key(ANN), NOW).unwrap();
    let mut bob = ChatState::new();
    assert!(bob.handle_event(sent.rumor, &key(ANN), &key(BOB), true, NOW).is_none());
    assert!(bob.profiles.is_empty());
}

#[test]
fn an_old_message_comes_without_a_notice() {
    let sent = direct_message(BOB_NPUB, "hello".to_string(), &key(ANN), NOW).unwrap();
    let mut bob = ChatState::new();
    let res = bob.handle_event(sent.rumor, &key(ANN), &key(BOB), false, NOW).unwrap();
    assert!(matches!(res, Reception::Message(None)));
    assert_eq!(bob.profiles[0].id, ANN_NPUB);
}

#[test]
fn a_message_without_an_id_is_not_taken_in() {
    let mut rumor = rumor(14, &[], "hello");
    rumor.id = None;
    let mut state = ChatState::new();
    assert!(state.handle_event(rumor, &key(ANN), &key(BOB), false, NOW).is_none());
    assert!(state.profiles.is_empty());
}

#[test]
fn a_message_is_sent_and_recovered_once() {
    let mut ann = ChatState::new();
    let id = ann.begin_message(BOB_NPUB.to_string(), "hello".to_string(), NOW);
    assert_eq!(id, "pending-0");
    let pending = &ann.profiles[0].messages[0];
    assert!(pending.pending && !pending.failed && pending.mine);
    assert_eq!(pending.at, NOW);
    let sent = direct_message(BOB_NPUB, "hello".to_string(), &key(ANN), NOW).unwrap();
    let delivery = Delivery::ToReceiver.advance(true);
    assert_eq!(delivery, Delivery::ToSelf);
    let rumor_id = sent.rumor.id.unwrap();
    assert!(ann.settle_message(BOB_NPUB.to_string(), id, delivery.advance(true), &rumor_id));
    let message = &ann.profiles[0].messages[0];
    assert_eq!(message.id, bytes_to_hex_string(&rumor_id));
    assert!(!message.pending && !message.failed);
    let res = ann.handle_event(sent.rumor, &key(ANN), &key(ANN), true, NOW).unwrap();
    assert!(matches!(res, Reception::Message(None)));
    assert_eq!(ann.profiles.len(), 1);
    assert_eq!(ann.profiles[0].messages.len(), 1);
}

#[test]
fn a_message_counts_as_sent_if_it_reached_the_receiver() {
    assert_eq!(Delivery::ToReceiver.advance(true).advance(false), Delivery::Sent);
    assert_eq!(Delivery::ToReceiver.advance(true).advance(true), Delivery::Sent);
    assert_eq!(Delivery::ToReceiver.advance(false), Delivery::Failed);
    assert_eq!(Delivery::Failed.advance(true), Delivery::Failed);
    assert_eq!(Delivery::Sent.advance(false), Delivery::Sent);
}

#[test]
fn a_message_that_cannot_be_sent_is_marked() {
    let mut ann = ChatState::new();
    let id = ann.begin_message(BOB_NPUB.to_string(), "hello".to_string(), NOW);
    ann.acknowledge_state_change();
    assert!(!ann.settle_message(BOB_NPUB.to_string(), id, Delivery::Failed, &[0; 32]));
    let message = &ann.profiles[0].messages[0];
    assert_eq!(message.id, "pending-0");
    assert!(message.pending && message.failed);
    assert!(ann.has_state_changed());
}

#[test]
fn pending_messages_are_numbered() {
    let mut ann = ChatState::new();
    for n in 0..12 {
        let id = ann.begin_message(BOB_NPUB.to_string(), format!("{}", n), NOW + n);
        assert_eq!(id, format!("pending-{}", n));
    }
    assert_eq!(ann.begin_message(ANN_NPUB.to_string(), "x".to_string(), NOW), "pending-0");
    assert_eq!(ann.profiles[0].messages.len(), 12);
}

#[test]
fn a_number_that_is_still_taken_is_passed_over() {
    let mut ann = ChatState::new();
    let first = ann.begin_message(BOB_NPUB.to_string(), "a".to_string(), NOW);
    let second = ann.begin_message(BOB_NPUB.to_string(), "b".to_string(), NOW);
    assert!(ann.settle_message(BOB_NPUB.to_string(), first.clone(), Delivery::Sent, &[1; 32]));
    let third = ann.begin_message(BOB_NPUB.to_string(), "c".to_string(), NOW);
    assert_eq!(first, "pending-0");
    assert_eq!(second, "pending-1");
    assert_eq!(third, "pending-2");
    let messages = &ann.profiles[0].messages;
    assert_eq!(messages.len(), 3);
    assert_eq!(messages[0].id, "01".repeat(32));
    assert_eq!(messages[1].id, "pending-1");
    assert_eq!(messages[2].id, "pending-2");
    assert_eq!(messages[2].content, "c");
}

#[test]
fn a_message_that_is_sent_later_leaves_a_failed_one_alone() {
    let mut ann = ChatState::new();
    let first = ann.begin_message(BOB_NPUB.to_string(), "a".to_string(), NOW);
    let second = ann.begin_message(BOB_NPUB.to_string(), "b".to_string(), NOW + 1);
    assert!(!ann.settle_message(BOB_NPUB.to_string(), second, Delivery::Failed, &[2; 32]));
    assert!(ann.settle_message(BOB_NPUB.to_string(), first, Delivery::Sent, &[1; 32]));
    for n in 3..6 {
        let id = ann.begin_message(BOB_NPUB.to_string(), format!("{}", n), NOW + n as u64);
        assert_eq!(id, "pending-2");
        assert!(ann.settle_message(BOB_NPUB.to_string(), id, Delivery::Sent, &[n; 32]));
    }
    let messages = &ann.profiles[0].messages;
    assert_eq!(messages.len(), 5);
    assert_eq!(messages[1].id, "pending-1");
    assert_eq!(messages[1].content, "b");
    assert!(messages[1].pending && messages[1].failed);
    for (place, n) in [(2, 3), (3, 4), (4, 5)] {
        assert_eq!(messages[place].id, bytes_to_hex_string(&[n; 32]));
        assert_eq!(messages[place].content, format!("{}", n));
        assert!(!messages[place].pending && !messages[place].failed);
    }
}

#[test]
fn a_reaction_arrives_on_its_message() {
    let mut bob = knowing(ANN_NPUB, "Ann");
    bob.add_message(
        ANN_NPUB.to_string(),
        Message {
            id: "ab".repeat(32),
            content: "hi".to_string(),
            reactions: Vec::new(),
            at: NOW,
            pending: false,
            failed: false,
            mine: true,
        },
    );
    bob.acknowledge_state_change();
    let event = "AB".repeat(32);
    for _ in 0..2 {
        let sent = reaction(&event, BOB_NPUB, "+".to_string(), &key(ANN), NOW).unwrap();
        let res = bob.handle_event(sent.rumor, &key(ANN), &key(BOB), true, NOW).unwrap();
        assert!(matches!(res, Reception::Reaction(true)));
    }
    assert!(bob.has_state_changed());
    let reactions = &bob.profiles[0].messages[0].reactions;
    assert_eq!(reactions.len(), 1);
    assert_eq!(reactions[0].emoji, "+");
    assert_eq!(reactions[0].author_id, ANN);
    assert_eq!(reactions[0].reference_id, "ab".repeat(32));
}

#[test]
fn a_reaction_of_the_account_is_added_when_it_was_sent() {
    let mut ann = ChatState::new();
    let id = ann.begin_message(BOB_NPUB.to_string(), "hello".to_string(), NOW);
    ann.acknowledge_state_change();
    assert!(!ann.finish_reaction(
        BOB_NPUB.to_string(),
        id.clone(),
        "+".to_string(),
        &key(ANN),
        None
    ));
    assert!(!ann.has_state_changed());
    assert!(ann.finish_reaction(
        BOB_NPUB.to_string(),
        id.clone(),
        "+".to_string(),
        &key(ANN),
        Some([0xcd; 32])
    ));
    let added = &ann.profiles[0].messages[0].reactions[0];
    assert_eq!(added.id, "cd".repeat(32));
    assert_eq!(added.author_id, ANN);
    assert_eq!(added.reference_id, id);
    assert!(!ann.finish_reaction(
        BOB_NPUB.to_string(),
        "other".to_string(),
        "+".to_string(),
        &key(ANN),
        Some([0xcd; 32])
    ));
}

#[test]
fn a_reaction_to_nothing_is_told() {
    let mut bob = knowing(ANN_NPUB, "Ann");
    let res = bob.handle_event(rumor(7, &[&["e", "x"]], "+"), &key(ANN), &key(BOB), true, NOW);
    assert!(matches!(res, Some(Reception::Reaction(false))));
    let res = bob.handle_event(rumor(7, &[&["p", BOB]], "+"), &key(ANN), &key(BOB), true, NOW);
    assert!(matches!(res, Some(Reception::StrayReaction)));
    let res = bob.handle_event(rumor(7, &[&["e"]], "+"), &key(ANN), &key(BOB), true, NOW);
    assert!(res.is_none());
    assert!(!bob.has_state_changed());
}

#[test]
fn typing_is_noted_while_it_lasts() {
    for (now, noted) in [
        (NOW - 6, false),
        (NOW - 5, true),
        (NOW, true),
        (NOW + 29, true),
        (NOW + 30, false),
    ] {
        let typing = start_typing(BOB_NPUB, &key(ANN), NOW).unwrap();
        let mut bob = knowing(ANN_NPUB, "Ann");
        let res = bob
            .handle_event(typing.message.rumor, &key(ANN), &key(BOB), true, now)
            .unwrap();
        assert_eq!(matches!(res, Reception::Typing(true)), noted);
        assert_eq!(matches!(res, Reception::Ignored), !noted);
        assert_eq!(bob.profiles[0].typing_until, if noted { NOW + 30 } else { 0 });
        assert_eq!(bob.has_state_changed(), noted);
    }
}

#[test]
fn typing_of_a_stranger_is_not_noted() {
    let typing = start_typing(BOB_NPUB, &key(ANN), NOW).unwrap();
    let mut bob = ChatState::new();
    bob.acknowledge_state_change();
    let res =
        bob.handle_event(typing.message.rumor, &key(ANN), &key(BOB), true, NOW).unwrap();
    assert!(matches!(res, Reception::Typing(false)));
    assert!(bob.profiles.is_empty());
    assert!(!bob.has_state_changed());
}

#[test]
fn other_application_data_are_ignored() {
    let lists: [&[&[&str]]; 5] = [
        &[&["d", "other"], &["expiration", "1700000030"]],
        &[&["expiration", "1700000030"]],
        &[&["d", "vector"]],
        &[&["d", "vector"], &["expiration", "soon"]],
        &[&["d", "other"], &["d", "vector"], &["expiration", "1700000030"]],
    ];
    for list in lists {
        let mut bob = knowing(ANN_NPUB, "Ann");
        let res =
            bob.handle_event(rumor(30078, list, "typing"), &key(ANN), &key(BOB), true, NOW);
        assert!(matches!(res, Some(Reception::Ignored)));
        assert!(!bob.has_state_changed());
    }
    let mut bob = knowing(ANN_NPUB, "Ann");
    let list: &[&[&str]] = &[&["d", "vector"], &["expiration", "1700000030"]];
    let res = bob.handle_event(rumor(30078, list, "idle"), &key(ANN), &key(BOB), true, NOW);
    assert!(matches!(res, Some(Reception::Ignored)));
}

#[test]
fn tags_that_are_read_have_to_have_values() {
    let mut bob = knowing(ANN_NPUB, "Ann");
    let list: &[&[&str]] = &[&["d"], &["expiration", "1700000030"]];
    assert!(bob
        .handle_event(rumor(30078, list, "typing"), &key(ANN), &key(BOB), true, NOW)
        .is_none());
    let list: &[&[&str]] = &[&["d", "vector"], &["expiration"]];
    assert!(bob
        .handle_event(rumor(30078, list, "typing"), &key(ANN), &key(BOB), true, NOW)
        .is_none());
}

#[test]
fn other_kinds_are_ignored() {
    for kind in [0, 1, 4, 13, 15, 1059, 30315, u16::MAX] {
        let mut bob = knowing(ANN_NPUB, "Ann");
        let res = bob.handle_event(rumor(kind, &[], "x"), &key(ANN), &key(BOB), true, NOW);
        assert!(matches!(res, Some(Reception::Ignored)));
        assert!(!bob.has_state_changed());
    }
}

#[test]
fn the_contact_is_the_sender_or_the_tagged_key() {
    assert_eq!(contact_of(true, Some([1; 32]), &[2; 32]), [1; 32]);
    assert_eq!(contact_of(true, None, &[2; 32]), [2; 32]);
    assert_eq!(contact_of(false, Some([1; 32]), &[2; 32]), [2; 32]);
    let traced = trace(&rumor(14, &[&["p", BOB]], "x"), &key(ANN), &key(ANN));
    assert!(traced.mine);
    assert_eq!(traced.contact, BOB_NPUB);
    assert_eq!(traced.author, ANN_NPUB);
    assert_eq!(traced.sender_id, ANN);
    let traced = trace(&rumor(14, &[&["p", "no key"]], "x"), &key(ANN), &key(ANN));
    assert_eq!(traced.contact, ANN_NPUB);
    let traced = trace(&rumor(14, &[&["p", BOB]], "x"), &key(ANN), &key(BOB));
    assert!(!traced.mine);
    assert_eq!(traced.contact, ANN_NPUB);
    assert_eq!(npub_of(&key(ANN)), ANN_NPUB);
    assert!(same_key(&key(ANN), &key(ANN)));
    assert!(!same_key(&key(ANN), &key(BOB)));
}

#[test]
fn what_can_be_received_is_told_beforehand() {
    let state = knowing("a", "A");
    assert!(state.can_receive(&rumor(14, &[], "x"), &origin(false, "a"), true));
    assert!(!state.can_receive(&rumor(14, &[], "x"), &origin(false, "b"), true));
    assert!(state.can_receive(&rumor(14, &[], "x"), &origin(false, "b"), false));
    assert!(state.can_receive(&rumor(14, &[], "x"), &origin(true, "b"), true));
    assert!(state.can_receive(&rumor(1, &[], "x"), &origin(false, "b"), true));
}

#[test]
fn a_rumor_is_taken_in_for_a_given_origin() {
    let mut state = knowing("a", "A");
    let res = state.receive(rumor(14, &[], "x"), origin(false, "a"), false, NOW);
    assert!(matches!(res, Reception::Message(None)));
    let message = &state.profiles[0].messages[0];
    assert_eq!(message.id, "ab".repeat(32));
    assert_eq!(message.content, "x");
    let tag: &[&[&str]] = &[&["e", &"ab".repeat(32)]];
    let res = state.receive(rumor(7, tag, "!"), origin(false, "a"), false, NOW);
    assert!(matches!(res, Reception::Reaction(true)));
    assert_eq!(state.profiles[0].messages[0].reactions[0].author_id, "sender");
}

#[test]
fn no_message_is_lost_by_what_arrives() {
    let mut bob = knowing(ANN_NPUB, "Ann");
    for n in [3, 1, 2] {
        let sent = direct_message(BOB_NPUB, format!("{}", n), &key(ANN), NOW + n).unwrap();
        bob.handle_event(sent.rumor, &key(ANN), &key(BOB), false, NOW).unwrap();
    }
    let first = bob.profiles[0].messages[0].id.clone();
    let liked = reaction(&first, BOB_NPUB, "+".to_string(), &key(ANN), NOW).unwrap();
    bob.handle_event(liked.rumor, &key(ANN), &key(BOB), true, NOW).unwrap();
    let typing = start_typing(BOB_NPUB, &key(ANN), NOW).unwrap();
    bob.handle_event(typing.message.rumor, &key(ANN), &key(BOB), true, NOW).unwrap();
    assert_eq!(bob.profiles[0].typing_until, NOW + 30);
    let again = direct_message(BOB_NPUB, "1".to_string(), &key(ANN), NOW + 1).unwrap();
    bob.handle_event(again.rumor, &key(ANN), &key(BOB), true, NOW).unwrap();
    assert_eq!(bob.profiles[0].typing_until, NOW + 30);
    let messages = &bob.profiles[0].messages;
    let contents: Vec<&str> = messages.iter().map(|m| m.content.as_str()).collect();
    assert_eq!(contents, vec!["1", "2", "3"]);
    assert_eq!(messages[0].reactions.len(), 1);
    assert!(messages[1].reactions.is_empty());
}
