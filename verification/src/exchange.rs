//! What becomes of the things that are sent, where they arrive.

use vstd::prelude::*;
#[allow(unused_imports)]
use crate::chat::{
    lemma_first_position, lemma_is_first_position, message_ids, ChatView, ProfileView,
};
#[allow(unused_imports)]
use crate::hex::{hex_digit, hex_text};
#[allow(unused_imports)]
use crate::histories::{
    added_message_is_there, in_order, lemma_added_place, lemma_found_profile,
    lemma_insert_keeps_first, message_goes_to_one_chat, message_is_added_once, message_is_found,
    order_keeps_messages, other_messages_stay, other_profiles_stay, reaction_goes_to_one_message,
    reaction_is_added_once, reaction_is_shown_once,
};
#[allow(unused_imports)]
use crate::incoming::{
    is_receivable, origin_of, received, received_message, received_reaction, reception,
    typing_expiry, OriginView, ReceptionView,
};
#[allow(unused_imports)]
use crate::nostr::{
    find_tag, npub, RumorView, APPLICATION_SPECIFIC_DATA, PRIVATE_DIRECT_MESSAGE, REACTION,
};
#[allow(unused_imports)]
use crate::outgoing::{
    after_settling, is_direct_message, is_next_number, is_reaction, is_typing, pending_id,
    pending_message, settled, Delivery, TYPING_SECONDS,
};
#[allow(unused_imports)]
use crate::text::{decimal_round_trip, decimal_text};
#[allow(unused_imports)]
use crate::timeline::{is_chronological, MessageView, ReactionView};

verus! {

/// A direct message that has arrived, as a chat shows it.
pub open spec fn arrived_message(
    rumor: RumorView,
    content: Seq<char>,
    at: u64,
    mine: bool,
) -> MessageView {
    MessageView {
        id: hex_text(rumor.id->0),
        content,
        reactions: seq![],
        at,
        pending: false,
        failed: false,
        mine,
    }
}

/// A direct message arrives as it was written: with the receiver, in the chat with its author;
/// with the author, in the chat with the receiver.
pub proof fn direct_message_arrives(
    rumor: RumorView,
    receiver: Seq<u8>,
    content: Seq<char>,
    author: Seq<u8>,
    at: u64,
    state: ChatView,
    now: u64,
)
    requires
        is_direct_message(rumor, receiver, content, author, at),
    ensures
        author != receiver ==> received(state, rumor, origin_of(rumor, author, receiver), now)
            == state.with_message(npub(author), arrived_message(rumor, content, at, false)),
        received(state, rumor, origin_of(rumor, author, author), now) == state.with_message(
            npub(receiver),
            arrived_message(rumor, content, at, true),
        ),
        is_receivable(state, rumor, origin_of(rumor, author, receiver), false),
        is_receivable(state, rumor, origin_of(rumor, author, author), true),
        state.has_profile(npub(author)) ==> is_receivable(
            state,
            rumor,
            origin_of(rumor, author, receiver),
            true,
        ),
{
}

/// What the account has sent does not show twice when its own copy arrives.
pub proof fn own_copy_adds_nothing(
    rumor: RumorView,
    receiver: Seq<u8>,
    content: Seq<char>,
    author: Seq<u8>,
    at: u64,
    state: ChatView,
    message_id: Seq<char>,
    now: u64,
)
    requires
        is_direct_message(rumor, receiver, content, author, at),
        state.has_message(npub(receiver), message_id),
    ensures
        ({
            let sent = after_settling(state, npub(receiver), message_id, rumor.id->0, true);
            received(sent, rumor, origin_of(rumor, author, author), now) == sent
        }),
{
    let to = npub(receiver);
    let id = rumor.id->0;
    let sent = after_settling(state, to, message_id, id, true);
    direct_message_arrives(rumor, receiver, content, author, at, sent, now);
    lemma_found_profile(state, to);
    let before = state.profile(to);
    let place = before.find_message(message_id)->0;
    let profile = before.set_message(place, settled(before.messages[place], id, true));
    lemma_first_position(message_ids(before.messages), message_id);
    other_profiles_stay(state, to, profile, to);
    let ids = message_ids(profile.messages);
    lemma_first_position(ids, hex_text(id));
    assert(ids[place] == hex_text(id));
    assert(sent.profiles.update(sent.find_profile(to)->0, sent.profile(to)) =~= sent.profiles);
}

/// A reaction that has arrived, as a message shows it.
pub open spec fn arrived_reaction(
    rumor: RumorView,
    event: Seq<u8>,
    emoji: Seq<char>,
    author: Seq<u8>,
) -> ReactionView {
    ReactionView {
        id: hex_text(rumor.id->0),
        reference_id: hex_text(event),
        author_id: hex_text(author),
        emoji,
    }
}

/// A reaction arrives on the message that it was meant for: with the receiver, in the chat with
/// its author; with the author, in the chat with the receiver.
pub proof fn reaction_arrives(
    rumor: RumorView,
    event: Seq<u8>,
    receiver: Seq<u8>,
    emoji: Seq<char>,
    author: Seq<u8>,
    at: u64,
    state: ChatView,
    is_new: bool,
    now: u64,
)
    requires
        is_reaction(rumor, event, receiver, emoji, author, at),
    ensures
        author != receiver ==> received(state, rumor, origin_of(rumor, author, receiver), now)
            == state.with_reaction(
            npub(author),
            hex_text(event),
            arrived_reaction(rumor, event, emoji, author),
        ),
        received(state, rumor, origin_of(rumor, author, author), now) == state.with_reaction(
            npub(receiver),
            hex_text(event),
            arrived_reaction(rumor, event, emoji, author),
        ),
        is_receivable(state, rumor, origin_of(rumor, author, receiver), is_new),
        is_receivable(state, rumor, origin_of(rumor, author, author), is_new),
{
    assert(rumor.tags[0] == seq!["e"@, hex_text(event)]);
    assert(find_tag(rumor.tags, "e"@) == Some(rumor.tags[0]));
}

/// What is read from the tags of a typing indicator.
proof fn lemma_typing_tags(rumor: RumorView, receiver: Seq<u8>, author: Seq<u8>, at: u64)
    requires
        is_typing(rumor, receiver, author, at),
    ensures
        find_tag(rumor.tags, "d"@) == Some(seq!["d"@, "vector"@]),
        find_tag(rumor.tags, "expiration"@) == Some(
            seq!["expiration"@, decimal_text((at + TYPING_SECONDS) as nat)],
        ),
{
    reveal_with_fuel(find_tag, 4);
    reveal_strlit("p");
    reveal_strlit("d");
    reveal_strlit("expiration");
    assert("p"@[0] != "d"@[0]);
    assert("d"@.len() != "expiration"@.len());
    assert("p"@.len() != "expiration"@.len());
    let tags = seq![
        seq!["d"@, "vector"@],
        seq!["expiration"@, decimal_text((at + TYPING_SECONDS) as nat)],
    ];
    assert(tags.drop_first() =~= seq![tags[1]]);
    if receiver == author {
        assert(rumor.tags =~= tags);
    } else {
        assert(rumor.tags[0] == seq!["p"@, hex_text(receiver)]);
        assert(rumor.tags.drop_first() =~= tags);
    }
}

/// A typing indicator holds for half a minute: from a few seconds before it was made, for clocks
/// that are behind, until it ends, its author counts as typing with everyone who knows them.
pub proof fn typing_arrives(
    rumor: RumorView,
    receiver: Seq<u8>,
    author: Seq<u8>,
    at: u64,
    me: Seq<u8>,
    state: ChatView,
    is_new: bool,
    now: u64,
)
    requires
        is_typing(rumor, receiver, author, at),
        at + TYPING_SECONDS <= u64::MAX,
    ensures
        ({
            let origin = origin_of(rumor, author, me);
            let after = received(state, rumor, origin, now);
            &&& is_receivable(state, rumor, origin, is_new)
            &&& typing_expiry(rumor) == Some((at + TYPING_SECONDS) as u64)
            &&& at - 5 <= now < at + 30 && state.has_profile(npub(author)) ==> after.has_profile(
                npub(author),
            ) && after.profile(npub(author)) == (ProfileView {
                typing_until: (at + 30) as u64,
                ..state.profile(npub(author))
            }) && after.has_state_changed
            &&& !(at - 5 <= now < at + 30 && state.has_profile(npub(author))) ==> after == state
        }),
{
    lemma_typing_tags(rumor, receiver, author, at);
    decimal_round_trip((at + TYPING_SECONDS) as u64);
    if state.has_profile(npub(author)) {
        lemma_found_profile(state, npub(author));
        other_profiles_stay(
            state,
            npub(author),
            ProfileView { typing_until: (at + 30) as u64, ..state.profile(npub(author)) },
            npub(author),
        );
    }
}

/// A rumor that arrives again changes nothing more. For a typing indicator this is said of the
/// moment at which it has arrived.
pub proof fn rumor_is_received_once(
    state: ChatView,
    rumor: RumorView,
    origin: OriginView,
    now: u64,
    later: u64,
)
    requires
        rumor.kind == PRIVATE_DIRECT_MESSAGE || rumor.kind == REACTION || later == now,
    ensures
        received(received(state, rumor, origin, now), rumor, origin, later) == received(
            state,
            rumor,
            origin,
            now,
        ),
{
    let after = received(state, rumor, origin, now);
    if rumor.kind == PRIVATE_DIRECT_MESSAGE {
        let message = received_message(rumor, origin);
        message_is_added_once(state, origin.contact, message, message);
    } else if rumor.kind == REACTION {
        if let Some(tag) = find_tag(rumor.tags, "e"@) {
            reaction_is_added_once(
                state,
                origin.contact,
                tag[1],
                received_reaction(rumor, origin, tag[1]),
            );
        }
    } else if let Some(expiry) = typing_expiry(rumor) {
        if state.has_profile(origin.author) {
            lemma_found_profile(state, origin.author);
            let profile = ProfileView { typing_until: expiry, ..state.profile(origin.author) };
            other_profiles_stay(state, origin.author, profile, origin.author);
            assert(state.profiles.update(state.find_profile(origin.author)->0, profile).update(
                state.find_profile(origin.author)->0,
                profile,
            ) =~= state.profiles.update(state.find_profile(origin.author)->0, profile));
        }
    }
}

/// Whatever arrives, no message is lost, and none is changed but for reactions that it gets. Of a
/// chat that gets a message this is said where putting it in order keeps the message that is
/// found.
pub proof fn no_message_is_lost(
    state: ChatView,
    rumor: RumorView,
    origin: OriginView,
    now: u64,
    npub: Seq<char>,
    id: Seq<char>,
)
    requires
        state.has_message(npub, id),
        rumor.kind == PRIVATE_DIRECT_MESSAGE && origin.contact == npub && !state.has_message(
            npub,
            received_message(rumor, origin).id,
        ) ==> in_order(state.profile(npub)).message(id) == state.message(npub, id),
    ensures
        ({
            let after = received(state, rumor, origin, now);
            let message = state.message(npub, id);
            &&& after.has_message(npub, id)
            &&& message.reactions.is_prefix_of(after.message(npub, id).reactions)
            &&& after.message(npub, id) == (MessageView {
                reactions: after.message(npub, id).reactions,
                ..message
            })
        }),
{
    let reactions = state.message(npub, id).reactions;
    assert(reactions.subrange(0, reactions.len() as int) =~= reactions);
    lemma_found_profile(state, npub);
    if rumor.kind == PRIVATE_DIRECT_MESSAGE {
        let message = received_message(rumor, origin);
        message_goes_to_one_chat(state, origin.contact, message, npub);
        if npub == origin.contact {
            if id == message.id {
                added_message_is_there(state.profile(npub), message);
            } else {
                other_messages_stay(state.profile(npub), message, id);
            }
        }
    } else if rumor.kind == REACTION {
        if let Some(tag) = find_tag(rumor.tags, "e"@) {
            let reaction = received_reaction(rumor, origin, tag[1]);
            if state.has_message(origin.contact, tag[1]) {
                if npub == origin.contact && id == tag[1] {
                    reaction_goes_to_one_message(state, npub, id, reaction, npub, id + seq!['+']);
                    reaction_is_shown_once(state.message(npub, id), reaction);
                } else {
                    reaction_goes_to_one_message(
                        state,
                        origin.contact,
                        tag[1],
                        reaction,
                        npub,
                        id,
                    );
                }
            }
        }
    } else if let Some(expiry) = typing_expiry(rumor) {
        if state.has_profile(origin.author) {
            lemma_found_profile(state, origin.author);
            let profile = ProfileView { typing_until: expiry, ..state.profile(origin.author) };
            other_profiles_stay(state, origin.author, profile, npub);
        }
    }
}

/// A notice is shown of new messages from others, and of nothing else.
pub proof fn notices_are_for_new_messages(
    state: ChatView,
    rumor: RumorView,
    origin: OriginView,
    is_new: bool,
    now: u64,
)
    ensures
        (reception(state, rumor, origin, is_new, now) matches ReceptionView::Message(Some(_)))
            == (rumor.kind == PRIVATE_DIRECT_MESSAGE && !origin.mine && is_new),
{
}

/// Rumors of other kinds are ignored.
pub proof fn other_kinds_are_ignored(
    state: ChatView,
    rumor: RumorView,
    origin: OriginView,
    is_new: bool,
    now: u64,
)
    requires
        rumor.kind != PRIVATE_DIRECT_MESSAGE,
        rumor.kind != REACTION,
        rumor.kind != APPLICATION_SPECIFIC_DATA,
    ensures
        is_receivable(state, rumor, origin, is_new),
        received(state, rumor, origin, now) == state,
        reception(state, rumor, origin, is_new, now) == ReceptionView::Ignored,
{
}

/// What is sent is marked as changed when it is added, when it is settled, and when it gets a
/// reaction, and no mark is lost.
pub proof fn what_is_sent_is_marked(
    state: ChatView,
    npub: Seq<char>,
    message: MessageView,
    message_id: Seq<char>,
    id: Seq<u8>,
    sent: bool,
    reaction: ReactionView,
)
    ensures
        state.with_message(npub, message).has_state_changed,
        after_settling(state, npub, message_id, id, sent).has_state_changed,
        state.with_reaction(npub, message_id, reaction) != state ==> state.with_reaction(
            npub,
            message_id,
            reaction,
        ).has_state_changed,
        state.has_state_changed ==> state.with_reaction(
            npub,
            message_id,
            reaction,
        ).has_state_changed,
{
}

/// What a rumor changes is marked as changed, and no mark is lost.
pub proof fn receptions_are_marked(
    state: ChatView,
    rumor: RumorView,
    origin: OriginView,
    now: u64,
)
    ensures
        received(state, rumor, origin, now) != state ==> received(
            state,
            rumor,
            origin,
            now,
        ).has_state_changed,
        state.has_state_changed ==> received(state, rumor, origin, now).has_state_changed,
{
}

/// A message reaches its end in two steps, and counts as sent exactly if it reached the
/// receiver.
pub proof fn delivery_ends(reached_receiver: bool, reached_self: bool)
    ensures
        Delivery::ToReceiver.next(reached_receiver).next(reached_self) == (if reached_receiver {
            Delivery::Sent
        } else {
            Delivery::Failed
        }),
{
}

/// No id of an event reads like that of a pending message.
pub proof fn pending_ids_are_no_event_ids(count: nat, id: Seq<u8>)
    ensures
        pending_id(count) != hex_text(id),
{
    reveal_strlit("pending-");
    assert(pending_id(count)[0] == 'p');
    if id.len() > 0 {
        let digit = id[0] as int / 16;
        assert(0 <= digit < 16);
        assert(hex_text(id)[0] == hex_digit(digit));
        assert(hex_digit(digit) as int <= 102);
    } else {
        assert(hex_text(id).len() == 0);
    }
}

/// A message is in the chat as soon as it is to be sent, under an id that no other message has,
/// and the next one that is to be sent gets another id.
pub proof fn message_is_pending(
    state: ChatView,
    receiver: Seq<char>,
    n: nat,
    content: Seq<char>,
    now: u64,
    next: nat,
)
    requires
        is_next_number(state, receiver, n),
    ensures
        ({
            let id = pending_id(n);
            let message = pending_message(id, content, now);
            let begun = state.with_message(receiver, message);
            &&& begun.has_message(receiver, id)
            &&& begun.message(receiver, id) == message
            &&& begun.profile(receiver).messages.len() == chat_length(state, receiver) + 1
            &&& is_next_number(begun, receiver, next) ==> pending_id(next) != id
        }),
{
    let message = pending_message(pending_id(n), content, now);
    message_is_found(state, receiver, message);
    message_goes_to_one_chat(state, receiver, message, receiver);
    let profile = chat_with(state, receiver);
    lemma_first_position(message_ids(profile.messages), message.id);
    added_message_is_there(profile, message);
}

/// The profile that a message to someone goes to.
pub open spec fn chat_with(state: ChatView, receiver: Seq<char>) -> ProfileView {
    if state.has_profile(receiver) {
        state.profile(receiver)
    } else {
        ProfileView { id: receiver, ..ProfileView::empty() }
    }
}

/// How many messages the chat with someone has.
pub open spec fn chat_length(state: ChatView, receiver: Seq<char>) -> nat {
    chat_with(state, receiver).messages.len()
}

/// The state after a message to someone was begun under a number, and settled.
pub open spec fn after_sending(
    state: ChatView,
    receiver: Seq<char>,
    n: nat,
    content: Seq<char>,
    now: u64,
    id: Seq<u8>,
    sent: bool,
) -> ChatView {
    after_settling(
        state.with_message(receiver, pending_message(pending_id(n), content, now)),
        receiver,
        pending_id(n),
        id,
        sent,
    )
}

/// What the chat is made of after a message was begun and settled: the messages that it had, in
/// the order of time, and the settled one in one place among them.
proof fn lemma_after_sending(
    state: ChatView,
    receiver: Seq<char>,
    n: nat,
    content: Seq<char>,
    now: u64,
    id: Seq<u8>,
    sent: bool,
) -> (place: int)
    requires
        is_next_number(state, receiver, n),
    ensures
        ({
            let message = settled(pending_message(pending_id(n), content, now), id, sent);
            let after = after_sending(state, receiver, n, content, now, id, sent);
            let sorted = in_order(chat_with(state, receiver)).messages;
            &&& 0 <= place <= sorted.len()
            &&& sorted.len() == chat_length(state, receiver)
            &&& after.has_profile(receiver)
            &&& after.profile(receiver).messages == sorted.insert(place, message)
            &&& message_ids(after.profile(receiver).messages) == message_ids(sorted).insert(
                place,
                message.id,
            )
        }),
{
    let first_id = pending_id(n);
    let message = pending_message(first_id, content, now);
    let begun = state.with_message(receiver, message);
    let start = chat_with(state, receiver);
    message_goes_to_one_chat(state, receiver, message, receiver);
    lemma_first_position(message_ids(start.messages), first_id);
    let place = lemma_added_place(start, message);
    let sorted = in_order(start).messages;
    let before = begun.profile(receiver);
    let ids = message_ids(before.messages);
    assert forall|j: int| 0 <= j < place implies #[trigger] ids[j] != first_id by {
        assert(ids[j] == message_ids(sorted)[j]);
        assert(message_ids(sorted).contains(ids[j]));
    }
    assert(ids[place] == first_id);
    lemma_is_first_position(ids, first_id, place);
    assert(before.messages[place] == message);
    let end = before.set_message(place, settled(message, id, sent));
    lemma_found_profile(begun, receiver);
    other_profiles_stay(begun, receiver, end, receiver);
    assert(end.messages =~= sorted.insert(place, settled(message, id, sent)));
    assert(message_ids(end.messages) =~= message_ids(sorted).insert(
        place,
        settled(message, id, sent).id,
    ));
    place
}

/// Sending a message adds it to the chat. One that was sent has the id of its event, and the id
/// that it had before is gone; one that could not be sent is marked as failed. The message is
/// found under its id, unless the chat had a message with the id of the event before.
pub proof fn message_is_settled(
    state: ChatView,
    receiver: Seq<char>,
    n: nat,
    content: Seq<char>,
    now: u64,
    id: Seq<u8>,
    sent: bool,
)
    requires
        is_next_number(state, receiver, n),
    ensures
        ({
            let message = pending_message(pending_id(n), content, now);
            let after = after_sending(state, receiver, n, content, now, id, sent);
            let messages = after.profile(receiver).messages;
            &&& after.has_profile(receiver)
            &&& messages.len() == chat_length(state, receiver) + 1
            &&& if sent {
                let end = MessageView { id: hex_text(id), pending: false, ..message };
                &&& messages.contains(end)
                &&& after.has_message(receiver, hex_text(id))
                &&& !state.has_message(receiver, hex_text(id)) ==> after.message(
                    receiver,
                    hex_text(id),
                ) == end
                &&& !after.has_message(receiver, pending_id(n))
            } else {
                let end = MessageView { failed: true, ..message };
                &&& messages.contains(end)
                &&& after.has_message(receiver, pending_id(n))
                &&& after.message(receiver, pending_id(n)) == end
                &&& after.has_message(receiver, hex_text(id)) == state.has_message(
                    receiver,
                    hex_text(id),
                )
            }
        }),
{
    let after = after_sending(state, receiver, n, content, now, id, sent);
    let place = lemma_after_sending(state, receiver, n, content, now, id, sent);
    let start = chat_with(state, receiver);
    let end = after.profile(receiver);
    let message = settled(pending_message(pending_id(n), content, now), id, sent);
    assert(end.messages[place] == message);
    lemma_after_sending_ids(state, receiver, n, content, now, id, sent, pending_id(n));
    lemma_after_sending_ids(state, receiver, n, content, now, id, sent, hex_text(id));
    pending_ids_are_no_event_ids(n, id);
    lemma_first_position(message_ids(start.messages), pending_id(n));
    lemma_first_position(message_ids(start.messages), message.id);
    if !start.has_message(message.id) {
        let ids = message_ids(in_order(start).messages);
        order_keeps_messages(start, message.id);
        lemma_first_position(ids, message.id);
        assert forall|j: int| 0 <= j < place implies #[trigger] message_ids(end.messages)[j]
            != message.id by {
            assert(message_ids(end.messages)[j] == ids[j]);
        }
        lemma_is_first_position(message_ids(end.messages), message.id, place);
    }
}

/// Which ids the chat has after a message was begun and settled.
proof fn lemma_after_sending_ids(
    state: ChatView,
    receiver: Seq<char>,
    n: nat,
    content: Seq<char>,
    now: u64,
    id: Seq<u8>,
    sent: bool,
    other: Seq<char>,
)
    requires
        is_next_number(state, receiver, n),
    ensures
        ({
            let message = settled(pending_message(pending_id(n), content, now), id, sent);
            let after = after_sending(state, receiver, n, content, now, id, sent);
            let start = chat_with(state, receiver);
            &&& after.has_message(receiver, other) == (state.has_message(receiver, other) || other
                == message.id)
            &&& state.has_message(receiver, other) && other != message.id ==> after.message(
                receiver,
                other,
            ) == in_order(start).message(other)
        }),
{
    let message = settled(pending_message(pending_id(n), content, now), id, sent);
    let after = after_sending(state, receiver, n, content, now, id, sent);
    let place = lemma_after_sending(state, receiver, n, content, now, id, sent);
    let start = chat_with(state, receiver);
    let ids = message_ids(in_order(start).messages);
    order_keeps_messages(start, other);
    lemma_first_position(message_ids(start.messages), other);
    lemma_first_position(ids, other);
    if other == message.id {
        assert(message_ids(after.profile(receiver).messages)[place] == other);
        lemma_first_position(message_ids(after.profile(receiver).messages), other);
    } else {
        lemma_insert_keeps_first(ids, place, message.id, other);
    }
}

/// Sending a message leaves the others as they are: whatever another message of the chat was
/// before, pending or not, it is after a message was begun and settled. This is said of chats
/// that are in order, or that have no two messages with one id, and not of a message with the
/// very id that the sent one gets.
pub proof fn other_messages_stay_while_sending(
    state: ChatView,
    receiver: Seq<char>,
    n: nat,
    content: Seq<char>,
    now: u64,
    id: Seq<u8>,
    sent: bool,
    other: Seq<char>,
)
    requires
        is_next_number(state, receiver, n),
        state.has_message(receiver, other),
        sent ==> other != hex_text(id),
        is_chronological(state.profile(receiver).messages) || message_ids(
            state.profile(receiver).messages,
        ).no_duplicates(),
    ensures
        ({
            let after = after_sending(state, receiver, n, content, now, id, sent);
            &&& after.has_message(receiver, other)
            &&& after.message(receiver, other) == state.message(receiver, other)
        }),
{
    lemma_after_sending_ids(state, receiver, n, content, now, id, sent, other);
    order_keeps_messages(state.profile(receiver), other);
}

/// A message that is pending stays as it is when another is begun and settled, whatever id that
/// one gets.
pub proof fn pending_messages_stay(
    state: ChatView,
    receiver: Seq<char>,
    n: nat,
    content: Seq<char>,
    now: u64,
    id: Seq<u8>,
    sent: bool,
    other: nat,
)
    requires
        is_next_number(state, receiver, n),
        state.has_message(receiver, pending_id(other)),
        is_chronological(state.profile(receiver).messages) || message_ids(
            state.profile(receiver).messages,
        ).no_duplicates(),
    ensures
        ({
            let after = after_sending(state, receiver, n, content, now, id, sent);
            &&& after.has_message(receiver, pending_id(other))
            &&& after.message(receiver, pending_id(other)) == state.message(
                receiver,
                pending_id(other),
            )
        }),
{
    pending_ids_are_no_event_ids(other, id);
    other_messages_stay_while_sending(
        state,
        receiver,
        n,
        content,
        now,
        id,
        sent,
        pending_id(other),
    );
}

} // verus!
