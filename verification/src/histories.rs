//! How messages and reactions add up: what is there after they were added, and what stays.

use vstd::prelude::*;
#[allow(unused_imports)]
use crate::chat::{
    first_position, lemma_first_position, lemma_is_first_position, lemma_pushed_profile,
    message_ids, profile_ids, ChatView, ProfileView,
};
#[allow(unused_imports)]
use crate::timeline::{
    chronological, chronological_keeps_order, chronological_sorts, insert_by_time,
    insertions_commute, is_chronological, MessageView, ReactionView,
};

verus! {

/// Whether every chat stands in the order of time, and no message has two reactions with one id.
pub open spec fn is_orderly(state: ChatView) -> bool {
    forall|i: int| 0 <= i < state.profiles.len() ==> is_orderly_chat(#[trigger] state.profiles[i])
}

/// Whether a chat stands in the order of time, and no message has two reactions with one id.
pub open spec fn is_orderly_chat(profile: ProfileView) -> bool {
    is_chronological(profile.messages) && forall|i: int|
        0 <= i < profile.messages.len() ==> reacts_once(#[trigger] profile.messages[i])
}

/// Whether a message has no two reactions with one id.
pub open spec fn reacts_once(message: MessageView) -> bool {
    forall|i: int, j: int|
        0 <= i < j < message.reactions.len() ==> (#[trigger] message.reactions[i]).id != (
        #[trigger] message.reactions[j]).id
}

/// A message is inserted in one place, and the others stay around it.
proof fn lemma_insert_place(messages: Seq<MessageView>, message: MessageView) -> (place: int)
    ensures
        0 <= place <= messages.len(),
        insert_by_time(messages, message) == messages.insert(place, message),
    decreases messages.len(),
{
    if messages.len() == 0 || messages.last().at <= message.at {
        assert(messages.push(message) =~= messages.insert(messages.len() as int, message));
        messages.len() as int
    } else {
        let front = messages.drop_last();
        let place = lemma_insert_place(front, message);
        assert(front.insert(place, message).push(messages.last()) =~= messages.insert(
            place,
            message,
        ));
        place
    }
}

/// One id more among others does not hide them.
pub(crate) proof fn lemma_insert_keeps_first(
    ids: Seq<Seq<char>>,
    place: int,
    new: Seq<char>,
    id: Seq<char>,
)
    requires
        0 <= place <= ids.len(),
        id != new,
    ensures
        first_position(ids.insert(place, new), id) == match first_position(ids, id) {
            Some(i) => Some(
                if i < place {
                    i
                } else {
                    i + 1
                },
            ),
            None => None,
        },
{
    let more = ids.insert(place, new);
    lemma_first_position(ids, id);
    lemma_first_position(more, id);
    match first_position(ids, id) {
        Some(i) => {
            let at = if i < place {
                i
            } else {
                i + 1
            };
            assert forall|j: int| 0 <= j < at implies #[trigger] more[j] != id by {
                if j < place {
                    assert(more[j] == ids[j]);
                } else if j > place {
                    assert(more[j] == ids[j - 1]);
                }
            }
            lemma_is_first_position(more, id, at);
        },
        None => {
            if let Some(k) = first_position(more, id) {
                if k < place {
                    assert(ids[k] == id);
                } else if k > place {
                    assert(ids[k - 1] == id);
                }
            }
        },
    }
}

/// One id more among others is just that.
pub(crate) proof fn lemma_insert_id(ids: Seq<Seq<char>>, place: int, new: Seq<char>)
    requires
        0 <= place <= ids.len(),
    ensures
        forall|id: Seq<char>| #[trigger]
            ids.insert(place, new).contains(id) <==> ids.contains(id) || id == new,
        ids.no_duplicates() && !ids.contains(new) <==> ids.insert(place, new).no_duplicates(),
{
    let more = ids.insert(place, new);
    assert(more[place] == new);
    assert forall|i: int| 0 <= i < ids.len() implies #[trigger] ids[i] == more[
        if i < place {
            i
        } else {
            i + 1
        }
    ] by {}
    assert forall|j: int| 0 <= j < more.len() && j != place implies #[trigger] more[j] == ids[
        if j < place {
            j
        } else {
            j - 1
        }
    ] by {}
}

/// Putting messages in order keeps their ids, and keeps them apart.
pub(crate) proof fn lemma_chronological_ids(messages: Seq<MessageView>)
    ensures
        forall|id: Seq<char>| #[trigger]
            message_ids(chronological(messages)).contains(id) <==> message_ids(messages).contains(
                id,
            ),
        message_ids(messages).no_duplicates() ==> message_ids(
            chronological(messages),
        ).no_duplicates(),
    decreases messages.len(),
{
    if messages.len() > 0 {
        let front = messages.drop_last();
        let last = messages.last();
        let sorted = chronological(front);
        lemma_chronological_ids(front);
        let place = lemma_insert_place(sorted, last);
        lemma_insert_id(message_ids(sorted), place, last.id);
        lemma_insert_id(message_ids(front), front.len() as int, last.id);
        assert(message_ids(chronological(messages)) =~= message_ids(sorted).insert(
            place,
            last.id,
        ));
        assert(message_ids(messages) =~= message_ids(front).insert(front.len() as int, last.id));
    }
}

/// A chat has a message with an id just if that is among its ids.
pub(crate) proof fn lemma_has_message(profile: ProfileView, id: Seq<char>)
    ensures
        profile.has_message(id) <==> message_ids(profile.messages).contains(id),
{
    let ids = message_ids(profile.messages);
    lemma_first_position(ids, id);
    if let Some(i) = first_position(ids, id) {
        assert(ids[i] == id);
    }
}

/// The profile with its chat in the order of time.
pub open spec fn in_order(profile: ProfileView) -> ProfileView {
    ProfileView { messages: chronological(profile.messages), ..profile }
}

/// Putting a chat in order keeps the message that is found under an id, if the chat is in order
/// already, or if no two of its messages have one id.
pub proof fn order_keeps_messages(profile: ProfileView, id: Seq<char>)
    ensures
        in_order(profile).has_message(id) == profile.has_message(id),
        profile.has_message(id) && (is_chronological(profile.messages) || message_ids(
            profile.messages,
        ).no_duplicates()) ==> in_order(profile).message(id) == profile.message(id),
{
    broadcast use vstd::seq_lib::group_to_multiset_ensures;

    lemma_chronological_ids(profile.messages);
    lemma_has_message(profile, id);
    lemma_has_message(in_order(profile), id);
    if is_chronological(profile.messages) {
        chronological_keeps_order(profile.messages);
    } else if profile.has_message(id) && message_ids(profile.messages).no_duplicates() {
        let ids = message_ids(profile.messages);
        let sorted = chronological(profile.messages);
        lemma_first_position(ids, id);
        lemma_first_position(message_ids(sorted), id);
        chronological_sorts(profile.messages);
        let found = in_order(profile).message(id);
        assert(sorted.contains(found));
        assert(sorted.to_multiset().count(found) > 0);
        assert(profile.messages.contains(found));
        let i = choose|i: int| 0 <= i < profile.messages.len() && profile.messages[i] == found;
        assert(ids[i] == id);
        assert(ids[profile.find_message(id)->0] == id);
    }
}

/// A message with a new id is inserted in one place of the chat in order.
pub(crate) proof fn lemma_added_place(profile: ProfileView, message: MessageView) -> (place: int)
    requires
        !profile.has_message(message.id),
    ensures
        0 <= place <= profile.messages.len(),
        profile.with_message(message).messages == insert_by_time(
            in_order(profile).messages,
            message,
        ),
        in_order(profile).messages.len() == profile.messages.len(),
        profile.with_message(message).messages == in_order(profile).messages.insert(
            place,
            message,
        ),
        message_ids(profile.with_message(message).messages) == message_ids(
            in_order(profile).messages,
        ).insert(place, message.id),
        !message_ids(in_order(profile).messages).contains(message.id),
{
    assert(profile.messages.push(message).drop_last() =~= profile.messages);
    chronological_sorts(profile.messages);
    lemma_chronological_ids(profile.messages);
    lemma_has_message(profile, message.id);
    let sorted = in_order(profile).messages;
    let place = lemma_insert_place(sorted, message);
    assert(message_ids(sorted.insert(place, message)) =~= message_ids(sorted).insert(
        place,
        message.id,
    ));
    place
}

/// A message is in the chat that it was added to: the one that was there under its id, or else
/// just this one, as one message more.
pub proof fn added_message_is_there(profile: ProfileView, message: MessageView)
    ensures
        profile.with_message(message).has_message(message.id),
        profile.with_message(message).message(message.id) == (if profile.has_message(message.id) {
            profile.message(message.id)
        } else {
            message
        }),
        profile.with_message(message).messages.len() == profile.messages.len() + (
        if profile.has_message(message.id) {
            0int
        } else {
            1
        }),
{
    if !profile.has_message(message.id) {
        let place = lemma_added_place(profile, message);
        let ids = message_ids(in_order(profile).messages);
        assert forall|j: int| 0 <= j < place implies #[trigger] ids.insert(place, message.id)[j]
            != message.id by {
            assert(ids.insert(place, message.id)[j] == ids[j]);
            assert(ids.contains(ids[j]));
        }
        lemma_is_first_position(ids.insert(place, message.id), message.id, place);
    }
}

/// The other messages of a chat stay when one is added. Which of several messages with one id is
/// found then is decided by time.
pub proof fn other_messages_stay(profile: ProfileView, message: MessageView, id: Seq<char>)
    requires
        id != message.id,
    ensures
        profile.with_message(message).has_message(id) == profile.has_message(id),
        profile.has_message(id) ==> profile.with_message(message).message(id) == (
        if profile.has_message(message.id) {
            profile
        } else {
            in_order(profile)
        }).message(id),
        profile.has_message(id) && (is_chronological(profile.messages) || message_ids(
            profile.messages,
        ).no_duplicates()) ==> profile.with_message(message).message(id) == profile.message(id),
{
    order_keeps_messages(profile, id);
    if !profile.has_message(message.id) {
        let place = lemma_added_place(profile, message);
        let ids = message_ids(in_order(profile).messages);
        lemma_insert_keeps_first(ids, place, message.id, id);
        lemma_first_position(ids, id);
    }
}

/// What is done to one profile leaves the others as they are.
pub proof fn other_profiles_stay(
    state: ChatView,
    npub: Seq<char>,
    profile: ProfileView,
    other: Seq<char>,
)
    requires
        state.has_profile(npub),
        profile.id == npub,
    ensures
        state.set_profile(npub, profile).find_profile(other) == state.find_profile(other),
        state.set_profile(npub, profile).profile(npub) == profile,
        other != npub && state.has_profile(other) ==> state.set_profile(npub, profile).profile(
            other,
        ) == state.profile(other),
{
    let ids = profile_ids(state.profiles);
    let after = state.set_profile(npub, profile);
    lemma_first_position(ids, npub);
    assert(profile_ids(after.profiles) =~= ids);
    lemma_first_position(ids, other);
}

/// A profile that is added leaves the others as they are.
pub proof fn known_profiles_stay(state: ChatView, profile: ProfileView, other: Seq<char>)
    requires
        other != profile.id || state.has_profile(other),
    ensures
        state.push_profile(profile).find_profile(other) == state.find_profile(other),
        state.has_profile(other) ==> state.push_profile(profile).profile(other) == state.profile(
            other,
        ),
{
    let ids = profile_ids(state.profiles);
    let more = profile_ids(state.push_profile(profile).profiles);
    lemma_first_position(ids, other);
    lemma_first_position(more, other);
    assert forall|j: int| 0 <= j < ids.len() implies #[trigger] more[j] == ids[j] by {}
    match first_position(ids, other) {
        Some(i) => {
            lemma_is_first_position(more, other, i);
        },
        None => {
            if let Some(k) = first_position(more, other) {
                if k < ids.len() {
                    assert(ids[k] == other);
                }
            }
        },
    }
}

/// The profile that is found under an id has that id.
pub(crate) proof fn lemma_found_profile(state: ChatView, npub: Seq<char>)
    requires
        state.has_profile(npub),
    ensures
        0 <= state.find_profile(npub)->0 < state.profiles.len(),
        state.profile(npub).id == npub,
        is_orderly(state) ==> is_orderly_chat(state.profile(npub)),
{
    lemma_first_position(profile_ids(state.profiles), npub);
}

/// A message is added to the chat with one person alone, who has a profile from then on.
pub proof fn message_goes_to_one_chat(
    state: ChatView,
    npub: Seq<char>,
    message: MessageView,
    other: Seq<char>,
)
    ensures
        state.with_message(npub, message).has_profile(npub),
        state.with_message(npub, message).profile(npub) == (if state.has_profile(npub) {
            state.profile(npub)
        } else {
            ProfileView { id: npub, ..ProfileView::empty() }
        }).with_message(message),
        other != npub ==> state.with_message(npub, message).has_profile(other)
            == state.has_profile(other),
        other != npub && state.has_profile(other) ==> state.with_message(npub, message).profile(
            other,
        ) == state.profile(other),
{
    if state.has_profile(npub) {
        lemma_found_profile(state, npub);
        let profile = state.profile(npub).with_message(message);
        other_profiles_stay(state, npub, profile, other);
        other_profiles_stay(state, npub, profile, npub);
    } else {
        let profile = ProfileView { id: npub, ..ProfileView::empty() }.with_message(message);
        lemma_pushed_profile(state, profile);
        if other != npub {
            known_profiles_stay(state, profile, other);
        }
    }
}

/// A message that is added can be found.
pub proof fn message_is_found(state: ChatView, npub: Seq<char>, message: MessageView)
    ensures
        state.with_message(npub, message).has_message(npub, message.id),
        state.with_message(npub, message).message(npub, message.id) == (if state.has_message(
            npub,
            message.id,
        ) {
            state.message(npub, message.id)
        } else {
            message
        }),
{
    message_goes_to_one_chat(state, npub, message, npub);
    if state.has_profile(npub) {
        lemma_found_profile(state, npub);
        added_message_is_there(state.profile(npub), message);
    } else {
        let profile = ProfileView { id: npub, ..ProfileView::empty() };
        lemma_first_position(message_ids(profile.messages), message.id);
        added_message_is_there(profile, message);
    }
}

/// A message is in a chat once, however often it is added: all that a second message with its id
/// does is to mark the state as changed.
pub proof fn message_is_added_once(
    state: ChatView,
    npub: Seq<char>,
    message: MessageView,
    again: MessageView,
)
    requires
        again.id == message.id,
    ensures
        state.with_message(npub, message).with_message(npub, again) == state.with_message(
            npub,
            message,
        ),
        state.has_message(npub, message.id) ==> state.with_message(npub, message)
            == state.changed(),
{
    let after = state.with_message(npub, message);
    message_goes_to_one_chat(state, npub, message, npub);
    message_is_found(state, npub, message);
    lemma_found_profile(after, npub);
    assert(after.profiles.update(after.find_profile(npub)->0, after.profile(npub))
        =~= after.profiles);
    if state.has_message(npub, message.id) {
        lemma_found_profile(state, npub);
        assert(state.profiles.update(state.find_profile(npub)->0, state.profile(npub))
            =~= state.profiles);
    }
}

/// A message that the person wrote ends their typing, and one of the account does not.
pub proof fn their_message_ends_typing(profile: ProfileView, message: MessageView)
    ensures
        profile.with_message(message).typing_until == (if message.mine || profile.has_message(
            message.id,
        ) {
            profile.typing_until
        } else {
            0
        }),
{
}

/// In which order two messages of different times arrive makes no difference.
pub proof fn arrival_order_is_lost(
    state: ChatView,
    npub: Seq<char>,
    a: MessageView,
    b: MessageView,
)
    requires
        a.at != b.at,
        a.id != b.id,
    ensures
        state.with_message(npub, a).with_message(npub, b) == state.with_message(
            npub,
            b,
        ).with_message(npub, a),
{
    let start = if state.has_profile(npub) {
        lemma_found_profile(state, npub);
        state.profile(npub)
    } else {
        ProfileView { id: npub, ..ProfileView::empty() }
    };
    message_goes_to_one_chat(state, npub, a, npub);
    message_goes_to_one_chat(state, npub, b, npub);
    lemma_chat_order_is_lost(start, a, b);
    let first = state.with_message(npub, a);
    let second = state.with_message(npub, b);
    let end = start.with_message(a).with_message(b);
    if state.has_profile(npub) {
        other_profiles_stay(state, npub, start.with_message(a), npub);
        other_profiles_stay(state, npub, start.with_message(b), npub);
        assert(first.with_message(npub, b).profiles =~= state.set_profile(npub, end).profiles);
        assert(second.with_message(npub, a).profiles =~= state.set_profile(npub, end).profiles);
    } else {
        lemma_pushed_profile(state, start.with_message(a));
        lemma_pushed_profile(state, start.with_message(b));
        assert(first.with_message(npub, b).profiles =~= state.push_profile(end).profiles);
        assert(second.with_message(npub, a).profiles =~= state.push_profile(end).profiles);
    }
}

/// In one chat, the order in which two messages of different times arrive makes no difference.
proof fn lemma_chat_order_is_lost(profile: ProfileView, a: MessageView, b: MessageView)
    requires
        a.at != b.at,
        a.id != b.id,
    ensures
        profile.with_message(a).with_message(b) == profile.with_message(b).with_message(a),
{
    other_messages_stay(profile, a, b.id);
    other_messages_stay(profile, b, a.id);
    if !profile.has_message(a.id) && !profile.has_message(b.id) {
        let _ = lemma_added_place(profile, a);
        let _ = lemma_added_place(profile, b);
        let _ = lemma_added_place(profile.with_message(a), b);
        let _ = lemma_added_place(profile.with_message(b), a);
        chronological_sorts(profile.messages.push(a));
        chronological_sorts(profile.messages.push(b));
        chronological_keeps_order(profile.with_message(a).messages);
        chronological_keeps_order(profile.with_message(b).messages);
        insertions_commute(in_order(profile).messages, a, b);
    }
}

/// A message shows a reaction that was put on it, behind those that it had, and one reaction is
/// not shown twice.
pub proof fn reaction_is_shown_once(message: MessageView, reaction: ReactionView)
    ensures
        message.with_reaction(reaction).has_reaction(reaction.id),
        message.reactions.is_prefix_of(message.with_reaction(reaction).reactions),
        message.with_reaction(reaction).with_reaction(reaction) == message.with_reaction(reaction),
        reacts_once(message) ==> reacts_once(message.with_reaction(reaction)),
{
    let after = message.with_reaction(reaction);
    if !message.has_reaction(reaction.id) {
        assert(after.reactions[message.reactions.len() as int].id == reaction.id);
        assert(after.reactions.subrange(0, message.reactions.len() as int) =~= message.reactions);
        if reacts_once(message) {
            assert forall|i: int, j: int| 0 <= i < j < after.reactions.len() implies (
            #[trigger] after.reactions[i]).id != (#[trigger] after.reactions[j]).id by {
                assert(after.reactions[i] == message.reactions[i]);
            }
        }
    } else {
        assert(after.reactions.subrange(0, message.reactions.len() as int) =~= message.reactions);
    }
}

/// A reaction is put on one message, which keeps its place and all else that it holds, and the
/// other messages and profiles stay as they are.
pub proof fn reaction_goes_to_one_message(
    state: ChatView,
    npub: Seq<char>,
    id: Seq<char>,
    reaction: ReactionView,
    other_npub: Seq<char>,
    other_id: Seq<char>,
)
    requires
        state.has_message(npub, id),
        other_npub != npub || other_id != id,
    ensures
        state.with_reaction(npub, id, reaction).has_message(npub, id),
        state.with_reaction(npub, id, reaction).message(npub, id) == state.message(
            npub,
            id,
        ).with_reaction(reaction),
        state.with_reaction(npub, id, reaction).has_message(other_npub, other_id)
            == state.has_message(other_npub, other_id),
        state.has_message(other_npub, other_id) ==> state.with_reaction(
            npub,
            id,
            reaction,
        ).message(other_npub, other_id) == state.message(other_npub, other_id),
{
    lemma_found_profile(state, npub);
    let before = state.profile(npub);
    let profile = before.with_reaction(id, reaction);
    lemma_first_position(message_ids(before.messages), id);
    lemma_first_position(message_ids(before.messages), other_id);
    assert(message_ids(profile.messages) =~= message_ids(before.messages));
    other_profiles_stay(state, npub, profile, npub);
    other_profiles_stay(state, npub, profile, other_npub);
}

/// Putting a reaction on a message a second time changes nothing.
pub proof fn reaction_is_added_once(
    state: ChatView,
    npub: Seq<char>,
    id: Seq<char>,
    reaction: ReactionView,
)
    ensures
        state.with_reaction(npub, id, reaction).with_reaction(npub, id, reaction)
            == state.with_reaction(npub, id, reaction),
{
    if state.has_message(npub, id) {
        let after = state.with_reaction(npub, id, reaction);
        reaction_goes_to_one_message(state, npub, id, reaction, npub, id + seq!['+']);
        reaction_is_shown_once(state.message(npub, id), reaction);
        lemma_found_profile(after, npub);
        let profile = after.profile(npub);
        lemma_first_position(message_ids(profile.messages), id);
        assert(profile.messages.update(profile.find_message(id)->0, profile.message(id))
            =~= profile.messages);
        assert(after.profiles.update(after.find_profile(npub)->0, profile) =~= after.profiles);
    }
}

} // verus!
