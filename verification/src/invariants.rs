//! What holds of the state at all times: that chats stand in the order of time, that no message
//! shows one reaction twice, and that ids tell profiles and messages apart.

use vstd::prelude::*;
#[allow(unused_imports)]
use crate::account::{refreshed, with_general_status, with_profile};
#[allow(unused_imports)]
use crate::chat::{
    lemma_first_position, message_ids, profile_ids, ChatView, MetadataView, ProfileView,
    StatusView,
};
#[allow(unused_imports)]
use crate::hex::hex_text;
#[allow(unused_imports)]
use crate::histories::{
    in_order, is_orderly, is_orderly_chat, lemma_added_place, lemma_chronological_ids,
    lemma_found_profile, lemma_insert_id, reacts_once, reaction_is_shown_once,
};
#[allow(unused_imports)]
use crate::incoming::{received, received_message, received_reaction, typing_expiry, OriginView};
#[allow(unused_imports)]
use crate::nostr::{find_tag, RumorView, PRIVATE_DIRECT_MESSAGE, REACTION};
#[allow(unused_imports)]
use crate::outgoing::{after_settling, settled};
#[allow(unused_imports)]
use crate::timeline::{chronological_sorts, MessageView, ReactionView};

verus! {

/// Whether no two profiles have one id, and no two messages of a chat.
pub open spec fn is_unambiguous(state: ChatView) -> bool {
    &&& profile_ids(state.profiles).no_duplicates()
    &&& forall|i: int|
        0 <= i < state.profiles.len() ==> is_unambiguous_chat(#[trigger] state.profiles[i])
}

/// Whether no two messages of a chat have one id.
pub open spec fn is_unambiguous_chat(profile: ProfileView) -> bool {
    message_ids(profile.messages).no_duplicates()
}

/// A state without profiles is in order.
pub proof fn empty_state_is_in_order(state: ChatView)
    requires
        state.profiles.len() == 0,
    ensures
        is_orderly(state),
        is_unambiguous(state),
{
}

/// What is done to one profile keeps the state in order, if it keeps the profile in order.
proof fn lemma_set_profile(state: ChatView, npub: Seq<char>, profile: ProfileView)
    requires
        state.has_profile(npub),
        profile.id == npub,
    ensures
        is_orderly(state) && is_orderly_chat(profile) ==> is_orderly(
            state.set_profile(npub, profile),
        ),
        is_unambiguous(state) && is_unambiguous_chat(profile) ==> is_unambiguous(
            state.set_profile(npub, profile),
        ),
{
    lemma_found_profile(state, npub);
    assert(profile_ids(state.set_profile(npub, profile).profiles) =~= profile_ids(state.profiles));
}

/// A profile that is added keeps the state in order, if it is in order itself.
proof fn lemma_push_profile(state: ChatView, profile: ProfileView)
    ensures
        is_orderly(state) && is_orderly_chat(profile) ==> is_orderly(state.push_profile(profile)),
        is_unambiguous(state) && is_unambiguous_chat(profile) && !state.has_profile(profile.id)
            ==> is_unambiguous(state.push_profile(profile)),
{
    let ids = profile_ids(state.profiles);
    let after = state.push_profile(profile);
    lemma_first_position(ids, profile.id);
    assert(profile_ids(after.profiles) =~= ids.push(profile.id));
}

/// A message that is added keeps its chat in order.
proof fn lemma_add_message(profile: ProfileView, message: MessageView)
    ensures
        is_orderly_chat(profile) && reacts_once(message) ==> is_orderly_chat(
            profile.with_message(message),
        ),
        is_unambiguous_chat(profile) ==> is_unambiguous_chat(profile.with_message(message)),
{
    broadcast use vstd::seq_lib::group_to_multiset_ensures;

    if !profile.has_message(message.id) {
        let place = lemma_added_place(profile, message);
        let all = profile.messages.push(message);
        let after = profile.with_message(message).messages;
        chronological_sorts(all);
        if is_orderly_chat(profile) && reacts_once(message) {
            assert forall|i: int| 0 <= i < after.len() implies reacts_once(
                #[trigger] after[i],
            ) by {
                assert(after.to_multiset().count(after[i]) > 0);
                assert(all.contains(after[i]));
                let j = choose|j: int| 0 <= j < all.len() && all[j] == after[i];
                if j < profile.messages.len() {
                    assert(reacts_once(profile.messages[j]));
                }
            }
        }
        lemma_chronological_ids(profile.messages);
        lemma_insert_id(message_ids(in_order(profile).messages), place, message.id);
    }
}

/// Adding a message keeps the state in order.
pub proof fn message_keeps_order(state: ChatView, npub: Seq<char>, message: MessageView)
    ensures
        is_orderly(state) && reacts_once(message) ==> is_orderly(
            state.with_message(npub, message),
        ),
        is_unambiguous(state) ==> is_unambiguous(state.with_message(npub, message)),
{
    if state.has_profile(npub) {
        lemma_found_profile(state, npub);
        lemma_add_message(state.profile(npub), message);
        lemma_set_profile(state, npub, state.profile(npub).with_message(message));
    } else {
        let profile = ProfileView { id: npub, ..ProfileView::empty() };
        lemma_add_message(profile, message);
        lemma_push_profile(state, profile.with_message(message));
    }
}

/// Adding a reaction keeps the state in order.
pub proof fn reaction_keeps_order(
    state: ChatView,
    npub: Seq<char>,
    id: Seq<char>,
    reaction: ReactionView,
)
    ensures
        is_orderly(state) ==> is_orderly(state.with_reaction(npub, id, reaction)),
        is_unambiguous(state) ==> is_unambiguous(state.with_reaction(npub, id, reaction)),
{
    if state.has_message(npub, id) {
        lemma_found_profile(state, npub);
        let before = state.profile(npub);
        let profile = before.with_reaction(id, reaction);
        lemma_first_position(message_ids(before.messages), id);
        reaction_is_shown_once(before.message(id), reaction);
        assert(message_ids(profile.messages) =~= message_ids(before.messages));
        lemma_set_profile(state, npub, profile);
    }
}

/// A change of a profile that leaves its chat alone keeps the state in order.
proof fn lemma_change_profile(state: ChatView, npub: Seq<char>, profile: ProfileView)
    requires
        state.has_profile(npub),
        profile.id == npub,
        profile.messages == state.profile(npub).messages,
    ensures
        is_orderly(state) ==> is_orderly(state.set_profile(npub, profile)),
        is_unambiguous(state) ==> is_unambiguous(state.set_profile(npub, profile)),
{
    lemma_found_profile(state, npub);
    lemma_set_profile(state, npub, profile);
}

/// Whatever arrives keeps the state in order.
pub proof fn reception_keeps_order(
    state: ChatView,
    rumor: RumorView,
    origin: OriginView,
    now: u64,
)
    ensures
        is_orderly(state) ==> is_orderly(received(state, rumor, origin, now)),
        is_unambiguous(state) ==> is_unambiguous(received(state, rumor, origin, now)),
{
    if rumor.kind == PRIVATE_DIRECT_MESSAGE {
        message_keeps_order(state, origin.contact, received_message(rumor, origin));
    } else if rumor.kind == REACTION {
        if let Some(tag) = find_tag(rumor.tags, "e"@) {
            reaction_keeps_order(
                state,
                origin.contact,
                tag[1],
                received_reaction(rumor, origin, tag[1]),
            );
        }
    } else if let Some(expiry) = typing_expiry(rumor) {
        if state.has_profile(origin.author) {
            lemma_found_profile(state, origin.author);
            lemma_change_profile(
                state,
                origin.author,
                ProfileView { typing_until: expiry, ..state.profile(origin.author) },
            );
        }
    }
}

/// Settling a message keeps chats in the order of time. It keeps ids apart too, unless the
/// message gets an id that another message of the chat has.
pub proof fn settling_keeps_order(
    state: ChatView,
    receiver: Seq<char>,
    message_id: Seq<char>,
    id: Seq<u8>,
    sent: bool,
)
    requires
        state.has_message(receiver, message_id),
    ensures
        is_orderly(state) ==> is_orderly(after_settling(state, receiver, message_id, id, sent)),
        is_unambiguous(state) && (sent ==> !state.has_message(receiver, hex_text(id)) || message_id
            == hex_text(id)) ==> is_unambiguous(
            after_settling(state, receiver, message_id, id, sent),
        ),
{
    lemma_found_profile(state, receiver);
    let before = state.profile(receiver);
    let ids = message_ids(before.messages);
    lemma_first_position(ids, message_id);
    lemma_first_position(ids, hex_text(id));
    let place = before.find_message(message_id)->0;
    let message = settled(before.messages[place], id, sent);
    let profile = before.set_message(place, message);
    assert(message_ids(profile.messages) =~= ids.update(place, message.id));
    lemma_set_profile(state, receiver, profile);
}

/// Making a profile for someone keeps the state in order.
pub proof fn new_profile_keeps_order(state: ChatView, npub: Seq<char>)
    ensures
        is_orderly(state) ==> is_orderly(with_profile(state, npub)),
        is_unambiguous(state) ==> is_unambiguous(with_profile(state, npub)),
{
    if !state.has_profile(npub) {
        lemma_push_profile(state, ProfileView { id: npub, ..ProfileView::empty() });
    }
}

/// Adding the profile of the account keeps chats in the order of time. It keeps ids apart too,
/// unless the account has a profile already.
pub proof fn own_profile_keeps_order(state: ChatView, npub: Seq<char>)
    ensures
        ({
            let profile = ProfileView { id: npub, mine: true, ..ProfileView::empty() };
            &&& is_orderly(state) ==> is_orderly(state.push_profile(profile))
            &&& is_unambiguous(state) && !state.has_profile(npub) ==> is_unambiguous(
                state.push_profile(profile),
            )
        }),
{
    lemma_push_profile(state, ProfileView { id: npub, mine: true, ..ProfileView::empty() });
}

/// What is fetched or published about a person keeps the state in order.
pub proof fn profile_changes_keep_order(
    state: ChatView,
    npub: Seq<char>,
    mine: bool,
    status: StatusView,
    meta: MetadataView,
    title: Seq<char>,
    now: u64,
)
    requires
        state.has_profile(npub),
    ensures
        ({
            let profile = state.profile(npub);
            let loaded = state.set_profile(npub, refreshed(profile, mine, status, meta, now));
            let updated = state.set_profile(npub, profile.with_metadata(meta));
            let announced = state.set_profile(npub, with_general_status(profile, title));
            &&& is_orderly(state) ==> is_orderly(loaded) && is_orderly(updated) && is_orderly(
                announced,
            )
            &&& is_unambiguous(state) ==> is_unambiguous(loaded) && is_unambiguous(updated)
                && is_unambiguous(announced)
        }),
{
    lemma_found_profile(state, npub);
    let profile = state.profile(npub);
    lemma_change_profile(state, npub, refreshed(profile, mine, status, meta, now));
    lemma_change_profile(state, npub, profile.with_metadata(meta));
    lemma_change_profile(state, npub, with_general_status(profile, title));
}

/// Whether something was changed has nothing to do with order.
pub proof fn flag_does_not_matter(state: ChatView, other: ChatView)
    requires
        state.profiles == other.profiles,
    ensures
        is_orderly(state) == is_orderly(other),
        is_unambiguous(state) == is_unambiguous(other),
{
}

} // verus!
