//! What every call on messages, profiles and chats does, told by what goes in and what comes out.

use vstd::prelude::*;
use crate::chat::{ChatState, Metadata, Profile, Status};
#[allow(unused_imports)]
use crate::chat::{
    lemma_first_position, lemma_is_first_position, message_ids, profile_ids, ChatView,
    ProfileView, StatusView,
};
use crate::timeline::{sort_by_time, Message, Reaction};
#[allow(unused_imports)]
use crate::timeline::{
    chronological, chronological_is_stable, chronological_sorts, views, written_at, MessageView,
    ReactionView,
};

verus! {

/// Whether the first profile with this id stands in this place.
pub open spec fn is_first_profile(profiles: Seq<ProfileView>, i: int, npub: Seq<char>) -> bool {
    &&& 0 <= i < profiles.len()
    &&& profiles[i].id == npub
    &&& forall|j: int| 0 <= j < i ==> (#[trigger] profiles[j]).id != npub
}

/// Whether no profile has this id.
pub open spec fn is_stranger(profiles: Seq<ProfileView>, npub: Seq<char>) -> bool {
    forall|j: int| 0 <= j < profiles.len() ==> (#[trigger] profiles[j]).id != npub
}

/// Whether the first message with this id stands in this place.
pub open spec fn is_first_message(messages: Seq<MessageView>, k: int, id: Seq<char>) -> bool {
    &&& 0 <= k < messages.len()
    &&& messages[k].id == id
    &&& forall|j: int| 0 <= j < k ==> (#[trigger] messages[j]).id != id
}

/// Whether no message has this id.
pub open spec fn is_new_id(messages: Seq<MessageView>, id: Seq<char>) -> bool {
    forall|j: int| 0 <= j < messages.len() ==> (#[trigger] messages[j]).id != id
}

/// Whether all profiles but one are as they were.
pub open spec fn same_but_for(
    before: Seq<ProfileView>,
    after: Seq<ProfileView>,
    i: int,
) -> bool {
    &&& after.len() == before.len()
    &&& forall|j: int| 0 <= j < before.len() && j != i ==> #[trigger] after[j] == before[j]
}

/// Whether a chat is what it was with one message more: among the others by time, behind those of
/// its time, if its id is new, and nothing else.
pub open spec fn chat_gains(
    before: ProfileView,
    after: ProfileView,
    message: MessageView,
) -> bool {
    &&& is_new_id(before.messages, message.id) ==> {
        &&& after.messages.to_multiset() == before.messages.to_multiset().insert(message)
        &&& forall|i: int, j: int|
            0 <= i <= j < after.messages.len() ==> (#[trigger] after.messages[i]).at <= (
            #[trigger] after.messages[j]).at
        &&& forall|at: u64| #[trigger]
            written_at(after.messages, at) == written_at(before.messages.push(message), at)
        &&& after.typing_until == if message.mine {
            before.typing_until
        } else {
            0
        }
        &&& after == ProfileView {
            messages: after.messages,
            typing_until: after.typing_until,
            ..before
        }
    }
    &&& !is_new_id(before.messages, message.id) ==> after == before
}

/// Whether profiles are what they were with one message more in the chat with one person, who
/// has a profile from then on that shows nothing else.
pub open spec fn profiles_gain(
    before: Seq<ProfileView>,
    after: Seq<ProfileView>,
    npub: Seq<char>,
    message: MessageView,
) -> bool {
    &&& forall|i: int| #[trigger]
        is_first_profile(before, i, npub) ==> same_but_for(before, after, i) && chat_gains(
            before[i],
            after[i],
            message,
        )
    &&& is_stranger(before, npub) ==> {
        &&& after.len() == before.len() + 1
        &&& forall|j: int| 0 <= j < before.len() ==> #[trigger] after[j] == before[j]
        &&& chat_gains(
            ProfileView {
                id: npub,
                name: seq![],
                avatar: seq![],
                messages: seq![],
                status: StatusView { title: seq![], purpose: seq![], url: seq![] },
                last_updated: 0,
                typing_until: 0,
                mine: false,
            },
            after[before.len() as int],
            message,
        )
    }
}

/// Whether a message is what it was with one reaction more behind the others, if its id is new,
/// and nothing else.
pub open spec fn message_gains(
    before: MessageView,
    after: MessageView,
    reaction: ReactionView,
) -> bool {
    let is_new = forall|j: int|
        0 <= j < before.reactions.len() ==> (#[trigger] before.reactions[j]).id != reaction.id;
    &&& is_new ==> after.reactions == before.reactions.push(reaction)
    &&& !is_new ==> after.reactions == before.reactions
    &&& after == MessageView { reactions: after.reactions, ..before }
}

/// Whether a chat is what it was with one reaction more on the first message with an id, and
/// nothing else.
pub open spec fn chat_reacts(
    before: ProfileView,
    after: ProfileView,
    id: Seq<char>,
    reaction: ReactionView,
) -> bool {
    &&& forall|k: int| #[trigger]
        is_first_message(before.messages, k, id) ==> {
            &&& after.messages.len() == before.messages.len()
            &&& message_gains(before.messages[k], after.messages[k], reaction)
            &&& forall|j: int|
                0 <= j < before.messages.len() && j != k ==> #[trigger] after.messages[j]
                    == before.messages[j]
            &&& after == ProfileView { messages: after.messages, ..before }
        }
    &&& is_new_id(before.messages, id) ==> after == before
}

/// Whether profiles are what they were with one reaction more on a message of the chat with one
/// person, and nothing else.
pub open spec fn profiles_react(
    before: Seq<ProfileView>,
    after: Seq<ProfileView>,
    npub: Seq<char>,
    id: Seq<char>,
    reaction: ReactionView,
) -> bool {
    &&& forall|i: int| #[trigger]
        is_first_profile(before, i, npub) ==> same_but_for(before, after, i) && chat_reacts(
            before[i],
            after[i],
            id,
            reaction,
        )
    &&& is_stranger(before, npub) ==> after == before
}

/// Whether the chat with one person has a message with an id.
pub open spec fn chat_holds(
    profiles: Seq<ProfileView>,
    npub: Seq<char>,
    id: Seq<char>,
) -> bool {
    exists|i: int| #[trigger]
        is_first_profile(profiles, i, npub) && !is_new_id(profiles[i].messages, id)
}

/// The first profile with an id is the one that is found.
pub(crate) proof fn lemma_find_profile(state: ChatView, npub: Seq<char>)
    ensures
        state.has_profile(npub) == !is_stranger(state.profiles, npub),
        state.find_profile(npub) matches Some(i) ==> is_first_profile(state.profiles, i, npub),
        forall|i: int| #[trigger]
            is_first_profile(state.profiles, i, npub) ==> state.find_profile(npub) == Some(i),
{
    let ids = profile_ids(state.profiles);
    lemma_first_position(ids, npub);
    assert forall|j: int| 0 <= j < ids.len() implies (#[trigger] state.profiles[j]).id
        == ids[j] by {}
    if let Some(i) = state.find_profile(npub) {
        assert(state.profiles[i].id == npub);
    }
    assert forall|i: int| #[trigger]
        is_first_profile(state.profiles, i, npub) implies state.find_profile(npub) == Some(i) by {
        assert forall|j: int| 0 <= j < i implies #[trigger] ids[j] != npub by {
            assert(state.profiles[j].id == ids[j]);
        }
        lemma_is_first_position(ids, npub, i);
    }
}

/// The first message with an id is the one that is found.
pub(crate) proof fn lemma_find_message(profile: ProfileView, id: Seq<char>)
    ensures
        profile.has_message(id) == !is_new_id(profile.messages, id),
        profile.find_message(id) matches Some(k) ==> is_first_message(profile.messages, k, id),
        forall|k: int| #[trigger]
            is_first_message(profile.messages, k, id) ==> profile.find_message(id) == Some(k),
{
    let ids = message_ids(profile.messages);
    lemma_first_position(ids, id);
    assert forall|j: int| 0 <= j < ids.len() implies (#[trigger] profile.messages[j]).id
        == ids[j] by {}
    if let Some(k) = profile.find_message(id) {
        assert(profile.messages[k].id == id);
    }
    assert forall|k: int| #[trigger]
        is_first_message(profile.messages, k, id) implies profile.find_message(id) == Some(k) by {
        assert forall|j: int| 0 <= j < k implies #[trigger] ids[j] != id by {
            assert(profile.messages[j].id == ids[j]);
        }
        lemma_is_first_position(ids, id, k);
    }
}

/// A chat holds a message just if it is found.
pub(crate) proof fn lemma_chat_holds(state: ChatView, npub: Seq<char>, id: Seq<char>)
    ensures
        state.has_message(npub, id) == chat_holds(state.profiles, npub, id),
{
    lemma_find_profile(state, npub);
    if state.has_profile(npub) {
        lemma_find_message(state.profile(npub), id);
    }
}

/// What adding a message makes of a chat.
pub(crate) proof fn lemma_chat_gains(profile: ProfileView, message: MessageView)
    ensures
        chat_gains(profile, profile.with_message(message), message),
{
    broadcast use vstd::seq_lib::group_to_multiset_ensures;

    lemma_find_message(profile, message.id);
    let all = profile.messages.push(message);
    chronological_sorts(all);
    assert forall|at: u64| #[trigger] written_at(chronological(all), at) == written_at(all, at) by {
        chronological_is_stable(all, at);
    }
}

/// What adding a message makes of the profiles.
pub(crate) proof fn lemma_profiles_gain(state: ChatView, npub: Seq<char>, message: MessageView)
    ensures
        profiles_gain(
            state.profiles,
            state.with_message(npub, message).profiles,
            npub,
            message,
        ),
{
    lemma_find_profile(state, npub);
    if state.has_profile(npub) {
        lemma_chat_gains(state.profile(npub), message);
    } else {
        lemma_chat_gains(ProfileView { id: npub, ..ProfileView::empty() }, message);
    }
}

/// What adding a reaction makes of the profiles.
pub(crate) proof fn lemma_profiles_react(
    state: ChatView,
    npub: Seq<char>,
    id: Seq<char>,
    reaction: ReactionView,
)
    ensures
        profiles_react(
            state.profiles,
            state.with_reaction(npub, id, reaction).profiles,
            npub,
            id,
            reaction,
        ),
{
    lemma_find_profile(state, npub);
    if state.has_profile(npub) {
        let profile = state.profile(npub);
        lemma_find_message(profile, id);
        assert forall|k: int| #[trigger]
            is_first_message(profile.messages, k, id) implies message_gains(
            profile.messages[k],
            profile.messages[k].with_reaction(reaction),
            reaction,
        ) by {
            let message = profile.messages[k];
            if message.has_reaction(reaction.id) {
                let j = choose|j: int|
                    0 <= j < message.reactions.len() && (#[trigger] message.reactions[j]).id
                        == reaction.id;
                assert(message.reactions[j].id == reaction.id);
            }
        }
    }
}

/// A view of a message shows each field as it is.
pub proof fn messages_are_shown_whole(message: Message, reaction: Reaction)
    ensures
        message@.id == message.id@,
        message@.content == message.content@,
        message@.reactions.len() == message.reactions@.len(),
        forall|i: int|
            0 <= i < message.reactions@.len() ==> #[trigger] message@.reactions[i]
                == message.reactions@[i]@,
        message@.at == message.at,
        message@.pending == message.pending,
        message@.failed == message.failed,
        message@.mine == message.mine,
        reaction@.id == reaction.id@,
        reaction@.reference_id == reaction.reference_id@,
        reaction@.author_id == reaction.author_id@,
        reaction@.emoji == reaction.emoji@,
{
}

/// A view of a profile shows each field as it is.
pub proof fn profiles_are_shown_whole(
    profile: Profile,
    status: Status,
    meta: Metadata,
    state: ChatState,
)
    ensures
        profile@.id == profile.id@,
        profile@.name == profile.name@,
        profile@.avatar == profile.avatar@,
        profile@.messages.len() == profile.messages@.len(),
        forall|i: int|
            0 <= i < profile.messages@.len() ==> #[trigger] profile@.messages[i]
                == profile.messages@[i]@,
        profile@.status == profile.status@,
        profile@.last_updated == profile.last_updated,
        profile@.typing_until == profile.typing_until,
        profile@.mine == profile.mine,
        status@.title == status.title@,
        status@.purpose == status.purpose@,
        status@.url == status.url@,
        meta.name is Some == meta@.name is Some,
        meta.name is Some ==> meta@.name == Some(meta.name->0@),
        meta.picture is Some == meta@.picture is Some,
        meta.picture is Some ==> meta@.picture == Some(meta.picture->0@),
        state@.profiles.len() == state.profiles@.len(),
        forall|i: int|
            0 <= i < state.profiles@.len() ==> #[trigger] state@.profiles[i]
                == state.profiles@[i]@,
        state@.has_state_changed == state.has_state_changed,
{
}

/// A new status, a new profile and a new state show nothing, and the state is yet to be shown.
pub proof fn new_values_are_blank(status: Status, profile: Profile, state: ChatState)
    requires
        call_ensures(Status::new, (), status),
        call_ensures(Profile::new, (), profile),
        call_ensures(ChatState::new, (), state),
    ensures
        status.title@.len() == 0,
        status.purpose@.len() == 0,
        status.url@.len() == 0,
        profile.id@.len() == 0,
        profile.name@.len() == 0,
        profile.avatar@.len() == 0,
        profile.messages@.len() == 0,
        profile.status.title@.len() == 0,
        profile.status.purpose@.len() == 0,
        profile.status.url@.len() == 0,
        profile.last_updated == 0,
        profile.typing_until == 0,
        !profile.mine,
        state.profiles@.len() == 0,
        state.has_state_changed,
{
    assert(profile@.messages.len() == profile.messages@.len());
    assert(state@.profiles.len() == state.profiles@.len());
}

/// A copy holds the same.
pub proof fn copies_are_the_same(
    message: &Message,
    message_copy: Message,
    profile: &Profile,
    profile_copy: Profile,
    status: &Status,
    status_copy: Status,
    reaction: &Reaction,
    reaction_copy: Reaction,
)
    requires
        call_ensures(Message::clone, (message,), message_copy),
        call_ensures(Profile::clone, (profile,), profile_copy),
        call_ensures(Status::clone, (status,), status_copy),
        call_ensures(Reaction::clone, (reaction,), reaction_copy),
    ensures
        message_copy@ == message@,
        profile_copy@ == profile@,
        status_copy@ == status@,
        reaction_copy@ == reaction@,
{
}

/// Sorting puts messages in the order of their times, keeps all of them, and keeps the order of
/// those of one time.
pub proof fn sorting_sorts(messages: &mut Vec<Message>, at: u64)
    requires
        call_ensures(sort_by_time, (messages,), ()),
    ensures
        forall|i: int, j: int|
            0 <= i <= j < final(messages)@.len() ==> (#[trigger] final(messages)@[i]).at <= (
            #[trigger] final(messages)@[j]).at,
        views(final(messages)@).to_multiset() == views(old(messages)@).to_multiset(),
        written_at(views(final(messages)@), at) == written_at(views(old(messages)@), at),
{
    let after = views(final(messages)@);
    chronological_sorts(views(old(messages)@));
    chronological_is_stable(views(old(messages)@), at);
    assert forall|i: int, j: int| 0 <= i <= j < final(messages)@.len() implies (
    #[trigger] final(messages)@[i]).at <= (#[trigger] final(messages)@[j]).at by {
        assert(after[i].at <= after[j].at);
    }
}

/// A reaction is put behind the others of a message, once.
pub proof fn add_reaction_to_message(message: &mut Message, reaction: Reaction)
    requires
        call_ensures(Message::add_reaction, (message, reaction), ()),
    ensures
        message_gains(old(message)@, final(message)@, reaction@),
{
    let before = old(message)@;
    if before.has_reaction(reaction@.id) {
        let j = choose|j: int|
            0 <= j < before.reactions.len() && (#[trigger] before.reactions[j]).id == reaction@.id;
        assert(before.reactions[j].id == reaction@.id);
    }
}

/// The first message with an id is found, and what is done to it is done to nothing else.
pub proof fn get_message_mut_finds_first(
    profile: &mut Profile,
    id: String,
    found: Result<&mut Message, ()>,
)
    requires
        call_ensures(Profile::get_message_mut, (profile, id), found),
    ensures
        found is Ok == !is_new_id(old(profile)@.messages, id@),
        found matches Ok(message) ==> exists|k: int| #[trigger]
            is_first_message(old(profile)@.messages, k, id@) && message@
                == old(profile)@.messages[k] && final(profile)@ == (ProfileView {
                messages: old(profile)@.messages.update(k, final(message)@),
                ..old(profile)@
            }),
        found is Err ==> final(profile)@ == old(profile)@,
{
    lemma_find_message(old(profile)@, id@);
}

/// Metadata replace name and avatar as far as they give them, and change nothing else.
pub proof fn from_metadata_takes_over(profile: &mut Profile, meta: Metadata)
    requires
        call_ensures(Profile::from_metadata, (profile, meta), ()),
    ensures
        meta.name matches Some(name) ==> final(profile).name@ == name@,
        meta.name is None ==> final(profile).name@ == old(profile).name@,
        meta.picture matches Some(picture) ==> final(profile).avatar@ == picture@,
        meta.picture is None ==> final(profile).avatar@ == old(profile).avatar@,
        final(profile)@ == (ProfileView {
            name: final(profile)@.name,
            avatar: final(profile)@.avatar,
            ..old(profile)@
        }),
{
}

/// A chat gains just the message that is added.
pub proof fn internal_add_message_adds(profile: &mut Profile, message: Message)
    requires
        call_ensures(Profile::internal_add_message, (profile, message), ()),
    ensures
        chat_gains(old(profile)@, final(profile)@, message@),
{
    lemma_chat_gains(old(profile)@, message@);
}

/// A chat gains just the reaction that is added.
pub proof fn internal_add_reaction_adds(
    profile: &mut Profile,
    id: String,
    reaction: Reaction,
    found: bool,
)
    requires
        call_ensures(Profile::internal_add_reaction, (profile, id, reaction), found),
    ensures
        chat_reacts(old(profile)@, final(profile)@, id@, reaction@),
        found == !is_new_id(old(profile)@.messages, id@),
{
    let before = old(profile)@;
    lemma_find_message(before, id@);
    let state = ChatView { profiles: seq![before], has_state_changed: false };
    assert(is_first_profile(state.profiles, 0, before.id));
    lemma_find_profile(state, before.id);
    lemma_profiles_react(state, before.id, id@, reaction@);
}

/// The first profile with an id is found.
pub proof fn get_profile_finds_first(
    state: &ChatState,
    npub: String,
    found: Result<&Profile, ()>,
)
    requires
        call_ensures(ChatState::get_profile, (state, npub), found),
    ensures
        found is Ok == !is_stranger(state@.profiles, npub@),
        found matches Ok(profile) ==> exists|i: int| #[trigger]
            is_first_profile(state@.profiles, i, npub@) && profile@ == state@.profiles[i],
{
    lemma_find_profile(state@, npub@);
}

/// The first profile with an id is found, and what is done to it is done to nothing else.
pub proof fn get_profile_mut_finds_first(
    state: &mut ChatState,
    npub: String,
    found: Result<&mut Profile, ()>,
)
    requires
        call_ensures(ChatState::get_profile_mut, (state, npub), found),
    ensures
        found is Ok == !is_stranger(old(state)@.profiles, npub@),
        found matches Ok(profile) ==> exists|i: int| #[trigger]
            is_first_profile(old(state)@.profiles, i, npub@) && profile@ == old(
                state,
            )@.profiles[i] && final(state)@.profiles == old(state)@.profiles.update(
                i,
                final(profile)@,
            ),
        found is Err ==> final(state)@.profiles == old(state)@.profiles,
        final(state)@.has_state_changed == old(state)@.has_state_changed,
{
    lemma_find_profile(old(state)@, npub@);
}

/// Whether a chat holds a message is told by their ids.
pub proof fn has_message_tells(state: &ChatState, npub: &String, id: &String, res: bool)
    requires
        call_ensures(ChatState::has_message, (state, npub, id), res),
    ensures
        res == chat_holds(state@.profiles, npub@, id@),
{
    lemma_chat_holds(state@, npub@, id@);
}

/// A message that is added is there, as it is, and nothing else changes but the mark.
pub proof fn add_message_adds(state: &mut ChatState, npub: String, message: Message)
    requires
        call_ensures(ChatState::add_message, (state, npub, message), ()),
    ensures
        profiles_gain(old(state)@.profiles, final(state)@.profiles, npub@, message@),
        final(state)@.has_state_changed,
{
    lemma_profiles_gain(old(state)@, npub@, message@);
}

/// A reaction that is added is there, as it is, if its message is, and nothing else changes but
/// the mark.
pub proof fn add_reaction_adds(
    state: &mut ChatState,
    npub: String,
    id: String,
    reaction: Reaction,
    found: bool,
)
    requires
        call_ensures(ChatState::add_reaction, (state, npub, id, reaction), found),
    ensures
        profiles_react(old(state)@.profiles, final(state)@.profiles, npub@, id@, reaction@),
        found == chat_holds(old(state)@.profiles, npub@, id@),
        final(state)@.has_state_changed == (found || old(state)@.has_state_changed),
{
    lemma_chat_holds(old(state)@, npub@, id@);
    lemma_profiles_react(old(state)@, npub@, id@, reaction@);
}

} // verus!
