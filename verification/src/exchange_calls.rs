//! What every call on what is sent and received does, told by what goes in and what comes out.

use vstd::prelude::*;
use crate::chat::ChatState;
#[allow(unused_imports)]
use crate::chat::{ChatView, ProfileView};
#[allow(unused_imports)]
use crate::chat_calls::{
    chat_holds, is_first_message, is_first_profile, is_stranger, lemma_chat_holds,
    lemma_find_message, lemma_find_profile, lemma_profiles_gain, lemma_profiles_react,
    profiles_gain, profiles_react, same_but_for,
};
#[allow(unused_imports)]
use crate::hex::{hex_bytes, hex_text, is_event_id};
#[allow(unused_imports)]
use crate::histories::message_is_found;
use crate::incoming::{contact_of, same_key, trace, Origin, Reception};
#[allow(unused_imports)]
use crate::incoming::{is_receivable, origin_of, received, reception, OriginView, ReceptionView};
use crate::nostr::{tag_named, Rumor};
#[allow(unused_imports)]
use crate::nostr::{event_id, find_tag, npub, npub_key, tagged_key, RumorView};
use crate::outgoing::{
    direct_message, reaction, start_typing, Addressed, Delivery, TypingIndicator,
};
#[allow(unused_imports)]
use crate::outgoing::{is_next_number, pending_count, pending_id, pending_to};
#[allow(unused_imports)]
use crate::text::{decimal_text, number_in};
#[allow(unused_imports)]
use crate::timeline::{MessageView, ReactionView};

verus! {

/// Whether the first tag with this name stands in this place.
pub open spec fn is_first_tag(tags: Seq<Seq<Seq<char>>>, k: int, name: Seq<char>) -> bool {
    &&& 0 <= k < tags.len()
    &&& tags[k].len() > 0
    &&& tags[k][0] == name
    &&& forall|j: int| 0 <= j < k ==> (#[trigger] tags[j]).len() == 0 || tags[j][0] != name
}

/// Whether no tag has this name.
pub open spec fn has_no_tag(tags: Seq<Seq<Seq<char>>>, name: Seq<char>) -> bool {
    forall|j: int| 0 <= j < tags.len() ==> (#[trigger] tags[j]).len() == 0 || tags[j][0] != name
}

/// The first tag with a name is the one that is found.
proof fn lemma_find_tag(tags: Seq<Seq<Seq<char>>>, name: Seq<char>)
    ensures
        find_tag(tags, name) is None == has_no_tag(tags, name),
        find_tag(tags, name) matches Some(tag) ==> exists|k: int| #[trigger]
            is_first_tag(tags, k, name) && tags[k] == tag,
        forall|k: int| #[trigger]
            is_first_tag(tags, k, name) ==> find_tag(tags, name) == Some(tags[k]),
    decreases tags.len(),
{
    if tags.len() > 0 {
        let rest = tags.drop_first();
        lemma_find_tag(rest, name);
        assert forall|j: int| 0 < j < tags.len() implies #[trigger] tags[j] == rest[j - 1] by {}
        assert forall|j: int| 0 <= j < rest.len() implies #[trigger] rest[j] == tags[j + 1] by {}
        if tags[0].len() > 0 && tags[0][0] == name {
            assert(is_first_tag(tags, 0, name));
        } else {
            assert forall|k: int| #[trigger] is_first_tag(tags, k, name) implies is_first_tag(
                rest,
                k - 1,
                name,
            ) by {}
            if let Some(tag) = find_tag(rest, name) {
                let k = choose|k: int| #[trigger] is_first_tag(rest, k, name) && rest[k] == tag;
                assert(is_first_tag(tags, k + 1, name));
            }
        }
    }
}

/// The first tag with a name is found.
pub proof fn tag_named_finds_first(tags: &Vec<Vec<String>>, name: &str, tag: Option<&Vec<String>>)
    requires
        call_ensures(tag_named, (tags, name), tag),
    ensures
        tag is None == has_no_tag(tags.deep_view(), name@),
        tag matches Some(tag) ==> exists|k: int| #[trigger]
            is_first_tag(tags.deep_view(), k, name@) && tag.deep_view() == tags.deep_view()[k],
{
    lemma_find_tag(tags.deep_view(), name@);
}

/// Two keys are the same just if all their bytes are.
pub proof fn same_key_tells(a: &[u8; 32], b: &[u8; 32], res: bool)
    requires
        call_ensures(same_key, (a, b), res),
    ensures
        res == (forall|i: int| 0 <= i < 32 ==> #[trigger] a@[i] == b@[i]),
{
    if forall|i: int| 0 <= i < 32 ==> #[trigger] a@[i] == b@[i] {
        assert(a@ =~= b@);
    }
}

/// What the account sent belongs to the chat with the one who is tagged, and all else to the chat
/// with the sender.
pub proof fn contact_is_the_other_one(
    mine: bool,
    tagged: Option<[u8; 32]>,
    sender: &[u8; 32],
    contact: [u8; 32],
)
    requires
        call_ensures(contact_of, (mine, tagged, sender), contact),
    ensures
        !mine ==> contact@ == sender@,
        tagged is None ==> contact@ == sender@,
        mine && tagged is Some ==> contact@ == tagged->0@,
{
}

/// The one whose chat a rumor belongs to.
pub open spec fn contact_in(
    tags: Seq<Seq<Seq<char>>>,
    sender: Seq<u8>,
    me: Seq<u8>,
) -> Seq<char> {
    if sender == me && tagged_key(tags) is Some {
        npub(tagged_key(tags)->0)
    } else {
        npub(sender)
    }
}

/// A rumor is traced to its sender, its author and the chat that it belongs to.
pub proof fn trace_tells(rumor: &Rumor, sender: &[u8; 32], me: &[u8; 32], origin: Origin)
    requires
        call_ensures(trace, (rumor, sender, me), origin),
    ensures
        origin.mine == (sender@ == me@),
        origin.contact@ == contact_in(rumor.tags.deep_view(), sender@, me@),
        origin.author@ == npub(rumor.author@),
        origin.sender_id@ == hex_text(sender@),
{
}

/// A view of a rumor shows each field as it is.
pub proof fn rumors_are_shown_whole(rumor: Rumor, origin: Origin)
    ensures
        rumor.id is Some == rumor@.id is Some,
        rumor.id is Some ==> rumor@.id == Some(rumor.id->0@),
        rumor@.author == rumor.author@,
        rumor@.created_at == rumor.created_at,
        rumor@.kind == rumor.kind,
        rumor@.tags == rumor.tags.deep_view(),
        rumor@.content == rumor.content@,
        origin@.mine == origin.mine,
        origin@.contact == origin.contact@,
        origin@.author == origin.author@,
        origin@.sender_id == origin.sender_id@,
{
}

/// A view of what became of a rumor shows it as it is.
pub proof fn receptions_are_shown_whole(res: Reception)
    ensures
        match res {
            Reception::Message(Some(notice)) => res@ matches ReceptionView::Message(Some(shown))
                && shown.title == notice.title@ && shown.body == notice.body@,
            Reception::Message(None) => res@ == ReceptionView::Message(None),
            Reception::Reaction(found) => res@ == ReceptionView::Reaction(found),
            Reception::StrayReaction => res@ == ReceptionView::StrayReaction,
            Reception::Typing(known) => res@ == ReceptionView::Typing(known),
            Reception::Ignored => res@ == ReceptionView::Ignored,
        },
{
}

/// Whether a rumor can be taken in: a direct message has an id, and a new one of someone else has
/// a sender with a profile; a reaction names its message and has an id; an indicator has values
/// in its tags. All else can.
pub open spec fn can_take_in(
    profiles: Seq<ProfileView>,
    rumor: RumorView,
    mine: bool,
    contact: Seq<char>,
    is_new: bool,
) -> bool {
    &&& rumor.kind == 14 ==> rumor.id is Some && (!mine && is_new ==> !is_stranger(
        profiles,
        contact,
    ))
    &&& rumor.kind == 7 ==> forall|k: int| #[trigger]
        is_first_tag(rumor.tags, k, "e"@) ==> rumor.tags[k].len() > 1 && rumor.id is Some
    &&& rumor.kind == 30078 ==> forall|k: int| #[trigger]
        is_first_tag(rumor.tags, k, "d"@) ==> {
            &&& rumor.tags[k].len() > 1
            &&& rumor.tags[k][1] == "vector"@ && rumor.content == "typing"@ ==> forall|x: int|
                #[trigger]
                is_first_tag(rumor.tags, x, "expiration"@) ==> rumor.tags[x].len() > 1
        }
}

/// What becomes of a direct message: it is in its chat, with its content, its time and its id,
/// and a notice of a new one from someone else has the name that their profile gives, if it gives
/// one, and the message's content.
pub open spec fn takes_message(
    before: ChatView,
    after: ChatView,
    rumor: RumorView,
    mine: bool,
    contact: Seq<char>,
    is_new: bool,
    res: ReceptionView,
) -> bool {
    &&& profiles_gain(
        before.profiles,
        after.profiles,
        contact,
        MessageView {
            id: hex_text(rumor.id->0),
            content: rumor.content,
            reactions: seq![],
            at: rumor.created_at,
            pending: false,
            failed: false,
            mine,
        },
    )
    &&& after.has_state_changed
    &&& mine || !is_new ==> res == ReceptionView::Message(None)
    &&& forall|i: int|
        !mine && is_new && #[trigger] is_first_profile(before.profiles, i, contact) ==> {
            &&& res matches ReceptionView::Message(Some(notice))
            &&& notice.body == rumor.content
            &&& before.profiles[i].name.len() > 0 ==> notice.title == before.profiles[i].name
            &&& before.profiles[i].name.len() == 0 ==> notice.title == "New Message"@
        }
}

/// What becomes of a reaction: it is on the message that it names, if that is there, with its
/// emoji, its author and its id.
pub open spec fn takes_reaction(
    before: ChatView,
    after: ChatView,
    rumor: RumorView,
    contact: Seq<char>,
    sender_id: Seq<char>,
    res: ReceptionView,
) -> bool {
    &&& forall|k: int| #[trigger]
        is_first_tag(rumor.tags, k, "e"@) ==> {
            let id = rumor.tags[k][1];
            let found = chat_holds(before.profiles, contact, id);
            &&& profiles_react(
                before.profiles,
                after.profiles,
                contact,
                id,
                ReactionView {
                    id: hex_text(rumor.id->0),
                    reference_id: id,
                    author_id: sender_id,
                    emoji: rumor.content,
                },
            )
            &&& after.has_state_changed == (found || before.has_state_changed)
            &&& res == ReceptionView::Reaction(found)
        }
    &&& has_no_tag(rumor.tags, "e"@) ==> after == before && res == ReceptionView::StrayReaction
}

/// Whether a rumor tells that someone is typing until then.
pub open spec fn tells_typing(rumor: RumorView, until: u64) -> bool {
    &&& rumor.content == "typing"@
    &&& exists|d: int, x: int|
        {
            &&& #[trigger] is_first_tag(rumor.tags, d, "d"@)
            &&& rumor.tags[d][1] == "vector"@
            &&& #[trigger] is_first_tag(rumor.tags, x, "expiration"@)
            &&& number_in(rumor.tags[x][1]) == Some(until)
        }
}

/// What becomes of application data: an author with a profile counts as typing, if the data tell
/// so and the time ends after now and at most 35 seconds from now, and nothing else changes.
pub open spec fn takes_typing(
    before: ChatView,
    after: ChatView,
    rumor: RumorView,
    author: Seq<char>,
    now: u64,
    res: ReceptionView,
) -> bool {
    &&& forall|until: u64, i: int|
        #[trigger] tells_typing(rumor, until) && now < until <= now + 35
            && #[trigger] is_first_profile(before.profiles, i, author) ==> {
            &&& same_but_for(before.profiles, after.profiles, i)
            &&& after.profiles[i] == (ProfileView { typing_until: until, ..before.profiles[i] })
            &&& after.has_state_changed
            &&& res == ReceptionView::Typing(true)
        }
    &&& forall|until: u64| #[trigger]
        tells_typing(rumor, until) && now < until <= now + 35 && is_stranger(
            before.profiles,
            author,
        ) ==> after == before && res == ReceptionView::Typing(false)
    &&& (forall|until: u64|
        now < until <= now + 35 ==> !#[trigger] tells_typing(rumor, until)) ==> after == before
        && res == ReceptionView::Ignored
}

/// What becomes of a rumor that can be taken in.
pub open spec fn takes_in(
    before: ChatView,
    after: ChatView,
    rumor: RumorView,
    origin: OriginView,
    is_new: bool,
    now: u64,
    res: ReceptionView,
) -> bool {
    &&& rumor.kind == 14 ==> takes_message(
        before,
        after,
        rumor,
        origin.mine,
        origin.contact,
        is_new,
        res,
    )
    &&& rumor.kind == 7 ==> takes_reaction(
        before,
        after,
        rumor,
        origin.contact,
        origin.sender_id,
        res,
    )
    &&& rumor.kind == 30078 ==> takes_typing(before, after, rumor, origin.author, now, res)
    &&& rumor.kind != 14 && rumor.kind != 7 && rumor.kind != 30078 ==> after == before && res
        == ReceptionView::Ignored
}

/// What can be received can be taken in.
proof fn lemma_can_take_in(
    state: ChatView,
    rumor: RumorView,
    origin: OriginView,
    is_new: bool,
)
    ensures
        is_receivable(state, rumor, origin, is_new) == can_take_in(
            state.profiles,
            rumor,
            origin.mine,
            origin.contact,
            is_new,
        ),
{
    lemma_find_profile(state, origin.contact);
    lemma_find_tag(rumor.tags, "e"@);
    lemma_find_tag(rumor.tags, "d"@);
    lemma_find_tag(rumor.tags, "expiration"@);
}

/// What becomes of a rumor that is received.
proof fn lemma_takes_in(
    state: ChatView,
    rumor: RumorView,
    origin: OriginView,
    is_new: bool,
    now: u64,
)
    requires
        is_receivable(state, rumor, origin, is_new),
    ensures
        takes_in(
            state,
            received(state, rumor, origin, now),
            rumor,
            origin,
            is_new,
            now,
            reception(state, rumor, origin, is_new, now),
        ),
{
    let after = received(state, rumor, origin, now);
    let res = reception(state, rumor, origin, is_new, now);
    lemma_find_profile(state, origin.contact);
    lemma_find_profile(state, origin.author);
    lemma_find_tag(rumor.tags, "e"@);
    lemma_find_tag(rumor.tags, "d"@);
    lemma_find_tag(rumor.tags, "expiration"@);
    if rumor.kind == 14 {
        lemma_profiles_gain(
            state,
            origin.contact,
            MessageView {
                id: hex_text(rumor.id->0),
                content: rumor.content,
                reactions: seq![],
                at: rumor.created_at,
                pending: false,
                failed: false,
                mine: origin.mine,
            },
        );
    } else if rumor.kind == 7 {
        if let Some(tag) = find_tag(rumor.tags, "e"@) {
            lemma_chat_holds(state, origin.contact, tag[1]);
            lemma_profiles_react(
                state,
                origin.contact,
                tag[1],
                ReactionView {
                    id: hex_text(rumor.id->0),
                    reference_id: tag[1],
                    author_id: origin.sender_id,
                    emoji: rumor.content,
                },
            );
        }
    } else if rumor.kind == 30078 {
        if let (Some(d_tag), Some(ex_tag)) = (
            find_tag(rumor.tags, "d"@),
            find_tag(rumor.tags, "expiration"@),
        ) {
            let d = choose|d: int| #[trigger]
                is_first_tag(rumor.tags, d, "d"@) && rumor.tags[d] == d_tag;
            let x = choose|x: int| #[trigger]
                is_first_tag(rumor.tags, x, "expiration"@) && rumor.tags[x] == ex_tag;
            assert(is_first_tag(rumor.tags, d, "d"@));
            assert(is_first_tag(rumor.tags, x, "expiration"@));
            if let Some(until) = number_in(ex_tag[1]) {
                if d_tag[1] == "vector"@ && rumor.content == "typing"@ {
                    assert(tells_typing(rumor, until));
                }
            }
        }
    }
}

/// What can be taken in is told by the rumor, by whom it came from, and by who has a profile.
pub proof fn can_receive_tells(
    state: &ChatState,
    rumor: &Rumor,
    origin: &Origin,
    is_new: bool,
    res: bool,
)
    requires
        call_ensures(ChatState::can_receive, (state, rumor, origin, is_new), res),
    ensures
        res == can_take_in(state@.profiles, rumor@, origin.mine, origin.contact@, is_new),
{
    lemma_can_take_in(state@, rumor@, origin@, is_new);
}

/// A rumor that is received is taken in as what it is.
pub proof fn receive_takes_in(
    state: &mut ChatState,
    rumor: Rumor,
    origin: Origin,
    is_new: bool,
    now: u64,
    res: Reception,
)
    requires
        call_ensures(ChatState::receive, (state, rumor, origin, is_new, now), res),
        can_take_in(old(state)@.profiles, rumor@, origin.mine, origin.contact@, is_new),
    ensures
        takes_in(old(state)@, final(state)@, rumor@, origin@, is_new, now, res@),
{
    lemma_can_take_in(old(state)@, rumor@, origin@, is_new);
    lemma_takes_in(old(state)@, rumor@, origin@, is_new, now);
}

/// A rumor that arrives is taken in as what it is, if it can be, and else nothing changes.
pub proof fn handle_event_takes_in(
    state: &mut ChatState,
    rumor: Rumor,
    sender: &[u8; 32],
    me: &[u8; 32],
    is_new: bool,
    now: u64,
    res: Option<Reception>,
)
    requires
        call_ensures(ChatState::handle_event, (state, rumor, sender, me, is_new, now), res),
    ensures
        res is Some == can_take_in(
            old(state)@.profiles,
            rumor@,
            sender@ == me@,
            contact_in(rumor.tags.deep_view(), sender@, me@),
            is_new,
        ),
        res is None ==> final(state)@ == old(state)@,
        res matches Some(res) ==> takes_in(
            old(state)@,
            final(state)@,
            rumor@,
            OriginView {
                mine: sender@ == me@,
                contact: contact_in(rumor.tags.deep_view(), sender@, me@),
                author: npub(rumor.author@),
                sender_id: hex_text(sender@),
            },
            is_new,
            now,
            res@,
        ),
{
    let origin = origin_of(rumor@, sender@, me@);
    lemma_can_take_in(old(state)@, rumor@, origin, is_new);
    if res is Some {
        lemma_takes_in(old(state)@, rumor@, origin, is_new, now);
    }
}

/// A notice of a new message has the name of its sender, whoever else is known: the name in the
/// first profile with the `npub` form of the sender's key, or else a plain title.
pub proof fn notice_names_the_sender(
    state: &mut ChatState,
    rumor: Rumor,
    sender: &[u8; 32],
    me: &[u8; 32],
    now: u64,
    res: Option<Reception>,
    i: int,
)
    requires
        call_ensures(ChatState::handle_event, (state, rumor, sender, me, true, now), res),
        rumor.kind == 14,
        rumor.id is Some,
        sender@ != me@,
        is_first_profile(old(state)@.profiles, i, npub(sender@)),
    ensures
        res matches Some(Reception::Message(Some(notice))) && notice.body@ == rumor.content@
            && notice.title@ == (if old(state).profiles@[i].name@.len() == 0 {
            "New Message"@
        } else {
            old(state).profiles@[i].name@
        }),
{
    lemma_find_profile(old(state)@, npub(sender@));
    handle_event_takes_in(state, rumor, sender, me, true, now, res);
    assert(old(state)@.profiles[i] == old(state).profiles@[i]@);
}

/// The number of pending messages is how many there are with that mark.
pub proof fn pending_count_counts(messages: Seq<MessageView>)
    ensures
        pending_count(messages) == messages.filter(|message: MessageView| message.pending).len(),
    decreases messages.len(),
{
    reveal(Seq::filter);
    if messages.len() > 0 {
        pending_count_counts(messages.drop_last());
    }
}

/// A message that is begun is in the chat at once, with its content and its time, pending and the
/// account's own, under an id that no message had; the number in the id is how many were pending,
/// or the next one that is free.
pub proof fn begin_message_shows(
    state: &mut ChatState,
    receiver: String,
    content: String,
    now: u64,
    id: String,
)
    requires
        call_ensures(ChatState::begin_message, (state, receiver, content, now), id),
    ensures
        profiles_gain(
            old(state)@.profiles,
            final(state)@.profiles,
            receiver@,
            MessageView {
                id: id@,
                content: content@,
                reactions: seq![],
                at: now,
                pending: true,
                failed: false,
                mine: true,
            },
        ),
        !chat_holds(old(state)@.profiles, receiver@, id@),
        final(state)@.has_state_changed,
        is_stranger(old(state)@.profiles, receiver@) ==> id@ == "pending-"@ + decimal_text(0),
        forall|i: int| #[trigger]
            is_first_profile(old(state)@.profiles, i, receiver@) ==> exists|n: nat|
                {
                    let count = old(state)@.profiles[i].messages.filter(
                        |message: MessageView| message.pending,
                    ).len();
                    &&& id@ == #[trigger] ("pending-"@ + decimal_text(n))
                    &&& count <= n
                    &&& forall|j: nat|
                        count <= j < n ==> chat_holds(
                            old(state)@.profiles,
                            receiver@,
                            "pending-"@ + #[trigger] decimal_text(j),
                        )
                },
{
    let before = old(state)@;
    let n = choose|n: nat| #[trigger]
        is_next_number(before, receiver@, n) && id@ == pending_id(n);
    lemma_find_profile(before, receiver@);
    lemma_chat_holds(before, receiver@, id@);
    lemma_profiles_gain(
        before,
        receiver@,
        MessageView {
            id: id@,
            content: content@,
            reactions: seq![],
            at: now,
            pending: true,
            failed: false,
            mine: true,
        },
    );
    if before.has_profile(receiver@) {
        pending_count_counts(before.profile(receiver@).messages);
        assert(id@ == "pending-"@ + decimal_text(n));
        assert forall|j: nat|
            pending_to(before, receiver@) <= j < n implies #[trigger] chat_holds(
            before.profiles,
            receiver@,
            "pending-"@ + decimal_text(j),
        ) by {
            lemma_chat_holds(before, receiver@, pending_id(j));
            assert(before.has_message(receiver@, pending_id(j)));
        }
    } else {
        if n > 0 {
            assert(before.has_message(receiver@, pending_id(0)));
        }
    }
}

/// Settling changes one message, and of that its id and its mark alone: one that was sent gets
/// the id of its event and is no longer pending, one that was not is marked as failed.
pub proof fn settle_message_marks(
    state: &mut ChatState,
    receiver: String,
    message_id: String,
    delivery: Delivery,
    id: &[u8; 32],
    sent: bool,
    i: int,
    k: int,
)
    requires
        call_ensures(
            ChatState::settle_message,
            (state, receiver, message_id, delivery, id),
            sent,
        ),
        is_first_profile(old(state)@.profiles, i, receiver@),
        is_first_message(old(state)@.profiles[i].messages, k, message_id@),
    ensures
        sent == (delivery == Delivery::Sent),
        final(state)@.has_state_changed,
        same_but_for(old(state)@.profiles, final(state)@.profiles, i),
        final(state)@.profiles[i] == (ProfileView {
            messages: old(state)@.profiles[i].messages.update(
                k,
                if sent {
                    MessageView {
                        id: hex_text(id@),
                        pending: false,
                        ..old(state)@.profiles[i].messages[k]
                    }
                } else {
                    MessageView { failed: true, ..old(state)@.profiles[i].messages[k] }
                },
            ),
            ..old(state)@.profiles[i]
        }),
{
    lemma_find_profile(old(state)@, receiver@);
    lemma_find_message(old(state)@.profiles[i], message_id@);
}

/// A reaction that was sent is on its message, if that is there, with the very emoji, the
/// account as its author, and the id of the event that carried it; one that was not sent changes
/// nothing.
pub proof fn finish_reaction_shows(
    state: &mut ChatState,
    receiver: String,
    reference_id: String,
    emoji: String,
    me: &[u8; 32],
    response: Option<[u8; 32]>,
    found: bool,
)
    requires
        call_ensures(
            ChatState::finish_reaction,
            (state, receiver, reference_id, emoji, me, response),
            found,
        ),
    ensures
        response is None ==> !found && final(state)@ == old(state)@,
        response matches Some(response) ==> {
            &&& found == chat_holds(old(state)@.profiles, receiver@, reference_id@)
            &&& profiles_react(
                old(state)@.profiles,
                final(state)@.profiles,
                receiver@,
                reference_id@,
                ReactionView {
                    id: hex_text(response@),
                    reference_id: reference_id@,
                    author_id: hex_text(me@),
                    emoji: emoji@,
                },
            )
            &&& final(state)@.has_state_changed == (found || old(state)@.has_state_changed)
        },
{
    if let Some(response) = response {
        lemma_chat_holds(old(state)@, receiver@, reference_id@);
        lemma_profiles_react(
            old(state)@,
            receiver@,
            reference_id@,
            ReactionView {
                id: hex_text(response@),
                reference_id: reference_id@,
                author_id: hex_text(me@),
                emoji: emoji@,
            },
        );
    }
}

/// A direct message is composed for a key in its `npub` form, with the content as it is, and with
/// a tag for the receiver, unless that is the author.
pub proof fn direct_message_says(
    receiver: &str,
    content: String,
    me: &[u8; 32],
    now: u64,
    res: Option<Addressed>,
)
    requires
        call_ensures(direct_message, (receiver, content, me, now), res),
    ensures
        res is Some == npub_key(receiver@) is Some,
        res matches Some(sent) ==> {
            &&& npub_key(receiver@) == Some(sent.to@)
            &&& sent.rumor.kind == 14
            &&& sent.rumor.author@ == me@
            &&& sent.rumor.created_at == now
            &&& sent.rumor.content@ == content@
            &&& sent.to@ == me@ ==> sent.rumor.tags.deep_view().len() == 0 && tagged_key(
                sent.rumor.tags.deep_view(),
            ) is None
            &&& sent.to@ != me@ ==> sent.rumor.tags.deep_view() == seq![
                seq!["p"@, hex_text(sent.to@)],
            ] && tagged_key(sent.rumor.tags.deep_view()) == Some(sent.to@)
            &&& sent.rumor.id is Some
            &&& sent.rumor.id->0@ == event_id(
                me@,
                now,
                14,
                sent.rumor.tags.deep_view(),
                content@,
            )
        },
{
}

/// A reaction is composed for the message with an id and for a key in its `npub` form, with the
/// emoji as it is.
pub proof fn reaction_says(
    reference_id: &str,
    receiver: &str,
    emoji: String,
    me: &[u8; 32],
    now: u64,
    res: Option<Addressed>,
)
    requires
        call_ensures(reaction, (reference_id, receiver, emoji, me, now), res),
    ensures
        res is Some == (npub_key(receiver@) is Some && is_event_id(reference_id@)),
        res matches Some(sent) ==> {
            let event = seq!["e"@, hex_text(hex_bytes(reference_id@))];
            let kind = seq!["k"@, decimal_text(14)];
            &&& npub_key(receiver@) == Some(sent.to@)
            &&& sent.rumor.kind == 7
            &&& sent.rumor.author@ == me@
            &&& sent.rumor.created_at == now
            &&& sent.rumor.content@ == emoji@
            &&& sent.to@ == me@ ==> sent.rumor.tags.deep_view() == seq![event, kind] && tagged_key(
                sent.rumor.tags.deep_view(),
            ) is None
            &&& sent.to@ != me@ ==> sent.rumor.tags.deep_view() == seq![
                event,
                seq!["p"@, hex_text(sent.to@)],
                kind,
            ] && tagged_key(sent.rumor.tags.deep_view()) == Some(sent.to@)
            &&& sent.rumor.id is Some
            &&& sent.rumor.id->0@ == event_id(
                me@,
                now,
                7,
                sent.rumor.tags.deep_view(),
                emoji@,
            )
        },
{
    if let Some(sent) = res {
        let event = seq!["e"@, hex_text(hex_bytes(reference_id@))];
        let kind = seq!["k"@, decimal_text(14)];
        if sent.to@ == me@ {
            assert(sent.rumor.tags.deep_view() =~= seq![event, kind]);
        } else {
            assert(sent.rumor.tags.deep_view() =~= seq![
                event,
                seq!["p"@, hex_text(sent.to@)],
                kind,
            ]);
        }
    }
}

/// A typing indicator is composed for a key in its `npub` form, ends in half a minute, and is for
/// the trusted relay alone, for an hour.
pub proof fn start_typing_says(
    receiver: &str,
    me: &[u8; 32],
    now: u64,
    res: Option<TypingIndicator>,
)
    requires
        call_ensures(start_typing, (receiver, me, now), res),
        now + 3600 <= u64::MAX,
    ensures
        res is Some == npub_key(receiver@) is Some,
        res matches Some(typing) ==> {
            let rumor = typing.message.rumor;
            let app = seq!["d"@, "vector"@];
            let end = seq!["expiration"@, decimal_text((now + 30) as nat)];
            &&& npub_key(receiver@) == Some(typing.message.to@)
            &&& typing.relay@ == "wss://jskitty.cat/nostr"@
            &&& typing.expires_at == now + 3600
            &&& rumor.kind == 30078
            &&& rumor.author@ == me@
            &&& rumor.created_at == now
            &&& rumor.content@ == "typing"@
            &&& typing.message.to@ == me@ ==> rumor.tags.deep_view() == seq![app, end]
            &&& typing.message.to@ != me@ ==> rumor.tags.deep_view() == seq![
                seq!["p"@, hex_text(typing.message.to@)],
                app,
                end,
            ]
            &&& rumor.id is Some
            &&& rumor.id->0@ == event_id(me@, now, 30078, rumor.tags.deep_view(), "typing"@)
        },
{
    if let Some(typing) = res {
        let app = seq!["d"@, "vector"@];
        let end = seq!["expiration"@, decimal_text((now + 30) as nat)];
        if typing.message.to@ == me@ {
            assert(typing.message.rumor.tags.deep_view() =~= seq![app, end]);
        } else {
            assert(typing.message.rumor.tags.deep_view() =~= seq![
                seq!["p"@, hex_text(typing.message.to@)],
                app,
                end,
            ]);
        }
    }
}

/// A message that goes out goes to the receiver first, then to the account itself, and then it
/// is sent; if the receiver cannot be reached, it has failed.
pub proof fn delivery_goes_on(from: Delivery, went_well: bool, next: Delivery)
    requires
        call_ensures(Delivery::advance, (from, went_well), next),
    ensures
        from == Delivery::ToReceiver && went_well ==> next == Delivery::ToSelf,
        from == Delivery::ToReceiver && !went_well ==> next == Delivery::Failed,
        from == Delivery::ToSelf ==> next == Delivery::Sent,
        from == Delivery::Sent || from == Delivery::Failed ==> next == from,
{
}

/// What the account shows of a message that it begins is what it sends: the content is the same.
pub proof fn shown_content_is_sent_content(
    state: &mut ChatState,
    receiver: String,
    content: String,
    begun_at: u64,
    id: String,
    me: &[u8; 32],
    sent_at: u64,
    sent: Addressed,
    i: int,
    k: int,
)
    requires
        call_ensures(ChatState::begin_message, (state, receiver, content, begun_at), id),
        exists|to: &str, text: String|
            to@ == receiver@ && text@ == content@ && #[trigger] call_ensures(
                direct_message,
                (to, text, me, sent_at),
                Some(sent),
            ),
        is_first_profile(final(state)@.profiles, i, receiver@),
        is_first_message(final(state)@.profiles[i].messages, k, id@),
    ensures
        final(state)@.profiles[i].messages[k].content == sent.rumor.content@,
{
    let message = MessageView {
        id: id@,
        content: content@,
        reactions: seq![],
        at: begun_at,
        pending: true,
        failed: false,
        mine: true,
    };
    let (to, text): (&str, String) = choose|to: &str, text: String|
        to@ == receiver@ && text@ == content@ && #[trigger] call_ensures(
            direct_message,
            (to, text, me, sent_at),
            Some(sent),
        );
    direct_message_says(to, text, me, sent_at, Some(sent));
    let before = old(state)@;
    let after = final(state)@;
    begin_message_shows(state, receiver, content, begun_at, id);
    lemma_chat_holds(before, receiver@, id@);
    message_is_found(before, receiver@, message);
    lemma_find_profile(after, receiver@);
    lemma_find_message(after.profiles[i], id@);
}

/// A message that is begun shows its content and its time, whatever they are, and still does once
/// it was settled.
pub proof fn begun_message_keeps_its_content(
    begun: &mut ChatState,
    receiver: String,
    content: String,
    now: u64,
    id: String,
    done: &mut ChatState,
    to: String,
    message_id: String,
    delivery: Delivery,
    event: &[u8; 32],
    sent: bool,
    i: int,
    k: int,
)
    requires
        call_ensures(ChatState::begin_message, (begun, receiver, content, now), id),
        is_first_profile(final(begun)@.profiles, i, receiver@),
        is_first_message(final(begun)@.profiles[i].messages, k, id@),
        old(done)@ == final(begun)@,
        to@ == receiver@,
        message_id@ == id@,
        call_ensures(
            ChatState::settle_message,
            (done, to, message_id, delivery, event),
            sent,
        ),
    ensures
        ({
            let shown = final(begun)@.profiles[i].messages[k];
            let settled = final(done)@.profiles[i].messages[k];
            &&& shown.content == content@
            &&& shown.at == now
            &&& shown.reactions.len() == 0
            &&& shown.pending && !shown.failed && shown.mine
            &&& settled.content == content@
            &&& settled.at == now
            &&& settled.mine
            &&& settled.pending == !sent
            &&& settled.failed == !sent
            &&& settled.id == if sent {
                hex_text(event@)
            } else {
                id@
            }
        }),
{
    let message = MessageView {
        id: id@,
        content: content@,
        reactions: seq![],
        at: now,
        pending: true,
        failed: false,
        mine: true,
    };
    let before = old(begun)@;
    let after = final(begun)@;
    begin_message_shows(begun, receiver, content, now, id);
    lemma_chat_holds(before, receiver@, id@);
    message_is_found(before, receiver@, message);
    lemma_find_profile(after, receiver@);
    lemma_find_message(after.profiles[i], id@);
    settle_message_marks(done, to, message_id, delivery, event, sent, i, k);
}

/// A reaction shows alike with the one who sent it and with the one who got it: with the same
/// emoji, the same author, and for the same message.
pub proof fn reactions_show_alike(
    mine: &mut ChatState,
    receiver: String,
    reference_id: String,
    emoji: String,
    me: &[u8; 32],
    response: [u8; 32],
    found: bool,
    theirs: &mut ChatState,
    sent: Addressed,
    sent_at: u64,
    is_new: bool,
    now: u64,
    res: Option<Reception>,
)
    requires
        call_ensures(
            ChatState::finish_reaction,
            (mine, receiver, reference_id, emoji, me, Some(response)),
            found,
        ),
        exists|id: &str, to: &str, text: String|
            id@ == reference_id@ && to@ == receiver@ && text@ == emoji@ && #[trigger] call_ensures(
                reaction,
                (id, to, text, me, sent_at),
                Some(sent),
            ),
        call_ensures(
            ChatState::handle_event,
            (theirs, sent.rumor, me, &sent.to, is_new, now),
            res,
        ),
        sent.to@ != me@,
        reference_id@ == hex_text(hex_bytes(reference_id@)),
    ensures
        exists|a: ReactionView, b: ReactionView|
            {
                &&& #[trigger] profiles_react(
                    old(mine)@.profiles,
                    final(mine)@.profiles,
                    receiver@,
                    reference_id@,
                    a,
                )
                &&& #[trigger] profiles_react(
                    old(theirs)@.profiles,
                    final(theirs)@.profiles,
                    npub(me@),
                    reference_id@,
                    b,
                )
                &&& a.emoji == emoji@ && b.emoji == emoji@
                &&& a.author_id == hex_text(me@) && b.author_id == hex_text(me@)
                &&& a.reference_id == reference_id@ && b.reference_id == reference_id@
            },
{
    let (id, to, text): (&str, &str, String) = choose|id: &str, to: &str, text: String|
        id@ == reference_id@ && to@ == receiver@ && text@ == emoji@ && #[trigger] call_ensures(
            reaction,
            (id, to, text, me, sent_at),
            Some(sent),
        );
    reaction_says(id, to, text, me, sent_at, Some(sent));
    finish_reaction_shows(mine, receiver, reference_id, emoji, me, Some(response), found);
    handle_event_takes_in(theirs, sent.rumor, me, &sent.to, is_new, now, res);
    let tags = sent.rumor@.tags;
    assert(tags[0] == seq!["e"@, reference_id@]);
    assert(is_first_tag(tags, 0, "e"@));
    lemma_find_tag(tags, "e"@);
    let origin = origin_of(sent.rumor@, me@, sent.to@);
    lemma_can_take_in(old(theirs)@, sent.rumor@, origin, is_new);
    let a = ReactionView {
        id: hex_text(response@),
        reference_id: reference_id@,
        author_id: hex_text(me@),
        emoji: emoji@,
    };
    let b = ReactionView { id: hex_text(sent.rumor.id->0@), ..a };
    assert(profiles_react(
        old(mine)@.profiles,
        final(mine)@.profiles,
        receiver@,
        reference_id@,
        a,
    ));
    assert(profiles_react(
        old(theirs)@.profiles,
        final(theirs)@.profiles,
        npub(me@),
        reference_id@,
        b,
    ));
}

} // verus!
