//! What is sent: messages, reactions and typing indicators.

use vstd::prelude::*;
use crate::chat::ChatState;
#[allow(unused_imports)]
use crate::chat::{first_position, lemma_first_position, message_ids, ChatView};
use crate::hex::{bytes_to_hex_string, event_id_from_hex};
#[allow(unused_imports)]
use crate::hex::{hex_bytes, hex_text, is_event_id};
use crate::nostr::{
    decode_npub, expiring_rumor, private_msg_rumor, reaction_rumor, Rumor,
    APPLICATION_SPECIFIC_DATA, PRIVATE_DIRECT_MESSAGE, REACTION,
};
#[allow(unused_imports)]
use crate::nostr::{event_id, npub_key, receiver_tags, tagged_key, RumorView};
use crate::relays::TRUSTED_RELAY;
use crate::text::decimal;
#[allow(unused_imports)]
use crate::text::{decimal_text, decimal_text_tells_apart};
use crate::timeline::{Message, Reaction};
#[allow(unused_imports)]
use crate::timeline::{views, MessageView, ReactionView};

verus! {

/// How long a typing indicator holds, in seconds.
pub const TYPING_SECONDS: u64 = 30;

/// How long a relay has to keep a typing indicator, in seconds.
pub const RELAY_SECONDS: u64 = 3600;

/// A rumor and the key that it is to be sent to.
#[derive(Debug)]
pub struct Addressed {
    pub to: [u8; 32],
    pub rumor: Rumor,
}

/// How many messages are pending.
pub open spec fn pending_count(messages: Seq<MessageView>) -> nat
    decreases messages.len(),
{
    if messages.len() == 0 {
        0
    } else {
        pending_count(messages.drop_last()) + if messages.last().pending {
            1nat
        } else {
            0
        }
    }
}

/// The id of a message that is sent while this many others are pending.
pub open spec fn pending_id(count: nat) -> Seq<char> {
    "pending-"@ + decimal_text(count)
}

/// How many messages to someone are pending.
pub open spec fn pending_to(state: ChatView, receiver: Seq<char>) -> nat {
    if state.has_profile(receiver) {
        pending_count(state.profile(receiver).messages)
    } else {
        0
    }
}

/// Whether this is the number that the next message to someone has while it is pending: the
/// number of messages that are pending, or the first one after it that no message has.
pub open spec fn is_next_number(state: ChatView, receiver: Seq<char>, n: nat) -> bool {
    &&& pending_to(state, receiver) <= n
    &&& !state.has_message(receiver, pending_id(n))
    &&& forall|j: nat|
        pending_to(state, receiver) <= j < n ==> state.has_message(
            receiver,
            #[trigger] pending_id(j),
        )
}

/// Different numbers give different ids.
pub proof fn pending_ids_tell_apart(a: nat, b: nat)
    requires
        pending_id(a) == pending_id(b),
    ensures
        a == b,
{
    let length = "pending-"@.len() as int;
    assert(pending_id(a).skip(length) =~= decimal_text(a));
    assert(pending_id(b).skip(length) =~= decimal_text(b));
    decimal_text_tells_apart(a, b);
}

/// No more numbers in a row are taken than there are ids.
proof fn lemma_numbers_fit(ids: Seq<Seq<char>>, from: nat, to: nat)
    requires
        from <= to,
        forall|j: nat| from <= j < to ==> ids.contains(#[trigger] pending_id(j)),
    ensures
        to - from <= ids.len(),
    decreases to,
{
    if from < to {
        let last = (to - 1) as nat;
        assert(ids.contains(pending_id(last)));
        let place = choose|i: int| 0 <= i < ids.len() && ids[i] == pending_id(last);
        let rest = ids.remove(place);
        assert forall|j: nat| from <= j < last implies rest.contains(#[trigger] pending_id(j)) by {
            if pending_id(j) == pending_id(last) {
                pending_ids_tell_apart(j, last);
            }
            let i = choose|i: int| 0 <= i < ids.len() && ids[i] == pending_id(j);
            if i < place {
                assert(rest[i] == pending_id(j));
            } else {
                assert(rest[i - 1] == pending_id(j));
            }
        }
        lemma_numbers_fit(rest, from, last);
    }
}

/// No more numbers in a row are taken than the chat has messages.
proof fn lemma_taken_numbers_fit(state: ChatView, receiver: Seq<char>, to: nat)
    requires
        pending_to(state, receiver) < to,
        forall|j: nat|
            pending_to(state, receiver) <= j < to ==> state.has_message(
                receiver,
                #[trigger] pending_id(j),
            ),
    ensures
        state.has_profile(receiver),
        to - pending_to(state, receiver) <= state.profile(receiver).messages.len(),
{
    let from = pending_to(state, receiver);
    assert(state.has_message(receiver, pending_id(from)));
    let ids = message_ids(state.profile(receiver).messages);
    assert forall|j: nat| from <= j < to implies ids.contains(#[trigger] pending_id(j)) by {
        assert(state.has_message(receiver, pending_id(j)));
        lemma_first_position(ids, pending_id(j));
        assert(ids[first_position(ids, pending_id(j))->0] == pending_id(j));
    }
    lemma_numbers_fit(ids, from, to);
}

/// The first number that no message has, from one up to which all are taken.
proof fn lemma_next_number(state: ChatView, receiver: Seq<char>, from: nat) -> (n: nat)
    requires
        pending_to(state, receiver) <= from,
        forall|j: nat|
            pending_to(state, receiver) <= j < from ==> state.has_message(
                receiver,
                #[trigger] pending_id(j),
            ),
    ensures
        is_next_number(state, receiver, n),
    decreases pending_to(state, receiver) + state.profile(receiver).messages.len() + 1 - from,
{
    if state.has_message(receiver, pending_id(from)) {
        lemma_taken_numbers_fit(state, receiver, from + 1);
        lemma_next_number(state, receiver, from + 1)
    } else {
        from
    }
}

/// There always is a next number.
pub proof fn some_number_is_next(state: ChatView, receiver: Seq<char>)
    ensures
        exists|n: nat| is_next_number(state, receiver, n),
{
    let n = lemma_next_number(state, receiver, pending_to(state, receiver));
    assert(is_next_number(state, receiver, n));
}

/// There is one next number, and it is the number of messages that are pending wherever no
/// message has that.
pub proof fn next_number_is_one(state: ChatView, receiver: Seq<char>, a: nat, b: nat)
    requires
        is_next_number(state, receiver, a),
    ensures
        is_next_number(state, receiver, b) ==> a == b,
        !state.has_message(receiver, pending_id(pending_to(state, receiver))) ==> a == pending_to(
            state,
            receiver,
        ),
{
    if is_next_number(state, receiver, b) && a != b {
        assert(state.has_message(
            receiver,
            pending_id(
                if a < b {
                    a
                } else {
                    b
                },
            ),
        ));
    }
}

/// A message of the account that is yet to be sent.
pub open spec fn pending_message(id: Seq<char>, content: Seq<char>, at: u64) -> MessageView {
    MessageView {
        id,
        content,
        reactions: seq![],
        at,
        pending: true,
        failed: false,
        mine: true,
    }
}

/// A message that was sent and has got the id of its event, or that could not be sent.
pub open spec fn settled(message: MessageView, id: Seq<u8>, sent: bool) -> MessageView {
    if sent {
        MessageView { id: hex_text(id), pending: false, ..message }
    } else {
        MessageView { failed: true, ..message }
    }
}

/// The state once the first message with this id in a chat is settled.
pub open spec fn after_settling(
    state: ChatView,
    receiver: Seq<char>,
    message_id: Seq<char>,
    id: Seq<u8>,
    sent: bool,
) -> ChatView {
    let profile = state.profile(receiver);
    let place = profile.find_message(message_id)->0;
    state.set_profile(
        receiver,
        profile.set_message(place, settled(profile.messages[place], id, sent)),
    ).changed()
}

/// Counts the pending messages.
fn count_pending(messages: &Vec<Message>) -> (count: usize)
    ensures
        count == pending_count(views(messages@)),
{
    let mut count: usize = 0;
    let mut i: usize = 0;
    assert(views(messages@).take(0) =~= seq![]);
    while i < messages.len()
        invariant
            count <= i <= messages@.len(),
            count == pending_count(views(messages@).take(i as int)),
        decreases messages@.len() - i,
    {
        proof {
            let longer = views(messages@).take(i + 1);
            assert(longer.drop_last() =~= views(messages@).take(i as int));
            assert(longer.last() == messages@[i as int]@);
        }
        if messages[i].pending {
            count = count + 1;
        }
        i = i + 1;
    }
    assert(views(messages@).take(i as int) =~= views(messages@));
    count
}

/// Writes the id of a message that is sent under this number.
fn pending_name(number: u128) -> (id: String)
    ensures
        id@ == pending_id(number as nat),
{
    let mut id: String = "pending-".to_owned();
    id.append(decimal(number).as_str());
    id
}

/// How far the sending of a message has come.
#[derive(Debug, Clone, Copy, PartialEq, Eq, Structural)]
pub enum Delivery {
    /// It is to be sent to the receiver.
    ToReceiver,
    /// It is to be sent to the account itself, so that it can be recovered.
    ToSelf,
    /// It has been sent.
    Sent,
    /// It could not be sent.
    Failed,
}

impl Delivery {
    /// Whether there is nothing more to do.
    pub open spec fn is_done(self) -> bool {
        self is Sent || self is Failed
    }

    /// The next step, after a step that went well or did not. A message that reached the receiver
    /// counts as sent, even if the account has no copy.
    pub open spec fn next(self, went_well: bool) -> Delivery {
        match self {
            Delivery::ToReceiver => if went_well {
                Delivery::ToSelf
            } else {
                Delivery::Failed
            },
            Delivery::ToSelf => Delivery::Sent,
            Delivery::Sent => Delivery::Sent,
            Delivery::Failed => Delivery::Failed,
        }
    }

    /// Goes on after a step that went well or did not.
    pub fn advance(self, went_well: bool) -> (next: Delivery)
        ensures
            next == self.next(went_well),
    {
        match self {
            Delivery::ToReceiver => {
                if went_well {
                    Delivery::ToSelf
                } else {
                    Delivery::Failed
                }
            },
            Delivery::ToSelf => Delivery::Sent,
            Delivery::Sent => Delivery::Sent,
            Delivery::Failed => Delivery::Failed,
        }
    }
}

impl ChatState {
    /// Adds a message of the account to the chat with its receiver, as one that is yet to be
    /// sent, and gives the id that it has until then. No other message of the chat has that id.
    pub fn begin_message(&mut self, receiver: String, content: String, now: u64) -> (id: String)
        ensures
            exists|n: nat| #[trigger]
                is_next_number(old(self)@, receiver@, n) && id@ == pending_id(n),
            final(self)@ == old(self)@.with_message(
                receiver@,
                pending_message(id@, content@, now),
            ),
    {
        let (count, room): (usize, usize) = match self.get_profile(receiver.clone()) {
            Ok(profile) => (count_pending(&profile.messages), profile.messages.len()),
            Err(_) => (0, 0),
        };
        let mut number: u128 = count as u128;
        let mut id: String = pending_name(number);
        while self.has_message(&receiver, &id)
            invariant
                *self == *old(self),
                count == pending_to(self@, receiver@),
                self@.has_profile(receiver@) ==> room == self@.profile(receiver@).messages.len(),
                !self@.has_profile(receiver@) ==> room == 0,
                count <= number <= count + room,
                id@ == pending_id(number as nat),
                forall|j: nat|
                    count <= j < number ==> self@.has_message(receiver@, #[trigger] pending_id(j)),
            decreases count + room - number,
        {
            proof {
                lemma_taken_numbers_fit(self@, receiver@, (number + 1) as nat);
            }
            number = number + 1;
            id = pending_name(number);
        }
        assert(is_next_number(old(self)@, receiver@, number as nat));
        let message = Message {
            id: id.clone(),
            content,
            reactions: Vec::new(),
            at: now,
            pending: true,
            failed: false,
            mine: true,
        };
        assert(message@.reactions =~= seq![]);
        self.add_message(receiver, message);
        id
    }

    /// Settles a message: one that was sent gets the id of its event, one that was not is marked
    /// as failed. Tells whether it was sent.
    pub fn settle_message(
        &mut self,
        receiver: String,
        message_id: String,
        delivery: Delivery,
        id: &[u8; 32],
    ) -> (sent: bool)
        requires
            old(self)@.has_message(receiver@, message_id@),
            delivery.is_done(),
        ensures
            sent == (delivery is Sent),
            final(self)@ == after_settling(old(self)@, receiver@, message_id@, id@, sent),
    {
        let sent: bool = match delivery {
            Delivery::Sent => true,
            _ => false,
        };
        let profile = self.get_profile_mut(receiver).unwrap();
        let message = profile.get_message_mut(message_id).unwrap();
        if sent {
            message.id = bytes_to_hex_string(id.as_slice());
            message.pending = false;
        } else {
            message.failed = true;
        }
        self.has_state_changed = true;
        sent
    }

    /// Adds a reaction of the account, once its own copy was sent in the event with the id
    /// `response`. Tells whether it was sent and its message is there.
    pub fn finish_reaction(
        &mut self,
        npub: String,
        reference_id: String,
        emoji: String,
        me: &[u8; 32],
        response: Option<[u8; 32]>,
    ) -> (found: bool)
        ensures
            match response {
                Some(response) => {
                    &&& found == old(self)@.has_message(npub@, reference_id@)
                    &&& final(self)@ == old(self)@.with_reaction(
                        npub@,
                        reference_id@,
                        own_reaction(response@, reference_id@, emoji@, me@),
                    )
                },
                None => !found && final(self)@ == old(self)@,
            },
    {
        match response {
            Some(response) => {
                let reaction = Reaction {
                    id: bytes_to_hex_string(response.as_slice()),
                    reference_id: reference_id.clone(),
                    author_id: bytes_to_hex_string(me.as_slice()),
                    emoji,
                };
                self.add_reaction(npub, reference_id, reaction)
            },
            None => false,
        }
    }
}

/// A reaction of the account, which goes by the id of the event that its own copy was sent in.
pub open spec fn own_reaction(
    response: Seq<u8>,
    reference_id: Seq<char>,
    emoji: Seq<char>,
    me: Seq<u8>,
) -> ReactionView {
    ReactionView {
        id: hex_text(response),
        reference_id,
        author_id: hex_text(me),
        emoji,
    }
}

/// Whether a rumor has the id that belongs to its parts.
pub open spec fn has_own_id(rumor: RumorView) -> bool {
    rumor.id == Some(
        event_id(rumor.author, rumor.created_at, rumor.kind, rumor.tags, rumor.content),
    )
}

/// Whether the tags of a rumor name a receiver, other than the author.
pub open spec fn names_receiver(rumor: RumorView, receiver: Seq<u8>) -> bool {
    tagged_key(rumor.tags) == (if receiver == rumor.author {
        None
    } else {
        Some(receiver)
    })
}

/// Whether a rumor is this direct message.
pub open spec fn is_direct_message(
    rumor: RumorView,
    receiver: Seq<u8>,
    content: Seq<char>,
    author: Seq<u8>,
    created_at: u64,
) -> bool {
    &&& rumor.kind == PRIVATE_DIRECT_MESSAGE
    &&& rumor.author == author
    &&& rumor.created_at == created_at
    &&& rumor.content == content
    &&& rumor.tags == receiver_tags(receiver, author)
    &&& names_receiver(rumor, receiver)
    &&& has_own_id(rumor)
}

/// The tags of a reaction to a direct message.
pub open spec fn reaction_tags(event: Seq<u8>, receiver: Seq<u8>, author: Seq<u8>) -> Seq<
    Seq<Seq<char>>,
> {
    seq![seq!["e"@, hex_text(event)]] + receiver_tags(receiver, author) + seq![
        seq!["k"@, decimal_text(PRIVATE_DIRECT_MESSAGE as nat)],
    ]
}

/// Whether a rumor is this reaction to a direct message.
pub open spec fn is_reaction(
    rumor: RumorView,
    event: Seq<u8>,
    receiver: Seq<u8>,
    emoji: Seq<char>,
    author: Seq<u8>,
    created_at: u64,
) -> bool {
    &&& rumor.kind == REACTION
    &&& rumor.author == author
    &&& rumor.created_at == created_at
    &&& rumor.content == emoji
    &&& rumor.tags == reaction_tags(event, receiver, author)
    &&& names_receiver(rumor, receiver)
    &&& has_own_id(rumor)
}

/// The tags of a typing indicator.
pub open spec fn typing_tags(receiver: Seq<u8>, author: Seq<u8>, expiry: nat) -> Seq<
    Seq<Seq<char>>,
> {
    receiver_tags(receiver, author) + seq![
        seq!["d"@, "vector"@],
        seq!["expiration"@, decimal_text(expiry)],
    ]
}

/// Whether a rumor is a typing indicator that was made at this time.
pub open spec fn is_typing(rumor: RumorView, receiver: Seq<u8>, author: Seq<u8>, now: u64) -> bool {
    &&& rumor.kind == APPLICATION_SPECIFIC_DATA
    &&& rumor.author == author
    &&& rumor.created_at == now
    &&& rumor.content == "typing"@
    &&& rumor.tags == typing_tags(receiver, author, (now + TYPING_SECONDS) as nat)
    &&& has_own_id(rumor)
}

/// Composes a direct message to the key that `receiver` is the `npub` form of.
pub fn direct_message(receiver: &str, content: String, me: &[u8; 32], now: u64) -> (res: Option<
    Addressed,
>)
    ensures
        match res {
            Some(res) => npub_key(receiver@) == Some(res.to@) && is_direct_message(
                res.rumor@,
                res.to@,
                content@,
                me@,
                now,
            ),
            None => npub_key(receiver@) is None,
        },
{
    match decode_npub(receiver) {
        Some(to) => {
            let rumor = private_msg_rumor(&to, content, me, now);
            Some(Addressed { to, rumor })
        },
        None => None,
    }
}

/// Composes a reaction to the direct message with this id, to the key that `npub` is the `npub`
/// form of.
pub fn reaction(reference_id: &str, npub: &str, emoji: String, me: &[u8; 32], now: u64) -> (res:
    Option<Addressed>)
    ensures
        match res {
            Some(res) => {
                &&& is_event_id(reference_id@)
                &&& npub_key(npub@) == Some(res.to@)
                &&& is_reaction(
                    res.rumor@,
                    hex_bytes(reference_id@),
                    res.to@,
                    emoji@,
                    me@,
                    now,
                )
            },
            None => !is_event_id(reference_id@) || npub_key(npub@) is None,
        },
{
    match (event_id_from_hex(reference_id), decode_npub(npub)) {
        (Some(event), Some(to)) => {
            let rumor = reaction_rumor(&event, &to, PRIVATE_DIRECT_MESSAGE, emoji, me, now);
            Some(Addressed { to, rumor })
        },
        _ => None,
    }
}

/// A typing indicator, and how it is to be sent.
#[derive(Debug)]
pub struct TypingIndicator {
    pub message: Addressed,
    /// The only relay that it is for.
    pub relay: String,
    /// Until when the relay has to keep it.
    pub expires_at: u64,
}

/// Composes a typing indicator for the key that `receiver` is the `npub` form of.
pub fn start_typing(receiver: &str, me: &[u8; 32], now: u64) -> (res: Option<TypingIndicator>)
    requires
        now + RELAY_SECONDS <= u64::MAX,
    ensures
        match res {
            Some(res) => {
                &&& npub_key(receiver@) == Some(res.message.to@)
                &&& is_typing(res.message.rumor@, res.message.to@, me@, now)
                &&& res.relay@ == TRUSTED_RELAY@
                &&& res.expires_at == now + RELAY_SECONDS
            },
            None => npub_key(receiver@) is None,
        },
{
    match decode_npub(receiver) {
        Some(to) => {
            let rumor = expiring_rumor(
                APPLICATION_SPECIFIC_DATA,
                "typing".to_owned(),
                &to,
                "vector".to_owned(),
                now + TYPING_SECONDS,
                me,
                now,
            );
            Some(
                TypingIndicator {
                    message: Addressed { to, rumor },
                    relay: TRUSTED_RELAY.to_owned(),
                    expires_at: now + RELAY_SECONDS,
                },
            )
        },
        None => None,
    }
}

} // verus!
