//! What becomes of the rumors that arrive.

use vstd::prelude::*;
use crate::chat::ChatState;
#[allow(unused_imports)]
use crate::chat::{ChatView, ProfileView};
use crate::hex::bytes_to_hex_string;
#[allow(unused_imports)]
use crate::hex::hex_text;
use crate::nostr::{
    encode_npub, first_tagged_key, tag_named, Rumor, APPLICATION_SPECIFIC_DATA,
    PRIVATE_DIRECT_MESSAGE, REACTION,
};
#[allow(unused_imports)]
use crate::nostr::{find_tag, npub, tagged_key, RumorView};
use crate::text::{parse_number, same_text};
#[allow(unused_imports)]
use crate::text::number_in;
use crate::timeline::{Message, Reaction};
#[allow(unused_imports)]
use crate::timeline::{MessageView, ReactionView};

verus! {

/// How far ahead a typing indicator may expire, in seconds: half a minute, and a little for
/// clocks that do not agree.
pub const TYPING_WINDOW: u64 = 35;

/// Whom a rumor came from.
#[derive(Debug)]
pub struct Origin {
    /// Whether it was sent with the account's own key.
    pub mine: bool,
    /// The `npub` form of the key whose chat it belongs to.
    pub contact: String,
    /// The `npub` form of the author's key.
    pub author: String,
    /// The sender's key in hexadecimal.
    pub sender_id: String,
}

/// What an [`Origin`] holds.
pub struct OriginView {
    pub mine: bool,
    pub contact: Seq<char>,
    pub author: Seq<char>,
    pub sender_id: Seq<char>,
}

impl View for Origin {
    type V = OriginView;

    open spec fn view(&self) -> OriginView {
        OriginView {
            mine: self.mine,
            contact: self.contact@,
            author: self.author@,
            sender_id: self.sender_id@,
        }
    }
}

/// Whom a rumor came from. What the account itself sent belongs to the chat with the first key
/// that is tagged; what others sent, to the chat with the sender.
pub open spec fn origin_of(rumor: RumorView, sender: Seq<u8>, me: Seq<u8>) -> OriginView {
    OriginView {
        mine: sender == me,
        contact: match tagged_key(rumor.tags) {
            Some(key) if sender == me => npub(key),
            _ => npub(sender),
        },
        author: npub(rumor.author),
        sender_id: hex_text(sender),
    }
}

/// A notice of a message, for the desktop to show.
#[derive(Debug)]
pub struct Notification {
    pub title: String,
    pub body: String,
}

/// What a [`Notification`] holds.
pub struct NotificationView {
    pub title: Seq<char>,
    pub body: Seq<char>,
}

impl View for Notification {
    type V = NotificationView;

    open spec fn view(&self) -> NotificationView {
        NotificationView { title: self.title@, body: self.body@ }
    }
}

/// What became of a rumor.
#[derive(Debug)]
pub enum Reception {
    /// It was a message, and this is to be shown about it.
    Message(Option<Notification>),
    /// It was a reaction, and this tells whether its message is there.
    Reaction(bool),
    /// It was a reaction that names no message.
    StrayReaction,
    /// It told that someone is typing, and this tells whether they are known.
    Typing(bool),
    /// It was nothing that the messenger reads.
    Ignored,
}

/// What a [`Reception`] holds.
pub enum ReceptionView {
    Message(Option<NotificationView>),
    Reaction(bool),
    StrayReaction,
    Typing(bool),
    Ignored,
}

impl View for Reception {
    type V = ReceptionView;

    open spec fn view(&self) -> ReceptionView {
        match *self {
            Reception::Message(Some(notification)) => ReceptionView::Message(
                Some(notification@),
            ),
            Reception::Message(None) => ReceptionView::Message(None),
            Reception::Reaction(found) => ReceptionView::Reaction(found),
            Reception::StrayReaction => ReceptionView::StrayReaction,
            Reception::Typing(known) => ReceptionView::Typing(known),
            Reception::Ignored => ReceptionView::Ignored,
        }
    }
}

/// Whether a rumor with this `d` tag is a typing indicator of this messenger.
pub open spec fn is_typing_indicator(rumor: RumorView, d_tag: Seq<Seq<char>>) -> bool {
    d_tag[1] == "vector"@ && rumor.content == "typing"@
}

/// When the typing that a rumor tells of ends, if it tells of any. An `expiration` tag that
/// writes no number counts as zero.
pub open spec fn typing_expiry(rumor: RumorView) -> Option<u64> {
    if rumor.kind != APPLICATION_SPECIFIC_DATA {
        None
    } else {
        match (find_tag(rumor.tags, "d"@), find_tag(rumor.tags, "expiration"@)) {
            (Some(d_tag), Some(expiration)) if is_typing_indicator(rumor, d_tag) => match number_in(
                expiration[1],
            ) {
                Some(expiry) => Some(expiry),
                None => Some(0),
            },
            _ => None,
        }
    }
}

/// Whether an expiry lies ahead, but not too far.
pub open spec fn in_typing_window(expiry: u64, now: u64) -> bool {
    now < expiry <= now + TYPING_WINDOW
}

/// Whether a rumor has all that it has to have: an id where it is stored, values in the tags that
/// are read, and, where a notice is to be shown, a sender with a profile.
pub open spec fn is_receivable(
    state: ChatView,
    rumor: RumorView,
    origin: OriginView,
    is_new: bool,
) -> bool {
    if rumor.kind == PRIVATE_DIRECT_MESSAGE {
        rumor.id is Some && (!origin.mine && is_new ==> state.has_profile(origin.contact))
    } else if rumor.kind == REACTION {
        find_tag(rumor.tags, "e"@) matches Some(tag) ==> tag.len() > 1 && rumor.id is Some
    } else if rumor.kind == APPLICATION_SPECIFIC_DATA {
        find_tag(rumor.tags, "d"@) matches Some(d_tag) ==> d_tag.len() > 1 && (
        is_typing_indicator(rumor, d_tag) ==> (find_tag(rumor.tags, "expiration"@) matches Some(tag)
            ==> tag.len() > 1))
    } else {
        true
    }
}

/// The message that a rumor is.
pub open spec fn received_message(rumor: RumorView, origin: OriginView) -> MessageView {
    MessageView {
        id: hex_text(rumor.id->0),
        content: rumor.content,
        reactions: seq![],
        at: rumor.created_at,
        pending: false,
        failed: false,
        mine: origin.mine,
    }
}

/// The reaction to a message that a rumor is.
pub open spec fn received_reaction(
    rumor: RumorView,
    origin: OriginView,
    reference_id: Seq<char>,
) -> ReactionView {
    ReactionView {
        id: hex_text(rumor.id->0),
        reference_id,
        author_id: origin.sender_id,
        emoji: rumor.content,
    }
}

/// The state after a rumor.
pub open spec fn received(
    state: ChatView,
    rumor: RumorView,
    origin: OriginView,
    now: u64,
) -> ChatView {
    if rumor.kind == PRIVATE_DIRECT_MESSAGE {
        state.with_message(origin.contact, received_message(rumor, origin))
    } else if rumor.kind == REACTION {
        match find_tag(rumor.tags, "e"@) {
            Some(tag) => state.with_reaction(
                origin.contact,
                tag[1],
                received_reaction(rumor, origin, tag[1]),
            ),
            None => state,
        }
    } else {
        match typing_expiry(rumor) {
            Some(expiry) if in_typing_window(expiry, now) && state.has_profile(origin.author) =>
            state.set_profile(
                origin.author,
                ProfileView { typing_until: expiry, ..state.profile(origin.author) },
            ).changed(),
            _ => state,
        }
    }
}

/// The notice of a new message from someone.
pub open spec fn notice(state: ChatView, rumor: RumorView, origin: OriginView) -> NotificationView {
    NotificationView {
        title: if state.profile(origin.contact).name.len() == 0 {
            "New Message"@
        } else {
            state.profile(origin.contact).name
        },
        body: rumor.content,
    }
}

/// What becomes of a rumor.
pub open spec fn reception(
    state: ChatView,
    rumor: RumorView,
    origin: OriginView,
    is_new: bool,
    now: u64,
) -> ReceptionView {
    if rumor.kind == PRIVATE_DIRECT_MESSAGE {
        ReceptionView::Message(
            if !origin.mine && is_new {
                Some(notice(state, rumor, origin))
            } else {
                None
            },
        )
    } else if rumor.kind == REACTION {
        match find_tag(rumor.tags, "e"@) {
            Some(tag) => ReceptionView::Reaction(state.has_message(origin.contact, tag[1])),
            None => ReceptionView::StrayReaction,
        }
    } else {
        match typing_expiry(rumor) {
            Some(expiry) if in_typing_window(expiry, now) => ReceptionView::Typing(
                state.has_profile(origin.author),
            ),
            _ => ReceptionView::Ignored,
        }
    }
}

/// Picks the key whose chat a rumor belongs to: for what the account itself sent, the one that is
/// tagged, if there is one; in all other cases, the sender's.
pub fn contact_of(mine: bool, tagged: Option<[u8; 32]>, sender: &[u8; 32]) -> (contact: [u8; 32])
    ensures
        contact@ == (match tagged {
            Some(key) if mine => key@,
            _ => sender@,
        }),
{
    match tagged {
        Some(key) if mine => key,
        _ => *sender,
    }
}

/// Finds out whom a rumor came from.
pub fn trace(rumor: &Rumor, sender: &[u8; 32], me: &[u8; 32]) -> (origin: Origin)
    ensures
        origin@ == origin_of(rumor@, sender@, me@),
{
    let mine: bool = same_key(sender, me);
    let contact: [u8; 32] = contact_of(mine, first_tagged_key(&rumor.tags), sender);
    Origin {
        mine,
        contact: encode_npub(&contact),
        author: encode_npub(&rumor.author),
        sender_id: bytes_to_hex_string(sender.as_slice()),
    }
}

/// Whether two keys are the same.
pub fn same_key(a: &[u8; 32], b: &[u8; 32]) -> (res: bool)
    ensures
        res == (a@ == b@),
{
    let mut i: usize = 0;
    while i < 32
        invariant
            i <= 32,
            forall|j: int| 0 <= j < i ==> a@[j] == #[trigger] b@[j],
        decreases 32 - i,
    {
        if a[i] != b[i] {
            return false;
        }
        i = i + 1;
    }
    assert(a@ =~= b@);
    true
}

impl ChatState {
    /// Tells whether a rumor has all that it has to have.
    pub fn can_receive(&self, rumor: &Rumor, origin: &Origin, is_new: bool) -> (res: bool)
        ensures
            res == is_receivable(self@, rumor@, origin@, is_new),
    {
        if rumor.kind == PRIVATE_DIRECT_MESSAGE {
            rumor.id.is_some() && (origin.mine || !is_new || self.get_profile(
                origin.contact.clone(),
            ).is_ok())
        } else if rumor.kind == REACTION {
            match tag_named(&rumor.tags, "e") {
                Some(tag) => tag.len() > 1 && rumor.id.is_some(),
                None => true,
            }
        } else if rumor.kind == APPLICATION_SPECIFIC_DATA {
            match tag_named(&rumor.tags, "d") {
                Some(d_tag) => {
                    if d_tag.len() <= 1 {
                        false
                    } else if same_text(d_tag[1].as_str(), "vector") && same_text(
                        rumor.content.as_str(),
                        "typing",
                    ) {
                        match tag_named(&rumor.tags, "expiration") {
                            Some(tag) => tag.len() > 1,
                            None => true,
                        }
                    } else {
                        true
                    }
                },
                None => true,
            }
        } else {
            true
        }
    }

    /// Stores a message.
    fn receive_message(&mut self, rumor: Rumor, origin: Origin, is_new: bool) -> (res: Reception)
        requires
            rumor.kind == PRIVATE_DIRECT_MESSAGE,
            is_receivable(old(self)@, rumor@, origin@, is_new),
        ensures
            final(self)@ == old(self)@.with_message(
                origin@.contact,
                received_message(rumor@, origin@),
            ),
            res@ == ReceptionView::Message(
                if !origin@.mine && is_new {
                    Some(notice(old(self)@, rumor@, origin@))
                } else {
                    None
                },
            ),
    {
        let notification: Option<Notification> = if !origin.mine && is_new {
            let profile = self.get_profile(origin.contact.clone()).unwrap();
            let title: String = if profile.name.as_str().is_empty() {
                "New Message".to_owned()
            } else {
                profile.name.clone()
            };
            Some(Notification { title, body: rumor.content.clone() })
        } else {
            None
        };
        let id: [u8; 32] = rumor.id.unwrap();
        let message = Message {
            id: bytes_to_hex_string(id.as_slice()),
            content: rumor.content,
            reactions: Vec::new(),
            at: rumor.created_at,
            pending: false,
            failed: false,
            mine: origin.mine,
        };
        assert(message@.reactions =~= seq![]);
        self.add_message(origin.contact, message);
        Reception::Message(notification)
    }

    /// Puts a reaction on its message.
    fn receive_reaction(&mut self, rumor: Rumor, origin: Origin) -> (res: Reception)
        requires
            rumor.kind == REACTION,
            is_receivable(old(self)@, rumor@, origin@, false),
        ensures
            match find_tag(rumor@.tags, "e"@) {
                Some(tag) => {
                    &&& final(self)@ == old(self)@.with_reaction(
                        origin@.contact,
                        tag[1],
                        received_reaction(rumor@, origin@, tag[1]),
                    )
                    &&& res@ == ReceptionView::Reaction(
                        old(self)@.has_message(origin@.contact, tag[1]),
                    )
                },
                None => final(self)@ == old(self)@ && res@ == ReceptionView::StrayReaction,
            },
    {
        match tag_named(&rumor.tags, "e") {
            Some(tag) => {
                let reference_id: String = tag[1].clone();
                let id: [u8; 32] = rumor.id.unwrap();
                let reaction = Reaction {
                    id: bytes_to_hex_string(id.as_slice()),
                    reference_id: reference_id.clone(),
                    author_id: origin.sender_id,
                    emoji: rumor.content.clone(),
                };
                let found: bool = self.add_reaction(origin.contact, reference_id, reaction);
                Reception::Reaction(found)
            },
            None => Reception::StrayReaction,
        }
    }

    /// Notes that someone is typing.
    fn receive_typing(&mut self, rumor: Rumor, origin: Origin, now: u64) -> (res: Reception)
        requires
            rumor.kind == APPLICATION_SPECIFIC_DATA,
            is_receivable(old(self)@, rumor@, origin@, false),
        ensures
            final(self)@ == received(old(self)@, rumor@, origin@, now),
            res@ == reception(old(self)@, rumor@, origin@, false, now),
    {
        let is_typing: bool = match tag_named(&rumor.tags, "d") {
            Some(d_tag) => same_text(d_tag[1].as_str(), "vector") && same_text(
                rumor.content.as_str(),
                "typing",
            ),
            None => false,
        };
        if !is_typing {
            return Reception::Ignored;
        }
        match tag_named(&rumor.tags, "expiration") {
            Some(tag) => {
                let expiry: u64 = match parse_number(tag[1].as_str()) {
                    Some(expiry) => expiry,
                    None => 0,
                };
                if now < expiry && expiry - now <= TYPING_WINDOW {
                    let known: bool = match self.get_profile_mut(origin.author) {
                        Ok(profile) => {
                            profile.typing_until = expiry;
                            true
                        },
                        Err(_) => false,
                    };
                    if known {
                        self.has_state_changed = true;
                    }
                    Reception::Typing(known)
                } else {
                    Reception::Ignored
                }
            },
            None => Reception::Ignored,
        }
    }

    /// Takes a rumor in: stores a message, puts a reaction on its message, or notes that someone
    /// is typing.
    pub fn receive(&mut self, rumor: Rumor, origin: Origin, is_new: bool, now: u64) -> (res:
        Reception)
        requires
            is_receivable(old(self)@, rumor@, origin@, is_new),
        ensures
            final(self)@ == received(old(self)@, rumor@, origin@, now),
            res@ == reception(old(self)@, rumor@, origin@, is_new, now),
    {
        if rumor.kind == PRIVATE_DIRECT_MESSAGE {
            self.receive_message(rumor, origin, is_new)
        } else if rumor.kind == REACTION {
            self.receive_reaction(rumor, origin)
        } else if rumor.kind == APPLICATION_SPECIFIC_DATA {
            self.receive_typing(rumor, origin, now)
        } else {
            Reception::Ignored
        }
    }

    /// Takes in a rumor that a sender has sent to the account with the key `me`. `is_new` tells
    /// whether it has just arrived. Where it does not have all that it has to have, nothing
    /// becomes of it.
    pub fn handle_event(
        &mut self,
        rumor: Rumor,
        sender: &[u8; 32],
        me: &[u8; 32],
        is_new: bool,
        now: u64,
    ) -> (res: Option<Reception>)
        ensures
            match res {
                Some(res) => {
                    let origin = origin_of(rumor@, sender@, me@);
                    &&& is_receivable(old(self)@, rumor@, origin, is_new)
                    &&& final(self)@ == received(old(self)@, rumor@, origin, now)
                    &&& res@ == reception(old(self)@, rumor@, origin, is_new, now)
                },
                None => {
                    &&& !is_receivable(
                        old(self)@,
                        rumor@,
                        origin_of(rumor@, sender@, me@),
                        is_new,
                    )
                    &&& final(self)@ == old(self)@
                },
            },
    {
        let origin = trace(&rumor, sender, me);
        if self.can_receive(&rumor, &origin, is_new) {
            Some(self.receive(rumor, origin, is_new, now))
        } else {
            None
        }
    }
}

} // verus!
