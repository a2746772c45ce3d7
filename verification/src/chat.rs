//! Profiles, and the chats that are held with them.

use vstd::prelude::*;
use crate::timeline::{sort_by_time, Message, Reaction};
#[allow(unused_imports)]
use crate::timeline::{
    chronological, lemma_views_push, lemma_views_update, views, MessageView, ReactionView,
};

verus! {

broadcast use {lemma_views_push, lemma_views_update};

/// What someone says about what they are doing.
#[derive(Debug)]
pub struct Status {
    pub title: String,
    pub purpose: String,
    pub url: String,
}

/// What a [`Status`] holds.
pub struct StatusView {
    pub title: Seq<char>,
    pub purpose: Seq<char>,
    pub url: Seq<char>,
}

impl View for Status {
    type V = StatusView;

    open spec fn view(&self) -> StatusView {
        StatusView { title: self.title@, purpose: self.purpose@, url: self.url@ }
    }
}

impl StatusView {
    /// No status.
    pub open spec fn empty() -> StatusView {
        StatusView { title: seq![], purpose: seq![], url: seq![] }
    }
}

impl Status {
    /// No status.
    pub fn new() -> (status: Self)
        ensures
            status@ == StatusView::empty(),
    {
        Status { title: String::new(), purpose: String::new(), url: String::new() }
    }
}

impl Clone for Status {
    fn clone(&self) -> (copy: Self)
        ensures
            copy@ == self@,
    {
        Status {
            title: self.title.clone(),
            purpose: self.purpose.clone(),
            url: self.url.clone(),
        }
    }
}

/// What a person publishes about themself, as far as profiles show it.
#[derive(Debug)]
pub struct Metadata {
    pub name: Option<String>,
    pub picture: Option<String>,
}

/// What [`Metadata`] holds.
pub struct MetadataView {
    pub name: Option<Seq<char>>,
    pub picture: Option<Seq<char>>,
}

/// What an optional text holds.
pub open spec fn text_option(text: Option<String>) -> Option<Seq<char>> {
    match text {
        Some(text) => Some(text@),
        None => None,
    }
}

impl View for Metadata {
    type V = MetadataView;

    open spec fn view(&self) -> MetadataView {
        MetadataView { name: text_option(self.name), picture: text_option(self.picture) }
    }
}

/// A person, and the chat held with them.
#[derive(Debug)]
pub struct Profile {
    /// The person's public key in its `npub` form.
    pub id: String,
    pub name: String,
    pub avatar: String,
    pub messages: Vec<Message>,
    pub status: Status,
    /// When name, avatar and status were last fetched, in seconds since the epoch.
    pub last_updated: u64,
    /// Until when the person counts as typing, in seconds since the epoch.
    pub typing_until: u64,
    pub mine: bool,
}

/// What a [`Profile`] holds.
pub struct ProfileView {
    pub id: Seq<char>,
    pub name: Seq<char>,
    pub avatar: Seq<char>,
    pub messages: Seq<MessageView>,
    pub status: StatusView,
    pub last_updated: u64,
    pub typing_until: u64,
    pub mine: bool,
}

impl View for Profile {
    type V = ProfileView;

    open spec fn view(&self) -> ProfileView {
        ProfileView {
            id: self.id@,
            name: self.name@,
            avatar: self.avatar@,
            messages: views(self.messages@),
            status: self.status@,
            last_updated: self.last_updated,
            typing_until: self.typing_until,
            mine: self.mine,
        }
    }
}

/// Where `id` first stands among `ids`, if it does.
pub open spec fn first_position(ids: Seq<Seq<char>>, id: Seq<char>) -> Option<int>
    decreases ids.len(),
{
    if ids.len() == 0 {
        None
    } else if ids[0] == id {
        Some(0)
    } else {
        match first_position(ids.drop_first(), id) {
            Some(i) => Some(i + 1),
            None => None,
        }
    }
}

/// The first position holds the id, and nothing before it does; where there is none, nothing
/// does.
pub proof fn lemma_first_position(ids: Seq<Seq<char>>, id: Seq<char>)
    ensures
        match first_position(ids, id) {
            Some(i) => 0 <= i < ids.len() && ids[i] == id && forall|j: int|
                0 <= j < i ==> #[trigger] ids[j] != id,
            None => forall|j: int| 0 <= j < ids.len() ==> #[trigger] ids[j] != id,
        },
    decreases ids.len(),
{
    if ids.len() > 0 && ids[0] != id {
        let rest = ids.drop_first();
        lemma_first_position(rest, id);
        assert forall|j: int| 0 < j < ids.len() implies #[trigger] ids[j] == rest[j - 1] by {}
    }
}

/// A position that holds the id, while none before it does, is the first.
pub proof fn lemma_is_first_position(ids: Seq<Seq<char>>, id: Seq<char>, i: int)
    requires
        0 <= i < ids.len(),
        ids[i] == id,
        forall|j: int| 0 <= j < i ==> #[trigger] ids[j] != id,
    ensures
        first_position(ids, id) == Some(i),
{
    lemma_first_position(ids, id);
    let found = first_position(ids, id)->0;
    if found < i {
        assert(ids[found] != id);
    } else if i < found {
        assert(ids[i] != id);
    }
}

/// The ids of messages, in order.
pub open spec fn message_ids(messages: Seq<MessageView>) -> Seq<Seq<char>> {
    Seq::new(messages.len(), |i: int| messages[i].id)
}

impl ProfileView {
    /// A profile that nothing is known of.
    pub open spec fn empty() -> ProfileView {
        ProfileView {
            id: seq![],
            name: seq![],
            avatar: seq![],
            messages: seq![],
            status: StatusView::empty(),
            last_updated: 0,
            typing_until: 0,
            mine: false,
        }
    }

    /// Where the first message with this id stands, if there is one.
    pub open spec fn find_message(self, id: Seq<char>) -> Option<int> {
        first_position(message_ids(self.messages), id)
    }

    /// Whether a message with this id is in the chat.
    pub open spec fn has_message(self, id: Seq<char>) -> bool {
        self.find_message(id) is Some
    }

    /// The first message with this id.
    pub open spec fn message(self, id: Seq<char>) -> MessageView
        recommends
            self.has_message(id),
    {
        self.messages[self.find_message(id)->0]
    }

    /// The profile with another message in one place of its chat.
    pub open spec fn set_message(self, i: int, message: MessageView) -> ProfileView {
        ProfileView { messages: self.messages.update(i, message), ..self }
    }

    /// The profile with name and avatar as far as the metadata give them.
    pub open spec fn with_metadata(self, meta: MetadataView) -> ProfileView {
        ProfileView {
            name: match meta.name {
                Some(name) => name,
                None => self.name,
            },
            avatar: match meta.picture {
                Some(picture) => picture,
                None => self.avatar,
            },
            ..self
        }
    }

    /// The profile with one message more in its chat, unless a message with that id is there.
    /// A message that the person wrote ends their typing.
    pub open spec fn with_message(self, message: MessageView) -> ProfileView {
        if self.has_message(message.id) {
            self
        } else {
            ProfileView {
                messages: chronological(self.messages.push(message)),
                typing_until: if message.mine {
                    self.typing_until
                } else {
                    0
                },
                ..self
            }
        }
    }

    /// The profile with a reaction on the message with this id, if that message is there.
    pub open spec fn with_reaction(
        self,
        message_id: Seq<char>,
        reaction: ReactionView,
    ) -> ProfileView {
        match self.find_message(message_id) {
            Some(i) => self.set_message(i, self.messages[i].with_reaction(reaction)),
            None => self,
        }
    }
}

/// Where the first message with this id stands.
fn message_position(messages: &Vec<Message>, id: &String) -> (place: Option<usize>)
    ensures
        match place {
            Some(i) => i < messages@.len() && first_position(message_ids(views(messages@)), id@)
                == Some(i as int),
            None => first_position(message_ids(views(messages@)), id@) is None,
        },
{
    let ghost ids = message_ids(views(messages@));
    let mut i: usize = 0;
    while i < messages.len()
        invariant
            i <= messages@.len(),
            ids == message_ids(views(messages@)),
            forall|j: int| 0 <= j < i ==> #[trigger] ids[j] != id@,
        decreases messages@.len() - i,
    {
        assert(ids[i as int] == messages@[i as int].id@);
        if messages[i].id == *id {
            proof {
                lemma_is_first_position(ids, id@, i as int);
            }
            return Some(i);
        }
        i = i + 1;
    }
    proof {
        lemma_first_position(ids, id@);
    }
    None
}

impl Profile {
    /// A profile that nothing is known of.
    pub fn new() -> (profile: Self)
        ensures
            profile@ == ProfileView::empty(),
    {
        let profile = Profile {
            id: String::new(),
            name: String::new(),
            avatar: String::new(),
            messages: Vec::new(),
            status: Status::new(),
            last_updated: 0,
            typing_until: 0,
            mine: false,
        };
        assert(profile@.messages =~= ProfileView::empty().messages);
        profile
    }

    /// The first message with this id.
    pub fn get_message_mut(&mut self, id: String) -> (found: Result<&mut Message, ()>)
        ensures
            match found {
                Ok(message) => old(self)@.find_message(id@) matches Some(i) && message@
                    == old(self)@.messages[i] && final(self)@ == old(self)@.set_message(
                    i,
                    final(message)@,
                ),
                Err(_) => !old(self)@.has_message(id@) && final(self)@ == old(self)@,
            },
    {
        match message_position(&self.messages, &id) {
            Some(i) => Ok(&mut self.messages[i]),
            None => Err(()),
        }
    }

    /// Takes over name and avatar, as far as the metadata give them.
    pub fn from_metadata(&mut self, meta: Metadata)
        ensures
            final(self)@ == old(self)@.with_metadata(meta@),
    {
        match meta.name {
            Some(name) => {
                self.name = name;
            },
            None => {},
        }
        match meta.picture {
            Some(picture) => {
                self.avatar = picture;
            },
            None => {},
        }
    }

    /// Adds a message to the chat, unless a message with that id is there, and keeps the chat in
    /// the order of time. A message that the person wrote ends their typing.
    pub fn internal_add_message(&mut self, message: Message)
        ensures
            final(self)@ == old(self)@.with_message(message@),
    {
        match message_position(&self.messages, &message.id) {
            Some(_) => {},
            None => {
                // They sent what they were typing.
                if !message.mine {
                    self.typing_until = 0;
                }
                self.messages.push(message);
                sort_by_time(&mut self.messages);
            },
        }
    }

    /// Puts a reaction on the message with this id, unless the message has it, and tells whether
    /// the message is there.
    pub fn internal_add_reaction(&mut self, msg_id: String, reaction: Reaction) -> (found: bool)
        ensures
            found == old(self)@.has_message(msg_id@),
            final(self)@ == old(self)@.with_reaction(msg_id@, reaction@),
    {
        match self.get_message_mut(msg_id) {
            Ok(message) => {
                message.add_reaction(reaction);
                true
            },
            Err(_) => false,
        }
    }
}

impl Clone for Profile {
    fn clone(&self) -> (copy: Self)
        ensures
            copy@ == self@,
    {
        let messages = self.messages.clone();
        let copy = Profile {
            id: self.id.clone(),
            name: self.name.clone(),
            avatar: self.avatar.clone(),
            messages,
            status: self.status.clone(),
            last_updated: self.last_updated,
            typing_until: self.typing_until,
            mine: self.mine,
        };
        assert(copy@.messages =~= self@.messages);
        copy
    }
}

/// All profiles, and whether anything was changed since it was last shown.
#[derive(Debug)]
pub struct ChatState {
    pub profiles: Vec<Profile>,
    pub has_state_changed: bool,
}

/// What a [`ChatState`] holds.
pub struct ChatView {
    pub profiles: Seq<ProfileView>,
    pub has_state_changed: bool,
}

impl View for ChatState {
    type V = ChatView;

    open spec fn view(&self) -> ChatView {
        ChatView {
            profiles: views(self.profiles@),
            has_state_changed: self.has_state_changed,
        }
    }
}

/// The ids of profiles, in order.
pub open spec fn profile_ids(profiles: Seq<ProfileView>) -> Seq<Seq<char>> {
    Seq::new(profiles.len(), |i: int| profiles[i].id)
}

impl ChatView {
    /// Where the first profile with this id stands, if there is one.
    pub open spec fn find_profile(self, npub: Seq<char>) -> Option<int> {
        first_position(profile_ids(self.profiles), npub)
    }

    /// Whether there is a profile with this id.
    pub open spec fn has_profile(self, npub: Seq<char>) -> bool {
        self.find_profile(npub) is Some
    }

    /// The first profile with this id.
    pub open spec fn profile(self, npub: Seq<char>) -> ProfileView
        recommends
            self.has_profile(npub),
    {
        self.profiles[self.find_profile(npub)->0]
    }

    /// Whether the first profile with this id has a message with that id.
    pub open spec fn has_message(self, npub: Seq<char>, id: Seq<char>) -> bool {
        self.has_profile(npub) && self.profile(npub).has_message(id)
    }

    /// The first message with that id in the chat with this person.
    pub open spec fn message(self, npub: Seq<char>, id: Seq<char>) -> MessageView
        recommends
            self.has_message(npub, id),
    {
        self.profile(npub).message(id)
    }

    /// The state with another profile in the place of the first one with this id.
    pub open spec fn set_profile(self, npub: Seq<char>, profile: ProfileView) -> ChatView
        recommends
            self.has_profile(npub),
    {
        ChatView { profiles: self.profiles.update(self.find_profile(npub)->0, profile), ..self }
    }

    /// The state with one profile more, behind the others.
    pub open spec fn push_profile(self, profile: ProfileView) -> ChatView {
        ChatView { profiles: self.profiles.push(profile), ..self }
    }

    /// The state, marked as changed.
    pub open spec fn changed(self) -> ChatView {
        ChatView { has_state_changed: true, ..self }
    }

    /// The state with a message in the chat with this person, who gets a profile if they have
    /// none.
    pub open spec fn with_message(self, npub: Seq<char>, message: MessageView) -> ChatView {
        if self.has_profile(npub) {
            self.set_profile(npub, self.profile(npub).with_message(message)).changed()
        } else {
            self.push_profile(
                ProfileView { id: npub, ..ProfileView::empty() }.with_message(message),
            ).changed()
        }
    }

    /// The state with a reaction on a message of the chat with this person, if it is there.
    pub open spec fn with_reaction(
        self,
        npub: Seq<char>,
        message_id: Seq<char>,
        reaction: ReactionView,
    ) -> ChatView {
        if self.has_message(npub, message_id) {
            self.set_profile(
                npub,
                self.profile(npub).with_reaction(message_id, reaction),
            ).changed()
        } else {
            self
        }
    }
}

/// A profile that is added, while none with its id is there, is found under that id.
pub proof fn lemma_pushed_profile(state: ChatView, profile: ProfileView)
    requires
        !state.has_profile(profile.id),
    ensures
        state.push_profile(profile).find_profile(profile.id) == Some(state.profiles.len() as int),
        state.push_profile(profile).profile(profile.id) == profile,
{
    let ids = profile_ids(state.profiles);
    let more = profile_ids(state.push_profile(profile).profiles);
    lemma_first_position(ids, profile.id);
    assert forall|j: int| 0 <= j < ids.len() implies #[trigger] more[j] != profile.id by {
        assert(more[j] == ids[j]);
    }
    lemma_is_first_position(more, profile.id, ids.len() as int);
}

/// Where the first profile with this id stands.
fn profile_position(profiles: &Vec<Profile>, npub: &String) -> (place: Option<usize>)
    ensures
        match place {
            Some(i) => i < profiles@.len() && first_position(profile_ids(views(profiles@)), npub@)
                == Some(i as int),
            None => first_position(profile_ids(views(profiles@)), npub@) is None,
        },
{
    let ghost ids = profile_ids(views(profiles@));
    let mut i: usize = 0;
    while i < profiles.len()
        invariant
            i <= profiles@.len(),
            ids == profile_ids(views(profiles@)),
            forall|j: int| 0 <= j < i ==> #[trigger] ids[j] != npub@,
        decreases profiles@.len() - i,
    {
        assert(ids[i as int] == profiles@[i as int].id@);
        if profiles[i].id == *npub {
            proof {
                lemma_is_first_position(ids, npub@, i as int);
            }
            return Some(i);
        }
        i = i + 1;
    }
    proof {
        lemma_first_position(ids, npub@);
    }
    None
}

impl ChatState {
    /// No profiles, and yet to be shown.
    pub fn new() -> (state: Self)
        ensures
            state@ == (ChatView { profiles: seq![], has_state_changed: true }),
    {
        let state = ChatState { profiles: Vec::new(), has_state_changed: true };
        assert(state@.profiles =~= seq![]);
        state
    }

    /// The first profile with this id.
    pub fn get_profile(&self, npub: String) -> (found: Result<&Profile, ()>)
        ensures
            match found {
                Ok(profile) => self@.has_profile(npub@) && profile@ == self@.profile(npub@),
                Err(_) => !self@.has_profile(npub@),
            },
    {
        match profile_position(&self.profiles, &npub) {
            Some(i) => Ok(&self.profiles[i]),
            None => Err(()),
        }
    }

    /// The first profile with this id, to change.
    pub fn get_profile_mut(&mut self, npub: String) -> (found: Result<&mut Profile, ()>)
        ensures
            match found {
                Ok(profile) => old(self)@.has_profile(npub@) && profile@ == old(self)@.profile(
                    npub@,
                ) && final(self)@ == old(self)@.set_profile(npub@, final(profile)@),
                Err(_) => !old(self)@.has_profile(npub@) && final(self)@ == old(self)@,
            },
    {
        match profile_position(&self.profiles, &npub) {
            Some(i) => Ok(&mut self.profiles[i]),
            None => Err(()),
        }
    }

    /// Tells whether the first profile with this id has a message with that id.
    pub fn has_message(&self, npub: &String, id: &String) -> (res: bool)
        ensures
            res == self@.has_message(npub@, id@),
    {
        match profile_position(&self.profiles, npub) {
            Some(i) => message_position(&self.profiles[i].messages, id).is_some(),
            None => false,
        }
    }

    /// Adds a message to the chat with this person, who gets a profile if they have none.
    pub fn add_message(&mut self, npub: String, message: Message)
        ensures
            final(self)@ == old(self)@.with_message(npub@, message@),
    {
        match profile_position(&self.profiles, &npub) {
            Some(i) => {
                let profile = &mut self.profiles[i];
                profile.internal_add_message(message);
            },
            None => {
                let mut profile = Profile::new();
                profile.id = npub;
                profile.internal_add_message(message);
                self.profiles.push(profile);
            },
        }
        self.has_state_changed = true;
    }

    /// Puts a reaction on a message of the chat with this person, and tells whether the message
    /// is there.
    pub fn add_reaction(&mut self, npub: String, msg_id: String, reaction: Reaction) -> (found:
        bool)
        ensures
            found == old(self)@.has_message(npub@, msg_id@),
            final(self)@ == old(self)@.with_reaction(npub@, msg_id@, reaction@),
    {
        let added: bool = match self.get_profile_mut(npub) {
            Ok(profile) => profile.internal_add_reaction(msg_id, reaction),
            Err(_) => false,
        };
        if added {
            self.has_state_changed = true;
        } else {
            proof {
                lemma_first_position(profile_ids(old(self)@.profiles), npub@);
                assert(self@.profiles =~= old(self)@.profiles);
            }
        }
        added
    }
}

} // verus!
