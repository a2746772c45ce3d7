//! The account, and the profiles that it and others publish.

use vstd::prelude::*;
use crate::chat::{ChatState, Metadata, Profile, Status};
#[allow(unused_imports)]
use crate::chat::{
    lemma_first_position, lemma_pushed_profile, profile_ids, ChatView, MetadataView, ProfileView,
    StatusView,
};
#[allow(unused_imports)]
use crate::histories::{known_profiles_stay, lemma_found_profile, other_profiles_stay};
use crate::incoming::same_key;
use crate::nostr::{
    decode_npub, derive_keys, encode_npub, encode_nsec, parse_keys, parse_url, AccountKeys,
    USER_STATUS,
};
#[allow(unused_imports)]
use crate::nostr::{mnemonic_keys, normal_url, npub, npub_key, nsec, written_keys};
use crate::text::starts_with;
#[allow(unused_imports)]
use crate::timeline::views;

verus! {

/// How long a profile that was fetched counts as fresh, in seconds.
pub const FRESH_SECONDS: u64 = 30;

/// The keys of an account in the forms that people see.
#[derive(Debug)]
pub struct LoginKeyPair {
    /// The `npub` form of the public key.
    pub public: String,
    /// The `nsec` form of the secret key.
    pub private: String,
}

/// An account, with its keys in both forms.
pub struct Account {
    pub keys: AccountKeys,
    pub pair: LoginKeyPair,
}

/// The keys that a text stands for, if it does: one that begins with `nsec` is a secret key, any
/// other a seed phrase.
pub open spec fn imported_keys(text: Seq<char>) -> Option<(Seq<u8>, Seq<u8>)> {
    if "nsec"@.is_prefix_of(text) {
        written_keys(text)
    } else {
        mnemonic_keys(text, seq![])
    }
}

/// Reads the keys of an account from a secret key or from a seed phrase without a passphrase.
/// The `npub` form gives the public key back, and the `nsec` form is good for another login to
/// the same account.
pub fn login(import_key: String) -> (account: Option<Account>)
    ensures
        match account {
            Some(account) => {
                &&& imported_keys(import_key@) == Some(
                    (account.keys.secret@, account.keys.public@),
                )
                &&& account.pair.public@ == npub(account.keys.public@)
                &&& nsec(account.keys.secret@) == Some(account.pair.private@)
                &&& npub_key(account.pair.public@) == Some(account.keys.public@)
                &&& imported_keys(account.pair.private@) == imported_keys(import_key@)
            },
            None => imported_keys(import_key@) is None,
        },
{
    let keys: Option<AccountKeys> = if starts_with(import_key.as_str(), "nsec") {
        parse_keys(import_key.as_str())
    } else {
        proof {
            reveal_strlit("");
            assert(""@ =~= Seq::<char>::empty());
        }
        derive_keys(import_key.as_str(), "")
    };
    match keys {
        Some(keys) => {
            let public = encode_npub(&keys.public);
            let private = encode_nsec(&keys.secret).unwrap();
            Some(Account { keys, pair: LoginKeyPair { public, private } })
        },
        None => None,
    }
}

/// Writes a public key in its `npub` form.
pub fn npub_of(key: &[u8; 32]) -> (text: String)
    ensures
        text@ == npub(key@),
        npub_key(text@) == Some(key@),
{
    encode_npub(key)
}

/// A profile that was asked for, and is known as it was some time ago.
#[derive(Debug)]
pub struct StaleProfile {
    /// The key that it belongs to.
    pub key: [u8; 32],
    pub profile: Profile,
}

/// What is known of a profile that was asked for.
#[derive(Debug)]
pub enum Lookup {
    /// It was fetched a moment ago.
    Fresh(Profile),
    /// It is to be fetched again.
    Stale(StaleProfile),
}

/// Whether a profile was fetched a moment ago.
pub open spec fn is_fresh(profile: ProfileView, now: u64) -> bool {
    profile.last_updated + FRESH_SECONDS > now
}

/// The state with a profile for this person. One that is made for this shows nothing.
pub open spec fn with_profile(state: ChatView, npub: Seq<char>) -> ChatView {
    if state.has_profile(npub) {
        state
    } else {
        state.push_profile(ProfileView { id: npub, ..ProfileView::empty() })
    }
}

/// An event that someone has published, as far as a status is read from it.
#[derive(Debug)]
pub struct Published {
    pub content: String,
    pub tags: Vec<Vec<String>>,
}

/// Whether the first tag has a value.
pub open spec fn tells_purpose(tags: Seq<Seq<Seq<char>>>) -> bool {
    tags.len() > 0 && tags[0].len() > 1
}

/// Tells whether an event can be read as a status: whether its first tag has a value.
pub fn is_status(event: &Published) -> (res: bool)
    ensures
        res == tells_purpose(event.tags.deep_view()),
{
    event.tags.len() > 0 && event.tags[0].len() > 1
}

/// Reads the status that someone has published last, if there is one. The first tag tells its
/// purpose, whatever the tag's name.
pub fn published_status(event: Option<Published>) -> (status: Status)
    requires
        event matches Some(event) ==> tells_purpose(event.tags.deep_view()),
    ensures
        status@ == (match event {
            Some(event) => StatusView {
                title: event.content@,
                purpose: event.tags.deep_view()[0][1],
                url: seq![],
            },
            None => StatusView::empty(),
        }),
{
    match event {
        Some(event) => {
            Status {
                title: event.content,
                purpose: event.tags[0][1].clone(),
                url: String::new(),
            }
        },
        None => Status::new(),
    }
}

/// A profile as it is after it was fetched.
pub open spec fn refreshed(
    profile: ProfileView,
    mine: bool,
    status: StatusView,
    meta: MetadataView,
    now: u64,
) -> ProfileView {
    ProfileView { mine, status, last_updated: now, ..profile.with_metadata(meta) }
}

/// A field with a new value, unless that is empty.
pub open spec fn changed_field(value: Seq<char>, new: Seq<char>) -> Seq<char> {
    if new.len() == 0 {
        value
    } else {
        new
    }
}

/// Changes a field, unless the new value is empty.
pub fn change_field(value: &String, new: String) -> (res: String)
    ensures
        res@ == changed_field(value@, new@),
{
    if new.as_str().is_empty() {
        value.clone()
    } else {
        new
    }
}

/// The metadata that change name and avatar of a profile. What is left empty stays as it was.
pub open spec fn updated_metadata(
    profile: ProfileView,
    name: Seq<char>,
    avatar: Seq<char>,
) -> Option<MetadataView> {
    let name = changed_field(profile.name, name);
    let avatar = changed_field(profile.avatar, avatar);
    if avatar.len() == 0 {
        Some(MetadataView { name: Some(name), picture: None })
    } else {
        match normal_url(avatar) {
            Some(url) => Some(MetadataView { name: Some(name), picture: Some(url) }),
            None => None,
        }
    }
}

/// A change of the account's profile that is to be published.
#[derive(Debug)]
pub struct ProfileUpdate {
    /// The profile as it is before.
    pub profile: Profile,
    pub meta: Metadata,
}

/// An event that is to be published.
#[derive(Debug)]
pub struct Draft {
    pub kind: u16,
    pub content: String,
    pub tags: Vec<Vec<String>>,
}

/// Composes the event that publishes a status of the account.
pub fn status_draft(status: String) -> (draft: Draft)
    ensures
        draft.kind == USER_STATUS,
        draft.content@ == status@,
        draft.tags.deep_view() == seq![seq!["d"@, "general"@]],
{
    let mut tag: Vec<String> = Vec::new();
    tag.push("d".to_owned());
    tag.push("general".to_owned());
    assert(tag.deep_view() =~= seq!["d"@, "general"@]);
    let mut tags: Vec<Vec<String>> = Vec::new();
    tags.push(tag);
    assert(tags.deep_view() =~= seq![seq!["d"@, "general"@]]);
    Draft { kind: USER_STATUS, content: status, tags }
}

/// A profile with a general status.
pub open spec fn with_general_status(profile: ProfileView, title: Seq<char>) -> ProfileView {
    ProfileView {
        status: StatusView { title, purpose: "general"@, url: profile.status.url },
        ..profile
    }
}

/// A profile that was fetched is served for half a minute, as it was stored.
pub proof fn fetched_profile_is_served(
    state: ChatView,
    npub: Seq<char>,
    mine: bool,
    status: StatusView,
    meta: MetadataView,
    at: u64,
    now: u64,
)
    requires
        state.has_profile(npub),
    ensures
        ({
            let profile = refreshed(state.profile(npub), mine, status, meta, at);
            let after = state.set_profile(npub, profile).changed();
            &&& with_profile(after, npub) == after
            &&& after.profile(npub) == profile
            &&& is_fresh(profile, now) == (now < at + FRESH_SECONDS)
        }),
{
    lemma_found_profile(state, npub);
    let profile = refreshed(state.profile(npub), mine, status, meta, at);
    other_profiles_stay(state, npub, profile, npub);
}

/// Fetching a profile leaves the chat alone, and keeps what the metadata do not give.
pub proof fn fetching_keeps_chat(
    profile: ProfileView,
    mine: bool,
    status: StatusView,
    meta: MetadataView,
    now: u64,
)
    ensures
        ({
            let after = refreshed(profile, mine, status, meta, now);
            &&& after.id == profile.id
            &&& after.messages == profile.messages
            &&& after.typing_until == profile.typing_until
            &&& meta.name is None ==> after.name == profile.name
            &&& meta.picture is None ==> after.avatar == profile.avatar
        }),
{
}

/// Looking a profile up a second time changes nothing, and looking one up changes no other.
pub proof fn looking_up_changes_no_profile(state: ChatView, npub: Seq<char>, other: Seq<char>)
    ensures
        with_profile(state, npub).has_profile(npub),
        with_profile(with_profile(state, npub), npub) == with_profile(state, npub),
        with_profile(state, npub).has_state_changed == state.has_state_changed,
        state.has_profile(other) ==> with_profile(state, npub).has_profile(other) && with_profile(
            state,
            npub,
        ).profile(other) == state.profile(other),
{
    if !state.has_profile(npub) {
        let profile = ProfileView { id: npub, ..ProfileView::empty() };
        lemma_pushed_profile(state, profile);
        if state.has_profile(other) {
            known_profiles_stay(state, profile, other);
        }
    }
}

/// A change that leaves the name empty keeps the name, and one that leaves the avatar empty, where
/// there is none, keeps it so.
pub proof fn blank_fields_stay(profile: ProfileView, name: Seq<char>, avatar: Seq<char>)
    requires
        updated_metadata(profile, name, avatar) is Some,
    ensures
        ({
            let after = profile.with_metadata(updated_metadata(profile, name, avatar)->0);
            &&& name.len() == 0 ==> after.name == profile.name
            &&& name.len() > 0 ==> after.name == name
            &&& avatar.len() == 0 && profile.avatar.len() == 0 ==> after.avatar == profile.avatar
        }),
{
}

impl ChatState {
    /// Adds the profile of the account itself.
    pub fn add_self(&mut self, npub: String)
        ensures
            final(self)@ == old(self)@.push_profile(
                ProfileView { id: npub@, mine: true, ..ProfileView::empty() },
            ),
    {
        let mut profile = Profile::new();
        profile.id = npub;
        profile.mine = true;
        self.profiles.push(profile);
        assert(self@.profiles =~= old(self)@.profiles.push(profile@));
    }

    /// Looks up the profile of a key in its `npub` form. A key without a profile gets one.
    pub fn look_up(&mut self, npub: String, key: [u8; 32], now: u64) -> (lookup: Lookup)
        ensures
            final(self)@ == with_profile(old(self)@, npub@),
            final(self)@.has_profile(npub@),
            final(self)@.profile(npub@).id == npub@,
            match lookup {
                Lookup::Fresh(known) => is_fresh(final(self)@.profile(npub@), now) && known@
                    == final(self)@.profile(npub@),
                Lookup::Stale(stale) => !is_fresh(final(self)@.profile(npub@), now)
                    && stale.profile@ == final(self)@.profile(npub@) && stale.key == key,
            },
    {
        if self.get_profile(npub.clone()).is_err() {
            let mut profile = Profile::new();
            profile.id = npub.clone();
            self.profiles.push(profile);
            proof {
                assert(self@.profiles =~= old(self)@.profiles.push(profile@));
                lemma_pushed_profile(old(self)@, profile@);
            }
        }
        let profile: Profile = self.get_profile(npub).unwrap().clone();
        proof {
            lemma_first_position(profile_ids(self@.profiles), npub@);
        }
        if profile.last_updated > now || now - profile.last_updated < FRESH_SECONDS {
            Lookup::Fresh(profile)
        } else {
            Lookup::Stale(StaleProfile { key, profile })
        }
    }

    /// Looks up the profile of the key that `npub` is the `npub` form of. A key without a profile
    /// gets one.
    pub fn load_profile(&mut self, npub: String, now: u64) -> (lookup: Option<Lookup>)
        ensures
            match lookup {
                Some(lookup) => {
                    let profile = with_profile(old(self)@, npub@).profile(npub@);
                    &&& npub_key(npub@) is Some
                    &&& final(self)@ == with_profile(old(self)@, npub@)
                    &&& final(self)@.has_profile(npub@)
                    &&& profile.id == npub@
                    &&& match lookup {
                        Lookup::Fresh(known) => is_fresh(profile, now) && known@ == profile,
                        Lookup::Stale(stale) => !is_fresh(profile, now) && stale.profile@ == profile
                            && npub_key(npub@) == Some(stale.key@),
                    }
                },
                None => npub_key(npub@) is None && final(self)@ == old(self)@,
            },
    {
        match decode_npub(npub.as_str()) {
            Some(key) => Some(self.look_up(npub, key, now)),
            None => None,
        }
    }

    /// Takes over the status and the metadata that were fetched for a profile, and gives the
    /// profile as it is then. Where no metadata came, the profile stays as it was.
    pub fn finish_load(
        &mut self,
        stale: StaleProfile,
        me: &[u8; 32],
        status: Status,
        meta: Option<Metadata>,
        now: u64,
    ) -> (profile: Profile)
        requires
            meta is Some ==> old(self)@.has_profile(stale.profile@.id),
        ensures
            match meta {
                Some(meta) => {
                    let npub = stale.profile@.id;
                    &&& profile@ == refreshed(
                        old(self)@.profile(npub),
                        me@ == stale.key@,
                        status@,
                        meta@,
                        now,
                    )
                    &&& final(self)@ == old(self)@.set_profile(npub, profile@).changed()
                },
                None => profile@ == stale.profile@ && final(self)@ == old(self)@,
            },
    {
        match meta {
            Some(meta) => {
                let profile = self.get_profile_mut(stale.profile.id).unwrap();
                profile.mine = same_key(me, &stale.key);
                profile.status = status;
                profile.from_metadata(meta);
                profile.last_updated = now;
                let copy = profile.clone();
                self.has_state_changed = true;
                copy
            },
            None => stale.profile,
        }
    }

    /// Prepares a change of name and avatar of the account. Gives nothing where the account has
    /// no profile or the avatar is no URL.
    pub fn update_profile(&self, me: &[u8; 32], name: String, avatar: String) -> (update: Option<
        ProfileUpdate,
    >)
        ensures
            match update {
                Some(update) => {
                    &&& self@.has_profile(npub(me@))
                    &&& update.profile@ == self@.profile(npub(me@))
                    &&& update.profile@.id == npub(me@)
                    &&& updated_metadata(update.profile@, name@, avatar@) == Some(update.meta@)
                },
                None => !self@.has_profile(npub(me@)) || updated_metadata(
                    self@.profile(npub(me@)),
                    name@,
                    avatar@,
                ) is None,
            },
    {
        proof {
            lemma_first_position(profile_ids(self@.profiles), npub(me@));
        }
        let profile: Profile = match self.get_profile(encode_npub(me)) {
            Ok(profile) => profile.clone(),
            Err(_) => {
                return None;
            },
        };
        let name: String = change_field(&profile.name, name);
        let avatar: String = change_field(&profile.avatar, avatar);
        if avatar.as_str().is_empty() {
            Some(
                ProfileUpdate { profile, meta: Metadata { name: Some(name), picture: None } },
            )
        } else {
            match parse_url(avatar.as_str()) {
                Some(url) => Some(
                    ProfileUpdate {
                        profile,
                        meta: Metadata { name: Some(name), picture: Some(url) },
                    },
                ),
                None => None,
            }
        }
    }

    /// Takes over a change of the account's profile, if it was published, and gives the profile
    /// as it was before.
    pub fn finish_update(&mut self, update: ProfileUpdate, published: bool) -> (profile: Result<
        Profile,
        (),
    >)
        requires
            published ==> old(self)@.has_profile(update.profile@.id),
        ensures
            match profile {
                Ok(profile) => {
                    let npub = update.profile@.id;
                    &&& published
                    &&& profile@ == update.profile@
                    &&& final(self)@ == old(self)@.set_profile(
                        npub,
                        old(self)@.profile(npub).with_metadata(update.meta@),
                    ).changed()
                },
                Err(_) => !published && final(self)@ == old(self)@,
            },
    {
        if published {
            let profile = self.get_profile_mut(update.profile.id.clone()).unwrap();
            profile.from_metadata(update.meta);
            self.has_state_changed = true;
            Ok(update.profile)
        } else {
            Err(())
        }
    }

    /// Takes over a status of the account, if it was published, and gives the profile as it is
    /// then.
    pub fn update_status(&mut self, npub: String, status: String, published: bool) -> (profile:
        Result<Profile, ()>)
        requires
            published ==> old(self)@.has_profile(npub@),
        ensures
            match profile {
                Ok(profile) => {
                    &&& published
                    &&& profile@ == with_general_status(old(self)@.profile(npub@), status@)
                    &&& final(self)@ == old(self)@.set_profile(npub@, profile@)
                },
                Err(_) => !published && final(self)@ == old(self)@,
            },
    {
        if published {
            let profile = self.get_profile_mut(npub).unwrap();
            profile.status.purpose = "general".to_owned();
            profile.status.title = status;
            Ok(profile.clone())
        } else {
            Err(())
        }
    }

    /// Tells whether anything was changed since the last acknowledgement.
    pub fn has_state_changed(&self) -> (res: bool)
        ensures
            res == self@.has_state_changed,
    {
        self.has_state_changed
    }

    /// Notes that the state was shown.
    pub fn acknowledge_state_change(&mut self)
        ensures
            final(self)@ == (ChatView { has_state_changed: false, ..old(self)@ }),
    {
        self.has_state_changed = false;
    }

    /// Gives all profiles, as they are now.
    pub fn fetch_profiles(&self) -> (profiles: Vec<Profile>)
        ensures
            views(profiles@) == self@.profiles,
    {
        let profiles = self.profiles.clone();
        assert(views(profiles@) =~= self@.profiles);
        profiles
    }
}

} // verus!
