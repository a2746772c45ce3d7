//! What every call on the account, on profiles and on relays does, told by what goes in and what
//! comes out.

use vstd::prelude::*;
use crate::account::{
    change_field, is_status, login, npub_of, published_status, status_draft, Account, Draft,
    Lookup, ProfileUpdate, Published, StaleProfile,
};
#[allow(unused_imports)]
use crate::account::with_profile;
use crate::chat::{ChatState, Metadata, Profile, Status};
#[allow(unused_imports)]
use crate::chat::{lemma_pushed_profile, ChatView, ProfileView, StatusView};
#[allow(unused_imports)]
use crate::chat_calls::{is_first_profile, is_stranger, lemma_find_profile, same_but_for};
#[allow(unused_imports)]
use crate::nostr::{mnemonic_keys, normal_url, npub, npub_key, nsec, written_keys};
use crate::relays::{
    inbox_query, inbox_subscription, is_gift_wrap, relays, status_query, EventQuery,
    INBOX_SECONDS, PROFILE_SECONDS,
};
#[allow(unused_imports)]
use crate::timeline::views;

verus! {

/// A text that begins with `nsec` is read as a secret key, and any other as a seed phrase without
/// a passphrase; the keys are handed on as they were read, and in the forms that people see.
pub proof fn login_reads_keys(import_key: String, account: Option<Account>)
    requires
        call_ensures(login, (import_key,), account),
    ensures
        ({
            let read = if "nsec"@.is_prefix_of(import_key@) {
                written_keys(import_key@)
            } else {
                mnemonic_keys(import_key@, seq![])
            };
            &&& account is Some == read is Some
            &&& account matches Some(account) ==> {
                &&& read == Some((account.keys.secret@, account.keys.public@))
                &&& account.pair.public@ == npub(account.keys.public@)
                &&& nsec(account.keys.secret@) == Some(account.pair.private@)
                &&& npub_key(account.pair.public@) == Some(account.keys.public@)
            }
        }),
{
}

/// The secret key that a login gives is good for another login, which gives the same keys.
pub proof fn login_again_is_the_same(
    import_key: String,
    account: Account,
    again: Option<Account>,
)
    requires
        call_ensures(login, (import_key,), Some(account)),
        call_ensures(login, (account.pair.private,), again),
    ensures
        again matches Some(again) && again.keys.secret@ == account.keys.secret@
            && again.keys.public@ == account.keys.public@ && again.pair.public@
            == account.pair.public@ && again.pair.private@ == account.pair.private@,
{
}

/// A key in its `npub` form can be read back.
pub proof fn npub_of_writes(key: &[u8; 32], text: String)
    requires
        call_ensures(npub_of, (key,), text),
    ensures
        text@ == npub(key@),
        npub_key(text@) == Some(key@),
{
}

/// The account's own profile is added behind the others, is the account's, and shows nothing
/// else. Whether something is yet to be shown does not change.
pub proof fn add_self_adds(state: &mut ChatState, id: String)
    requires
        call_ensures(ChatState::add_self, (state, id), ()),
    ensures
        final(state)@.profiles == old(state)@.profiles.push(
            ProfileView {
                id: id@,
                name: seq![],
                avatar: seq![],
                messages: seq![],
                status: StatusView { title: seq![], purpose: seq![], url: seq![] },
                last_updated: 0,
                typing_until: 0,
                mine: true,
            },
        ),
        final(state)@.has_state_changed == old(state)@.has_state_changed,
{
}

/// The profiles once someone was looked up: a stranger has got one, behind the others, that shows
/// nothing, and nothing else changes.
pub open spec fn profiles_know(
    before: Seq<ProfileView>,
    after: Seq<ProfileView>,
    id: Seq<char>,
) -> bool {
    &&& is_stranger(before, id) ==> after == before.push(
        ProfileView {
            id,
            name: seq![],
            avatar: seq![],
            messages: seq![],
            status: StatusView { title: seq![], purpose: seq![], url: seq![] },
            last_updated: 0,
            typing_until: 0,
            mine: false,
        },
    )
    &&& !is_stranger(before, id) ==> after == before
}

/// A profile is given as it is stored, and is fresh for less than 30 seconds after it was
/// fetched.
pub open spec fn gives_profile(
    profiles: Seq<ProfileView>,
    id: Seq<char>,
    key: Seq<u8>,
    now: u64,
    lookup: Lookup,
) -> bool {
    exists|i: int|
        {
            &&& #[trigger] is_first_profile(profiles, i, id)
            &&& match lookup {
                Lookup::Fresh(profile) => profile@ == profiles[i] && now
                    < profiles[i].last_updated + 30,
                Lookup::Stale(stale) => stale.profile@ == profiles[i] && stale.key@ == key && now
                    >= profiles[i].last_updated + 30,
            }
        }
}

/// What looking someone up makes of the profiles.
proof fn lemma_profiles_know(state: ChatView, id: Seq<char>)
    ensures
        profiles_know(state.profiles, with_profile(state, id).profiles, id),
        with_profile(state, id).has_state_changed == state.has_state_changed,
        with_profile(state, id).has_profile(id),
        with_profile(state, id).find_profile(id) matches Some(i) && is_first_profile(
            with_profile(state, id).profiles,
            i,
            id,
        ),
{
    lemma_find_profile(state, id);
    if !state.has_profile(id) {
        lemma_pushed_profile(state, ProfileView { id, ..ProfileView::empty() });
    }
    lemma_find_profile(with_profile(state, id), id);
}

/// Looking someone up gives their profile, and makes one for a stranger.
pub proof fn look_up_gives(
    state: &mut ChatState,
    id: String,
    key: [u8; 32],
    now: u64,
    lookup: Lookup,
)
    requires
        call_ensures(ChatState::look_up, (state, id, key, now), lookup),
    ensures
        profiles_know(old(state)@.profiles, final(state)@.profiles, id@),
        final(state)@.has_state_changed == old(state)@.has_state_changed,
        gives_profile(final(state)@.profiles, id@, key@, now, lookup),
{
    lemma_profiles_know(old(state)@, id@);
    let i = final(state)@.find_profile(id@)->0;
    assert(is_first_profile(final(state)@.profiles, i, id@));
}

/// Loading gives the profile of a key in its `npub` form, and does nothing for any other text.
pub proof fn load_profile_gives(
    state: &mut ChatState,
    id: String,
    now: u64,
    lookup: Option<Lookup>,
)
    requires
        call_ensures(ChatState::load_profile, (state, id, now), lookup),
    ensures
        lookup is Some == npub_key(id@) is Some,
        lookup is None ==> final(state)@ == old(state)@,
        lookup matches Some(lookup) ==> {
            &&& profiles_know(old(state)@.profiles, final(state)@.profiles, id@)
            &&& final(state)@.has_state_changed == old(state)@.has_state_changed
            &&& gives_profile(final(state)@.profiles, id@, npub_key(id@)->0, now, lookup)
        },
{
    if lookup is Some {
        lemma_profiles_know(old(state)@, id@);
        let i = final(state)@.find_profile(id@)->0;
        assert(is_first_profile(final(state)@.profiles, i, id@));
    }
}

/// An event is a status if its first tag has a value, whatever its name.
pub proof fn is_status_tells(event: &Published, res: bool)
    requires
        call_ensures(is_status, (event,), res),
    ensures
        res == (event.tags@.len() > 0 && event.tags@[0]@.len() > 1),
{
    if event.tags@.len() > 0 {
        assert(event.tags.deep_view()[0] == event.tags@[0].deep_view());
    }
}

/// A status has the content of its event as its title, the value of the first tag as its purpose,
/// and no URL; without an event there is no status.
pub proof fn published_status_reads(event: Option<Published>, status: Status)
    requires
        call_ensures(published_status, (event,), status),
    ensures
        event matches Some(event) ==> status.title@ == event.content@,
        event matches Some(event) ==> (event.tags@.len() > 0 && event.tags@[0]@.len() > 1
            ==> status.purpose@ == event.tags@[0]@[1]@),
        event is None ==> status.title@.len() == 0 && status.purpose@.len() == 0,
        status.url@.len() == 0,
{
    if let Some(event) = event {
        if event.tags@.len() > 0 && event.tags@[0]@.len() > 1 {
            assert(event.tags.deep_view()[0] == event.tags@[0].deep_view());
            assert(event.tags@[0].deep_view()[1] == event.tags@[0]@[1]@);
        }
    }
}

/// After a load with metadata a profile has the status that was fetched, whatever status it had,
/// name and avatar as far as the metadata give them, the time of the load, and the account's mark
/// if the key is the account's; its chat and all else stay. Without metadata nothing changes.
pub proof fn finish_load_takes_over(
    state: &mut ChatState,
    stale: StaleProfile,
    me: &[u8; 32],
    status: Status,
    meta: Option<Metadata>,
    now: u64,
    profile: Profile,
    i: int,
)
    requires
        call_ensures(ChatState::finish_load, (state, stale, me, status, meta, now), profile),
        is_first_profile(old(state)@.profiles, i, stale.profile.id@),
    ensures
        meta is None ==> profile@ == stale.profile@ && final(state)@ == old(state)@,
        meta matches Some(meta) ==> {
            let before = old(state)@.profiles[i];
            &&& final(state)@.has_state_changed
            &&& same_but_for(old(state)@.profiles, final(state)@.profiles, i)
            &&& final(state)@.profiles[i] == profile@
            &&& profile.status.title@ == status.title@
            &&& profile.status.purpose@ == status.purpose@
            &&& profile.status.url@ == status.url@
            &&& profile.last_updated == now
            &&& profile.mine == (me@ == stale.key@)
            &&& meta.name matches Some(name) ==> profile.name@ == name@
            &&& meta.name is None ==> profile.name@ == before.name
            &&& meta.picture matches Some(picture) ==> profile.avatar@ == picture@
            &&& meta.picture is None ==> profile.avatar@ == before.avatar
            &&& profile.id@ == before.id
            &&& profile@.messages == before.messages
            &&& profile.typing_until == before.typing_until
        },
{
    lemma_find_profile(old(state)@, stale.profile.id@);
}

/// A field gets the new value, unless that is empty.
pub proof fn change_field_changes(value: &String, new: String, res: String)
    requires
        call_ensures(change_field, (value, new), res),
    ensures
        new@.len() > 0 ==> res@ == new@,
        new@.len() == 0 ==> res@ == value@,
{
}

/// The metadata of an update have the name that is asked for, or else the name as it was, and as
/// the picture the normal form of the avatar that is asked for, whatever avatar there was, or
/// else of the avatar as it was; where there is none at all, they have no picture. There is no
/// update without a profile of the account, nor with an avatar that is no URL.
pub proof fn update_profile_drafts(
    state: &ChatState,
    me: &[u8; 32],
    name: String,
    avatar: String,
    update: Option<ProfileUpdate>,
)
    requires
        call_ensures(ChatState::update_profile, (state, me, name, avatar), update),
    ensures
        is_stranger(state@.profiles, npub(me@)) ==> update is None,
        forall|i: int| #[trigger]
            is_first_profile(state@.profiles, i, npub(me@)) ==> {
                let before = state@.profiles[i];
                &&& update matches Some(update) ==> {
                    &&& update.profile@ == before
                    &&& name@.len() > 0 ==> update.meta@.name == Some(name@)
                    &&& name@.len() == 0 ==> update.meta@.name == Some(before.name)
                }
                &&& avatar@.len() > 0 && normal_url(avatar@) is None ==> update is None
                &&& avatar@.len() > 0 && normal_url(avatar@) is Some ==> update is Some
                    && update->0.meta@.picture == normal_url(avatar@)
                &&& avatar@.len() == 0 && before.avatar.len() > 0 && normal_url(before.avatar)
                    is None ==> update is None
                &&& avatar@.len() == 0 && before.avatar.len() > 0 && normal_url(before.avatar)
                    is Some ==> update is Some && update->0.meta@.picture == normal_url(
                    before.avatar,
                )
                &&& avatar@.len() == 0 && before.avatar.len() == 0 ==> update is Some
                    && update->0.meta@.picture is None
            },
{
    lemma_find_profile(state@, npub(me@));
}

/// An update that was published gives name and avatar to the profile as far as its metadata have
/// them, and changes nothing else; what comes back is the profile as it was. One that was not
/// published changes nothing.
pub proof fn finish_update_takes_over(
    state: &mut ChatState,
    update: ProfileUpdate,
    published: bool,
    res: Result<Profile, ()>,
    i: int,
)
    requires
        call_ensures(ChatState::finish_update, (state, update, published), res),
        is_first_profile(old(state)@.profiles, i, update.profile.id@),
    ensures
        res is Ok == published,
        !published ==> final(state)@ == old(state)@,
        res matches Ok(profile) ==> {
            let before = old(state)@.profiles[i];
            let after = final(state)@.profiles[i];
            &&& profile@ == update.profile@
            &&& final(state)@.has_state_changed
            &&& same_but_for(old(state)@.profiles, final(state)@.profiles, i)
            &&& update.meta.name matches Some(name) ==> after.name == name@
            &&& update.meta.name is None ==> after.name == before.name
            &&& update.meta.picture matches Some(picture) ==> after.avatar == picture@
            &&& update.meta.picture is None ==> after.avatar == before.avatar
            &&& after == (ProfileView { name: after.name, avatar: after.avatar, ..before })
        },
{
    lemma_find_profile(old(state)@, update.profile.id@);
}

/// A status is published as a general one, with its text as it is.
pub proof fn status_draft_says(status: String, draft: Draft)
    requires
        call_ensures(status_draft, (status,), draft),
    ensures
        draft.kind == 30315,
        draft.content@ == status@,
        draft.tags.deep_view() == seq![seq!["d"@, "general"@]],
{
}

/// A status that was published is the title of the account's general status, and changes nothing
/// else, not even whether something is yet to be shown; what comes back is the profile as it is
/// then. One that was not published changes nothing.
pub proof fn update_status_takes_over(
    state: &mut ChatState,
    id: String,
    status: String,
    published: bool,
    res: Result<Profile, ()>,
    i: int,
)
    requires
        call_ensures(ChatState::update_status, (state, id, status, published), res),
        is_first_profile(old(state)@.profiles, i, id@),
    ensures
        res is Ok == published,
        !published ==> final(state)@ == old(state)@,
        res matches Ok(profile) ==> {
            let before = old(state)@.profiles[i];
            &&& final(state)@.has_state_changed == old(state)@.has_state_changed
            &&& same_but_for(old(state)@.profiles, final(state)@.profiles, i)
            &&& final(state)@.profiles[i] == profile@
            &&& profile.status.title@ == status@
            &&& profile.status.purpose@ == "general"@
            &&& profile.status.url@ == before.status.url
            &&& profile@ == (ProfileView { status: profile@.status, ..before })
        },
{
    lemma_find_profile(old(state)@, id@);
}

/// Whether something is yet to be shown is told, and forgotten once it was acknowledged; the
/// profiles stay.
pub proof fn changes_are_told(
    state: &ChatState,
    changed: bool,
    shown: &mut ChatState,
    profiles: Vec<Profile>,
)
    requires
        call_ensures(ChatState::has_state_changed, (state,), changed),
        call_ensures(ChatState::acknowledge_state_change, (shown,), ()),
        call_ensures(ChatState::fetch_profiles, (state,), profiles),
    ensures
        changed == state.has_state_changed,
        !final(shown).has_state_changed,
        final(shown)@.profiles == old(shown)@.profiles,
        profiles@.len() == state.profiles@.len(),
        forall|i: int|
            0 <= i < profiles@.len() ==> (#[trigger] profiles@[i])@ == state.profiles@[i]@,
{
    assert(views(profiles@).len() == profiles@.len());
    assert(state@.profiles.len() == state.profiles@.len());
    assert forall|i: int| 0 <= i < profiles@.len() implies (#[trigger] profiles@[i])@
        == state.profiles@[i]@ by {
        assert(views(profiles@)[i] == state@.profiles[i]);
    }
}

/// Relays are asked for gift wraps to the account, for those to come, and for one status. They
/// have half a minute for the first, and ten seconds for the last and for metadata.
pub proof fn queries_ask(
    key: &[u8; 32],
    inbox: EventQuery,
    live: EventQuery,
    status: EventQuery,
    kind: u16,
    wraps: bool,
)
    requires
        call_ensures(inbox_query, (key,), inbox),
        call_ensures(inbox_subscription, (key,), live),
        call_ensures(status_query, (key,), status),
        call_ensures(is_gift_wrap, (kind,), wraps),
    ensures
        inbox.author is None && inbox.receiver is Some && inbox.receiver->0@ == key@,
        inbox.kind == 1059 && inbox.limit is None,
        live.author is None && live.receiver is Some && live.receiver->0@ == key@,
        live.kind == 1059 && live.limit == Some(0usize),
        status.author is Some && status.author->0@ == key@ && status.receiver is None,
        status.kind == 30315 && status.limit == Some(1usize),
        wraps == (kind == 1059),
        INBOX_SECONDS == 30,
        PROFILE_SECONDS == 10,
{
}

/// The messenger connects to the trusted relay, and to three common ones.
pub proof fn relays_are_these(urls: Vec<String>)
    requires
        call_ensures(relays, (), urls),
    ensures
        urls.deep_view() == seq![
            "wss://jskitty.cat/nostr"@,
            "wss://relay.0xchat.com"@,
            "wss://auth.nostr1.com"@,
            "wss://relay.damus.io"@,
        ],
{
}

} // verus!
