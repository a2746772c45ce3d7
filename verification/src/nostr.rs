//! Keys, events and their parts, as far as the messenger reads and writes them.

use nostr_sdk::prelude::{
    EventBuilder, EventId, FromBech32, FromMnemonic, Keys, Kind, PublicKey, SecretKey, Tag,
    TagKind, Tags, Timestamp, ToBech32, Url,
};
use vstd::prelude::*;
#[allow(unused_imports)]
use crate::chat::text_option;
#[allow(unused_imports)]
use crate::hex::hex_text;
#[allow(unused_imports)]
use crate::text::decimal_text;
use crate::text::same_text;

verus! {

/// The kind of a private direct message.
pub const PRIVATE_DIRECT_MESSAGE: u16 = 14;

/// The kind of a reaction.
pub const REACTION: u16 = 7;

/// The kind of data that only one application reads.
pub const APPLICATION_SPECIFIC_DATA: u16 = 30078;

/// The kind of an event that hides another.
pub const GIFT_WRAP: u16 = 1059;

/// The kind of a status.
pub const USER_STATUS: u16 = 30315;

/// The bytes of an optional key or event id.
pub open spec fn bytes_option(bytes: Option<[u8; 32]>) -> Option<Seq<u8>> {
    match bytes {
        Some(bytes) => Some(bytes@),
        None => None,
    }
}

/// An event that is not signed, and is sent inside of another.
#[derive(Debug)]
pub struct Rumor {
    pub id: Option<[u8; 32]>,
    /// The public key of the author.
    pub author: [u8; 32],
    /// When the event was made, in seconds since the epoch.
    pub created_at: u64,
    pub kind: u16,
    /// The tags, each a name and what belongs to it.
    pub tags: Vec<Vec<String>>,
    pub content: String,
}

/// What a [`Rumor`] holds.
pub struct RumorView {
    pub id: Option<Seq<u8>>,
    pub author: Seq<u8>,
    pub created_at: u64,
    pub kind: u16,
    pub tags: Seq<Seq<Seq<char>>>,
    pub content: Seq<char>,
}

impl View for Rumor {
    type V = RumorView;

    open spec fn view(&self) -> RumorView {
        RumorView {
            id: bytes_option(self.id),
            author: self.author@,
            created_at: self.created_at,
            kind: self.kind,
            tags: self.tags.deep_view(),
            content: self.content@,
        }
    }
}

/// The first tag with this name, if there is one.
pub open spec fn find_tag(tags: Seq<Seq<Seq<char>>>, name: Seq<char>) -> Option<Seq<Seq<char>>>
    decreases tags.len(),
{
    if tags.len() == 0 {
        None
    } else if tags[0].len() > 0 && tags[0][0] == name {
        Some(tags[0])
    } else {
        find_tag(tags.drop_first(), name)
    }
}

/// Finds the first tag with this name.
pub fn tag_named<'a>(tags: &'a Vec<Vec<String>>, name: &str) -> (tag: Option<&'a Vec<String>>)
    ensures
        match tag {
            Some(tag) => find_tag(tags.deep_view(), name@) == Some(tag.deep_view()),
            None => find_tag(tags.deep_view(), name@) is None,
        },
{
    let mut i: usize = 0;
    assert(tags.deep_view().skip(0) =~= tags.deep_view());
    while i < tags.len()
        invariant
            i <= tags@.len(),
            find_tag(tags.deep_view(), name@) == find_tag(tags.deep_view().skip(i as int), name@),
        decreases tags@.len() - i,
    {
        let ghost rest = tags.deep_view().skip(i as int);
        assert(rest[0] == tags@[i as int].deep_view());
        assert(rest.drop_first() =~= tags.deep_view().skip(i + 1));
        if tags[i].len() > 0 && same_text(tags[i][0].as_str(), name) {
            return Some(&tags[i]);
        }
        i = i + 1;
    }
    None
}

/// The `npub` form of a public key.
pub uninterp spec fn npub(key: Seq<u8>) -> Seq<char>;

/// The public key that a text is an `npub` form of, if it is one.
pub uninterp spec fn npub_key(text: Seq<char>) -> Option<Seq<u8>>;

/// The id of an event that holds these parts.
pub uninterp spec fn event_id(
    author: Seq<u8>,
    created_at: u64,
    kind: u16,
    tags: Seq<Seq<Seq<char>>>,
    content: Seq<char>,
) -> Seq<u8>;

/// The first public key that `p` tags name, if they name one.
pub uninterp spec fn tagged_key(tags: Seq<Seq<Seq<char>>>) -> Option<Seq<u8>>;

/// The secret and the public key that a text gives in hexadecimal or in its `nsec` form, if it
/// does.
pub uninterp spec fn written_keys(text: Seq<char>) -> Option<(Seq<u8>, Seq<u8>)>;

/// The secret and the public key that a seed phrase and a passphrase give, if they do.
pub uninterp spec fn mnemonic_keys(phrase: Seq<char>, passphrase: Seq<char>) -> Option<
    (Seq<u8>, Seq<u8>),
>;

/// The public key that belongs to a secret key.
pub uninterp spec fn public_key(secret: Seq<u8>) -> Seq<u8>;

/// The `nsec` form of a secret key, if the bytes are one.
pub uninterp spec fn nsec(secret: Seq<u8>) -> Option<Seq<char>>;

/// A URL in its normal form, if the text is one.
pub uninterp spec fn normal_url(text: Seq<char>) -> Option<Seq<char>>;

/// The `p` tag for a receiver. The author's own key gets none.
pub open spec fn receiver_tags(receiver: Seq<u8>, author: Seq<u8>) -> Seq<Seq<Seq<char>>> {
    if receiver == author {
        seq![]
    } else {
        seq![seq!["p"@, hex_text(receiver)]]
    }
}

/// Calls `PublicKey::to_bech32`, and claims that `PublicKey::from_bech32` reads the key back.
#[verifier::external_body]
pub(crate) fn encode_npub(key: &[u8; 32]) -> (text: String)
    ensures
        text@ == npub(key@),
        npub_key(text@) == Some(key@),
{
    PublicKey::from_byte_array(*key).to_bech32().unwrap()
}

/// Calls `PublicKey::from_bech32`, and claims nothing but that the text decides.
#[verifier::external_body]
pub(crate) fn decode_npub(text: &str) -> (key: Option<[u8; 32]>)
    ensures
        bytes_option(key) == npub_key(text@),
{
    PublicKey::from_bech32(text).ok().map(|key| key.to_bytes())
}

/// Calls `Tags::public_keys` for its first item, and claims nothing but that the tags decide.
#[verifier::external_body]
pub(crate) fn first_tagged_key(tags: &Vec<Vec<String>>) -> (key: Option<[u8; 32]>)
    ensures
        bytes_option(key) == tagged_key(tags.deep_view()),
{
    match Tags::parse(tags.clone()) {
        Ok(tags) => tags.public_keys().next().map(|key| key.to_bytes()),
        Err(_) => None,
    }
}

/// Calls `EventBuilder::private_msg_rumor` and `EventBuilder::build`: a direct message with a
/// `p` tag for the receiver, unless that is the author. `Tags::public_keys` reads the receiver
/// back from that tag, and nothing where there is none.
#[verifier::external_body]
pub(crate) fn private_msg_rumor(
    receiver: &[u8; 32],
    message: String,
    author: &[u8; 32],
    created_at: u64,
) -> (rumor: Rumor)
    ensures
        rumor@.author == author@,
        rumor@.created_at == created_at,
        rumor@.kind == PRIVATE_DIRECT_MESSAGE,
        rumor@.tags == receiver_tags(receiver@, author@),
        rumor@.content == message@,
        rumor@.id == Some(
            event_id(
                rumor@.author,
                rumor@.created_at,
                rumor@.kind,
                rumor@.tags,
                rumor@.content,
            ),
        ),
        tagged_key(rumor@.tags) == (if receiver@ == author@ {
            None
        } else {
            Some(receiver@)
        }),
{
    let e = EventBuilder::private_msg_rumor(PublicKey::from_byte_array(*receiver), message)
        .custom_created_at(Timestamp::from_secs(created_at))
        .build(PublicKey::from_byte_array(*author));
    Rumor {
        id: e.id.map(|id| id.to_bytes()),
        author: e.pubkey.to_bytes(),
        created_at: e.created_at.as_u64(),
        kind: e.kind.as_u16(),
        tags: e.tags.to_vec().into_iter().map(|tag| tag.to_vec()).collect(),
        content: e.content,
    }
}

/// Calls `EventBuilder::reaction_extended` and `EventBuilder::build`: a reaction with an `e` tag
/// for the event, a `p` tag for the receiver, unless that is the author, and a `k` tag for the
/// event's kind. `Tags::public_keys` reads the receiver back from the `p` tag, and nothing where
/// there is none.
#[verifier::external_body]
pub(crate) fn reaction_rumor(
    event: &[u8; 32],
    receiver: &[u8; 32],
    event_kind: u16,
    reaction: String,
    author: &[u8; 32],
    created_at: u64,
) -> (rumor: Rumor)
    ensures
        rumor@.author == author@,
        rumor@.created_at == created_at,
        rumor@.kind == REACTION,
        rumor@.tags == seq![seq!["e"@, hex_text(event@)]] + receiver_tags(receiver@, author@)
            + seq![seq!["k"@, decimal_text(event_kind as nat)]],
        rumor@.content == reaction@,
        rumor@.id == Some(
            event_id(
                rumor@.author,
                rumor@.created_at,
                rumor@.kind,
                rumor@.tags,
                rumor@.content,
            ),
        ),
        tagged_key(rumor@.tags) == (if receiver@ == author@ {
            None
        } else {
            Some(receiver@)
        }),
{
    let id = EventId::from_byte_array(*event);
    let to = PublicKey::from_byte_array(*receiver);
    let e = EventBuilder::reaction_extended(id, to, Some(Kind::from_u16(event_kind)), reaction)
        .custom_created_at(Timestamp::from_secs(created_at))
        .build(PublicKey::from_byte_array(*author));
    Rumor {
        id: e.id.map(|id| id.to_bytes()),
        author: e.pubkey.to_bytes(),
        created_at: e.created_at.as_u64(),
        kind: e.kind.as_u16(),
        tags: e.tags.to_vec().into_iter().map(|tag| tag.to_vec()).collect(),
        content: e.content,
    }
}

/// Calls `EventBuilder::new`, `EventBuilder::tag` and `EventBuilder::build`: an event with a `p`
/// tag for the receiver, unless that is the author, a `d` tag and an `expiration` tag.
#[verifier::external_body]
pub(crate) fn expiring_rumor(
    kind: u16,
    content: String,
    receiver: &[u8; 32],
    identifier: String,
    expiration: u64,
    author: &[u8; 32],
    created_at: u64,
) -> (rumor: Rumor)
    ensures
        rumor@.author == author@,
        rumor@.created_at == created_at,
        rumor@.kind == kind,
        rumor@.tags == receiver_tags(receiver@, author@) + seq![
            seq!["d"@, identifier@],
            seq!["expiration"@, decimal_text(expiration as nat)],
        ],
        rumor@.content == content@,
        rumor@.id == Some(
            event_id(
                rumor@.author,
                rumor@.created_at,
                rumor@.kind,
                rumor@.tags,
                rumor@.content,
            ),
        ),
{
    let e = EventBuilder::new(Kind::from_u16(kind), content)
        .tag(Tag::public_key(PublicKey::from_byte_array(*receiver)))
        .tag(Tag::custom(TagKind::d(), vec![identifier]))
        .tag(Tag::expiration(Timestamp::from_secs(expiration)))
        .custom_created_at(Timestamp::from_secs(created_at))
        .build(PublicKey::from_byte_array(*author));
    Rumor {
        id: e.id.map(|id| id.to_bytes()),
        author: e.pubkey.to_bytes(),
        created_at: e.created_at.as_u64(),
        kind: e.kind.as_u16(),
        tags: e.tags.to_vec().into_iter().map(|tag| tag.to_vec()).collect(),
        content: e.content,
    }
}

/// A secret key and the public key that belongs to it.
pub struct AccountKeys {
    pub secret: [u8; 32],
    pub public: [u8; 32],
}

/// The bytes of optional keys.
pub open spec fn keys_option(keys: Option<AccountKeys>) -> Option<(Seq<u8>, Seq<u8>)> {
    match keys {
        Some(keys) => Some((keys.secret@, keys.public@)),
        None => None,
    }
}

/// Calls `Keys::parse`. The text decides; the public key is the one that belongs to the secret
/// key, and a secret key has an `nsec` form.
#[verifier::external_body]
pub(crate) fn parse_keys(text: &str) -> (keys: Option<AccountKeys>)
    ensures
        keys_option(keys) == written_keys(text@),
        keys matches Some(keys) ==> keys.public@ == public_key(keys.secret@) && nsec(
            keys.secret@,
        ) is Some,
{
    let keys = Keys::parse(text).ok()?;
    Some(
        AccountKeys {
            secret: keys.secret_key().to_secret_bytes(),
            public: keys.public_key().to_bytes(),
        },
    )
}

/// Calls `Keys::from_mnemonic`. Phrase and passphrase decide; the public key is the one that
/// belongs to the secret key, and a secret key has an `nsec` form.
#[verifier::external_body]
pub(crate) fn derive_keys(phrase: &str, passphrase: &str) -> (keys: Option<AccountKeys>)
    ensures
        keys_option(keys) == mnemonic_keys(phrase@, passphrase@),
        keys matches Some(keys) ==> keys.public@ == public_key(keys.secret@) && nsec(
            keys.secret@,
        ) is Some,
{
    let keys = Keys::from_mnemonic(phrase, Some(passphrase)).ok()?;
    Some(
        AccountKeys {
            secret: keys.secret_key().to_secret_bytes(),
            public: keys.public_key().to_bytes(),
        },
    )
}

/// Calls `SecretKey::to_bech32`, for bytes that `SecretKey::from_slice` takes. The text begins
/// with `nsec`, and `Keys::parse` reads the secret key back.
#[verifier::external_body]
pub(crate) fn encode_nsec(secret: &[u8; 32]) -> (text: Option<String>)
    ensures
        text_option(text) == nsec(secret@),
        text matches Some(text) ==> "nsec"@.is_prefix_of(text@) && written_keys(text@) == Some(
            (secret@, public_key(secret@)),
        ),
{
    SecretKey::from_slice(secret).ok().map(|key| key.to_bech32().unwrap())
}

/// Calls `Url::parse`, and gives the URL as it is then written.
#[verifier::external_body]
pub(crate) fn parse_url(text: &str) -> (url: Option<String>)
    ensures
        text_option(url) == normal_url(text@),
{
    Url::parse(text).ok().map(|url| url.to_string())
}

} // verus!
