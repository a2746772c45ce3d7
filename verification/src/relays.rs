//! The relays, and what they are asked for.

use vstd::prelude::*;
use crate::nostr::{GIFT_WRAP, USER_STATUS};
#[allow(unused_imports)]
use crate::nostr::bytes_option;

verus! {

/// The relay for events that may show a little about themselves, such as when they expire.
pub const TRUSTED_RELAY: &'static str = "wss://jskitty.cat/nostr";

/// How long to wait for the messages of the account, in seconds.
pub const INBOX_SECONDS: u64 = 30;

/// How long to wait for a status or for metadata, in seconds.
pub const PROFILE_SECONDS: u64 = 10;

/// The relays that the messenger connects to, in order.
pub open spec fn relay_list() -> Seq<Seq<char>> {
    seq![
        TRUSTED_RELAY@,
        "wss://relay.0xchat.com"@,
        "wss://auth.nostr1.com"@,
        "wss://relay.damus.io"@,
    ]
}

/// The relays that the messenger connects to: the trusted one first, and some common ones that
/// carry private messages.
pub fn relays() -> (urls: Vec<String>)
    ensures
        urls.deep_view() == relay_list(),
{
    let mut urls: Vec<String> = Vec::new();
    urls.push(TRUSTED_RELAY.to_owned());
    urls.push("wss://relay.0xchat.com".to_owned());
    urls.push("wss://auth.nostr1.com".to_owned());
    urls.push("wss://relay.damus.io".to_owned());
    assert(urls.deep_view() =~= relay_list());
    urls
}

/// What a relay is asked for: events of one kind.
#[derive(Debug)]
pub struct EventQuery {
    /// The key that has to have written them, if it matters.
    pub author: Option<[u8; 32]>,
    /// The key that has to be tagged in them, if it matters.
    pub receiver: Option<[u8; 32]>,
    pub kind: u16,
    /// How many stored events to send, if not all.
    pub limit: Option<usize>,
}

/// What an [`EventQuery`] holds.
pub struct EventQueryView {
    pub author: Option<Seq<u8>>,
    pub receiver: Option<Seq<u8>>,
    pub kind: u16,
    pub limit: Option<usize>,
}

impl View for EventQuery {
    type V = EventQueryView;

    open spec fn view(&self) -> EventQueryView {
        EventQueryView {
            author: bytes_option(self.author),
            receiver: bytes_option(self.receiver),
            kind: self.kind,
            limit: self.limit,
        }
    }
}

/// Asks for all that was sent to a key.
pub fn inbox_query(me: &[u8; 32]) -> (query: EventQuery)
    ensures
        query@ == (EventQueryView {
            author: None,
            receiver: Some(me@),
            kind: GIFT_WRAP,
            limit: None,
        }),
{
    EventQuery { author: None, receiver: Some(*me), kind: GIFT_WRAP, limit: None }
}

/// Asks for what will be sent to a key from now on.
pub fn inbox_subscription(me: &[u8; 32]) -> (query: EventQuery)
    ensures
        query@ == (EventQueryView {
            author: None,
            receiver: Some(me@),
            kind: GIFT_WRAP,
            limit: Some(0),
        }),
{
    EventQuery { author: None, receiver: Some(*me), kind: GIFT_WRAP, limit: Some(0) }
}

/// Asks for the last status of a key.
pub fn status_query(key: &[u8; 32]) -> (query: EventQuery)
    ensures
        query@ == (EventQueryView {
            author: Some(key@),
            receiver: None,
            kind: USER_STATUS,
            limit: Some(1),
        }),
{
    EventQuery { author: Some(*key), receiver: None, kind: USER_STATUS, limit: Some(1) }
}

/// Whether an event of this kind hides another.
pub fn is_gift_wrap(kind: u16) -> (res: bool)
    ensures
        res == (kind == GIFT_WRAP),
{
    kind == GIFT_WRAP
}

} // verus!
