//! The core of a private messenger: chats and the profiles they are held with, what is sent and
//! received, and secrets kept under a password.

pub mod account;
pub mod account_calls;
pub mod chat;
pub mod chat_calls;
pub mod exchange;
pub mod exchange_calls;
pub mod hex;
pub mod histories;
pub mod incoming;
pub mod invariants;
pub mod nostr;
pub mod outgoing;
pub mod relays;
pub mod secrets;
pub mod text;
pub mod text_calls;
pub mod timeline;
