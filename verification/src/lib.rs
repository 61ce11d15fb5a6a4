use vstd::prelude::*;

pub mod codec;
pub mod directory;
pub mod handler;
pub mod registry;
pub mod router;

verus! {

/// A registered account: a unique, case-sensitive username and its
/// plaintext credential. Accounts are created by registration and never
/// mutated or deleted afterwards.
pub struct User {
    pub username: String,
    pub password: String,
}

impl User {
    pub fn new(username: String, password: String) -> (r: User)
        ensures
            r.username@ == username@,
            r.password@ == password@,
    {
        User { username, password }
    }
}

/// One addressed text message. On the wire the `from` field is untrusted:
/// before delivery the router overwrites it with the authenticated sender.
pub struct ChatMessage {
    pub from: String,
    pub to: String,
    pub content: String,
}

impl ChatMessage {
    pub fn new(from: String, to: String, content: String) -> (r: ChatMessage)
        ensures
            r.from@ == from@,
            r.to@ == to@,
            r.content@ == content@,
    {
        ChatMessage { from, to, content }
    }
}

} // verus!
