use vstd::prelude::*;

use crate::ChatMessage;

verus! {

/// What parsing a login frame yields for a given frame text: the username
/// and password fields when the text is a JSON object carrying both as
/// strings, nothing otherwise. Parsing depends on the text alone.
pub uninterp spec fn login_frame_of(text: Seq<char>) -> Option<(Seq<char>, Seq<char>)>;

/// What parsing a chat frame yields for a given frame text: the from, to
/// and content fields when the text is a JSON object carrying all three as
/// strings, nothing otherwise. Parsing depends on the text alone.
pub uninterp spec fn chat_frame_of(text: Seq<char>) -> Option<(Seq<char>, Seq<char>, Seq<char>)>;

/// What encoding a chat message yields: the JSON text of an object with
/// the message's from, to and content fields. Encoding depends on the
/// three fields alone.
pub uninterp spec fn chat_text_of(from: Seq<char>, to: Seq<char>, content: Seq<char>) -> Seq<char>;

/// The username and password a login frame carries, with the permissive
/// fallback this design adopts: a frame that does not parse stands for the
/// empty username and password.
pub open spec fn spec_login_fields(text: Seq<char>) -> (Seq<char>, Seq<char>) {
    match login_frame_of(text) {
        Some(f) => f,
        None => (Seq::<char>::empty(), Seq::<char>::empty()),
    }
}

/// The from, to and content a chat frame carries, with the permissive
/// fallback this design adopts: a frame that does not parse stands for a
/// message whose three fields are empty.
pub open spec fn spec_chat_fields(text: Seq<char>) -> (Seq<char>, Seq<char>, Seq<char>) {
    match chat_frame_of(text) {
        Some(f) => f,
        None => (Seq::<char>::empty(), Seq::<char>::empty(), Seq::<char>::empty()),
    }
}

/// Relies on serde_json::from_str and serde_json::Value::get / as_str:
/// reading the string fields of a JSON text is a function of the text
/// alone, and parsing never panics.
#[verifier::external_body]
fn parse_login_frame(text: &str) -> (r: Option<(String, String)>)
    ensures
        r matches Some(f) ==> login_frame_of(text@) == Some((f.0@, f.1@)),
        r is None ==> login_frame_of(text@) is None,
{
    let v: serde_json::Value = serde_json::from_str(text).ok()?;
    let u = v.get("username").and_then(serde_json::Value::as_str)?.to_string();
    let p = v.get("password").and_then(serde_json::Value::as_str)?.to_string();
    Some((u, p))
}

/// Relies on serde_json::from_str and serde_json::Value::get / as_str:
/// reading the string fields of a JSON text is a function of the text
/// alone, and parsing never panics.
#[verifier::external_body]
fn parse_chat_frame(text: &str) -> (r: Option<(String, String, String)>)
    ensures
        r matches Some(f) ==> chat_frame_of(text@) == Some((f.0@, f.1@, f.2@)),
        r is None ==> chat_frame_of(text@) is None,
{
    let v: serde_json::Value = serde_json::from_str(text).ok()?;
    let f = v.get("from").and_then(serde_json::Value::as_str)?.to_string();
    let t = v.get("to").and_then(serde_json::Value::as_str)?.to_string();
    let c = v.get("content").and_then(serde_json::Value::as_str)?.to_string();
    Some((f, t, c))
}

/// Relies on serde_json::Value's Display, which writes the compact JSON
/// text of the value and cannot fail: the text is a function of the three
/// fields alone.
#[verifier::external_body]
fn encode_chat_frame(from: &String, to: &String, content: &String) -> (r: String)
    ensures
        r@ == chat_text_of(from@, to@, content@),
{
    let mut m = serde_json::Map::new();
    m.insert("from".to_string(), serde_json::Value::String(from.clone()));
    m.insert("to".to_string(), serde_json::Value::String(to.clone()));
    m.insert("content".to_string(), serde_json::Value::String(content.clone()));
    serde_json::Value::Object(m).to_string()
}

/// Decodes a login frame, falling back to the empty username and password
/// when the frame does not parse, so that bad input never panics the
/// connection task; the empty identity then fails the credential check
/// downstream.
pub fn decode_login_frame(text: &str) -> (r: (String, String))
    ensures
        (r.0@, r.1@) == spec_login_fields(text@),
{
    match parse_login_frame(text) {
        Some(f) => f,
        None => (String::new(), String::new()),
    }
}

/// Decodes a chat frame, falling back to a message whose fields are all
/// empty when the frame does not parse, so that bad input never
/// terminates the connection.
pub fn decode_chat_frame(text: &str) -> (r: ChatMessage)
    ensures
        (r.from@, r.to@, r.content@) == spec_chat_fields(text@),
{
    match parse_chat_frame(text) {
        Some(f) => ChatMessage { from: f.0, to: f.1, content: f.2 },
        None => ChatMessage { from: String::new(), to: String::new(), content: String::new() },
    }
}

/// Encodes a message as the JSON chat frame the wire carries.
pub fn frame_of_message(m: &ChatMessage) -> (r: String)
    ensures
        r@ == chat_text_of(m.from@, m.to@, m.content@),
{
    encode_chat_frame(&m.from, &m.to, &m.content)
}

} // verus!
