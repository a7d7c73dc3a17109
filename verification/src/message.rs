//! Messages: a byte payload with a priority, and the text it stands for.

use crate::error::Error;
use vstd::prelude::*;
use vstd::string::StrSliceExecFns;
use vstd::utf8::*;

verus! {

/// The priority given to every message that is made from text.
pub const TEXT_PRIORITY: u32 = 0;

/// A message as a queue carries it. Payload and priority are opaque to the
/// relay; the payload is read as UTF-8 text only where it is shown or tagged.
#[derive(Debug, PartialEq, Eq)]
pub struct Message {
    pub data: Vec<u8>,
    pub priority: u32,
}

impl Clone for Message {
    fn clone(&self) -> (copy: Message)
        ensures
            copy@ == self@,
    {
        Message { data: self.data.clone(), priority: self.priority }
    }
}

/// A message as contracts see it.
pub struct MessageView {
    pub data: Seq<u8>,
    pub priority: u32,
}

impl View for Message {
    type V = MessageView;

    open spec fn view(&self) -> MessageView {
        MessageView { data: self.data@, priority: self.priority }
    }
}

/// The message that carries `text`: its UTF-8 bytes, at priority 0.
pub open spec fn text_message(text: Seq<char>) -> MessageView {
    MessageView { data: encode_utf8(text), priority: TEXT_PRIORITY }
}

/// The text that a payload stands for, if it is valid UTF-8.
pub open spec fn payload_text(data: Seq<u8>) -> Option<Seq<char>> {
    if valid_utf8(data) {
        Some(decode_utf8(data))
    } else {
        None
    }
}

/// `String::from_utf8` of std: the bytes become a string exactly when they
/// are valid UTF-8, and the string then holds the characters they encode.
#[verifier::external_body]
fn string_from_utf8(bytes: Vec<u8>) -> (r: Option<String>)
    ensures
        r is Some <==> valid_utf8(bytes@),
        r matches Some(s) ==> s@ == decode_utf8(bytes@),
{
    String::from_utf8(bytes).ok()
}

/// Reads a payload as text. A payload that is not valid UTF-8 is a
/// `DecodeError`.
pub fn decode_text(data: Vec<u8>) -> (r: Result<String, Error>)
    ensures
        match r {
            Ok(s) => payload_text(data@) == Some(s@),
            Err(e) => payload_text(data@) is None && e == Error::DecodeError,
        },
{
    match string_from_utf8(data) {
        Some(s) => Ok(s),
        None => Err(Error::DecodeError),
    }
}

impl Message {
    /// A message with the given payload and priority.
    pub fn new(data: Vec<u8>, priority: u32) -> (m: Message)
        ensures
            m.data == data,
            m.priority == priority,
            m@ == (MessageView { data: data@, priority }),
    {
        Message { data, priority }
    }

    /// The message that carries `text`: its UTF-8 bytes, at priority 0.
    pub fn from_text(text: &str) -> (m: Message)
        ensures
            m@ == text_message(text@),
    {
        Message { data: text.as_bytes_vec(), priority: TEXT_PRIORITY }
    }

    /// The text of this message, or `DecodeError` if the payload is not valid
    /// UTF-8.
    pub fn into_text(self) -> (r: Result<String, Error>)
        ensures
            match r {
                Ok(s) => payload_text(self.data@) == Some(s@),
                Err(e) => payload_text(self.data@) is None && e == Error::DecodeError,
            },
    {
        decode_text(self.data)
    }
}

/// Text survives the trip through a message: the payload made from any text
/// is valid UTF-8 and decodes to that text again.
pub proof fn lemma_text_round_trip(text: Seq<char>)
    ensures
        payload_text(text_message(text).data) == Some(text),
{
    encode_utf8_valid_utf8(text);
    encode_utf8_decode_utf8(text);
}

/// A payload that is text is the encoding of that text: decoding loses
/// nothing.
pub proof fn lemma_payload_round_trip(data: Seq<u8>)
    requires
        payload_text(data) is Some,
    ensures
        encode_utf8(payload_text(data)->0) == data,
{
    decode_utf8_encode_utf8(data);
}

} // verus!
