//! Queue identifiers and the rules that a valid one meets.

use crate::error::Error;
use vstd::prelude::*;
use vstd::string::StringExecFns;
use vstd::string::StringSliceAdditionalSpecFns;
use vstd::utf8::*;

verus! {

/// The longest queue identifier, in bytes.
pub const MAX_NAME_BYTES: usize = 255;

/// The depth a queue is created with unless the caller says otherwise.
pub const DEFAULT_MAX_DEPTH: i64 = 1;

/// The message size a queue is created with unless the caller says otherwise.
pub const DEFAULT_MAX_SIZE: i64 = 128;

/// A valid queue identifier: a slash, then at least one more character, none
/// of them a slash or the zero character, and no more than 255 bytes in all
/// when written as UTF-8.
pub open spec fn valid_queue_name(name: Seq<char>) -> bool {
    &&& name.len() >= 2
    &&& name[0] == '/'
    &&& forall|i: int| 1 <= i < name.len() ==> name[i] != '/' && name[i] != '\0'
    &&& encode_utf8(name).len() <= MAX_NAME_BYTES
}

/// How often `c` occurs in `s`.
pub open spec fn occurrences(s: Seq<char>, c: char) -> nat
    decreases s.len(),
{
    if s.len() == 0 {
        0
    } else {
        occurrences(s.drop_last(), c) + if s.last() == c {
            1nat
        } else {
            0nat
        }
    }
}

/// What the queue layer asks of an identifier: it starts with a slash, is
/// not one byte long, takes at most 255 bytes, and holds at most one slash.
pub open spec fn well_formed(name: Seq<char>) -> bool {
    &&& name.len() > 0
    &&& name[0] == '/'
    &&& encode_utf8(name).len() != 1
    &&& encode_utf8(name).len() <= 255
    &&& occurrences(name, '/') <= 1
}

/// `posix_mq::Name::new`: whether the queue layer accepts the identifier. It
/// accepts exactly the well-formed ones. The call must not be made with text
/// that holds a zero byte: the queue layer does not return from it.
#[verifier::external_body]
fn queue_layer_accepts(name: &str) -> (ok: bool)
    requires
        !name.spec_bytes().contains(0u8),
    ensures
        ok == well_formed(name@),
{
    posix_mq::Name::new(name).is_ok()
}

/// Whether a zero byte occurs among `bytes`.
fn holds_zero(bytes: &[u8]) -> (found: bool)
    ensures
        found == bytes@.contains(0u8),
{
    let mut i: usize = 0;
    while i < bytes.len()
        invariant
            i <= bytes.len(),
            forall|j: int| 0 <= j < i ==> bytes@[j] != 0u8,
        decreases bytes.len() - i,
    {
        if bytes[i] == 0u8 {
            return true;
        }
        i += 1;
    }
    false
}

/// The encoding of one character takes one to four bytes, one for a slash,
/// and holds a zero byte only for the zero character.
proof fn lemma_scalar_bytes(c: char)
    ensures
        1 <= encode_scalar(c as u32).len() <= 4,
        c == '/' ==> encode_scalar(c as u32).len() == 1,
        encode_scalar(c as u32).contains(0u8) <==> c == '\0',
{
    let s = c as u32;
    let bytes = encode_scalar(s);
    assert(forall|v: u32| v <= 0x7F ==> (((v & 0x7F) as u8 == 0u8) <==> v == 0)) by (bit_vector);
    assert(forall|v: u32| (0xC0u8 | ((v >> 6) & 0x1F) as u8) != 0u8) by (bit_vector);
    assert(forall|v: u32| (0xE0u8 | ((v >> 12) & 0x0F) as u8) != 0u8) by (bit_vector);
    assert(forall|v: u32| (0xF0u8 | ((v >> 18) & 0x7) as u8) != 0u8) by (bit_vector);
    assert(forall|v: u32| (0x80u8 | (v & 0x3F) as u8) != 0u8) by (bit_vector);
    assert(forall|v: u32| (0x80u8 | ((v >> 6) & 0x3F) as u8) != 0u8) by (bit_vector);
    assert(forall|v: u32| (0x80u8 | ((v >> 12) & 0x3F) as u8) != 0u8) by (bit_vector);
    if bytes.contains(0u8) {
        let i = choose|i: int| 0 <= i < bytes.len() && bytes[i] == 0u8;
        assert(bytes[i] == 0u8);
        assert(has_width_1_encoding(s));
        assert(s == 0);
    }
    if c == '\0' {
        assert(bytes[0] == 0u8);
    }
}

/// The encoding of a text is at least as long as the text, is one byte long
/// after a leading slash only if the slash is all there is, and holds a zero
/// byte exactly when the text holds the zero character.
proof fn lemma_encoded(chars: Seq<char>)
    ensures
        encode_utf8(chars).len() >= chars.len(),
        chars.len() > 0 && chars[0] == '/' ==> (encode_utf8(chars).len() == 1 <==> chars.len()
            == 1),
        encode_utf8(chars).contains(0u8) <==> chars.contains('\0'),
    decreases chars.len(),
{
    if chars.len() > 0 {
        let first = encode_scalar(chars[0] as u32);
        let rest = chars.drop_first();
        let tail = encode_utf8(rest);
        let all = encode_utf8(chars);
        assert(all == first + tail);
        lemma_scalar_bytes(chars[0]);
        lemma_encoded(rest);
        if all.contains(0u8) {
            let i = choose|i: int| 0 <= i < all.len() && all[i] == 0u8;
            if i < first.len() {
                assert(first[i] == 0u8);
                assert(chars[0] == '\0');
            } else {
                assert(tail[i - first.len()] == 0u8);
                let j = choose|j: int| 0 <= j < rest.len() && rest[j] == '\0';
                assert(chars[j + 1] == '\0');
            }
        }
        if chars.contains('\0') {
            let j = choose|j: int| 0 <= j < chars.len() && chars[j] == '\0';
            if j == 0 {
                let i = choose|i: int| 0 <= i < first.len() && first[i] == 0u8;
                assert(all[i] == 0u8);
            } else {
                assert(rest[j - 1] == '\0');
                let i = choose|i: int| 0 <= i < tail.len() && tail[i] == 0u8;
                assert(all[first.len() + i] == 0u8);
            }
        }
    }
}

/// A text that starts with a slash holds exactly one slash when no other
/// character of it is a slash.
proof fn lemma_one_slash(s: Seq<char>)
    requires
        s.len() > 0,
        s[0] == '/',
    ensures
        occurrences(s, '/') >= 1,
        occurrences(s, '/') == 1 <==> forall|i: int| 1 <= i < s.len() ==> s[i] != '/',
    decreases s.len(),
{
    if s.len() == 1 {
        assert(occurrences(s.drop_last(), '/') == 0);
        assert(s.last() == s[0]);
    } else {
        let t = s.drop_last();
        lemma_one_slash(t);
        if occurrences(s, '/') == 1 {
            assert forall|i: int| 1 <= i < s.len() implies s[i] != '/' by {
                if i < t.len() {
                    assert(t[i] == s[i]);
                } else {
                    assert(s[i] == s.last());
                }
            }
        }
        if forall|i: int| 1 <= i < s.len() ==> s[i] != '/' {
            assert forall|i: int| 1 <= i < t.len() implies t[i] != '/' by {
                assert(t[i] == s[i]);
            }
            assert(s[s.len() - 1] != '/');
        }
    }
}

/// The valid identifiers are those that the queue layer accepts and that
/// hold no zero byte.
proof fn lemma_valid_name(name: Seq<char>)
    ensures
        valid_queue_name(name) <==> well_formed(name) && !encode_utf8(name).contains(0u8),
{
    lemma_encoded(name);
    if name.len() > 0 && name[0] == '/' {
        lemma_one_slash(name);
        if valid_queue_name(name) {
            assert(!name.contains('\0')) by {
                if name.contains('\0') {
                    let j = choose|j: int| 0 <= j < name.len() && name[j] == '\0';
                    assert(j >= 1);
                }
            }
        }
        if well_formed(name) && !name.contains('\0') {
            assert forall|i: int| 1 <= i < name.len() implies name[i] != '/' && name[i]
                != '\0' by {
                assert(name.contains(name[i]));
            }
        }
    }
}

/// A queue identifier that has been found valid.
#[derive(Debug, PartialEq, Eq)]
pub struct QueueName {
    text: String,
}

impl View for QueueName {
    type V = Seq<char>;

    closed spec fn view(&self) -> Seq<char> {
        self.text@
    }
}

impl Clone for QueueName {
    fn clone(&self) -> (copy: QueueName)
        ensures
            copy@ == self@,
    {
        proof {
            use_type_invariant(self);
        }
        QueueName { text: self.text.clone() }
    }
}

impl QueueName {
    #[verifier::type_invariant]
    spec fn valid(self) -> bool {
        valid_queue_name(self.text@)
    }

    /// Checks an identifier. It is accepted exactly when it is valid; any
    /// other is an `InvalidName`.
    pub fn new(name: &str) -> (r: Result<QueueName, Error>)
        ensures
            match r {
                Ok(n) => valid_queue_name(name@) && n@ == name@,
                Err(e) => !valid_queue_name(name@) && e == Error::InvalidName,
            },
    {
        proof {
            lemma_valid_name(name@);
        }
        if holds_zero(name.as_bytes()) {
            return Err(Error::InvalidName);
        }
        if queue_layer_accepts(name) {
            Ok(QueueName { text: String::from_str(name) })
        } else {
            Err(Error::InvalidName)
        }
    }

    /// The identifier as text.
    pub fn as_str(&self) -> (s: &str)
        ensures
            s@ == self@,
            valid_queue_name(s@),
    {
        proof {
            use_type_invariant(self);
        }
        self.text.as_str()
    }
}

} // verus!
