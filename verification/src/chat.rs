//! Chat text on the wire: in a room with a password, the text is sealed with
//! the room key and sent as Base64; a receiver that cannot open it shows what
//! arrived as it is.
use vstd::prelude::*;
use vstd::string::{StringExecFns, StringSliceAdditionalSpecFns};
use vstd::utf8::encode_utf8;
use crate::crypto::{
    base64_bytes, base64_text, decrypt, encrypt, sealable, utf8_lossy_text,
    xchacha20poly1305_open, xchacha20poly1305_seal,
};
use crate::text::{trim, trimmed};

verus! {

broadcast use {vstd::utf8::encode_utf8_valid_utf8, vstd::utf8::encode_utf8_decode_utf8};

/// What a receiver shows for the wire text `wire`: without a key, the text as
/// it arrived; with a key, the opened text when the wire text is Base64 of
/// sealed data whose tag checks, else the text as it arrived.
pub open spec fn shown_text(key: Option<Seq<u8>>, wire: Seq<char>) -> Seq<char> {
    match key {
        None => wire,
        Some(k) => match base64_bytes(wire) {
            None => wire,
            Some(d) => if d.len() < 40 {
                wire
            } else {
                match xchacha20poly1305_open(k, d.take(24), d.skip(24)) {
                    Some(p) => utf8_lossy_text(p),
                    None => wire,
                }
            },
        },
    }
}

/// The abstract value of an optional key.
pub open spec fn key_view(key: Option<&[u8; 32]>) -> Option<Seq<u8>> {
    match key {
        Some(k) => Some(k@),
        None => None,
    }
}

/// What a sender puts on the wire for `text`: the text itself without a key;
/// with a key, Base64 of the nonce, ciphertext and tag of its UTF-8 bytes, or
/// the text itself when it is too long to seal.
pub fn encode_chat_text(key: Option<&[u8; 32]>, text: &str) -> (r: String)
    requires
        text.spec_bytes().len() + 40 <= usize::MAX / 2,
    ensures
        key is None ==> r@ == text@,
        key matches Some(k) ==> {
            let b = encode_utf8(text@);
            &&& sealable(b.len()) ==> exists|d: Seq<u8>|
                d.len() == b.len() + 40 && d == d.take(24) + #[trigger] xchacha20poly1305_seal(
                    k@,
                    d.take(24),
                    b,
                ) && r@ == base64_text(d)
            &&& !sealable(b.len()) ==> r@ == text@
        },
{
    match key {
        None => String::from_str(text),
        Some(k) => {
            match encrypt(k, text.as_bytes()) {
                Ok(enc) => crate::crypto::base64_encode(enc.as_slice()),
                Err(_) => String::from_str(text),
            }
        },
    }
}

/// What a receiver shows for the wire text `wire` (see [`shown_text`]). Text
/// sent by [`encode_chat_text`] under the same key is shown exactly as it was
/// typed.
pub fn decode_chat_text(key: Option<&[u8; 32]>, wire: &str) -> (r: String)
    ensures
        r@ == shown_text(key_view(key), wire@),
        forall|k: Seq<u8>, d: Seq<u8>, t: Seq<char>|
            key_view(key) == Some(k) && wire@ == base64_text(d) && d.len() >= 40 && sealable(
                encode_utf8(t).len(),
            ) && d == d.take(24) + #[trigger] xchacha20poly1305_seal(k, d.take(24), encode_utf8(t))
                ==> r@ == t,
{
    match key {
        None => String::from_str(wire),
        Some(k) => match crate::crypto::base64_decode(wire) {
            None => String::from_str(wire),
            Some(d) => match decrypt(k, d.as_slice()) {
                Ok(plain) => {
                    let s = crate::crypto::utf8_lossy(plain.as_slice());
                    proof {
                        assert forall|kk: Seq<u8>, dd: Seq<u8>, t: Seq<char>|
                            key_view(key) == Some(kk) && wire@ == base64_text(dd) && dd.len() >= 40
                                && sealable(encode_utf8(t).len()) && dd == dd.take(24)
                                + #[trigger] xchacha20poly1305_seal(kk, dd.take(24), encode_utf8(t))
                            implies s@ == t by {
                            assert(d@ == dd);
                            assert(plain@ == encode_utf8(t));
                        }
                    }
                    s
                },
                Err(_) => {
                    proof {
                        assert forall|kk: Seq<u8>, dd: Seq<u8>, t: Seq<char>|
                            key_view(key) == Some(kk) && wire@ == base64_text(dd) && dd.len() >= 40
                                && sealable(encode_utf8(t).len()) && dd == dd.take(24)
                                + #[trigger] xchacha20poly1305_seal(kk, dd.take(24), encode_utf8(t))
                            implies false by {
                            assert(d@ == dd);
                        }
                    }
                    String::from_str(wire)
                },
            },
        },
    }
}

/// The text a user sends for what was typed: the input without leading and
/// trailing white space, or nothing when that leaves no text.
pub fn outgoing_text(input: &str) -> (r: Option<String>)
    ensures
        trimmed(input@).len() == 0 ==> r is None,
        trimmed(input@).len() > 0 ==> r is Some && r.unwrap()@ == trimmed(input@),
        r matches Some(t) ==> encode_utf8(t@).len() <= input.spec_bytes().len(),
{
    let t = trim(input);
    if t.as_str().is_empty() {
        None
    } else {
        Some(t)
    }
}

} // verus!
