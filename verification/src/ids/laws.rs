//! What counts as an id and as a token.

use crate::ids::{
    base64_decoded, is_encoded_len, is_id_char, is_valid_id, sha256_digest, verifier_of_encoded,
    verifier_of_token,
};
use vstd::prelude::*;
use vstd::utf8::encode_utf8;

verus! {

/// The characters of ids are the letters and digits of ASCII, the hyphen and the
/// underscore.
pub proof fn id_characters(c: char)
    ensures
        is_id_char(c) <==> {
            let n = c as int;
            ||| 48 <= n <= 57
            ||| 65 <= n <= 90
            ||| 97 <= n <= 122
            ||| n == 45
            ||| n == 95
        },
{
}

/// An id stays one when a part of it is taken, and two ids make one as long as
/// they are not too long together; what is empty or too long is none.
pub proof fn ids_can_be_cut_and_joined(a: Seq<char>, b: Seq<char>, max_length: nat)
    ensures
        is_valid_id(a + b, max_length) <==> {
            &&& 1 <= a.len() + b.len() <= max_length
            &&& a.len() > 0 ==> is_valid_id(a, max_length)
            &&& b.len() > 0 ==> is_valid_id(b, max_length)
        },
{
    let both = a + b;
    if is_valid_id(both, max_length) {
        assert forall|i: int| 0 <= i < a.len() implies is_id_char(#[trigger] a[i]) by {
            assert(is_id_char(both[i]));
        }
        assert forall|i: int| 0 <= i < b.len() implies is_id_char(#[trigger] b[i]) by {
            assert(is_id_char(both[a.len() + i]));
        }
    }
}

/// A text of one character is an id iff that is a character of ids.
pub proof fn single_characters_are_ids(c: char, max_length: nat)
    requires
        max_length >= 1,
    ensures
        is_valid_id(seq![c], max_length) <==> is_id_char(c),
{
    if is_valid_id(seq![c], max_length) {
        assert(is_id_char(seq![c][0]));
    }
}

/// What is encoded has 43 characters, each of one byte.
pub proof fn encoded_texts_have_43_bytes(text: Seq<char>)
    ensures
        is_encoded_len(text) <==> text.len() == 43 && encode_utf8(text).len() == 43,
{
}

/// A token counts iff it has 43 bytes and is base64 of 32 bytes; its verifier is
/// the digest of those. A saved verifier counts iff it is base64 of 32 bytes,
/// and is those.
pub proof fn tokens_are_known_by_their_digest(text: Seq<char>)
    ensures
        ({
            let raw = base64_decoded(text);
            &&& verifier_of_token(text) == if encode_utf8(text).len() == 43 && raw is Some
                && raw->0.len() == 32 {
                Some(sha256_digest(raw->0))
            } else {
                None
            }
            &&& verifier_of_encoded(text) == if raw is Some && raw->0.len() == 32 {
                raw
            } else {
                None
            }
        }),
{
}

} // verus!
