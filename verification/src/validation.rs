//! Validation of the init data that the mini-app sends on behalf of a user.
//!
//! What is said of a text here is said of its UTF-8 bytes.

use vstd::prelude::*;
use vstd::utf8::encode_utf8;
use crate::bytes::{
    all_hex_digits, contains_byte, find, first_occurrence, is_hex, text_eq, text_of,
};
use crate::mac::{hex_encode, hex_of, hmac_sha256, hmac_sha256_of};
use url::form_urlencoded;

verus! {

/// The user that init data names.
#[derive(Clone, Copy, Debug, PartialEq, Eq)]
pub struct User {
    pub id: u64,
}

/// The bytes of `&hash=`, which stand before the signature in init data.
pub open spec fn hash_mark() -> Seq<u8> {
    seq![0x26u8, 0x68u8, 0x61u8, 0x73u8, 0x68u8, 0x3du8]
}

/// The bytes of `WebAppData`, the message under which the token is keyed.
pub open spec fn web_app_data() -> Seq<u8> {
    seq![0x57u8, 0x65u8, 0x62u8, 0x41u8, 0x70u8, 0x70u8, 0x44u8, 0x61u8, 0x74u8, 0x61u8]
}

/// The (name, value) pairs that `form_urlencoded::parse` reads out of `input`, in order.
pub uninterp spec fn form_pairs(input: Seq<u8>) -> Seq<(Seq<char>, Seq<char>)>;

/// The signature of `data` under `token`: the hexadecimal text of the HMAC of
/// the keyed token under `data`.
pub open spec fn signature_of(data: Seq<u8>, token: Seq<u8>) -> Seq<char> {
    hex_of(hmac_sha256(data, hmac_sha256(token, web_app_data())))
}

/// The data and the signature that init data is made of: the bytes before the
/// first `&hash=` and those after it, where the latter are 64 hexadecimal digits.
pub open spec fn extracted(init_data: Seq<u8>) -> Option<(Seq<u8>, Seq<u8>)> {
    match first_occurrence(init_data, hash_mark(), 0) {
        Some(at) => {
            let hash = init_data.subrange(at + 6, init_data.len() as int);
            if hash.len() == 64 && all_hex_digits(hash) {
                Some((init_data.subrange(0, at), hash))
            } else {
                None
            }
        },
        None => None,
    }
}

/// The value of the first pair named `user`, from the position `from` on.
pub open spec fn user_value(pairs: Seq<(Seq<char>, Seq<char>)>, from: int) -> Option<Seq<char>>
    decreases pairs.len() - from,
{
    if from < 0 || from >= pairs.len() {
        None
    } else if pairs[from].0 == "user"@ {
        Some(pairs[from].1)
    } else {
        user_value(pairs, from + 1)
    }
}

/// The JSON text by which init data names its user: the value of the first
/// pair named `user`. Init data that is empty, holds a `;` or holds no `=`
/// names nobody.
pub open spec fn parsed(init_data: Seq<u8>) -> Option<Seq<char>> {
    if init_data.len() == 0 || init_data.contains(0x3bu8) || !init_data.contains(0x3du8) {
        None
    } else {
        user_value(form_pairs(init_data), 0)
    }
}

/// The JSON text of the user for whom init data is valid under `token`: the
/// data carries the signature that `token` gives it, and names the user.
pub open spec fn validated(init_data: Seq<u8>, token: Seq<u8>) -> Option<Seq<char>> {
    if init_data.len() == 0 || !init_data.contains(0x3du8) {
        None
    } else {
        match extracted(init_data) {
            Some((data, hash)) => if hash == encode_utf8(signature_of(data, token)) {
                parsed(data)
            } else {
                None
            },
            None => None,
        }
    }
}

/// The texts of a list of pairs, in order.
pub open spec fn pair_texts(pairs: Seq<(String, String)>) -> Seq<(Seq<char>, Seq<char>)> {
    pairs.map_values(|pair: (String, String)| (pair.0@, pair.1@))
}

/// `form_urlencoded::parse`, with each name and value as an owned string.
/// The result is a function of the input alone.
#[verifier::external_body]
fn form_urlencoded_parse(input: &[u8]) -> (pairs: Vec<(String, String)>)
    ensures
        pair_texts(pairs@) == form_pairs(input@),
{
    form_urlencoded::parse(input)
        .map(|(name, value)| (name.into_owned(), value.into_owned()))
        .collect()
}

/// The JSON text by which init data names its user. Reading the user out of
/// that text is left to the caller.
pub fn parse(init_data: &str) -> (user: Option<String>)
    ensures
        text_of(user) == parsed(encode_utf8(init_data@)),
{
    let bytes = init_data.as_bytes();
    if bytes.len() == 0 {
        return None;
    }
    if contains_byte(bytes, 0x3b) || !contains_byte(bytes, 0x3d) {
        return None;
    }
    let pairs = form_urlencoded_parse(bytes);
    let ghost all = form_pairs(bytes@);
    let mut i: usize = 0;
    while i < pairs.len()
        invariant
            i <= pairs@.len(),
            pair_texts(pairs@) == all,
            all == form_pairs(bytes@),
            bytes@ == encode_utf8(init_data@),
            bytes@.len() != 0,
            !bytes@.contains(0x3bu8),
            bytes@.contains(0x3du8),
            user_value(all, 0) == user_value(all, i as int),
        decreases pairs@.len() - i,
    {
        assert(pair_texts(pairs@)[i as int] == (pairs@[i as int].0@, pairs@[i as int].1@));
        if text_eq(pairs[i].0.as_str(), "user") {
            return Some(pairs[i].1.clone());
        }
        i += 1;
    }
    None
}

/// Splits init data into the data and the signature that follows `&hash=`.
pub fn extract_hash(init_data: &str) -> (parts: Option<(String, String)>)
    ensures
        match extracted(encode_utf8(init_data@)) {
            Some((data, hash)) => parts matches Some(found) && encode_utf8(found.0@) == data
                && encode_utf8(found.1@) == hash,
            None => parts is None,
        },
{
    let bytes = init_data.as_bytes();
    let mark: Vec<u8> = vec![0x26u8, 0x68u8, 0x61u8, 0x73u8, 0x68u8, 0x3du8];
    assert(mark@ =~= hash_mark());
    let at = match find(bytes, mark.as_slice()) {
        Some(at) => at,
        None => {
            return None;
        },
    };
    if bytes.len() - at != 70 {
        return None;
    }
    let ghost hash = bytes@.subrange(at + 6, bytes@.len() as int);
    let (data_part, hash_part) = {
        proof {
            vstd::utf8::encode_utf8_valid_utf8(init_data@);
            assert(bytes@.subrange(at as int, at + 6) == hash_mark());
            assert(bytes@[at as int] == bytes@.subrange(at as int, at + 6)[0]);
            vstd::utf8::is_char_boundary_iff_not_is_continuation_byte(bytes@, at as int);
        }
        init_data.split_at(at)
    };
    let rest = hash_part.as_bytes();
    assert(rest@ =~= bytes@.subrange(at as int, bytes@.len() as int));
    let digits = vstd::slice::slice_subrange(rest, 6, 70);
    assert(digits@ =~= hash);
    if !is_hex(digits) {
        return None;
    }
    let (_, hash_text) = {
        proof {
            vstd::utf8::encode_utf8_valid_utf8(hash_part@);
            assert(rest@[6] == digits@[0]);
            vstd::utf8::is_char_boundary_iff_not_is_continuation_byte(rest@, 6);
        }
        hash_part.split_at(6)
    };
    assert(encode_utf8(hash_text@) =~= hash);
    Some((data_part.to_owned(), hash_text.to_owned()))
}

/// The signature of `data` under `token`, as hexadecimal text of 64 digits.
pub fn sign(data: &str, token: &str) -> (signature: Result<String, ()>)
    ensures
        signature matches Ok(text) && text@ == signature_of(
            encode_utf8(data@),
            encode_utf8(token@),
        ) && text@.len() == 64,
{
    let message: Vec<u8> = vec![
        0x57u8,
        0x65u8,
        0x62u8,
        0x41u8,
        0x70u8,
        0x70u8,
        0x44u8,
        0x61u8,
        0x74u8,
        0x61u8,
    ];
    assert(message@ =~= web_app_data());
    let secret_key = hmac_sha256_of(token.as_bytes(), message.as_slice());
    let code = hmac_sha256_of(data.as_bytes(), secret_key.as_slice());
    Ok(hex_encode(code.as_slice()))
}

/// The JSON text of the user for whom the init data is valid under the bot's
/// token; `None` where the data is not signed with the token or names nobody.
/// Reading the user out of that text is left to the caller.
pub fn validate(init_data: &str, token: &str) -> (user: Option<String>)
    ensures
        text_of(user) == validated(encode_utf8(init_data@), encode_utf8(token@)),
{
    let bytes = init_data.as_bytes();
    if bytes.len() == 0 || !contains_byte(bytes, 0x3d) {
        return None;
    }
    let (base_data, hash) = match extract_hash(init_data) {
        Some(parts) => parts,
        None => {
            return None;
        },
    };
    let expected_hash = match sign(base_data.as_str(), token) {
        Ok(text) => text,
        Err(_) => {
            return None;
        },
    };
    proof {
        vstd::utf8::encode_utf8_decode_utf8(hash@);
        vstd::utf8::encode_utf8_decode_utf8(expected_hash@);
    }
    if hash != expected_hash {
        return None;
    }
    parse(base_data.as_str())
}

} // verus!
