//! Keyed signatures over session state.
//!
//! A session token carries a hex-encoded message-authentication code over
//! `sessionIdentifier.accountId.expiryTimestamp`.  The MAC itself comes from
//! an outside crate and is only named here; the message construction and the
//! hex alphabet are stated exactly, so that a token is pinned down by the
//! stored session row and the signing key.

use vstd::prelude::*;
use vstd::string::*;

use crate::digits::{dec_int, digit_char};
use crate::digits::i64_string;

verus! {

/// The lowercase hexadecimal character for one value in `0..16`.
pub open spec fn hex_char(d: int) -> char {
    if d < 10 {
        digit_char(d)
    } else if d == 10 {
        'a'
    } else if d == 11 {
        'b'
    } else if d == 12 {
        'c'
    } else if d == 13 {
        'd'
    } else if d == 14 {
        'e'
    } else {
        'f'
    }
}

/// Lowercase hex encoding of a byte sequence: two digits per byte, high
/// nibble first, in byte order.
pub open spec fn hex_of(bytes: Seq<u8>) -> Seq<char>
    decreases bytes.len(),
{
    if bytes.len() == 0 {
        Seq::<char>::empty()
    } else {
        hex_of(bytes.drop_last()) + seq![
            hex_char(bytes.last() as int / 16),
            hex_char(bytes.last() as int % 16),
        ]
    }
}

/// The HMAC-SHA-256 authentication code of a message under a key.  The code
/// is a pure function of the key and the message; nothing else about it is
/// assumed.
pub uninterp spec fn mac_of(key: Seq<u8>, message: Seq<char>) -> Seq<u8>;

/// The message that a session signature covers:
/// `sessionIdentifier.accountId.expiryTimestamp` with `.` separators and
/// decimal numbers.
pub open spec fn signing_message(session_id: Seq<char>, user_id: int, expires_at: int) -> Seq<
    char,
> {
    session_id + seq!['.'] + dec_int(user_id) + seq!['.'] + dec_int(expires_at)
}

/// The hex-encoded signature that binds a session identifier to the
/// server-held account id and expiry.
pub open spec fn spec_signature(
    key: Seq<u8>,
    session_id: Seq<char>,
    user_id: int,
    expires_at: int,
) -> Seq<char> {
    hex_of(mac_of(key, signing_message(session_id, user_id, expires_at)))
}

/// Relies on `hmac::Hmac<sha2::Sha256>` (`KeyInit::new_from_slice`,
/// `Mac::update`, `Mac::finalize`): the code is a function of the key and the
/// message bytes alone and is 32 bytes long.  `new_from_slice` accepts a key
/// of any length for HMAC, so the call cannot fail.
#[verifier::external_body]
fn hmac_sha256(key: &[u8], message: &str) -> (r: Vec<u8>)
    ensures
        r@ == mac_of(key@, message@),
        r@.len() == 32,
{
    let mut mac = <hmac::Hmac<sha2::Sha256> as hmac::KeyInit>::new_from_slice(key).expect(
        "HMAC accepts keys of any length",
    );
    hmac::Mac::update(&mut mac, message.as_bytes());
    hmac::Mac::finalize(mac).into_bytes().to_vec()
}

/// Relies on `hex::encode`: two lowercase hexadecimal digits per byte, high
/// nibble first, in byte order.
#[verifier::external_body]
fn hex_encode(bytes: &[u8]) -> (r: String)
    ensures
        r@ == hex_of(bytes@),
{
    hex::encode(bytes)
}

/// Computes the hex-encoded signature over the identifier, account id and
/// expiry, exactly as [`spec_signature`] states it.
pub fn compute_signature(key: &[u8], session_id: &str, user_id: i64, expires_at: i64) -> (r:
    String)
    ensures
        r@ == spec_signature(key@, session_id@, user_id as int, expires_at as int),
        r@.len() == 64,
{
    proof {
        reveal_strlit(".");
    }
    let mut msg = session_id.to_owned();
    msg.append(".");
    msg.append(i64_string(user_id).as_str());
    msg.append(".");
    msg.append(i64_string(expires_at).as_str());
    proof {
        assert(msg@ =~= signing_message(session_id@, user_id as int, expires_at as int));
    }
    let tag = hmac_sha256(key, msg.as_str());
    proof {
        lemma_hex_of_no_dot(tag@);
    }
    hex_encode(tag.as_slice())
}

/// Every character of a hex encoding is a lowercase hex digit; in
/// particular, none is a dot, so a signature never confuses the token shape.
pub proof fn lemma_hex_of_no_dot(bytes: Seq<u8>)
    ensures
        forall|i: int| 0 <= i < hex_of(bytes).len() ==> #[trigger] hex_of(bytes)[i] != '.',
        hex_of(bytes).len() == 2 * bytes.len(),
    decreases bytes.len(),
{
    if bytes.len() > 0 {
        lemma_hex_of_no_dot(bytes.drop_last());
    }
}

} // verus!
