//! Webhook signatures: `X-Hub-Signature-256` checking with HMAC-SHA256 and
//! the hexadecimal forms of digests.

use vstd::prelude::*;
use vstd::utf8::encode_utf8;
use crate::text::{opt_view, lower, to_ascii_lowercase, starts_with, str_starts_with, concat, owned};
use crate::http::{hex_value, all_hex};
use hmac::Mac;
use sha2::Digest;

verus! {

/// The value of a hexadecimal digit character (zero for other characters).
pub open spec fn hex_val(c: char) -> int {
    match hex_value(c) {
        Some(v) => v,
        None => 0,
    }
}

/// `hex::decode`: text of even length made of hexadecimal digits (either
/// case) gives one byte per pair of digits.
pub open spec fn hex_decode_spec(s: Seq<char>) -> Option<Seq<u8>> {
    if s.len() % 2 == 0 && all_hex(s) {
        Some(Seq::new(s.len() / 2, |i: int| (hex_val(s[2 * i]) * 16 + hex_val(s[2 * i + 1])) as u8))
    } else {
        None
    }
}

/// The lowercase hexadecimal digit for `0 <= v < 16`.
pub open spec fn hex_digit_char(v: int) -> char {
    if v < 10 {
        ((v + 48) as u32) as char
    } else {
        ((v + 87) as u32) as char
    }
}

/// `hex::encode`: two lowercase hexadecimal digits per byte.
pub open spec fn hex_lower(b: Seq<u8>) -> Seq<char>
    decreases b.len(),
{
    if b.len() == 0 {
        Seq::<char>::empty()
    } else {
        hex_lower(b.drop_last()) + seq![
            hex_digit_char(b.last() as int / 16),
            hex_digit_char(b.last() as int % 16),
        ]
    }
}

/// The text of the error `hex::decode` reports for `s`.
pub uninterp spec fn hex_decode_error(s: Seq<char>) -> Seq<char>;

/// Wraps `hex::decode` on the bytes of `s`: the decoded bytes as
/// `hex_decode_spec` states, or the error's text (named `hex_decode_error`).
#[verifier::external_body]
fn hex_decode(s: &str) -> (r: Result<Vec<u8>, String>)
    ensures
        r matches Ok(v) ==> hex_decode_spec(s@) == Some(v@),
        r matches Err(e) ==> hex_decode_spec(s@) is None && e@ == hex_decode_error(s@),
{
    hex::decode(s).map_err(|e| e.to_string())
}

/// Wraps `hex::encode`: lowercase hexadecimal, two digits per byte.
#[verifier::external_body]
fn hex_encode(b: &[u8]) -> (r: String)
    ensures
        r@ == hex_lower(b@),
{
    hex::encode(b)
}

/// HMAC-SHA256 of `msg` under `key`, as the `hmac` and `sha2` crates compute
/// it.
pub uninterp spec fn hmac_sha256(key: Seq<u8>, msg: Seq<u8>) -> Seq<u8>;

/// Wraps `Hmac::<Sha256>::new_from_slice`, `update` and `finalize`: the tag
/// is named `hmac_sha256` and is 32 bytes long. HMAC takes keys of any
/// length (longer keys are hashed first), so the key is never refused.
#[verifier::external_body]
fn hmac_sha256_bytes(key: &[u8], msg: &[u8]) -> (r: Vec<u8>)
    ensures
        r@ == hmac_sha256(key@, msg@),
        r@.len() == 32,
{
    match <hmac::Hmac<sha2::Sha256> as Mac>::new_from_slice(key) {
        Ok(mut mac) => {
            mac.update(msg);
            mac.finalize().into_bytes().to_vec()
        },
        Err(_) => Vec::new(),
    }
}

/// SHA-256 of `data`, as the `sha2` crate computes it.
pub uninterp spec fn sha256(data: Seq<u8>) -> Seq<u8>;

/// Wraps `sha2::Sha256::digest`: the digest is named `sha256` and is 32
/// bytes long.
#[verifier::external_body]
fn sha256_bytes(data: &[u8]) -> (r: Vec<u8>)
    ensures
        r@ == sha256(data@),
        r@.len() == 32,
{
    sha2::Sha256::digest(data).to_vec()
}

/// Wraps `subtle::ConstantTimeEq::ct_eq` on byte slices, turned into a
/// `bool`: whether the slices are equal (lengths first, then contents).
#[verifier::external_body]
fn ct_eq_bytes(a: &[u8], b: &[u8]) -> (r: bool)
    ensures
        r == (a@ == b@),
{
    subtle::ConstantTimeEq::ct_eq(a, b).into()
}

/// `parse_signature_bytes`: `sha256=<hex>` (prefix in any case, digits
/// read after lowercasing) or bare hex; the flag says whether the prefix was
/// there.
pub open spec fn sig_parse(sig: Seq<char>) -> Result<(Seq<u8>, bool), Seq<char>> {
    let low = lower(sig);
    if starts_with(low, "sha256="@) {
        match hex_decode_spec(low.skip(7)) {
            Some(b) => Ok((b, true)),
            None => Err("invalid hex: "@ + hex_decode_error(low.skip(7))),
        }
    } else {
        match hex_decode_spec(sig) {
            Some(b) => Ok((b, false)),
            None => Err("missing-prefix invalid hex: "@ + hex_decode_error(sig)),
        }
    }
}

/// The bytes of an `X-Hub-Signature-256` header and whether it had the
/// `sha256=` prefix, or why it cannot be read.
pub fn parse_signature_bytes(sig: &str) -> (r: Result<(Vec<u8>, bool), String>)
    ensures
        r matches Ok((b, p)) ==> sig_parse(sig@) == Ok::<(Seq<u8>, bool), Seq<char>>((b@, p)),
        r matches Err(e) ==> sig_parse(sig@) == Err::<(Seq<u8>, bool), Seq<char>>(e@),
{
    let low = to_ascii_lowercase(sig);
    if str_starts_with(low.as_str(), "sha256=") {
        proof {
            reveal_strlit("sha256=");
        }
        let rest = low.as_str().substring_char(7, low.unicode_len());
        proof {
            assert(rest@ =~= low@.skip(7));
        }
        return match hex_decode(rest) {
            Ok(b) => Ok((b, true)),
            Err(e) => Err(concat("invalid hex: ", e.as_str())),
        };
    }
    match hex_decode(sig) {
        Ok(b) => Ok((b, false)),
        Err(e) => Err(concat("missing-prefix invalid hex: ", e.as_str())),
    }
}

/// The record of a signature check.
#[derive(Debug)]
pub struct SignatureCheck {
    pub valid: bool,
    pub provided: String,
    pub expected: String,
    pub expected_error: Option<String>,
    pub expected_len: usize,
    pub body_sha256: String,
    pub payload_dump: Option<String>,
    pub dump_error: Option<String>,
    pub header_raw: String,
    pub prefix_ok: bool,
}

/// A signature is valid when it parses and its bytes are the HMAC-SHA256 of
/// the body under the secret.
pub open spec fn signature_valid(sig: Seq<char>, secret: Seq<u8>, body: Seq<u8>) -> bool {
    sig_parse(sig) matches Ok((b, _)) && b == hmac_sha256(secret, body)
}

/// The lowercase hex of a byte string has two characters per byte.
pub proof fn lemma_hex_lower_shape(b: Seq<u8>)
    ensures
        hex_lower(b).len() == 2 * b.len(),
        forall|i: int|
            0 <= i < b.len() ==> hex_lower(b)[2 * i] == hex_digit_char(b[i] as int / 16)
                && hex_lower(b)[2 * i + 1] == hex_digit_char(b[i] as int % 16),
    decreases b.len(),
{
    if b.len() > 0 {
        let p = b.drop_last();
        lemma_hex_lower_shape(p);
        assert forall|i: int|
            0 <= i < b.len() implies hex_lower(b)[2 * i] == hex_digit_char(b[i] as int / 16)
            && hex_lower(b)[2 * i + 1] == hex_digit_char(b[i] as int % 16) by {
            if i < p.len() {
                assert(b[i] == p[i]);
            }
        }
    }
}

/// A lowercase hex digit reads back as its value and is no uppercase letter.
proof fn lemma_hex_digit(v: int)
    requires
        0 <= v < 16,
    ensures
        hex_value(hex_digit_char(v)) == Some(v),
        !('A' <= hex_digit_char(v) && hex_digit_char(v) <= 'Z'),
{
}

/// Decoding the lowercase hex of bytes gives the bytes back, and that hex
/// has no uppercase letters.
pub proof fn lemma_hex_roundtrip(b: Seq<u8>)
    ensures
        hex_decode_spec(hex_lower(b)) == Some(b),
        lower(hex_lower(b)) == hex_lower(b),
{
    lemma_hex_lower_shape(b);
    let h = hex_lower(b);
    assert forall|k: int| 0 <= k < h.len() implies (#[trigger] hex_value(h[k])) is Some && !(
    'A' <= h[k] && h[k] <= 'Z') by {
        let i = k / 2;
        lemma_hex_digit(b[i] as int / 16);
        lemma_hex_digit(b[i] as int % 16);
        if k % 2 == 0 {
            assert(k == 2 * i);
        } else {
            assert(k == 2 * i + 1);
        }
    }
    let d = Seq::new(h.len() / 2, |i: int| (hex_val(h[2 * i]) * 16 + hex_val(h[2 * i + 1])) as u8);
    assert forall|i: int| 0 <= i < b.len() implies d[i] == b[i] by {
        lemma_hex_digit(b[i] as int / 16);
        lemma_hex_digit(b[i] as int % 16);
        assert((b[i] as int / 16) * 16 + b[i] as int % 16 == b[i] as int);
    }
    assert(d =~= b);
    assert forall|k: int| 0 <= k < h.len() implies lower(h)[k] == h[k] by {
        assert(hex_value(h[k]) is Some);
    }
    assert(lower(h) =~= h);
}

/// The record of a signature check of `body` under `secret`.
pub open spec fn signature_check_spec(c: SignatureCheck, signature: Seq<char>, secret: Seq<char>, body: Seq<u8>) -> bool {
    &&& c.valid == signature_valid(signature, encode_utf8(secret), body)
    &&& c.provided@ == signature
    &&& c.header_raw@ == signature
    &&& c.expected@ == hex_lower(hmac_sha256(encode_utf8(secret), body))
    &&& c.expected_len == 32
    &&& c.body_sha256@ == hex_lower(sha256(body))
    &&& c.payload_dump is None
    &&& c.dump_error is None
    &&& (match sig_parse(signature) {
        Ok((_, p)) => c.prefix_ok == p && c.expected_error is None,
        Err(e) => !c.prefix_ok && opt_view(c.expected_error) == Some("sig-parse: "@ + e),
    })
}

/// `verify_github_signature` without the payload dump, which the caller
/// writes when the signature is not valid.
pub fn verify_github_signature(signature: &str, secret: &str, body: &[u8]) -> (r: Result<
    SignatureCheck,
    String,
>)
    ensures
        r matches Ok(c) && signature_check_spec(c, signature@, secret@, body@),
{
    let body_sha256 = hex_encode(sha256_bytes(body).as_slice());
    let key = secret.as_bytes();
    let mac = hmac_sha256_bytes(key, body);
    let expected = hex_encode(mac.as_slice());
    proof {
        lemma_hex_lower_shape(mac@);
    }
    match parse_signature_bytes(signature) {
        Err(err) => {
            Ok(
                SignatureCheck {
                    valid: false,
                    provided: owned(signature),
                    expected,
                    expected_error: Some(concat("sig-parse: ", err.as_str())),
                    expected_len: 32,
                    body_sha256,
                    payload_dump: None,
                    dump_error: None,
                    header_raw: owned(signature),
                    prefix_ok: false,
                },
            )
        },
        Ok((provided, prefix_ok)) => {
            let valid = match hex_decode(expected.as_str()) {
                Ok(expected_bytes) => {
                    proof {
                        lemma_hex_roundtrip(mac@);
                    }
                    ct_eq_bytes(provided.as_slice(), expected_bytes.as_slice())
                },
                Err(_) => {
                    proof {
                        lemma_hex_roundtrip(mac@);
                    }
                    false
                },
            };
            Ok(
                SignatureCheck {
                    valid,
                    provided: owned(signature),
                    expected,
                    expected_error: None,
                    expected_len: 32,
                    body_sha256,
                    payload_dump: None,
                    dump_error: None,
                    header_raw: owned(signature),
                    prefix_ok,
                },
            )
        },
    }
}

/// A body signed with the secret is accepted: `sha256=` followed by the hex
/// HMAC-SHA256 of the body is a valid signature.
pub proof fn lemma_signed_body_accepted(secret: Seq<u8>, body: Seq<u8>)
    ensures
        signature_valid("sha256="@ + hex_lower(hmac_sha256(secret, body)), secret, body),
{
    let mac = hmac_sha256(secret, body);
    let sig = "sha256="@ + hex_lower(mac);
    lemma_hex_roundtrip(mac);
    reveal_strlit("sha256=");
    assert(lower("sha256="@) =~= "sha256="@);
    assert(lower(sig) =~= lower("sha256="@) + lower(hex_lower(mac)));
    assert(lower(sig) =~= sig);
    assert(sig.skip(7) =~= hex_lower(mac));
    assert(starts_with(sig, "sha256="@)) by {
        assert(sig.take(7) =~= "sha256="@);
    }
}

/// A signature whose bytes differ from the HMAC of the body is refused.
pub proof fn lemma_other_bytes_refused(sig: Seq<char>, secret: Seq<u8>, body: Seq<u8>)
    requires
        sig_parse(sig) matches Ok((b, _)) && b != hmac_sha256(secret, body),
    ensures
        !signature_valid(sig, secret, body),
{
}

} // verus!
