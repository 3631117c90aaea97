//! Identifiers and log hygiene: task ids, request ids and the redaction of
//! tokens in logged request lines.

use vstd::prelude::*;
use crate::text::{concat, owned, push_char};
use crate::signature::hex_digit_char;

verus! {

/// The characters of task ids: digits and capitals that are hard to confuse
/// when read back.
pub open spec fn task_id_alphabet() -> Seq<char> {
    seq![
        '3', '4', '7', '9', 'A', 'C', 'D', 'E', 'F', 'H', 'J', 'K', 'M', 'N', 'P', 'Q', 'R', 'T',
        'U', 'V', 'W', 'X', 'Y',
    ]
}

/// Wraps `nanoid::format` with the default random source: `size`
/// characters, each taken from `alphabet`. The generator stops once the id
/// holds `size` bytes, so the alphabet must be ASCII, non-empty and at most
/// 255 characters, and `size` positive. The characters chosen are random.
#[verifier::external_body]
fn nanoid_format(alphabet: &[char], size: usize) -> (r: String)
    requires
        0 < size,
        0 < alphabet@.len() <= 255,
        forall|i: int| 0 <= i < alphabet@.len() ==> (#[trigger] alphabet@[i] as u32) < 128,
    ensures
        r@.len() == size,
        forall|i: int| 0 <= i < r@.len() ==> alphabet@.contains(#[trigger] r@[i]),
{
    nanoid::format(nanoid::rngs::default, alphabet, size)
}

/// The task id alphabet as a vector.
fn alphabet_vec() -> (r: Vec<char>)
    ensures
        r@ == task_id_alphabet(),
{
    let mut v: Vec<char> = Vec::new();
    v.push('3');
    v.push('4');
    v.push('7');
    v.push('9');
    v.push('A');
    v.push('C');
    v.push('D');
    v.push('E');
    v.push('F');
    v.push('H');
    v.push('J');
    v.push('K');
    v.push('M');
    v.push('N');
    v.push('P');
    v.push('Q');
    v.push('R');
    v.push('T');
    v.push('U');
    v.push('V');
    v.push('W');
    v.push('X');
    v.push('Y');
    proof {
        assert(v@ =~= task_id_alphabet());
    }
    v
}

/// `next_task_id`: the prefix, `_`, and 16 random characters of the task id
/// alphabet.
pub fn next_task_id(prefix: &str) -> (r: String)
    ensures
        r@.len() == prefix@.len() + 17,
        r@.take(prefix@.len() as int) == prefix@,
        r@[prefix@.len() as int] == '_',
        forall|i: int|
            prefix@.len() < i < r@.len() ==> task_id_alphabet().contains(#[trigger] r@[i]),
{
    let alphabet = alphabet_vec();
    proof {
        assert forall|i: int| 0 <= i < alphabet@.len() implies (#[trigger] alphabet@[i] as u32)
            < 128 by {
            assert(alphabet@[i] == task_id_alphabet()[i]);
        }
    }
    let suffix = nanoid_format(alphabet.as_slice(), 16);
    let head = concat(prefix, "_");
    let r = concat(head.as_str(), suffix.as_str());
    proof {
        reveal_strlit("_");
        assert(r@.take(prefix@.len() as int) =~= prefix@);
        assert forall|i: int| prefix@.len() < i < r@.len() implies task_id_alphabet().contains(
            #[trigger] r@[i],
        ) by {
            assert(r@[i] == suffix@[i - prefix@.len() - 1]);
        }
    }
    r
}

/// The lowercase hexadecimal digits of `n`, without leading zeros.
pub open spec fn hex_of(n: nat) -> Seq<char>
    decreases n,
{
    if n < 16 {
        seq![hex_digit_char(n as int)]
    } else {
        hex_of(n / 16).push(hex_digit_char((n % 16) as int))
    }
}

/// `{n:04x}`: at least four hexadecimal digits, zero padded.
pub open spec fn hex4(n: nat) -> Seq<char> {
    let h = hex_of(n);
    if h.len() >= 4 {
        h
    } else {
        Seq::new((4 - h.len()) as nat, |i: int| '0') + h
    }
}

/// Formats `n` in lowercase hexadecimal.
fn hex_string(n: u64) -> (r: String)
    ensures
        r@ == hex_of(n as nat),
    decreases n,
{
    if n < 16 {
        let mut s = String::new();
        push_char(&mut s, digit(n as u8));
        s
    } else {
        let mut s = hex_string(n / 16);
        push_char(&mut s, digit((n % 16) as u8));
        s
    }
}

/// The lowercase hexadecimal digit of `v < 16`.
fn digit(v: u8) -> (r: char)
    requires
        v < 16,
    ensures
        r == hex_digit_char(v as int),
{
    if v < 10 {
        (v + 48) as char
    } else {
        (v + 87) as char
    }
}

/// `next_request_id` from the clock and the request counter:
/// `{millis:x}-{seq:04x}`.
pub fn request_id(millis: u64, seq: u64) -> (r: String)
    ensures
        r@ == hex_of(millis as nat) + "-"@ + hex4(seq as nat),
{
    let ts = hex_string(millis);
    let h = hex_string(seq);
    let mut padded = String::new();
    let n = h.unicode_len();
    let mut k: usize = n;
    while k < 4
        invariant
            n <= k,
            k <= 4 || k == n,
            n == h@.len(),
            padded@ == Seq::new((k - n) as nat, |i: int| '0'),
        decreases 4 - k,
    {
        push_char(&mut padded, '0');
        proof {
            assert(padded@ =~= Seq::new((k + 1 - n) as nat, |i: int| '0'));
        }
        k = k + 1;
    }
    let full = concat(padded.as_str(), h.as_str());
    proof {
        if n >= 4 {
            assert(padded@ =~= Seq::<char>::empty());
            assert(full@ =~= h@);
        }
    }
    let a = concat(ts.as_str(), "-");
    concat(a.as_str(), full.as_str())
}

/// What `regex::Regex::new(pattern)` followed by `replace_all(text, rep)`
/// gives: the text with every match replaced, or the pattern's error text.
pub uninterp spec fn regex_replace(pattern: Seq<char>, text: Seq<char>, rep: Seq<char>) -> Result<
    Seq<char>,
    Seq<char>,
>;

/// Wraps `regex::Regex::new` and `Regex::replace_all`; the outcome is named
/// `regex_replace`. Nothing is claimed of the regex semantics themselves.
#[verifier::external_body]
fn regex_replace_all(pattern: &str, text: &str, rep: &str) -> (r: Result<String, String>)
    ensures
        r matches Ok(s) ==> regex_replace(pattern@, text@, rep@) == ok_text(s@),
        r matches Err(e) ==> regex_replace(pattern@, text@, rep@) == err_text(e@),
{
    match regex::Regex::new(pattern) {
        Ok(re) => Ok(re.replace_all(text, rep).into_owned()),
        Err(e) => Err(e.to_string()),
    }
}

/// A successful text outcome.
pub open spec fn ok_text(s: Seq<char>) -> Result<Seq<char>, Seq<char>> {
    Ok(s)
}

/// A failed text outcome.
pub open spec fn err_text(e: Seq<char>) -> Result<Seq<char>, Seq<char>> {
    Err(e)
}

/// The pattern of a token in a query string.
pub open spec fn token_pattern() -> Seq<char> {
    "(token=)[^&\\s]+"@
}

/// The replacement that keeps `token=` and hides the value.
pub open spec fn token_replacement() -> Seq<char> {
    "$1***REDACTED***"@
}

/// `redact_token`: every `token=<value>` with its value replaced.
pub fn redact_token(input: &str) -> (r: String)
    ensures
        r@ == (match regex_replace(token_pattern(), input@, token_replacement()) {
            Ok(s) => s,
            Err(_) => input@,
        }),
{
    match regex_replace_all("(token=)[^&\\s]+", input, "$1***REDACTED***") {
        Ok(s) => s,
        Err(_) => owned(input),
    }
}

} // verus!
