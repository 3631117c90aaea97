//! The HTTP front: request line and header lines, body framing, chunk sizes,
//! query flags, request routing and static asset paths.

use vstd::prelude::*;
use crate::text::{concat, trim, trim_str, lower, to_ascii_lowercase, starts_with, str_eq, str_starts_with, owned, views, words, split_whitespace, split, split_char, split_once, split_once_char, join, join_strings, trim_start_char, trim_start_matches_char, parse_u64, parse_u64_str};
use crate::units::{is_github_route, is_github_route_spec};
use crate::quadlet::{real_segs, path_components, file_name_spec, path_file_name, extension_spec, split_at_last_dot};

verus! {

/// The method and target of a request line: its first two whitespace
/// separated words, empty where missing.
pub open spec fn request_line_spec(line: Seq<char>) -> (Seq<char>, Seq<char>) {
    let w = words(line);
    (
        if w.len() > 0 {
            w[0]
        } else {
            Seq::<char>::empty()
        },
        if w.len() > 1 {
            w[1]
        } else {
            Seq::<char>::empty()
        },
    )
}

/// The method and path of an HTTP request line (empty when missing).
pub fn parse_request_line(request_line: &str) -> (r: (String, String))
    ensures
        (r.0@, r.1@) == request_line_spec(request_line@),
{
    let w = split_whitespace(request_line);
    let method = if w.len() > 0 {
        owned(w[0].as_str())
    } else {
        String::new()
    };
    let target = if w.len() > 1 {
        owned(w[1].as_str())
    } else {
        String::new()
    };
    proof {
        if w.len() > 0 {
            assert(views(w@)[0] == w@[0]@);
        }
        if w.len() > 1 {
            assert(views(w@)[1] == w@[1]@);
        }
    }
    (method, target)
}

/// `s` without trailing `'\r'` and `'\n'` characters.
pub open spec fn trim_line_end(s: Seq<char>) -> Seq<char>
    decreases s.len(),
{
    if s.len() > 0 && (s.last() == '\r' || s.last() == '\n') {
        trim_line_end(s.drop_last())
    } else {
        s
    }
}

/// Removes trailing `'\r'` and `'\n'` characters.
pub fn trim_line_end_str(s: &str) -> (r: &str)
    ensures
        r@ == trim_line_end(s@),
{
    let mut j: usize = s.unicode_len();
    proof {
        assert(s@.subrange(0, j as int) =~= s@);
    }
    while j > 0 && (s.get_char(j - 1) == '\r' || s.get_char(j - 1) == '\n')
        invariant
            j <= s@.len(),
            trim_line_end(s@) == trim_line_end(s@.subrange(0, j as int)),
        decreases j,
    {
        proof {
            assert(s@.subrange(0, j as int).drop_last() =~= s@.subrange(0, j - 1));
        }
        j = j - 1;
    }
    proof {
        if j > 0 {
            assert(s@.subrange(0, j as int).last() == s@[j - 1]);
        }
    }
    s.substring_char(0, j)
}

/// What one line of the header block is.
pub enum HeaderLine {
    /// The empty line that ends the headers.
    End,
    /// A `name: value` header, the name lowercased, both trimmed.
    Field(String, String),
    /// A line without `:`, which is skipped.
    Skip,
}

/// The reading of a header line.
pub open spec fn header_line_spec(line: Seq<char>) -> Option<Option<(Seq<char>, Seq<char>)>> {
    let t = trim_line_end(line);
    if t.len() == 0 {
        None
    } else {
        match split_once(t, ':') {
            Some((n, v)) => Some(Some((lower(trim(n)), trim(v)))),
            None => Some(None),
        }
    }
}

/// Reads one header line (as the header reader does for each line).
pub fn parse_header_line(line: &str) -> (r: HeaderLine)
    ensures
        r is End <==> header_line_spec(line@) is None,
        r is Skip <==> header_line_spec(line@) == Some(None::<(Seq<char>, Seq<char>)>),
        r matches HeaderLine::Field(n, v) ==> header_line_spec(line@) == Some(
            Some((n@, v@)),
        ),
{
    let t = trim_line_end_str(line);
    if t.unicode_len() == 0 {
        return HeaderLine::End;
    }
    match split_once_char(t, ':') {
        Some((n, v)) => HeaderLine::Field(
            to_ascii_lowercase(trim_str(n.as_str())),
            owned(trim_str(v.as_str())),
        ),
        None => HeaderLine::Skip,
    }
}

/// Whether `p` occurs in `s`.
pub open spec fn contains_seq(s: Seq<char>, p: Seq<char>) -> bool {
    exists|i: int| 0 <= i && i + p.len() <= s.len() && #[trigger] s.subrange(i, i + p.len()) == p
}

/// `str::contains` for a string pattern.
pub fn str_contains_str(s: &str, p: &str) -> (r: bool)
    ensures
        r == contains_seq(s@, p@),
{
    let n = s.unicode_len();
    let m = p.unicode_len();
    if m == 0 {
        proof {
            assert(s@.subrange(0, 0 + p@.len() as int) =~= p@);
        }
        return true;
    }
    if m > n {
        return false;
    }
    let mut i: usize = 0;
    while i <= n - m
        invariant
            1 <= m <= n,
            n == s@.len(),
            m == p@.len(),
            i <= n - m + 1,
            forall|k: int| 0 <= k < i ==> #[trigger] s@.subrange(k, k + m) != p@,
        decreases n - m + 1 - i,
    {
        let sub = s.substring_char(i, i + m);
        if str_eq(sub, p) {
            return true;
        }
        i = i + 1;
    }
    false
}

/// How the body of a request is framed.
pub enum BodyFraming {
    /// `Content-Length` bytes follow.
    Length(usize),
    /// `Transfer-Encoding: chunked`.
    Chunked,
    /// No body is read.
    NoBody,
}

/// A decimal text read as a `usize` (optional `+`, digits only, within
/// range).
pub open spec fn parse_usize(s: Seq<char>) -> Option<usize> {
    match parse_u64(s) {
        Some(v) => if v <= usize::MAX {
            Some(v as usize)
        } else {
            None
        },
        None => None,
    }
}

/// The framing of a request body: a `Content-Length` that parses wins, then
/// a transfer encoding that mentions `chunked` (any ASCII case).
pub open spec fn body_framing_spec(
    content_length: Option<Seq<char>>,
    transfer_encoding: Option<Seq<char>>,
) -> Option<Option<usize>> {
    match (match content_length {
        Some(c) => parse_usize(c),
        None => None,
    }) {
        Some(n) => Some(Some(n)),
        None => match transfer_encoding {
            Some(t) => if contains_seq(lower(t), "chunked"@) {
                Some(None)
            } else {
                None
            },
            None => None,
        },
    }
}

/// Decides how the request body is read from the header values.
pub fn body_framing(content_length: Option<&str>, transfer_encoding: Option<&str>) -> (r: BodyFraming)
    ensures
        r matches BodyFraming::Length(n) ==> body_framing_spec(
            match content_length {
                Some(c) => Some(c@),
                None => None,
            },
            match transfer_encoding {
                Some(t) => Some(t@),
                None => None,
            },
        ) == Some(Some(n)),
        r is Chunked ==> body_framing_spec(
            match content_length {
                Some(c) => Some(c@),
                None => None,
            },
            match transfer_encoding {
                Some(t) => Some(t@),
                None => None,
            },
        ) == Some(None::<usize>),
        r is NoBody ==> body_framing_spec(
            match content_length {
                Some(c) => Some(c@),
                None => None,
            },
            match transfer_encoding {
                Some(t) => Some(t@),
                None => None,
            },
        ) is None,
{
    match content_length {
        Some(c) => match parse_u64_str(c) {
            Some(v) => {
                if v <= usize::MAX as u64 {
                    return BodyFraming::Length(v as usize);
                }
            },
            None => {},
        },
        None => {},
    }
    match transfer_encoding {
        Some(t) => {
            let low = to_ascii_lowercase(t);
            if str_contains_str(low.as_str(), "chunked") {
                BodyFraming::Chunked
            } else {
                BodyFraming::NoBody
            }
        },
        None => BodyFraming::NoBody,
    }
}

/// The value of a hexadecimal digit, if `c` is one.
pub open spec fn hex_value(c: char) -> Option<int> {
    if '0' <= c && c <= '9' {
        Some(c as int - '0' as int)
    } else if 'a' <= c && c <= 'f' {
        Some(c as int - 'a' as int + 10)
    } else if 'A' <= c && c <= 'F' {
        Some(c as int - 'A' as int + 10)
    } else {
        None
    }
}

/// All characters are hexadecimal digits.
pub open spec fn all_hex(d: Seq<char>) -> bool {
    forall|i: int| 0 <= i < d.len() ==> (#[trigger] hex_value(d[i])) is Some
}

/// The value of a string of hexadecimal digits.
pub open spec fn hex_digits_value(d: Seq<char>) -> int
    decreases d.len(),
{
    if d.len() == 0 {
        0
    } else {
        hex_digits_value(d.drop_last()) * 16 + match hex_value(d.last()) {
            Some(v) => v,
            None => 0,
        }
    }
}

/// How a chunk-size line reads.
pub enum ChunkLine {
    /// A blank line, skipped.
    Blank,
    /// The size of the next chunk; zero ends the body.
    Size(usize),
    /// Not a chunk size; the message says why.
    Invalid(String),
}

/// `usize::from_str_radix(_, 16)` on a non-empty text: an optional `+`, then
/// hexadecimal digits whose value fits.
pub open spec fn chunk_size_spec(line: Seq<char>) -> Option<Result<usize, Seq<char>>> {
    let t = trim(line);
    if t.len() == 0 {
        None
    } else {
        let d = if t[0] == '+' {
            t.drop_first()
        } else {
            t
        };
        if d.len() == 0 || !all_hex(d) {
            Some(Err("invalid digit found in string"@))
        } else if hex_digits_value(d) > usize::MAX {
            Some(Err("number too large to fit in target type"@))
        } else {
            Some(Ok(hex_digits_value(d) as usize))
        }
    }
}

/// The message for a chunk size that does not parse.
pub open spec fn chunk_error_message(line: Seq<char>, reason: Seq<char>) -> Seq<char> {
    "invalid chunk size '"@ + trim(line) + "': "@ + reason
}

/// The value of a hexadecimal digit character.
fn hex_digit(c: char) -> (r: Option<u8>)
    ensures
        r matches Some(v) ==> hex_value(c) == Some(v as int),
        r is None ==> hex_value(c) is None,
{
    if '0' <= c && c <= '9' {
        Some((c as u8) - 48)
    } else if 'a' <= c && c <= 'f' {
        Some((c as u8) - 87)
    } else if 'A' <= c && c <= 'F' {
        Some((c as u8) - 55)
    } else {
        None
    }
}

/// Hex digit strings have non-negative values, growing with each digit.
proof fn lemma_hex_nonneg(d: Seq<char>)
    requires
        all_hex(d),
    ensures
        hex_digits_value(d) >= 0,
    decreases d.len(),
{
    if d.len() > 0 {
        let e = d.drop_last();
        assert(all_hex(e)) by {
            assert forall|i: int| 0 <= i < e.len() implies (#[trigger] hex_value(e[i])) is Some by {
                assert(e[i] == d[i]);
            }
        }
        lemma_hex_nonneg(e);
        assert(hex_value(d[d.len() - 1]) is Some);
    }
}

/// A hex prefix is worth no more than the whole string.
proof fn lemma_hex_prefix_le(d: Seq<char>, k: int)
    requires
        all_hex(d),
        0 <= k <= d.len(),
    ensures
        0 <= hex_digits_value(d.take(k)) <= hex_digits_value(d),
    decreases d.len(),
{
    if k == d.len() {
        assert(d.take(k) =~= d);
        lemma_hex_nonneg(d);
    } else {
        let e = d.drop_last();
        assert(all_hex(e)) by {
            assert forall|i: int| 0 <= i < e.len() implies (#[trigger] hex_value(e[i])) is Some by {
                assert(e[i] == d[i]);
            }
        }
        lemma_hex_prefix_le(e, k);
        assert(e.take(k) =~= d.take(k));
        lemma_hex_nonneg(e);
        assert(hex_value(d[d.len() - 1]) is Some);
    }
}

/// Reads a chunk-size line (as reading a chunked body does).
#[verifier::loop_isolation(false)]
pub fn parse_chunk_size_line(line: &str) -> (r: ChunkLine)
    ensures
        r is Blank <==> chunk_size_spec(line@) is None,
        r matches ChunkLine::Size(n) ==> chunk_size_spec(line@) == Some(Ok::<usize, Seq<char>>(n)),
        r matches ChunkLine::Invalid(m) ==> exists|reason: Seq<char>|
            chunk_size_spec(line@) == Some(Err::<usize, Seq<char>>(reason)) && m@
                == chunk_error_message(line@, reason),
{
    let t = trim_str(line);
    let n = t.unicode_len();
    if n == 0 {
        return ChunkLine::Blank;
    }
    let start: usize = if t.get_char(0) == '+' {
        1
    } else {
        0
    };
    let ghost d = t@.skip(start as int);
    proof {
        if start == 1 {
            assert(d =~= t@.drop_first());
        } else {
            assert(d =~= t@);
        }
    }
    let mut value: usize = 0;
    let mut i: usize = start;
    let mut overflow = false;
    let mut invalid = start == n;
    while i < n && !invalid
        invariant
            start <= i <= n,
            n == t@.len(),
            d == t@.skip(start as int),
            invalid ==> start == n,
            !invalid ==> all_hex(t@.subrange(start as int, i as int)),
            !invalid && !overflow ==> value as int == hex_digits_value(t@.subrange(start as int, i as int)),
            !invalid && overflow ==> hex_digits_value(t@.subrange(start as int, i as int)) > usize::MAX,
        decreases n - i,
    {
        let c = t.get_char(i);
        let ghost pre = t@.subrange(start as int, i as int);
        let ghost cur = t@.subrange(start as int, i + 1);
        proof {
            assert(cur.drop_last() =~= pre);
            assert(cur.last() == c);
        }
        match hex_digit(c) {
            Some(v) => {
                proof {
                    assert(all_hex(cur)) by {
                        assert forall|k: int| 0 <= k < cur.len() implies (#[trigger] hex_value(
                            cur[k],
                        )) is Some by {
                            if k < pre.len() {
                                assert(cur[k] == pre[k]);
                            }
                        }
                    }
                    lemma_hex_nonneg(pre);
                }
                if !overflow {
                    if value > (usize::MAX - (v as usize)) / 16 {
                        overflow = true;
                        proof {
                            assert(hex_digits_value(cur) == value * 16 + v);
                            assert((value as int) * 16 + v > usize::MAX) by (nonlinear_arith)
                                requires
                                    value > (usize::MAX - (v as usize)) / 16,
                                    v < 16,
                            ;
                        }
                    } else {
                        proof {
                            assert((value as int) * 16 + v <= usize::MAX) by (nonlinear_arith)
                                requires
                                    value <= (usize::MAX - (v as usize)) / 16,
                                    v < 16,
                            ;
                        }
                        value = value * 16 + (v as usize);
                    }
                } else {
                    proof {
                        assert(hex_digits_value(cur) == hex_digits_value(pre) * 16 + v);
                        assert(hex_digits_value(pre) * 16 + v > usize::MAX) by (nonlinear_arith)
                            requires
                                hex_digits_value(pre) > usize::MAX,
                                v >= 0,
                        ;
                    }
                }
                i = i + 1;
            },
            None => {
                proof {
                    assert(!all_hex(d)) by {
                        assert(d[i - start] == c);
                    }
                    assert(chunk_size_spec(line@) == Some(
                        Err::<usize, Seq<char>>("invalid digit found in string"@),
                    ));
                }
                let msg = invalid_chunk_message(t, "invalid digit found in string");
        proof {
            assert(msg@ == chunk_error_message(line@, "invalid digit found in string"@));
        }
        return ChunkLine::Invalid(msg);
            },
        }
    }
    if invalid {
        proof {
            assert(d.len() == 0);
            assert(chunk_size_spec(line@) == Some(
                Err::<usize, Seq<char>>("invalid digit found in string"@),
            ));
        }
        let msg = invalid_chunk_message(t, "invalid digit found in string");
        proof {
            assert(msg@ == chunk_error_message(line@, "invalid digit found in string"@));
        }
        return ChunkLine::Invalid(msg);
    }
    proof {
        assert(t@.subrange(start as int, n as int) =~= d);
    }
    if overflow {
        proof {
            assert(chunk_size_spec(line@) == Some(
                Err::<usize, Seq<char>>("number too large to fit in target type"@),
            ));
        }
        let msg = invalid_chunk_message(t, "number too large to fit in target type");
        proof {
            assert(msg@ == chunk_error_message(line@, "number too large to fit in target type"@));
        }
        return ChunkLine::Invalid(msg);
    }
    ChunkLine::Size(value)
}

/// Builds the message for an invalid chunk size.
fn invalid_chunk_message(trimmed: &str, reason: &str) -> (r: String)
    ensures
        r@ == "invalid chunk size '"@ + trimmed@ + "': "@ + reason@,
{
    let a = crate::text::concat("invalid chunk size '", trimmed);
    let b = crate::text::concat(a.as_str(), "': ");
    crate::text::concat(b.as_str(), reason)
}

/// The views of a slice of string slices.
pub open spec fn str_views(v: Seq<&str>) -> Seq<Seq<char>> {
    v.map_values(|x: &str| x@)
}

/// The key and value of one `key=value` query pair, both lowercased; a pair
/// without `=` has the value `1`.
pub open spec fn query_pair(pair: Seq<char>) -> (Seq<char>, Seq<char>) {
    match split_once(pair, '=') {
        Some((k, v)) => (lower(k), lower(v)),
        None => (lower(pair), "1"@),
    }
}

/// A value that switches a flag on.
pub open spec fn truthy(v: Seq<char>) -> bool {
    v == "1"@ || v == "true"@ || v == "yes"@ || v == "on"@
}

/// The pair names one of `names` and has a truthy value.
pub open spec fn flag_pair(pair: Seq<char>, names: Seq<Seq<char>>) -> bool {
    names.contains(query_pair(pair).0) && truthy(query_pair(pair).1)
}

/// Some `&`-separated pair of the query names one of `names` with a truthy
/// value.
pub open spec fn query_flag_spec(query: Option<Seq<char>>, names: Seq<Seq<char>>) -> bool {
    match query {
        None => false,
        Some(q) => exists|i: int|
            0 <= i < split(q, '&').len() && #[trigger] flag_pair(split(q, '&')[i], names),
    }
}

/// Whether `names` holds `key`.
fn names_contain(names: &[&str], key: &str) -> (r: bool)
    ensures
        r == str_views(names@).contains(key@),
{
    let mut j: usize = 0;
    while j < names.len()
        invariant
            j <= names@.len(),
            forall|k: int| 0 <= k < j ==> str_views(names@)[k] != key@,
        decreases names@.len() - j,
    {
        if str_eq(names[j], key) {
            proof {
                assert(str_views(names@)[j as int] == key@);
            }
            return true;
        }
        j = j + 1;
    }
    false
}

/// `query_flag`: whether the query switches on a flag under any of `names`.
#[verifier::loop_isolation(false)]
pub fn query_flag(query: Option<&str>, names: &[&str]) -> (r: bool)
    ensures
        r == query_flag_spec(
            match query {
                Some(q) => Some(q@),
                None => None,
            },
            str_views(names@),
        ),
{
    let q = match query {
        Some(q) => q,
        None => {
            return false;
        },
    };
    let pairs = split_char(q, '&');
    let ghost ps = split(q@, '&');
    let mut i: usize = 0;
    while i < pairs.len()
        invariant
            i <= pairs@.len(),
            views(pairs@) == ps,
            ps == split(q@, '&'),
            forall|k: int| 0 <= k < i ==> !#[trigger] flag_pair(ps[k], str_views(names@)),
        decreases pairs@.len() - i,
    {
        proof {
            assert(views(pairs@)[i as int] == pairs@[i as int]@);
        }
        let pair = pairs[i].as_str();
        let (key, value) = match split_once_char(pair, '=') {
            Some((k, v)) => (to_ascii_lowercase(k.as_str()), to_ascii_lowercase(v.as_str())),
            None => (to_ascii_lowercase(pair), String::from_str("1")),
        };
        proof {
            assert((key@, value@) == query_pair(ps[i as int]));
        }
        if names_contain(names, key.as_str()) {
            let vs = value.as_str();
            if str_eq(vs, "1") || str_eq(vs, "true") || str_eq(vs, "yes") || str_eq(vs, "on") {
                proof {
                    assert(flag_pair(ps[i as int], str_views(names@)));
                }
                return true;
            }
        }
        i = i + 1;
    }
    false
}

/// The relative asset path a frontend request maps to: leading `/`
/// removed, `.` and empty components dropped, `index.html` for nothing;
/// refused when a component is `..`.
pub open spec fn frontend_path_spec(path: Seq<char>) -> Option<Seq<char>> {
    let t = trim_start_char(path, '/');
    if t.len() == 0 {
        Some("index.html"@)
    } else {
        let segs = real_segs(split(t, '/'));
        if segs.contains(".."@) {
            None
        } else if segs.len() == 0 {
            Some("index.html"@)
        } else {
            Some(join(segs, "/"@))
        }
    }
}

/// The relative asset path a frontend request maps to, or `None` when it
/// would climb out with `..`.
#[verifier::loop_isolation(false)]
pub fn sanitize_frontend_path(path: &str) -> (r: Option<String>)
    ensures
        r matches Some(p) ==> frontend_path_spec(path@) == Some(p@),
        r is None ==> frontend_path_spec(path@) is None,
{
    let t = trim_start_matches_char(path, '/');
    if t.unicode_len() == 0 {
        return Some(String::from_str("index.html"));
    }
    let segs = path_components(t);
    let mut i: usize = 0;
    while i < segs.len()
        invariant
            i <= segs@.len(),
            forall|k: int| 0 <= k < i ==> views(segs@)[k] != ".."@,
        decreases segs@.len() - i,
    {
        if str_eq(segs[i].as_str(), "..") {
            proof {
                assert(views(segs@)[i as int] == ".."@);
            }
            return None;
        }
        i = i + 1;
    }
    proof {
        assert(!views(segs@).contains(".."@));
    }
    if segs.len() == 0 {
        return Some(String::from_str("index.html"));
    }
    Some(join_strings(&segs, "/"))
}

/// A relative path in normal form: not empty, not starting or ending with
/// `/`, and made of components that are neither empty, `.` nor `..`.
pub open spec fn normal_relative(p: Seq<char>) -> bool {
    &&& p.len() > 0
    &&& p[0] != '/'
    &&& p.last() != '/'
    &&& forall|k: int|
        0 <= k < split(p, '/').len() ==> {
            let c = #[trigger] split(p, '/')[k];
            c.len() > 0 && c != "."@ && c != ".."@
        }
}

/// The text holds no `c`.
pub open spec fn free_of(s: Seq<char>, c: char) -> bool {
    forall|i: int| 0 <= i < s.len() ==> #[trigger] s[i] != c
}

/// A text without `c` splits into itself alone.
proof fn lemma_split_free(s: Seq<char>, c: char)
    requires
        free_of(s, c),
    ensures
        split(s, c) == seq![s],
    decreases s.len(),
{
    if s.len() > 0 {
        let e = s.drop_last();
        assert(free_of(e, c)) by {
            assert forall|i: int| 0 <= i < e.len() implies #[trigger] e[i] != c by {
                assert(e[i] == s[i]);
            }
        }
        lemma_split_free(e, c);
        assert(s[s.len() - 1] != c);
        assert(e.push(s.last()) =~= s);
        assert(split(s, c) =~= seq![s]);
    } else {
        assert(s =~= Seq::<char>::empty());
    }
}

/// Splitting `x`, `c`, `y` (with no `c` in `y`) gives the pieces of `x`
/// and then `y`.
proof fn lemma_split_append(x: Seq<char>, c: char, y: Seq<char>)
    requires
        free_of(y, c),
    ensures
        split(x + seq![c] + y, c) == split(x, c).push(y),
    decreases y.len(),
{
    let w = x + seq![c] + y;
    if y.len() == 0 {
        assert(w.drop_last() =~= x);
        assert(y =~= Seq::<char>::empty());
    } else {
        let y0 = y.drop_last();
        assert(free_of(y0, c)) by {
            assert forall|i: int| 0 <= i < y0.len() implies #[trigger] y0[i] != c by {
                assert(y0[i] == y[i]);
            }
        }
        lemma_split_append(x, c, y0);
        assert(w.drop_last() =~= x + seq![c] + y0);
        assert(w.last() == y.last());
        assert(y.last() != c);
        crate::text::lemma_split_nonempty(x, c);
        assert(y0.push(y.last()) =~= y);
        assert(split(w, c) =~= split(x, c).push(y));
    }
}

/// Joining pieces free of `/` with `/` splits back into those pieces.
proof fn lemma_split_join(ps: Seq<Seq<char>>)
    requires
        ps.len() > 0,
        forall|k: int| 0 <= k < ps.len() ==> free_of(#[trigger] ps[k], '/'),
    ensures
        split(join(ps, "/"@), '/') == ps,
    decreases ps.len(),
{
    reveal_strlit("/");
    if ps.len() == 1 {
        lemma_split_free(ps[0], '/');
        assert(ps =~= seq![ps[0]]);
    } else {
        let init = ps.drop_last();
        assert forall|k: int| 0 <= k < init.len() implies free_of(#[trigger] init[k], '/') by {
            assert(init[k] == ps[k]);
        }
        lemma_split_join(init);
        assert(free_of(ps[ps.len() - 1], '/'));
        lemma_split_append(join(init, "/"@), '/', ps.last());
        assert(join(ps, "/"@) == join(init, "/"@) + seq!['/'] + ps.last());
        assert(init.push(ps.last()) =~= ps);
    }
}

/// The pieces of a split hold no separator.
proof fn lemma_split_pieces_free(s: Seq<char>, c: char)
    ensures
        forall|k: int| 0 <= k < split(s, c).len() ==> free_of(#[trigger] split(s, c)[k], c),
    decreases s.len(),
{
    if s.len() > 0 {
        let e = s.drop_last();
        lemma_split_pieces_free(e, c);
        crate::text::lemma_split_nonempty(e, c);
        let p = split(e, c);
        let q = split(s, c);
        assert forall|k: int| 0 <= k < q.len() implies free_of(#[trigger] q[k], c) by {
            if s.last() == c {
                if k < p.len() {
                    assert(q[k] == p[k]);
                } else {
                    assert(q[k] =~= Seq::<char>::empty());
                }
            } else if k < p.len() - 1 {
                assert(q[k] == p[k]);
            } else {
                assert(q[k] == p[k].push(s.last()));
                assert(free_of(p[k], c));
                assert forall|i: int| 0 <= i < q[k].len() implies #[trigger] q[k][i] != c by {
                    if i < p[k].len() {
                        assert(q[k][i] == p[k][i]);
                    }
                }
            }
        }
    }
}

/// The components kept from pieces are pieces that are neither empty nor
/// `.`.
proof fn lemma_real_segs(ps: Seq<Seq<char>>)
    ensures
        forall|k: int| 0 <= k < real_segs(ps).len() ==> {
            let x = #[trigger] real_segs(ps)[k];
            x.len() > 0 && x != "."@ && ps.contains(x)
        },
    decreases ps.len(),
{
    if ps.len() > 0 {
        lemma_real_segs(ps.drop_last());
        let r = real_segs(ps);
        let r0 = real_segs(ps.drop_last());
        assert forall|k: int| 0 <= k < r.len() implies ({
            let x = #[trigger] r[k];
            x.len() > 0 && x != "."@ && ps.contains(x)
        }) by {
            if k < r0.len() {
                assert(r[k] == r0[k]);
                let x = r0[k];
                let j = choose|j: int| 0 <= j < ps.drop_last().len() && ps.drop_last()[j] == x;
                assert(ps[j] == x);
            } else {
                assert(r[k] == ps.last());
                assert(ps[ps.len() - 1] == ps.last());
            }
        }
    }
}

/// Every asset path a frontend request maps to is relative and in normal
/// form: it cannot climb out of the UI directory.
pub proof fn lemma_frontend_path_normal(path: Seq<char>)
    requires
        frontend_path_spec(path) is Some,
    ensures
        normal_relative(frontend_path_spec(path)->0),
{
    reveal_strlit("index.html");
    reveal_strlit(".");
    reveal_strlit("..");
    let t = trim_start_char(path, '/');
    let idx = "index.html"@;
    assert(free_of(idx, '/'));
    lemma_split_free(idx, '/');
    if t.len() == 0 {
        assert(split(idx, '/')[0] == idx);
    } else {
        let pieces = split(t, '/');
        let segs = real_segs(pieces);
        if segs.len() == 0 {
            assert(split(idx, '/')[0] == idx);
        } else {
            lemma_real_segs(pieces);
            lemma_split_pieces_free(t, '/');
            assert forall|k: int| 0 <= k < segs.len() implies free_of(#[trigger] segs[k], '/') by {
                let x = segs[k];
                assert(pieces.contains(x));
                let j = choose|j: int| 0 <= j < pieces.len() && pieces[j] == x;
                assert(free_of(pieces[j], '/'));
            }
            lemma_split_join(segs);
            let p = join(segs, "/"@);
            assert(split(p, '/') == segs);
            assert forall|k: int| 0 <= k < segs.len() implies (#[trigger] segs[k]) != ".."@ by {
                if segs[k] == ".."@ {
                    assert(segs.contains(".."@));
                }
            }
            lemma_join_ends(segs);
        }
    }
}

/// A join of non-empty pieces free of `/` neither starts nor ends with `/`
/// and is not empty.
proof fn lemma_join_ends(ps: Seq<Seq<char>>)
    requires
        ps.len() > 0,
        forall|k: int| 0 <= k < ps.len() ==> free_of(#[trigger] ps[k], '/') && ps[k].len() > 0,
    ensures
        join(ps, "/"@).len() > 0,
        join(ps, "/"@)[0] == ps[0][0],
        join(ps, "/"@).last() == ps.last().last(),
    decreases ps.len(),
{
    if ps.len() > 1 {
        let init = ps.drop_last();
        assert forall|k: int| 0 <= k < init.len() implies free_of(#[trigger] init[k], '/') && init[k].len() > 0 by {
            assert(init[k] == ps[k]);
        }
        lemma_join_ends(init);
        assert(init[0] == ps[0]);
    }
}

/// The content type served for an asset, by its lowercased extension.
pub open spec fn content_type_spec(path: Seq<char>) -> Seq<char> {
    let ext = match file_name_spec(path) {
        Some(n) => match extension_spec(n) {
            Some(e) => Some(lower(e)),
            None => None,
        },
        None => None,
    };
    match ext {
        Some(e) => if e == "html"@ {
            "text/html; charset=utf-8"@
        } else if e == "css"@ {
            "text/css; charset=utf-8"@
        } else if e == "js"@ {
            "application/javascript; charset=utf-8"@
        } else if e == "json"@ {
            "application/json; charset=utf-8"@
        } else if e == "svg"@ {
            "image/svg+xml"@
        } else if e == "png"@ {
            "image/png"@
        } else if e == "jpg"@ || e == "jpeg"@ {
            "image/jpeg"@
        } else if e == "ico"@ {
            "image/x-icon"@
        } else if e == "txt"@ {
            "text/plain; charset=utf-8"@
        } else if e == "webmanifest"@ {
            "application/manifest+json"@
        } else {
            "application/octet-stream"@
        },
        None => "application/octet-stream"@,
    }
}

/// The content type an asset is served with, by its lowercased extension.
pub fn content_type_for(path: &str) -> (r: &'static str)
    ensures
        r@ == content_type_spec(path@),
{
    let name = match path_file_name(path) {
        Some(n) => n,
        None => {
            return "application/octet-stream";
        },
    };
    let ext = match split_at_last_dot(name.as_str()) {
        Some((_, e)) => to_ascii_lowercase(e.as_str()),
        None => {
            return "application/octet-stream";
        },
    };
    let e = ext.as_str();
    if str_eq(e, "html") {
        "text/html; charset=utf-8"
    } else if str_eq(e, "css") {
        "text/css; charset=utf-8"
    } else if str_eq(e, "js") {
        "application/javascript; charset=utf-8"
    } else if str_eq(e, "json") {
        "application/json; charset=utf-8"
    } else if str_eq(e, "svg") {
        "image/svg+xml"
    } else if str_eq(e, "png") {
        "image/png"
    } else if str_eq(e, "jpg") || str_eq(e, "jpeg") {
        "image/jpeg"
    } else if str_eq(e, "ico") {
        "image/x-icon"
    } else if str_eq(e, "txt") {
        "text/plain; charset=utf-8"
    } else if str_eq(e, "webmanifest") {
        "application/manifest+json"
    } else {
        "application/octet-stream"
    }
}

/// The page paths the single-page frontend answers with its index.
pub open spec fn is_spa_page(path: Seq<char>) -> bool {
    ||| path == "/"@
    ||| path == "/index.html"@
    ||| path == "/manual"@
    ||| path == "/services"@
    ||| path == "/webhooks"@
    ||| path == "/events"@
    ||| path == "/tasks"@
    ||| path == "/maintenance"@
    ||| path == "/settings"@
    ||| path == "/401"@
}

/// The asset a `GET` or `HEAD` request for `path` is served from, if any.
pub open spec fn frontend_asset_spec(method: Seq<char>, path: Seq<char>) -> Option<Seq<char>> {
    if method != "GET"@ && method != "HEAD"@ {
        None
    } else if is_spa_page(path) {
        Some("index.html"@)
    } else if starts_with(path, "/assets/"@) {
        frontend_path_spec(path)
    } else if path == "/mockServiceWorker.js"@ {
        Some("mockServiceWorker.js"@)
    } else if path == "/vite.svg"@ {
        Some("vite.svg"@)
    } else if path == "/favicon.ico"@ {
        Some("favicon.ico"@)
    } else {
        None
    }
}

/// The asset that answers a frontend request.
pub fn frontend_asset(method: &str, path: &str) -> (r: Option<String>)
    ensures
        r matches Some(a) ==> frontend_asset_spec(method@, path@) == Some(a@),
        r is None ==> frontend_asset_spec(method@, path@) is None,
{
    if !str_eq(method, "GET") && !str_eq(method, "HEAD") {
        return None;
    }
    if str_eq(path, "/") || str_eq(path, "/index.html") || str_eq(path, "/manual") || str_eq(
        path,
        "/services",
    ) || str_eq(path, "/webhooks") || str_eq(path, "/events") || str_eq(path, "/tasks")
        || str_eq(path, "/maintenance") || str_eq(path, "/settings") || str_eq(path, "/401") {
        return Some(String::from_str("index.html"));
    }
    if str_starts_with(path, "/assets/") {
        return sanitize_frontend_path(path);
    }
    if str_eq(path, "/mockServiceWorker.js") {
        Some(String::from_str("mockServiceWorker.js"))
    } else if str_eq(path, "/vite.svg") {
        Some(String::from_str("vite.svg"))
    } else if str_eq(path, "/favicon.ico") {
        Some(String::from_str("favicon.ico"))
    } else {
        None
    }
}

/// The handler a request goes to.
#[derive(Clone, Copy, Debug, PartialEq, Eq, Structural)]
pub enum Route {
    Health,
    HelloSse,
    TaskLogsSse,
    ConfigApi,
    VersionCheckApi,
    SettingsApi,
    EventsApi,
    TasksApi,
    WebhooksStatus,
    ImageLocksApi,
    SelfUpdateRun,
    PruneState,
    DebugPayload,
    ManualApi,
    GithubWebhook,
    ManualAutoUpdate,
    Frontend,
}

/// The routing table of the server, checked in this order; what matches
/// nothing is left to the frontend.
pub open spec fn route_spec(method: Seq<char>, path: Seq<char>) -> Route {
    if method == "GET"@ && path == "/health"@ {
        Route::Health
    } else if method == "GET"@ && path == "/sse/hello"@ {
        Route::HelloSse
    } else if path == "/sse/task-logs"@ {
        Route::TaskLogsSse
    } else if path == "/api/config"@ {
        Route::ConfigApi
    } else if path == "/api/version/check"@ {
        Route::VersionCheckApi
    } else if path == "/api/settings"@ {
        Route::SettingsApi
    } else if path == "/api/events"@ {
        Route::EventsApi
    } else if path == "/api/tasks"@ || starts_with(path, "/api/tasks/"@) {
        Route::TasksApi
    } else if path == "/api/webhooks/status"@ {
        Route::WebhooksStatus
    } else if path == "/api/image-locks"@ || starts_with(path, "/api/image-locks/"@) {
        Route::ImageLocksApi
    } else if path == "/api/self-update/run"@ {
        Route::SelfUpdateRun
    } else if path == "/api/prune-state"@ {
        Route::PruneState
    } else if path == "/last_payload.bin"@ {
        Route::DebugPayload
    } else if starts_with(path, "/api/manual/"@) {
        Route::ManualApi
    } else if is_github_route_spec(path) {
        Route::GithubWebhook
    } else if path == "/auto-update"@ {
        Route::ManualAutoUpdate
    } else {
        Route::Frontend
    }
}

/// Routes a request (the dispatch of a connection).
pub fn route_request(method: &str, path: &str) -> (r: Route)
    ensures
        r == route_spec(method@, path@),
{
    let get = str_eq(method, "GET");
    if get && str_eq(path, "/health") {
        Route::Health
    } else if get && str_eq(path, "/sse/hello") {
        Route::HelloSse
    } else if str_eq(path, "/sse/task-logs") {
        Route::TaskLogsSse
    } else if str_eq(path, "/api/config") {
        Route::ConfigApi
    } else if str_eq(path, "/api/version/check") {
        Route::VersionCheckApi
    } else if str_eq(path, "/api/settings") {
        Route::SettingsApi
    } else if str_eq(path, "/api/events") {
        Route::EventsApi
    } else if str_eq(path, "/api/tasks") || str_starts_with(path, "/api/tasks/") {
        Route::TasksApi
    } else if str_eq(path, "/api/webhooks/status") {
        Route::WebhooksStatus
    } else if str_eq(path, "/api/image-locks") || str_starts_with(path, "/api/image-locks/") {
        Route::ImageLocksApi
    } else if str_eq(path, "/api/self-update/run") {
        Route::SelfUpdateRun
    } else if str_eq(path, "/api/prune-state") {
        Route::PruneState
    } else if str_eq(path, "/last_payload.bin") {
        Route::DebugPayload
    } else if str_starts_with(path, "/api/manual/") {
        Route::ManualApi
    } else if is_github_route(path) {
        Route::GithubWebhook
    } else if str_eq(path, "/auto-update") {
        Route::ManualAutoUpdate
    } else {
        Route::Frontend
    }
}

/// Where the reading of a chunked body stands; each phase names the read
/// that comes next.
#[derive(Clone, Copy, Debug, PartialEq, Eq, Structural)]
pub enum ChunkPhase {
    /// Read a chunk-size line.
    SizeLine,
    /// Read exactly this many bytes of chunk data.
    Data(usize),
    /// Read the two bytes that end a chunk.
    Terminator,
    /// Read a trailer line; a blank one ends the body.
    Trailer,
}

/// The result of the read a phase asked for.
pub enum ChunkRead {
    /// A line (`read_line`), or the error reading it.
    Line(Result<String, String>),
    /// Exactly the bytes asked for (`read_exact`), or the error reading them.
    Bytes(Result<Vec<u8>, String>),
}

/// What reading a chunked body does next.
pub enum ChunkStep {
    /// Go on with this phase.
    Next(ChunkPhase),
    /// The body is complete.
    Done,
    /// The body cannot be read; the error.
    Fail(String),
}

/// The plain shape of a step.
pub enum ChunkStepView {
    Next(ChunkPhase),
    Done,
    Fail(Seq<char>),
}

/// The view of a step.
pub open spec fn chunk_step_view(s: ChunkStep) -> ChunkStepView {
    match s {
        ChunkStep::Next(p) => ChunkStepView::Next(p),
        ChunkStep::Done => ChunkStepView::Done,
        ChunkStep::Fail(e) => ChunkStepView::Fail(e@),
    }
}

/// Reading a chunked body, one read at a time: blank size lines are skipped;
/// a size line in hexadecimal announces that many bytes of data, then the
/// two-byte terminator; size zero leads to the trailer lines, which end
/// at a blank one. Every read error, and a size that does not parse, ends
/// the body with its message. The data read is appended to the body, and
/// nothing else is.
pub open spec fn chunk_step_spec(phase: ChunkPhase, read: ChunkRead) -> ChunkStepView {
    match (phase, read) {
        (ChunkPhase::SizeLine, ChunkRead::Line(Err(e))) => ChunkStepView::Fail("failed to read chunk size: "@ + e@),
        (ChunkPhase::SizeLine, ChunkRead::Line(Ok(l))) => match chunk_size_spec(l@) {
            None => ChunkStepView::Next(ChunkPhase::SizeLine),
            Some(Err(reason)) => ChunkStepView::Fail(chunk_error_message(l@, reason)),
            Some(Ok(n)) => if n == 0 {
                ChunkStepView::Next(ChunkPhase::Trailer)
            } else {
                ChunkStepView::Next(ChunkPhase::Data(n))
            },
        },
        (ChunkPhase::Data(_), ChunkRead::Bytes(Err(e))) => ChunkStepView::Fail("failed to read chunk body: "@ + e@),
        (ChunkPhase::Data(_), ChunkRead::Bytes(Ok(_))) => ChunkStepView::Next(ChunkPhase::Terminator),
        (ChunkPhase::Terminator, ChunkRead::Bytes(Err(e))) => ChunkStepView::Fail(
            "failed to read chunk terminator: "@ + e@,
        ),
        (ChunkPhase::Terminator, ChunkRead::Bytes(Ok(_))) => ChunkStepView::Next(ChunkPhase::SizeLine),
        (ChunkPhase::Trailer, ChunkRead::Line(Err(e))) => ChunkStepView::Fail("failed to read chunk trailer: "@ + e@),
        (ChunkPhase::Trailer, ChunkRead::Line(Ok(l))) => if trim(l@).len() == 0 {
            ChunkStepView::Done
        } else {
            ChunkStepView::Next(ChunkPhase::Trailer)
        },
        (p, _) => ChunkStepView::Next(p),
    }
}

/// The bytes a read adds to the body: the data of a chunk.
pub open spec fn chunk_data_spec(phase: ChunkPhase, read: ChunkRead) -> Seq<u8> {
    match (phase, read) {
        (ChunkPhase::Data(_), ChunkRead::Bytes(Ok(b))) => b@,
        _ => Seq::<u8>::empty(),
    }
}

/// One step of reading a chunked body: the body grows by the chunk data
/// read, and the next phase (or the end) follows.
pub fn chunk_step(phase: ChunkPhase, read: ChunkRead, body: &mut Vec<u8>) -> (r: ChunkStep)
    ensures
        chunk_step_view(r) == chunk_step_spec(phase, read),
        final(body)@ == old(body)@ + chunk_data_spec(phase, read),
{
    match (phase, read) {
        (ChunkPhase::SizeLine, ChunkRead::Line(Err(e))) => ChunkStep::Fail(concat("failed to read chunk size: ", e.as_str())),
        (ChunkPhase::SizeLine, ChunkRead::Line(Ok(l))) => {
            proof {
                assert(old(body)@ + Seq::<u8>::empty() =~= old(body)@);
            }
            match parse_chunk_size_line(l.as_str()) {
                ChunkLine::Blank => ChunkStep::Next(ChunkPhase::SizeLine),
                ChunkLine::Invalid(m) => ChunkStep::Fail(m),
                ChunkLine::Size(n) => if n == 0 {
                    ChunkStep::Next(ChunkPhase::Trailer)
                } else {
                    ChunkStep::Next(ChunkPhase::Data(n))
                },
            }
        },
        (ChunkPhase::Data(_), ChunkRead::Bytes(Err(e))) => ChunkStep::Fail(concat("failed to read chunk body: ", e.as_str())),
        (ChunkPhase::Data(_), ChunkRead::Bytes(Ok(b))) => {
            let mut i: usize = 0;
            let ghost start = body@;
            while i < b.len()
                invariant
                    i <= b@.len(),
                    body@ == start + b@.take(i as int),
                decreases b@.len() - i,
            {
                body.push(b[i]);
                proof {
                    assert(b@.take(i + 1) =~= b@.take(i as int).push(b@[i as int]));
                }
                i = i + 1;
            }
            proof {
                assert(b@.take(b@.len() as int) =~= b@);
            }
            ChunkStep::Next(ChunkPhase::Terminator)
        },
        (ChunkPhase::Terminator, ChunkRead::Bytes(Err(e))) => ChunkStep::Fail(
            concat("failed to read chunk terminator: ", e.as_str()),
        ),
        (ChunkPhase::Terminator, ChunkRead::Bytes(Ok(_))) => {
            proof {
                assert(old(body)@ + Seq::<u8>::empty() =~= old(body)@);
            }
            ChunkStep::Next(ChunkPhase::SizeLine)
        },
        (ChunkPhase::Trailer, ChunkRead::Line(Err(e))) => ChunkStep::Fail(concat("failed to read chunk trailer: ", e.as_str())),
        (ChunkPhase::Trailer, ChunkRead::Line(Ok(l))) => {
            proof {
                assert(old(body)@ + Seq::<u8>::empty() =~= old(body)@);
            }
            if trim_str(l.as_str()).unicode_len() == 0 {
                ChunkStep::Done
            } else {
                ChunkStep::Next(ChunkPhase::Trailer)
            }
        },
        (p, _) => {
            proof {
                assert(old(body)@ + Seq::<u8>::empty() =~= old(body)@);
            }
            ChunkStep::Next(p)
        },
    }
}

} // verus!
