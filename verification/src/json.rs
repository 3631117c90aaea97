//! JSON documents as plain values, and JSON Pointer lookups on them.

use vstd::prelude::*;
use crate::text::{trim, trim_str, str_eq, split, split_char, views, replace_all, replace_str, parse_u64, parse_u64_str};

verus! {

/// A JSON value. Object members keep the order they were read in, and each
/// key occurs once.
#[derive(Debug)]
pub enum Json {
    Null,
    Bool(bool),
    Number(String),
    Str(String),
    Array(Vec<Json>),
    Object(Vec<(String, Json)>),
}

/// The member named `k` of an object.
pub open spec fn obj_get(m: Seq<(String, Json)>, k: Seq<char>) -> Option<Json>
    decreases m.len(),
{
    if m.len() == 0 {
        None
    } else if m[0].0@ == k {
        Some(m[0].1)
    } else {
        obj_get(m.drop_first(), k)
    }
}

/// A pointer token with `~1` read as `/` and `~0` as `~`.
pub open spec fn unescape_token(t: Seq<char>) -> Seq<char> {
    replace_all(replace_all(t, "~1"@, "/"@), "~0"@, "~"@)
}

/// An array index token: decimal digits without a sign or leading zero.
pub open spec fn index_token(t: Seq<char>) -> Option<usize> {
    if t.len() > 0 && (t[0] == '+' || (t[0] == '0' && t.len() != 1)) {
        None
    } else {
        match parse_u64(t) {
            Some(n) => if n <= usize::MAX {
                Some(n as usize)
            } else {
                None
            },
            None => None,
        }
    }
}

/// One step down a JSON value: an object member or an array element.
pub open spec fn json_step(j: Json, tok: Seq<char>) -> Option<Json> {
    match j {
        Json::Object(m) => obj_get(m@, tok),
        Json::Array(l) => match index_token(tok) {
            Some(i) => if i < l@.len() {
                Some(l@[i as int])
            } else {
                None
            },
            None => None,
        },
        _ => None,
    }
}

/// Follows tokens down a JSON value.
pub open spec fn json_walk(j: Json, toks: Seq<Seq<char>>) -> Option<Json>
    decreases toks.len(),
{
    if toks.len() == 0 {
        Some(j)
    } else {
        match json_step(j, toks[0]) {
            Some(c) => json_walk(c, toks.drop_first()),
            None => None,
        }
    }
}

/// The value a JSON Pointer (RFC 6901) names: the whole value for the empty
/// pointer; else the `/`-separated, unescaped tokens followed from the top.
pub open spec fn pointer_spec(j: Json, p: Seq<char>) -> Option<Json> {
    if p.len() == 0 {
        Some(j)
    } else if p[0] != '/' {
        None
    } else {
        json_walk(j, split(p, '/').drop_first().map_values(|t: Seq<char>| unescape_token(t)))
    }
}

/// Looks an object member up.
pub fn obj_lookup<'a>(m: &'a Vec<(String, Json)>, k: &str) -> (r: Option<&'a Json>)
    ensures
        r matches Some(c) ==> obj_get(m@, k@) == Some(*c),
        r is None ==> obj_get(m@, k@) is None,
{
    let mut i: usize = 0;
    proof {
        assert(m@.skip(0) =~= m@);
    }
    while i < m.len()
        invariant
            i <= m@.len(),
            obj_get(m@, k@) == obj_get(m@.skip(i as int), k@),
        decreases m@.len() - i,
    {
        proof {
            assert(m@.skip(i as int).drop_first() =~= m@.skip(i + 1));
            assert(m@.skip(i as int)[0] == m@[i as int]);
        }
        if str_eq(m[i].0.as_str(), k) {
            return Some(&m[i].1);
        }
        i = i + 1;
    }
    None
}

/// Reads an array index token.
fn parse_index(t: &str) -> (r: Option<usize>)
    ensures
        r == index_token(t@),
{
    let n = t.unicode_len();
    if n > 0 && (t.get_char(0) == '+' || (t.get_char(0) == '0' && n != 1)) {
        return None;
    }
    match parse_u64_str(t) {
        Some(v) => if v <= usize::MAX as u64 {
            Some(v as usize)
        } else {
            None
        },
        None => None,
    }
}

/// One step down a JSON value.
pub fn json_get<'a>(j: &'a Json, tok: &str) -> (r: Option<&'a Json>)
    ensures
        r matches Some(c) ==> json_step(*j, tok@) == Some(*c),
        r is None ==> json_step(*j, tok@) is None,
{
    match j {
        Json::Object(m) => obj_lookup(m, tok),
        Json::Array(l) => match parse_index(tok) {
            Some(i) => if i < l.len() {
                Some(&l[i])
            } else {
                None
            },
            None => None,
        },
        _ => None,
    }
}

/// `Value::pointer`: the value a JSON Pointer names.
pub fn json_pointer<'a>(j: &'a Json, p: &str) -> (r: Option<&'a Json>)
    ensures
        r matches Some(c) ==> pointer_spec(*j, p@) == Some(*c),
        r is None ==> pointer_spec(*j, p@) is None,
{
    let n = p.unicode_len();
    if n == 0 {
        return Some(j);
    }
    if p.get_char(0) != '/' {
        return None;
    }
    let parts = split_char(p, '/');
    let ghost toks = views(parts@).drop_first().map_values(|t: Seq<char>| unescape_token(t));
    proof {
        crate::text::lemma_split_nonempty(p@, '/');
    }
    let mut cur: &'a Json = j;
    let mut i: usize = 1;
    proof {
        assert(toks.skip(0) =~= toks);
    }
    while i < parts.len()
        invariant
            1 <= i <= parts@.len(),
            p@.len() > 0,
            p@[0] == '/',
            views(parts@) == split(p@, '/'),
            toks == views(parts@).drop_first().map_values(|t: Seq<char>| unescape_token(t)),
            toks.len() == parts@.len() - 1,
            json_walk(*j, toks) == json_walk(*cur, toks.skip(i - 1)),
        decreases parts@.len() - i,
    {
        proof {
            reveal_strlit("~1");
            reveal_strlit("~0");
        }
        let a = replace_str(parts[i].as_str(), "~1", "/");
        let tok = replace_str(a.as_str(), "~0", "~");
        proof {
            assert(views(parts@)[i as int] == parts@[i as int]@);
            assert(toks[i - 1] == tok@);
            assert(toks.skip(i - 1)[0] == tok@);
            assert(toks.skip(i - 1).drop_first() =~= toks.skip(i as int));
        }
        match json_get(cur, tok.as_str()) {
            Some(c) => {
                cur = c;
            },
            None => {
                return None;
            },
        }
        i = i + 1;
    }
    proof {
        assert(toks.skip(i - 1) =~= Seq::<Seq<char>>::empty());
    }
    Some(cur)
}

/// The trimmed string a pointer names, when it names a string
/// (`pointer_as_str`).
pub open spec fn str_at(j: Json, p: Seq<char>) -> Option<Seq<char>> {
    match pointer_spec(j, p) {
        Some(Json::Str(s)) => Some(trim(s@)),
        _ => None,
    }
}

/// The text a JSON pointer leads to, when it leads to a string.
pub fn pointer_as_str<'a>(j: &'a Json, p: &str) -> (r: Option<&'a str>)
    ensures
        r matches Some(s) ==> str_at(*j, p@) == Some(s@),
        r is None ==> str_at(*j, p@) is None,
{
    match json_pointer(j, p) {
        Some(Json::Str(s)) => Some(trim_str(s.as_str())),
        _ => None,
    }
}

/// The string of a member, untrimmed, when the value is an object with a
/// string member `k` (`value.get(k).and_then(as_str)`).
pub open spec fn member_str(j: Json, k: Seq<char>) -> Option<Seq<char>> {
    match j {
        Json::Object(m) => match obj_get(m@, k) {
            Some(Json::Str(s)) => Some(s@),
            _ => None,
        },
        _ => None,
    }
}

/// `value.get(k).and_then(Value::as_str)`.
pub fn get_member_str<'a>(j: &'a Json, k: &str) -> (r: Option<&'a str>)
    ensures
        r matches Some(s) ==> member_str(*j, k@) == Some(s@),
        r is None ==> member_str(*j, k@) is None,
{
    match j {
        Json::Object(m) => match obj_lookup(m, k) {
            Some(Json::Str(s)) => Some(s.as_str()),
            _ => None,
        },
        _ => None,
    }
}

} // verus!
