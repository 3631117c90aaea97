//! The metadata recorded with task logs: JSON objects read as maps from
//! member names to values, and how they are combined.

use vstd::prelude::*;
use crate::text::{str_eq, owned};
use crate::json::{Json, obj_get};
use crate::host::CommandExecResult;

verus! {

/// `obj_get` on two lists of members, one after the other.
pub proof fn lemma_obj_get_concat(a: Seq<(String, Json)>, b: Seq<(String, Json)>, k: Seq<char>)
    ensures
        obj_get(a + b, k) == (match obj_get(a, k) {
            Some(v) => Some(v),
            None => obj_get(b, k),
        }),
    decreases a.len(),
{
    if a.len() > 0 {
        lemma_obj_get_concat(a.drop_first(), b, k);
        assert((a + b).drop_first() =~= a.drop_first() + b);
        assert((a + b)[0] == a[0]);
    } else {
        assert(a + b =~= b);
    }
}

/// Replacing the first member named `k` changes what `k` reads and
/// nothing else.
proof fn lemma_obj_get_update(m: Seq<(String, Json)>, i: int, e: (String, Json), k: Seq<char>)
    requires
        0 <= i < m.len(),
        m[i].0@ == e.0@,
        forall|j: int| 0 <= j < i ==> m[j].0@ != e.0@,
    ensures
        obj_get(m.update(i, e), k) == (if k == e.0@ {
            Some(e.1)
        } else {
            obj_get(m, k)
        }),
    decreases i,
{
    let t = m.update(i, e);
    if i == 0 {
        assert(t.drop_first() =~= m.drop_first());
        assert(t[0] == e);
    } else {
        assert(t.drop_first() =~= m.drop_first().update(i - 1, e));
        assert forall|j: int| 0 <= j < i - 1 implies m.drop_first()[j].0@ != e.0@ by {
            assert(m.drop_first()[j] == m[j + 1]);
        }
        lemma_obj_get_update(m.drop_first(), i - 1, e, k);
        assert(t[0] == m[0]);
    }
}

/// A member added at the end is read only when no earlier member has its
/// name.
proof fn lemma_obj_get_push(m: Seq<(String, Json)>, e: (String, Json), k: Seq<char>)
    ensures
        obj_get(m.push(e), k) == (match obj_get(m, k) {
            Some(v) => Some(v),
            None => if e.0@ == k {
                Some(e.1)
            } else {
                None
            },
        }),
{
    let one = seq![e];
    lemma_obj_get_concat(m, one, k);
    assert(m.push(e) =~= m + one);
    assert(one[0] == e);
    assert(one.drop_first() =~= Seq::<(String, Json)>::empty());
    assert(obj_get(one.drop_first(), k) is None);
}

/// Sets the member `k` to `v`: the first member of that name is replaced,
/// or one is added at the end. Afterwards `k` reads `v` and every other
/// name reads what it read before.
pub fn obj_set(m: &mut Vec<(String, Json)>, k: &str, v: Json)
    ensures
        forall|x: Seq<char>| #[trigger] obj_get(final(m)@, x) == (if x == k@ {
            Some(v)
        } else {
            obj_get(old(m)@, x)
        }),
{
    let mut i: usize = 0;
    while i < m.len()
        invariant
            i <= m@.len(),
            m@ == old(m)@,
            forall|j: int| 0 <= j < i ==> m@[j].0@ != k@,
        decreases m@.len() - i,
    {
        if str_eq(m[i].0.as_str(), k) {
            let ghost before = m@;
            let e = (owned(k), v);
            proof {
                assert forall|x: Seq<char>| #[trigger] obj_get(before.update(i as int, e), x) == (if x == k@ {
                    Some(v)
                } else {
                    obj_get(before, x)
                }) by {
                    lemma_obj_get_update(before, i as int, e, x);
                }
            }
            m.set(i, e);
            return;
        }
        i = i + 1;
    }
    let ghost before = m@;
    let e = (owned(k), v);
    proof {
        assert forall|x: Seq<char>| #[trigger] obj_get(before.push(e), x) == (if x == k@ {
            Some(v)
        } else {
            obj_get(before, x)
        }) by {
            lemma_obj_get_push(before, e, x);
            if x == k@ {
                if obj_get(before, x) is Some {
                    lemma_obj_get_found(before, x);
                }
            }
        }
    }
    m.push(e);
}

/// A name that `obj_get` finds is the name of some member.
proof fn lemma_obj_get_found(m: Seq<(String, Json)>, k: Seq<char>)
    requires
        obj_get(m, k) is Some,
    ensures
        exists|j: int| 0 <= j < m.len() && m[j].0@ == k,
    decreases m.len(),
{
    if m[0].0@ != k {
        lemma_obj_get_found(m.drop_first(), k);
        let j = choose|j: int| 0 <= j < m.drop_first().len() && m.drop_first()[j].0@ == k;
        assert(m[j + 1] == m.drop_first()[j]);
    }
}

/// The last member named `k` among the first `n`.
pub open spec fn obj_get_last(m: Seq<(String, Json)>, k: Seq<char>, n: int) -> Option<Json>
    decreases n,
{
    if n <= 0 {
        None
    } else if m[n - 1].0@ == k {
        Some(m[n - 1].1)
    } else {
        obj_get_last(m, k, n - 1)
    }
}

/// What `merge_meta` leaves under a name: objects combine with `extra`
/// winning (its last member of a name counts); any other non-null `extra`
/// is kept under `extra`; otherwise the base stays as it is.
pub open spec fn merged_get(base: Seq<(String, Json)>, extra: Json, k: Seq<char>) -> Option<Json> {
    match extra {
        Json::Object(em) => match obj_get_last(em@, k, em@.len() as int) {
            Some(v) => Some(v),
            None => obj_get(base, k),
        },
        Json::Null => obj_get(base, k),
        _ => if k == "extra"@ {
            Some(extra)
        } else {
            obj_get(base, k)
        },
    }
}

/// Merging task metadata: adds `extra` to an object `base`; a `base` that is
/// not an object is returned unchanged.
pub fn merge_meta(base: Json, extra: Json) -> (r: Json)
    ensures
        match base {
            Json::Object(bm) => r matches Json::Object(rm) && forall|k: Seq<char>| #[trigger] obj_get(rm@, k)
                == merged_get(bm@, extra, k),
            _ => r == base,
        },
{
    let mut bm = match base {
        Json::Object(bm) => bm,
        other => {
            return other;
        },
    };
    let ghost b0 = bm@;
    let ghost extra0 = extra;
    match extra {
        Json::Object(em) => {
            let ghost e0 = em@;
            let n = em.len();
            let mut rest = em;
            let mut i: usize = 0;
            while rest.len() > 0
                invariant
                    e0.len() == n,
                    i + rest@.len() == e0.len(),
                    rest@ == e0.skip(i as int),
                    forall|k: Seq<char>| #[trigger] obj_get(bm@, k) == (match obj_get_last(e0, k, i as int) {
                        Some(v) => Some(v),
                        None => obj_get(b0, k),
                    }),
                decreases rest@.len(),
            {
                let (key, val) = rest.remove(0);
                proof {
                    assert(e0[i as int] == (key, val));
                    assert(rest@ =~= e0.skip(i + 1));
                }
                let ghost before = bm@;
                obj_set(&mut bm, key.as_str(), val);
                i = i + 1;
            }
            proof {
                assert(i == e0.len());
            }
            Json::Object(bm)
        },
        Json::Null => Json::Object(bm),
        other => {
            obj_set(&mut bm, "extra", other);
            Json::Object(bm)
        },
    }
}

/// What `merge_missing` leaves under a name: the base's member, else the
/// first one of `extra`.
pub open spec fn missing_get(base: Seq<(String, Json)>, extra: Seq<(String, Json)>, k: Seq<char>) -> Option<Json> {
    match obj_get(base, k) {
        Some(v) => Some(v),
        None => obj_get(extra, k),
    }
}

/// Adds the members of `extra` whose names the object lacks (the fields
/// already there are kept).
pub fn merge_missing(m: &mut Vec<(String, Json)>, extra: Vec<(String, Json)>)
    ensures
        forall|k: Seq<char>| #[trigger] obj_get(final(m)@, k) == missing_get(old(m)@, extra@, k),
{
    let ghost b0 = m@;
    let ghost e0 = extra@;
    let n = extra.len();
    let mut rest = extra;
    let mut i: usize = 0;
    proof {
        assert(e0.take(0) =~= Seq::<(String, Json)>::empty());
    }
    while rest.len() > 0
        invariant
            e0.len() == n,
            i + rest@.len() == e0.len(),
            rest@ == e0.skip(i as int),
            forall|k: Seq<char>| #[trigger] obj_get(m@, k) == missing_get(b0, e0.take(i as int), k),
        decreases rest@.len(),
    {
        let (key, val) = rest.remove(0);
        proof {
            assert(e0[i as int] == (key, val));
            assert(rest@ =~= e0.skip(i + 1));
            assert(e0.take(i + 1) =~= e0.take(i as int).push((key, val)));
            assert forall|k: Seq<char>| #[trigger] missing_get(b0, e0.take(i + 1), k) == (match missing_get(
                b0,
                e0.take(i as int),
                k,
            ) {
                Some(v) => Some(v),
                None => if key@ == k {
                    Some(val)
                } else {
                    None
                },
            }) by {
                lemma_obj_get_push(e0.take(i as int), (key, val), k);
            }
        }
        if !has_member(m, key.as_str()) {
            obj_set(m, key.as_str(), val);
        }
        i = i + 1;
    }
    proof {
        assert(e0.take(i as int) =~= e0);
    }
}

/// Whether an object has a member of this name.
fn has_member(m: &Vec<(String, Json)>, k: &str) -> (r: bool)
    ensures
        r == obj_get(m@, k@) is Some,
{
    crate::json::obj_lookup(m, k).is_some()
}

} // verus!
