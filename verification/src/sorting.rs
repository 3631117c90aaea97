//! The order of strings (character by character, as `str`'s `Ord` orders
//! them) and sorting a list of strings with repeats removed.

use vstd::prelude::*;
use crate::text::{views, owned, str_eq};

verus! {

/// `a` sorts strictly before `b`: at the first position where they differ
/// `a` has the smaller character, or `a` is a proper prefix of `b`.
pub open spec fn str_lt(a: Seq<char>, b: Seq<char>) -> bool
    decreases a.len(),
{
    if a.len() == 0 {
        b.len() > 0
    } else if b.len() == 0 {
        false
    } else if a[0] != b[0] {
        a[0] < b[0]
    } else {
        str_lt(a.drop_first(), b.drop_first())
    }
}

/// No string sorts before itself.
pub proof fn lemma_str_lt_irreflexive(a: Seq<char>)
    ensures
        !str_lt(a, a),
    decreases a.len(),
{
    if a.len() > 0 {
        lemma_str_lt_irreflexive(a.drop_first());
    }
}

/// The order is transitive.
pub proof fn lemma_str_lt_transitive(a: Seq<char>, b: Seq<char>, c: Seq<char>)
    requires
        str_lt(a, b),
        str_lt(b, c),
    ensures
        str_lt(a, c),
    decreases a.len(),
{
    if a.len() > 0 && b.len() > 0 && c.len() > 0 && a[0] == b[0] && b[0] == c[0] {
        lemma_str_lt_transitive(a.drop_first(), b.drop_first(), c.drop_first());
    }
}

/// Of two different strings exactly one sorts first.
pub proof fn lemma_str_lt_total(a: Seq<char>, b: Seq<char>)
    ensures
        a != b ==> str_lt(a, b) || str_lt(b, a),
        !(str_lt(a, b) && str_lt(b, a)),
    decreases a.len(),
{
    if a.len() > 0 && b.len() > 0 && a[0] == b[0] {
        lemma_str_lt_total(a.drop_first(), b.drop_first());
        if a.drop_first() == b.drop_first() {
            assert forall|k: int| 0 <= k < a.len() implies a[k] == b[k] by {
                if k > 0 {
                    assert(a[k] == a.drop_first()[k - 1]);
                    assert(b[k] == b.drop_first()[k - 1]);
                }
            }
            assert(a =~= b);
        }
    }
    if a.len() == 0 && b.len() == 0 {
        assert(a =~= b);
    }
}

/// Each string sorts strictly before the next, so none occurs twice.
pub open spec fn sorted_strictly(s: Seq<Seq<char>>) -> bool {
    forall|i: int, j: int| 0 <= i < j < s.len() ==> str_lt(s[i], s[j])
}

/// Two strictly sorted lists with the same strings are the same list: the
/// result of sorting and removing repeats depends on the set of strings
/// alone.
pub proof fn lemma_sorted_strictly_unique(s: Seq<Seq<char>>, t: Seq<Seq<char>>)
    requires
        sorted_strictly(s),
        sorted_strictly(t),
        forall|x: Seq<char>| s.contains(x) <==> t.contains(x),
    ensures
        s == t,
    decreases s.len(),
{
    if s.len() == 0 {
        if t.len() > 0 {
            assert(t.contains(t[0]));
        }
        assert(s =~= t);
    } else if t.len() == 0 {
        assert(s.contains(s[0]));
    } else {
        assert(s.contains(s[0]));
        assert(t.contains(t[0]));
        let a = choose|k: int| 0 <= k < t.len() && t[k] == s[0];
        let b = choose|k: int| 0 <= k < s.len() && s[k] == t[0];
        assert(s[0] == t[0]) by {
            if a > 0 && b > 0 {
                assert(str_lt(t[0], t[a]));
                assert(str_lt(s[0], s[b]));
                lemma_str_lt_total(s[0], t[0]);
            }
        }
        let s1 = s.drop_first();
        let t1 = t.drop_first();
        assert(sorted_strictly(s1)) by {
            assert forall|i: int, j: int| 0 <= i < j < s1.len() implies str_lt(s1[i], s1[j]) by {
                assert(s1[i] == s[i + 1] && s1[j] == s[j + 1]);
            }
        }
        assert(sorted_strictly(t1)) by {
            assert forall|i: int, j: int| 0 <= i < j < t1.len() implies str_lt(t1[i], t1[j]) by {
                assert(t1[i] == t[i + 1] && t1[j] == t[j + 1]);
            }
        }
        assert forall|x: Seq<char>| s1.contains(x) <==> t1.contains(x) by {
            if s1.contains(x) {
                let k = choose|k: int| 0 <= k < s1.len() && s1[k] == x;
                assert(s[k + 1] == x);
                assert(str_lt(s[0], x));
                assert(t.contains(x));
                let m = choose|m: int| 0 <= m < t.len() && t[m] == x;
                if m == 0 {
                    lemma_str_lt_irreflexive(x);
                }
                assert(t1[m - 1] == x);
            }
            if t1.contains(x) {
                let k = choose|k: int| 0 <= k < t1.len() && t1[k] == x;
                assert(t[k + 1] == x);
                assert(str_lt(t[0], x));
                assert(s.contains(x));
                let m = choose|m: int| 0 <= m < s.len() && s[m] == x;
                if m == 0 {
                    lemma_str_lt_irreflexive(x);
                }
                assert(s1[m - 1] == x);
            }
        }
        lemma_sorted_strictly_unique(s1, t1);
        assert forall|k: int| 0 <= k < s.len() implies s[k] == t[k] by {
            if k > 0 {
                assert(s[k] == s1[k - 1]);
                assert(t[k] == t1[k - 1]);
            }
        }
        assert(s =~= t);
    }
}

/// Whether `a` sorts strictly before `b`.
pub fn str_less(a: &str, b: &str) -> (r: bool)
    ensures
        r == str_lt(a@, b@),
{
    let n = a.unicode_len();
    let m = b.unicode_len();
    let mut i: usize = 0;
    proof {
        assert(a@.skip(0) =~= a@);
        assert(b@.skip(0) =~= b@);
    }
    while i < n && i < m
        invariant
            i <= n,
            i <= m,
            n == a@.len(),
            m == b@.len(),
            str_lt(a@, b@) == str_lt(a@.skip(i as int), b@.skip(i as int)),
        decreases n - i,
    {
        let x = a.get_char(i);
        let y = b.get_char(i);
        proof {
            assert(a@.skip(i as int)[0] == x);
            assert(b@.skip(i as int)[0] == y);
        }
        if x != y {
            return x < y;
        }
        proof {
            assert(a@.skip(i as int).drop_first() =~= a@.skip(i + 1));
            assert(b@.skip(i as int).drop_first() =~= b@.skip(i + 1));
        }
        i = i + 1;
    }
    i == n && i < m
}

/// Inserting `x` where everything before sorts below it and the element
/// there sorts above it keeps a list strictly sorted.
proof fn lemma_insert_sorted(s: Seq<Seq<char>>, j: int, x: Seq<char>)
    requires
        sorted_strictly(s),
        0 <= j <= s.len(),
        forall|k: int| 0 <= k < j ==> str_lt(s[k], x),
        j < s.len() ==> str_lt(x, s[j]),
    ensures
        sorted_strictly(s.insert(j, x)),
{
    let t = s.insert(j, x);
    assert forall|p: int, q: int| 0 <= p < q < t.len() implies str_lt(t[p], t[q]) by {
        if q < j {
            assert(t[p] == s[p] && t[q] == s[q]);
        } else if q == j {
            assert(t[p] == s[p] && t[q] == x);
        } else if p < j {
            assert(t[p] == s[p] && t[q] == s[q - 1]);
        } else if p == j {
            assert(t[p] == x && t[q] == s[q - 1]);
            if q - 1 > j {
                lemma_str_lt_transitive(x, s[j], s[q - 1]);
            }
        } else {
            assert(t[p] == s[p - 1] && t[q] == s[q - 1]);
        }
    }
}

/// The strings in ascending order with repeats removed, as `sort` followed
/// by `dedup` leaves them.
pub fn sorted_unique(v: &[String]) -> (r: Vec<String>)
    ensures
        sorted_strictly(views(r@)),
        forall|x: Seq<char>| views(r@).contains(x) <==> views(v@).contains(x),
{
    let mut out: Vec<String> = Vec::new();
    let mut i: usize = 0;
    while i < v.len()
        invariant
            i <= v@.len(),
            sorted_strictly(views(out@)),
            forall|x: Seq<char>| views(out@).contains(x) <==> views(v@).take(i as int).contains(x),
        decreases v@.len() - i,
    {
        let x = v[i].as_str();
        let ghost old_out = views(out@);
        let ghost seen = views(v@).take(i as int);
        let mut j: usize = 0;
        let mut found = false;
        while j < out.len()
            invariant_except_break
                !found,
            invariant
                j <= out@.len(),
                old_out == views(out@),
                forall|k: int| 0 <= k < j ==> str_lt(old_out[k], x@),
            ensures
                j <= out@.len(),
                old_out == views(out@),
                forall|k: int| 0 <= k < j ==> str_lt(old_out[k], x@),
                found ==> j < out@.len() && old_out[j as int] == x@,
                !found && j < out@.len() ==> str_lt(x@, old_out[j as int]),
            decreases out@.len() - j,
        {
            let here = out[j].as_str();
            proof {
                assert(old_out[j as int] == here@);
            }
            if str_eq(here, x) {
                found = true;
                break;
            }
            if !str_less(here, x) {
                proof {
                    lemma_str_lt_total(here@, x@);
                }
                break;
            }
            j = j + 1;
        }
        proof {
            assert(views(v@).take(i + 1) =~= seen.push(x@));
        }
        if !found {
            out.insert(j, owned(x));
            proof {
                assert(views(out@) =~= old_out.insert(j as int, x@));
                lemma_insert_sorted(old_out, j as int, x@);
                assert forall|y: Seq<char>| views(out@).contains(y) <==> seen.push(x@).contains(y) by {
                    let nw = views(out@);
                    if nw.contains(y) {
                        let k = choose|k: int| 0 <= k < nw.len() && nw[k] == y;
                        if k < j {
                            assert(old_out[k] == y);
                            assert(old_out.contains(y));
                        } else if k > j {
                            assert(old_out[k - 1] == y);
                            assert(old_out.contains(y));
                        }
                        if y != x@ {
                            assert(seen.contains(y));
                            let m = choose|m: int| 0 <= m < seen.len() && seen[m] == y;
                            assert(seen.push(x@)[m] == y);
                        } else {
                            assert(seen.push(x@)[seen.len() as int] == y);
                        }
                    }
                    if seen.push(x@).contains(y) {
                        let m = choose|m: int| 0 <= m < seen.len() + 1 && seen.push(x@)[m] == y;
                        if m < seen.len() {
                            assert(seen[m] == y);
                            assert(seen.contains(y));
                            assert(old_out.contains(y));
                            let k = choose|k: int| 0 <= k < old_out.len() && old_out[k] == y;
                            if k < j {
                                assert(nw[k] == y);
                            } else {
                                assert(nw[k + 1] == y);
                            }
                        } else {
                            assert(nw[j as int] == y);
                        }
                    }
                }
            }
        } else {
            proof {
                assert forall|y: Seq<char>| views(out@).contains(y) <==> seen.push(x@).contains(y) by {
                    if seen.push(x@).contains(y) {
                        let m = choose|m: int| 0 <= m < seen.len() + 1 && seen.push(x@)[m] == y;
                        if m < seen.len() {
                            assert(seen[m] == y);
                            assert(seen.contains(y));
                        } else {
                            assert(old_out[j as int] == y);
                        }
                    }
                    if views(out@).contains(y) {
                        assert(seen.contains(y));
                        let m = choose|m: int| 0 <= m < seen.len() && seen[m] == y;
                        assert(seen.push(x@)[m] == y);
                    }
                }
            }
        }
        i = i + 1;
    }
    proof {
        assert(views(v@).take(v@.len() as int) =~= views(v@));
    }
    out
}

} // verus!
