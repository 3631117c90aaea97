//! Where the web UI's files are looked for: the candidate directories in
//! order, and the choice among those that exist.

use vstd::prelude::*;
use crate::text::{trim, trim_str, concat, owned, views, opt_view};
use crate::units::{dedup, dedup_units};

verus! {

/// The directory of the built UI under a base directory.
pub open spec fn dist_rel() -> Seq<char> {
    "web/dist"@
}

/// A relative path appended to a base directory, with one `/` between
/// them (none after an empty base or one that ends in `/`).
pub open spec fn join_path_spec(base: Seq<char>, rel: Seq<char>) -> Seq<char> {
    if base.len() == 0 {
        rel
    } else if base.last() == '/' {
        base + rel
    } else {
        base + "/"@ + rel
    }
}

/// `base` joined with the relative path `rel`.
pub fn join_path(base: &str, rel: &str) -> (r: String)
    ensures
        r@ == join_path_spec(base@, rel@),
{
    let n = base.unicode_len();
    if n == 0 {
        owned(rel)
    } else if base.get_char(n - 1) == '/' {
        concat(base, rel)
    } else {
        let mut s = concat(base, "/");
        s.append(rel);
        s
    }
}

/// The candidate UI directories, in the order they are tried: under the
/// state directory when it is set and not blank, then under the working
/// directory; each path once (compared as text). When neither exists the
/// UI is served from the bundle built into the binary.
pub open spec fn dist_candidates_spec(state_dir: Option<Seq<char>>, cwd: Option<Seq<char>>) -> Seq<Seq<char>> {
    let a = match state_dir {
        Some(s) => if trim(s).len() > 0 {
            seq![join_path_spec(s, dist_rel())]
        } else {
            Seq::<Seq<char>>::empty()
        },
        None => Seq::<Seq<char>>::empty(),
    };
    let b = match cwd {
        Some(c) => seq![join_path_spec(c, dist_rel())],
        None => Seq::<Seq<char>>::empty(),
    };
    dedup(a + b)
}

/// The candidate UI directories from the state directory setting and the
/// working directory (if known).
pub fn frontend_dist_candidates(state_dir: Option<&str>, cwd: Option<&str>) -> (r: Vec<String>)
    ensures
        views(r@) == dist_candidates_spec(crate::config::opt_str(state_dir), crate::config::opt_str(cwd)),
{
    let mut all: Vec<String> = Vec::new();
    match state_dir {
        Some(s) => {
            if trim_str(s).unicode_len() > 0 {
                all.push(join_path(s, "web/dist"));
            }
        },
        None => {},
    }
    let ghost before_b = views(all@);
    match cwd {
        Some(c) => {
            all.push(join_path(c, "web/dist"));
        },
        None => {},
    }
    proof {
        reveal_strlit("web/dist");
        let sd = crate::config::opt_str(state_dir);
        let cd = crate::config::opt_str(cwd);
        let ea = match sd {
            Some(s) => if trim(s).len() > 0 {
                seq![join_path_spec(s, dist_rel())]
            } else {
                Seq::<Seq<char>>::empty()
            },
            None => Seq::<Seq<char>>::empty(),
        };
        let eb = match cd {
            Some(c) => seq![join_path_spec(c, dist_rel())],
            None => Seq::<Seq<char>>::empty(),
        };
        assert(before_b =~= ea);
        assert(views(all@) =~= ea + eb);
    }
    dedup_units(all.as_slice())
}

/// The index of the first candidate that is a directory, if any.
pub open spec fn first_existing(c: Seq<(Seq<char>, bool)>) -> Option<int>
    decreases c.len(),
{
    if c.len() == 0 {
        None
    } else if c[0].1 {
        Some(0)
    } else {
        match first_existing(c.drop_first()) {
            Some(i) => Some(i + 1),
            None => None,
        }
    }
}

/// The UI directory chosen among candidates (each with whether it is a
/// directory): the first that exists; `None` (the built-in bundle) when
/// none does.
pub open spec fn chosen_dist_spec(c: Seq<(Seq<char>, bool)>) -> Option<Seq<char>> {
    match first_existing(c) {
        Some(i) => Some(c[i].0),
        None => None,
    }
}

/// The view of a candidate and whether it exists.
pub open spec fn candidate_view(p: (String, bool)) -> (Seq<char>, bool) {
    (p.0@, p.1)
}

/// `first_existing` is a candidate that exists, with none before it.
proof fn lemma_first_existing(c: Seq<(Seq<char>, bool)>)
    ensures
        first_existing(c) matches Some(i) ==> 0 <= i < c.len() && c[i].1 && forall|j: int|
            0 <= j < i ==> !#[trigger] c[j].1,
        first_existing(c) is None ==> forall|j: int| 0 <= j < c.len() ==> !#[trigger] c[j].1,
    decreases c.len(),
{
    if c.len() > 0 {
        lemma_first_existing(c.drop_first());
        if !c[0].1 {
            assert forall|j: int| 0 < j < c.len() implies c[j] == c.drop_first()[j - 1] by {}
        }
    }
}

/// The UI directory the UI lookup settles on, or `None` to serve the
/// built-in bundle.
pub fn choose_dist_dir(candidates: &[(String, bool)]) -> (r: Option<String>)
    ensures
        opt_view(r) == chosen_dist_spec(candidates@.map_values(|p: (String, bool)| candidate_view(p))),
{
    let ghost cv = candidates@.map_values(|p: (String, bool)| candidate_view(p));
    let mut i: usize = 0;
    while i < candidates.len()
        invariant
            i <= candidates@.len(),
            cv == candidates@.map_values(|p: (String, bool)| candidate_view(p)),
            forall|j: int| 0 <= j < i ==> !#[trigger] cv[j].1,
        decreases candidates@.len() - i,
    {
        if candidates[i].1 {
            proof {
                lemma_first_existing(cv);
                match first_existing(cv) {
                    Some(k) => {
                        if k < i {
                            assert(!cv[k].1);
                        }
                        if k > i {
                            assert(!cv[i as int].1);
                        }
                    },
                    None => {
                        assert(!cv[i as int].1);
                    },
                }
            }
            return Some(owned(candidates[i].0.as_str()));
        }
        i = i + 1;
    }
    proof {
        lemma_first_existing(cv);
        match first_existing(cv) {
            Some(k) => {
                assert(!cv[k].1);
            },
            None => {},
        }
    }
    None
}

/// The state directory's UI comes first: when the state directory is set
/// (and not blank), its `web/dist` is the first candidate, so it is chosen
/// whenever it exists; the working directory's comes next, and nothing else
/// is tried.
pub proof fn lemma_state_dir_first(state_dir: Seq<char>, cwd: Option<Seq<char>>)
    requires
        trim(state_dir).len() > 0,
    ensures
        dist_candidates_spec(Some(state_dir), cwd).len() > 0,
        dist_candidates_spec(Some(state_dir), cwd)[0] == join_path_spec(state_dir, dist_rel()),
        dist_candidates_spec(Some(state_dir), cwd).len() <= 2,
{
    let b = match cwd {
        Some(c) => seq![join_path_spec(c, dist_rel())],
        None => Seq::<Seq<char>>::empty(),
    };
    let s = seq![join_path_spec(state_dir, dist_rel())] + b;
    lemma_dedup_keeps_first(s);
    crate::units::lemma_dedup(s);
}

/// `dedup` keeps the first element in first place.
proof fn lemma_dedup_keeps_first(s: Seq<Seq<char>>)
    requires
        s.len() > 0,
    ensures
        dedup(s).len() > 0,
        dedup(s)[0] == s[0],
    decreases s.len(),
{
    if s.len() == 1 {
        assert(s.drop_last() =~= Seq::<Seq<char>>::empty());
    } else {
        lemma_dedup_keeps_first(s.drop_last());
    }
}

} // verus!
