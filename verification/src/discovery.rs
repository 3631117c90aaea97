//! Discovering the units to manage: from the Quadlet directory and from the
//! labels of the containers podman runs.

use vstd::prelude::*;
use crate::text::{lower, to_ascii_lowercase, concat, owned, views, opt_view, str_eq};
use crate::json::{Json, obj_get, obj_lookup};
use crate::podman::{member2, get2, unit_label_spec, podman_systemd_unit_label};
use crate::quadlet::{quadlet_unit_spec, quadlet_unit_name, extension_spec, file_name_spec, path_file_name, split_at_last_dot, autoupdate_off};
use crate::host::{unit_name_error, validate_systemd_unit_name};
use crate::digests::array_items;
use crate::sorting::{sorted_strictly, sorted_unique};

verus! {

/// What a file of the Quadlet directory contributes: the unit it defines
/// (when its name is a valid unit name), and whether its contents must
/// enable auto-update (for `.container`, `.kube` and `.image` files).
pub open spec fn dir_entry_spec(path: Seq<char>) -> Option<(Seq<char>, bool)> {
    match quadlet_unit_spec(path) {
        None => None,
        Some(u) => if unit_name_error(u) is Some {
            None
        } else {
            let ext = match file_name_spec(path) {
                Some(n) => match extension_spec(n) {
                    Some(e) => e,
                    None => Seq::<char>::empty(),
                },
                None => Seq::<char>::empty(),
            };
            Some((u, ext == "container"@ || ext == "kube"@ || ext == "image"@))
        },
    }
}

/// The extension of a path's file name (empty when there is none).
fn extension_of(path: &str) -> (r: String)
    ensures
        r@ == (match file_name_spec(path@) {
            Some(n) => match extension_spec(n) {
                Some(e) => e,
                None => Seq::<char>::empty(),
            },
            None => Seq::<char>::empty(),
        }),
{
    match path_file_name(path) {
        Some(n) => match split_at_last_dot(n.as_str()) {
            Some((_, e)) => e,
            None => String::new(),
        },
        None => String::new(),
    }
}

/// `dir_entry_spec` for a file of the Quadlet directory.
pub fn dir_entry(path: &str) -> (r: Option<(String, bool)>)
    ensures
        match r {
            Some((u, check)) => dir_entry_spec(path@) == Some((u@, check)),
            None => dir_entry_spec(path@) is None,
        },
{
    let unit = match quadlet_unit_name(path) {
        Some(u) => u,
        None => {
            return None;
        },
    };
    if validate_systemd_unit_name(unit.as_str()).is_err() {
        return None;
    }
    let ext = extension_of(path);
    let e = ext.as_str();
    let check = str_eq(e, "container") || str_eq(e, "kube") || str_eq(e, "image");
    Some((unit, check))
}

/// A container's `io.containers.autoupdate` label, lowercased (empty when
/// missing or not a string).
pub open spec fn autoupdate_label(labels: Json) -> Seq<char> {
    match labels {
        Json::Object(m) => match obj_get(m@, "io.containers.autoupdate"@) {
            Some(Json::Str(s)) => lower(s@),
            _ => Seq::<char>::empty(),
        },
        _ => Seq::<char>::empty(),
    }
}

/// The unit a container contributes: it needs an object of labels with
/// auto-update switched on, and a valid unit label.
pub open spec fn ps_item_unit(item: Json) -> Option<Seq<char>> {
    match member2(item, "Labels"@, "labels"@) {
        Some(l) => match l {
            Json::Object(_) => if autoupdate_off(autoupdate_label(l)) {
                None
            } else {
                match unit_label_spec(l) {
                    Some(u) => if unit_name_error(u) is None {
                        Some(u)
                    } else {
                        None
                    },
                    None => None,
                }
            },
            _ => None,
        },
        None => None,
    }
}

/// The units the first `n` containers contribute, in order.
pub open spec fn ps_units(items: Seq<Json>, n: int) -> Seq<Seq<char>>
    decreases n,
{
    if n <= 0 {
        Seq::<Seq<char>>::empty()
    } else {
        match ps_item_unit(items[n - 1]) {
            Some(u) => ps_units(items, n - 1).push(u),
            None => ps_units(items, n - 1),
        }
    }
}

/// The unit one container contributes.
fn ps_item(item: &Json) -> (r: Option<String>)
    ensures
        opt_view(r) == ps_item_unit(*item),
{
    let l = match get2(item, "Labels", "labels") {
        Some(l) => l,
        None => {
            return None;
        },
    };
    let m = match l {
        Json::Object(m) => m,
        _ => {
            return None;
        },
    };
    let label = match obj_lookup(m, "io.containers.autoupdate") {
        Some(Json::Str(s)) => to_ascii_lowercase(s.as_str()),
        _ => String::new(),
    };
    let t = label.as_str();
    if t.unicode_len() == 0 || str_eq(t, "false") || str_eq(t, "no") || str_eq(t, "none") || str_eq(t, "off")
        || str_eq(t, "0") {
        return None;
    }
    match podman_systemd_unit_label(l) {
        Some(u) => if validate_systemd_unit_name(u.as_str()).is_ok() {
            Some(u)
        } else {
            None
        },
        None => None,
    }
}

/// The units discovered from `podman ps`: sorted, each once.
pub fn ps_discovered_units(ps: &Json) -> (r: Vec<String>)
    ensures
        sorted_strictly(views(r@)),
        forall|x: Seq<char>| views(r@).contains(x) <==> ps_units(array_items(*ps), array_items(*ps).len() as int).contains(x),
{
    let empty: Vec<Json> = Vec::new();
    let items: &Vec<Json> = match ps {
        Json::Array(v) => v,
        _ => &empty,
    };
    let mut units: Vec<String> = Vec::new();
    let mut i: usize = 0;
    proof {
        assert(views(units@) =~= ps_units(items@, 0));
    }
    while i < items.len()
        invariant
            i <= items@.len(),
            items@ == array_items(*ps),
            views(units@) == ps_units(items@, i as int),
        decreases items@.len() - i,
    {
        match ps_item(&items[i]) {
            Some(u) => {
                crate::text::push_str_owned(&mut units, u.as_str());
            },
            None => {},
        }
        i = i + 1;
    }
    sorted_unique(units.as_slice())
}

/// A discovered unit and where it was found (`dir` or `ps`).
pub struct DiscoveredUnit {
    pub unit: String,
    pub source: &'static str,
}

/// The source a unit is kept with: the directory when it was found there,
/// else `podman ps`.
pub open spec fn source_of(dir: Seq<Seq<char>>, unit: Seq<char>) -> Seq<char> {
    if dir.contains(unit) {
        "dir"@
    } else {
        "ps"@
    }
}

/// The units a discovery found (none when it failed).
pub open spec fn ok_views(r: Result<Vec<String>, String>) -> Seq<Seq<char>> {
    match r {
        Ok(v) => views(v@),
        Err(_) => Seq::<Seq<char>>::empty(),
    }
}

/// The unit names of discovered units.
pub open spec fn unit_views(v: Seq<DiscoveredUnit>) -> Seq<Seq<char>> {
    v.map_values(|d: DiscoveredUnit| d.unit@)
}

/// Both discoveries merged: every unit found, sorted, each once, with its
/// source; an error only when nothing was found and some discovery failed
/// (the errors joined by `; `).
pub fn merge_discoveries(dir: Result<Vec<String>, String>, ps: Result<Vec<String>, String>) -> (r: Result<Vec<DiscoveredUnit>, String>)
    ensures
        match r {
            Ok(v) => {
                &&& sorted_strictly(unit_views(v@))
                &&& forall|x: Seq<char>| #[trigger] unit_views(v@).contains(x) <==> (ok_views(dir).contains(x)
                    || ok_views(ps).contains(x))
                &&& forall|k: int| 0 <= k < v@.len() ==> (#[trigger] v@[k]).source@ == source_of(ok_views(dir), v@[k].unit@)
            },
            Err(e) => {
                &&& (dir is Err || ps is Err)
                &&& (match dir {
                    Ok(d) => d@.len() == 0,
                    Err(_) => true,
                })
                &&& (match ps {
                    Ok(p) => p@.len() == 0,
                    Err(_) => true,
                })
                &&& e@ == (match (dir, ps) {
                    (Err(a), Err(b)) => "dir: "@ + a@ + "; "@ + "podman-ps: "@ + b@,
                    (Err(a), _) => "dir: "@ + a@,
                    (_, Err(b)) => "podman-ps: "@ + b@,
                    _ => Seq::<char>::empty(),
                })
            },
        },
{
    let mut all: Vec<String> = Vec::new();
    let mut dir_units: Vec<String> = Vec::new();
    let ghost dv = match &dir {
        Ok(d) => views(d@),
        Err(_) => Seq::<Seq<char>>::empty(),
    };
    match &dir {
        Ok(d) => {
            crate::text::extend_strings(&mut all, d.as_slice());
            crate::text::extend_strings(&mut dir_units, d.as_slice());
        },
        Err(_) => {},
    }
    match &ps {
        Ok(p) => {
            crate::text::extend_strings(&mut all, p.as_slice());
        },
        Err(_) => {},
    }
    proof {
        assert(views(dir_units@) =~= dv);
        assert forall|x: Seq<char>| #[trigger] views(all@).contains(x) <==> (ok_views(dir).contains(x) || ok_views(
            ps,
        ).contains(x)) by {
            let dpart = match &dir {
                Ok(d) => views(d@),
                Err(_) => Seq::<Seq<char>>::empty(),
            };
            let ppart = match &ps {
                Ok(p) => views(p@),
                Err(_) => Seq::<Seq<char>>::empty(),
            };
            assert(views(all@) =~= dpart + ppart);
            if views(all@).contains(x) {
                let k = choose|k: int| 0 <= k < views(all@).len() && views(all@)[k] == x;
                if k < dpart.len() {
                    assert(dpart[k] == x);
                } else {
                    assert(ppart[k - dpart.len()] == x);
                }
            }
            if dpart.contains(x) {
                let k = choose|k: int| 0 <= k < dpart.len() && dpart[k] == x;
                assert(views(all@)[k] == x);
            }
            if ppart.contains(x) {
                let k = choose|k: int| 0 <= k < ppart.len() && ppart[k] == x;
                assert(views(all@)[k + dpart.len()] == x);
            }
        }
    }
    if all.len() > 0 {
        let units = sorted_unique(all.as_slice());
        let mut out: Vec<DiscoveredUnit> = Vec::new();
        let mut i: usize = 0;
        while i < units.len()
            invariant
                i <= units@.len(),
                out@.len() == i,
                views(dir_units@) == dv,
                forall|k: int| 0 <= k < i ==> (#[trigger] out@[k]).unit@ == units@[k]@ && out@[k].source@
                    == source_of(dv, units@[k]@),
            decreases units@.len() - i,
        {
            let u = units[i].as_str();
            let source = if crate::units::contains_string(&dir_units, u) {
                "dir"
            } else {
                "ps"
            };
            out.push(DiscoveredUnit { unit: owned(u), source });
            i = i + 1;
        }
        proof {
            assert(unit_views(out@) =~= views(units@));
        }
        return Ok(out);
    }
    match (&dir, &ps) {
        (Err(a), Err(b)) => {
            let x = concat("dir: ", a.as_str());
            let y = concat(x.as_str(), "; ");
            let z = concat(y.as_str(), "podman-ps: ");
            Err(concat(z.as_str(), b.as_str()))
        },
        (Err(a), _) => Err(concat("dir: ", a.as_str())),
        (_, Err(b)) => Err(concat("podman-ps: ", b.as_str())),
        _ => Ok(Vec::new()),
    }
}

/// Every unit discovery reports has a valid unit name: the units of the
/// Quadlet directory entries and of the containers' labels alike.
pub proof fn lemma_discovered_units_valid(path: Seq<char>, items: Seq<Json>, n: int)
    ensures
        dir_entry_spec(path) matches Some((u, _)) ==> unit_name_error(u) is None,
        forall|k: int| 0 <= k < ps_units(items, n).len() ==> unit_name_error(#[trigger] ps_units(items, n)[k]) is None,
    decreases n,
{
    if n > 0 {
        lemma_discovered_units_valid(path, items, n - 1);
        let p = ps_units(items, n - 1);
        match ps_item_unit(items[n - 1]) {
            Some(u) => {
                assert forall|k: int| 0 <= k < ps_units(items, n).len() implies unit_name_error(
                    #[trigger] ps_units(items, n)[k],
                ) is None by {
                    if k < p.len() {
                        assert(ps_units(items, n)[k] == p[k]);
                    }
                }
            },
            None => {},
        }
    }
}

/// The unit a Quadlet directory entry contributes, from the directory, the
/// entry's name and the file's contents (`None` when it could not be read):
/// its unit when the name defines a valid unit, and, for `.container`,
/// `.kube` and `.image` files, only when the path is a valid host path and
/// the contents enable auto-update.
pub open spec fn entry_unit(dir: Seq<char>, name: Seq<char>, contents: Option<Seq<char>>) -> Option<Seq<char>> {
    let path = crate::frontend::join_path_spec(dir, name);
    match dir_entry_spec(path) {
        None => None,
        Some((u, check)) => if !check {
            Some(u)
        } else if crate::host::host_path_parse(path) is Err {
            None
        } else {
            match contents {
                Some(c) => if crate::quadlet::autoupdate_from(crate::text::lines(c)) {
                    Some(u)
                } else {
                    None
                },
                None => None,
            }
        },
    }
}

/// The view of a listed entry and its contents.
pub open spec fn listed_view(e: (String, Option<String>)) -> (Seq<char>, Option<Seq<char>>) {
    (e.0@, opt_view(e.1))
}

/// Whether some listed entry contributes unit `u`.
pub open spec fn dir_contributes(dir: Seq<char>, entries: Seq<(Seq<char>, Option<Seq<char>>)>, u: Seq<char>) -> bool {
    exists|k: int| 0 <= k < entries.len() && entry_unit(dir, entries[k].0, entries[k].1) == Some(u)
}

/// Discovery from the Quadlet directory once the directory is known: nothing when it
/// is not a directory; otherwise the units its entries contribute, sorted
/// and each once (every one a valid unit name).
pub fn dir_discovered_units(dir: &str, is_dir: bool, entries: &[(String, Option<String>)]) -> (r: Vec<String>)
    ensures
        !is_dir ==> r@.len() == 0,
        sorted_strictly(views(r@)),
        forall|x: Seq<char>| #[trigger] views(r@).contains(x) <==> (is_dir && dir_contributes(
            dir@,
            entries@.map_values(|e: (String, Option<String>)| listed_view(e)),
            x,
        )),
        forall|k: int| 0 <= k < r@.len() ==> unit_name_error(#[trigger] r@[k]@) is None,
{
    let ghost ev = entries@.map_values(|e: (String, Option<String>)| listed_view(e));
    if !is_dir {
        let out: Vec<String> = Vec::new();
        proof {
            assert(views(out@) =~= Seq::<Seq<char>>::empty());
        }
        return out;
    }
    let mut units: Vec<String> = Vec::new();
    let mut i: usize = 0;
    while i < entries.len()
        invariant
            i <= entries@.len(),
            ev == entries@.map_values(|e: (String, Option<String>)| listed_view(e)),
            forall|x: Seq<char>| #[trigger] views(units@).contains(x) <==> exists|k: int|
                0 <= k < i && entry_unit(dir@, ev[k].0, ev[k].1) == Some(x),
        decreases entries@.len() - i,
    {
        let (name, contents) = &entries[i];
        let path = crate::frontend::join_path(dir, name.as_str());
        let ghost before = views(units@);
        let got: Option<String> = match dir_entry(path.as_str()) {
            None => None,
            Some((u, check)) => if !check {
                Some(u)
            } else {
                match crate::host::HostAbsPath::parse(path.as_str()) {
                    Err(_) => None,
                    Ok(_) => match contents {
                        Some(c) => if crate::quadlet::autoupdate_enabled(c.as_str()) {
                            Some(u)
                        } else {
                            None
                        },
                        None => None,
                    },
                }
            },
        };
        proof {
            assert(ev[i as int] == listed_view(entries@[i as int]));
            assert(opt_view(got) == entry_unit(dir@, ev[i as int].0, ev[i as int].1));
        }
        match got {
            Some(u) => {
                units.push(u);
                proof {
                    assert(views(units@) =~= before.push(units@[units@.len() - 1]@));
                    assert forall|x: Seq<char>| #[trigger] views(units@).contains(x) <==> exists|k: int|
                        0 <= k < i + 1 && entry_unit(dir@, ev[k].0, ev[k].1) == Some(x) by {
                        if views(units@).contains(x) && !before.contains(x) {
                            assert(views(units@).last() == x) by {
                                let j = choose|j: int| 0 <= j < views(units@).len() && views(units@)[j] == x;
                                if j < before.len() {
                                    assert(before[j] == x);
                                }
                            }
                        }
                        if before.contains(x) {
                            let j = choose|j: int| 0 <= j < before.len() && before[j] == x;
                            assert(views(units@)[j] == x);
                        }
                        if x == views(units@).last() {
                            assert(views(units@)[views(units@).len() - 1] == x);
                        }
                    }
                }
            },
            None => {
                proof {
                    assert forall|x: Seq<char>| #[trigger] views(units@).contains(x) <==> exists|k: int|
                        0 <= k < i + 1 && entry_unit(dir@, ev[k].0, ev[k].1) == Some(x) by {
                        if exists|k: int| 0 <= k < i + 1 && entry_unit(dir@, ev[k].0, ev[k].1) == Some(x) {
                            let k = choose|k: int| 0 <= k < i + 1 && entry_unit(dir@, ev[k].0, ev[k].1) == Some(x);
                            if k == i {
                                assert(false);
                            }
                        }
                    }
                }
            },
        }
        i = i + 1;
    }
    let out = sorted_unique(units.as_slice());
    proof {
        assert forall|k: int| 0 <= k < out@.len() implies unit_name_error(#[trigger] out@[k]@) is None by {
            assert(views(out@)[k] == out@[k]@);
            assert(views(out@).contains(out@[k]@));
            let x = out@[k]@;
            let j = choose|j: int| 0 <= j < i && entry_unit(dir@, ev[j].0, ev[j].1) == Some(x);
            let path = crate::frontend::join_path_spec(dir@, ev[j].0);
            lemma_discovered_units_valid(path, Seq::<Json>::empty(), 0);
        }
    }
    out
}

} // verus!
