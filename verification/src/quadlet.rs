//! Unit definition files: file names of Quadlet units, the `AutoUpdate=` and
//! `Image=` settings, and where systemd says a unit is defined.

use vstd::prelude::*;
use crate::text::{trim, trim_str, lower, to_ascii_lowercase, starts_with, ends_with, str_eq, str_starts_with, concat, owned, lines, lines_of, views, split, split_char, split_once, split_once_char, str_contains_char};
use crate::host::{host_path_parse, HostAbsPath};

verus! {

/// The path components of `p`: its `'/'`-separated pieces without the empty
/// ones and without `"."` (as `Path::components` reads a relative path).
pub open spec fn real_segs(ps: Seq<Seq<char>>) -> Seq<Seq<char>>
    decreases ps.len(),
{
    if ps.len() == 0 {
        Seq::<Seq<char>>::empty()
    } else if ps.last().len() == 0 || ps.last() == "."@ {
        real_segs(ps.drop_last())
    } else {
        real_segs(ps.drop_last()).push(ps.last())
    }
}

/// `Path::file_name`: the last component, unless it is `..` or there is none.
pub open spec fn file_name_spec(p: Seq<char>) -> Option<Seq<char>> {
    let segs = real_segs(split(p, '/'));
    if segs.len() == 0 || segs.last() == ".."@ {
        None
    } else {
        Some(segs.last())
    }
}

/// The path components of `path`.
pub fn path_components(path: &str) -> (r: Vec<String>)
    ensures
        views(r@) == real_segs(split(path@, '/')),
{
    let pieces = split_char(path, '/');
    let ghost pv = views(pieces@);
    let mut out: Vec<String> = Vec::new();
    let mut i: usize = 0;
    proof {
        assert(pv.take(0) =~= Seq::<Seq<char>>::empty());
        assert(views(out@) =~= Seq::<Seq<char>>::empty());
    }
    while i < pieces.len()
        invariant
            i <= pieces@.len(),
            pv == views(pieces@),
            views(out@) == real_segs(pv.take(i as int)),
        decreases pieces@.len() - i,
    {
        proof {
            assert(pv.take(i + 1).drop_last() =~= pv.take(i as int));
            assert(pv.take(i + 1).last() == pieces@[i as int]@);
        }
        let seg = pieces[i].as_str();
        if seg.unicode_len() != 0 && !str_eq(seg, ".") {
            let ghost prev = out@;
            out.push(owned(seg));
            proof {
                assert(views(out@) =~= views(prev).push(seg@));
            }
        }
        i = i + 1;
    }
    proof {
        assert(pv.take(pieces@.len() as int) =~= pv);
    }
    out
}

/// The last component of a path, unless it is `..` or there is none.
pub fn path_file_name(path: &str) -> (r: Option<String>)
    ensures
        r matches Some(n) ==> file_name_spec(path@) == Some(n@),
        r is None ==> file_name_spec(path@) is None,
{
    let segs = path_components(path);
    let n = segs.len();
    if n == 0 {
        return None;
    }
    proof {
        assert(views(segs@).last() == segs@[n - 1]@);
    }
    if str_eq(segs[n - 1].as_str(), "..") {
        return None;
    }
    Some(owned(segs[n - 1].as_str()))
}

/// The split of a file name at its last `.`, as `Path::extension` and
/// `Path::file_stem` see it: `None` when there is no dot or the only dot
/// leads the name.
pub open spec fn dot_split(name: Seq<char>) -> Option<(Seq<char>, Seq<char>)> {
    let i = crate::text::last_index_of(name, '.');
    if i <= 0 {
        None
    } else {
        Some((name.take(i), name.skip(i + 1)))
    }
}

/// `Path::extension` of a file name.
pub open spec fn extension_spec(name: Seq<char>) -> Option<Seq<char>> {
    match dot_split(name) {
        Some((_, ext)) => Some(ext),
        None => None,
    }
}

/// `Path::file_stem` of a file name.
pub open spec fn stem_spec(name: Seq<char>) -> Seq<char> {
    match dot_split(name) {
        Some((stem, _)) => stem,
        None => name,
    }
}

/// Splits a file name at its last dot.
pub fn split_at_last_dot(name: &str) -> (r: Option<(String, String)>)
    ensures
        r matches Some((a, b)) ==> dot_split(name@) == Some((a@, b@)),
        r is None ==> dot_split(name@) is None,
{
    match crate::text::rfind_char(name, '.') {
        Some(i) => {
            if i == 0 {
                return None;
            }
            let n = name.unicode_len();
            proof {
                crate::text::lemma_last_index_of(name@, '.');
            }
            let a = owned(name.substring_char(0, i));
            let b = owned(name.substring_char(i + 1, n));
            proof {
                assert(a@ =~= name@.take(i as int));
                assert(b@ =~= name@.skip(i + 1));
            }
            Some((a, b))
        },
        None => None,
    }
}

/// The `.service` unit a unit file stands for: a `.service` file is itself;
/// a Quadlet `.container`, `.kube` or `.image` file generates the service of
/// its stem.
pub open spec fn quadlet_unit_spec(path: Seq<char>) -> Option<Seq<char>> {
    match file_name_spec(path) {
        Some(name) => {
            let ext = match extension_spec(name) {
                Some(e) => e,
                None => Seq::<char>::empty(),
            };
            if ext == "service"@ {
                Some(name)
            } else if ext == "container"@ || ext == "kube"@ || ext == "image"@ {
                Some(stem_spec(name) + ".service"@)
            } else {
                None
            }
        },
        None => None,
    }
}

/// The service unit a Quadlet file defines, from its file name and
/// extension.
pub fn quadlet_unit_name(path: &str) -> (r: Option<String>)
    ensures
        r matches Some(u) ==> quadlet_unit_spec(path@) == Some(u@),
        r is None ==> quadlet_unit_spec(path@) is None,
{
    let name = match path_file_name(path) {
        Some(n) => n,
        None => {
            return None;
        },
    };
    let (stem, ext) = match split_at_last_dot(name.as_str()) {
        Some((a, b)) => (a, b),
        None => (owned(name.as_str()), String::new()),
    };
    if str_eq(ext.as_str(), "service") {
        Some(name)
    } else if str_eq(ext.as_str(), "container") || str_eq(ext.as_str(), "kube") || str_eq(
        ext.as_str(),
        "image",
    ) {
        Some(concat(stem.as_str(), ".service"))
    } else {
        None
    }
}

/// Values of `AutoUpdate=` that switch automatic updates off.
pub open spec fn autoupdate_off(v: Seq<char>) -> bool {
    v.len() == 0 || v == "false"@ || v == "no"@ || v == "none"@ || v == "off"@ || v == "0"@
}

/// A line that carries no setting: a comment, or no `=` in it.
pub open spec fn not_a_setting(t: Seq<char>) -> bool {
    (t.len() > 0 && (t[0] == '#' || t[0] == ';')) || !t.contains('=')
}

/// Reads the first `AutoUpdate=` setting of the lines (key compared after
/// trimming and lowercasing); automatic updates are on when there is none.
pub open spec fn autoupdate_from(ls: Seq<Seq<char>>) -> bool
    decreases ls.len(),
{
    if ls.len() == 0 {
        true
    } else {
        let t = trim(ls[0]);
        if not_a_setting(t) {
            autoupdate_from(ls.drop_first())
        } else {
            match split_once(t, '=') {
                Some((k, v)) => if lower(trim(k)) == "autoupdate"@ {
                    !autoupdate_off(lower(trim(v)))
                } else {
                    autoupdate_from(ls.drop_first())
                },
                None => autoupdate_from(ls.drop_first()),
            }
        }
    }
}

/// Whether a Quadlet file enables auto-update in its `AutoUpdate=` setting.
pub fn autoupdate_enabled(contents: &str) -> (r: bool)
    ensures
        r == autoupdate_from(lines(contents@)),
{
    let ls = lines_of(contents);
    let ghost lv = views(ls@);
    let mut i: usize = 0;
    proof {
        assert(lv.skip(0) =~= lv);
    }
    while i < ls.len()
        invariant
            i <= ls@.len(),
            lv == views(ls@),
            lv == lines(contents@),
            autoupdate_from(lv) == autoupdate_from(lv.skip(i as int)),
        decreases ls@.len() - i,
    {
        proof {
            assert(lv.skip(i as int).drop_first() =~= lv.skip(i + 1));
            assert(lv.skip(i as int)[0] == ls@[i as int]@);
        }
        let t = trim_str(ls[i].as_str());
        let n = t.unicode_len();
        let comment = n > 0 && (t.get_char(0) == '#' || t.get_char(0) == ';');
        if !(comment || !str_contains_char(t, '=')) {
            match split_once_char(t, '=') {
                Some((k, v)) => {
                    let key = to_ascii_lowercase(trim_str(k.as_str()));
                    if str_eq(key.as_str(), "autoupdate") {
                        let value = to_ascii_lowercase(trim_str(v.as_str()));
                        let vs = value.as_str();
                        return !(vs.unicode_len() == 0 || str_eq(vs, "false") || str_eq(vs, "no")
                            || str_eq(vs, "none") || str_eq(vs, "off") || str_eq(vs, "0"));
                    }
                },
                None => {},
            }
        }
        i = i + 1;
    }
    proof {
        assert(lv.skip(ls@.len() as int) =~= Seq::<Seq<char>>::empty());
    }
    true
}

/// A section header line: `[` ... `]`.
pub open spec fn is_section_header(t: Seq<char>) -> bool {
    t.len() > 0 && t[0] == '[' && t.last() == ']'
}

/// Scans unit file lines for the first non-empty `Image=` value inside a
/// `[Container]` section (header compared without ASCII case).
pub open spec fn image_scan(ls: Seq<Seq<char>>, in_container: bool) -> Option<Seq<char>>
    decreases ls.len(),
{
    if ls.len() == 0 {
        None
    } else {
        let t = trim(ls[0]);
        if is_section_header(t) {
            image_scan(ls.drop_first(), lower(t) == "[container]"@)
        } else if in_container && starts_with(t, "Image="@) && trim(t.skip(6)).len() > 0 {
            Some(trim(t.skip(6)))
        } else {
            image_scan(ls.drop_first(), in_container)
        }
    }
}

/// The image a Quadlet `.container` file names in its `Image=` setting.
pub fn parse_container_image_contents(contents: &str) -> (r: Option<String>)
    ensures
        r matches Some(img) ==> image_scan(lines(contents@), false) == Some(img@),
        r is None ==> image_scan(lines(contents@), false) is None,
{
    let ls = lines_of(contents);
    let ghost lv = views(ls@);
    let mut in_section = false;
    let mut i: usize = 0;
    proof {
        assert(lv.skip(0) =~= lv);
        reveal_strlit("Image=");
    }
    while i < ls.len()
        invariant
            i <= ls@.len(),
            lv == views(ls@),
            lv == lines(contents@),
            image_scan(lv, false) == image_scan(lv.skip(i as int), in_section),
            "Image="@.len() == 6,
        decreases ls@.len() - i,
    {
        proof {
            assert(lv.skip(i as int).drop_first() =~= lv.skip(i + 1));
            assert(lv.skip(i as int)[0] == ls@[i as int]@);
        }
        let t = trim_str(ls[i].as_str());
        let n = t.unicode_len();
        if n > 0 && t.get_char(0) == '[' && t.get_char(n - 1) == ']' {
            let low = to_ascii_lowercase(t);
            in_section = str_eq(low.as_str(), "[container]");
        } else if in_section && str_starts_with(t, "Image=") {
            let rest = t.substring_char(6, n);
            let value = trim_str(rest);
            proof {
                assert(rest@ =~= t@.skip(6));
            }
            if value.unicode_len() > 0 {
                return Some(owned(value));
            }
        }
        i = i + 1;
    }
    proof {
        assert(lv.skip(ls@.len() as int) =~= Seq::<Seq<char>>::empty());
    }
    None
}

/// A line that neither opens a section nor carries a non-empty `Image=`
/// value.
pub open spec fn plain_setting(l: Seq<char>) -> bool {
    !is_section_header(trim(l)) && !(starts_with(trim(l), "Image="@) && trim(trim(l).skip(6)).len()
        > 0)
}

/// Inside a `[Container]` section, setting lines without a non-empty
/// `Image=` value are passed over: putting one in front of the rest of the
/// section does not change the image found.
pub proof fn lemma_setting_line_skipped(l: Seq<char>, ls: Seq<Seq<char>>)
    requires
        plain_setting(l),
    ensures
        image_scan(seq![l] + ls, true) == image_scan(ls, true),
{
    assert((seq![l] + ls).drop_first() =~= ls);
}

/// Setting lines in front of the rest of a `[Container]` section, however
/// many, do not change the image found.
pub proof fn lemma_settings_skipped(pre: Seq<Seq<char>>, ls: Seq<Seq<char>>)
    requires
        forall|k: int| 0 <= k < pre.len() ==> plain_setting(#[trigger] pre[k]),
    ensures
        image_scan(pre + ls, true) == image_scan(ls, true),
    decreases pre.len(),
{
    if pre.len() > 0 {
        assert(plain_setting(pre[0]));
        lemma_settings_skipped(pre.drop_first(), ls);
        assert((pre + ls).drop_first() =~= pre.drop_first() + ls);
    } else {
        assert(pre + ls =~= ls);
    }
}

/// Outside a `[Container]` section no line names the image: lines that
/// open no section, `Image=` lines included, are passed over.
pub proof fn lemma_outside_container_ignored(pre: Seq<Seq<char>>, ls: Seq<Seq<char>>)
    requires
        forall|k: int| 0 <= k < pre.len() ==> !is_section_header(trim(#[trigger] pre[k])),
    ensures
        image_scan(pre + ls, false) == image_scan(ls, false),
    decreases pre.len(),
{
    if pre.len() > 0 {
        assert(!is_section_header(trim(pre[0])));
        lemma_outside_container_ignored(pre.drop_first(), ls);
        assert((pre + ls).drop_first() =~= pre.drop_first() + ls);
    } else {
        assert(pre + ls =~= ls);
    }
}

/// A `[Container]` header, any number of other settings, then an `Image=`
/// line with a non-empty value: that value, trimmed, is the image.
pub proof fn lemma_container_image_found(
    header: Seq<char>,
    pre: Seq<Seq<char>>,
    image_line: Seq<char>,
    rest: Seq<Seq<char>>,
)
    requires
        is_section_header(trim(header)),
        lower(trim(header)) == "[container]"@,
        forall|k: int| 0 <= k < pre.len() ==> plain_setting(#[trigger] pre[k]),
        starts_with(trim(image_line), "Image="@),
        trim(trim(image_line).skip(6)).len() > 0,
    ensures
        image_scan(seq![header] + pre + seq![image_line] + rest, false) == Some(
            trim(trim(image_line).skip(6)),
        ),
{
    let tail = seq![image_line] + rest;
    let all = seq![header] + pre + seq![image_line] + rest;
    assert(all =~= seq![header] + (pre + tail));
    assert(all[0] == header);
    assert(all.drop_first() =~= pre + tail);
    lemma_settings_skipped(pre, tail);
    assert(tail[0] == image_line);
    assert(!is_section_header(trim(image_line))) by {
        reveal_strlit("Image=");
        let t = trim(image_line);
        assert("Image="@[0] == 'I');
        assert(t.take(6)[0] == t[0]);
        assert(t[0] == 'I');
    }
}

/// A value of `systemctl show` that names a path.
pub open spec fn informative_path(t: Seq<char>) -> bool {
    t.len() > 0 && t != "n/a"@ && t != "-"@
}

/// The last informative `SourcePath=` and `FragmentPath=` values of the
/// lines, in this order.
pub open spec fn definition_paths(ls: Seq<Seq<char>>) -> (Option<Seq<char>>, Option<Seq<char>>)
    decreases ls.len(),
{
    if ls.len() == 0 {
        (None, None)
    } else {
        let (s, f) = definition_paths(ls.drop_last());
        let l = ls.last();
        if starts_with(l, "SourcePath="@) {
            let t = trim(l.skip(11));
            if informative_path(t) {
                (Some(t), f)
            } else {
                (s, f)
            }
        } else if starts_with(l, "FragmentPath="@) {
            let t = trim(l.skip(13));
            if informative_path(t) {
                (s, Some(t))
            } else {
                (s, f)
            }
        } else {
            (s, f)
        }
    }
}

/// Where a unit is defined, from `systemctl show --property=SourcePath
/// --property=FragmentPath` output: the source path, else the fragment path,
/// when it is a valid host path.
pub open spec fn definition_path_spec(stdout: Seq<char>) -> Option<Seq<char>> {
    let (s, f) = definition_paths(lines(stdout));
    let chosen = match s {
        Some(x) => Some(x),
        None => f,
    };
    match chosen {
        Some(p) => match host_path_parse(p) {
            Ok(v) => Some(v),
            Err(_) => None,
        },
        None => None,
    }
}

/// The definition path of a unit, read from `systemctl show` output.
pub fn unit_definition_path_from_show(stdout: &str) -> (r: Option<HostAbsPath>)
    ensures
        r matches Some(p) ==> definition_path_spec(stdout@) == Some(p@),
        r is None ==> definition_path_spec(stdout@) is None,
{
    let ls = lines_of(stdout);
    let ghost lv = views(ls@);
    let mut source: Option<String> = None;
    let mut fragment: Option<String> = None;
    let mut i: usize = 0;
    proof {
        assert(lv.take(0) =~= Seq::<Seq<char>>::empty());
        reveal_strlit("SourcePath=");
        reveal_strlit("FragmentPath=");
    }
    while i < ls.len()
        invariant
            i <= ls@.len(),
            lv == views(ls@),
            lv == lines(stdout@),
            "SourcePath="@.len() == 11,
            "FragmentPath="@.len() == 13,
            definition_paths(lv.take(i as int)) == (
                crate::text::opt_view(source),
                crate::text::opt_view(fragment),
            ),
        decreases ls@.len() - i,
    {
        proof {
            assert(lv.take(i + 1).drop_last() =~= lv.take(i as int));
            assert(lv.take(i + 1).last() == ls@[i as int]@);
        }
        let l = ls[i].as_str();
        let n = l.unicode_len();
        if str_starts_with(l, "SourcePath=") {
            let rest = l.substring_char(11, n);
            proof {
                assert(rest@ =~= l@.skip(11));
            }
            let t = trim_str(rest);
            if t.unicode_len() > 0 && !str_eq(t, "n/a") && !str_eq(t, "-") {
                source = Some(owned(t));
            }
        } else if str_starts_with(l, "FragmentPath=") {
            let rest = l.substring_char(13, n);
            proof {
                assert(rest@ =~= l@.skip(13));
            }
            let t = trim_str(rest);
            if t.unicode_len() > 0 && !str_eq(t, "n/a") && !str_eq(t, "-") {
                fragment = Some(owned(t));
            }
        }
        i = i + 1;
    }
    proof {
        assert(lv.take(ls@.len() as int) =~= lv);
    }
    let chosen = match source {
        Some(s) => Some(s),
        None => fragment,
    };
    match chosen {
        Some(p) => match HostAbsPath::parse(p.as_str()) {
            Ok(v) => Some(v),
            Err(_) => None,
        },
        None => None,
    }
}

/// `s` with the suffix `p` removed as often as it ends `s`
/// (`str::trim_end_matches` for a string).
pub open spec fn trim_end_str(s: Seq<char>, p: Seq<char>) -> Seq<char>
    decreases s.len(),
{
    if p.len() > 0 && ends_with(s, p) {
        trim_end_str(s.take(s.len() - p.len()), p)
    } else {
        s
    }
}

/// The Quadlet `.container` file name tried for a unit when systemd does not
/// say where it is defined: the unit name without its `.service` suffixes,
/// and `.container`; nothing when no name is left.
pub open spec fn fallback_container_file_spec(unit: Seq<char>) -> Option<Seq<char>> {
    let stem = trim_end_str(unit, ".service"@);
    if stem.len() == 0 {
        None
    } else {
        Some(stem + ".container"@)
    }
}

/// Whether the first `end` characters of `s` end with `.service`.
fn prefix_ends_with_service(s: &str, end: usize) -> (r: bool)
    requires
        end <= s@.len(),
    ensures
        r == ends_with(s@.take(end as int), ".service"@),
{
    let prefix = s.substring_char(0, end);
    proof {
        assert(prefix@ =~= s@.take(end as int));
    }
    crate::text::str_ends_with(prefix, ".service")
}

/// `str::trim_end_matches(".service")`: the unit name without its
/// `.service` suffixes.
pub fn trim_end_service(unit: &str) -> (r: &str)
    ensures
        r@ == trim_end_str(unit@, ".service"@),
{
    let mut end: usize = unit.unicode_len();
    proof {
        reveal_strlit(".service");
        assert(unit@.take(end as int) =~= unit@);
    }
    while prefix_ends_with_service(unit, end)
        invariant
            end <= unit@.len(),
            ".service"@.len() == 8,
            trim_end_str(unit@, ".service"@) == trim_end_str(unit@.take(end as int), ".service"@),
        decreases end,
    {
        proof {
            assert(unit@.take(end as int).take(end - 8) =~= unit@.take(end - 8));
        }
        end = end - 8;
    }
    let stem = unit.substring_char(0, end);
    proof {
        assert(stem@ =~= unit@.take(end as int));
        assert(!(".service"@.len() > 0 && ends_with(stem@, ".service"@)));
    }
    stem
}

/// The `.container` file that defines a service unit, by the unit's name.
pub fn fallback_container_file(unit: &str) -> (r: Option<String>)
    ensures
        r matches Some(f) ==> fallback_container_file_spec(unit@) == Some(f@),
        r is None ==> fallback_container_file_spec(unit@) is None,
{
    let stem = trim_end_service(unit);
    if stem.unicode_len() == 0 {
        return None;
    }
    Some(concat(stem, ".container"))
}

} // verus!
