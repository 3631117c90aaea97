//! Host access model: validated unit names, host paths and SSH targets, the
//! argument vectors sent to the host, and the interpretation of command
//! outcomes. Running the commands themselves is the caller's job.

use vstd::prelude::*;
use crate::text::{is_ws, char_is_ws, trim, trim_str, ends_with, str_ends_with, str_contains_char, str_eq, is_alnum, char_is_alnum, utf8_len, split, split_char, views, owned, lemma_trim_trim, concat, int_decimal, i64_to_string, replace_all, replace_str, lemma_trim_start_head, lemma_trim_end_tail, trim_start, extend_strings, push_str_owned, lines, lines_of, parse_u64, parse_u64_str};

verus! {

/// Characters that must never reach a remote shell command line.
pub open spec fn is_shell_meta(c: char) -> bool {
    ||| is_ws(c)
    ||| c == ';'
    ||| c == '|'
    ||| c == '&'
    ||| c == '$'
    ||| c == '('
    ||| c == ')'
    ||| c == '`'
    ||| c == '"'
    ||| c == '\''
    ||| c == '<'
    ||| c == '>'
    ||| c == '\\'
}

/// Some character of `s` is a shell metacharacter.
pub open spec fn has_shell_meta(s: Seq<char>) -> bool {
    exists|i: int| 0 <= i < s.len() && is_shell_meta(#[trigger] s[i])
}

/// Whether a character is a shell metacharacter that host input may not
/// hold.
pub fn is_disallowed_shell_char(ch: char) -> (r: bool)
    ensures
        r == is_shell_meta(ch),
{
    char_is_ws(ch) || ch == ';' || ch == '|' || ch == '&' || ch == '$' || ch == '(' || ch == ')'
        || ch == '`' || ch == '"' || ch == '\'' || ch == '<' || ch == '>' || ch == '\\'
}

/// Whether any character of `s` is a shell metacharacter.
pub fn any_disallowed_shell_char(s: &str) -> (r: bool)
    ensures
        r == has_shell_meta(s@),
{
    let n = s.unicode_len();
    let mut i: usize = 0;
    while i < n
        invariant
            i <= n,
            n == s@.len(),
            forall|k: int| 0 <= k < i ==> !is_shell_meta(#[trigger] s@[k]),
        decreases n - i,
    {
        if is_disallowed_shell_char(s.get_char(i)) {
            return true;
        }
        i = i + 1;
    }
    false
}

/// Characters allowed in a systemd unit name.
pub open spec fn is_unit_char(c: char) -> bool {
    is_alnum(c) || c == '.' || c == '_' || c == '-' || c == '@'
}

/// The rule for systemd unit names, on the trimmed input: `None` when the name
/// is accepted, otherwise the error code, checked in this order.
pub open spec fn unit_name_error(raw: Seq<char>) -> Option<Seq<char>> {
    let t = trim(raw);
    if t.len() == 0 {
        Some("unit-empty"@)
    } else if !ends_with(t, ".service"@) {
        Some("unit-not-service"@)
    } else if utf8_len(t) > 200 {
        Some("unit-too-long"@)
    } else if t.contains('/') {
        Some("unit-invalid-char-/"@)
    } else if exists|i: int| 0 <= i < t.len() && !is_unit_char(#[trigger] t[i]) {
        Some("unit-invalid-char"@)
    } else {
        None
    }
}

/// Validates a systemd `.service` unit name.
#[verifier::loop_isolation(false)]
pub fn validate_systemd_unit_name(raw: &str) -> (r: Result<(), String>)
    ensures
        r is Ok <==> unit_name_error(raw@) is None,
        r matches Err(e) ==> unit_name_error(raw@) == Some(e@),
{
    let trimmed = trim_str(raw);
    if trimmed.unicode_len() == 0 {
        return Err(String::from_str("unit-empty"));
    }
    if !str_ends_with(trimmed, ".service") {
        return Err(String::from_str("unit-not-service"));
    }
    if trimmed.len() > 200 {
        return Err(String::from_str("unit-too-long"));
    }
    if str_contains_char(trimmed, '/') {
        return Err(String::from_str("unit-invalid-char-/"));
    }
    let n = trimmed.unicode_len();
    let mut i: usize = 0;
    while i < n
        invariant
            i <= n,
            n == trimmed@.len(),
            forall|k: int| 0 <= k < i ==> is_unit_char(#[trigger] trimmed@[k]),
        decreases n - i,
    {
        let ch = trimmed.get_char(i);
        let ok = char_is_alnum(ch) || ch == '.' || ch == '_' || ch == '-' || ch == '@';
        if !ok {
            assert(!is_unit_char(trimmed@[i as int]));
            return Err(String::from_str("unit-invalid-char"));
        }
        i = i + 1;
    }
    Ok(())
}

/// The rule for directory entry names received from a host.
pub open spec fn dir_entry_error(name: Seq<char>) -> Option<Seq<char>> {
    if name.len() == 0 {
        Some("name-empty"@)
    } else if name == "."@ || name == ".."@ {
        Some("name-dot"@)
    } else if name.contains('/') {
        Some("name-has-slash"@)
    } else if utf8_len(name) > 255 {
        Some("name-too-long"@)
    } else if has_shell_meta(name) {
        Some("name-unsafe-char"@)
    } else {
        None
    }
}

/// Validates a single directory entry name.
pub fn validate_dir_entry_name(name: &str) -> (r: Result<(), String>)
    ensures
        r is Ok <==> dir_entry_error(name@) is None,
        r matches Err(e) ==> dir_entry_error(name@) == Some(e@),
{
    if name.unicode_len() == 0 {
        return Err(String::from_str("name-empty"));
    }
    if str_eq(name, ".") || str_eq(name, "..") {
        return Err(String::from_str("name-dot"));
    }
    if str_contains_char(name, '/') {
        return Err(String::from_str("name-has-slash"));
    }
    if name.len() > 255 {
        return Err(String::from_str("name-too-long"));
    }
    if any_disallowed_shell_char(name) {
        return Err(String::from_str("name-unsafe-char"));
    }
    Ok(())
}

/// The rule for SSH destinations, on the trimmed input.
pub open spec fn ssh_target_error(raw: Seq<char>) -> Option<Seq<char>> {
    let t = trim(raw);
    if t.len() == 0 {
        Some("ssh-target-empty"@)
    } else if utf8_len(t) > 512 {
        Some("ssh-target-too-long"@)
    } else if t[0] == '-' {
        Some("ssh-target-invalid-leading-dash"@)
    } else if has_shell_meta(t) {
        Some("ssh-target-unsafe-char"@)
    } else {
        None
    }
}

/// Validates an SSH destination; a leading `-` would be read as an option.
pub fn validate_ssh_target(raw: &str) -> (r: Result<(), String>)
    ensures
        r is Ok <==> ssh_target_error(raw@) is None,
        r matches Err(e) ==> ssh_target_error(raw@) == Some(e@),
{
    let trimmed = trim_str(raw);
    if trimmed.unicode_len() == 0 {
        return Err(String::from_str("ssh-target-empty"));
    }
    if trimmed.len() > 512 {
        return Err(String::from_str("ssh-target-too-long"));
    }
    if trimmed.get_char(0) == '-' {
        return Err(String::from_str("ssh-target-invalid-leading-dash"));
    }
    if any_disallowed_shell_char(trimmed) {
        return Err(String::from_str("ssh-target-unsafe-char"));
    }
    Ok(())
}


/// Characters allowed in one segment of a host path.
pub open spec fn is_path_seg_char(c: char) -> bool {
    is_alnum(c) || c == '.' || c == '_' || c == '-'
}

/// The verdict on one `'/'`-separated piece of an absolute path. Empty pieces
/// and `"."` are no path components (`Path::components` skips them); `".."`
/// is a parent-directory component, which is refused.
pub open spec fn path_seg_error(seg: Seq<char>) -> Option<Seq<char>> {
    if seg.len() == 0 || seg == "."@ {
        None
    } else if seg == ".."@ {
        Some("path-invalid-component"@)
    } else if exists|i: int| 0 <= i < seg.len() && !is_path_seg_char(#[trigger] seg[i]) {
        Some("path-invalid-char"@)
    } else {
        None
    }
}

/// The verdict on the first refused piece, in order.
pub open spec fn first_seg_error(segs: Seq<Seq<char>>) -> Option<Seq<char>>
    decreases segs.len(),
{
    if segs.len() == 0 {
        None
    } else {
        match first_seg_error(segs.drop_last()) {
            Some(e) => Some(e),
            None => path_seg_error(segs.last()),
        }
    }
}

/// The rule for absolute host paths: `None` when accepted, otherwise the
/// error code, checked in this order.
pub open spec fn abs_path_error(p: Seq<char>) -> Option<Seq<char>> {
    if !(p.len() > 0 && p[0] == '/') {
        Some("path-not-absolute"@)
    } else if trim(p).len() == 0 {
        Some("path-empty"@)
    } else if utf8_len(p) > 4096 {
        Some("path-too-long"@)
    } else if has_shell_meta(p) {
        Some("path-unsafe-char"@)
    } else {
        first_seg_error(split(p, '/'))
    }
}

/// A refusal found in a prefix of the pieces is the refusal of the whole.
proof fn lemma_first_seg_error_prefix(segs: Seq<Seq<char>>, j: int)
    requires
        0 <= j <= segs.len(),
        first_seg_error(segs.take(j)) is Some,
    ensures
        first_seg_error(segs) == first_seg_error(segs.take(j)),
    decreases segs.len() - j,
{
    if j < segs.len() {
        assert(segs.take(j + 1).drop_last() =~= segs.take(j));
        lemma_first_seg_error_prefix(segs, j + 1);
    } else {
        assert(segs.take(j) =~= segs);
    }
}

/// The verdict on one path piece.
#[verifier::loop_isolation(false)]
fn check_path_seg(seg: &str) -> (r: Result<(), String>)
    ensures
        r is Ok <==> path_seg_error(seg@) is None,
        r matches Err(e) ==> path_seg_error(seg@) == Some(e@),
{
    let n = seg.unicode_len();
    if n == 0 || str_eq(seg, ".") {
        return Ok(());
    }
    if str_eq(seg, "..") {
        return Err(String::from_str("path-invalid-component"));
    }
    let mut i: usize = 0;
    while i < n
        invariant
            i <= n,
            n == seg@.len(),
            forall|k: int| 0 <= k < i ==> is_path_seg_char(#[trigger] seg@[k]),
        decreases n - i,
    {
        let ch = seg.get_char(i);
        if !(char_is_alnum(ch) || ch == '.' || ch == '_' || ch == '-') {
            assert(!is_path_seg_char(seg@[i as int]));
            return Err(String::from_str("path-invalid-char"));
        }
        i = i + 1;
    }
    Ok(())
}

/// Validates an absolute host path: no shell metacharacters, no `..`, and
/// only safe characters in each component.
#[verifier::loop_isolation(false)]
pub fn validate_host_abs_path(path: &str) -> (r: Result<(), String>)
    ensures
        r is Ok <==> abs_path_error(path@) is None,
        r matches Err(e) ==> abs_path_error(path@) == Some(e@),
{
    let n = path.unicode_len();
    if !(n > 0 && path.get_char(0) == '/') {
        return Err(String::from_str("path-not-absolute"));
    }
    if trim_str(path).unicode_len() == 0 {
        return Err(String::from_str("path-empty"));
    }
    if path.len() > 4096 {
        return Err(String::from_str("path-too-long"));
    }
    if any_disallowed_shell_char(path) {
        return Err(String::from_str("path-unsafe-char"));
    }
    let segs = split_char(path, '/');
    let k = segs.len();
    let mut i: usize = 0;
    proof {
        assert(views(segs@).take(0) =~= Seq::<Seq<char>>::empty());
    }
    while i < k
        invariant
            i <= k,
            k == segs@.len(),
            views(segs@) == split(path@, '/'),
            first_seg_error(views(segs@).take(i as int)) is None,
        decreases k - i,
    {
        proof {
            assert(views(segs@).take(i + 1).drop_last() =~= views(segs@).take(i as int));
            assert(views(segs@)[i as int] == segs@[i as int]@);
        }
        match check_path_seg(segs[i].as_str()) {
            Ok(()) => {},
            Err(e) => {
                proof {
                    lemma_first_seg_error_prefix(views(segs@), i + 1);
                }
                return Err(e);
            },
        }
        i = i + 1;
    }
    proof {
        assert(views(segs@).take(k as int) =~= views(segs@));
    }
    Ok(())
}

/// No refusal among the pieces means every piece is accepted.
proof fn lemma_first_seg_error_none(segs: Seq<Seq<char>>)
    requires
        first_seg_error(segs) is None,
    ensures
        forall|k: int| 0 <= k < segs.len() ==> path_seg_error(#[trigger] segs[k]) is None,
    decreases segs.len(),
{
    if segs.len() > 0 {
        lemma_first_seg_error_none(segs.drop_last());
        assert forall|k: int| 0 <= k < segs.len() implies path_seg_error(#[trigger] segs[k]) is None by {
            if k < segs.len() - 1 {
                assert(segs[k] == segs.drop_last()[k]);
            }
        }
    }
}

/// An accepted piece holds only path characters.
proof fn lemma_seg_chars(seg: Seq<char>)
    requires
        path_seg_error(seg) is None,
    ensures
        forall|j: int| 0 <= j < seg.len() ==> is_path_seg_char(#[trigger] seg[j]),
{
    reveal_strlit(".");
    reveal_strlit("..");
    if seg == "."@ {
        assert forall|j: int| 0 <= j < seg.len() implies is_path_seg_char(#[trigger] seg[j]) by {
            assert(seg[j] == '.');
        }
    }
}

/// When every piece between `/` holds only path characters, so does the
/// text, apart from its `/` separators.
proof fn lemma_split_path_chars(s: Seq<char>)
    requires
        forall|k: int, j: int|
            0 <= k < split(s, '/').len() && 0 <= j < split(s, '/')[k].len() ==> is_path_seg_char(
                #[trigger] split(s, '/')[k][j],
            ),
    ensures
        forall|i: int| 0 <= i < s.len() ==> s[i] == '/' || is_path_seg_char(#[trigger] s[i]),
    decreases s.len(),
{
    if s.len() > 0 {
        let e = s.drop_last();
        let p = split(e, '/');
        let q = split(s, '/');
        crate::text::lemma_split_nonempty(e, '/');
        assert forall|k: int, j: int| 0 <= k < p.len() && 0 <= j < p[k].len() implies is_path_seg_char(
            #[trigger] p[k][j],
        ) by {
            if s.last() == '/' {
                assert(q[k] == p[k]);
                assert(q[k][j] == p[k][j]);
            } else if k < p.len() - 1 {
                assert(q[k] == p[k]);
                assert(q[k][j] == p[k][j]);
            } else {
                assert(q[k] == p[k].push(s.last()));
                assert(q[k][j] == p[k][j]);
            }
        }
        lemma_split_path_chars(e);
        if s.last() != '/' {
            let kk = p.len() - 1;
            assert(q[kk] == p[kk].push(s.last()));
            assert(q[kk][q[kk].len() - 1] == s.last());
        }
        assert forall|i: int| 0 <= i < s.len() implies s[i] == '/' || is_path_seg_char(#[trigger] s[i]) by {
            if i < s.len() - 1 {
                assert(s[i] == e[i]);
            }
        }
    }
}

/// An accepted host path holds only letters, digits, `.`, `_`, `-` and
/// `/`.
pub proof fn lemma_host_path_chars(raw: Seq<char>)
    requires
        host_path_parse(raw) is Ok,
    ensures
        forall|i: int|
            0 <= i < host_path_parse(raw)->Ok_0.len() ==> host_path_parse(raw)->Ok_0[i] == '/' || is_path_seg_char(
                #[trigger] host_path_parse(raw)->Ok_0[i],
            ),
{
    let t = trim(raw);
    let segs = split(t, '/');
    lemma_first_seg_error_none(segs);
    assert forall|k: int, j: int| 0 <= k < segs.len() && 0 <= j < segs[k].len() implies is_path_seg_char(
        #[trigger] segs[k][j],
    ) by {
        assert(path_seg_error(segs[k]) is None);
        lemma_seg_chars(segs[k]);
    }
    lemma_split_path_chars(t);
}

/// A path `validate_host_abs_path` accepts is absolute, at most 4096
/// bytes long, made only of letters, digits, `.`, `_`, `-` and `/` (so no
/// shell metacharacter), and has no `..` component.
pub proof fn lemma_abs_path_accepted(p: Seq<char>)
    requires
        abs_path_error(p) is None,
    ensures
        p.len() > 0 && p[0] == '/',
        utf8_len(p) <= 4096,
        !has_shell_meta(p),
        forall|i: int| 0 <= i < p.len() ==> p[i] == '/' || is_path_seg_char(#[trigger] p[i]),
        forall|k: int| 0 <= k < split(p, '/').len() ==> #[trigger] split(p, '/')[k] != ".."@,
{
    let segs = split(p, '/');
    lemma_first_seg_error_none(segs);
    assert forall|k: int, j: int| 0 <= k < segs.len() && 0 <= j < segs[k].len() implies is_path_seg_char(
        #[trigger] segs[k][j],
    ) by {
        assert(path_seg_error(segs[k]) is None);
        lemma_seg_chars(segs[k]);
    }
    lemma_split_path_chars(p);
    reveal_strlit("..");
    reveal_strlit(".");
    assert(".."@ != "."@) by {
        assert(".."@.len() != "."@.len());
    }
    assert(path_seg_error(".."@) is Some);
    assert forall|k: int| 0 <= k < segs.len() implies #[trigger] segs[k] != ".."@ by {
        assert(path_seg_error(segs[k]) is None);
    }
}

/// A string without whitespace characters is its own trim.
pub proof fn lemma_trim_no_ws(s: Seq<char>)
    requires
        forall|i: int| 0 <= i < s.len() ==> !is_ws(#[trigger] s[i]),
    ensures
        trim(s) == s,
{
    if s.len() > 0 {
        assert(!is_ws(s[0]));
        assert(!is_ws(s[s.len() - 1]));
    }
}

/// The outcome of `HostAbsPath::parse` on `raw`: the trimmed path, or an error.
pub open spec fn host_path_parse(raw: Seq<char>) -> Result<Seq<char>, Seq<char>> {
    let t = trim(raw);
    if t.len() == 0 {
        Err("path-empty"@)
    } else {
        match abs_path_error(t) {
            Some(e) => Err(e),
            None => Ok(t),
        }
    }
}

/// An absolute host path that passed `validate_host_abs_path`.
#[derive(Clone, Debug)]
pub struct HostAbsPath(String);

impl View for HostAbsPath {
    type V = Seq<char>;

    closed spec fn view(&self) -> Seq<char> {
        self.0@
    }
}

impl HostAbsPath {
    /// Trims `raw` and validates it as an absolute host path.
    pub fn parse(raw: &str) -> (r: Result<Self, String>)
        ensures
            r matches Ok(p) ==> host_path_parse(raw@) == Ok::<Seq<char>, Seq<char>>(p@),
            r matches Err(e) ==> host_path_parse(raw@) == Err::<Seq<char>, Seq<char>>(e@),
    {
        let trimmed = trim_str(raw);
        if trimmed.unicode_len() == 0 {
            return Err(String::from_str("path-empty"));
        }
        match validate_host_abs_path(trimmed) {
            Ok(()) => {},
            Err(e) => {
                return Err(e);
            },
        }
        proof {
            lemma_trim_trim(raw@);
        }
        Ok(HostAbsPath(owned(trimmed)))
    }

    /// The path text.
    pub fn as_str(&self) -> (r: &str)
        ensures
            r@ == self@,
    {
        self.0.as_str()
    }
}


/// Which kind of host a backend reaches.
#[derive(Clone, Copy, Debug, PartialEq, Eq, Structural)]
pub enum HostBackendKind {
    Local,
    Ssh,
}

/// The name of a backend kind.
pub open spec fn kind_name(k: HostBackendKind) -> Seq<char> {
    match k {
        HostBackendKind::Local => "local"@,
        HostBackendKind::Ssh => "ssh"@,
    }
}

impl HostBackendKind {
    /// The name used in logs and task metadata.
    pub fn as_str(self) -> (r: &'static str)
        ensures
            r@ == kind_name(self),
    {
        match self {
            HostBackendKind::Local => "local",
            HostBackendKind::Ssh => "ssh",
        }
    }
}

/// How the host backend is chosen: SSH when a target is configured.
#[derive(Clone, Debug)]
pub struct HostBackendConfig {
    pub ssh_target: Option<String>,
}

/// File facts reported by a host; `modified` is in seconds since the epoch.
#[derive(Clone, Debug)]
pub struct HostFileMeta {
    pub is_file: bool,
    pub is_dir: bool,
    pub modified: Option<u64>,
}

/// Errors of host operations.
#[derive(Clone, Debug)]
pub enum HostBackendError {
    InvalidInput(String),
    ExecFailed(String),
    NonZeroExit { exit: Option<i32>, stderr: String },
    Io(String),
}

/// The code of each error variant.
pub open spec fn error_kind_name(e: HostBackendError) -> Seq<char> {
    match e {
        HostBackendError::InvalidInput(_) => "invalid-input"@,
        HostBackendError::ExecFailed(_) => "exec-failed"@,
        HostBackendError::NonZeroExit { .. } => "non-zero-exit"@,
        HostBackendError::Io(_) => "io"@,
    }
}

impl HostBackendError {
    /// A short machine-readable code for the error.
    pub fn kind(&self) -> (r: &'static str)
        ensures
            r@ == error_kind_name(*self),
    {
        match self {
            HostBackendError::InvalidInput(_) => "invalid-input",
            HostBackendError::ExecFailed(_) => "exec-failed",
            HostBackendError::NonZeroExit { .. } => "non-zero-exit",
            HostBackendError::Io(_) => "io",
        }
    }
}

/// The human-readable rendering of a host error.
pub open spec fn error_message(e: HostBackendError) -> Seq<char> {
    match e {
        HostBackendError::InvalidInput(m) => "invalid-input: "@ + m@,
        HostBackendError::ExecFailed(m) => "exec-failed: "@ + m@,
        HostBackendError::Io(m) => "io: "@ + m@,
        HostBackendError::NonZeroExit { exit, stderr } => {
            let code = match exit {
                Some(c) => int_decimal(c as int),
                None => "signal"@,
            };
            if trim(stderr@).len() == 0 {
                "non-zero-exit: "@ + code
            } else {
                "non-zero-exit: "@ + code + " stderr="@ + trim(stderr@)
            }
        },
    }
}

/// Renders a host error for logs and task summaries.
pub fn host_backend_error_to_string(err: HostBackendError) -> (r: String)
    ensures
        r@ == error_message(err),
{
    match err {
        HostBackendError::InvalidInput(msg) => concat("invalid-input: ", msg.as_str()),
        HostBackendError::ExecFailed(msg) => concat("exec-failed: ", msg.as_str()),
        HostBackendError::Io(msg) => concat("io: ", msg.as_str()),
        HostBackendError::NonZeroExit { exit, stderr } => {
            let code = match exit {
                Some(c) => i64_to_string(c as i64),
                None => String::from_str("signal"),
            };
            let mut out = concat("non-zero-exit: ", code.as_str());
            let t = trim_str(stderr.as_str());
            if t.unicode_len() != 0 {
                out.append(" stderr=");
                out.append(t);
            }
            out
        },
    }
}

/// The rule for a token placed on a remote command line.
pub open spec fn shell_token_error(t: Seq<char>) -> Option<Seq<char>> {
    if trim(t).len() == 0 {
        Some("token-empty"@)
    } else if has_shell_meta(t) {
        Some("token-unsafe-char"@)
    } else {
        None
    }
}

/// Validates one remote command-line token.
pub fn validate_shell_token(token: &str) -> (r: Result<(), HostBackendError>)
    ensures
        r is Ok <==> shell_token_error(token@) is None,
        r matches Err(e) ==> e matches HostBackendError::InvalidInput(m) && shell_token_error(
            token@,
        ) == Some(m@),
{
    if trim_str(token).unicode_len() == 0 {
        return Err(HostBackendError::InvalidInput(String::from_str("token-empty")));
    }
    if any_disallowed_shell_char(token) {
        return Err(HostBackendError::InvalidInput(String::from_str("token-unsafe-char")));
    }
    Ok(())
}

/// The commands that may lead a remote command line.
pub open spec fn is_allowed_remote_command(c: Seq<char>) -> bool {
    ||| c == "podman"@
    ||| c == "systemctl"@
    ||| c == "journalctl"@
    ||| c == "busctl"@
    ||| c == "ls"@
    ||| c == "cat"@
    ||| c == "test"@
    ||| c == "stat"@
}

/// The first refused token, in order.
pub open spec fn first_token_error(ts: Seq<Seq<char>>) -> Option<Seq<char>>
    decreases ts.len(),
{
    if ts.len() == 0 {
        None
    } else {
        match first_token_error(ts.drop_last()) {
            Some(e) => Some(e),
            None => shell_token_error(ts.last()),
        }
    }
}

/// The rule for a whole remote command line.
pub open spec fn remote_argv_error(argv: Seq<Seq<char>>) -> Option<Seq<char>> {
    if argv.len() == 0 {
        Some("remote-argv-empty"@)
    } else if !is_allowed_remote_command(argv[0]) {
        Some("remote-command-not-allowed"@)
    } else {
        first_token_error(argv)
    }
}

/// A refused token in a prefix is the first refused token of the whole.
proof fn lemma_first_token_error_prefix(ts: Seq<Seq<char>>, j: int)
    requires
        0 <= j <= ts.len(),
        first_token_error(ts.take(j)) is Some,
    ensures
        first_token_error(ts) == first_token_error(ts.take(j)),
    decreases ts.len() - j,
{
    if j < ts.len() {
        assert(ts.take(j + 1).drop_last() =~= ts.take(j));
        lemma_first_token_error_prefix(ts, j + 1);
    } else {
        assert(ts.take(j) =~= ts);
    }
}

/// Validates a remote command line: a whitelisted command and safe tokens.
pub fn validate_remote_argv(remote_argv: &[String]) -> (r: Result<(), HostBackendError>)
    ensures
        r is Ok <==> remote_argv_error(views(remote_argv@)) is None,
        r matches Err(e) ==> e matches HostBackendError::InvalidInput(m) && remote_argv_error(
            views(remote_argv@),
        ) == Some(m@),
{
    let k = remote_argv.len();
    if k == 0 {
        assert(views(remote_argv@).len() == 0);
        return Err(HostBackendError::InvalidInput(String::from_str("remote-argv-empty")));
    }
    let head = remote_argv[0].as_str();
    proof {
        assert(views(remote_argv@)[0] == head@);
    }
    if !(str_eq(head, "podman") || str_eq(head, "systemctl") || str_eq(head, "journalctl")
        || str_eq(head, "busctl") || str_eq(head, "ls") || str_eq(head, "cat") || str_eq(
        head,
        "test",
    ) || str_eq(head, "stat")) {
        return Err(HostBackendError::InvalidInput(String::from_str("remote-command-not-allowed")));
    }
    let mut i: usize = 0;
    proof {
        assert(views(remote_argv@).take(0) =~= Seq::<Seq<char>>::empty());
    }
    while i < k
        invariant
            i <= k,
            k == remote_argv@.len(),
            k > 0,
            is_allowed_remote_command(views(remote_argv@)[0]),
            first_token_error(views(remote_argv@).take(i as int)) is None,
        decreases k - i,
    {
        proof {
            assert(views(remote_argv@).take(i + 1).drop_last() =~= views(remote_argv@).take(
                i as int,
            ));
            assert(views(remote_argv@)[i as int] == remote_argv@[i as int]@);
        }
        match validate_shell_token(remote_argv[i].as_str()) {
            Ok(()) => {},
            Err(e) => {
                proof {
                    lemma_first_token_error_prefix(views(remote_argv@), i + 1);
                }
                return Err(e);
            },
        }
        i = i + 1;
    }
    proof {
        assert(views(remote_argv@).take(k as int) =~= views(remote_argv@));
    }
    Ok(())
}

/// Characters of a plain SSH config alias.
pub open spec fn is_alias_char(c: char) -> bool {
    is_alnum(c) || c == '_' || c == '-'
}

/// What of an SSH target may appear in logs: a plain alias verbatim, anything
/// else (which may hold users or addresses) redacted.
pub open spec fn target_hint(target: Seq<char>) -> Seq<char> {
    let t = trim(target);
    if t.len() == 0 {
        "<empty>"@
    } else if forall|i: int| 0 <= i < t.len() ==> is_alias_char(#[trigger] t[i]) {
        t
    } else {
        "<redacted>"@
    }
}

/// The log-safe form of an SSH target.
pub fn ssh_target_hint(target: &str) -> (r: String)
    ensures
        r@ == target_hint(target@),
{
    let trimmed = trim_str(target);
    let n = trimmed.unicode_len();
    if n == 0 {
        return String::from_str("<empty>");
    }
    let mut i: usize = 0;
    while i < n
        invariant
            i <= n,
            n == trimmed@.len(),
            trimmed@ == trim(target@),
            forall|k: int| 0 <= k < i ==> is_alias_char(#[trigger] trimmed@[k]),
        decreases n - i,
    {
        let ch = trimmed.get_char(i);
        if !(char_is_alnum(ch) || ch == '_' || ch == '-') {
            assert(!is_alias_char(trimmed@[i as int]));
            return String::from_str("<redacted>");
        }
        i = i + 1;
    }
    owned(trimmed)
}

/// Text about an SSH target as it may be logged: occurrences of a target
/// that is no plain alias are replaced by `"<redacted>"`.
pub open spec fn redacted_text(target: Seq<char>, text: Seq<char>) -> Seq<char> {
    if target_hint(target) == "<redacted>"@ {
        replace_all(text, target, "<redacted>"@)
    } else {
        text
    }
}

/// A trimmed non-empty string comes from a non-empty one.
proof fn lemma_trim_nonempty(s: Seq<char>)
    ensures
        trim(s).len() <= s.len(),
{
    lemma_trim_start_head(s);
    lemma_trim_end_tail(trim_start(s));
}

/// Redacts an SSH target from an error message or command output.
pub fn redact_ssh_error(target: &str, err: &str) -> (r: String)
    ensures
        r@ == redacted_text(target@, err@),
{
    let hint = ssh_target_hint(target);
    if str_eq(hint.as_str(), "<redacted>") {
        proof {
            reveal_strlit("<redacted>");
            reveal_strlit("<empty>");
            lemma_trim_nonempty(target@);
            if trim(target@).len() == 0 {
                assert(target_hint(target@) == "<empty>"@);
            }
        }
        replace_str(err, target, "<redacted>")
    } else {
        owned(err)
    }
}


/// The outcome of `SystemdUnitName::parse` on `raw`.
pub open spec fn unit_name_parse(raw: Seq<char>) -> Result<Seq<char>, Seq<char>> {
    match unit_name_error(raw) {
        Some(e) => Err(e),
        None => Ok(trim(raw)),
    }
}

/// A systemd service unit name that passed `validate_systemd_unit_name`.
#[derive(Clone, Debug)]
pub struct SystemdUnitName(String);

impl View for SystemdUnitName {
    type V = Seq<char>;

    closed spec fn view(&self) -> Seq<char> {
        self.0@
    }
}

impl SystemdUnitName {
    /// Validates `raw` and keeps its trimmed form.
    pub fn parse(raw: &str) -> (r: Result<Self, String>)
        ensures
            r matches Ok(u) ==> unit_name_parse(raw@) == Ok::<Seq<char>, Seq<char>>(u@),
            r matches Err(e) ==> unit_name_parse(raw@) == Err::<Seq<char>, Seq<char>>(e@),
    {
        match validate_systemd_unit_name(raw) {
            Ok(()) => {},
            Err(e) => {
                return Err(e);
            },
        }
        Ok(SystemdUnitName(owned(trim_str(raw))))
    }

    /// The unit name.
    pub fn as_str(&self) -> (r: &str)
        ensures
            r@ == self@,
    {
        self.0.as_str()
    }
}

/// The result of running a command on the host. `exit_code` is `None` when
/// the process ended by a signal; output has been trimmed.
#[derive(Clone, Debug)]
pub struct CommandExecResult {
    pub exit_code: Option<i32>,
    pub stdout: String,
    pub stderr: String,
}

impl CommandExecResult {
    /// Success is a zero exit status.
    pub fn success(&self) -> (r: bool)
        ensures
            r == (self.exit_code == Some(0i32)),
    {
        match self.exit_code {
            Some(c) => c == 0,
            None => false,
        }
    }
}

/// The options every SSH invocation carries.
pub open spec fn ssh_default_opts() -> Seq<Seq<char>> {
    seq![
        "-oBatchMode=yes"@,
        "-oStrictHostKeyChecking=accept-new"@,
        "-oConnectTimeout=5"@,
        "-oConnectionAttempts=1"@,
    ]
}

/// Runs commands on a remote host through `ssh`.
#[derive(Debug)]
pub struct SshHostBackend {
    target: String,
    default_opts: Vec<String>,
}

impl SshHostBackend {
    /// The SSH destination.
    pub closed spec fn target(&self) -> Seq<char> {
        self.target@
    }

    /// The options placed before the destination.
    pub closed spec fn opts(&self) -> Seq<Seq<char>> {
        views(self.default_opts@)
    }

    #[verifier::type_invariant]
    spec fn inv(&self) -> bool {
        &&& ssh_target_error(self.target@) is None
        &&& views(self.default_opts@) == ssh_default_opts()
    }

    /// A backend for `target`, which must pass `validate_ssh_target`.
    pub fn new(target: String) -> (r: Result<Self, String>)
        ensures
            r is Ok <==> ssh_target_error(target@) is None,
            r matches Ok(b) ==> b.target() == target@ && b.opts() == ssh_default_opts(),
            r matches Err(e) ==> ssh_target_error(target@) == Some(e@),
    {
        match validate_ssh_target(target.as_str()) {
            Ok(()) => {},
            Err(e) => {
                return Err(e);
            },
        }
        let mut opts: Vec<String> = Vec::new();
        opts.push(String::from_str("-oBatchMode=yes"));
        opts.push(String::from_str("-oStrictHostKeyChecking=accept-new"));
        opts.push(String::from_str("-oConnectTimeout=5"));
        opts.push(String::from_str("-oConnectionAttempts=1"));
        proof {
            assert(views(opts@) =~= ssh_default_opts());
        }
        Ok(SshHostBackend { target, default_opts: opts })
    }

    /// The full `ssh` argument vector for a validated remote command.
    pub fn ssh_argv_for_test(&self, remote_argv: &[String]) -> (r: Result<
        Vec<String>,
        HostBackendError,
    >)
        ensures
            r is Ok <==> remote_argv_error(views(remote_argv@)) is None,
            r matches Ok(v) ==> views(v@) == self.opts() + seq![self.target()] + views(
                remote_argv@,
            ),
            r matches Err(e) ==> e matches HostBackendError::InvalidInput(m) && remote_argv_error(
                views(remote_argv@),
            ) == Some(m@),
    {
        validate_remote_argv(remote_argv)?;
        let mut argv: Vec<String> = Vec::new();
        let mut i: usize = 0;
        while i < self.default_opts.len()
            invariant
                i <= self.default_opts@.len(),
                views(argv@) == views(self.default_opts@).take(i as int),
            decreases self.default_opts@.len() - i,
        {
            let ghost prev = argv@;
            argv.push(self.default_opts[i].clone());
            proof {
                assert(views(argv@) =~= views(prev).push(self.default_opts@[i as int]@));
                assert(views(self.default_opts@).take(i + 1) =~= views(self.default_opts@).take(
                    i as int,
                ).push(self.default_opts@[i as int]@));
            }
            i = i + 1;
        }
        let ghost mid = argv@;
        argv.push(self.target.clone());
        proof {
            assert(views(self.default_opts@).take(self.default_opts@.len() as int) =~= views(
                self.default_opts@,
            ));
            assert(views(argv@) =~= views(self.default_opts@) + seq![self.target@]);
        }
        let mut j: usize = 0;
        while j < remote_argv.len()
            invariant
                j <= remote_argv@.len(),
                views(argv@) == views(self.default_opts@) + seq![self.target@] + views(
                    remote_argv@,
                ).take(j as int),
            decreases remote_argv@.len() - j,
        {
            let ghost prev = argv@;
            argv.push(remote_argv[j].clone());
            proof {
                assert(views(argv@) =~= views(prev).push(remote_argv@[j as int]@));
                assert(views(remote_argv@).take(j + 1) =~= views(remote_argv@).take(j as int).push(
                    remote_argv@[j as int]@,
                ));
            }
            j = j + 1;
        }
        proof {
            assert(views(remote_argv@).take(remote_argv@.len() as int) =~= views(remote_argv@));
        }
        Ok(argv)
    }

    /// The destination as it may appear in logs.
    pub fn target_hint(&self) -> (r: String)
        ensures
            r@ == target_hint(self.target()),
    {
        ssh_target_hint(self.target.as_str())
    }

    /// Redacts the destination from text produced by a remote command.
    pub fn redact(&self, text: &str) -> (r: String)
        ensures
            r@ == redacted_text(self.target(), text@),
    {
        redact_ssh_error(self.target.as_str(), text)
    }
}

/// A backend that only reports the error that kept the real backend from
/// starting; SSH was requested, so it never falls back to the local host.
#[derive(Clone, Debug)]
pub struct FailingHostBackend {
    kind: HostBackendKind,
    ssh_hint: Option<String>,
    err: String,
}

impl FailingHostBackend {
    /// The kind reported.
    pub closed spec fn spec_kind(&self) -> HostBackendKind {
        self.kind
    }

    /// The target hint reported.
    pub closed spec fn hint(&self) -> Option<Seq<char>> {
        match self.ssh_hint {
            Some(h) => Some(h@),
            None => None,
        }
    }

    /// The error every operation fails with.
    pub closed spec fn error_text(&self) -> Seq<char> {
        self.err@
    }

    /// A failing SSH backend for the given start-up error.
    pub fn ssh(err: String, ssh_target_raw: Option<String>) -> (r: Self)
        ensures
            r.spec_kind() == HostBackendKind::Ssh,
            r.error_text() == err@,
            r.hint() == (match ssh_target_raw {
                Some(t) => Some(target_hint(t@)),
                None => None::<Seq<char>>,
            }),
    {
        let ssh_hint = match &ssh_target_raw {
            Some(t) => Some(ssh_target_hint(t.as_str())),
            None => None,
        };
        FailingHostBackend { kind: HostBackendKind::Ssh, ssh_hint, err }
    }

    /// The error every host operation of this backend returns.
    pub fn failure(&self) -> (r: HostBackendError)
        ensures
            r matches HostBackendError::ExecFailed(m) && m@ == self.error_text(),
    {
        HostBackendError::ExecFailed(self.err.clone())
    }
}

/// Runs commands on the local host.
#[derive(Clone, Copy, Debug)]
pub struct LocalHostBackend;

impl LocalHostBackend {
    /// The local backend.
    pub fn new() -> (r: Self) {
        LocalHostBackend
    }
}

/// What every host backend reports about itself.
pub trait HostBackend {
    /// Which kind of host is reached.
    fn kind(&self) -> HostBackendKind;

    /// A log-safe hint of the SSH target, where there is one.
    fn ssh_target_hint(&self) -> Option<String>;
}

impl HostBackend for LocalHostBackend {
    fn kind(&self) -> (r: HostBackendKind)
        ensures
            r == HostBackendKind::Local,
    {
        HostBackendKind::Local
    }

    fn ssh_target_hint(&self) -> (r: Option<String>)
        ensures
            r is None,
    {
        None
    }
}

impl HostBackend for SshHostBackend {
    fn kind(&self) -> (r: HostBackendKind)
        ensures
            r == HostBackendKind::Ssh,
    {
        HostBackendKind::Ssh
    }

    fn ssh_target_hint(&self) -> (r: Option<String>)
        ensures
            r matches Some(h) && h@ == target_hint(self.target()),
    {
        Some(ssh_target_hint(self.target.as_str()))
    }
}

impl HostBackend for FailingHostBackend {
    fn kind(&self) -> (r: HostBackendKind)
        ensures
            r == self.spec_kind(),
    {
        self.kind
    }

    fn ssh_target_hint(&self) -> (r: Option<String>)
        ensures
            r matches Some(h) ==> self.hint() == Some(h@),
            r is None <==> self.hint() is None,
    {
        self.ssh_hint.clone()
    }
}


/// Arguments for a user-scope systemd tool on the local host.
pub fn user_scoped_args(args: &[String]) -> (r: Vec<String>)
    ensures
        views(r@) == seq!["--user"@] + views(args@),
{
    let mut out: Vec<String> = Vec::new();
    push_str_owned(&mut out, "--user");
    extend_strings(&mut out, args);
    proof {
        assert(views(Seq::<String>::empty()) =~= Seq::<Seq<char>>::empty());
    }
    out
}

/// A remote command line: the tool, `--user` for user-scope tools, then
/// the arguments.
pub fn remote_command(tool: &str, user_scope: bool, args: &[String]) -> (r: Vec<String>)
    ensures
        views(r@) == seq![tool@] + (if user_scope {
            seq!["--user"@]
        } else {
            Seq::<Seq<char>>::empty()
        }) + views(args@),
{
    let mut out: Vec<String> = Vec::new();
    proof {
        assert(views(out@) =~= Seq::<Seq<char>>::empty());
    }
    push_str_owned(&mut out, tool);
    if user_scope {
        push_str_owned(&mut out, "--user");
    }
    extend_strings(&mut out, args);
    proof {
        if user_scope {
            assert(seq![tool@] + seq!["--user"@] =~= seq![tool@].push("--user"@));
        } else {
            assert(seq![tool@] + Seq::<Seq<char>>::empty() =~= seq![tool@]);
        }
    }
    out
}

/// The remote `test <flag> <path>` command line.
pub fn remote_test_argv(flag: &str, path: &HostAbsPath) -> (r: Vec<String>)
    ensures
        views(r@) == seq!["test"@, flag@, path@],
{
    let mut out: Vec<String> = Vec::new();
    push_str_owned(&mut out, "test");
    push_str_owned(&mut out, flag);
    push_str_owned(&mut out, path.as_str());
    proof {
        assert(views(out@) =~= seq!["test"@, flag@, path@]);
    }
    out
}

/// The remote `ls -1A -- <path>` command line.
pub fn remote_ls_argv(path: &HostAbsPath) -> (r: Vec<String>)
    ensures
        views(r@) == seq!["ls"@, "-1A"@, "--"@, path@],
{
    let mut out: Vec<String> = Vec::new();
    push_str_owned(&mut out, "ls");
    push_str_owned(&mut out, "-1A");
    push_str_owned(&mut out, "--");
    push_str_owned(&mut out, path.as_str());
    proof {
        assert(views(out@) =~= seq!["ls"@, "-1A"@, "--"@, path@]);
    }
    out
}

/// The remote `cat -- <path>` command line.
pub fn remote_cat_argv(path: &HostAbsPath) -> (r: Vec<String>)
    ensures
        views(r@) == seq!["cat"@, "--"@, path@],
{
    let mut out: Vec<String> = Vec::new();
    push_str_owned(&mut out, "cat");
    push_str_owned(&mut out, "--");
    push_str_owned(&mut out, path.as_str());
    proof {
        assert(views(out@) =~= seq!["cat"@, "--"@, path@]);
    }
    out
}

/// The remote `stat -c %Y -- <path>` command line (modification time).
pub fn remote_stat_argv(path: &HostAbsPath) -> (r: Vec<String>)
    ensures
        views(r@) == seq!["stat"@, "-c"@, "%Y"@, "--"@, path@],
{
    let mut out: Vec<String> = Vec::new();
    push_str_owned(&mut out, "stat");
    push_str_owned(&mut out, "-c");
    push_str_owned(&mut out, "%Y");
    push_str_owned(&mut out, "--");
    push_str_owned(&mut out, path.as_str());
    proof {
        assert(views(out@) =~= seq!["stat"@, "-c"@, "%Y"@, "--"@, path@]);
    }
    out
}

/// The meaning of a remote `test` run: success means yes, exit 1 means no,
/// anything else is an error.
pub fn test_outcome(result: CommandExecResult) -> (r: Result<bool, HostBackendError>)
    ensures
        result.exit_code == Some(0i32) ==> r == Ok::<bool, HostBackendError>(true),
        result.exit_code == Some(1i32) ==> r == Ok::<bool, HostBackendError>(false),
        result.exit_code != Some(0i32) && result.exit_code != Some(1i32) ==> (r matches Err(
            HostBackendError::NonZeroExit { exit, stderr },
        ) && exit == result.exit_code && stderr@ == result.stderr@),
{
    if result.success() {
        return Ok(true);
    }
    match result.exit_code {
        Some(1) => Ok(false),
        other => Err(HostBackendError::NonZeroExit { exit: other, stderr: result.stderr }),
    }
}

/// The meaning of a remote `busctl` run: exit 127 (command not found) is an
/// execution failure, so callers fall back to `systemctl`; any other outcome
/// is returned as it is.
pub fn busctl_outcome(result: CommandExecResult) -> (r: Result<
    CommandExecResult,
    HostBackendError,
>)
    ensures
        result.exit_code == Some(127i32) ==> (r matches Err(HostBackendError::ExecFailed(m))
            && m@ == "busctl-not-found"@),
        result.exit_code != Some(127i32) ==> r == Ok::<CommandExecResult, HostBackendError>(
            result,
        ),
{
    if result.success() {
        return Ok(result);
    }
    if result.exit_code == Some(127i32) {
        return Err(HostBackendError::ExecFailed(String::from_str("busctl-not-found")));
    }
    Ok(result)
}

/// The output of a command that must succeed, or the error that says it did not.
pub fn require_success(result: CommandExecResult) -> (r: Result<String, HostBackendError>)
    ensures
        result.exit_code == Some(0i32) ==> (r matches Ok(out) && out@ == result.stdout@),
        result.exit_code != Some(0i32) ==> (r matches Err(
            HostBackendError::NonZeroExit { exit, stderr },
        ) && exit == result.exit_code && stderr@ == result.stderr@),
{
    if result.success() {
        Ok(result.stdout)
    } else {
        Err(HostBackendError::NonZeroExit { exit: result.exit_code, stderr: result.stderr })
    }
}

/// The names a remote `ls` listing yields: trimmed lines that are non-empty
/// and pass `validate_dir_entry_name`, in order.
pub open spec fn dir_entries(ls: Seq<Seq<char>>) -> Seq<Seq<char>>
    decreases ls.len(),
{
    if ls.len() == 0 {
        Seq::<Seq<char>>::empty()
    } else {
        let p = dir_entries(ls.drop_last());
        let t = trim(ls.last());
        if t.len() > 0 && dir_entry_error(t) is None {
            p.push(t)
        } else {
            p
        }
    }
}

/// Every name a remote listing yields is a safe basename: not empty,
/// trimmed, and accepted by `validate_dir_entry_name` (no `/`, not `.` or
/// `..`).
pub proof fn lemma_dir_entries_safe(ls: Seq<Seq<char>>)
    ensures
        forall|k: int| 0 <= k < dir_entries(ls).len() ==> {
            let x = #[trigger] dir_entries(ls)[k];
            x.len() > 0 && dir_entry_error(x) is None && trim(x) == x
        },
    decreases ls.len(),
{
    if ls.len() > 0 {
        lemma_dir_entries_safe(ls.drop_last());
        let p = dir_entries(ls.drop_last());
        let t = trim(ls.last());
        lemma_trim_trim(ls.last());
        assert forall|k: int| 0 <= k < dir_entries(ls).len() implies ({
            let x = #[trigger] dir_entries(ls)[k];
            x.len() > 0 && dir_entry_error(x) is None && trim(x) == x
        }) by {
            if k < p.len() {
                assert(dir_entries(ls)[k] == p[k]);
            }
        }
    }
}

/// Treats remote file names as untrusted: keeps only safe basenames.
pub fn list_dir_entries(stdout: &str) -> (r: Vec<String>)
    ensures
        views(r@) == dir_entries(lines(stdout@)),
{
    let ls = lines_of(stdout);
    let mut out: Vec<String> = Vec::new();
    let mut i: usize = 0;
    proof {
        assert(views(ls@).take(0) =~= Seq::<Seq<char>>::empty());
        assert(views(out@) =~= Seq::<Seq<char>>::empty());
    }
    while i < ls.len()
        invariant
            i <= ls@.len(),
            views(ls@) == lines(stdout@),
            views(out@) == dir_entries(views(ls@).take(i as int)),
        decreases ls@.len() - i,
    {
        proof {
            assert(views(ls@).take(i + 1).drop_last() =~= views(ls@).take(i as int));
            assert(views(ls@)[i as int] == ls@[i as int]@);
        }
        let t = trim_str(ls[i].as_str());
        if t.unicode_len() != 0 && validate_dir_entry_name(t).is_ok() {
            push_str_owned(&mut out, t);
        }
        i = i + 1;
    }
    proof {
        assert(views(ls@).take(ls@.len() as int) =~= views(ls@));
    }
    out
}

/// The modification time reported by a remote `stat -c %Y` run.
pub fn stat_mtime(result: &CommandExecResult) -> (r: Option<u64>)
    ensures
        r == (if result.exit_code == Some(0i32) {
            parse_u64(trim(result.stdout@))
        } else {
            None
        }),
{
    if !result.success() {
        return None;
    }
    parse_u64_str(trim_str(result.stdout.as_str()))
}

/// The SSH target setting, trimmed, when not blank.
pub open spec fn ssh_setting_spec(raw: Option<Seq<char>>) -> Option<Seq<char>> {
    match raw {
        Some(v) => if trim(v).len() > 0 {
            Some(trim(v))
        } else {
            None
        },
        None => None,
    }
}

/// The SSH target from the raw value of the setting.
pub fn ssh_target_setting(raw: Option<&str>) -> (r: Option<String>)
    ensures
        match r {
            Some(t) => ssh_setting_spec(crate::config::opt_str(raw)) == Some(t@),
            None => ssh_setting_spec(crate::config::opt_str(raw)) is None,
        },
{
    match raw {
        Some(v) => {
            let t = trim_str(v);
            if t.unicode_len() > 0 {
                Some(owned(t))
            } else {
                None
            }
        },
        None => None,
    }
}

/// The host backend the service runs commands through.
pub enum SelectedBackend {
    Local(LocalHostBackend),
    Ssh(SshHostBackend),
    Failing(FailingHostBackend),
}

/// The host backend: the local host without an SSH target; with one, SSH to
/// it when the target is valid, else a backend that fails every operation
/// with the start-up error. A requested SSH target never falls back to the
/// local host.
pub fn select_backend(ssh_target: Option<String>) -> (r: SelectedBackend)
    ensures
        match ssh_target {
            None => r is Local,
            Some(t) => match ssh_target_error(t@) {
                None => r matches SelectedBackend::Ssh(b) && b.target() == t@,
                Some(e) => r matches SelectedBackend::Failing(b) && b.spec_kind() == HostBackendKind::Ssh
                    && b.error_text() == "ssh-backend-init-failed: "@ + e && b.hint() == Some(
                    target_hint(t@),
                ),
            },
        },
        ssh_target is Some ==> !(r is Local),
{
    match ssh_target {
        None => SelectedBackend::Local(LocalHostBackend::new()),
        Some(t) => {
            let copy = owned(t.as_str());
            match SshHostBackend::new(t) {
                Ok(b) => SelectedBackend::Ssh(b),
                Err(e) => {
                    let msg = concat("ssh-backend-init-failed: ", e.as_str());
                    SelectedBackend::Failing(FailingHostBackend::ssh(msg, Some(copy)))
                },
            }
        },
    }
}

/// How background tasks are started.
#[derive(Clone, Copy, Debug, PartialEq, Eq, Structural)]
pub enum TaskExecutorKind {
    /// A transient unit through `systemd-run`.
    SystemdRun,
    /// A child process of the service.
    LocalChild,
}

/// The choice of task executor: the requested executor when it is one of the
/// two known names; otherwise a local child when an SSH target is set (the
/// remote host's systemd cannot run the local binary), else `systemd-run`.
pub open spec fn executor_kind_spec(requested: Option<Seq<char>>, ssh_configured: bool) -> TaskExecutorKind {
    match ssh_setting_spec(requested) {
        Some(k) => if k == "local-child"@ {
            TaskExecutorKind::LocalChild
        } else if k == "systemd-run"@ {
            TaskExecutorKind::SystemdRun
        } else if ssh_configured {
            TaskExecutorKind::LocalChild
        } else {
            TaskExecutorKind::SystemdRun
        },
        None => if ssh_configured {
            TaskExecutorKind::LocalChild
        } else {
            TaskExecutorKind::SystemdRun
        },
    }
}

/// The task executor from the raw executor setting and whether an SSH target
/// is set.
pub fn executor_kind(requested: Option<&str>, ssh_configured: bool) -> (r: TaskExecutorKind)
    ensures
        r == executor_kind_spec(crate::config::opt_str(requested), ssh_configured),
{
    let fallback = if ssh_configured {
        TaskExecutorKind::LocalChild
    } else {
        TaskExecutorKind::SystemdRun
    };
    match requested {
        Some(v) => {
            let t = trim_str(v);
            if t.unicode_len() == 0 {
                fallback
            } else if str_eq(t, "local-child") {
                TaskExecutorKind::LocalChild
            } else if str_eq(t, "systemd-run") {
                TaskExecutorKind::SystemdRun
            } else {
                fallback
            }
        },
        None => fallback,
    }
}

impl TaskExecutorKind {
    /// The executor's name, as recorded in task metadata.
    pub fn as_str(self) -> (r: &'static str)
        ensures
            r@ == (match self {
                TaskExecutorKind::SystemdRun => "systemd-run"@,
                TaskExecutorKind::LocalChild => "local-child"@,
            }),
    {
        match self {
            TaskExecutorKind::SystemdRun => "systemd-run",
            TaskExecutorKind::LocalChild => "local-child",
        }
    }
}

} // verus!
