//! Filesystem paths as text. Paths are joined the way `PathBuf::push` does:
//! on Unix an absolute component replaces the base, otherwise a single `/`
//! separates the parts; on Windows the rules of drives and roots apply and
//! `\` separates the parts (`path_join_on_host`).
use vstd::prelude::*;

use crate::text::{chars_eq, chars_of, extend_chars, extend_str, is_ascii_alpha, split_chars, split_on, string_of};
use crate::types::HostPlatform;

verus! {

/// `PathBuf::push` on a Unix host.
pub open spec fn path_join(base: Seq<char>, part: Seq<char>) -> Seq<char> {
    if part.len() > 0 && part[0] == '/' {
        part
    } else if base.len() > 0 && base.last() != '/' {
        base + seq!['/'] + part
    } else {
        base + part
    }
}

/// Joins `part` onto `base` (`Path::join`).
pub fn join_chars(base: &[char], part: &[char]) -> (r: Vec<char>)
    ensures
        r@ == path_join(base@, part@),
{
    let mut r: Vec<char> = Vec::new();
    if part.len() > 0 && part[0] == '/' {
        extend_chars(&mut r, part);
        return r;
    }
    extend_chars(&mut r, base);
    if base.len() > 0 && base[base.len() - 1] != '/' {
        r.push('/');
    }
    extend_chars(&mut r, part);
    r
}

/// Joins `part` onto `base` (`Path::join`).
pub fn join_path(base: &str, part: &str) -> (r: String)
    ensures
        r@ == path_join(base@, part@),
{
    let b = chars_of(base);
    let p = chars_of(part);
    let j = join_chars(b.as_slice(), p.as_slice());
    string_of(j.as_slice())
}

/// `base` joined with `stem` followed by `suffix` (the file name
/// `format!("{stem}{suffix}")`).
pub fn join_file(base: &str, stem: &str, suffix: &str) -> (r: String)
    ensures
        r@ == path_join(base@, stem@ + suffix@),
{
    let b = chars_of(base);
    let mut name = chars_of(stem);
    extend_str(&mut name, suffix);
    let j = join_chars(b.as_slice(), name.as_slice());
    string_of(j.as_slice())
}

/// Whether `s` begins with a drive prefix such as `C:`.
pub open spec fn has_drive(s: Seq<char>) -> bool {
    s.len() >= 2 && is_ascii_alpha(s[0]) && s[1] == ':'
}

pub open spec fn is_windows_separator(c: char) -> bool {
    c == '/' || c == '\\'
}

/// `PathBuf::push` on a Windows host: a part with a drive or a UNC start
/// replaces the base; a part that starts at the root keeps only the base's
/// drive; otherwise a `\` separates the parts unless the base ends with a
/// separator, is empty, or is a bare drive.
pub open spec fn windows_path_join(base: Seq<char>, part: Seq<char>) -> Seq<char> {
    if has_drive(part) || (part.len() >= 2 && is_windows_separator(part[0])
        && is_windows_separator(part[1])) {
        part
    } else if part.len() > 0 && is_windows_separator(part[0]) {
        if has_drive(base) {
            base.take(2) + part
        } else {
            part
        }
    } else if base.len() > 0 && !is_windows_separator(base.last()) && !(base.len() == 2
        && has_drive(base)) {
        base + seq!['\\'] + part
    } else {
        base + part
    }
}

/// `PathBuf::push` on the host a layout was made on: a Windows host
/// (`windows`) or a Unix one.
pub open spec fn path_join_on_host(windows: bool, base: Seq<char>, part: Seq<char>) -> Seq<char> {
    if windows {
        windows_path_join(base, part)
    } else {
        path_join(base, part)
    }
}

/// Joins `part` onto `base` the way the host does (see `path_join_on_host`).
pub fn join_path_on_host(windows: bool, base: &str, part: &str) -> (r: String)
    ensures
        r@ == path_join_on_host(windows, base@, part@),
{
    if !windows {
        return join_path(base, part);
    }
    let b = chars_of(base);
    let p = chars_of(part);
    let p_drive = p.len() >= 2 && crate::text::char_is_ascii_alpha(p[0]) && p[1] == ':';
    let b_drive = b.len() >= 2 && crate::text::char_is_ascii_alpha(b[0]) && b[1] == ':';
    let mut r: Vec<char> = Vec::new();
    if p_drive || (p.len() >= 2 && (p[0] == '/' || p[0] == '\\') && (p[1] == '/' || p[1] == '\\')) {
        extend_chars(&mut r, p.as_slice());
    } else if p.len() > 0 && (p[0] == '/' || p[0] == '\\') {
        if b_drive {
            r.push(b[0]);
            r.push(b[1]);
            assert(r@ =~= b@.take(2));
        }
        extend_chars(&mut r, p.as_slice());
    } else {
        extend_chars(&mut r, b.as_slice());
        if b.len() > 0 && !(b[b.len() - 1] == '/' || b[b.len() - 1] == '\\') && !(b.len() == 2
            && b_drive) {
            r.push('\\');
        }
        extend_chars(&mut r, p.as_slice());
    }
    string_of(r.as_slice())
}

/// `base` joined, the way the host does, with the file name `stem`
/// followed by `suffix`.
pub fn join_file_on_host(windows: bool, base: &str, stem: &str, suffix: &str) -> (r: String)
    ensures
        r@ == path_join_on_host(windows, base@, stem@ + suffix@),
{
    let mut name = chars_of(stem);
    extend_str(&mut name, suffix);
    let n = string_of(name.as_slice());
    join_path_on_host(windows, base, n.as_str())
}

/// `std::path::MAIN_SEPARATOR`: the separator of the host this library was
/// built for, `\` on Windows and `/` elsewhere. The contract says only that
/// it is one of the two.
#[verifier::external_body]
pub(crate) fn host_main_separator() -> (r: char)
    ensures
        r == '/' || r == '\\',
{
    std::path::MAIN_SEPARATOR
}

/// The '/'-separated pieces of a path.
pub open spec fn path_pieces(p: Seq<char>) -> Seq<Seq<char>> {
    split_on(p, '/')
}

/// `Path::is_absolute` on a Unix host.
pub open spec fn is_absolute_path(p: Seq<char>) -> bool {
    p.len() > 0 && p[0] == '/'
}

/// Whether some component of a Unix path is `..` (`Component::ParentDir`).
pub open spec fn has_parent_component(p: Seq<char>) -> bool {
    exists|k: int| 0 <= k < path_pieces(p).len() && #[trigger] path_pieces(p)[k] == seq!['.', '.']
}

/// Whether a Unix path has a `..` component.
pub fn path_has_parent_component(p: &[char]) -> (r: bool)
    ensures
        r == has_parent_component(p@),
{
    let pieces = split_chars(p, '/');
    let dotdot = chars_of("..");
    proof {
        reveal_strlit("..");
        assert(dotdot@ =~= seq!['.', '.']);
    }
    let n = pieces.len();
    let mut i: usize = 0;
    while i < n
        invariant
            n == pieces@.len(),
            n == path_pieces(p@).len(),
            forall|k: int| 0 <= k < n ==> #[trigger] pieces@[k]@ == path_pieces(p@)[k],
            dotdot@ == seq!['.', '.'],
            i <= n,
            forall|k: int| 0 <= k < i ==> path_pieces(p@)[k] != seq!['.', '.'],
        decreases n - i,
    {
        if chars_eq(pieces[i].as_slice(), dotdot.as_slice()) {
            assert(path_pieces(p@)[i as int] == seq!['.', '.']);
            return true;
        }
        i = i + 1;
    }
    proof {
        if has_parent_component(p@) {
            let k = choose|k: int|
                0 <= k < path_pieces(p@).len() && #[trigger] path_pieces(p@)[k] == seq!['.', '.'];
            assert(path_pieces(p@)[k] != seq!['.', '.']);
        }
    }
    false
}

/// `c` separates path components on `platform`: `/`, and on Windows also
/// `\`.
pub open spec fn is_separator_on(platform: HostPlatform, c: char) -> bool {
    c == '/' || (platform == HostPlatform::Windows && c == '\\')
}

/// `Path::is_absolute` on `platform`: on Windows a drive letter, `:` and a
/// separator, or a UNC path starting with two separators; elsewhere a
/// leading `/`.
pub open spec fn is_absolute_on(platform: HostPlatform, p: Seq<char>) -> bool {
    if platform == HostPlatform::Windows {
        (p.len() >= 2 && is_separator_on(platform, p[0]) && is_separator_on(platform, p[1])) || (
        p.len() >= 3 && is_ascii_alpha(p[0]) && p[1] == ':' && is_separator_on(platform, p[2]))
    } else {
        is_absolute_path(p)
    }
}

/// The path with every separator of `platform` written as `/`.
pub open spec fn slashed(platform: HostPlatform, p: Seq<char>) -> Seq<char> {
    p.map_values(|c: char| if is_separator_on(platform, c) { '/' } else { c })
}

/// Whether some component of the path on `platform` is `..`
/// (`Component::ParentDir`).
pub open spec fn has_parent_component_on(platform: HostPlatform, p: Seq<char>) -> bool {
    has_parent_component(slashed(platform, p))
}

/// Whether the path is absolute on `platform` (see `is_absolute_on`).
pub fn path_is_absolute_on(platform: HostPlatform, p: &[char]) -> (r: bool)
    ensures
        r == is_absolute_on(platform, p@),
{
    if platform == HostPlatform::Windows {
        (p.len() >= 2 && (p[0] == '/' || p[0] == '\\') && (p[1] == '/' || p[1] == '\\')) || (p.len()
            >= 3 && crate::text::char_is_ascii_alpha(p[0]) && p[1] == ':' && (p[2] == '/' || p[2]
            == '\\'))
    } else {
        p.len() > 0 && p[0] == '/'
    }
}

/// Whether the path has a `..` component on `platform`.
pub fn path_has_parent_component_on(platform: HostPlatform, p: &[char]) -> (r: bool)
    ensures
        r == has_parent_component_on(platform, p@),
{
    let q = slash_chars(platform, p);
    path_has_parent_component(q.as_slice())
}

/// The path with every separator of `platform` written as `/` (see
/// `slashed`).
fn slash_chars(platform: HostPlatform, p: &[char]) -> (q: Vec<char>)
    ensures
        q@ == slashed(platform, p@),
{
    let mut q: Vec<char> = Vec::new();
    let n = p.len();
    let mut i: usize = 0;
    while i < n
        invariant
            n == p@.len(),
            i <= n,
            q@ == slashed(platform, p@).take(i as int),
        decreases n - i,
    {
        let c = p[i];
        let d = if c == '/' || (platform == HostPlatform::Windows && c == '\\') {
            '/'
        } else {
            c
        };
        q.push(d);
        proof {
            assert(slashed(platform, p@).take(i + 1) =~= slashed(platform, p@).take(i as int).push(d));
        }
        i = i + 1;
    }
    assert(q@ =~= slashed(platform, p@));
    q
}

/// What `Path::eq` compares of a path: whether it starts at the root,
/// whether it starts with a `.` component, and its other components, where
/// empty components (repeated or trailing separators) and `.` are dropped.
pub struct PathKey {
    pub rooted: bool,
    pub current: bool,
    pub parts: Seq<Seq<char>>,
}

/// The pieces that are components: not empty and not `.`.
pub open spec fn normal_parts(pieces: Seq<Seq<char>>) -> Seq<Seq<char>>
    decreases pieces.len(),
{
    if pieces.len() == 0 {
        Seq::empty()
    } else {
        let rest = normal_parts(pieces.drop_last());
        if pieces.last().len() == 0 || pieces.last() == seq!['.'] {
            rest
        } else {
            rest.push(pieces.last())
        }
    }
}

/// The key of `p` on `platform` (see `PathKey`): two paths are the same
/// path when their keys are equal.
pub open spec fn path_key(platform: HostPlatform, p: Seq<char>) -> PathKey {
    let q = slashed(platform, p);
    let pieces = split_on(q, '/');
    let rooted = q.len() > 0 && q[0] == '/';
    PathKey { rooted, current: !rooted && pieces[0] == seq!['.'], parts: normal_parts(pieces) }
}

/// Whether `a` and `b` are the same path on `platform`, component by
/// component (`Path::eq`).
pub fn same_path_on(platform: HostPlatform, a: &str, b: &str) -> (r: bool)
    ensures
        r == (path_key(platform, a@) == path_key(platform, b@)),
{
    let (ra, ca, pa) = path_key_parts(platform, a);
    let (rb, cb, pb) = path_key_parts(platform, b);
    if ra != rb || ca != cb || pa.len() != pb.len() {
        proof {
            if pa@.len() != pb@.len() {
                assert(path_key(platform, a@).parts.len() != path_key(platform, b@).parts.len());
            }
        }
        return false;
    }
    let n = pa.len();
    let mut i: usize = 0;
    while i < n
        invariant
            n == pa@.len(),
            n == pb@.len(),
            i <= n,
            forall|k: int| 0 <= k < pa@.len() ==> #[trigger] pa@[k]@ == path_key(platform, a@).parts[k],
            forall|k: int| 0 <= k < pb@.len() ==> #[trigger] pb@[k]@ == path_key(platform, b@).parts[k],
            pa@.len() == path_key(platform, a@).parts.len(),
            pb@.len() == path_key(platform, b@).parts.len(),
            forall|k: int| 0 <= k < i ==> path_key(platform, a@).parts[k] == path_key(platform, b@).parts[k],
        decreases n - i,
    {
        if !chars_eq(pa[i].as_slice(), pb[i].as_slice()) {
            assert(path_key(platform, a@).parts[i as int] != path_key(platform, b@).parts[i as int]);
            return false;
        }
        i = i + 1;
    }
    assert(path_key(platform, a@).parts =~= path_key(platform, b@).parts);
    true
}

fn path_key_parts(platform: HostPlatform, p: &str) -> (r: (bool, bool, Vec<Vec<char>>))
    ensures
        r.0 == path_key(platform, p@).rooted,
        r.1 == path_key(platform, p@).current,
        r.2@.len() == path_key(platform, p@).parts.len(),
        forall|k: int| 0 <= k < r.2@.len() ==> #[trigger] r.2@[k]@ == path_key(platform, p@).parts[k],
{
    let cs = chars_of(p);
    let q = slash_chars(platform, cs.as_slice());
    let pieces = split_chars(q.as_slice(), '/');
    let ghost pv = split_on(q@, '/');
    proof {
        crate::text::lemma_split_on_nonempty(q@, '/');
    }
    let rooted = q.len() > 0 && q[0] == '/';
    let current = !rooted && pieces[0].len() == 1 && pieces[0][0] == '.';
    proof {
        if !rooted && pieces@[0]@.len() == 1 && pieces@[0]@[0] == '.' {
            assert(pv[0] =~= seq!['.']);
        }
    }
    let mut parts: Vec<Vec<char>> = Vec::new();
    let n = pieces.len();
    let mut i: usize = 0;
    while i < n
        invariant
            n == pieces@.len(),
            n == pv.len(),
            i <= n,
            forall|k: int| 0 <= k < pieces@.len() ==> #[trigger] pieces@[k]@ == pv[k],
            parts@.len() == normal_parts(pv.take(i as int)).len(),
            forall|k: int| 0 <= k < parts@.len() ==> #[trigger] parts@[k]@ == normal_parts(
                pv.take(i as int),
            )[k],
        decreases n - i,
    {
        assert(pv.take(i + 1).drop_last() =~= pv.take(i as int));
        assert(pv.take(i + 1).last() == pv[i as int]);
        let piece = &pieces[i];
        let keep = !(piece.len() == 0 || (piece.len() == 1 && piece[0] == '.'));
        proof {
            if piece@.len() == 1 && piece@[0] == '.' {
                assert(pv[i as int] =~= seq!['.']);
            }
            if pv[i as int] == seq!['.'] {
                assert(piece@.len() == 1 && piece@[0] == '.');
            }
        }
        if keep {
            parts.push(piece.clone());
        }
        i = i + 1;
    }
    assert(pv.take(n as int) =~= pv);
    (rooted, current, parts)
}

} // verus!
