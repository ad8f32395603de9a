//! Lexical path handling and the sandbox check.
//!
//! Paths are POSIX-style text: segments separated by `/`. Nothing here
//! touches a filesystem. A caller resolves symbolic links itself and hands the
//! canonical forms to [`confine`], which decides whether the target lies inside
//! the sandbox.

use crate::text::{
    append_chars, chars_of, join, join_chars, same_chars, slice_of, split_chars, split_on,
    string_of, views,
};
use vstd::prelude::*;

verus! {

/// Why a path was refused.
#[derive(Debug, Clone, Copy, PartialEq, Eq, Structural)]
pub enum PathError {
    /// The target does not exist.
    NotFound,
    /// The target lies outside the sandbox.
    PermissionDenied,
}

/// What to do with an absolute path that a client supplies.
#[derive(Debug, Clone, Copy, PartialEq, Eq, Structural)]
pub enum RootPolicy {
    /// Every client path is taken relative to the configured base; root
    /// anchors are discarded like any other non-plain segment.
    FixedRoot,
    /// An absolute client path is taken verbatim.
    AllowAbsolute,
}

/// A segment that names something: not empty, not `.`, not `..`.
pub open spec fn is_plain(seg: Seq<char>) -> bool {
    seg.len() > 0 && seg != seq!['.'] && seg != seq!['.', '.']
}

/// A segment that counts when two paths are compared: not empty, not `.`.
pub open spec fn is_component(seg: Seq<char>) -> bool {
    seg.len() > 0 && seg != seq!['.']
}

/// The predicate by which segments are kept: plain ones only, or every
/// component.
pub open spec fn keeps(plain_only: bool) -> spec_fn(Seq<char>) -> bool {
    |seg: Seq<char>| if plain_only { is_plain(seg) } else { is_component(seg) }
}

/// The plain segments of a path, in order.
pub open spec fn plain_segments(path: Seq<char>) -> Seq<Seq<char>> {
    split_on(path, '/').filter(keeps(true))
}

/// The components of a path, in order.
pub open spec fn components(path: Seq<char>) -> Seq<Seq<char>> {
    split_on(path, '/').filter(keeps(false))
}

/// A path reduced to its plain segments, joined by `/`. The result is
/// relative and holds no `.` or `..`.
pub open spec fn sanitized(path: Seq<char>) -> Seq<char> {
    join(plain_segments(path), seq!['/'])
}

/// The path starts at the root.
pub open spec fn is_rooted(path: Seq<char>) -> bool {
    path.len() > 0 && path[0] == '/'
}

/// `path` is `root` or lies below it, compared component by component.
pub open spec fn within(path: Seq<char>, root: Seq<char>) -> bool {
    is_rooted(path) == is_rooted(root) && components(root).is_prefix_of(components(path))
}

/// `rel` appended below `base`. An empty `rel` gives `base` itself.
pub open spec fn child_path(base: Seq<char>, rel: Seq<char>) -> Seq<char> {
    if rel.len() == 0 {
        base
    } else if base.len() == 0 {
        rel
    } else if base.last() == '/' {
        base + rel
    } else {
        base + seq!['/'] + rel
    }
}

/// The path a request names, before links are resolved.
///
/// No input, or an empty one, names the base. Under
/// [`RootPolicy::AllowAbsolute`] an absolute input is taken as it is. Every
/// other input is sanitized and appended below the base.
pub open spec fn candidate(base: Seq<char>, input: Option<Seq<char>>, policy: RootPolicy) -> Seq<
    char,
> {
    match input {
        None => base,
        Some(p) => if p.len() == 0 {
            base
        } else if policy == RootPolicy::AllowAbsolute && is_rooted(p) {
            p
        } else {
            child_path(base, sanitized(p))
        },
    }
}

fn is_dot(seg: &Vec<char>) -> (r: bool)
    ensures
        r == (seg@ == seq!['.']),
{
    let r = seg.len() == 1 && seg[0] == '.';
    proof {
        if r {
            assert(seg@ =~= seq!['.']);
        }
    }
    r
}

fn is_dot_dot(seg: &Vec<char>) -> (r: bool)
    ensures
        r == (seg@ == seq!['.', '.']),
{
    let r = seg.len() == 2 && seg[0] == '.' && seg[1] == '.';
    proof {
        if r {
            assert(seg@ =~= seq!['.', '.']);
        }
    }
    r
}

/// The segments of `path` that `keeps(plain_only)` accepts.
fn kept_segments(path: &Vec<char>, plain_only: bool) -> (out: Vec<Vec<char>>)
    ensures
        views(out@) == split_on(path@, '/').filter(keeps(plain_only)),
{
    let parts = split_chars(path, '/');
    let mut out: Vec<Vec<char>> = Vec::new();
    let mut i: usize = 0;
    proof {
        reveal(Seq::filter);
        assert(views(parts@).take(0).filter(keeps(plain_only)) == Seq::<Seq<char>>::empty());
    }
    while i < parts.len()
        invariant
            i <= parts.len(),
            views(out@) == views(parts@).take(i as int).filter(keeps(plain_only)),
        decreases parts.len() - i,
    {
        let seg = &parts[i];
        let keep = seg.len() > 0 && !is_dot(seg) && !(plain_only && is_dot_dot(seg));
        proof {
            reveal(Seq::filter);
            let done = views(parts@).take(i + 1);
            assert(done.drop_last() == views(parts@).take(i as int));
            assert(done.last() == seg@);
            assert(keep == keeps(plain_only)(seg@));
        }
        if keep {
            let copy = slice_of(seg, 0, seg.len());
            proof {
                assert(copy@ == seg@);
                assert(views(out@.push(copy)) == views(out@).push(copy@));
            }
            out.push(copy);
        }
        i += 1;
    }
    assert(views(parts@).take(parts.len() as int) == views(parts@));
    out
}

/// Strips every segment that is not plain: empty ones, `.`, `..`, and with
/// them any leading `/`. What is left is joined by `/`.
pub fn sanitize_path(path_str: &str) -> (out: String)
    ensures
        out@ == sanitized(path_str@),
{
    let path = chars_of(path_str);
    let segs = kept_segments(&path, true);
    let joined = join_chars(&segs, '/');
    string_of(&joined)
}

/// Whether the path starts at the root.
pub fn is_absolute(path: &str) -> (r: bool)
    ensures
        r == is_rooted(path@),
{
    let v = chars_of(path);
    v.len() > 0 && v[0] == '/'
}

/// `rel` appended below `base`, with one `/` between them.
pub fn join_path(base: &str, rel: &str) -> (out: String)
    ensures
        out@ == child_path(base@, rel@),
{
    let b = chars_of(base);
    let r = chars_of(rel);
    let mut out: Vec<char> = Vec::new();
    append_chars(&mut out, &b);
    if r.len() > 0 {
        if b.len() > 0 && b[b.len() - 1] != '/' {
            out.push('/');
        }
        append_chars(&mut out, &r);
    }
    assert(out@ == child_path(base@, rel@));
    string_of(&out)
}

/// The path that a request names, before links are resolved.
pub fn candidate_path(base: &str, input: Option<&str>, policy: RootPolicy) -> (out: String)
    ensures
        out@ == candidate(
            base@,
            match input {
                Some(p) => Some(p@),
                None => None,
            },
            policy,
        ),
{
    proof {
        reveal_strlit("");
    }
    match input {
        None => join_path(base, ""),
        Some(p) => {
            let v = chars_of(p);
            if v.len() == 0 {
                join_path(base, "")
            } else if policy == RootPolicy::AllowAbsolute && v[0] == '/' {
                string_of(&v)
            } else {
                let rel = sanitize_path(p);
                join_path(base, rel.as_str())
            }
        },
    }
}

/// Whether `path` is `root` or lies below it, component by component.
pub fn path_within(path: &str, root: &str) -> (r: bool)
    ensures
        r == within(path@, root@),
{
    let p = chars_of(path);
    let q = chars_of(root);
    let p_rooted = p.len() > 0 && p[0] == '/';
    let q_rooted = q.len() > 0 && q[0] == '/';
    if p_rooted != q_rooted {
        return false;
    }
    let pc = kept_segments(&p, false);
    let qc = kept_segments(&q, false);
    if qc.len() > pc.len() {
        return false;
    }
    let mut i: usize = 0;
    while i < qc.len()
        invariant
            i <= qc.len() <= pc.len(),
            views(pc@) == components(path@),
            views(qc@) == components(root@),
            forall|j: int| 0 <= j < i ==> components(path@)[j] == components(root@)[j],
        decreases qc.len() - i,
    {
        assert(views(pc@)[i as int] == pc@[i as int]@);
        assert(views(qc@)[i as int] == qc@[i as int]@);
        if !same_chars(&pc[i], &qc[i]) {
            assert(components(path@).subrange(0, qc.len() as int)[i as int] != components(
                root@,
            )[i as int]);
            return false;
        }
        i += 1;
    }
    assert(components(root@) =~= components(path@).subrange(0, qc.len() as int));
    true
}

/// What [`confine`] answers.
pub open spec fn confined(canonical: Option<Seq<char>>, canonical_root: Option<Seq<char>>) -> Result<
    Seq<char>,
    PathError,
> {
    match (canonical, canonical_root) {
        (Some(p), Some(root)) => if within(p, root) {
            Ok(p)
        } else {
            Err(PathError::PermissionDenied)
        },
        _ => Err(PathError::NotFound),
    }
}

/// The sandbox check, on canonical paths.
///
/// `canonical` is the candidate with every link resolved, or `None` where it
/// does not exist; `canonical_root` likewise for the sandbox root. A missing
/// path is `NotFound`. A path outside the root is `PermissionDenied`, and only
/// that. Any other path is handed back.
pub fn confine(canonical: Option<String>, canonical_root: Option<&str>) -> (r: Result<
    String,
    PathError,
>)
    ensures
        match confined(
            match canonical {
                Some(p) => Some(p@),
                None => None,
            },
            match canonical_root {
                Some(p) => Some(p@),
                None => None,
            },
        ) {
            Ok(p) => r matches Ok(q) && q@ == p,
            Err(e) => r matches Err(f) && f == e,
        },
{
    match canonical {
        None => Err(PathError::NotFound),
        Some(p) => match canonical_root {
            None => Err(PathError::NotFound),
            Some(root) => if path_within(p.as_str(), root) {
                Ok(p)
            } else {
                Err(PathError::PermissionDenied)
            },
        },
    }
}

/// `path` as seen from `root`: the components below the root joined by `/`,
/// where `path` lies within `root`.
pub open spec fn relative(path: Seq<char>, root: Seq<char>) -> Option<Seq<char>> {
    if within(path, root) {
        Some(join(components(path).skip(components(root).len() as int), seq!['/']))
    } else {
        None
    }
}

fn tail_of(parts: &Vec<Vec<char>>, from: usize, to: usize) -> (out: Vec<Vec<char>>)
    requires
        from <= to <= parts.len(),
    ensures
        views(out@) == views(parts@).subrange(from as int, to as int),
{
    let mut out: Vec<Vec<char>> = Vec::new();
    let mut i: usize = from;
    while i < to
        invariant
            from <= i <= to <= parts.len(),
            views(out@) == views(parts@).subrange(from as int, i as int),
        decreases to - i,
    {
        let copy = slice_of(&parts[i], 0, parts[i].len());
        proof {
            assert(copy@ == parts@[i as int]@);
            assert(views(out@.push(copy)) == views(out@).push(copy@));
            assert(views(parts@).subrange(from as int, i + 1) == views(parts@).subrange(
                from as int,
                i as int,
            ).push(copy@));
        }
        out.push(copy);
        i += 1;
    }
    out
}

/// The path of `path` relative to `root`, or `None` where it is not within.
pub fn relative_to(path: &str, root: &str) -> (out: Option<String>)
    ensures
        match relative(path@, root@) {
            Some(r) => out matches Some(o) && o@ == r,
            None => out is None,
        },
{
    if !path_within(path, root) {
        return None;
    }
    let p = chars_of(path);
    let q = chars_of(root);
    let pc = kept_segments(&p, false);
    let qc = kept_segments(&q, false);
    let rest = tail_of(&pc, qc.len(), pc.len());
    assert(views(pc@).subrange(qc.len() as int, pc.len() as int) == components(path@).skip(
        components(root@).len() as int,
    ));
    let joined = join_chars(&rest, '/');
    Some(string_of(&joined))
}

/// The directory above `current` as a listing shows it: relative to `base`,
/// `/` for the base itself, and nothing where `current` is the base or lies
/// outside it.
pub open spec fn listing_parent(current: Seq<char>, base: Seq<char>) -> Option<Seq<char>> {
    let cc = components(current);
    let cb = components(base);
    if within(current, base) && cc.len() > cb.len() {
        let rel = cc.subrange(cb.len() as int, cc.len() - 1);
        if rel.len() == 0 {
            Some(seq!['/'])
        } else {
            Some(join(rel, seq!['/']))
        }
    } else {
        None
    }
}

/// The parent entry of a directory listing.
pub fn parent_of(current: &str, base: &str) -> (out: Option<String>)
    ensures
        match listing_parent(current@, base@) {
            Some(r) => out matches Some(o) && o@ == r,
            None => out is None,
        },
{
    if !path_within(current, base) {
        return None;
    }
    let p = chars_of(current);
    let q = chars_of(base);
    let pc = kept_segments(&p, false);
    let qc = kept_segments(&q, false);
    if pc.len() <= qc.len() {
        return None;
    }
    let rest = tail_of(&pc, qc.len(), pc.len() - 1);
    let joined = if rest.len() == 0 {
        vec!['/']
    } else {
        join_chars(&rest, '/')
    };
    Some(string_of(&joined))
}

/// The last plain segment of a path, if it has one.
pub open spec fn last_segment(path: Seq<char>) -> Option<Seq<char>> {
    let segs = plain_segments(path);
    if segs.len() == 0 {
        None
    } else {
        Some(segs.last())
    }
}

/// The name under which an archive of `remote_path` is offered: the last plain
/// segment followed by `.zip`, and `archive.zip` where there is none.
pub open spec fn archive_name(remote_path: Option<Seq<char>>) -> Seq<char> {
    match remote_path {
        Some(p) => match last_segment(p) {
            Some(name) => name + ".zip"@,
            None => "archive.zip"@,
        },
        None => "archive.zip"@,
    }
}

/// The download name of an archive of `remote_path`.
pub fn archive_file_name(remote_path: Option<&str>) -> (out: String)
    ensures
        out@ == archive_name(
            match remote_path {
                Some(p) => Some(p@),
                None => None,
            },
        ),
{
    proof {
        reveal_strlit(".zip");
        reveal_strlit("archive.zip");
    }
    let fallback = "archive.zip";
    match remote_path {
        None => string_of(&chars_of(fallback)),
        Some(p) => {
            let v = chars_of(p);
            let segs = kept_segments(&v, true);
            if segs.len() == 0 {
                string_of(&chars_of(fallback))
            } else {
                let last = &segs[segs.len() - 1];
                assert(views(segs@).last() == last@);
                let mut out: Vec<char> = Vec::new();
                append_chars(&mut out, last);
                append_chars(&mut out, &chars_of(".zip"));
                string_of(&out)
            }
        },
    }
}

/// The value of a content-disposition header that offers `file_name` as an
/// attachment.
pub open spec fn attachment(file_name: Seq<char>) -> Seq<char> {
    "attachment; filename=\""@ + file_name + "\""@
}

/// The content-disposition header for a download named `file_name`.
pub fn content_disposition(file_name: &str) -> (out: String)
    ensures
        out@ == attachment(file_name@),
{
    let mut out: Vec<char> = Vec::new();
    append_chars(&mut out, &chars_of("attachment; filename=\""));
    append_chars(&mut out, &chars_of(file_name));
    append_chars(&mut out, &chars_of("\""));
    string_of(&out)
}

/// The directory that confines a request: the base, or, for an absolute
/// path that the policy lets through as it is, the home directory.
pub open spec fn confining_root(
    base: Seq<char>,
    home: Option<Seq<char>>,
    input: Option<Seq<char>>,
    policy: RootPolicy,
) -> Option<Seq<char>> {
    if policy == RootPolicy::AllowAbsolute && input is Some && is_rooted(input->0) {
        home
    } else {
        Some(base)
    }
}

/// The directory within which the target of a request must lie, or nothing
/// where that would be the home directory and none is known.
pub fn sandbox_root(base: &str, home: Option<&str>, input: Option<&str>, policy: RootPolicy) -> (root:
    Option<String>)
    ensures
        match confining_root(
            base@,
            match home {
                Some(h) => Some(h@),
                None => None,
            },
            match input {
                Some(p) => Some(p@),
                None => None,
            },
            policy,
        ) {
            Some(r) => root matches Some(s) && s@ == r,
            None => root is None,
        },
{
    let verbatim = match input {
        Some(p) => policy == RootPolicy::AllowAbsolute && is_absolute(p),
        None => false,
    };
    if verbatim {
        match home {
            Some(h) => Some(h.to_owned()),
            None => None,
        }
    } else {
        Some(base.to_owned())
    }
}

/// The path of a file that a download names, before links are resolved: the
/// sanitized file path below the directory that the request names.
pub fn download_candidate(
    working_dir: &str,
    remote_dir: Option<&str>,
    file: &str,
    policy: RootPolicy,
) -> (out: String)
    ensures
        out@ == child_path(
            candidate(
                working_dir@,
                match remote_dir {
                    Some(p) => Some(p@),
                    None => None,
                },
                policy,
            ),
            sanitized(file@),
        ),
{
    let dir = candidate_path(working_dir, remote_dir, policy);
    let rel = sanitize_path(file);
    join_path(dir.as_str(), rel.as_str())
}

/// What [`confine_file`] answers.
pub open spec fn confined_file(
    canonical: Option<Seq<char>>,
    canonical_root: Option<Seq<char>>,
    is_file: bool,
) -> Result<Seq<char>, PathError> {
    match confined(canonical, canonical_root) {
        Ok(p) => if is_file {
            Ok(p)
        } else {
            Err(PathError::NotFound)
        },
        Err(e) => Err(e),
    }
}

/// The sandbox check for a download: as [`confine`], and a target that is no
/// regular file counts as not found.
pub fn confine_file(canonical: Option<String>, canonical_root: Option<&str>, is_file: bool) -> (r:
    Result<String, PathError>)
    ensures
        match confined_file(
            match canonical {
                Some(p) => Some(p@),
                None => None,
            },
            match canonical_root {
                Some(p) => Some(p@),
                None => None,
            },
            is_file,
        ) {
            Ok(p) => r matches Ok(q) && q@ == p,
            Err(e) => r matches Err(f) && f == e,
        },
{
    match confine(canonical, canonical_root) {
        Ok(p) => if is_file {
            Ok(p)
        } else {
            Err(PathError::NotFound)
        },
        Err(e) => Err(e),
    }
}

/// What [`confine_removal`] answers.
pub open spec fn confined_removal(
    canonical: Option<Seq<char>>,
    canonical_root: Option<Seq<char>>,
) -> Result<Seq<char>, PathError> {
    match confined(canonical, canonical_root) {
        Ok(p) => if components(p) == components(canonical_root->0) {
            Err(PathError::PermissionDenied)
        } else {
            Ok(p)
        },
        Err(e) => Err(e),
    }
}

/// The sandbox check for a removal: as [`confine`], and the root itself may
/// not be removed.
pub fn confine_removal(canonical: Option<String>, canonical_root: Option<&str>) -> (r: Result<
    String,
    PathError,
>)
    ensures
        match confined_removal(
            match canonical {
                Some(p) => Some(p@),
                None => None,
            },
            match canonical_root {
                Some(p) => Some(p@),
                None => None,
            },
        ) {
            Ok(p) => r matches Ok(q) && q@ == p,
            Err(e) => r matches Err(f) && f == e,
        },
{
    match confine(canonical, canonical_root) {
        Ok(p) => {
            let root = match canonical_root {
                Some(root) => root,
                None => "",
            };
            // Within the root and no longer than it: the root itself.
            let same = path_within(root, p.as_str());
            proof {
                let a = components(p@);
                let b = components(root@);
                if same {
                    assert(a =~= b);
                }
                if a == b {
                    assert(a =~= a.subrange(0, a.len() as int));
                }
            }
            if same {
                Err(PathError::PermissionDenied)
            } else {
                Ok(p)
            }
        },
        Err(e) => Err(e),
    }
}

/// The name of what a path points at: its last plain segment, if any.
pub fn file_name(path: &str) -> (name: Option<String>)
    ensures
        match last_segment(path@) {
            Some(n) => name matches Some(s) && s@ == n,
            None => name is None,
        },
{
    let v = chars_of(path);
    let segs = kept_segments(&v, true);
    if segs.len() == 0 {
        None
    } else {
        let last = &segs[segs.len() - 1];
        assert(views(segs@).last() == last@);
        Some(string_of(last))
    }
}

} // verus!
