//! Unix paths as byte strings: rooting, joining, parent and base name.
//!
//! Paths are compared and taken apart lexically. Repeated separators and
//! `.` components at the end of a path are skipped, so `/a/b/`, `/a/b/.`
//! and `/a//b` all have the parent `/a` and the base name `b`.

use vstd::prelude::*;

verus! {

/// The byte that separates the components of a path (`/`).
pub const SEPARATOR: u8 = 47;

/// The byte of which the components `.` and `..` are made.
pub const DOT: u8 = 46;

/// A path is rooted when it begins with the separator.
pub open spec fn is_rooted(path: Seq<u8>) -> bool {
    path.len() > 0 && path[0] == SEPARATOR
}

/// The root path, `/`.
pub open spec fn root() -> Seq<u8> {
    seq![SEPARATOR]
}

/// The scope that an optional caller-supplied path designates: the root when
/// there is none, the path itself when it is rooted, and otherwise the path
/// with the separator put in front.
pub open spec fn resolved(scope: Option<Seq<u8>>) -> Seq<u8> {
    match scope {
        None => root(),
        Some(path) => if is_rooted(path) {
            path
        } else {
            root() + path
        },
    }
}

/// `rel` adjoined to `base`. A rooted `rel` replaces `base`; otherwise the
/// two are put together, with one separator between them unless `base` is
/// empty or already ends with one.
pub open spec fn joined(base: Seq<u8>, rel: Seq<u8>) -> Seq<u8> {
    if is_rooted(rel) {
        rel
    } else if base.len() == 0 || base.last() == SEPARATOR {
        base + rel
    } else {
        base + root() + rel
    }
}

/// `path` without what follows its last component: trailing separators and
/// trailing `.` components. The root and a lone `.` are kept.
pub open spec fn trimmed(path: Seq<u8>) -> Seq<u8>
    decreases path.len(),
{
    if path.len() >= 2 && (path.last() == SEPARATOR || (path.last() == DOT && path[path.len() - 2]
        == SEPARATOR)) {
        trimmed(path.drop_last())
    } else {
        path
    }
}

/// The number of bytes at the end of `path` that follow its last separator.
pub open spec fn tail_len(path: Seq<u8>) -> nat
    decreases path.len(),
{
    if path.len() == 0 || path.last() == SEPARATOR {
        0
    } else {
        1 + tail_len(path.drop_last())
    }
}

/// The last component of `path`, as written: empty for the empty path and
/// for the root.
pub open spec fn last_component(path: Seq<u8>) -> Seq<u8> {
    let t = trimmed(path);
    t.subrange(t.len() - tail_len(t), t.len() as int)
}

/// The path without its last component, or `None` where there is none to
/// take away (the empty path and the root).
pub open spec fn parent_of(path: Seq<u8>) -> Option<Seq<u8>> {
    let t = trimmed(path);
    if tail_len(t) == 0 {
        None
    } else {
        Some(trimmed(t.subrange(0, t.len() - tail_len(t))))
    }
}

/// The base name of `path`: its last component, unless that is missing, `.`
/// or `..`.
pub open spec fn file_name_of(path: Seq<u8>) -> Option<Seq<u8>> {
    let name = last_component(path);
    if name.len() == 0 || name == seq![DOT] || name == seq![DOT, DOT] {
        None
    } else {
        Some(name)
    }
}

/// Whether `path` begins with the separator.
pub fn has_root(path: &[u8]) -> (rooted: bool)
    ensures
        rooted == is_rooted(path@),
{
    path.len() > 0 && path[0] == SEPARATOR
}

/// Appends the bytes of `more` to `out`.
fn push_all(out: &mut Vec<u8>, more: &[u8])
    ensures
        final(out)@ == old(out)@ + more@,
{
    let mut i: usize = 0;
    while i < more.len()
        invariant
            i <= more@.len(),
            out@ == old(out)@ + more@.subrange(0, i as int),
        decreases more@.len() - i,
    {
        out.push(more[i]);
        i = i + 1;
    }
    assert(more@.subrange(0, i as int) == more@);
}

/// An owned copy of `path`.
pub fn to_path(path: &[u8]) -> (out: Vec<u8>)
    ensures
        out@ == path@,
{
    let mut out: Vec<u8> = Vec::new();
    push_all(&mut out, path);
    out
}

/// Normalizes an optional scope argument into a rooted path.
pub fn resolve_scope(scope: Option<&[u8]>) -> (out: Vec<u8>)
    ensures
        out@ == resolved(
            match scope {
                Some(path) => Some(path@),
                None => None,
            },
        ),
        is_rooted(out@),
{
    let mut out: Vec<u8> = Vec::new();
    match scope {
        None => {
            out.push(SEPARATOR);
        },
        Some(path) => {
            if !has_root(path) {
                out.push(SEPARATOR);
            }
            push_all(&mut out, path);
        },
    }
    out
}

/// Adjoins `rel` to `base`.
pub fn join(base: &[u8], rel: &[u8]) -> (out: Vec<u8>)
    ensures
        out@ == joined(base@, rel@),
{
    let mut out: Vec<u8> = Vec::new();
    if !has_root(rel) {
        push_all(&mut out, base);
        if base.len() > 0 && base[base.len() - 1] != SEPARATOR {
            out.push(SEPARATOR);
        }
    }
    push_all(&mut out, rel);
    out
}

/// The length of `trimmed` of the first `len` bytes of `path`.
fn trimmed_len(path: &[u8], len: usize) -> (end: usize)
    requires
        len <= path@.len(),
    ensures
        end <= len,
        path@.subrange(0, end as int) == trimmed(path@.subrange(0, len as int)),
{
    let mut end: usize = len;
    while end >= 2 && (path[end - 1] == SEPARATOR || (path[end - 1] == DOT && path[end - 2]
        == SEPARATOR))
        invariant
            end <= len <= path@.len(),
            trimmed(path@.subrange(0, end as int)) == trimmed(path@.subrange(0, len as int)),
        decreases end,
    {
        assert(path@.subrange(0, end as int).drop_last() == path@.subrange(0, end - 1));
        end = end - 1;
    }
    end
}

/// The index at which the last component of the first `end` bytes begins.
fn tail_start(path: &[u8], end: usize) -> (start: usize)
    requires
        end <= path@.len(),
    ensures
        start <= end,
        end - start == tail_len(path@.subrange(0, end as int)),
{
    let mut start: usize = end;
    while start > 0 && path[start - 1] != SEPARATOR
        invariant
            start <= end <= path@.len(),
            tail_len(path@.subrange(0, end as int)) == tail_len(path@.subrange(0, start as int))
                + (end - start),
        decreases start,
    {
        assert(path@.subrange(0, start as int).drop_last() == path@.subrange(0, start - 1));
        start = start - 1;
    }
    start
}

/// Copies the bytes of `path` from `from` up to `to`.
fn copy_range(path: &[u8], from: usize, to: usize) -> (out: Vec<u8>)
    requires
        from <= to <= path@.len(),
    ensures
        out@ == path@.subrange(from as int, to as int),
{
    let mut out: Vec<u8> = Vec::new();
    let mut i: usize = from;
    while i < to
        invariant
            from <= i <= to <= path@.len(),
            out@ == path@.subrange(from as int, i as int),
        decreases to - i,
    {
        out.push(path[i]);
        i = i + 1;
    }
    out
}

/// The path without its last component.
pub fn parent(path: &[u8]) -> (out: Option<Vec<u8>>)
    ensures
        match out {
            Some(p) => parent_of(path@) == Some(p@),
            None => parent_of(path@) is None,
        },
{
    let end = trimmed_len(path, path.len());
    let start = tail_start(path, end);
    assert(path@.subrange(0, path@.len() as int) == path@);
    if start == end {
        None
    } else {
        let keep = trimmed_len(path, start);
        proof {
            let t = path@.subrange(0, end as int);
            assert(t.subrange(0, start as int) == path@.subrange(0, start as int));
        }
        Some(copy_range(path, 0, keep))
    }
}

/// The base name of the path.
pub fn file_name(path: &[u8]) -> (out: Option<Vec<u8>>)
    ensures
        match out {
            Some(name) => file_name_of(path@) == Some(name@),
            None => file_name_of(path@) is None,
        },
{
    let end = trimmed_len(path, path.len());
    let start = tail_start(path, end);
    assert(path@.subrange(0, path@.len() as int) == path@);
    proof {
        let t = path@.subrange(0, end as int);
        assert(t.subrange(start as int, end as int) == path@.subrange(start as int, end as int));
    }
    let n = end - start;
    if n == 0 {
        None
    } else if n == 1 && path[start] == DOT {
        assert(path@.subrange(start as int, end as int) == seq![DOT]);
        None
    } else if n == 2 && path[start] == DOT && path[start + 1] == DOT {
        assert(path@.subrange(start as int, end as int) == seq![DOT, DOT]);
        None
    } else {
        proof {
            let name = path@.subrange(start as int, end as int);
            if name == seq![DOT] {
                assert(name.len() == 1 && name[0] == DOT);
            }
            if name == seq![DOT, DOT] {
                assert(name.len() == 2 && name[0] == DOT && name[1] == DOT);
            }
        }
        Some(copy_range(path, start, end))
    }
}

/// Trimming a path takes bytes away at its end only.
pub proof fn trimmed_is_prefix(path: Seq<u8>)
    ensures
        trimmed(path).len() <= path.len(),
        trimmed(path) == path.subrange(0, trimmed(path).len() as int),
    decreases path.len(),
{
    if trimmed(path) != path {
        trimmed_is_prefix(path.drop_last());
        let shorter = path.drop_last();
        assert(shorter.subrange(0, trimmed(shorter).len() as int) == path.subrange(
            0,
            trimmed(shorter).len() as int,
        ));
    } else {
        assert(path.subrange(0, path.len() as int) == path);
    }
}

/// The last component of a path is within it.
pub proof fn tail_is_within(path: Seq<u8>)
    ensures
        tail_len(path) <= path.len(),
    decreases path.len(),
{
    if path.len() > 0 {
        tail_is_within(path.drop_last());
    }
}

/// The parent of a path is shorter than the path.
pub proof fn parent_is_shorter(path: Seq<u8>)
    ensures
        parent_of(path) matches Some(above) ==> above.len() < path.len(),
{
    let t = trimmed(path);
    trimmed_is_prefix(path);
    tail_is_within(t);
    if tail_len(t) > 0 {
        trimmed_is_prefix(t.subrange(0, t.len() - tail_len(t)));
    }
}

/// No byte of the last component of a path is a separator.
pub proof fn tail_has_no_separator(path: Seq<u8>)
    ensures
        tail_len(path) <= path.len(),
        forall|k: int|
            path.len() - tail_len(path) <= k < path.len() ==> #[trigger] path[k] != SEPARATOR,
    decreases path.len(),
{
    if path.len() > 0 && path.last() != SEPARATOR {
        let shorter = path.drop_last();
        tail_has_no_separator(shorter);
        assert forall|k: int|
            path.len() - tail_len(path) <= k < path.len() implies #[trigger] path[k]
            != SEPARATOR by {
            if k < path.len() - 1 {
                assert(shorter[k] == path[k]);
            }
        }
    }
}

/// A base name is not empty and not rooted: joined to a path, it makes a
/// longer one.
pub proof fn file_name_extends(dest: Seq<u8>, path: Seq<u8>)
    requires
        file_name_of(path) is Some,
    ensures
        joined(dest, file_name_of(path).unwrap()).len() > dest.len(),
{
    let t = trimmed(path);
    tail_has_no_separator(t);
    let name = file_name_of(path).unwrap();
    assert(name[0] == t[t.len() - tail_len(t)]);
}

/// A resolved scope is rooted, and resolving it again changes nothing.
pub proof fn resolved_is_rooted(scope: Option<Seq<u8>>)
    ensures
        is_rooted(resolved(scope)),
        resolved(Some(resolved(scope))) == resolved(scope),
{
}

/// A rooted path replaces what it is joined to. The destination path of a
/// rooted discovered path is therefore that very path, whatever the
/// destination scope.
pub proof fn rooted_path_replaces_base(base: Seq<u8>, path: Seq<u8>)
    requires
        is_rooted(path),
    ensures
        joined(base, path) == path,
{
}

/// A path that is not rooted lies beneath what it is joined to: the result
/// begins with the base and ends with the path.
pub proof fn relative_path_extends_base(base: Seq<u8>, path: Seq<u8>)
    requires
        !is_rooted(path),
    ensures
        joined(base, path).len() >= base.len() + path.len(),
        joined(base, path).subrange(0, base.len() as int) == base,
        joined(base, path).subrange(
            joined(base, path).len() - path.len(),
            joined(base, path).len() as int,
        ) == path,
{
}

} // verus!
