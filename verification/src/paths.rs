//! Whether a resolved path lies under a root directory, compared component by
//! component on Unix paths as `std::path::Path::starts_with` does.
use vstd::prelude::*;
use vstd::string::*;
use crate::text::bytes_eq;

verus! {

/// A part that names nothing: empty (from `//` or a trailing `/`) or `.`.
pub open spec fn is_skipped_part(part: Seq<u8>) -> bool {
    part.len() == 0 || (part.len() == 1 && part[0] == 0x2e)
}

/// `parts` with `part` appended unless it names nothing.
pub open spec fn push_part(parts: Seq<Seq<u8>>, part: Seq<u8>) -> Seq<Seq<u8>> {
    if is_skipped_part(part) {
        parts
    } else {
        parts.push(part)
    }
}

/// Reading `s` left to right: the parts completed so far and the part being read.
pub open spec fn split_path(s: Seq<u8>) -> (Seq<Seq<u8>>, Seq<u8>)
    decreases s.len(),
{
    if s.len() == 0 {
        (seq![], seq![])
    } else {
        let (parts, current) = split_path(s.drop_last());
        if s.last() == 0x2f {
            (push_part(parts, current), seq![])
        } else {
            (parts, current.push(s.last()))
        }
    }
}

/// The named parts of a path, in order.
pub open spec fn path_parts(s: Seq<u8>) -> Seq<Seq<u8>> {
    push_part(split_path(s).0, split_path(s).1)
}

/// The leading component of a path that is not a named part: the root `/` of
/// an absolute path, or the `.` that a relative path starts with.
pub open spec fn leading_component(s: Seq<u8>) -> Seq<Seq<u8>> {
    if s.len() > 0 && s[0] == 0x2f {
        seq![seq![0x2fu8]]
    } else if s.len() > 0 && s[0] == 0x2e && (s.len() == 1 || s[1] == 0x2f) {
        seq![seq![0x2eu8]]
    } else {
        seq![]
    }
}

/// The components of a path.
pub open spec fn components(s: Seq<u8>) -> Seq<Seq<u8>> {
    leading_component(s) + path_parts(s)
}

/// `a` is a prefix of `b`.
pub open spec fn is_prefix_of<T>(a: Seq<T>, b: Seq<T>) -> bool {
    a.len() <= b.len() && b.take(a.len() as int) == a
}

/// `path` starts with the components of `root`.
pub open spec fn path_within(root: Seq<u8>, path: Seq<u8>) -> bool {
    is_prefix_of(components(root), components(path))
}

/// The views of a list of byte vectors.
pub open spec fn byte_views(v: Seq<Vec<u8>>) -> Seq<Seq<u8>> {
    v.map_values(|b: Vec<u8>| b@)
}

/// Append `part` to `parts` unless it names nothing.
fn push_part_exec(parts: &mut Vec<Vec<u8>>, part: Vec<u8>)
    ensures
        byte_views(final(parts)@) == push_part(byte_views(old(parts)@), part@),
{
    if part.len() == 0 || (part.len() == 1 && part[0] == 0x2e) {
    } else {
        let ghost before = parts@;
        parts.push(part);
        assert(byte_views(parts@) =~= byte_views(before).push(part@));
    }
}

/// The components of a path.
fn components_exec(s: &[u8]) -> (r: Vec<Vec<u8>>)
    ensures
        byte_views(r@) == components(s@),
{
    let mut parts: Vec<Vec<u8>> = Vec::new();
    if s.len() > 0 && s[0] == 0x2f {
        parts.push(vec![0x2f]);
    } else if s.len() > 0 && s[0] == 0x2e && (s.len() == 1 || s[1] == 0x2f) {
        parts.push(vec![0x2e]);
    }
    let ghost lead = byte_views(parts@);
    assert(lead =~~= leading_component(s@));
    let mut named: Vec<Vec<u8>> = Vec::new();
    let mut current: Vec<u8> = Vec::new();
    let mut i: usize = 0;
    while i < s.len()
        invariant
            i <= s.len(),
            (byte_views(named@), current@) == split_path(s@.take(i as int)),
        decreases s.len() - i,
    {
        assert(s@.take(i + 1).drop_last() =~= s@.take(i as int));
        if s[i] == 0x2f {
            let finished = current;
            current = Vec::new();
            push_part_exec(&mut named, finished);
        } else {
            current.push(s[i]);
        }
        i = i + 1;
    }
    assert(s@.take(s.len() as int) =~= s@);
    push_part_exec(&mut named, current);
    let ghost named_views = byte_views(named@);
    let mut k: usize = 0;
    while k < named.len()
        invariant
            k <= named.len(),
            byte_views(named@) == named_views,
            byte_views(parts@) =~= lead + named_views.take(k as int),
        decreases named.len() - k,
    {
        let part = named[k].clone();
        assert(part@ == named@[k as int]@);
        let ghost before = parts@;
        parts.push(part);
        assert(byte_views(parts@) =~= byte_views(before).push(part@));
        assert(named_views.take(k + 1) =~= named_views.take(k as int).push(named_views[k as int]));
        k = k + 1;
    }
    assert(named_views.take(named.len() as int) =~= named_views);
    parts
}

/// Whether `path` starts with the components of `root`: the check that a
/// resolved workspace or repository stays under its root.
pub fn within_root(root: &[u8], path: &[u8]) -> (r: bool)
    ensures
        r == path_within(root@, path@),
{
    let root_components = components_exec(root);
    let path_components = components_exec(path);
    let ghost a = byte_views(root_components@);
    let ghost b = byte_views(path_components@);
    if root_components.len() > path_components.len() {
        return false;
    }
    let mut k: usize = 0;
    while k < root_components.len()
        invariant
            root_components.len() <= path_components.len(),
            a == byte_views(root_components@),
            b == byte_views(path_components@),
            a == components(root@),
            b == components(path@),
            k <= root_components.len(),
            forall|m: int| 0 <= m < k ==> a[m] == b[m],
        decreases root_components.len() - k,
    {
        if !bytes_eq(root_components[k].as_slice(), path_components[k].as_slice()) {
            assert(a[k as int] == root_components@[k as int]@);
            assert(b[k as int] == path_components@[k as int]@);
            assert(b.take(a.len() as int)[k as int] != a[k as int]);
            return false;
        }
        k = k + 1;
    }
    assert(b.take(a.len() as int) =~= a);
    true
}

/// Where a Build workspace resolves to, given the canonical forms of the
/// build root and of the workspace path (`None` where the file system could
/// not resolve one), or why it is refused.
pub open spec fn workspace_spec(root: Option<Seq<u8>>, path: Option<Seq<u8>>) -> Result<Seq<u8>, Seq<char>> {
    match root {
        None => Err("build root unavailable"@),
        Some(root) => match path {
            None => Err("workspace unavailable"@),
            Some(path) => if path_within(root, path) {
                Ok(path)
            } else {
                Err("workspace escapes build root"@)
            },
        },
    }
}

/// The Build workspace, from the canonical build root and workspace path:
/// accepted only when it lies under the root.
pub fn resolve_workspace(root: Option<Vec<u8>>, path: Option<Vec<u8>>) -> (r: Result<Vec<u8>, String>)
    ensures
        match (r, workspace_spec(
            match root { Some(v) => Some(v@), None => None },
            match path { Some(v) => Some(v@), None => None },
        )) {
            (Ok(p), Ok(expected)) => p@ == expected,
            (Err(e), Err(expected)) => e@ == expected,
            _ => false,
        },
{
    let root = match root {
        None => return Err(String::from_str("build root unavailable")),
        Some(root) => root,
    };
    let path = match path {
        None => return Err(String::from_str("workspace unavailable")),
        Some(path) => path,
    };
    if within_root(root.as_slice(), path.as_slice()) {
        Ok(path)
    } else {
        Err(String::from_str("workspace escapes build root"))
    }
}

/// Where a Git repository resolves to, given the canonical forms of the Git
/// root and of the repository path with whether it holds a `.git` entry
/// (`None` where the file system could not resolve one), or why it is refused.
pub open spec fn repository_spec(root: Option<Seq<u8>>, path: Option<(Seq<u8>, bool)>) -> Result<
    Seq<u8>,
    Seq<char>,
> {
    match root {
        None => Err("Git root unavailable"@),
        Some(root) => match path {
            None => Err("repository unavailable"@),
            Some((path, has_git)) => if path_within(root, path) && has_git {
                Ok(path)
            } else {
                Err("repository is outside Git root or is not a repository"@)
            },
        },
    }
}

/// The Git repository, from the canonical Git root and repository path:
/// accepted only when it lies under the root and is a repository.
pub fn resolve_repository(root: Option<Vec<u8>>, path: Option<(Vec<u8>, bool)>) -> (r: Result<
    Vec<u8>,
    String,
>)
    ensures
        match (r, repository_spec(
            match root { Some(v) => Some(v@), None => None },
            match path { Some((v, g)) => Some((v@, g)), None => None },
        )) {
            (Ok(p), Ok(expected)) => p@ == expected,
            (Err(e), Err(expected)) => e@ == expected,
            _ => false,
        },
{
    let root = match root {
        None => return Err(String::from_str("Git root unavailable")),
        Some(root) => root,
    };
    let (path, has_git) = match path {
        None => return Err(String::from_str("repository unavailable")),
        Some(found) => found,
    };
    if within_root(root.as_slice(), path.as_slice()) && has_git {
        Ok(path)
    } else {
        Err(String::from_str("repository is outside Git root or is not a repository"))
    }
}

} // verus!
