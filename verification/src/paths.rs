//! Relative workspace paths: normalizing them and keeping them under the
//! managed root.

use vstd::prelude::*;
use crate::text::{char_vecs_view, chars_eq, chars_of, concat, split_char, split_seq, string_of, trim_chars, trim_seq};
use crate::protocol::join_spec;

verus! {

/// The components kept from the pieces of a path: `.` and empty pieces
/// vanish, and a `..` makes the path unusable.
pub open spec fn kept_parts(parts: Seq<Seq<char>>) -> Option<Seq<Seq<char>>>
    decreases parts.len(),
{
    if parts.len() == 0 {
        Some(Seq::empty())
    } else {
        match kept_parts(parts.drop_last()) {
            None => None,
            Some(p) => {
                let x = parts.last();
                if x == ".."@ {
                    None
                } else if x.len() == 0 || x == "."@ {
                    Some(p)
                } else {
                    Some(p.push(x))
                }
            },
        }
    }
}

/// The components of a relative path, as `Path::components` gives them on
/// Unix; `None` for an absolute path, one that climbs with `..`, or one
/// with no component.
pub open spec fn rel_components(path: Seq<char>) -> Option<Seq<Seq<char>>> {
    if path.len() > 0 && path[0] == '/' {
        None
    } else {
        match kept_parts(split_seq(path, '/')) {
            Some(c) => if c.len() > 0 { Some(c) } else { None },
            None => None,
        }
    }
}

fn rel_parts(path: &Vec<char>) -> (r: Option<Vec<Vec<char>>>)
    ensures
        match rel_components(path@) {
            Some(c) => r matches Some(v) && char_vecs_view(v@) == c,
            None => r is None,
        },
{
    if path.len() > 0 && path[0] == '/' {
        return None;
    }
    let pieces = split_char(path, '/');
    let ghost pv = char_vecs_view(pieces@);
    let mut out: Vec<Vec<char>> = Vec::new();
    let dot = chars_of(".");
    let dotdot = chars_of("..");
    let mut i: usize = 0;
    assert(pv.take(0) =~= Seq::<Seq<char>>::empty());
    assert(char_vecs_view(out@) =~= Seq::<Seq<char>>::empty());
    while i < pieces.len()
        invariant
            i <= pieces.len(),
            pv == char_vecs_view(pieces@),
            pv == split_seq(path@, '/'),
            dot@ == "."@,
            dotdot@ == ".."@,
            kept_parts(pv.take(i as int)) == Some(char_vecs_view(out@)),
        decreases pieces.len() - i,
    {
        assert(pv.take(i + 1).drop_last() =~= pv.take(i as int));
        assert(pv[i as int] == pieces@[i as int]@);
        let x = &pieces[i];
        if chars_eq(x, &dotdot) {
            assert(kept_parts(pv.take(i + 1)) is None);
            proof {
                lemma_kept_none_extends(pv, i as int + 1);
            }
            return None;
        }
        if x.len() > 0 && !chars_eq(x, &dot) {
            let ghost before = char_vecs_view(out@);
            out.push(x.clone());
            assert(char_vecs_view(out@) =~= before.push(pv[i as int]));
        }
        i += 1;
    }
    assert(pv.take(pieces.len() as int) =~= pv);
    if out.len() == 0 {
        return None;
    }
    Some(out)
}

proof fn lemma_kept_none_extends(parts: Seq<Seq<char>>, n: int)
    requires
        0 <= n <= parts.len(),
        kept_parts(parts.take(n)) is None,
    ensures
        kept_parts(parts) is None,
    decreases parts.len() - n,
{
    if n < parts.len() {
        assert(parts.take(n + 1).drop_last() =~= parts.take(n));
        lemma_kept_none_extends(parts, n + 1);
    } else {
        assert(parts.take(n) =~= parts);
    }
}

fn join_parts(parts: &Vec<Vec<char>>) -> (s: String)
    ensures
        s@ == join_spec(char_vecs_view(parts@), "/"@),
{
    let ghost pv = char_vecs_view(parts@);
    let mut out = String::new();
    let mut i: usize = 0;
    assert(pv.take(0) =~= Seq::<Seq<char>>::empty());
    while i < parts.len()
        invariant
            pv == char_vecs_view(parts@),
            i <= parts.len(),
            out@ == join_spec(pv.take(i as int), "/"@),
        decreases parts.len() - i,
    {
        assert(pv.take(i + 1).drop_last() =~= pv.take(i as int));
        assert(pv[i as int] == parts@[i as int]@);
        if i > 0 {
            out.append("/");
        }
        out.append(string_of(parts[i].as_slice()).as_str());
        proof {
            if i == 0 {
                assert(out@ =~= pv.take(1)[0]);
            }
        }
        i += 1;
    }
    assert(pv.take(parts.len() as int) =~= pv);
    out
}

/// The normalized form of a relative path: its components joined by `/`.
pub open spec fn normalized_rel(path: Seq<char>) -> Option<Seq<char>> {
    match rel_components(path) {
        Some(c) => Some(join_spec(c, "/"@)),
        None => None,
    }
}

/// Normalizes a relative path (see `rel_components`); `None` for one that
/// is absolute, climbs with `..`, or is empty.
pub fn normalize_rel_path(path: &str) -> (r: Option<String>)
    ensures
        match normalized_rel(path@) {
            Some(p) => r matches Some(s) && s@ == p,
            None => r is None,
        },
{
    match rel_parts(&chars_of(path)) {
        Some(v) => Some(join_parts(&v)),
        None => None,
    }
}

/// `a` begins with the components `b`.
pub open spec fn parts_prefix(b: Seq<Seq<char>>, a: Seq<Seq<char>>) -> bool {
    b.len() <= a.len() && a.take(b.len() as int) == b
}

/// A workspace input that lies under the managed root: the normalized path
/// of the trimmed input when both it and the root are usable relative
/// paths and the root's components begin it.
pub open spec fn managed_workspace(workspace: Seq<char>, root: Seq<char>) -> Option<Seq<char>> {
    let ws = trim_seq(workspace);
    if ws.len() == 0 {
        None
    } else {
        match (rel_components(ws), rel_components(root)) {
            (Some(a), Some(b)) => if parts_prefix(b, a) { Some(join_spec(a, "/"@)) } else { None },
            _ => None,
        }
    }
}

/// The relative path of a workspace input under the managed root (see
/// `managed_workspace`).
pub fn workspace_path_for_input(workspace: &str, managed_root_dir: &str) -> (r: Option<String>)
    ensures
        match managed_workspace(workspace@, managed_root_dir@) {
            Some(p) => r matches Some(s) && s@ == p,
            None => r is None,
        },
{
    let ws = trim_chars(&chars_of(workspace));
    if ws.len() == 0 {
        return None;
    }
    let a = match rel_parts(&ws) {
        Some(a) => a,
        None => return None,
    };
    let b = match rel_parts(&chars_of(managed_root_dir)) {
        Some(b) => b,
        None => return None,
    };
    if b.len() > a.len() {
        return None;
    }
    let ghost av = char_vecs_view(a@);
    let ghost bv = char_vecs_view(b@);
    assert(managed_workspace(workspace@, managed_root_dir@) == (if parts_prefix(bv, av) { Some(join_spec(av, "/"@)) } else { None }));
    let mut i: usize = 0;
    while i < b.len()
        invariant
            managed_workspace(workspace@, managed_root_dir@) == (if parts_prefix(bv, av) { Some(join_spec(av, "/"@)) } else { None }),
            i <= b.len(),
            b.len() <= a.len(),
            av == char_vecs_view(a@),
            bv == char_vecs_view(b@),
            forall|j: int| 0 <= j < i ==> av[j] == bv[j],
        decreases b.len() - i,
    {
        assert(av[i as int] == a@[i as int]@ && bv[i as int] == b@[i as int]@);
        if !chars_eq(&a[i], &b[i]) {
            assert(av.take(bv.len() as int)[i as int] != bv[i as int]);
            return None;
        }
        i += 1;
    }
    assert(av.take(bv.len() as int) =~= bv);
    Some(join_parts(&a))
}

/// The error for a workspace outside the managed workspaces directory.
pub open spec fn unmanaged_msg(root: Seq<char>, dir: Seq<char>) -> Seq<char> {
    "workspace must be under ./"@ + root + "/"@ + dir
}

/// The relative path of a managed workspace, or the error naming where
/// workspaces belong (see `managed_workspace`).
pub fn require_managed_workspace(workspace: &str, managed_root_dir: &str, managed_workspaces_dir: &str) -> (r: Result<String, String>)
    ensures
        match managed_workspace(workspace@, managed_root_dir@) {
            Some(p) => r matches Ok(s) && s@ == p,
            None => r matches Err(e) && e@ == unmanaged_msg(managed_root_dir@, managed_workspaces_dir@),
        },
{
    match workspace_path_for_input(workspace, managed_root_dir) {
        Some(p) => Ok(p),
        None => {
            let mut e = concat("workspace must be under ./", managed_root_dir);
            e.append("/");
            e.append(managed_workspaces_dir);
            Err(e)
        },
    }
}

/// Components that neither climb (`..`), stay (`.`), nor are empty.
pub open spec fn clean_parts(c: Seq<Seq<char>>) -> bool {
    forall|i: int| 0 <= i < c.len() ==> (#[trigger] c[i]) != ".."@ && c[i] != "."@ && c[i].len() > 0
}

proof fn lemma_kept_clean(parts: Seq<Seq<char>>)
    ensures
        kept_parts(parts) matches Some(c) ==> clean_parts(c),
    decreases parts.len(),
{
    if parts.len() > 0 {
        lemma_kept_clean(parts.drop_last());
        if let Some(p) = kept_parts(parts.drop_last()) {
            let x = parts.last();
            if x != ".."@ && !(x.len() == 0 || x == "."@) {
                let c = p.push(x);
                assert forall|i: int| 0 <= i < c.len() implies (#[trigger] c[i]) != ".."@ && c[i] != "."@ && c[i].len() > 0 by {
                    if i < p.len() {
                        assert(c[i] == p[i]);
                    }
                }
            }
        }
    }
}

/// A managed workspace stays under the managed root: its path is made of
/// clean components that begin with the root's components, so it can
/// neither be absolute nor climb out with `..`.
pub proof fn managed_workspace_stays_under_root(workspace: Seq<char>, root: Seq<char>)
    requires
        managed_workspace(workspace, root) is Some,
    ensures
        ({
            let a = rel_components(trim_seq(workspace))->Some_0;
            let b = rel_components(root)->Some_0;
            &&& rel_components(trim_seq(workspace)) is Some
            &&& rel_components(root) is Some
            &&& managed_workspace(workspace, root) == Some(join_spec(a, "/"@))
            &&& clean_parts(a)
            &&& clean_parts(b)
            &&& parts_prefix(b, a)
        }),
{
    lemma_kept_clean(split_seq(trim_seq(workspace), '/'));
    lemma_kept_clean(split_seq(root, '/'));
}

} // verus!
