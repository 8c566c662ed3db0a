//! The pure half of executable resolution: splitting a search path and
//! rebasing candidate paths under the container root. The driver checks the
//! candidates against the filesystem (following no symlink that escapes the
//! container root).

use vstd::prelude::*;
use crate::textfmt::{spec_joined, spec_views};

verus! {

/// Split a search path on colons. The parts, joined by colons, give the
/// input back, and no part contains a colon: that pins the split.
pub fn split_search_path(env_path: &str) -> (r: Vec<String>)
    ensures
        r@.len() >= 1,
        spec_joined(spec_views(r@), ":"@) == env_path@,
        forall|i: int, j: int|
            0 <= i < r@.len() && 0 <= j < r@[i]@.len() ==> r@[i]@[j] != ':',
{
    proof {
        reveal_strlit(":");
    }
    let n = env_path.unicode_len();
    let mut parts: Vec<String> = Vec::new();
    let mut start: usize = 0;
    let mut i: usize = 0;
    while i < n
        invariant
            n == env_path@.len(),
            start <= i <= n,
            forall|k: int| start <= k < i ==> env_path@[k] != ':',
            forall|p: int, j: int|
                0 <= p < parts@.len() && 0 <= j < parts@[p]@.len() ==> parts@[p]@[j] != ':',
            parts@.len() == 0 ==> start == 0,
            parts@.len() > 0 ==> start >= 1 && env_path@[start - 1] == ':' && spec_joined(
                spec_views(parts@),
                ":"@,
            ) + ":"@ == env_path@.take(start as int),
        decreases n - i,
    {
        if env_path.get_char(i) == ':' {
            let part = env_path.substring_char(start, i).to_owned();
            proof {
                assert(part@ =~= env_path@.subrange(start as int, i as int));
            }
            let ghost pre = spec_views(parts@);
            parts.push(part);
            proof {
                reveal_strlit(":");
                crate::textfmt::lemma_joined_push(pre, ":"@, part@);
                assert(spec_views(parts@) =~= pre.push(part@));
                assert(env_path@.take(start as int) + env_path@.subrange(start as int, i as int)
                    =~= env_path@.take(i as int));
                assert(env_path@.take(i as int) + ":"@ =~= env_path@.take(i as int + 1));
                if pre.len() == 0 {
                    assert(spec_joined(spec_views(parts@), ":"@) + ":"@ =~= env_path@.take(
                        i as int + 1,
                    ));
                } else {
                    assert(spec_joined(spec_views(parts@), ":"@) + ":"@ =~= env_path@.take(
                        i as int + 1,
                    ));
                }
            }
            start = i + 1;
        }
        i += 1;
    }
    let last = env_path.substring_char(start, n).to_owned();
    proof {
        assert(last@ =~= env_path@.subrange(start as int, n as int));
    }
    let ghost pre = spec_views(parts@);
    parts.push(last);
    proof {
        crate::textfmt::lemma_joined_push(pre, ":"@, last@);
        assert(spec_views(parts@) =~= pre.push(last@));
        assert(env_path@.take(start as int) + env_path@.subrange(start as int, n as int)
            =~= env_path@.take(n as int));
        assert(env_path@.take(n as int) =~= env_path@);
        if pre.len() == 0 {
            assert(spec_joined(spec_views(parts@), ":"@) =~= env_path@);
        } else {
            assert(spec_joined(spec_views(parts@), ":"@) =~= env_path@);
        }
    }
    parts
}

/// A path rebased under the container root: the root, a slash unless the
/// path brings its own, then the path.
pub open spec fn spec_rebase(root: Seq<char>, p: Seq<char>) -> Seq<char> {
    if p.len() > 0 && p[0] == '/' {
        root + p
    } else {
        root + "/"@ + p
    }
}

/// Rebase a path under the container root.
pub fn rebase(root: &str, p: &str) -> (r: String)
    ensures
        r@ == spec_rebase(root@, p@),
{
    proof {
        reveal_strlit("/");
    }
    let mut r = root.to_owned();
    let starts_with_slash = p.unicode_len() > 0 && p.get_char(0) == '/';
    if !starts_with_slash {
        r.append("/");
    }
    r.append(p);
    r
}

/// The candidate absolute paths for resolving an executable inside the
/// container root: the rebased program itself when its name is absolute,
/// otherwise the program appended to each rebased search-path entry.
pub open spec fn spec_candidates(root: Seq<char>, parts: Seq<Seq<char>>, arg0: Seq<char>) -> Seq<
    Seq<char>,
> {
    if arg0.len() > 0 && arg0[0] == '/' {
        seq![spec_rebase(root, arg0)]
    } else {
        parts.map_values(|part: Seq<char>| spec_rebase(root, part) + "/"@ + arg0)
    }
}

/// Compute the candidate paths for an executable. The driver canonicalizes
/// each candidate and takes the first that passes the symlink-safe
/// executable check.
pub fn exec_candidates(root: &str, env_path: &str, arg0: &str) -> (r: Vec<String>)
    ensures
        arg0@.len() > 0 && arg0@[0] == '/' ==> spec_views(r@) == seq![spec_rebase(root@, arg0@)],
        arg0@.len() == 0 || arg0@[0] != '/' ==> exists|parts: Seq<Seq<char>>|
            {
                &&& parts.len() >= 1
                &&& spec_joined(parts, ":"@) == env_path@
                &&& (forall|i: int, j: int|
                    0 <= i < parts.len() && 0 <= j < parts[i].len() ==> parts[i][j] != ':')
                &&& spec_views(r@) == #[trigger] spec_candidates(root@, parts, arg0@)
            },
{
    proof {
        reveal_strlit("/");
    }
    let absolute = arg0.unicode_len() > 0 && arg0.get_char(0) == '/';
    if absolute {
        let mut r: Vec<String> = Vec::new();
        r.push(rebase(root, arg0));
        proof {
            assert(spec_views(r@) =~= seq![spec_rebase(root@, arg0@)]);
        }
        r
    } else {
        let parts = split_search_path(env_path);
        let mut r: Vec<String> = Vec::new();
        let n = parts.len();
        let mut i: usize = 0;
        while i < n
            invariant
                n == parts@.len(),
                n >= 1,
                i <= n,
                r@.len() == i,
                forall|k: int|
                    0 <= k < i ==> (#[trigger] r@[k])@ == spec_rebase(root@, parts@[k]@) + "/"@
                        + arg0@,
            decreases n - i,
        {
            let mut cand = rebase(root, parts[i].as_str());
            cand.append("/");
            cand.append(arg0);
            r.push(cand);
            i += 1;
        }
        proof {
            let ghost witness = spec_views(parts@);
            assert(spec_views(r@) =~= spec_candidates(root@, witness, arg0@));
            assert(witness.len() >= 1 && spec_joined(witness, ":"@) == env_path@ && (forall|
                i: int,
                j: int,
            |
                0 <= i < witness.len() && 0 <= j < witness[i].len() ==> witness[i][j] != ':')
                && spec_views(r@) == spec_candidates(root@, witness, arg0@));
        }
        r
    }
}

} // verus!
