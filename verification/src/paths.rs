//! Path resolution for book references: the directory containing the
//! workspace document, and joining it with a relative (or absolute) path.

use vstd::prelude::*;

verus! {

/// Index of the last `/` in `s`, or `-1` if there is none.
pub open spec fn last_slash(s: Seq<char>) -> int
    decreases s.len(),
{
    if s.len() == 0 {
        -1
    } else if s[s.len() - 1] == '/' {
        s.len() - 1
    } else {
        last_slash(s.drop_last())
    }
}

/// The directory that book references are resolved against: everything before
/// the last `/` of the workspace location, `/` if that slash is leading, the
/// empty string if there is no slash, and `.` (the current directory) if the
/// location has no parent at all.
pub open spec fn workspace_dir_of(path: Seq<char>) -> Seq<char> {
    let k = last_slash(path);
    if path.len() == 0 {
        seq!['.']
    } else if k == -1 {
        Seq::<char>::empty()
    } else if k == 0 && path.len() == 1 {
        seq!['.']
    } else if k == 0 {
        path.subrange(0, 1)
    } else {
        path.subrange(0, k)
    }
}

/// Standard path joining: an absolute `rel` (leading `/`) overrides `dir`;
/// otherwise `rel` is appended to `dir` with a single `/` between them.
pub open spec fn join_of(dir: Seq<char>, rel: Seq<char>) -> Seq<char> {
    if rel.len() > 0 && rel[0] == '/' {
        rel
    } else if dir.len() == 0 {
        rel
    } else if dir[dir.len() - 1] == '/' {
        dir + rel
    } else {
        dir + seq!['/'] + rel
    }
}

/// An absolute path wins over any base directory when joined.
pub proof fn lemma_join_absolute(dir: Seq<char>, rel: Seq<char>)
    requires
        rel.len() > 0,
        rel[0] == '/',
    ensures
        join_of(dir, rel) == rel,
{
}

/// A relative path is resolved under the base directory: the joined path
/// starts with the directory and ends with the relative path.
pub proof fn lemma_join_relative(dir: Seq<char>, rel: Seq<char>)
    requires
        dir.len() > 0,
        !(rel.len() > 0 && rel[0] == '/'),
    ensures
        join_of(dir, rel).subrange(0, dir.len() as int) == dir,
        join_of(dir, rel).subrange(join_of(dir, rel).len() - rel.len(), join_of(dir, rel).len() as int) == rel,
{
    let j = join_of(dir, rel);
    assert(j.subrange(0, dir.len() as int) =~= dir);
    assert(j.subrange(j.len() - rel.len(), j.len() as int) =~= rel);
}

/// The directory of the workspace at `path`, as `workspace_dir_of` states it.
pub fn workspace_dir(path: &str) -> (r: String)
    ensures
        r@ == workspace_dir_of(path@),
{
    let n = path.unicode_len();
    if n == 0 {
        let r = String::from_str(".");
        proof {
            reveal_strlit(".");
            assert(r@ =~= seq!['.']);
        }
        return r;
    }
    proof {
        assert(path@.subrange(0, n as int) =~= path@);
    }
    let mut i = n;
    while i > 0
        invariant
            i <= n,
            n == path@.len(),
            last_slash(path@) == last_slash(path@.subrange(0, i as int)),
        decreases i,
    {
        let c = path.get_char(i - 1);
        proof {
            assert(path@.subrange(0, i as int)[i - 1] == path@[i - 1]);
        }
        if c == '/' {
            proof {
                assert(last_slash(path@.subrange(0, i as int)) == i - 1);
            }
            if i - 1 == 0 {
                if n == 1 {
                    let r = String::from_str(".");
                    proof {
                        reveal_strlit(".");
                        assert(r@ =~= seq!['.']);
                    }
                    return r;
                }
                return String::from_str(path.substring_char(0, 1));
            }
            return String::from_str(path.substring_char(0, i - 1));
        }
        proof {
            assert(path@.subrange(0, i as int).drop_last() =~= path@.subrange(0, i - 1));
        }
        i = i - 1;
    }
    proof {
        assert(path@.subrange(0, 0) =~= Seq::<char>::empty());
    }
    String::new()
}

/// Joins the workspace directory with a book's relative path, as `join_of`
/// states it: an absolute path overrides the directory.
pub fn join_path(dir: &str, rel: &str) -> (r: String)
    ensures
        r@ == join_of(dir@, rel@),
{
    let rel_len = rel.unicode_len();
    if rel_len > 0 && rel.get_char(0) == '/' {
        return String::from_str(rel);
    }
    let dir_len = dir.unicode_len();
    if dir_len == 0 {
        return String::from_str(rel);
    }
    if dir.get_char(dir_len - 1) == '/' {
        return String::from_str(dir).concat(rel);
    }
    let r = String::from_str(dir).concat("/").concat(rel);
    proof {
        reveal_strlit("/");
        assert(r@ =~= dir@ + seq!['/'] + rel@);
    }
    r
}

} // verus!
