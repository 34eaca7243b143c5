use vstd::prelude::*;
use vstd::string::StrSliceExecFns;
use vstd::string::StringExecFns;

verus! {

/// Index of the last `c` in `s`, or -1 where there is none.
pub open spec fn last_index(s: Seq<char>, c: char) -> int
    decreases s.len(),
{
    if s.len() == 0 {
        -1
    } else if s.last() == c {
        s.len() - 1
    } else {
        last_index(s.drop_last(), c)
    }
}

/// The last `/`-separated segment of a path or URL.
pub open spec fn basename(s: Seq<char>) -> Seq<char> {
    s.subrange(last_index(s, '/') + 1, s.len() as int)
}

/// `dir` joined with a file name, with one `/` between them.
pub open spec fn joined(dir: Seq<char>, name: Seq<char>) -> Seq<char> {
    if dir.len() == 0 || dir.last() == '/' {
        dir + name
    } else {
        dir + seq!['/'] + name
    }
}

/// Where a reference to `url` points once moved into `dir`: the file name is
/// kept and the directory replaced. `None` when `url` has no file name.
pub open spec fn rebased(dir: Seq<char>, url: Seq<char>) -> Option<Seq<char>> {
    if basename(url).len() == 0 {
        None
    } else {
        Some(joined(dir, basename(url)))
    }
}

pub proof fn lemma_last_index(s: Seq<char>, c: char)
    ensures
        -1 <= last_index(s, c) < s.len(),
        last_index(s, c) >= 0 ==> s[last_index(s, c)] == c,
        forall|j: int| last_index(s, c) < j < s.len() ==> s[j] != c,
    decreases s.len(),
{
    if s.len() > 0 && s.last() != c {
        let t = s.drop_last();
        lemma_last_index(t, c);
        assert forall|j: int| last_index(s, c) < j < s.len() implies s[j] != c by {
            if j < t.len() {
                assert(s[j] == t[j]);
            }
        }
        if last_index(s, c) >= 0 {
            assert(s[last_index(s, c)] == t[last_index(t, c)]);
        }
    }
}

/// Rebasing is idempotent: a reference already moved into `dir` stays where
/// it is when moved again.
pub proof fn lemma_rebase_idempotent(dir: Seq<char>, url: Seq<char>)
    ensures
        rebased(dir, url) matches Some(u) ==> rebased(dir, u) == Some(u),
{
    if rebased(dir, url) is Some {
        let n = basename(url);
        let u = joined(dir, n);
        lemma_last_index(url, '/');
        lemma_last_index(u, '/');
        let pre = if dir.len() == 0 || dir.last() == '/' {
            dir
        } else {
            dir + seq!['/']
        };
        assert(u =~= pre + n);
        assert forall|j: int| 0 <= j < n.len() implies n[j] != '/' by {
            assert(n[j] == url[last_index(url, '/') + 1 + j]);
        }
        assert(forall|j: int| pre.len() <= j < u.len() ==> u[j] == n[j - pre.len()]);
        if pre.len() > 0 {
            assert(pre[pre.len() - 1] == '/');
            assert(u[pre.len() - 1] == '/');
        }
        assert(last_index(u, '/') == pre.len() - 1);
        assert(basename(u) =~= n);
    }
}

/// Index of the last `c` in `s`, found by a scan from the end.
pub fn find_last(s: &str, c: char) -> (r: Option<usize>)
    ensures
        r is None ==> last_index(s@, c) == -1,
        r matches Some(k) ==> last_index(s@, c) == k && k < s@.len(),
{
    proof {
        lemma_last_index(s@, c);
    }
    let n = s.unicode_len();
    let mut i: usize = n;
    while i > 0
        invariant
            i <= n == s@.len(),
            forall|j: int| i <= j < n ==> s@[j] != c,
        decreases i,
    {
        if s.get_char(i - 1) == c {
            proof {
                lemma_last_index(s@, c);
                let m = last_index(s@, c);
                assert(s@[i - 1] == c);
                if m >= i {
                    assert(s@[m] == c);
                }
            }
            return Some(i - 1);
        }
        i = i - 1;
    }
    None
}

/// The last `/`-separated segment of `s`.
pub fn file_name(s: &str) -> (r: &str)
    ensures
        r@ == basename(s@),
{
    let n = s.unicode_len();
    match find_last(s, '/') {
        Some(k) => s.substring_char(k + 1, n),
        None => {
            assert(s@.subrange(0, n as int) =~= s@);
            s.substring_char(0, n)
        },
    }
}

/// Joins a directory and a file name with one `/` between them.
pub fn join_path(dir: &str, name: &str) -> (r: String)
    ensures
        r@ == joined(dir@, name@),
{
    let mut r = dir.to_owned();
    let n = dir.unicode_len();
    if n > 0 && dir.get_char(n - 1) != '/' {
        r.append("/");
        proof {
            reveal_strlit("/");
        }
    }
    r.append(name);
    r
}

/// Points a media reference into `asset_dir`, keeping its file name.
/// `None` when the reference ends in `/` or is empty.
pub fn rebase_url(asset_dir: &str, url: &str) -> (r: Option<String>)
    ensures
        r is Some <==> rebased(asset_dir@, url@) is Some,
        r matches Some(u) ==> rebased(asset_dir@, url@) == Some(u@),
{
    let name = file_name(url);
    if name.unicode_len() == 0 {
        None
    } else {
        Some(join_path(asset_dir, name))
    }
}

} // verus!
