//! Output-path arithmetic for the emission stage: joining the output
//! directory with an asset filename, stripping a query-string suffix, and
//! finding the parent directory of a file path.

use vstd::prelude::*;

verus! {

/// The on-disk path of `name` inside directory `dir`.
pub open spec fn spec_join(dir: Seq<char>, name: Seq<char>) -> Seq<char> {
    dir + "/"@ + name
}

/// `name` with everything from the first `?` on removed; a query suffix
/// (`main.js?v=1`) names the same on-disk file as `main.js`.
pub open spec fn spec_strip_query(s: Seq<char>) -> Seq<char>
    decreases s.len(),
{
    if s.len() == 0 {
        s
    } else if s[0] == '?' {
        Seq::empty()
    } else {
        seq![s[0]] + spec_strip_query(s.subrange(1, s.len() as int))
    }
}

/// `p` lies inside the directory tree rooted at `root`.
pub open spec fn path_under(p: Seq<char>, root: Seq<char>) -> bool {
    p == root || (p.len() > root.len() && p.subrange(0, root.len() as int) == root && p[root.len() as int]
        == '/')
}

/// If `s` has no `?` before index `i`, and `i` is either the first `?` or the
/// end, the stripped form is exactly the prefix of length `i`.
pub proof fn lemma_strip_query_prefix(s: Seq<char>, i: int)
    requires
        0 <= i <= s.len(),
        forall|j: int| 0 <= j < i ==> s[j] != '?',
        i < s.len() ==> s[i] == '?',
    ensures
        spec_strip_query(s) == s.subrange(0, i),
    decreases i,
{
    if i == 0 {
        if s.len() == 0 {
            assert(s.subrange(0, 0) =~= s);
        } else {
            assert(s.subrange(0, 0) =~= Seq::<char>::empty());
        }
    } else {
        let t = s.subrange(1, s.len() as int);
        assert(forall|j: int| 0 <= j < i - 1 ==> t[j] == s[j + 1] && #[trigger] t[j] != '?');
        lemma_strip_query_prefix(t, i - 1);
        assert(s.subrange(0, i) =~= seq![s[0]] + t.subrange(0, i - 1));
    }
}

/// `name` with everything from the first `?` on removed.
pub fn strip_query<'a>(s: &'a str) -> (r: &'a str)
    ensures
        r@ == spec_strip_query(s@),
{
    let n = s.unicode_len();
    let mut i: usize = 0;
    while i < n
        invariant
            i <= n,
            n == s@.len(),
            forall|j: int| 0 <= j < i ==> s@[j] != '?',
        decreases n - i,
    {
        if s.get_char(i) == '?' {
            proof {
                lemma_strip_query_prefix(s@, i as int);
            }
            return s.substring_char(0, i);
        }
        i += 1;
    }
    proof {
        lemma_strip_query_prefix(s@, n as int);
        assert(s@.subrange(0, n as int) =~= s@);
    }
    s
}

/// Character-for-character string comparison.
pub fn str_equal(a: &str, b: &str) -> (r: bool)
    ensures
        r <==> a@ == b@,
{
    let n = a.unicode_len();
    if n != b.unicode_len() {
        return false;
    }
    let mut i: usize = 0;
    while i < n
        invariant
            i <= n,
            n == a@.len(),
            n == b@.len(),
            forall|j: int| 0 <= j < i ==> a@[j] == b@[j],
        decreases n - i,
    {
        if a.get_char(i) != b.get_char(i) {
            return false;
        }
        i += 1;
    }
    proof {
        assert(a@ =~= b@);
    }
    true
}

/// Whether some element of `v` has exactly the characters of `s`.
pub fn in_string_list(v: &Vec<String>, s: &str) -> (r: bool)
    ensures
        r == exists|i: int| 0 <= i < v@.len() && v@[i]@ == s@,
{
    let n = v.len();
    let mut i: usize = 0;
    while i < n
        invariant
            i <= n,
            n == v@.len(),
            forall|j: int| 0 <= j < i ==> v@[j]@ != s@,
        decreases n - i,
    {
        if str_equal(v[i].as_str(), s) {
            return true;
        }
        i += 1;
    }
    false
}

/// Whether `p` lies inside the directory tree rooted at `root`.
pub fn is_under(p: &str, root: &str) -> (r: bool)
    ensures
        r == path_under(p@, root@),
{
    let np = p.unicode_len();
    let nr = root.unicode_len();
    if np == nr {
        return str_equal(p, root);
    }
    if np < nr {
        proof {
            assert(p@ != root@);
        }
        return false;
    }
    if p.get_char(nr) != '/' {
        proof {
            assert(p@ != root@);
        }
        return false;
    }
    let prefix = p.substring_char(0, nr);
    let r = str_equal(prefix, root);
    proof {
        if r {
            assert(p@.subrange(0, root@.len() as int) == root@);
        }
        assert(p@ != root@);
    }
    r
}

/// The on-disk path of `name` inside directory `dir`.
pub fn join_path(dir: &String, name: &str) -> (r: String)
    ensures
        r@ == spec_join(dir@, name@),
{
    dir.clone().concat("/").concat(name)
}

/// Everything before the last `/` of a path that contains one.
pub open spec fn spec_parent(s: Seq<char>) -> Seq<char>
    decreases s.len(),
{
    if s.len() == 0 {
        s
    } else if s[s.len() - 1] == '/' {
        s.subrange(0, s.len() - 1)
    } else {
        spec_parent(s.subrange(0, s.len() - 1))
    }
}

/// The prefix before the last slash is the spec-level parent.
pub proof fn lemma_parent_prefix(s: Seq<char>, li: int)
    requires
        0 <= li < s.len(),
        s[li] == '/',
        forall|j: int| li < j < s.len() ==> s[j] != '/',
    ensures
        spec_parent(s) == s.subrange(0, li),
    decreases s.len(),
{
    if li == s.len() - 1 {
    } else {
        let t = s.subrange(0, s.len() - 1);
        assert(forall|j: int| li < j < t.len() ==> t[j] == s[j] && #[trigger] t[j] != '/');
        assert(t[li] == s[li]);
        lemma_parent_prefix(t, li);
        assert(t.subrange(0, li) =~= s.subrange(0, li));
    }
}

/// The directory part of a path that contains at least one separator:
/// everything before the last `/`.
pub fn parent_dir<'a>(s: &'a str) -> (r: &'a str)
    requires
        exists|j: int| 0 <= j < s@.len() && s@[j] == '/',
    ensures
        r@ == spec_parent(s@),
{
    let n = s.unicode_len();
    let mut i: usize = n;
    loop
        invariant
            0 < i <= n,
            n == s@.len(),
            forall|j: int| i <= j < n ==> s@[j] != '/',
            exists|j: int| 0 <= j < s@.len() && s@[j] == '/',
        decreases i,
    {
        i = i - 1;
        if s.get_char(i) == '/' {
            proof {
                lemma_parent_prefix(s@, i as int);
            }
            return s.substring_char(0, i);
        }
        if i == 0 {
            proof {
                assert(forall|j: int| 0 <= j < n ==> s@[j] != '/');
                assert(false);
            }
        }
    }
}

} // verus!
