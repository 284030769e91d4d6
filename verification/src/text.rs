//! Verified helpers over strings: substring containment, used by the
//! backend detector and by the streaming mode classifier.

use vstd::prelude::*;
use vstd::string::StrSliceExecFns;

verus! {

/// The views of a sequence of strings, in order.
pub open spec fn str_views(s: Seq<String>) -> Seq<Seq<char>> {
    s.map_values(|x: String| x@)
}

/// `p` occurs as a contiguous run of characters somewhere in `s`.
pub open spec fn contains_sub(s: Seq<char>, p: Seq<char>) -> bool {
    exists|i: int| 0 <= i && i + p.len() <= s.len() && #[trigger] s.subrange(i, i + p.len()) == p
}

/// `p` occurs in `s` starting exactly at position `i`.
fn matches_at(s: &str, p: &str, i: usize, n: usize, m: usize) -> (b: bool)
    requires
        n == s@.len(),
        m == p@.len(),
        i + m <= n,
    ensures
        b == (s@.subrange(i as int, i + p@.len()) == p@),
{
    let mut j: usize = 0;
    while j < m
        invariant
            n == s@.len(),
            m == p@.len(),
            i + m <= n,
            j <= m,
            forall|k: int| 0 <= k < j ==> s@[i + k] == p@[k],
        decreases m - j,
    {
        if s.get_char(i + j) != p.get_char(j) {
            assert(s@.subrange(i as int, i + p@.len())[j as int] != p@[j as int]);
            return false;
        }
        j += 1;
    }
    assert(s@.subrange(i as int, i + p@.len()) =~= p@);
    true
}

/// Substring search: returns whether `p` occurs anywhere in `s`.
pub fn contains_str(s: &str, p: &str) -> (b: bool)
    ensures
        b == contains_sub(s@, p@),
{
    let n: usize = s.unicode_len();
    let m: usize = p.unicode_len();
    if m == 0 {
        assert(contains_sub(s@, p@)) by {
            assert(s@.subrange(0, 0 + p@.len() as int) =~= p@);
        }
        return true;
    }
    if m > n {
        assert(!contains_sub(s@, p@)) by {
            if contains_sub(s@, p@) {
                let i = choose|i: int|
                    0 <= i && i + p@.len() <= s@.len() && #[trigger] s@.subrange(
                        i,
                        i + p@.len(),
                    ) == p@;
                assert(false);
            }
        }
        return false;
    }
    let mut i: usize = 0;
    while i <= n - m
        invariant
            n == s@.len(),
            m == p@.len(),
            1 <= m <= n,
            i <= n - m + 1,
            forall|k: int| 0 <= k < i ==> #[trigger] s@.subrange(k, k + p@.len()) != p@,
        decreases n - i,
    {
        if matches_at(s, p, i, n, m) {
            return true;
        }
        i += 1;
    }
    assert(!contains_sub(s@, p@)) by {
        if contains_sub(s@, p@) {
            let i = choose|i: int|
                0 <= i && i + p@.len() <= s@.len() && #[trigger] s@.subrange(i, i + p@.len())
                    == p@;
            assert(false);
        }
    }
    false
}

/// What remains of `s` after its last occurrence of `c`; all of `s`
/// when `c` does not occur.
pub open spec fn suffix_after_last(s: Seq<char>, c: char) -> Seq<char>
    decreases s.len(),
{
    if s.len() == 0 {
        s
    } else if s.last() == c {
        Seq::empty()
    } else {
        suffix_after_last(s.drop_last(), c).push(s.last())
    }
}

proof fn lemma_suffix_after_last_at(s: Seq<char>, c: char, i: int)
    requires
        0 <= i < s.len(),
        s[i] == c,
        forall|j: int| i < j < s.len() ==> s[j] != c,
    ensures
        suffix_after_last(s, c) == s.subrange(i + 1, s.len() as int),
    decreases s.len(),
{
    if i == s.len() - 1 {
        assert(suffix_after_last(s, c) =~= s.subrange(i + 1, s.len() as int));
    } else {
        assert(s.last() != c);
        assert(forall|j: int| i < j < s.drop_last().len() ==> s.drop_last()[j] != c);
        lemma_suffix_after_last_at(s.drop_last(), c, i);
        assert(s.drop_last().subrange(i + 1, s.drop_last().len() as int).push(s.last()) =~= s
            .subrange(i + 1, s.len() as int));
    }
}

proof fn lemma_suffix_after_last_none(s: Seq<char>, c: char)
    requires
        forall|j: int| 0 <= j < s.len() ==> s[j] != c,
    ensures
        suffix_after_last(s, c) == s,
    decreases s.len(),
{
    if s.len() > 0 {
        lemma_suffix_after_last_none(s.drop_last(), c);
        assert(suffix_after_last(s.drop_last(), c).push(s.last()) =~= s);
    }
}

/// The index of the last occurrence of `c` in `s`, if any.
fn rfind_char(s: &str, c: char, n: usize) -> (r: Option<usize>)
    requires
        n == s@.len(),
    ensures
        match r {
            Some(i) => i < n && s@[i as int] == c && forall|j: int|
                i < j < s@.len() ==> s@[j] != c,
            None => forall|j: int| 0 <= j < s@.len() ==> s@[j] != c,
        },
{
    let mut k: usize = n;
    while k > 0
        invariant
            k <= n,
            n == s@.len(),
            forall|j: int| k <= j < s@.len() ==> s@[j] != c,
        decreases k,
    {
        if s.get_char(k - 1) == c {
            return Some(k - 1);
        }
        k -= 1;
    }
    None
}

/// The file-name part of a path: everything after the last slash.
pub open spec fn file_name_of(path: Seq<char>) -> Seq<char> {
    suffix_after_last(path, '/')
}

/// The stem of a file name: the name with its extension cut off at
/// the last dot, kept whole when there is no dot or when the dot is
/// the leading character.
pub open spec fn stem_of_name(name: Seq<char>) -> Seq<char> {
    let ext = suffix_after_last(name, '.');
    if ext.len() == name.len() {
        name
    } else if name.len() - ext.len() == 1 {
        name
    } else {
        name.subrange(0, name.len() - ext.len() - 1)
    }
}

/// The stem of the file a path names.
pub open spec fn stem_of(path: Seq<char>) -> Seq<char> {
    stem_of_name(file_name_of(path))
}

/// The stem of the file `path` names: its base name without the
/// extension.
pub fn file_stem(path: &str) -> (stem: String)
    ensures
        stem@ == stem_of(path@),
{
    let n: usize = path.unicode_len();
    let name: &str = match rfind_char(path, '/', n) {
        Some(i) => {
            proof {
                lemma_suffix_after_last_at(path@, '/', i as int);
            }
            path.substring_char(i + 1, n)
        },
        None => {
            proof {
                lemma_suffix_after_last_none(path@, '/');
            }
            path
        },
    };
    assert(name@ =~= file_name_of(path@));
    let m: usize = name.unicode_len();
    match rfind_char(name, '.', m) {
        None => {
            proof {
                lemma_suffix_after_last_none(name@, '.');
            }
            String::from_str(name)
        },
        Some(i) => {
            proof {
                lemma_suffix_after_last_at(name@, '.', i as int);
            }
            if i == 0 {
                String::from_str(name)
            } else {
                let stem = name.substring_char(0, i);
                assert(stem@ =~= stem_of_name(name@));
                String::from_str(stem)
            }
        },
    }
}

/// The directory part of a path: everything before the last slash
/// (the root slash is kept), or a dot when the path has no slash.
pub open spec fn dir_of(path: Seq<char>) -> Seq<char> {
    let name = file_name_of(path);
    if name.len() == path.len() {
        "."@
    } else if path.len() - name.len() == 1 {
        "/"@
    } else {
        path.subrange(0, path.len() - name.len() - 1)
    }
}

/// The directory part of the path, as [`dir_of`] describes it.
pub fn dir_of_path(path: &str) -> (dir: String)
    ensures
        dir@ == dir_of(path@),
{
    let n: usize = path.unicode_len();
    match rfind_char(path, '/', n) {
        None => {
            proof {
                lemma_suffix_after_last_none(path@, '/');
            }
            String::from_str(".")
        },
        Some(i) => {
            proof {
                lemma_suffix_after_last_at(path@, '/', i as int);
            }
            if i == 0 {
                String::from_str("/")
            } else {
                let dir = path.substring_char(0, i);
                assert(dir@ =~= dir_of(path@));
                String::from_str(dir)
            }
        },
    }
}

/// `s` with every trailing slash removed.
pub open spec fn without_trailing_slashes(s: Seq<char>) -> Seq<char>
    decreases s.len(),
{
    if s.len() > 0 && s.last() == '/' {
        without_trailing_slashes(s.drop_last())
    } else {
        s
    }
}

/// Remove every trailing slash of `s`.
pub fn trim_trailing_slashes(s: &str) -> (r: String)
    ensures
        r@ == without_trailing_slashes(s@),
{
    let n: usize = s.unicode_len();
    let mut k: usize = n;
    assert(s@.subrange(0, n as int) =~= s@);
    while k > 0 && s.get_char(k - 1) == '/'
        invariant
            k <= n,
            n == s@.len(),
            without_trailing_slashes(s@) == without_trailing_slashes(s@.subrange(0, k as int)),
        decreases k,
    {
        proof {
            assert(s@.subrange(0, k as int).drop_last() =~= s@.subrange(0, k - 1));
        }
        k -= 1;
    }
    let r = s.substring_char(0, k);
    assert(r@ == without_trailing_slashes(s@));
    String::from_str(r)
}

} // verus!
