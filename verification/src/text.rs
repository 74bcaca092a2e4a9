//! Character-level string functions: path segments, substring search and
//! joining, each stated over the `Seq<char>` view of a string.
use vstd::prelude::*;
use vstd::string::*;

verus! {

/// Index of the last occurrence of `c` in `s`, or -1 when `c` does not occur.
pub open spec fn last_index_of(s: Seq<char>, c: char) -> int
    decreases s.len(),
{
    if s.len() == 0 {
        -1
    } else if s.last() == c {
        s.len() - 1
    } else {
        last_index_of(s.drop_last(), c)
    }
}

/// Index of the first occurrence of `c` in `s`, or -1 when `c` does not occur.
pub open spec fn first_index_of(s: Seq<char>, c: char) -> int
    decreases s.len(),
{
    if s.len() == 0 {
        -1
    } else if first_index_of(s.drop_last(), c) >= 0 {
        first_index_of(s.drop_last(), c)
    } else if s.last() == c {
        s.len() - 1
    } else {
        -1
    }
}

/// What follows the last `/` of `s`: all of `s` when it holds no `/`.
/// This is the last item of `s.split("/")`.
pub open spec fn last_segment(s: Seq<char>) -> Seq<char> {
    s.subrange(last_index_of(s, '/') + 1, s.len() as int)
}

/// What precedes the first `c` of `s`: all of `s` when it holds no `c`.
/// This is the first item of `s.split(c)`.
pub open spec fn before_first(s: Seq<char>, c: char) -> Seq<char> {
    if first_index_of(s, c) < 0 {
        s
    } else {
        s.take(first_index_of(s, c))
    }
}

/// `needle` occurs in `hay` at position `i`.
pub open spec fn occurs_at(hay: Seq<char>, needle: Seq<char>, i: int) -> bool {
    0 <= i && i + needle.len() <= hay.len() && hay.subrange(i, i + needle.len()) == needle
}

/// `needle` occurs somewhere in `hay` (always true of an empty `needle`).
pub open spec fn contains_seq(hay: Seq<char>, needle: Seq<char>) -> bool {
    exists|i: int| occurs_at(hay, needle, i)
}

/// `a`, a slash, then `b`.
pub open spec fn slash_join(a: Seq<char>, b: Seq<char>) -> Seq<char> {
    a + seq!['/'] + b
}

/// The view of an optional string.
pub open spec fn opt_view(s: Option<&str>) -> Option<Seq<char>> {
    match s {
        Some(t) => Some(t@),
        None => None,
    }
}

/// The views of a sequence of strings.
pub open spec fn views(v: Seq<String>) -> Seq<Seq<char>> {
    v.map_values(|s: String| s@)
}

/// `s` holds no `c`.
pub open spec fn free_of(s: Seq<char>, c: char) -> bool {
    forall|j: int| 0 <= j < s.len() ==> s[j] != c
}

/// The last `c` of `s` is at a valid index, and no `c` follows it.
pub proof fn lemma_last_index_of(s: Seq<char>, c: char)
    ensures
        -1 <= last_index_of(s, c) < s.len(),
        last_index_of(s, c) >= 0 ==> s[last_index_of(s, c)] == c,
        forall|j: int| last_index_of(s, c) < j < s.len() ==> s[j] != c,
    decreases s.len(),
{
    if s.len() > 0 && s.last() != c {
        lemma_last_index_of(s.drop_last(), c);
        assert forall|j: int| last_index_of(s, c) < j < s.len() implies s[j] != c by {
            if j < s.len() - 1 {
                assert(s[j] == s.drop_last()[j]);
            }
        }
    }
}

/// When `s` ends with `c` followed by a run free of `c`, the last `c` is the one before the run.
pub proof fn lemma_last_index_before_free_tail(s: Seq<char>, c: char, k: int)
    requires
        0 <= k < s.len(),
        s[k] == c,
        forall|j: int| k < j < s.len() ==> s[j] != c,
    ensures
        last_index_of(s, c) == k,
    decreases s.len(),
{
    if s.len() - 1 != k {
        lemma_last_index_before_free_tail(s.drop_last(), c, k);
    }
}

/// A string free of `c` has no first `c`.
pub proof fn lemma_first_index_of_free(s: Seq<char>, c: char)
    requires
        free_of(s, c),
    ensures
        first_index_of(s, c) == -1,
    decreases s.len(),
{
    if s.len() > 0 {
        assert(free_of(s.drop_last(), c)) by {
            assert forall|j: int| 0 <= j < s.drop_last().len() implies s.drop_last()[j] != c by {
                assert(s.drop_last()[j] == s[j]);
            }
        }
        lemma_first_index_of_free(s.drop_last(), c);
    }
}

/// The first `c` of `s` is at `k` when `s[k]` is `c` and none comes before it.
pub proof fn lemma_first_index_of_at(s: Seq<char>, c: char, k: int)
    requires
        0 <= k < s.len(),
        s[k] == c,
        free_of(s.take(k), c),
    ensures
        first_index_of(s, c) == k,
    decreases s.len(),
{
    if k == s.len() - 1 {
        assert(s.drop_last() =~= s.take(k));
        lemma_first_index_of_free(s.drop_last(), c);
    } else {
        assert(s.drop_last().take(k) =~= s.take(k));
        lemma_first_index_of_at(s.drop_last(), c, k);
    }
}

/// What precedes the first `c` of `a + b` is `a`, when `a` holds no `c` and `b` starts with `c`.
pub proof fn lemma_before_first_of_concat(a: Seq<char>, b: Seq<char>, c: char)
    requires
        free_of(a, c),
        b.len() > 0,
        b[0] == c,
    ensures
        before_first(a + b, c) == a,
{
    let s = a + b;
    assert(s.take(a.len() as int) =~= a);
    lemma_first_index_of_at(s, c, a.len() as int);
}

/// The last segment of `a/b` is `b` when `b` holds no slash.
pub proof fn lemma_last_segment_of_join(a: Seq<char>, b: Seq<char>)
    requires
        free_of(b, '/'),
    ensures
        last_segment(slash_join(a, b)) == b,
{
    let s = slash_join(a, b);
    lemma_last_index_before_free_tail(s, '/', a.len() as int);
    assert(s.subrange(a.len() + 1int, s.len() as int) =~= b);
}

/// The last segment of `s` is a suffix of `s` that holds no slash, and it is
/// either all of `s` or preceded in `s` by a slash.
pub proof fn lemma_last_segment_shape(s: Seq<char>)
    ensures
        last_segment(s).len() <= s.len(),
        last_segment(s) == s.subrange(s.len() - last_segment(s).len(), s.len() as int),
        free_of(last_segment(s), '/'),
        last_segment(s).len() == s.len() || s[s.len() - last_segment(s).len() - 1] == '/',
{
    lemma_last_index_of(s, '/');
    let k = last_index_of(s, '/');
    assert forall|j: int| 0 <= j < last_segment(s).len() implies last_segment(s)[j] != '/' by {
        assert(last_segment(s)[j] == s[k + 1 + j]);
    }
}

/// What precedes the first `c` of `s` is a prefix of `s` that holds no `c`,
/// and it is either all of `s` or followed in `s` by a `c`.
pub proof fn lemma_before_first_shape(s: Seq<char>, c: char)
    ensures
        before_first(s, c).len() <= s.len(),
        before_first(s, c) == s.take(before_first(s, c).len() as int),
        free_of(before_first(s, c), c),
        before_first(s, c).len() == s.len() || s[before_first(s, c).len() as int] == c,
    decreases s.len(),
{
    lemma_first_index_facts(s, c);
    if first_index_of(s, c) < 0 {
        assert(s.take(s.len() as int) =~= s);
    }
}

/// The first `c` of `s`, when there is one, is a `c` with none before it; when
/// there is none, `s` holds no `c`.
proof fn lemma_first_index_facts(s: Seq<char>, c: char)
    ensures
        -1 <= first_index_of(s, c) < s.len(),
        first_index_of(s, c) >= 0 ==> s[first_index_of(s, c)] == c && free_of(
            s.take(first_index_of(s, c)),
            c,
        ),
        first_index_of(s, c) < 0 ==> free_of(s, c),
    decreases s.len(),
{
    if s.len() > 0 {
        let r = s.drop_last();
        lemma_first_index_facts(r, c);
        let f = first_index_of(r, c);
        if f >= 0 {
            assert(s.take(f) =~= r.take(f));
            assert(s[f] == r[f]);
        } else if s.last() == c {
            assert(s.take(s.len() - 1) =~= r);
        } else {
            assert forall|j: int| 0 <= j < s.len() implies s[j] != c by {
                if j < s.len() - 1 {
                    assert(s[j] == r[j]);
                }
            }
        }
    }
}

/// The last item of `s.split("/")`.
pub fn last_path_segment(s: &str) -> (r: String)
    ensures
        r@ == last_segment(s@),
{
    let n = s.unicode_len();
    let mut start: usize = 0;
    let mut i: usize = 0;
    while i < n
        invariant
            n == s@.len(),
            i <= n,
            start as int == last_index_of(s@.take(i as int), '/') + 1,
        decreases n - i,
    {
        proof {
            assert(s@.take(i + 1).drop_last() =~= s@.take(i as int));
        }
        if s.get_char(i) == '/' {
            start = i + 1;
        }
        i = i + 1;
    }
    proof {
        assert(s@.take(n as int) =~= s@);
        lemma_last_index_of(s@, '/');
    }
    s.substring_char(start, n).to_owned()
}

/// The first item of `s.split(c)`.
pub fn prefix_before(s: &str, c: char) -> (r: String)
    ensures
        r@ == before_first(s@, c),
{
    let n = s.unicode_len();
    let mut i: usize = 0;
    while i < n
        invariant
            n == s@.len(),
            i <= n,
            first_index_of(s@.take(i as int), c) < 0,
        decreases n - i,
    {
        proof {
            assert(s@.take(i + 1).drop_last() =~= s@.take(i as int));
        }
        if s.get_char(i) == c {
            proof {
                lemma_first_index_of_prefix(s@, c, (i + 1) as int);
            }
            return s.substring_char(0, i).to_owned();
        }
        i = i + 1;
    }
    proof {
        assert(s@.take(n as int) =~= s@);
    }
    s.to_owned()
}

/// Once a prefix of `s` holds a `c`, the first `c` of `s` is the first `c` of that prefix.
pub proof fn lemma_first_index_of_prefix(s: Seq<char>, c: char, k: int)
    requires
        0 <= k <= s.len(),
        first_index_of(s.take(k), c) >= 0,
    ensures
        first_index_of(s, c) == first_index_of(s.take(k), c),
    decreases s.len() - k,
{
    if k < s.len() {
        assert(s.take(k + 1).drop_last() =~= s.take(k));
        lemma_first_index_of_prefix(s, c, k + 1);
    } else {
        assert(s.take(k) =~= s);
    }
}

/// `needle` occurs in `hay` at position `i`, checked character by character.
fn occurs_at_exec(hay: &str, needle: &str, i: usize) -> (r: bool)
    requires
        i + needle@.len() <= hay@.len(),
    ensures
        r == occurs_at(hay@, needle@, i as int),
{
    let n = hay.unicode_len();
    let m = needle.unicode_len();
    let mut j: usize = 0;
    while j < m
        invariant
            n == hay@.len(),
            m == needle@.len(),
            i + m <= hay@.len(),
            j <= m,
            forall|k: int| 0 <= k < j ==> hay@[i + k] == needle@[k],
        decreases m - j,
    {
        if hay.get_char(i + j) != needle.get_char(j) {
            proof {
                assert(hay@.subrange(i as int, i + m)[j as int] != needle@[j as int]);
            }
            return false;
        }
        j = j + 1;
    }
    proof {
        assert(hay@.subrange(i as int, i + m) =~= needle@);
    }
    true
}

/// `hay.contains(needle)`.
pub fn contains_str(hay: &str, needle: &str) -> (r: bool)
    ensures
        r == contains_seq(hay@, needle@),
{
    let n = hay.unicode_len();
    let m = needle.unicode_len();
    if m > n {
        return false;
    }
    if m == 0 {
        proof {
            assert(hay@.subrange(0, 0) =~= needle@);
            assert(occurs_at(hay@, needle@, 0));
        }
        return true;
    }
    let mut i: usize = 0;
    while i <= n - m
        invariant
            n == hay@.len(),
            m == needle@.len(),
            1 <= m <= n,
            i <= n - m + 1,
            forall|k: int| 0 <= k < i ==> !occurs_at(hay@, needle@, k),
        decreases n - i,
    {
        if occurs_at_exec(hay, needle, i) {
            return true;
        }
        i = i + 1;
    }
    false
}

/// `a == b`, compared character by character.
pub fn str_eq(a: &str, b: &str) -> (r: bool)
    ensures
        r == (a@ == b@),
{
    let n = a.unicode_len();
    if n != b.unicode_len() {
        return false;
    }
    let mut i: usize = 0;
    while i < n
        invariant
            n == a@.len(),
            n == b@.len(),
            i <= n,
            forall|k: int| 0 <= k < i ==> a@[k] == b@[k],
        decreases n - i,
    {
        if a.get_char(i) != b.get_char(i) {
            return false;
        }
        i = i + 1;
    }
    proof {
        assert(a@ =~= b@);
    }
    true
}

/// `s.ends_with(c)`.
pub fn ends_with_char(s: &str, c: char) -> (r: bool)
    ensures
        r == (s@.len() > 0 && s@.last() == c),
{
    let n = s.unicode_len();
    n > 0 && s.get_char(n - 1) == c
}

/// `a`, a slash, then `b`, as a new string.
pub fn join_slash(a: &str, b: &str) -> (r: String)
    ensures
        r@ == slash_join(a@, b@),
{
    let mut r = a.to_owned();
    proof {
        reveal_strlit("/");
    }
    r.append("/");
    r.append(b);
    r
}

} // verus!
