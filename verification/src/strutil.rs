//! Character-level string utilities used by the path resolver and the
//! registry queries: prefix/suffix tests, substring search, splitting on a
//! separator, and path joining. All of them are specified over the
//! `Seq<char>` views of their arguments.

use vstd::prelude::*;

verus! {

/// `needle` occurs in `hay` starting at position `i`.
pub open spec fn occurs_at(hay: Seq<char>, needle: Seq<char>, i: int) -> bool {
    0 <= i && i + needle.len() <= hay.len() && hay.subrange(i, i + needle.len()) == needle
}

/// `needle` occurs somewhere in `hay`.
pub open spec fn contains_seq(hay: Seq<char>, needle: Seq<char>) -> bool {
    exists|i: int| occurs_at(hay, needle, i)
}

/// First index of character `c` in `s`, or `s.len()` if `c` does not occur.
pub open spec fn first_index_of(s: Seq<char>, c: char) -> nat
    decreases s.len(),
{
    if s.len() == 0 {
        0
    } else if s[0] == c {
        0
    } else {
        1 + first_index_of(s.skip(1), c)
    }
}

/// Basic facts about `first_index_of`: it is in range, no earlier position
/// holds `c`, and it points at an occurrence when in range.
pub proof fn lemma_first_index_of(s: Seq<char>, c: char)
    ensures
        first_index_of(s, c) <= s.len(),
        forall|j: int| 0 <= j < first_index_of(s, c) ==> s[j] != c,
        first_index_of(s, c) < s.len() ==> s[first_index_of(s, c) as int] == c,
    decreases s.len(),
{
    if s.len() != 0 && s[0] != c {
        lemma_first_index_of(s.skip(1), c);
        assert forall|j: int| 0 <= j < first_index_of(s, c) implies s[j] != c by {
            if j >= 1 {
                assert(s[j] == s.skip(1)[j - 1]);
            }
        }
    }
}

/// Exact equality of two strings, by their character views.
pub fn str_eq(a: &str, b: &str) -> (r: bool)
    ensures
        r == (a@ == b@),
{
    let n = a.unicode_len();
    if n != b.unicode_len() {
        return false;
    }
    let mut i: usize = 0;
    while i < n
        invariant
            i <= n,
            n == a@.len(),
            n == b@.len(),
            forall|j: int| 0 <= j < i ==> a@[j] == b@[j],
        decreases n - i,
    {
        if a.get_char(i) != b.get_char(i) {
            return false;
        }
        i = i + 1;
    }
    assert(a@ =~= b@);
    true
}

/// `prefix` is a prefix of `s`.
pub fn starts_with(s: &str, prefix: &str) -> (r: bool)
    ensures
        r == prefix@.is_prefix_of(s@),
{
    let n = prefix.unicode_len();
    if n > s.unicode_len() {
        return false;
    }
    let mut i: usize = 0;
    while i < n
        invariant
            i <= n,
            n == prefix@.len(),
            n <= s@.len(),
            forall|j: int| 0 <= j < i ==> s@[j] == prefix@[j],
        decreases n - i,
    {
        if s.get_char(i) != prefix.get_char(i) {
            assert(!prefix@.is_prefix_of(s@));
            return false;
        }
        i = i + 1;
    }
    assert(prefix@.is_prefix_of(s@)) by {
        assert(s@.subrange(0, n as int) =~= prefix@);
    }
    true
}

/// `suffix` is a suffix of `s`.
pub fn ends_with(s: &str, suffix: &str) -> (r: bool)
    ensures
        r == suffix@.is_suffix_of(s@),
{
    let n = suffix.unicode_len();
    let len = s.unicode_len();
    if n > len {
        return false;
    }
    let mut i: usize = 0;
    while i < n
        invariant
            i <= n,
            n == suffix@.len(),
            len == s@.len(),
            n <= len,
            forall|j: int| 0 <= j < i ==> s@[len - n + j] == suffix@[j],
        decreases n - i,
    {
        if s.get_char(len - n + i) != suffix.get_char(i) {
            assert(s@.subrange(s@.len() - suffix@.len(), s@.len() as int)[i as int]
                != suffix@[i as int]);
            return false;
        }
        i = i + 1;
    }
    assert(suffix@.is_suffix_of(s@)) by {
        assert(s@.subrange(s@.len() - suffix@.len(), s@.len() as int) =~= suffix@);
    }
    true
}

/// `s` contains the character `c`.
pub fn contains_char(s: &str, c: char) -> (r: bool)
    ensures
        r == s@.contains(c),
{
    let len = s.unicode_len();
    let mut i: usize = 0;
    while i < len
        invariant
            i <= len,
            len == s@.len(),
            forall|j: int| 0 <= j < i ==> s@[j] != c,
        decreases len - i,
    {
        if s.get_char(i) == c {
            return true;
        }
        i = i + 1;
    }
    false
}

/// The views of a sequence of strings.
pub open spec fn views_of(v: Seq<String>) -> Seq<Seq<char>> {
    v.map_values(|s: String| s@)
}

/// The maximal nonempty `sep`-free chunks of `s`, in order: splitting on the
/// separator with empty pieces discarded.
pub open spec fn split_nonempty(s: Seq<char>, sep: char) -> Seq<Seq<char>>
    decreases s.len(),
    via split_nonempty_decreases
{
    if s.len() == 0 {
        seq![]
    } else if s[0] == sep {
        split_nonempty(s.skip(1), sep)
    } else {
        let k = first_index_of(s, sep) as int;
        seq![s.take(k)] + split_nonempty(s.skip(k), sep)
    }
}

#[via_fn]
proof fn split_nonempty_decreases(s: Seq<char>, sep: char) {
    if s.len() != 0 && s[0] != sep {
        lemma_first_index_of(s, sep);
        assert(first_index_of(s, sep) >= 1);
    }
}

/// First index at which `sep` occurs in `s` counted from `s`'s start, or the
/// length of `s` when it does not occur.
pub fn first_sep_index(s: &str, sep: char) -> (k: usize)
    ensures
        k == first_index_of(s@, sep),
{
    let len = s.unicode_len();
    let mut i: usize = 0;
    while i < len
        invariant
            i <= len,
            len == s@.len(),
            forall|j: int| 0 <= j < i ==> s@[j] != sep,
        decreases len - i,
    {
        if s.get_char(i) == sep {
            proof {
                lemma_first_index_of_unique(s@, sep, i as int);
            }
            return i;
        }
        i = i + 1;
    }
    proof {
        lemma_first_index_of_unique(s@, sep, len as int);
    }
    len
}

/// `first_index_of` is the one index `k` with no occurrence of `c` before it
/// and either the string's end or an occurrence of `c` at it.
pub proof fn lemma_first_index_of_unique(s: Seq<char>, c: char, k: int)
    requires
        0 <= k <= s.len(),
        forall|j: int| 0 <= j < k ==> s[j] != c,
        k < s.len() ==> s[k] == c,
    ensures
        first_index_of(s, c) == k,
    decreases s.len(),
{
    if s.len() != 0 && s[0] != c {
        assert forall|j: int| 0 <= j < k - 1 implies s.skip(1)[j] != c by {
            assert(s.skip(1)[j] == s[j + 1]);
        }
        assert(k - 1 < s.skip(1).len() ==> s.skip(1)[k - 1] == c);
        lemma_first_index_of_unique(s.skip(1), c, k - 1);
    }
}

/// Splitting on `sep`, keeping only nonempty pieces.
pub fn split_str_nonempty(s: &str, sep: char) -> (r: Vec<String>)
    ensures
        views_of(r@) == split_nonempty(s@, sep),
    decreases s@.len(),
{
    let len = s.unicode_len();
    if len == 0 {
        let r: Vec<String> = Vec::new();
        assert(views_of(r@) =~= split_nonempty(s@, sep));
        r
    } else if s.get_char(0) == sep {
        let rest = s.substring_char(1, len);
        assert(rest@ =~= s@.skip(1));
        split_str_nonempty(rest, sep)
    } else {
        let k = first_sep_index(s, sep);
        proof {
            lemma_first_index_of(s@, sep);
        }
        let chunk = String::from_str(s.substring_char(0, k));
        let tail = s.substring_char(k, len);
        assert(tail@ =~= s@.skip(k as int));
        let mut r = split_str_nonempty(tail, sep);
        r.insert(0, chunk);
        assert(views_of(r@) =~= split_nonempty(s@, sep)) by {
            assert(chunk@ == s@.take(k as int));
            assert(views_of(r@) =~= seq![chunk@] + views_of(r@.skip(1)));
        }
        r
    }
}

/// Last index of character `c` in `s`, or `-1` if `c` does not occur.
pub open spec fn last_index_of(s: Seq<char>, c: char) -> int
    decreases s.len(),
{
    if s.len() == 0 {
        -1
    } else if s.last() == c {
        s.len() - 1
    } else {
        last_index_of(s.drop_last(), c)
    }
}

/// `last_index_of` is the one index with no occurrence of `c` after it and
/// either `-1` or an occurrence of `c` at it.
pub proof fn lemma_last_index_of_unique(s: Seq<char>, c: char, k: int)
    requires
        -1 <= k < s.len(),
        k >= 0 ==> s[k] == c,
        forall|j: int| k < j < s.len() ==> s[j] != c,
    ensures
        last_index_of(s, c) == k,
    decreases s.len(),
{
    if s.len() != 0 && s.last() != c {
        assert(k < s.len() - 1);
        assert forall|j: int| k < j < s.drop_last().len() implies s.drop_last()[j] != c by {
            assert(s.drop_last()[j] == s[j]);
        }
        assert(k >= 0 ==> s.drop_last()[k] == s[k]);
        lemma_last_index_of_unique(s.drop_last(), c, k);
    }
}

/// One past the last occurrence of `sep` in `s`, or `0` when `sep` does not
/// occur.
pub fn index_after_last(s: &str, sep: char) -> (r: usize)
    ensures
        r as int == last_index_of(s@, sep) + 1,
        r <= s@.len(),
{
    let n = s.unicode_len();
    let mut i: usize = n;
    while i > 0
        invariant
            i <= n,
            n == s@.len(),
            forall|j: int| i <= j < n ==> s@[j] != sep,
        decreases i,
    {
        if s.get_char(i - 1) == sep {
            proof {
                lemma_last_index_of_unique(s@, sep, i - 1);
            }
            return i;
        }
        i = i - 1;
    }
    proof {
        lemma_last_index_of_unique(s@, sep, -1);
    }
    0
}

/// A nonempty separator-free string splits to itself alone.
pub proof fn lemma_split_single(s: Seq<char>, sep: char)
    requires
        s.len() > 0,
        !s.contains(sep),
    ensures
        split_nonempty(s, sep) == seq![s],
{
    assert forall|j: int| 0 <= j < s.len() implies s[j] != sep by {
        if s[j] == sep {
            assert(s.contains(sep));
        }
    }
    lemma_first_index_of_unique(s, sep, s.len() as int);
    assert(s.take(s.len() as int) =~= s);
    assert(s.skip(s.len() as int) =~= Seq::<char>::empty());
    assert(split_nonempty(Seq::<char>::empty(), sep) =~= Seq::<Seq<char>>::empty());
    assert(split_nonempty(s, sep) == seq![s.take(s.len() as int)] + split_nonempty(
        s.skip(s.len() as int),
        sep,
    ));
    assert(seq![s] + Seq::<Seq<char>>::empty() =~= seq![s]);
}

/// A nonempty separator-free prefix, the separator, then a remainder: the
/// prefix is the first chunk, and the remainder splits on its own.
pub proof fn lemma_split_chunk(a: Seq<char>, b: Seq<char>, sep: char)
    requires
        a.len() > 0,
        !a.contains(sep),
    ensures
        split_nonempty(a + seq![sep] + b, sep) == seq![a] + split_nonempty(b, sep),
{
    let s = a + seq![sep] + b;
    assert forall|j: int| 0 <= j < a.len() implies s[j] != sep by {
        assert(s[j] == a[j]);
        if a[j] == sep {
            assert(a.contains(sep));
        }
    }
    assert(s[a.len() as int] == sep);
    lemma_first_index_of_unique(s, sep, a.len() as int);
    assert(s[0] == a[0]);
    assert(s.take(a.len() as int) =~= a);
    let t = s.skip(a.len() as int);
    assert(t =~= seq![sep] + b);
    assert(t[0] == sep);
    assert(t.skip(1) =~= b);
    assert(split_nonempty(t, sep) == split_nonempty(b, sep));
    assert(split_nonempty(s, sep) == seq![s.take(a.len() as int)] + split_nonempty(t, sep));
    assert(split_nonempty(s, sep) == seq![a] + split_nonempty(b, sep));
}

/// `base` followed by `'/'`-separated `segments`, each preceded by one slash.
pub open spec fn joined_path(base: Seq<char>, segments: Seq<Seq<char>>) -> Seq<char>
    decreases segments.len(),
{
    if segments.len() == 0 {
        base
    } else {
        joined_path(base + seq!['/'] + segments[0], segments.skip(1))
    }
}

/// Unfolding `joined_path` from the right.
pub proof fn lemma_joined_path_push(base: Seq<char>, segments: Seq<Seq<char>>, last: Seq<char>)
    ensures
        joined_path(base, segments.push(last)) == joined_path(base, segments) + seq!['/'] + last,
    decreases segments.len(),
{
    if segments.len() == 0 {
        assert(segments.push(last).skip(1) =~= Seq::<Seq<char>>::empty());
        assert(segments.push(last)[0] == last);
        assert(joined_path(base, segments.push(last)) == joined_path(
            base + seq!['/'] + last,
            Seq::<Seq<char>>::empty(),
        ));
        assert(joined_path(base, segments) == base);
    } else {
        lemma_joined_path_push(base + seq!['/'] + segments[0], segments.skip(1), last);
        assert(segments.push(last).skip(1) =~= segments.skip(1).push(last));
        assert(segments.push(last)[0] == segments[0]);
        assert(joined_path(base, segments.push(last)) == joined_path(
            base + seq!['/'] + segments[0],
            segments.skip(1).push(last),
        ));
        assert(joined_path(base, segments) == joined_path(
            base + seq!['/'] + segments[0],
            segments.skip(1),
        ));
    }
}

/// Join `base` and the `segments` with `'/'` separators.
pub fn join_path(base: &str, segments: &Vec<String>) -> (r: String)
    ensures
        r@ == joined_path(base@, views_of(segments@)),
{
    let mut r = String::from_str(base);
    let n = segments.len();
    let mut i: usize = 0;
    while i < n
        invariant
            i <= n,
            n == segments@.len(),
            r@ == joined_path(base@, views_of(segments@).take(i as int)),
        decreases n - i,
    {
        r.append("/");
        r.append(segments[i].as_str());
        proof {
            reveal_strlit("/");
            lemma_joined_path_push(base@, views_of(segments@).take(i as int), segments@[i as int]@);
            assert(views_of(segments@).take(i + 1) =~= views_of(segments@).take(i as int).push(
                segments@[i as int]@,
            ));
        }
        i = i + 1;
    }
    assert(views_of(segments@).take(n as int) =~= views_of(segments@));
    r
}

/// Substring search: `needle` occurs contiguously in `hay`.
pub fn contains_str(hay: &str, needle: &str) -> (r: bool)
    ensures
        r == contains_seq(hay@, needle@),
{
    let n = needle.unicode_len();
    let len = hay.unicode_len();
    if n == 0 {
        assert(occurs_at(hay@, needle@, 0)) by {
            assert(hay@.subrange(0, 0) =~= needle@);
        }
        return true;
    }
    if n > len {
        assert(!contains_seq(hay@, needle@));
        return false;
    }
    let limit = len - n;
    let mut start: usize = 0;
    while start <= limit
        invariant
            n == needle@.len(),
            len == hay@.len(),
            1 <= n <= len,
            limit == len - n,
            start <= limit + 1,
            forall|i: int| 0 <= i < start ==> !occurs_at(hay@, needle@, i),
        decreases limit + 1 - start,
    {
        let mut j: usize = 0;
        let mut all_match = true;
        while j < n
            invariant
                j <= n,
                n == needle@.len(),
                len == hay@.len(),
                start + n <= len,
                all_match ==> forall|k: int| 0 <= k < j ==> hay@[start + k] == needle@[k],
                !all_match ==> !occurs_at(hay@, needle@, start as int),
            decreases n - j,
        {
            if hay.get_char(start + j) != needle.get_char(j) {
                assert(!occurs_at(hay@, needle@, start as int)) by {
                    if occurs_at(hay@, needle@, start as int) {
                        assert(hay@.subrange(start as int, start + n)[j as int]
                            == needle@[j as int]);
                    }
                }
                all_match = false;
            }
            j = j + 1;
        }
        if all_match {
            assert(occurs_at(hay@, needle@, start as int)) by {
                assert(hay@.subrange(start as int, start + n) =~= needle@);
            }
            return true;
        }
        start = start + 1;
    }
    assert forall|i: int| !occurs_at(hay@, needle@, i) by {
        if 0 <= i && i + needle@.len() <= hay@.len() {
            assert(i < start);
        }
    }
    false
}

} // verus!
