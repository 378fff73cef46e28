//! Character-level helpers on `&str`: Unicode whitespace, word splitting,
//! equality, prefixes and substring search.

use vstd::prelude::*;

verus! {

/// The Unicode `White_Space` property, which `char::is_whitespace` tests.
pub open spec fn is_unicode_whitespace(c: char) -> bool {
    ||| ('\t' <= c && c <= '\r')
    ||| c == ' '
    ||| c == '\u{85}'
    ||| c == '\u{a0}'
    ||| c == '\u{1680}'
    ||| ('\u{2000}' <= c && c <= '\u{200a}')
    ||| c == '\u{2028}'
    ||| c == '\u{2029}'
    ||| c == '\u{202f}'
    ||| c == '\u{205f}'
    ||| c == '\u{3000}'
}

/// Whether `c` is Unicode whitespace.
pub fn is_whitespace(c: char) -> (r: bool)
    ensures
        r == is_unicode_whitespace(c),
{
    ('\t' <= c && c <= '\r') || c == ' ' || c == '\u{85}' || c == '\u{a0}' || c == '\u{1680}'
        || ('\u{2000}' <= c && c <= '\u{200a}') || c == '\u{2028}' || c == '\u{2029}'
        || c == '\u{202f}' || c == '\u{205f}' || c == '\u{3000}'
}

/// The words of `s`, where `pending` holds the letters of a word whose
/// reading has begun before `s`.
pub open spec fn words_from(s: Seq<char>, pending: Seq<char>) -> Seq<Seq<char>>
    decreases s.len(),
{
    if s.len() == 0 {
        if pending.len() == 0 {
            seq![]
        } else {
            seq![pending]
        }
    } else if is_unicode_whitespace(s[0]) {
        if pending.len() == 0 {
            words_from(s.drop_first(), seq![])
        } else {
            seq![pending] + words_from(s.drop_first(), seq![])
        }
    } else {
        words_from(s.drop_first(), pending.push(s[0]))
    }
}

/// The maximal runs of non-whitespace characters of `s`, in order: what
/// `str::split_whitespace` yields.
pub open spec fn words(s: Seq<char>) -> Seq<Seq<char>> {
    words_from(s, seq![])
}

/// The character sequences of a sequence of string slices.
pub open spec fn str_views(v: Seq<&str>) -> Seq<Seq<char>> {
    v.map_values(|t: &str| t@)
}

/// Splits `s` into its whitespace-separated words.
pub fn split_words(s: &str) -> (r: Vec<&str>)
    ensures
        str_views(r@) == words(s@),
{
    let n = s.unicode_len();
    let mut out: Vec<&str> = Vec::new();
    let mut start: usize = 0;
    let mut i: usize = 0;
    assert(s@.skip(0) =~= s@);
    assert(s@.subrange(0, 0) =~= Seq::<char>::empty());
    while i < n
        invariant
            n == s@.len(),
            start <= i <= n,
            words(s@) == str_views(out@) + words_from(s@.skip(i as int), s@.subrange(start as int, i as int)),
        decreases n - i,
    {
        let c = s.get_char(i);
        let ghost pending = s@.subrange(start as int, i as int);
        let ghost rest = s@.skip(i as int);
        assert(rest[0] == c);
        assert(rest.drop_first() =~= s@.skip(i + 1));
        if is_whitespace(c) {
            if start < i {
                let w = s.substring_char(start, i);
                let ghost before = str_views(out@);
                out.push(w);
                assert(str_views(out@) =~= before.push(pending));
                assert(before + (seq![pending] + words_from(s@.skip(i + 1), seq![])) =~= before.push(
                    pending,
                ) + words_from(s@.skip(i + 1), seq![]));
            }
            start = i + 1;
            assert(s@.subrange(start as int, i + 1) =~= Seq::<char>::empty());
        } else {
            assert(pending.push(c) =~= s@.subrange(start as int, i + 1));
        }
        i = i + 1;
    }
    assert(s@.skip(n as int) =~= Seq::<char>::empty());
    if start < n {
        let ghost pending = s@.subrange(start as int, n as int);
        let ghost before = str_views(out@);
        let w = s.substring_char(start, n);
        out.push(w);
        assert(str_views(out@) =~= before.push(pending));
        assert(before + seq![pending] =~= before.push(pending));
    } else {
        assert(str_views(out@) + Seq::<Seq<char>>::empty() =~= str_views(out@));
    }
    out
}

/// Whether two strings hold the same characters.
pub fn str_equal(a: &str, b: &str) -> (r: bool)
    ensures
        r == (a@ == b@),
{
    let n = a.unicode_len();
    if n != b.unicode_len() {
        return false;
    }
    let mut i: usize = 0;
    while i < n
        invariant
            n == a@.len(),
            n == b@.len(),
            i <= n,
            forall|j: int| 0 <= j < i ==> a@[j] == b@[j],
        decreases n - i,
    {
        if a.get_char(i) != b.get_char(i) {
            return false;
        }
        i = i + 1;
    }
    assert(a@ =~= b@);
    true
}

/// `s` with `prefix` removed from its front, where `s` begins with `prefix`.
pub fn strip_prefix<'a>(s: &'a str, prefix: &str) -> (r: Option<&'a str>)
    ensures
        r is Some <==> prefix@.is_prefix_of(s@),
        r matches Some(rest) ==> rest@ == s@.skip(prefix@.len() as int),
{
    let n = s.unicode_len();
    let m = prefix.unicode_len();
    if m > n {
        return None;
    }
    let mut i: usize = 0;
    while i < m
        invariant
            n == s@.len(),
            m == prefix@.len(),
            m <= n,
            i <= m,
            forall|j: int| 0 <= j < i ==> s@[j] == prefix@[j],
        decreases m - i,
    {
        if s.get_char(i) != prefix.get_char(i) {
            return None;
        }
        i = i + 1;
    }
    let rest = s.substring_char(m, n);
    assert(rest@ =~= s@.skip(m as int));
    Some(rest)
}

/// Whether `needle` occurs in `hay` starting at position `i`.
pub open spec fn occurs_at(hay: Seq<char>, needle: Seq<char>, i: int) -> bool {
    0 <= i && i + needle.len() <= hay.len() && hay.subrange(i, i + needle.len()) == needle
}

/// Whether `needle` occurs anywhere in `hay`.
pub open spec fn occurs_in(hay: Seq<char>, needle: Seq<char>) -> bool {
    exists|i: int| occurs_at(hay, needle, i)
}

/// Whether `needle` occurs in `hay`, as `str::contains` with a string pattern.
pub fn contains_str(hay: &str, needle: &str) -> (r: bool)
    ensures
        r == occurs_in(hay@, needle@),
{
    let n = hay.unicode_len();
    let m = needle.unicode_len();
    if m > n {
        assert forall|i: int| !occurs_at(hay@, needle@, i) by {}
        return false;
    }
    let mut i: usize = 0;
    while i <= n - m
        invariant
            n == hay@.len(),
            m == needle@.len(),
            m <= n,
            i <= n - m + 1,
            forall|j: int| 0 <= j < i ==> !occurs_at(hay@, needle@, j),
        decreases n - m + 1 - i,
    {
        let mut k: usize = 0;
        let mut same = true;
        while k < m
            invariant
                n == hay@.len(),
                m == needle@.len(),
                i + m <= n,
                k <= m,
                same == (forall|j: int| 0 <= j < k ==> hay@[i + j] == needle@[j]),
            decreases m - k,
        {
            if hay.get_char(i + k) != needle.get_char(k) {
                same = false;
            }
            k = k + 1;
        }
        if same {
            assert(hay@.subrange(i as int, i + m) =~= needle@);
            assert(occurs_at(hay@, needle@, i as int));
            return true;
        }
        assert(!occurs_at(hay@, needle@, i as int)) by {
            if occurs_at(hay@, needle@, i as int) {
                assert forall|j: int| 0 <= j < m implies hay@[i + j] == needle@[j] by {
                    assert(hay@.subrange(i as int, i + m)[j] == hay@[i + j]);
                }
            }
        }
        i = i + 1;
    }
    assert forall|j: int| !occurs_at(hay@, needle@, j) by {
        if 0 <= j && j + m <= n {
            assert(j < i);
        }
    }
    false
}

} // verus!

verus! {

/// Reading a run of non-whitespace characters extends the pending word.
proof fn lemma_words_from_word(w: Seq<char>, pending: Seq<char>)
    requires
        forall|k: int| 0 <= k < w.len() ==> !is_unicode_whitespace(#[trigger] w[k]),
        pending.len() + w.len() > 0,
    ensures
        words_from(w, pending) == seq![pending + w],
    decreases w.len(),
{
    if w.len() == 0 {
        assert(pending + w =~= pending);
    } else {
        let rest = w.drop_first();
        assert forall|k: int| 0 <= k < rest.len() implies !is_unicode_whitespace(#[trigger] rest[k]) by {
            assert(rest[k] == w[k + 1]);
        }
        lemma_words_from_word(rest, pending.push(w[0]));
        assert(pending.push(w[0]) + rest =~= pending + w);
    }
}

/// Appending a space and a word to a text appends that word to its words.
proof fn lemma_words_from_append_word(s: Seq<char>, pending: Seq<char>, w: Seq<char>)
    requires
        w.len() > 0,
        forall|k: int| 0 <= k < w.len() ==> !is_unicode_whitespace(#[trigger] w[k]),
    ensures
        words_from(s + seq![' '] + w, pending) == words_from(s, pending) + seq![w],
    decreases s.len(),
{
    let tail = seq![' '] + w;
    if s.len() == 0 {
        assert(s + tail =~= tail);
        assert(tail[0] == ' ');
        assert(tail.drop_first() =~= w);
        lemma_words_from_word(w, seq![]);
        assert(Seq::<char>::empty() + w =~= w);
        if pending.len() == 0 {
            assert(words_from(s, pending) + seq![w] =~= seq![w]);
        } else {
            assert(words_from(s, pending) + seq![w] =~= seq![pending] + seq![w]);
        }
    } else {
        assert(s + seq![' '] + w =~= s + tail);
        let whole = s + tail;
        assert(whole[0] == s[0]);
        assert(whole.drop_first() =~= s.drop_first() + seq![' '] + w);
        if is_unicode_whitespace(s[0]) {
            lemma_words_from_append_word(s.drop_first(), seq![], w);
            if pending.len() > 0 {
                assert(seq![pending] + (words_from(s.drop_first(), seq![]) + seq![w]) =~= (seq![pending]
                    + words_from(s.drop_first(), seq![])) + seq![w]);
            }
        } else {
            lemma_words_from_append_word(s.drop_first(), pending.push(s[0]), w);
        }
    }
}

/// The words of `s`, a space and a word are the words of `s` and that word.
pub proof fn lemma_words_append_word(s: Seq<char>, w: Seq<char>)
    requires
        w.len() > 0,
        forall|k: int| 0 <= k < w.len() ==> !is_unicode_whitespace(#[trigger] w[k]),
    ensures
        words(s + seq![' '] + w) == words(s).push(w),
{
    lemma_words_from_append_word(s, seq![], w);
    assert(words(s) + seq![w] =~= words(s).push(w));
}

} // verus!
