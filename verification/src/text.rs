//! Character-level helpers shared by the layout and command modules.
//!
//! Every text is modelled by its sequence of `char`s (`s@`); positions are
//! indices into that sequence, never byte offsets.

use vstd::prelude::*;

verus! {

/// Whether `c` carries the Unicode `White_Space` property.
pub open spec fn is_space(c: char) -> bool {
    ||| ('\u{0009}' <= c && c <= '\u{000D}')
    ||| c == '\u{0020}'
    ||| c == '\u{0085}'
    ||| c == '\u{00A0}'
    ||| c == '\u{1680}'
    ||| ('\u{2000}' <= c && c <= '\u{200A}')
    ||| c == '\u{2028}'
    ||| c == '\u{2029}'
    ||| c == '\u{202F}'
    ||| c == '\u{205F}'
    ||| c == '\u{3000}'
}

/// The first position at or after `from` that holds no white space
/// (`s.len()` when only white space is left).
pub open spec fn skip_spaces(s: Seq<char>, from: int) -> int
    decreases s.len() - from,
{
    if 0 <= from < s.len() && is_space(s[from]) {
        skip_spaces(s, from + 1)
    } else {
        from
    }
}

/// The first position at or after `from` that holds white space
/// (`s.len()` when none is left).
pub open spec fn skip_word(s: Seq<char>, from: int) -> int
    decreases s.len() - from,
{
    if 0 <= from < s.len() && !is_space(s[from]) {
        skip_word(s, from + 1)
    } else {
        from
    }
}

/// The end of `s[..to]` once its trailing white space is dropped.
pub open spec fn trim_end_at(s: Seq<char>, to: int) -> int
    decreases to,
{
    if 0 < to <= s.len() && is_space(s[to - 1]) {
        trim_end_at(s, to - 1)
    } else {
        to
    }
}

/// `s` without its leading and trailing white space.
pub open spec fn trimmed(s: Seq<char>) -> Seq<char> {
    let a = skip_spaces(s, 0);
    let b = trim_end_at(s, s.len() as int);
    if a < b {
        s.subrange(a, b)
    } else {
        Seq::empty()
    }
}

/// The first position at or after `from` that holds `c` (`s.len()` when
/// there is none).
pub open spec fn index_of(s: Seq<char>, from: int, c: char) -> int
    decreases s.len() - from,
{
    if 0 <= from < s.len() && s[from] != c {
        index_of(s, from + 1, c)
    } else {
        from
    }
}

/// The first position at or after `from` that holds `a` or `b`
/// (`s.len()` when there is none).
pub open spec fn index_of_either(s: Seq<char>, from: int, a: char, b: char) -> int
    decreases s.len() - from,
{
    if 0 <= from < s.len() && s[from] != a && s[from] != b {
        index_of_either(s, from + 1, a, b)
    } else {
        from
    }
}

/// The last position before `to` that holds `c` (`-1` when there is none).
pub open spec fn last_index_of(s: Seq<char>, to: int, c: char) -> int
    decreases to,
{
    if 0 < to <= s.len() && s[to - 1] != c {
        last_index_of(s, to - 1, c)
    } else {
        to - 1
    }
}

/// The first position at or after `from` where `pat` occurs in `s`
/// (`s.len()` when it occurs nowhere).
pub open spec fn find_sub(s: Seq<char>, from: int, pat: Seq<char>) -> int
    decreases s.len() - from,
{
    if 0 <= from && from + pat.len() <= s.len() {
        if s.subrange(from, from + pat.len()) == pat {
            from
        } else if from < s.len() {
            find_sub(s, from + 1, pat)
        } else {
            s.len() as int
        }
    } else {
        s.len() as int
    }
}

/// Decides `is_space`.
pub fn is_whitespace(c: char) -> (b: bool)
    ensures
        b == is_space(c),
{
    ('\u{0009}' <= c && c <= '\u{000D}') || c == '\u{0020}' || c == '\u{0085}' || c == '\u{00A0}'
        || c == '\u{1680}' || ('\u{2000}' <= c && c <= '\u{200A}') || c == '\u{2028}' || c
        == '\u{2029}' || c == '\u{202F}' || c == '\u{205F}' || c == '\u{3000}'
}

/// The characters of `s`, in order.
pub fn chars_of(s: &str) -> (v: Vec<char>)
    ensures
        v@ == s@,
{
    let mut v: Vec<char> = Vec::new();
    for c in it: s.chars()
        invariant
            v@ == it.seq().take(it.index() as int),
            it.seq() == s@,
    {
        v.push(c);
    }
    v
}

/// Computes `skip_spaces`.
pub(crate) fn scan_spaces(v: &Vec<char>, from: usize) -> (i: usize)
    requires
        from <= v.len(),
    ensures
        i == skip_spaces(v@, from as int),
        from <= i <= v.len(),
        forall|k: int| from <= k < i ==> is_space(#[trigger] v@[k]),
        i < v.len() ==> !is_space(v@[i as int]),
{
    let mut i: usize = from;
    while i < v.len() && is_whitespace(v[i])
        invariant
            from <= i <= v.len(),
            skip_spaces(v@, from as int) == skip_spaces(v@, i as int),
            forall|k: int| from <= k < i ==> is_space(#[trigger] v@[k]),
        decreases v.len() - i,
    {
        i += 1;
    }
    i
}

/// Computes `skip_word`.
pub(crate) fn scan_word(v: &Vec<char>, from: usize) -> (i: usize)
    requires
        from <= v.len(),
    ensures
        i == skip_word(v@, from as int),
        from <= i <= v.len(),
        forall|k: int| from <= k < i ==> !is_space(#[trigger] v@[k]),
        i < v.len() ==> is_space(v@[i as int]),
{
    let mut i: usize = from;
    while i < v.len() && !is_whitespace(v[i])
        invariant
            from <= i <= v.len(),
            skip_word(v@, from as int) == skip_word(v@, i as int),
            forall|k: int| from <= k < i ==> !is_space(#[trigger] v@[k]),
        decreases v.len() - i,
    {
        i += 1;
    }
    i
}

/// Computes `trim_end_at`.
pub(crate) fn scan_trailing_spaces(v: &Vec<char>, to: usize) -> (i: usize)
    requires
        to <= v.len(),
    ensures
        i == trim_end_at(v@, to as int),
        i <= to,
        forall|k: int| i <= k < to ==> is_space(#[trigger] v@[k]),
        i > 0 ==> !is_space(v@[i - 1]),
{
    let mut i: usize = to;
    while i > 0 && is_whitespace(v[i - 1])
        invariant
            i <= to <= v.len(),
            trim_end_at(v@, to as int) == trim_end_at(v@, i as int),
            forall|k: int| i <= k < to ==> is_space(#[trigger] v@[k]),
        decreases i,
    {
        i -= 1;
    }
    i
}

/// Computes `index_of`.
pub(crate) fn scan_char(v: &Vec<char>, from: usize, c: char) -> (i: usize)
    requires
        from <= v.len(),
    ensures
        i == index_of(v@, from as int, c),
        from <= i <= v.len(),
        forall|k: int| from <= k < i ==> #[trigger] v@[k] != c,
        i < v.len() ==> v@[i as int] == c,
{
    let mut i: usize = from;
    while i < v.len() && v[i] != c
        invariant
            from <= i <= v.len(),
            index_of(v@, from as int, c) == index_of(v@, i as int, c),
            forall|k: int| from <= k < i ==> #[trigger] v@[k] != c,
        decreases v.len() - i,
    {
        i += 1;
    }
    i
}

/// Computes `index_of_either`.
pub(crate) fn scan_either(v: &Vec<char>, from: usize, a: char, b: char) -> (i: usize)
    requires
        from <= v.len(),
    ensures
        i == index_of_either(v@, from as int, a, b),
        from <= i <= v.len(),
{
    let mut i: usize = from;
    while i < v.len() && v[i] != a && v[i] != b
        invariant
            from <= i <= v.len(),
            index_of_either(v@, from as int, a, b) == index_of_either(v@, i as int, a, b),
        decreases v.len() - i,
    {
        i += 1;
    }
    i
}

/// Computes `last_index_of` as a position one past the hit (`0` when there
/// is none).
pub(crate) fn scan_char_back(v: &Vec<char>, to: usize, c: char) -> (i: usize)
    requires
        to <= v.len(),
    ensures
        i == last_index_of(v@, to as int, c) + 1,
        i <= to,
        forall|k: int| i <= k < to ==> #[trigger] v@[k] != c,
        i > 0 ==> v@[i - 1] == c,
{
    let mut i: usize = to;
    while i > 0 && v[i - 1] != c
        invariant
            i <= to <= v.len(),
            last_index_of(v@, to as int, c) == last_index_of(v@, i as int, c),
            forall|k: int| i <= k < to ==> #[trigger] v@[k] != c,
        decreases i,
    {
        i -= 1;
    }
    i
}

/// Whether `pat` stands in `v` at position `at`.
pub(crate) fn matches_at(v: &Vec<char>, at: usize, pat: &Vec<char>) -> (b: bool)
    requires
        at + pat.len() <= v.len(),
    ensures
        b == (v@.subrange(at as int, at + pat.len()) == pat@),
{
    let mut j: usize = 0;
    while j < pat.len()
        invariant
            j <= pat.len(),
            at + pat.len() <= v.len(),
            forall|k: int| 0 <= k < j ==> v@[at + k] == #[trigger] pat@[k],
        decreases pat.len() - j,
    {
        if v[at + j] != pat[j] {
            assert(v@.subrange(at as int, at + pat.len())[j as int] != pat@[j as int]);
            return false;
        }
        j += 1;
    }
    assert(v@.subrange(at as int, at + pat.len()) =~= pat@);
    true
}

/// Computes `find_sub`.
pub(crate) fn scan_sub(v: &Vec<char>, from: usize, pat: &Vec<char>) -> (i: usize)
    requires
        from <= v.len(),
    ensures
        i == find_sub(v@, from as int, pat@),
        from <= i <= v.len(),
        i < v.len() ==> i + pat.len() <= v.len() && v@.subrange(i as int, i + pat.len()) == pat@,
{
    let mut i: usize = from;
    while pat.len() <= v.len() && i <= v.len() - pat.len()
        invariant
            from <= i <= v.len(),
            find_sub(v@, from as int, pat@) == find_sub(v@, i as int, pat@),
        decreases v.len() - i,
    {
        if matches_at(v, i, pat) {
            return i;
        }
        assert(i < v.len()) by {
            if i == v.len() {
                assert(v@.subrange(i as int, i + pat.len()) =~= pat@);
            }
        }
        i += 1;
    }
    v.len()
}

/// Whether two texts hold the same characters.
pub fn str_eq(a: &str, b: &str) -> (r: bool)
    ensures
        r == (a@ == b@),
{
    let x = chars_of(a);
    let y = chars_of(b);
    if x.len() != y.len() {
        return false;
    }
    assert(x@.subrange(0, y.len() as int) =~= x@);
    matches_at(&x, 0, &y)
}

/// `s` without its leading and trailing white space.
pub fn trim<'a>(s: &'a str) -> (t: &'a str)
    ensures
        t@ == trimmed(s@),
{
    let v = chars_of(s);
    let a = scan_spaces(&v, 0);
    let b = scan_trailing_spaces(&v, v.len());
    if a < b {
        s.substring_char(a, b)
    } else {
        s.substring_char(0, 0)
    }
}

/// The view of an optional text.
pub open spec fn opt_view(o: Option<&str>) -> Option<Seq<char>> {
    match o {
        Some(s) => Some(s@),
        None => None,
    }
}

/// The texts of a vector of strings.
pub open spec fn texts_view(v: Seq<String>) -> Seq<Seq<char>> {
    v.map_values(|s: String| s@)
}

/// Where `skip_spaces` stops: behind white space only, and before a
/// character that is none.
pub proof fn lemma_skip_spaces(s: Seq<char>, from: int)
    requires
        0 <= from <= s.len(),
    ensures
        from <= skip_spaces(s, from) <= s.len(),
        forall|k: int| from <= k < skip_spaces(s, from) ==> is_space(#[trigger] s[k]),
        skip_spaces(s, from) < s.len() ==> !is_space(s[skip_spaces(s, from)]),
    decreases s.len() - from,
{
    if from < s.len() && is_space(s[from]) {
        lemma_skip_spaces(s, from + 1);
    }
}

/// Where `skip_word` stops: behind characters that are no white space, and
/// before one that is.
pub proof fn lemma_skip_word(s: Seq<char>, from: int)
    requires
        0 <= from <= s.len(),
    ensures
        from <= skip_word(s, from) <= s.len(),
        forall|k: int| from <= k < skip_word(s, from) ==> !is_space(#[trigger] s[k]),
        skip_word(s, from) < s.len() ==> is_space(s[skip_word(s, from)]),
    decreases s.len() - from,
{
    if from < s.len() && !is_space(s[from]) {
        lemma_skip_word(s, from + 1);
    }
}

/// Where `trim_end_at` stops: before white space only, and behind a
/// character that is none.
pub proof fn lemma_trim_end_at(s: Seq<char>, to: int)
    requires
        0 <= to <= s.len(),
    ensures
        0 <= trim_end_at(s, to) <= to,
        forall|k: int| trim_end_at(s, to) <= k < to ==> is_space(#[trigger] s[k]),
        trim_end_at(s, to) > 0 ==> !is_space(s[trim_end_at(s, to) - 1]),
    decreases to,
{
    if 0 < to && is_space(s[to - 1]) {
        lemma_trim_end_at(s, to - 1);
    }
}

/// Whether `s` is white space throughout.
pub open spec fn all_spaces(s: Seq<char>) -> bool {
    forall|k: int| 0 <= k < s.len() ==> is_space(#[trigger] s[k])
}

/// Whether `s` holds no white space.
pub open spec fn no_spaces(s: Seq<char>) -> bool {
    forall|k: int| 0 <= k < s.len() ==> !is_space(#[trigger] s[k])
}

/// `skip_spaces` stops at `to` when there is white space only up to `to`
/// and none at `to`.
pub proof fn lemma_skip_spaces_to(s: Seq<char>, from: int, to: int)
    requires
        0 <= from <= to <= s.len(),
        forall|k: int| from <= k < to ==> is_space(#[trigger] s[k]),
        to < s.len() ==> !is_space(s[to]),
    ensures
        skip_spaces(s, from) == to,
    decreases to - from,
{
    if from < to {
        assert(is_space(s[from]));
        lemma_skip_spaces_to(s, from + 1, to);
    }
}

/// `skip_word` stops at `to` when there is no white space up to `to` and
/// some at `to`.
pub proof fn lemma_skip_word_to(s: Seq<char>, from: int, to: int)
    requires
        0 <= from <= to <= s.len(),
        forall|k: int| from <= k < to ==> !is_space(#[trigger] s[k]),
        to < s.len() ==> is_space(s[to]),
    ensures
        skip_word(s, from) == to,
    decreases to - from,
{
    if from < to {
        assert(!is_space(s[from]));
        lemma_skip_word_to(s, from + 1, to);
    }
}

/// `trim_end_at` stops at `at` when there is white space only from `at`
/// on and none before `at`.
pub proof fn lemma_trim_end_to(s: Seq<char>, at: int, to: int)
    requires
        0 <= at <= to <= s.len(),
        forall|k: int| at <= k < to ==> is_space(#[trigger] s[k]),
        at > 0 ==> !is_space(s[at - 1]),
    ensures
        trim_end_at(s, to) == at,
    decreases to - at,
{
    if at < to {
        assert(is_space(s[to - 1]));
        lemma_trim_end_to(s, at, to - 1);
    }
}

/// White space around a text that has none at its ends is what trimming
/// takes away.
pub proof fn lemma_trimmed_padded(lead: Seq<char>, core: Seq<char>, trail: Seq<char>)
    requires
        all_spaces(lead),
        all_spaces(trail),
        core.len() > 0 ==> !is_space(core.first()) && !is_space(core.last()),
    ensures
        trimmed(lead + core + trail) == core,
{
    let s = lead + core + trail;
    let a = lead.len() as int;
    let b = a + core.len();
    if core.len() > 0 {
        assert(s[a] == core.first());
        assert(s[b - 1] == core.last());
        assert forall|k: int| 0 <= k < a implies is_space(#[trigger] s[k]) by {
            assert(s[k] == lead[k]);
        }
        assert forall|k: int| b <= k < s.len() implies is_space(#[trigger] s[k]) by {
            assert(s[k] == trail[k - b]);
        }
        lemma_skip_spaces_to(s, 0, a);
        lemma_trim_end_to(s, b, s.len() as int);
        assert(s.subrange(a, b) =~= core);
    } else {
        assert forall|k: int| 0 <= k < s.len() implies is_space(#[trigger] s[k]) by {
            if k < a {
                assert(s[k] == lead[k]);
            } else {
                assert(s[k] == trail[k - a]);
            }
        }
        lemma_trimmed(s);
        assert(trimmed(s) =~= core);
    }
}

/// A trimmed text is a part of the text, with no white space at either
/// end; it is empty exactly when the text is white space throughout.
pub proof fn lemma_trimmed(s: Seq<char>)
    ensures
        trimmed(s).len() <= s.len(),
        trimmed(s).len() > 0 ==> !is_space(trimmed(s).first()) && !is_space(trimmed(s).last()),
        trimmed(s).len() == 0 <==> (forall|k: int| 0 <= k < s.len() ==> is_space(#[trigger] s[k])),
{
    lemma_skip_spaces(s, 0);
    lemma_trim_end_at(s, s.len() as int);
    let a = skip_spaces(s, 0);
    let b = trim_end_at(s, s.len() as int);
    if a < b {
        assert(!is_space(s[a]));
    } else if a < s.len() {
        assert(!is_space(s[a]));
        assert(b > a);
    }
}

} // verus!
