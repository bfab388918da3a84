//! Character-sequence utilities with exact specifications.
//!
//! Every string is modelled by its view, a `Seq<char>`.  Each executable
//! helper mirrors one of the string operations that the parsers rely on
//! (trimming, splitting, searching, numeric conversion) and is proved to
//! agree with a spec function over the view.

use vstd::prelude::*;
use vstd::string::*;

verus! {

/// The characters that count as whitespace when trimming and splitting
/// (the Unicode `White_Space` set).
pub open spec fn is_space_spec(c: char) -> bool {
    c == ' ' || c == '\t' || c == '\n' || c == '\u{b}' || c == '\u{c}' || c == '\r'
        || c == '\u{85}' || c == '\u{a0}' || c == '\u{1680}'
        || ('\u{2000}' as u32 <= c as u32 && c as u32 <= '\u{200a}' as u32)
        || c == '\u{2028}' || c == '\u{2029}' || c == '\u{202f}' || c == '\u{205f}'
        || c == '\u{3000}'
}

/// Decides membership in the whitespace set of `is_space_spec`.
pub fn is_space(c: char) -> (r: bool)
    ensures
        r == is_space_spec(c),
{
    c == ' ' || c == '\t' || c == '\n' || c == '\u{b}' || c == '\u{c}' || c == '\r'
        || c == '\u{85}' || c == '\u{a0}' || c == '\u{1680}'
        || ('\u{2000}' as u32 <= c as u32 && c as u32 <= '\u{200a}' as u32)
        || c == '\u{2028}' || c == '\u{2029}' || c == '\u{202f}' || c == '\u{205f}'
        || c == '\u{3000}'
}

/// What remains of `s` once every leading whitespace character is dropped.
pub open spec fn trim_start_spec(s: Seq<char>) -> Seq<char>
    decreases s.len(),
{
    if s.len() > 0 && is_space_spec(s[0]) {
        trim_start_spec(s.drop_first())
    } else {
        s
    }
}

/// What remains of `s` once every trailing whitespace character is dropped.
pub open spec fn trim_end_spec(s: Seq<char>) -> Seq<char>
    decreases s.len(),
{
    if s.len() > 0 && is_space_spec(s.last()) {
        trim_end_spec(s.drop_last())
    } else {
        s
    }
}

/// `s` without leading and trailing whitespace.
pub open spec fn trim_spec(s: Seq<char>) -> Seq<char> {
    trim_end_spec(trim_start_spec(s))
}

proof fn lemma_trim_start_skip(s: Seq<char>, i: int)
    requires
        0 <= i <= s.len(),
        forall|k: int| 0 <= k < i ==> is_space_spec(s[k]),
        i == s.len() || !is_space_spec(s[i]),
    ensures
        trim_start_spec(s) == s.skip(i),
    decreases i,
{
    if i == 0 {
        assert(s.skip(0) =~= s);
    } else {
        let t = s.drop_first();
        assert(forall|k: int| 0 <= k < i - 1 ==> is_space_spec(#[trigger] t[k]));
        lemma_trim_start_skip(t, i - 1);
        assert(t.skip(i - 1) =~= s.skip(i));
    }
}

proof fn lemma_trim_end_take(s: Seq<char>, j: int)
    requires
        0 <= j <= s.len(),
        forall|k: int| j <= k < s.len() ==> is_space_spec(s[k]),
        j == 0 || !is_space_spec(s[j - 1]),
    ensures
        trim_end_spec(s) == s.take(j),
    decreases s.len(),
{
    if s.len() > j {
        let t = s.drop_last();
        lemma_trim_end_take(t, j);
        assert(t.take(j) =~= s.take(j));
    } else {
        assert(s.take(j) =~= s);
    }
}

/// Removes leading and trailing whitespace.
pub fn trim(s: &str) -> (r: &str)
    ensures
        r@ == trim_spec(s@),
{
    let n = s.unicode_len();
    let mut i: usize = 0;
    while i < n && is_space(s.get_char(i))
        invariant
            0 <= i <= n,
            n == s@.len(),
            forall|k: int| 0 <= k < i ==> is_space_spec(s@[k]),
        decreases n - i,
    {
        i = i + 1;
    }
    let mut j: usize = n;
    while j > i && is_space(s.get_char(j - 1))
        invariant
            i <= j <= n,
            n == s@.len(),
            forall|k: int| j <= k < n ==> is_space_spec(s@[k]),
        decreases j,
    {
        j = j - 1;
    }
    proof {
        lemma_trim_start_skip(s@, i as int);
        let t = s@.skip(i as int);
        assert(forall|k: int| j - i <= k < t.len() ==> is_space_spec(#[trigger] t[k]));
        lemma_trim_end_take(t, j - i);
        assert(t.take(j - i) =~= s@.subrange(i as int, j as int));
    }
    s.substring_char(i, j)
}

/// Index of the first occurrence of `c` in `s`, or `s.len()` when `c` is
/// absent.
pub open spec fn first_at(s: Seq<char>, c: char) -> int
    decreases s.len(),
{
    if s.len() == 0 {
        0
    } else if s[0] == c {
        0
    } else {
        1 + first_at(s.drop_first(), c)
    }
}

pub proof fn lemma_first_at(s: Seq<char>, c: char)
    ensures
        0 <= first_at(s, c) <= s.len(),
        forall|k: int| 0 <= k < first_at(s, c) ==> s[k] != c,
        first_at(s, c) < s.len() ==> s[first_at(s, c)] == c,
    decreases s.len(),
{
    if s.len() > 0 && s[0] != c {
        let t = s.drop_first();
        lemma_first_at(t, c);
        assert forall|k: int| 0 <= k < first_at(s, c) implies s[k] != c by {
            if k > 0 {
                assert(t[k - 1] != c);
            }
        }
    }
}

proof fn lemma_first_at_is(s: Seq<char>, c: char, i: int)
    requires
        0 <= i <= s.len(),
        forall|k: int| 0 <= k < i ==> s[k] != c,
        i == s.len() || s[i] == c,
    ensures
        first_at(s, c) == i,
    decreases i,
{
    if i > 0 {
        let t = s.drop_first();
        assert(forall|k: int| 0 <= k < i - 1 ==> #[trigger] t[k] != c);
        lemma_first_at_is(t, c, i - 1);
    }
}

/// Position of the first occurrence of `c`, or the length when absent.
pub fn find_char(s: &str, c: char) -> (r: usize)
    ensures
        r as int == first_at(s@, c),
        r <= s@.len(),
{
    let n = s.unicode_len();
    let mut i: usize = 0;
    while i < n && s.get_char(i) != c
        invariant
            0 <= i <= n,
            n == s@.len(),
            forall|k: int| 0 <= k < i ==> s@[k] != c,
        decreases n - i,
    {
        i = i + 1;
    }
    proof {
        lemma_first_at_is(s@, c, i as int);
    }
    i
}

/// The pieces of `s` between occurrences of the separator `c`.  There is
/// always at least one piece, and empty pieces are kept.
pub open spec fn split_spec(s: Seq<char>, c: char) -> Seq<Seq<char>>
    decreases s.len(),
{
    let i = first_at(s, c);
    if 0 <= i && i < s.len() {
        seq![s.take(i)] + split_spec(s.skip(i + 1), c)
    } else {
        seq![s]
    }
}

pub proof fn lemma_split_len(s: Seq<char>, c: char)
    ensures
        split_spec(s, c).len() >= 1,
{
}

/// Splits on a separator character, keeping empty pieces, as the split of
/// the standard library does.
pub fn split_char(s: &str, c: char) -> (r: Vec<String>)
    ensures
        r.deep_view() == split_spec(s@, c),
    decreases s@.len(),
{
    let n = s.unicode_len();
    let i = find_char(s, c);
    proof {
        lemma_first_at(s@, c);
    }
    if i < n {
        let head = s.substring_char(0, i);
        let tail = s.substring_char(i + 1, n);
        let mut r = split_char(tail, c);
        let h = String::from_str(head);
        r.insert(0, h);
        proof {
            assert(r.deep_view() =~= seq![s@.take(i as int)] + split_spec(
                s@.skip(i as int + 1),
                c,
            ));
        }
        r
    } else {
        let mut r: Vec<String> = Vec::new();
        r.push(String::from_str(s));
        proof {
            assert(r.deep_view() =~= seq![s@]);
        }
        r
    }
}

/// Whether `p` is a prefix of `s`.
pub open spec fn starts_with_spec(s: Seq<char>, p: Seq<char>) -> bool {
    p.len() <= s.len() && s.take(p.len() as int) == p
}

/// Whether `p` is a suffix of `s`.
pub open spec fn ends_with_spec(s: Seq<char>, p: Seq<char>) -> bool {
    p.len() <= s.len() && s.skip(s.len() - p.len()) == p
}

/// Decides `starts_with_spec`.
pub fn starts_with(s: &str, p: &str) -> (r: bool)
    ensures
        r == starts_with_spec(s@, p@),
{
    let n = s.unicode_len();
    let m = p.unicode_len();
    if m > n {
        return false;
    }
    let mut k: usize = 0;
    while k < m
        invariant
            0 <= k <= m <= n,
            n == s@.len(),
            m == p@.len(),
            forall|t: int| 0 <= t < k ==> s@[t] == p@[t],
        decreases m - k,
    {
        if s.get_char(k) != p.get_char(k) {
            proof {
                assert(s@.take(m as int)[k as int] != p@[k as int]);
            }
            return false;
        }
        k = k + 1;
    }
    proof {
        assert(s@.take(m as int) =~= p@);
    }
    true
}

/// Decides `ends_with_spec`.
pub fn ends_with(s: &str, p: &str) -> (r: bool)
    ensures
        r == ends_with_spec(s@, p@),
{
    let n = s.unicode_len();
    let m = p.unicode_len();
    if m > n {
        return false;
    }
    let off = n - m;
    let mut k: usize = 0;
    while k < m
        invariant
            0 <= k <= m <= n,
            off == n - m,
            n == s@.len(),
            m == p@.len(),
            forall|t: int| 0 <= t < k ==> s@[off + t] == p@[t],
        decreases m - k,
    {
        if s.get_char(off + k) != p.get_char(k) {
            proof {
                assert(s@.skip(off as int)[k as int] != p@[k as int]);
            }
            return false;
        }
        k = k + 1;
    }
    proof {
        assert(s@.skip(off as int) =~= p@);
    }
    true
}

/// The rest of `s` after the prefix `p`, when `p` is a prefix, as
/// `str::strip_prefix`.
pub fn strip_prefix<'a>(s: &'a str, p: &str) -> (r: Option<&'a str>)
    ensures
        starts_with_spec(s@, p@) ==> (r matches Some(t) && t@ == s@.skip(p@.len() as int)),
        !starts_with_spec(s@, p@) ==> r is None,
{
    if starts_with(s, p) {
        let n = s.unicode_len();
        let m = p.unicode_len();
        Some(s.substring_char(m, n))
    } else {
        None
    }
}

/// Character-for-character equality of two string slices.
pub fn str_eq(a: &str, b: &str) -> (r: bool)
    ensures
        r == (a@ == b@),
{
    let n = a.unicode_len();
    let m = b.unicode_len();
    if n != m {
        return false;
    }
    let mut k: usize = 0;
    while k < n
        invariant
            0 <= k <= n,
            n == a@.len(),
            n == b@.len(),
            forall|t: int| 0 <= t < k ==> a@[t] == b@[t],
        decreases n - k,
    {
        if a.get_char(k) != b.get_char(k) {
            return false;
        }
        k = k + 1;
    }
    proof {
        assert(a@ =~= b@);
    }
    true
}

/// A line's single trailing carriage return removed, if present.
pub open spec fn chomp_cr(p: Seq<char>) -> Seq<char> {
    if p.len() > 0 && p.last() == '\r' {
        p.drop_last()
    } else {
        p
    }
}

pub open spec fn chomp_all(ps: Seq<Seq<char>>) -> Seq<Seq<char>> {
    ps.map_values(|p: Seq<char>| chomp_cr(p))
}

proof fn lemma_chomp_all_index(ps: Seq<Seq<char>>, i: int)
    requires
        0 <= i < ps.len(),
    ensures
        chomp_all(ps).len() == ps.len(),
        chomp_all(ps)[i] == chomp_cr(ps[i]),
{
}

pub(crate) proof fn lemma_deep_len(v: Vec<String>)
    ensures
        v.deep_view().len() == v@.len(),
{
}

pub(crate) proof fn lemma_deep_index(v: Vec<String>, i: int)
    requires
        0 <= i < v@.len(),
    ensures
        v.deep_view().len() == v@.len(),
        v.deep_view()[i] == v@[i]@,
{
}

/// The lines of `s`, as `str::lines` yields them: the pieces between newline
/// characters, with a carriage return before a newline dropped, and with no
/// final empty line when `s` ends in a newline.
pub open spec fn lines_spec(s: Seq<char>) -> Seq<Seq<char>> {
    if s.len() == 0 {
        Seq::empty()
    } else {
        let ps = split_spec(s, '\n');
        if s.last() == '\n' {
            chomp_all(ps.drop_last())
        } else {
            chomp_all(ps.drop_last()) + seq![ps.last()]
        }
    }
}

fn chomp(p: &str) -> (r: &str)
    ensures
        r@ == chomp_cr(p@),
{
    let m = p.unicode_len();
    if m > 0 && p.get_char(m - 1) == '\r' {
        proof {
            assert(p@.subrange(0, m - 1) =~= p@.drop_last());
        }
        p.substring_char(0, m - 1)
    } else {
        p
    }
}

/// Splits into lines, as `str::lines` does.
pub fn lines(s: &str) -> (r: Vec<String>)
    ensures
        r.deep_view() == lines_spec(s@),
{
    let n = s.unicode_len();
    let mut r: Vec<String> = Vec::new();
    if n == 0 {
        proof {
            assert(r.deep_view() =~= lines_spec(s@));
        }
        return r;
    }
    let ps = split_char(s, '\n');
    let ends_nl = s.get_char(n - 1) == '\n';
    proof {
        lemma_split_len(s@, '\n');
        assert(ps@.len() == ps.deep_view().len());
    }
    let last = ps.len() - 1;
    let mut k: usize = 0;
    while k < last
        invariant
            0 <= k <= last,
            last == ps@.len() - 1,
            ps.deep_view() == split_spec(s@, '\n'),
            r.deep_view() == chomp_all(ps.deep_view().take(k as int)),
        decreases last - k,
    {
        let ghost dv = ps.deep_view();
        let ghost prev = r;
        let piece = chomp(ps[k].as_str());
        let h = String::from_str(piece);
        r.push(h);
        proof {
            lemma_deep_index(ps, k as int);
            assert(dv[k as int] == ps@[k as int]@);
            assert(dv.take(k as int).len() == k);
            assert(chomp_all(dv.take(k as int)).len() == k);
            assert(prev.deep_view().len() == prev@.len());
            assert(prev@.len() == k);
            assert(r@ == prev@.push(h));
            assert(r@.len() == k + 1);
            assert forall|t: int| 0 <= t < k + 1 implies r.deep_view()[t] == chomp_all(
                dv.take(k as int + 1),
            )[t] by {
                lemma_deep_index(r, t);
                lemma_chomp_all_index(dv.take(k as int + 1), t);
                if t < k {
                    assert(r@[t] == prev@[t]);
                    lemma_deep_index(prev, t);
                    lemma_chomp_all_index(dv.take(k as int), t);
                    assert(prev.deep_view()[t] == chomp_all(dv.take(k as int))[t]);
                } else {
                    assert(r@[t] == h);
                    assert(h@ == chomp_cr(dv[k as int]));
                }
            }
            lemma_chomp_all_index(dv.take(k as int + 1), 0);
            lemma_deep_index(r, 0);
            assert(r.deep_view() =~= chomp_all(dv.take(k as int + 1)));
        }
        k = k + 1;
    }
    proof {
        assert(ps.deep_view().take(last as int) =~= ps.deep_view().drop_last());
    }
    if !ends_nl {
        let lastpiece = ps[last].clone();
        r.push(lastpiece);
        proof {
            assert(ps.deep_view()[last as int] == ps@[last as int]@);
            assert(r.deep_view() =~= chomp_all(ps.deep_view().drop_last()) + seq![
                ps.deep_view().last(),
            ]);
        }
    }
    r
}

/// Index of the first whitespace character, or `s.len()` when there is none.
pub open spec fn first_space(s: Seq<char>) -> int
    decreases s.len(),
{
    if s.len() == 0 {
        0
    } else if is_space_spec(s[0]) {
        0
    } else {
        1 + first_space(s.drop_first())
    }
}

/// Index of the first character that is not whitespace, or `s.len()`.
pub open spec fn first_non_space(s: Seq<char>) -> int
    decreases s.len(),
{
    if s.len() == 0 {
        0
    } else if !is_space_spec(s[0]) {
        0
    } else {
        1 + first_non_space(s.drop_first())
    }
}

pub proof fn lemma_first_space(s: Seq<char>)
    ensures
        0 <= first_space(s) <= s.len(),
        forall|k: int| 0 <= k < first_space(s) ==> !is_space_spec(s[k]),
        first_space(s) < s.len() ==> is_space_spec(s[first_space(s)]),
    decreases s.len(),
{
    if s.len() > 0 && !is_space_spec(s[0]) {
        let t = s.drop_first();
        lemma_first_space(t);
        assert forall|k: int| 0 <= k < first_space(s) implies !is_space_spec(s[k]) by {
            if k > 0 {
                assert(!is_space_spec(t[k - 1]));
            }
        }
    }
}

proof fn lemma_first_space_is(s: Seq<char>, i: int)
    requires
        0 <= i <= s.len(),
        forall|k: int| 0 <= k < i ==> !is_space_spec(s[k]),
        i == s.len() || is_space_spec(s[i]),
    ensures
        first_space(s) == i,
    decreases i,
{
    if i > 0 {
        let t = s.drop_first();
        assert(forall|k: int| 0 <= k < i - 1 ==> !is_space_spec(#[trigger] t[k]));
        lemma_first_space_is(t, i - 1);
    }
}

pub proof fn lemma_first_non_space(s: Seq<char>)
    ensures
        0 <= first_non_space(s) <= s.len(),
        forall|k: int| 0 <= k < first_non_space(s) ==> is_space_spec(s[k]),
        first_non_space(s) < s.len() ==> !is_space_spec(s[first_non_space(s)]),
    decreases s.len(),
{
    if s.len() > 0 && is_space_spec(s[0]) {
        let t = s.drop_first();
        lemma_first_non_space(t);
        assert forall|k: int| 0 <= k < first_non_space(s) implies is_space_spec(s[k]) by {
            if k > 0 {
                assert(is_space_spec(t[k - 1]));
            }
        }
    }
}

proof fn lemma_first_non_space_is(s: Seq<char>, i: int)
    requires
        0 <= i <= s.len(),
        forall|k: int| 0 <= k < i ==> is_space_spec(s[k]),
        i == s.len() || !is_space_spec(s[i]),
    ensures
        first_non_space(s) == i,
    decreases i,
{
    if i > 0 {
        let t = s.drop_first();
        assert(forall|k: int| 0 <= k < i - 1 ==> is_space_spec(#[trigger] t[k]));
        lemma_first_non_space_is(t, i - 1);
    }
}

/// Position of the first whitespace character, or the length when none.
pub fn find_space(s: &str) -> (r: usize)
    ensures
        r as int == first_space(s@),
        r <= s@.len(),
{
    let n = s.unicode_len();
    let mut i: usize = 0;
    while i < n && !is_space(s.get_char(i))
        invariant
            0 <= i <= n,
            n == s@.len(),
            forall|k: int| 0 <= k < i ==> !is_space_spec(s@[k]),
        decreases n - i,
    {
        i = i + 1;
    }
    proof {
        lemma_first_space_is(s@, i as int);
    }
    i
}

/// Position of the first non-whitespace character, or the length when none.
pub fn find_non_space(s: &str) -> (r: usize)
    ensures
        r as int == first_non_space(s@),
        r <= s@.len(),
{
    let n = s.unicode_len();
    let mut i: usize = 0;
    while i < n && is_space(s.get_char(i))
        invariant
            0 <= i <= n,
            n == s@.len(),
            forall|k: int| 0 <= k < i ==> is_space_spec(s@[k]),
        decreases n - i,
    {
        i = i + 1;
    }
    proof {
        lemma_first_non_space_is(s@, i as int);
    }
    i
}

/// The maximal runs of non-whitespace characters of `s`, in order.
pub open spec fn split_ws_spec(s: Seq<char>) -> Seq<Seq<char>>
    decreases s.len(),
{
    let i = first_non_space(s);
    if 0 <= i && i < s.len() {
        let t = s.skip(i);
        let j = first_space(t);
        if 0 < j && j <= t.len() {
            seq![t.take(j)] + split_ws_spec(t.skip(j))
        } else {
            seq![t]
        }
    } else {
        Seq::empty()
    }
}

/// Splits on runs of whitespace, skipping empty pieces, as
/// `str::split_whitespace` does.
pub fn split_whitespace(s: &str) -> (r: Vec<String>)
    ensures
        r.deep_view() == split_ws_spec(s@),
    decreases s@.len(),
{
    let n = s.unicode_len();
    let i = find_non_space(s);
    proof {
        lemma_first_non_space(s@);
    }
    if i < n {
        let t = s.substring_char(i, n);
        proof {
            assert(t@ =~= s@.skip(i as int));
        }
        let tn = n - i;
        let j = find_space(t);
        proof {
            lemma_first_space(t@);
            assert(t@[0] == s@[i as int]);
        }
        let piece = t.substring_char(0, j);
        let rest = t.substring_char(j, tn);
        let mut r = split_whitespace(rest);
        r.insert(0, String::from_str(piece));
        proof {
            assert(r.deep_view() =~= seq![t@.take(j as int)] + split_ws_spec(
                t@.skip(j as int),
            ));
        }
        r
    } else {
        let r: Vec<String> = Vec::new();
        proof {
            assert(r.deep_view() =~= Seq::<Seq<char>>::empty());
        }
        r
    }
}

/// `s` with every copy of the pattern `p` removed from the front, repeatedly,
/// as `str::trim_start_matches`.
pub open spec fn trim_start_matches_spec(s: Seq<char>, p: Seq<char>) -> Seq<char>
    decreases s.len(),
{
    if p.len() > 0 && starts_with_spec(s, p) {
        trim_start_matches_spec(s.skip(p.len() as int), p)
    } else {
        s
    }
}

/// `s` with every copy of the pattern `p` removed from the end, repeatedly,
/// as `str::trim_end_matches`.
pub open spec fn trim_end_matches_spec(s: Seq<char>, p: Seq<char>) -> Seq<char>
    decreases s.len(),
{
    if p.len() > 0 && ends_with_spec(s, p) {
        trim_end_matches_spec(s.take(s.len() - p.len()), p)
    } else {
        s
    }
}

/// Removes every leading copy of `p`.
pub fn trim_start_matches<'a>(s: &'a str, p: &str) -> (r: &'a str)
    ensures
        r@ == trim_start_matches_spec(s@, p@),
{
    let m = p.unicode_len();
    if m == 0 {
        return s;
    }
    let mut t = s;
    loop
        invariant
            m == p@.len(),
            m >= 1,
            trim_start_matches_spec(t@, p@) == trim_start_matches_spec(s@, p@),
        ensures
            trim_start_matches_spec(t@, p@) == trim_start_matches_spec(s@, p@),
            !starts_with_spec(t@, p@),
        decreases t@.len(),
    {
        if !starts_with(t, p) {
            break;
        }
        let tn = t.unicode_len();
        t = t.substring_char(m, tn);
    }
    t
}

/// Removes every trailing copy of `p`.
pub fn trim_end_matches<'a>(s: &'a str, p: &str) -> (r: &'a str)
    ensures
        r@ == trim_end_matches_spec(s@, p@),
{
    let m = p.unicode_len();
    if m == 0 {
        return s;
    }
    let mut t = s;
    loop
        invariant
            m == p@.len(),
            m >= 1,
            trim_end_matches_spec(t@, p@) == trim_end_matches_spec(s@, p@),
        ensures
            trim_end_matches_spec(t@, p@) == trim_end_matches_spec(s@, p@),
            !ends_with_spec(t@, p@),
        decreases t@.len(),
    {
        if !ends_with(t, p) {
            break;
        }
        let tn = t.unicode_len();
        t = t.substring_char(0, tn - m);
    }
    t
}

/// Whether `p` occurs anywhere in `s` as a contiguous run.
pub open spec fn contains_sub_spec(s: Seq<char>, p: Seq<char>) -> bool {
    exists|i: int| 0 <= i <= s.len() - p.len() && #[trigger] s.subrange(i, i + p.len() as int)
        == p
}

fn matches_at(s: &str, p: &str, i: usize) -> (r: bool)
    requires
        i + p@.len() <= s@.len(),
    ensures
        r == (s@.subrange(i as int, i as int + p@.len() as int) == p@),
{
    let n = s.unicode_len();
    let m = p.unicode_len();
    let mut k: usize = 0;
    while k < m
        invariant
            0 <= k <= m,
            m == p@.len(),
            n == s@.len(),
            i + m <= n,
            forall|t: int| 0 <= t < k ==> s@[i + t] == p@[t],
        decreases m - k,
    {
        if s.get_char(i + k) != p.get_char(k) {
            proof {
                assert(s@.subrange(i as int, i as int + m as int)[k as int] != p@[k as int]);
            }
            return false;
        }
        k = k + 1;
    }
    proof {
        assert(s@.subrange(i as int, i as int + m as int) =~= p@);
    }
    true
}

/// Decides `contains_sub_spec`, the substring relation.
pub fn contains_sub(s: &str, p: &str) -> (r: bool)
    ensures
        r == contains_sub_spec(s@, p@),
{
    let n = s.unicode_len();
    let m = p.unicode_len();
    if m > n {
        return false;
    }
    if m == 0 {
        proof {
            assert(s@.subrange(0, 0 + p@.len() as int) =~= p@);
        }
        return true;
    }
    let mut i: usize = 0;
    while i <= n - m
        invariant
            0 <= i <= n - m + 1,
            1 <= m <= n,
            n == s@.len(),
            m == p@.len(),
            forall|t: int|
                0 <= t < i ==> #[trigger] s@.subrange(t, t + p@.len() as int) != p@,
        decreases n - i,
    {
        if matches_at(s, p, i) {
            return true;
        }
        i = i + 1;
    }
    false
}

/// Whether `c` is a decimal digit.
pub open spec fn is_digit_spec(c: char) -> bool {
    '0' as u32 <= c as u32 && c as u32 <= '9' as u32
}

/// Whether every character of `s` is a decimal digit.
pub open spec fn all_digits(s: Seq<char>) -> bool {
    forall|k: int| 0 <= k < s.len() ==> is_digit_spec(s[k])
}

/// The value of `s` read as a decimal numeral.
pub open spec fn digits_val(s: Seq<char>) -> int
    decreases s.len(),
{
    if s.len() == 0 {
        0
    } else {
        10 * digits_val(s.drop_last()) + (s.last() as u32 - '0' as u32)
    }
}

proof fn lemma_digits_val_nonneg(s: Seq<char>)
    requires
        all_digits(s),
    ensures
        digits_val(s) >= 0,
    decreases s.len(),
{
    if s.len() > 0 {
        assert(all_digits(s.drop_last())) by {
            assert(forall|k: int|
                0 <= k < s.len() - 1 ==> is_digit_spec(#[trigger] s.drop_last()[k]));
        }
        lemma_digits_val_nonneg(s.drop_last());
    }
}

proof fn lemma_digits_val_take_le(s: Seq<char>, i: int)
    requires
        all_digits(s),
        0 <= i <= s.len(),
    ensures
        digits_val(s) >= digits_val(s.take(i)),
    decreases s.len(),
{
    if s.len() > i {
        let t = s.drop_last();
        assert(all_digits(t)) by {
            assert(forall|k: int| 0 <= k < t.len() ==> is_digit_spec(#[trigger] t[k]));
        }
        lemma_digits_val_take_le(t, i);
        assert(t.take(i) =~= s.take(i));
        lemma_digits_val_nonneg(t);
    } else {
        assert(s.take(i) =~= s);
    }
}

/// The value of `s` read as `str::parse::<usize>` reads it: an optional
/// leading plus sign, then at least one decimal digit, the value within
/// range of the type.
pub open spec fn parse_usize_spec(s: Seq<char>) -> Option<int> {
    let d = if s.len() > 0 && s[0] == '+' {
        s.drop_first()
    } else {
        s
    };
    if d.len() > 0 && all_digits(d) && digits_val(d) <= usize::MAX as int {
        Some(digits_val(d))
    } else {
        None
    }
}

/// An `Option<usize>` result seen as an optional mathematical integer.
pub open spec fn opt_val(r: Option<usize>) -> Option<int> {
    match r {
        Some(v) => Some(v as int),
        None => None,
    }
}

/// Reads a decimal numeral, as `str::parse::<usize>` does.
pub fn parse_usize(s: &str) -> (r: Option<usize>)
    ensures
        opt_val(r) == parse_usize_spec(s@),
{
    let n = s.unicode_len();
    let st: usize = if n > 0 && s.get_char(0) == '+' {
        1
    } else {
        0
    };
    let ghost d = if st == 1 {
        s@.drop_first()
    } else {
        s@
    };
    proof {
        assert(d =~= s@.skip(st as int));
    }
    if st == n {
        return None;
    }
    let mut acc: usize = 0;
    let mut k: usize = st;
    while k < n
        invariant
            st <= k <= n,
            n == s@.len(),
            st < n,
            d == s@.skip(st as int),
            d == (if s@.len() > 0 && s@[0] == '+' {
                s@.drop_first()
            } else {
                s@
            }),
            all_digits(d.take(k - st)),
            acc as int == digits_val(d.take(k - st)),
        decreases n - k,
    {
        let c = s.get_char(k);
        if !(('0' as u32) <= (c as u32) && (c as u32) <= ('9' as u32)) {
            proof {
                assert(d[k - st] == c);
                assert(!all_digits(d));
            }
            return None;
        }
        let digit: usize = ((c as u32) - ('0' as u32)) as usize;
        let next = match acc.checked_mul(10) {
            Some(v) => v.checked_add(digit),
            None => None,
        };
        proof {
            assert(d.take(k - st + 1).drop_last() =~= d.take(k - st));
            assert(d.take(k - st + 1).last() == c);
            assert(digits_val(d.take(k - st + 1)) == 10 * (acc as int) + digit);
        }
        match next {
            Some(v) => {
                acc = v;
            },
            None => {
                proof {
                    assert(all_digits(d.take(k - st + 1)));
                    assert(digits_val(d.take(k - st + 1)) > usize::MAX as int);
                    if all_digits(d) {
                        lemma_digits_val_take_le(d, k - st + 1);
                    }
                }
                return None;
            },
        }
        k = k + 1;
    }
    proof {
        assert(d.take(n - st) =~= d);
    }
    Some(acc)
}

/// The character for the decimal digit `d`.
pub open spec fn digit_char_spec(d: int) -> char {
    if d == 0 {
        '0'
    } else if d == 1 {
        '1'
    } else if d == 2 {
        '2'
    } else if d == 3 {
        '3'
    } else if d == 4 {
        '4'
    } else if d == 5 {
        '5'
    } else if d == 6 {
        '6'
    } else if d == 7 {
        '7'
    } else if d == 8 {
        '8'
    } else {
        '9'
    }
}

/// The decimal numeral for `n`, without sign or padding.
pub open spec fn dec_spec(n: int) -> Seq<char>
    decreases n,
{
    if n < 10 {
        seq![digit_char_spec(n)]
    } else {
        dec_spec(n / 10) + seq![digit_char_spec(n % 10)]
    }
}

fn digit_str(d: usize) -> (r: &'static str)
    requires
        d < 10,
    ensures
        r@ == seq![digit_char_spec(d as int)],
{
    proof {
        reveal_strlit("0");
        reveal_strlit("1");
        reveal_strlit("2");
        reveal_strlit("3");
        reveal_strlit("4");
        reveal_strlit("5");
        reveal_strlit("6");
        reveal_strlit("7");
        reveal_strlit("8");
        reveal_strlit("9");
    }
    let r = if d == 0 {
        "0"
    } else if d == 1 {
        "1"
    } else if d == 2 {
        "2"
    } else if d == 3 {
        "3"
    } else if d == 4 {
        "4"
    } else if d == 5 {
        "5"
    } else if d == 6 {
        "6"
    } else if d == 7 {
        "7"
    } else if d == 8 {
        "8"
    } else {
        "9"
    };
    proof {
        assert(r@ =~= seq![digit_char_spec(d as int)]);
    }
    r
}

/// Writes `n` in decimal.
pub fn dec_str(n: usize) -> (r: String)
    ensures
        r@ == dec_spec(n as int),
    decreases n,
{
    if n < 10 {
        String::from_str(digit_str(n))
    } else {
        let mut s = dec_str(n / 10);
        s.append(digit_str(n % 10));
        s
    }
}

/// The two pieces joined.
pub fn concat2(a: &str, b: &str) -> (r: String)
    ensures
        r@ == a@ + b@,
{
    let mut s = String::from_str(a);
    s.append(b);
    s
}

/// The three pieces joined.
pub fn concat3(a: &str, b: &str, c: &str) -> (r: String)
    ensures
        r@ == a@ + b@ + c@,
{
    let mut s = String::from_str(a);
    s.append(b);
    s.append(c);
    s
}

} // verus!
