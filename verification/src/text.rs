//! Verified text utilities: character classes, trimming, whitespace
//! tokenization and joining, delimiter splitting, and digit parsing.
//!
//! All functions work on `Vec<char>` / `Seq<char>`; the crate treats a string
//! as its sequence of characters. Whitespace here means the Unicode
//! White_Space set, so a decoded no-break space (the code page maps byte
//! 0xA0 to U+00A0) trims and collapses like any other space.

use vstd::prelude::*;

verus! {

/// The Unicode White_Space set.
pub open spec fn is_space_char(c: char) -> bool {
    ||| c == ' ' || c == '\t' || c == '\n' || c == '\r'
    ||| c == '\u{000B}' || c == '\u{000C}' || c == '\u{0085}' || c == '\u{00A0}'
    ||| c == '\u{1680}' || ('\u{2000}' <= c && c <= '\u{200A}')
    ||| c == '\u{2028}' || c == '\u{2029}' || c == '\u{202F}' || c == '\u{205F}' || c == '\u{3000}'
}

/// ASCII decimal digit.
pub open spec fn is_digit_char(c: char) -> bool {
    '0' <= c && c <= '9'
}

/// Every character is an ASCII digit.
pub open spec fn all_digits(s: Seq<char>) -> bool {
    forall|j: int| 0 <= j < s.len() ==> is_digit_char(s[j])
}

/// Numeric value of an ASCII digit.
pub open spec fn digit_val(c: char) -> int {
    c as int - '0' as int
}

/// Numeric value of a string of ASCII digits, most significant first.
pub open spec fn digits_val(s: Seq<char>) -> int
    decreases s.len(),
{
    if s.len() == 0 {
        0
    } else {
        digits_val(s.drop_last()) * 10 + digit_val(s.last())
    }
}

/// The string with leading whitespace removed.
pub open spec fn trim_start_spec(s: Seq<char>) -> Seq<char>
    decreases s.len(),
{
    if s.len() == 0 {
        s
    } else if is_space_char(s[0]) {
        trim_start_spec(s.drop_first())
    } else {
        s
    }
}

/// The string with trailing whitespace removed.
pub open spec fn trim_end_spec(s: Seq<char>) -> Seq<char>
    decreases s.len(),
{
    if s.len() == 0 {
        s
    } else if is_space_char(s.last()) {
        trim_end_spec(s.drop_last())
    } else {
        s
    }
}

/// The string with leading and trailing whitespace removed.
pub open spec fn trim_spec(s: Seq<char>) -> Seq<char> {
    trim_end_spec(trim_start_spec(s))
}

pub fn is_space_c(c: char) -> (b: bool)
    ensures
        b == is_space_char(c),
{
    c == ' ' || c == '\t' || c == '\n' || c == '\r' || c == '\u{000B}' || c == '\u{000C}' || c
        == '\u{0085}' || c == '\u{00A0}' || c == '\u{1680}' || ('\u{2000}' <= c && c
        <= '\u{200A}') || c == '\u{2028}' || c == '\u{2029}' || c == '\u{202F}' || c == '\u{205F}'
        || c == '\u{3000}'
}

pub fn is_digit_c(c: char) -> (b: bool)
    ensures
        b == is_digit_char(c),
{
    '0' <= c && c <= '9'
}

/// The characters of a string, in order.
pub fn chars_of(s: &str) -> (r: Vec<char>)
    ensures
        r@ == s@,
{
    let n = s.unicode_len();
    let mut r: Vec<char> = Vec::new();
    let mut i: usize = 0;
    while i < n
        invariant
            i <= n,
            n == s@.len(),
            r@ == s@.subrange(0, i as int),
        decreases n - i,
    {
        let c = s.get_char(i);
        r.push(c);
        proof {
            assert(s@.subrange(0, i + 1 as int) =~= s@.subrange(0, i as int).push(c));
        }
        i += 1;
    }
    proof {
        assert(r@ =~= s@);
    }
    r
}

/// Relies on std's `FromIterator<char> for String`: collecting characters
/// yields the string with exactly those characters in order.
#[verifier::external_body]
pub(crate) fn string_from_chars(v: &Vec<char>) -> (r: String)
    ensures
        r@ == v@,
{
    v.iter().collect()
}

/// Element-wise equality of two character vectors.
pub fn chars_eq(a: &Vec<char>, b: &Vec<char>) -> (r: bool)
    ensures
        r == (a@ == b@),
{
    if a.len() != b.len() {
        proof {
            assert(a@ != b@);
        }
        return false;
    }
    let mut i: usize = 0;
    while i < a.len()
        invariant
            i <= a@.len(),
            a@.len() == b@.len(),
            forall|j: int| 0 <= j < i ==> a@[j] == b@[j],
        decreases a@.len() - i,
    {
        if a[i] != b[i] {
            proof {
                assert(a@[i as int] != b@[i as int]);
            }
            return false;
        }
        i += 1;
    }
    proof {
        assert(a@ =~= b@);
    }
    true
}

/// Character-wise equality of two strings.
pub fn str_eq(a: &str, b: &str) -> (r: bool)
    ensures
        r == (a@ == b@),
{
    let va = chars_of(a);
    let vb = chars_of(b);
    chars_eq(&va, &vb)
}

proof fn lemma_trim_start_skip(s: Seq<char>, i: int)
    requires
        0 <= i <= s.len(),
        forall|j: int| 0 <= j < i ==> is_space_char(s[j]),
    ensures
        trim_start_spec(s) == trim_start_spec(s.skip(i)),
    decreases i,
{
    if i > 0 {
        assert(s.skip(1) =~= s.drop_first());
        lemma_trim_start_skip(s.skip(1), i - 1);
        assert(s.skip(1).skip(i - 1) =~= s.skip(i));
        assert(s.skip(0) =~= s);
    } else {
        assert(s.skip(0) =~= s);
    }
}

proof fn lemma_trim_end_take(s: Seq<char>, k: int)
    requires
        0 <= k <= s.len(),
        forall|j: int| k <= j < s.len() ==> is_space_char(s[j]),
    ensures
        trim_end_spec(s) == trim_end_spec(s.take(k)),
    decreases s.len() - k,
{
    if k < s.len() {
        assert(is_space_char(s.last()));
        assert(s.drop_last() =~= s.take(s.len() - 1));
        lemma_trim_end_take(s.take(s.len() - 1), k);
        assert(s.take(s.len() - 1).take(k) =~= s.take(k));
    } else {
        assert(s.take(k) =~= s);
    }
}

/// The string with leading and trailing whitespace removed.
pub fn trim_chars(v: &Vec<char>) -> (r: Vec<char>)
    ensures
        r@ == trim_spec(v@),
{
    let n = v.len();
    let mut lo: usize = 0;
    while lo < n && is_space_c(v[lo])
        invariant
            lo <= n,
            n == v@.len(),
            forall|j: int| 0 <= j < lo ==> is_space_char(v@[j]),
        decreases n - lo,
    {
        lo += 1;
    }
    let mut hi: usize = n;
    while hi > lo && is_space_c(v[hi - 1])
        invariant
            lo <= hi <= n,
            n == v@.len(),
            forall|j: int| hi <= j < n ==> is_space_char(v@[j]),
        decreases hi,
    {
        hi -= 1;
    }
    let mut r: Vec<char> = Vec::new();
    let mut i: usize = lo;
    while i < hi
        invariant
            lo <= i <= hi <= n,
            n == v@.len(),
            r@ == v@.subrange(lo as int, i as int),
        decreases hi - i,
    {
        let c = v[i];
        r.push(c);
        proof {
            assert(v@.subrange(lo as int, i + 1 as int) =~= v@.subrange(lo as int, i as int).push(
                c,
            ));
        }
        i += 1;
    }
    proof {
        lemma_trim_start_skip(v@, lo as int);
        let t = v@.skip(lo as int);
        assert(trim_start_spec(t) == t);
        lemma_trim_end_take(t, hi - lo as int);
        let u = t.take(hi - lo as int);
        assert(trim_end_spec(u) == u);
        assert(r@ =~= u);
    }
    r
}

/// Length of the maximal non-whitespace prefix.
pub open spec fn word_prefix_len(s: Seq<char>) -> nat
    decreases s.len(),
{
    if s.len() == 0 || is_space_char(s[0]) {
        0
    } else {
        1 + word_prefix_len(s.drop_first())
    }
}

proof fn lemma_word_prefix_len_le(s: Seq<char>)
    ensures
        word_prefix_len(s) <= s.len(),
    decreases s.len(),
{
    if s.len() > 0 && !is_space_char(s[0]) {
        lemma_word_prefix_len_le(s.drop_first());
    }
}

/// The whitespace-separated words of a string, in order.
pub open spec fn split_ws(s: Seq<char>) -> Seq<Seq<char>>
    decreases s.len(),
    via split_ws_decreases
{
    if s.len() == 0 {
        Seq::empty()
    } else if is_space_char(s[0]) {
        split_ws(s.drop_first())
    } else {
        let w = word_prefix_len(s) as int;
        seq![s.take(w)] + split_ws(s.skip(w))
    }
}

#[via_fn]
proof fn split_ws_decreases(s: Seq<char>) {
    lemma_word_prefix_len_le(s);
}

/// Words joined with a single space between them.
pub open spec fn join_ws(ws: Seq<Seq<char>>) -> Seq<char>
    decreases ws.len(),
{
    if ws.len() == 0 {
        Seq::empty()
    } else if ws.len() == 1 {
        ws[0]
    } else {
        join_ws(ws.drop_last()) + seq![' '] + ws.last()
    }
}

/// Whitespace-normalized form: words joined by single spaces, no
/// leading or trailing whitespace.
pub open spec fn collapse_ws_spec(s: Seq<char>) -> Seq<char> {
    join_ws(split_ws(s))
}

/// The view of each element of a vector of character vectors.
pub open spec fn views_of(ws: Seq<Vec<char>>) -> Seq<Seq<char>> {
    ws.map_values(|w: Vec<char>| w@)
}

proof fn lemma_split_ws_skip_one(s: Seq<char>, i: int)
    requires
        0 <= i < s.len(),
        is_space_char(s[i]),
    ensures
        split_ws(s.skip(i)) == split_ws(s.skip(i + 1)),
{
    assert(s.skip(i).drop_first() =~= s.skip(i + 1));
}

proof fn lemma_wpl_scan(s: Seq<char>, k: int)
    requires
        0 <= k <= s.len(),
        forall|j: int| 0 <= j < k ==> !is_space_char(s[j]),
        k == s.len() || is_space_char(s[k]),
    ensures
        word_prefix_len(s) == k,
    decreases k,
{
    if k == 0 {
    } else {
        lemma_wpl_scan(s.drop_first(), k - 1);
    }
}

/// The words of a string: maximal runs of non-whitespace characters.
pub fn words_of(v: &Vec<char>) -> (ws: Vec<Vec<char>>)
    ensures
        views_of(ws@) == split_ws(v@),
{
    let n = v.len();
    let mut ws: Vec<Vec<char>> = Vec::new();
    let mut i: usize = 0;
    proof {
        assert(v@.skip(0) =~= v@);
    }
    while i < n
        invariant
            i <= n,
            n == v@.len(),
            split_ws(v@) == views_of(ws@) + split_ws(v@.skip(i as int)),
        decreases n - i,
    {
        if is_space_c(v[i]) {
            proof {
                lemma_split_ws_skip_one(v@, i as int);
            }
            i += 1;
        } else {
            let start = i;
            i += 1;
            while i < n && !is_space_c(v[i])
                invariant
                    start < i <= n,
                    n == v@.len(),
                    forall|j: int| start <= j < i ==> !is_space_char(v@[j]),
                decreases n - i,
            {
                i += 1;
            }
            let mut w: Vec<char> = Vec::new();
            let mut j: usize = start;
            while j < i
                invariant
                    start <= j <= i <= n,
                    n == v@.len(),
                    w@ == v@.subrange(start as int, j as int),
                decreases i - j,
            {
                let c = v[j];
                w.push(c);
                proof {
                    assert(v@.subrange(start as int, j + 1 as int) =~= v@.subrange(
                        start as int,
                        j as int,
                    ).push(c));
                }
                j += 1;
            }
            proof {
                let t = v@.skip(start as int);
                assert(forall|jj: int|
                    0 <= jj < i - start ==> t[jj] == v@[start + jj] && !is_space_char(t[jj]));
                if (i as int) < n {
                    assert(is_space_char(t[i - start as int]));
                }
                lemma_wpl_scan(t, i - start as int);
                assert(t.take(i - start as int) =~= v@.subrange(start as int, i as int));
                assert(t.skip(i - start as int) =~= v@.skip(i as int));
                assert(split_ws(t) == seq![w@] + split_ws(v@.skip(i as int)));
                let old_views = views_of(ws@);
                assert(views_of(ws@.push(w)) =~= old_views + seq![w@]);
                assert(old_views + (seq![w@] + split_ws(v@.skip(i as int))) =~= (old_views
                    + seq![w@]) + split_ws(v@.skip(i as int)));
            }
            ws.push(w);
        }
    }
    proof {
        assert(v@.skip(n as int) =~= Seq::<char>::empty());
        assert(views_of(ws@) + split_ws(v@.skip(n as int)) =~= views_of(ws@));
    }
    ws
}

/// Words joined with a single space between them.
pub fn join_words(ws: &Vec<Vec<char>>) -> (r: Vec<char>)
    ensures
        r@ == join_ws(views_of(ws@)),
{
    let mut r: Vec<char> = Vec::new();
    let mut i: usize = 0;
    while i < ws.len()
        invariant
            i <= ws@.len(),
            r@ == join_ws(views_of(ws@).take(i as int)),
        decreases ws@.len() - i,
    {
        if i > 0 {
            r.push(' ');
        }
        let wi = &ws[i];
        let mut j: usize = 0;
        let ghost r_before = r@;
        while j < wi.len()
            invariant
                j <= wi@.len(),
                wi@ == ws@[i as int]@,
                i < ws@.len(),
                r@ == r_before + wi@.subrange(0, j as int),
            decreases wi@.len() - j,
        {
            let c = wi[j];
            r.push(c);
            proof {
                assert(wi@.subrange(0, j + 1 as int) =~= wi@.subrange(0, j as int).push(c));
            }
            j += 1;
        }
        proof {
            let vs = views_of(ws@);
            assert(wi@.subrange(0, wi@.len() as int) =~= vs[i as int]);
            let pre = vs.take(i + 1 as int);
            assert(pre.drop_last() =~= vs.take(i as int));
            assert(pre.last() == vs[i as int]);
            if i == 0 {
                assert(r@ =~= join_ws(pre));
            } else {
                assert(r@ =~= join_ws(pre.drop_last()) + seq![' '] + pre.last());
            }
        }
        i += 1;
    }
    proof {
        assert(views_of(ws@).take(ws@.len() as int) =~= views_of(ws@));
    }
    r
}

/// Whitespace normalization: words joined by single spaces.
pub fn collapse_ws(v: &Vec<char>) -> (r: Vec<char>)
    ensures
        r@ == collapse_ws_spec(v@),
{
    let ws = words_of(v);
    join_words(&ws)
}

/// Length of the prefix that precedes the first occurrence of `d`
/// (the whole string if `d` does not occur).
pub open spec fn delim_prefix_len(s: Seq<char>, d: char) -> nat
    decreases s.len(),
{
    if s.len() == 0 || s[0] == d {
        0
    } else {
        1 + delim_prefix_len(s.drop_first(), d)
    }
}

proof fn lemma_delim_prefix_len_le(s: Seq<char>, d: char)
    ensures
        delim_prefix_len(s, d) <= s.len(),
    decreases s.len(),
{
    if s.len() > 0 && s[0] != d {
        lemma_delim_prefix_len_le(s.drop_first(), d);
    }
}

/// The segments of a string split on delimiter `d`; a string with no
/// delimiter is a single segment, and every delimiter separates two
/// (possibly empty) segments.
pub open spec fn split_delim(s: Seq<char>, d: char) -> Seq<Seq<char>>
    decreases s.len(),
    via split_delim_decreases
{
    let k = delim_prefix_len(s, d) as int;
    if k == s.len() {
        seq![s]
    } else {
        seq![s.take(k)] + split_delim(s.skip(k + 1), d)
    }
}

#[via_fn]
proof fn split_delim_decreases(s: Seq<char>, d: char) {
    lemma_delim_prefix_len_le(s, d);
}

/// Like `split_delim`, but at most `n` segments: the `n`-th segment is
/// the whole remainder, delimiters included.
pub open spec fn splitn_delim(s: Seq<char>, d: char, n: nat) -> Seq<Seq<char>>
    decreases n,
{
    if n <= 1 {
        seq![s]
    } else {
        let k = delim_prefix_len(s, d) as int;
        if k == s.len() {
            seq![s]
        } else {
            seq![s.take(k)] + splitn_delim(s.skip(k + 1), d, (n - 1) as nat)
        }
    }
}

proof fn lemma_dpl_scan(s: Seq<char>, d: char, k: int)
    requires
        0 <= k <= s.len(),
        forall|j: int| 0 <= j < k ==> s[j] != d,
        k == s.len() || s[k] == d,
    ensures
        delim_prefix_len(s, d) == k,
    decreases k,
{
    if k > 0 {
        lemma_dpl_scan(s.drop_first(), d, k - 1);
    }
}

/// The segments of the string split on delimiter `d`.
pub fn split_on(v: &Vec<char>, d: char) -> (ps: Vec<Vec<char>>)
    ensures
        views_of(ps@) == split_delim(v@, d),
{
    let n = v.len();
    let mut ps: Vec<Vec<char>> = Vec::new();
    let mut i: usize = 0;
    proof {
        assert(v@.skip(0) =~= v@);
    }
    loop
        invariant
            i <= n,
            n == v@.len(),
            split_delim(v@, d) == views_of(ps@) + split_delim(v@.skip(i as int), d),
        ensures
            views_of(ps@) == split_delim(v@, d),
        decreases n - i,
    {
        let mut j: usize = i;
        while j < n && v[j] != d
            invariant
                i <= j <= n,
                n == v@.len(),
                forall|jj: int| i <= jj < j ==> v@[jj] != d,
            decreases n - j,
        {
            j += 1;
        }
        let mut seg: Vec<char> = Vec::new();
        let mut p: usize = i;
        while p < j
            invariant
                i <= p <= j <= n,
                n == v@.len(),
                seg@ == v@.subrange(i as int, p as int),
            decreases j - p,
        {
            let c = v[p];
            seg.push(c);
            proof {
                assert(v@.subrange(i as int, p + 1 as int) =~= v@.subrange(i as int, p as int).push(
                    c,
                ));
            }
            p += 1;
        }
        proof {
            let t = v@.skip(i as int);
            if (j as int) < n {
                assert(t[j - i as int] == d);
            }
            lemma_dpl_scan(t, d, j - i as int);
            assert(t.take(j - i as int) =~= v@.subrange(i as int, j as int));
            assert(seg@ == t.take(j - i as int));
        }
        if j == n {
            proof {
                let t = v@.skip(i as int);
                assert(delim_prefix_len(t, d) == t.len());
                assert(split_delim(t, d) =~= seq![seg@]);
                assert(views_of(ps@.push(seg)) =~= views_of(ps@) + seq![seg@]);
            }
            ps.push(seg);
            return ps;
        }
        proof {
            let t = v@.skip(i as int);
            assert(t.skip(j - i + 1 as int) =~= v@.skip(j + 1 as int));
            assert(split_delim(t, d) == seq![seg@] + split_delim(v@.skip(j + 1 as int), d));
            let old_views = views_of(ps@);
            assert(views_of(ps@.push(seg)) =~= old_views + seq![seg@]);
            assert(old_views + (seq![seg@] + split_delim(v@.skip(j + 1 as int), d)) =~= (old_views
                + seq![seg@]) + split_delim(v@.skip(j + 1 as int), d));
        }
        ps.push(seg);
        i = j + 1;
    }
}

/// At most `n` segments of the string split on `d`; the last segment
/// keeps any remaining delimiters.
pub fn splitn_on(v: &Vec<char>, d: char, n: usize) -> (ps: Vec<Vec<char>>)
    requires
        n >= 1,
    ensures
        views_of(ps@) == splitn_delim(v@, d, n as nat),
        ps@.len() >= 1,
{
    let len = v.len();
    let mut ps: Vec<Vec<char>> = Vec::new();
    let mut i: usize = 0;
    proof {
        assert(v@.skip(0) =~= v@);
    }
    loop
        invariant
            i <= len,
            len == v@.len(),
            ps@.len() < n,
            splitn_delim(v@, d, n as nat) == views_of(ps@) + splitn_delim(
                v@.skip(i as int),
                d,
                (n - ps@.len()) as nat,
            ),
        ensures
            views_of(ps@) == splitn_delim(v@, d, n as nat),
            ps@.len() >= 1,
        decreases len - i,
    {
        let remaining = n - ps.len();
        let mut j: usize = i;
        while j < len && v[j] != d
            invariant
                i <= j <= len,
                len == v@.len(),
                forall|jj: int| i <= jj < j ==> v@[jj] != d,
            decreases len - j,
        {
            j += 1;
        }
        let last = remaining == 1 || j == len;
        let end = if remaining == 1 {
            len
        } else {
            j
        };
        let mut seg: Vec<char> = Vec::new();
        let mut p: usize = i;
        while p < end
            invariant
                i <= p <= end <= len,
                len == v@.len(),
                seg@ == v@.subrange(i as int, p as int),
            decreases end - p,
        {
            let c = v[p];
            seg.push(c);
            proof {
                assert(v@.subrange(i as int, p + 1 as int) =~= v@.subrange(i as int, p as int).push(
                    c,
                ));
            }
            p += 1;
        }
        proof {
            let t = v@.skip(i as int);
            let m = (n - ps@.len()) as nat;
            if (j as int) < len {
                assert(t[j - i as int] == d);
            }
            lemma_dpl_scan(t, d, j - i as int);
            if m == 1 {
                assert(seg@ =~= t);
                assert(splitn_delim(t, d, m) =~= seq![seg@]);
            } else if j == len {
                assert(seg@ =~= t);
                assert(splitn_delim(t, d, m) =~= seq![seg@]);
            } else {
                assert(seg@ == t.take(j - i as int));
                assert(t.skip(j - i + 1 as int) =~= v@.skip(j + 1 as int));
                assert(splitn_delim(t, d, m) == seq![seg@] + splitn_delim(
                    v@.skip(j + 1 as int),
                    d,
                    (m - 1) as nat,
                ));
            }
            let old_views = views_of(ps@);
            assert(views_of(ps@.push(seg)) =~= old_views + seq![seg@]);
        }
        if last {
            proof {
                let t = v@.skip(i as int);
                let m = (n - ps@.len()) as nat;
                assert(views_of(ps@) + splitn_delim(t, d, m) =~= views_of(ps@.push(seg)));
            }
            ps.push(seg);
            return ps;
        }
        proof {
            let t = v@.skip(i as int);
            let m = (n - ps@.len()) as nat;
            let old_views = views_of(ps@);
            assert(old_views + (seq![seg@] + splitn_delim(v@.skip(j + 1 as int), d, (m - 1) as nat))
                =~= (old_views + seq![seg@]) + splitn_delim(v@.skip(j + 1 as int), d, (m
                - 1) as nat));
        }
        ps.push(seg);
        i = j + 1;
    }
}


/// Parses the two digit characters at `at`, if both are digits.
pub fn parse_two_digits(v: &Vec<char>, at: usize) -> (r: Option<u32>)
    requires
        at + 2 <= v@.len(),
    ensures
        r is Some <==> all_digits(v@.subrange(at as int, at + 2)),
        r matches Some(x) ==> x == digits_val(v@.subrange(at as int, at + 2)),
{
    let _n = v.len();
    let c0 = v[at];
    let c1 = v[at + 1];
    proof {
        assert(v@.subrange(at as int, at + 2)[0] == c0);
        assert(v@.subrange(at as int, at + 2)[1] == c1);
    }
    if is_digit_c(c0) && is_digit_c(c1) {
        proof {
            assert(forall|j: int|
                0 <= j < 2 ==> is_digit_char(#[trigger] v@.subrange(at as int, at + 2)[j]));
        }
        Some(parse_digits_u32(v, at, at + 2))
    } else {
        None
    }
}

/// Powers of ten.
pub open spec fn pow10(n: nat) -> int
    decreases n,
{
    if n == 0 {
        1
    } else {
        10 * pow10((n - 1) as nat)
    }
}

pub proof fn lemma_digits_val_bound(s: Seq<char>)
    requires
        forall|j: int| 0 <= j < s.len() ==> is_digit_char(s[j]),
    ensures
        0 <= digits_val(s) < pow10(s.len()),
    decreases s.len(),
{
    if s.len() > 0 {
        lemma_digits_val_bound(s.drop_last());
        assert(is_digit_char(s.last()));
        assert(0 <= digit_val(s.last()) <= 9);
    }
}

/// Numeric value of the digits at positions `from..to`, which must all
/// be ASCII digits; at most eight digits, so the value fits in `u32`.
pub fn parse_digits_u32(v: &Vec<char>, from: usize, to: usize) -> (r: u32)
    requires
        from <= to && to <= v@.len(),
        to - from <= 8,
        forall|j: int| from <= j < to ==> is_digit_char(v@[j]),
    ensures
        r == digits_val(v@.subrange(from as int, to as int)),
{
    let mut acc: u32 = 0;
    let mut j: usize = from;
    proof {
        assert(v@.subrange(from as int, from as int) =~= Seq::<char>::empty());
    }
    while j < to
        invariant
            from <= j <= to && to <= v@.len(),
            to - from <= 8,
            forall|jj: int| from <= jj < to ==> is_digit_char(v@[jj]),
            acc == digits_val(v@.subrange(from as int, j as int)),
            acc < pow10((j - from) as nat),
        decreases to - j,
    {
        let c = v[j];
        proof {
            let pre = v@.subrange(from as int, j as int);
            let cur = v@.subrange(from as int, j + 1 as int);
            assert(cur.drop_last() =~= pre);
            assert(cur.last() == c);
            lemma_digits_val_bound(cur);
            assert(pow10((j + 1 - from) as nat) == 10 * pow10((j - from) as nat));
            assert(pow10((j - from) as nat) <= pow10(7)) by {
                lemma_pow10_le((j - from) as nat, 7);
            }
            assert(pow10(7) == 10000000) by {
                reveal_with_fuel(pow10, 9);
            }
        }
        let d: u32 = (c as u32) - 48;
        acc = acc * 10 + d;
        j += 1;
    }
    acc
}

proof fn lemma_pow10_le(a: nat, b: nat)
    requires
        a <= b,
    ensures
        pow10(a) <= pow10(b),
    decreases b,
{
    if a < b {
        lemma_pow10_le(a, (b - 1) as nat);
        assert(pow10((b - 1) as nat) >= 1) by {
            lemma_pow10_pos((b - 1) as nat);
        }
    }
}

proof fn lemma_pow10_pos(n: nat)
    ensures
        pow10(n) >= 1,
    decreases n,
{
    if n > 0 {
        lemma_pow10_pos((n - 1) as nat);
    }
}


/// The character of a decimal digit value.
pub open spec fn digit_ch(d: int) -> char {
    if d == 0 {
        '0'
    } else if d == 1 {
        '1'
    } else if d == 2 {
        '2'
    } else if d == 3 {
        '3'
    } else if d == 4 {
        '4'
    } else if d == 5 {
        '5'
    } else if d == 6 {
        '6'
    } else if d == 7 {
        '7'
    } else if d == 8 {
        '8'
    } else {
        '9'
    }
}

pub fn digit_ch_c(d: u32) -> (c: char)
    requires
        d <= 9,
    ensures
        c == digit_ch(d as int),
{
    if d == 0 {
        '0'
    } else if d == 1 {
        '1'
    } else if d == 2 {
        '2'
    } else if d == 3 {
        '3'
    } else if d == 4 {
        '4'
    } else if d == 5 {
        '5'
    } else if d == 6 {
        '6'
    } else if d == 7 {
        '7'
    } else if d == 8 {
        '8'
    } else {
        '9'
    }
}

/// A non-negative number in decimal, most significant digit first.
pub open spec fn dec_str(n: int) -> Seq<char>
    decreases n,
{
    if n < 10 {
        seq![digit_ch(n)]
    } else {
        dec_str(n / 10).push(digit_ch(n % 10))
    }
}

fn dec_chars(n: u64) -> (r: Vec<char>)
    ensures
        r@ == dec_str(n as int),
    decreases n,
{
    if n < 10 {
        let mut r: Vec<char> = Vec::new();
        r.push(digit_ch_c(n as u32));
        proof {
            assert(r@ =~= seq![digit_ch(n as int)]);
        }
        r
    } else {
        let mut r = dec_chars(n / 10);
        r.push(digit_ch_c((n % 10) as u32));
        r
    }
}

/// Renders a number in decimal.
pub fn u64_to_string(n: u64) -> (r: String)
    ensures
        r@ == dec_str(n as int),
{
    let v = dec_chars(n);
    string_from_chars(&v)
}

} // verus!
