//! Character-level text model shared by the path, listing and validation
//! code: whitespace as Rust's `char::is_whitespace` defines it, trimming,
//! searching, splitting into lines and words, and decimal numbers read and
//! written as `str::parse` and `Display` do.

use vstd::prelude::*;
use vstd::string::*;
use vstd::std_specs::iter::IteratorSpec;

verus! {

/// Unicode `White_Space`, the set that `char::is_whitespace` and `str::trim` use.
pub open spec fn is_ws(c: char) -> bool {
    let u = c as u32;
    ||| 0x09 <= u <= 0x0D
    ||| u == 0x20
    ||| u == 0x85
    ||| u == 0xA0
    ||| u == 0x1680
    ||| 0x2000 <= u <= 0x200A
    ||| u == 0x2028
    ||| u == 0x2029
    ||| u == 0x202F
    ||| u == 0x205F
    ||| u == 0x3000
}

pub fn char_is_ws(c: char) -> (r: bool)
    ensures
        r == is_ws(c),
{
    let u = c as u32;
    (0x09 <= u && u <= 0x0D) || u == 0x20 || u == 0x85 || u == 0xA0 || u == 0x1680 || (0x2000
        <= u && u <= 0x200A) || u == 0x2028 || u == 0x2029 || u == 0x202F || u == 0x205F || u
        == 0x3000
}

/// `s` without its leading characters that satisfy `p`.
pub open spec fn drop_leading(s: Seq<char>, p: spec_fn(char) -> bool) -> Seq<char>
    decreases s.len(),
{
    if s.len() > 0 && p(s[0]) {
        drop_leading(s.drop_first(), p)
    } else {
        s
    }
}

/// `s` without its trailing characters that satisfy `p`.
pub open spec fn drop_trailing(s: Seq<char>, p: spec_fn(char) -> bool) -> Seq<char>
    decreases s.len(),
{
    if s.len() > 0 && p(s.last()) {
        drop_trailing(s.drop_last(), p)
    } else {
        s
    }
}

pub open spec fn ws_pred() -> spec_fn(char) -> bool {
    |c: char| is_ws(c)
}

pub open spec fn eq_pred(x: char) -> spec_fn(char) -> bool {
    |c: char| c == x
}

/// What `str::trim` leaves of `s`.
pub open spec fn trim(s: Seq<char>) -> Seq<char> {
    drop_trailing(drop_leading(s, ws_pred()), ws_pred())
}

/// What `str::trim_start_matches(x)` leaves of `s`.
pub open spec fn trim_start_char(s: Seq<char>, x: char) -> Seq<char> {
    drop_leading(s, eq_pred(x))
}

/// What `str::trim_end_matches(x)` leaves of `s`.
pub open spec fn trim_end_char(s: Seq<char>, x: char) -> Seq<char> {
    drop_trailing(s, eq_pred(x))
}

pub proof fn lemma_drop_leading_at(s: Seq<char>, p: spec_fn(char) -> bool, i: int)
    requires
        0 <= i <= s.len(),
        forall|k: int| 0 <= k < i ==> p(#[trigger] s[k]),
        i == s.len() || !p(s[i]),
    ensures
        drop_leading(s, p) == s.subrange(i, s.len() as int),
    decreases i,
{
    if i > 0 {
        assert(p(s[0]));
        let t = s.drop_first();
        assert forall|k: int| 0 <= k < i - 1 implies p(#[trigger] t[k]) by {
            assert(t[k] == s[k + 1]);
        }
        if i - 1 < t.len() {
            assert(t[i - 1] == s[i]);
        }
        lemma_drop_leading_at(t, p, i - 1);
        assert(t.subrange(i - 1, t.len() as int) =~= s.subrange(i, s.len() as int));
    } else {
        assert(s.subrange(0, s.len() as int) =~= s);
    }
}

pub proof fn lemma_drop_trailing_at(s: Seq<char>, p: spec_fn(char) -> bool, j: int)
    requires
        0 <= j <= s.len(),
        forall|k: int| j <= k < s.len() ==> p(#[trigger] s[k]),
        j == 0 || !p(s[j - 1]),
    ensures
        drop_trailing(s, p) == s.subrange(0, j),
    decreases s.len() - j,
{
    if j < s.len() {
        assert(p(s.last()));
        let t = s.drop_last();
        assert forall|k: int| j <= k < t.len() implies p(#[trigger] t[k]) by {
            assert(t[k] == s[k]);
        }
        if j > 0 {
            assert(t[j - 1] == s[j - 1]);
        }
        lemma_drop_trailing_at(t, p, j);
        assert(t.subrange(0, j) =~= s.subrange(0, j));
    } else {
        assert(s.subrange(0, j) =~= s);
    }
}

/// The characters of `s`, in order.
pub fn chars_of(s: &str) -> (v: Vec<char>)
    ensures
        v@ == s@,
{
    let mut v: Vec<char> = Vec::new();
    broadcast use vstd::string::axiom_spec_iter;

    for c in iter: s.chars()
        invariant
            v@ == iter.seq().take(iter.index() as int),
    {
        v.push(c);
    }
    assert(v@ == s@);
    v
}

/// `String::push`: appends one character.
#[verifier::external_body]
pub fn push_char(s: &mut String, c: char)
    ensures
        final(s)@ == old(s)@.push(c),
{
    s.push(c);
}

/// A `String` holding exactly the characters of `v`.
pub fn string_of(v: &[char]) -> (s: String)
    ensures
        s@ == v@,
{
    let mut s = String::new();
    let mut i: usize = 0;
    while i < v.len()
        invariant
            i <= v.len(),
            s@ == v@.take(i as int),
        decreases v.len() - i,
    {
        push_char(&mut s, v[i]);
        i += 1;
        assert(s@ =~= v@.take(i as int));
    }
    assert(v@.take(v.len() as int) =~= v@);
    s
}

/// The characters `v[lo..hi]`.
pub fn sub_chars(v: &[char], lo: usize, hi: usize) -> (r: Vec<char>)
    requires
        lo <= hi <= v.len(),
    ensures
        r@ == v@.subrange(lo as int, hi as int),
{
    let mut r: Vec<char> = Vec::new();
    let mut i = lo;
    while i < hi
        invariant
            lo <= i <= hi,
            hi <= v.len(),
            r@ == v@.subrange(lo as int, i as int),
        decreases hi - i,
    {
        r.push(v[i]);
        i += 1;
        assert(r@ =~= v@.subrange(lo as int, i as int));
    }
    r
}

/// `a` followed by `b`.
pub fn concat_chars(a: &[char], b: &[char]) -> (r: Vec<char>)
    ensures
        r@ == a@ + b@,
{
    let mut r: Vec<char> = Vec::new();
    let mut i: usize = 0;
    while i < a.len()
        invariant
            i <= a.len(),
            r@ == a@.take(i as int),
        decreases a.len() - i,
    {
        r.push(a[i]);
        i += 1;
        assert(r@ =~= a@.take(i as int));
    }
    let mut j: usize = 0;
    while j < b.len()
        invariant
            j <= b.len(),
            r@ == a@ + b@.take(j as int),
        decreases b.len() - j,
    {
        r.push(b[j]);
        j += 1;
        assert(r@ =~= a@ + b@.take(j as int));
    }
    assert(b@.take(b.len() as int) =~= b@);
    r
}

/// What `str::trim` returns, as characters.
pub fn trim_chars(v: &[char]) -> (r: Vec<char>)
    ensures
        r@ == trim(v@),
{
    let mut i: usize = 0;
    while i < v.len() && char_is_ws(v[i])
        invariant
            i <= v.len(),
            forall|k: int| 0 <= k < i ==> is_ws(#[trigger] v@[k]),
        decreases v.len() - i,
    {
        i += 1;
    }
    proof {
        lemma_drop_leading_at(v@, ws_pred(), i as int);
    }
    let mut j: usize = v.len();
    while j > i && char_is_ws(v[j - 1])
        invariant
            i <= j <= v.len(),
            forall|k: int| j <= k < v.len() ==> is_ws(#[trigger] v@[k]),
        decreases j,
    {
        j -= 1;
    }
    let ghost t = v@.subrange(i as int, v.len() as int);
    proof {
        assert forall|k: int| j - i <= k < t.len() implies (ws_pred())(#[trigger] t[k]) by {
            assert(t[k] == v@[k + i]);
        }
        if j > i {
            assert(t[j - i - 1] == v@[j - 1]);
        }
        lemma_drop_trailing_at(t, ws_pred(), j - i);
        assert(t.subrange(0, j - i) =~= v@.subrange(i as int, j as int));
    }
    sub_chars(v, i, j)
}

/// What `str::trim_start_matches(x)` returns, as characters.
pub fn trim_start_char_chars(v: &[char], x: char) -> (r: Vec<char>)
    ensures
        r@ == trim_start_char(v@, x),
{
    let mut i: usize = 0;
    while i < v.len() && v[i] == x
        invariant
            i <= v.len(),
            forall|k: int| 0 <= k < i ==> #[trigger] v@[k] == x,
        decreases v.len() - i,
    {
        i += 1;
    }
    proof {
        assert forall|k: int| 0 <= k < i implies (eq_pred(x))(#[trigger] v@[k]) by {}
        lemma_drop_leading_at(v@, eq_pred(x), i as int);
    }
    sub_chars(v, i, v.len())
}

/// What `str::trim_end_matches(x)` returns, as characters.
pub fn trim_end_char_chars(v: &[char], x: char) -> (r: Vec<char>)
    ensures
        r@ == trim_end_char(v@, x),
{
    let mut j: usize = v.len();
    while j > 0 && v[j - 1] == x
        invariant
            j <= v.len(),
            forall|k: int| j <= k < v.len() ==> #[trigger] v@[k] == x,
        decreases j,
    {
        j -= 1;
    }
    proof {
        assert forall|k: int| j <= k < v.len() implies (eq_pred(x))(#[trigger] v@[k]) by {}
        lemma_drop_trailing_at(v@, eq_pred(x), j as int);
    }
    sub_chars(v, 0, j)
}

/// `pat` occurs in `s` starting at `i`.
pub open spec fn occurs_at(s: Seq<char>, pat: Seq<char>, i: int) -> bool {
    0 <= i && i + pat.len() <= s.len() && s.subrange(i, i + pat.len()) == pat
}

/// `str::contains` with a string pattern.
pub open spec fn contains_seq(s: Seq<char>, pat: Seq<char>) -> bool {
    exists|i: int| occurs_at(s, pat, i)
}

/// `str::starts_with` with a string pattern.
pub open spec fn starts_with(s: Seq<char>, pat: Seq<char>) -> bool {
    occurs_at(s, pat, 0)
}

pub fn matches_at(s: &[char], pat: &[char], i: usize) -> (r: bool)
    requires
        i <= s.len(),
    ensures
        r == occurs_at(s@, pat@, i as int),
{
    if pat.len() > s.len() - i {
        return false;
    }
    let mut k: usize = 0;
    while k < pat.len()
        invariant
            k <= pat.len(),
            i + pat.len() <= s.len(),
            forall|m: int| 0 <= m < k ==> s@[i + m] == pat@[m],
        decreases pat.len() - k,
    {
        if s[i + k] != pat[k] {
            assert(s@.subrange(i as int, i + pat.len())[k as int] != pat@[k as int]);
            return false;
        }
        k += 1;
    }
    assert(s@.subrange(i as int, i + pat.len()) =~= pat@);
    true
}

pub fn contains_chars(s: &[char], pat: &[char]) -> (r: bool)
    ensures
        r == contains_seq(s@, pat@),
{
    let mut i: usize = 0;
    loop
        invariant
            i <= s.len(),
            forall|k: int| 0 <= k < i ==> !occurs_at(s@, pat@, k),
        decreases s.len() - i,
    {
        if matches_at(s, pat, i) {
            return true;
        }
        if i == s.len() {
            assert forall|k: int| !occurs_at(s@, pat@, k) by {
                if 0 <= k <= s.len() {
                }
            }
            return false;
        }
        i += 1;
    }
}

pub fn starts_with_chars(s: &[char], pat: &[char]) -> (r: bool)
    ensures
        r == starts_with(s@, pat@),
{
    matches_at(s, pat, 0)
}

pub fn has_char(s: &[char], c: char) -> (r: bool)
    ensures
        r == s@.contains(c),
{
    let mut i: usize = 0;
    while i < s.len()
        invariant
            i <= s.len(),
            forall|k: int| 0 <= k < i ==> s@[k] != c,
        decreases s.len() - i,
    {
        if s[i] == c {
            return true;
        }
        i += 1;
    }
    false
}

pub fn same_chars(a: &[char], b: &[char]) -> (r: bool)
    ensures
        r == (a@ == b@),
{
    if a.len() != b.len() {
        return false;
    }
    let r = matches_at(a, b, 0);
    proof {
        assert(a@.subrange(0, b@.len() as int) =~= a@);
    }
    r
}

/// Index of the last occurrence of `c` in `s`, if any.
pub open spec fn last_index_of(s: Seq<char>, c: char) -> Option<int>
    decreases s.len(),
{
    if s.len() == 0 {
        None
    } else if s.last() == c {
        Some(s.len() - 1)
    } else {
        last_index_of(s.drop_last(), c)
    }
}

pub proof fn lemma_last_index_of(s: Seq<char>, c: char)
    ensures
        match last_index_of(s, c) {
            Some(i) => 0 <= i < s.len() && s[i] == c && forall|k: int|
                i < k < s.len() ==> s[k] != c,
            None => !s.contains(c),
        },
    decreases s.len(),
{
    if s.len() > 0 && s.last() != c {
        lemma_last_index_of(s.drop_last(), c);
        if let Some(i) = last_index_of(s.drop_last(), c) {
            assert forall|k: int| i < k < s.len() implies s[k] != c by {
                if k < s.len() - 1 {
                    assert(s.drop_last()[k] == s[k]);
                }
            }
        } else {
            assert forall|k: int| 0 <= k < s.len() implies s[k] != c by {
                if k < s.len() - 1 {
                    assert(s.drop_last()[k] == s[k]);
                }
            }
        }
    }
}

pub fn rfind_char(s: &[char], c: char) -> (r: Option<usize>)
    ensures
        match r {
            Some(i) => last_index_of(s@, c) == Some(i as int),
            None => last_index_of(s@, c) is None,
        },
{
    let mut j: usize = s.len();
    assert(s@.take(j as int) =~= s@);
    while j > 0
        invariant
            j <= s.len(),
            last_index_of(s@, c) == last_index_of(s@.take(j as int), c),
        decreases j,
    {
        if s[j - 1] == c {
            assert(s@.take(j as int).last() == c);
            return Some(j - 1);
        }
        assert(s@.take(j as int).drop_last() =~= s@.take(j - 1));
        j -= 1;
    }
    assert(s@.take(0) =~= Seq::<char>::empty());
    None
}

// ---------------------------------------------------------------------
// Lines, as `str::lines` yields them.
// ---------------------------------------------------------------------

/// The pieces of `s` between its `\n` characters: one more than there
/// are newlines.
pub open spec fn split_nl(s: Seq<char>) -> Seq<Seq<char>>
    decreases s.len(),
{
    if s.len() == 0 {
        seq![Seq::<char>::empty()]
    } else {
        let p = split_nl(s.drop_last());
        if s.last() == '\n' {
            p.push(Seq::<char>::empty())
        } else {
            p.update(p.len() - 1, p.last().push(s.last()))
        }
    }
}

pub proof fn lemma_split_nl_len(s: Seq<char>)
    ensures
        split_nl(s).len() >= 1,
    decreases s.len(),
{
    if s.len() > 0 {
        lemma_split_nl_len(s.drop_last());
    }
}

/// A line ended by `\r\n` loses its `\r`.
pub open spec fn strip_cr(line: Seq<char>) -> Seq<char> {
    if line.len() > 0 && line.last() == '\r' {
        line.drop_last()
    } else {
        line
    }
}

/// The lines of `s`: every piece ended by a newline, less a `\r` before
/// that newline, then the unterminated rest unless it is empty.
pub open spec fn lines_spec(s: Seq<char>) -> Seq<Seq<char>> {
    let p = split_nl(s);
    let ended = p.drop_last().map_values(|l: Seq<char>| strip_cr(l));
    if p.last().len() == 0 {
        ended
    } else {
        ended.push(p.last())
    }
}

/// `str::lines`, as characters.
pub fn split_lines(v: &[char]) -> (r: Vec<Vec<char>>)
    ensures
        r@.map_values(|l: Vec<char>| l@) == lines_spec(v@),
{
    let mut out: Vec<Vec<char>> = Vec::new();
    let mut cur: Vec<char> = Vec::new();
    let mut i: usize = 0;
    assert(v@.take(0) =~= Seq::<char>::empty());
    assert(out@.map_values(|l: Vec<char>| l@) =~= Seq::<Seq<char>>::empty());
    while i < v.len()
        invariant
            i <= v.len(),
            split_nl(v@.take(i as int)).len() >= 1,
            out@.map_values(|l: Vec<char>| l@) == split_nl(v@.take(i as int)).drop_last().map_values(
                |l: Seq<char>| strip_cr(l),
            ),
            cur@ == split_nl(v@.take(i as int)).last(),
        decreases v.len() - i,
    {
        let ghost t = v@.take(i as int);
        let ghost t1 = v@.take(i + 1);
        proof {
            assert(t1.drop_last() =~= t);
            assert(t1.last() == v@[i as int]);
            lemma_split_nl_len(t);
        }
        let c = v[i];
        if c == '\n' {
            let ghost before = out@;
            let line = if cur.len() > 0 && cur[cur.len() - 1] == '\r' {
                sub_chars(&cur, 0, cur.len() - 1)
            } else {
                sub_chars(&cur, 0, cur.len())
            };
            proof {
                assert(cur@.subrange(0, cur@.len() as int) =~= cur@);
                assert(cur@.subrange(0, cur@.len() - 1) =~= cur@.drop_last());
            }
            out.push(line);
            cur = Vec::new();
            proof {
                let p = split_nl(t);
                assert(split_nl(t1) == p.push(Seq::<char>::empty()));
                assert(split_nl(t1).drop_last() =~= p);
                assert(p =~= p.drop_last().push(p.last()));
                assert(out@.map_values(|l: Vec<char>| l@) =~= before.map_values(|l: Vec<char>| l@).push(
                    strip_cr(p.last()),
                ));
                assert(p.map_values(|l: Seq<char>| strip_cr(l)) =~= p.drop_last().map_values(
                    |l: Seq<char>| strip_cr(l),
                ).push(strip_cr(p.last())));
            }
        } else {
            cur.push(c);
            proof {
                let p = split_nl(t);
                assert(split_nl(t1) == p.update(p.len() - 1, p.last().push(c)));
                assert(split_nl(t1).drop_last() =~= p.drop_last());
            }
        }
        i += 1;
    }
    assert(v@.take(v.len() as int) =~= v@);
    let ghost ended = out@.map_values(|l: Vec<char>| l@);
    if cur.len() > 0 {
        let ghost last = cur@;
        out.push(cur);
        assert(out@.map_values(|l: Vec<char>| l@) =~= ended.push(last));
    }
    out
}

// ---------------------------------------------------------------------
// Words, as `str::split_whitespace` yields them.
// ---------------------------------------------------------------------

/// Length of the leading run of non-whitespace characters.
pub open spec fn word_len(s: Seq<char>) -> nat
    decreases s.len(),
{
    if s.len() > 0 && !is_ws(s[0]) {
        1 + word_len(s.drop_first())
    } else {
        0
    }
}

/// The non-empty maximal runs of non-whitespace characters of `s`, in order.
pub open spec fn words(s: Seq<char>) -> Seq<Seq<char>>
    decreases s.len(),
{
    let t = drop_leading(s, ws_pred());
    if t.len() == 0 {
        seq![]
    } else {
        proof {
            lemma_drop_leading_shorter(s, ws_pred());
            lemma_word_len_bound(t);
        }
        seq![t.take(word_len(t) as int)] + words(t.skip(word_len(t) as int))
    }
}

pub proof fn lemma_drop_leading_shorter(s: Seq<char>, p: spec_fn(char) -> bool)
    ensures
        drop_leading(s, p).len() <= s.len(),
        drop_leading(s, p).len() > 0 ==> !p(drop_leading(s, p)[0]),
    decreases s.len(),
{
    if s.len() > 0 && p(s[0]) {
        lemma_drop_leading_shorter(s.drop_first(), p);
    }
}

pub proof fn lemma_word_len_bound(s: Seq<char>)
    ensures
        word_len(s) <= s.len(),
        s.len() > 0 && !is_ws(s[0]) ==> word_len(s) > 0,
    decreases s.len(),
{
    if s.len() > 0 && !is_ws(s[0]) {
        lemma_word_len_bound(s.drop_first());
    }
}

pub proof fn lemma_word_len_at(s: Seq<char>, n: int)
    requires
        0 <= n <= s.len(),
        forall|k: int| 0 <= k < n ==> !is_ws(#[trigger] s[k]),
        n == s.len() || is_ws(s[n]),
    ensures
        word_len(s) == n,
    decreases n,
{
    if n > 0 {
        let t = s.drop_first();
        assert forall|k: int| 0 <= k < n - 1 implies !is_ws(#[trigger] t[k]) by {
            assert(t[k] == s[k + 1]);
        }
        if n - 1 < t.len() {
            assert(t[n - 1] == s[n]);
        }
        lemma_word_len_at(t, n - 1);
    }
}

/// The words of `s` (`str::split_whitespace`), each as characters.
pub fn split_words(s: &[char]) -> (r: Vec<Vec<char>>)
    ensures
        r@.len() == words(s@).len(),
        forall|k: int| 0 <= k < r@.len() ==> #[trigger] r@[k]@ == words(s@)[k],
{
    let mut r: Vec<Vec<char>> = Vec::new();
    let mut i: usize = 0;
    let ghost done: Seq<Seq<char>> = seq![];
    assert(s@.skip(0) =~= s@);
    assert(done + words(s@) =~= words(s@));
    while i < s.len()
        invariant
            i <= s.len(),
            r@.len() == done.len(),
            forall|k: int| 0 <= k < r@.len() ==> #[trigger] r@[k]@ == done[k],
            words(s@) == done + words(s@.skip(i as int)),
        ensures
            i == s.len(),
            r@.len() == done.len(),
            forall|k: int| 0 <= k < r@.len() ==> #[trigger] r@[k]@ == done[k],
            words(s@) == done + words(s@.skip(i as int)),
        decreases s.len() - i,
    {
        let start = i;
        while i < s.len() && char_is_ws(s[i])
            invariant
                start <= i <= s.len(),
                forall|k: int| start <= k < i ==> is_ws(#[trigger] s@[k]),
            decreases s.len() - i,
        {
            i += 1;
        }
        let ghost rest = s@.skip(start as int);
        proof {
            assert forall|k: int| 0 <= k < i - start implies (ws_pred())(#[trigger] rest[k]) by {
                assert(rest[k] == s@[k + start]);
            }
            if i < s.len() {
                assert(rest[i - start] == s@[i as int]);
            }
            lemma_drop_leading_at(rest, ws_pred(), i - start);
            assert(rest.subrange(i - start, rest.len() as int) =~= s@.skip(i as int));
        }
        if i == s.len() {
            proof {
                assert(s@.skip(i as int).len() == 0);
            }
            break;
        }
        let w0 = i;
        while i < s.len() && !char_is_ws(s[i])
            invariant
                w0 <= i <= s.len(),
                forall|k: int| w0 <= k < i ==> !is_ws(#[trigger] s@[k]),
            decreases s.len() - i,
        {
            i += 1;
        }
        let ghost t = s@.skip(w0 as int);
        proof {
            assert forall|k: int| 0 <= k < i - w0 implies !is_ws(#[trigger] t[k]) by {
                assert(t[k] == s@[k + w0]);
            }
            if i < s.len() {
                assert(t[i - w0] == s@[i as int]);
            }
            lemma_word_len_at(t, i - w0);
            assert(t.take(i - w0) =~= s@.subrange(w0 as int, i as int));
            assert(t.skip(i - w0) =~= s@.skip(i as int));
        }
        let w = sub_chars(s, w0, i);
        r.push(w);
        proof {
            done = done.push(s@.subrange(w0 as int, i as int));
            assert(words(s@.skip(start as int)) == seq![t.take(word_len(t) as int)] + words(
                t.skip(word_len(t) as int),
            ));
            assert(done =~= done.drop_last() + seq![t.take(word_len(t) as int)]);
        }
    }
    proof {
        let e = s@.skip(i as int);
        assert(e.len() == 0);
        assert(drop_leading(e, ws_pred()) =~= e);
        assert(words(e) =~= Seq::<Seq<char>>::empty());
        assert(done + Seq::<Seq<char>>::empty() =~= done);
    }
    r
}

/// Words joined by single spaces (`[&str]::join(" ")`).
pub open spec fn join_spaced(ws: Seq<Seq<char>>) -> Seq<char>
    decreases ws.len(),
{
    if ws.len() == 0 {
        seq![]
    } else if ws.len() == 1 {
        ws[0]
    } else {
        join_spaced(ws.drop_last()) + seq![' '] + ws.last()
    }
}

/// `parts[from..].join(" ")`.
pub fn join_words_from(parts: &Vec<Vec<char>>, from: usize) -> (r: Vec<char>)
    requires
        from <= parts@.len(),
    ensures
        r@ == join_spaced(parts@.skip(from as int).map_values(|w: Vec<char>| w@)),
{
    let ghost views = parts@.skip(from as int).map_values(|w: Vec<char>| w@);
    let mut r: Vec<char> = Vec::new();
    let mut i = from;
    while i < parts.len()
        invariant
            from <= i <= parts@.len(),
            views == parts@.skip(from as int).map_values(|w: Vec<char>| w@),
            r@ == join_spaced(views.take(i - from)),
        decreases parts.len() - i,
    {
        let ghost prev = views.take(i - from);
        let ghost next = views.take(i - from + 1);
        proof {
            assert(next.drop_last() =~= prev);
            assert(next.last() == parts@[i as int]@);
        }
        if i > from {
            let sp: [char; 1] = [' '];
            let t = concat_chars(&r, &sp);
            r = concat_chars(&t, &parts[i]);
            assert(r@ =~= join_spaced(prev) + seq![' '] + next.last());
        } else {
            r = concat_chars(&r, &parts[i]);
            assert(r@ =~= next[0]);
        }
        i += 1;
    }
    proof {
        assert(views.take(parts.len() - from) =~= views);
    }
    r
}

// ---------------------------------------------------------------------
// Decimal integers, as `u64::from_str` reads them.
// ---------------------------------------------------------------------

/// Why `u64::from_str` refuses a string.
#[derive(PartialEq, Eq, Structural, Debug, Clone, Copy)]
pub enum IntErrorKind {
    Empty,
    InvalidDigit,
    PosOverflow,
}

pub open spec fn is_digit(c: char) -> bool {
    '0' <= c && c <= '9'
}

pub open spec fn digit_value(c: char) -> nat {
    (c as u32 - '0' as u32) as nat
}

/// Reads decimal digits left to right onto `acc`, stopping at the first
/// character that is not a digit or the first digit that overflows `u64`.
pub open spec fn scan_digits(d: Seq<char>, acc: nat) -> Result<nat, IntErrorKind>
    decreases d.len(),
{
    if d.len() == 0 {
        Ok(acc)
    } else if !is_digit(d[0]) {
        Err(IntErrorKind::InvalidDigit)
    } else if acc * 10 + digit_value(d[0]) > u64::MAX {
        Err(IntErrorKind::PosOverflow)
    } else {
        scan_digits(d.drop_first(), acc * 10 + digit_value(d[0]))
    }
}

/// `u64::from_str`: an optional leading `+`, then at least one decimal digit.
pub open spec fn parse_u64_spec(s: Seq<char>) -> Result<u64, IntErrorKind> {
    if s.len() == 0 {
        Err(IntErrorKind::Empty)
    } else {
        let d = if s[0] == '+' && s.len() > 1 {
            s.drop_first()
        } else {
            s
        };
        match scan_digits(d, 0) {
            Ok(n) => Ok(n as u64),
            Err(e) => Err(e),
        }
    }
}

pub proof fn lemma_scan_bound(d: Seq<char>, acc: nat)
    requires
        acc <= u64::MAX,
    ensures
        scan_digits(d, acc) matches Ok(n) ==> n <= u64::MAX,
    decreases d.len(),
{
    if d.len() > 0 && is_digit(d[0]) && acc * 10 + digit_value(d[0]) <= u64::MAX {
        lemma_scan_bound(d.drop_first(), acc * 10 + digit_value(d[0]));
    }
}

/// Scanning one more character continues from where the shorter scan
/// stopped.
proof fn lemma_scan_push(d: Seq<char>, c: char, acc: nat)
    ensures
        scan_digits(d.push(c), acc) == (match scan_digits(d, acc) {
            Ok(m) => if !is_digit(c) {
                Err(IntErrorKind::InvalidDigit)
            } else if m * 10 + digit_value(c) > u64::MAX {
                Err(IntErrorKind::PosOverflow)
            } else {
                Ok(m * 10 + digit_value(c))
            },
            Err(e) => Err(e),
        }),
    decreases d.len(),
{
    let t = d.push(c);
    if d.len() == 0 {
        assert(t =~= seq![c]);
        assert(t.drop_first() =~= Seq::<char>::empty());
        assert(scan_digits(d, acc) == Ok::<nat, IntErrorKind>(acc));
        if is_digit(c) && acc * 10 + digit_value(c) <= u64::MAX {
            assert(scan_digits(Seq::<char>::empty(), acc * 10 + digit_value(c)) == Ok::<
                nat,
                IntErrorKind,
            >(acc * 10 + digit_value(c)));
        }
    } else {
        assert(t[0] == d[0]);
        assert(t.drop_first() =~= d.drop_first().push(c));
        if is_digit(d[0]) && acc * 10 + digit_value(d[0]) <= u64::MAX {
            lemma_scan_push(d.drop_first(), c, acc * 10 + digit_value(d[0]));
        }
    }
}

proof fn lemma_digit_char(d: nat)
    requires
        d < 10,
    ensures
        is_digit(digit_char(d)),
        digit_value(digit_char(d)) == d,
        digit_char(d) != '+',
{
    assert(digit_char(d) as u32 == 48 + d);
}

/// Scanning the decimal text of a number gives the number back.
proof fn lemma_scan_nat_text(n: nat)
    requires
        n <= u64::MAX,
    ensures
        scan_digits(nat_text(n), 0) == Ok::<nat, IntErrorKind>(n),
        nat_text(n).len() > 0,
        is_digit(nat_text(n)[0]),
    decreases n,
{
    lemma_digit_char(n % 10);
    if n < 10 {
        let t = nat_text(n);
        assert(t == seq![digit_char(n)]);
        assert(t.drop_first() =~= Seq::<char>::empty());
        assert(0 * 10 + digit_value(t[0]) == n);
        assert(scan_digits(Seq::<char>::empty(), n) == Ok::<nat, IntErrorKind>(n));
        assert(scan_digits(t, 0) == scan_digits(t.drop_first(), n));
    } else {
        lemma_scan_nat_text(n / 10);
        lemma_scan_push(nat_text(n / 10), digit_char(n % 10), 0);
        assert((n / 10) * 10 + n % 10 == n) by (nonlinear_arith);
        assert(nat_text(n)[0] == nat_text(n / 10)[0]);
    }
}

/// `u64::from_str` reads back what `u64`'s `Display` writes.
pub proof fn parse_reads_back_u64_text(n: u64)
    ensures
        parse_u64_spec(nat_text(n as nat)) == Ok::<u64, IntErrorKind>(n),
{
    lemma_scan_nat_text(n as nat);
    lemma_digit_char(0);
    assert(nat_text(n as nat)[0] != '+');
}

pub open spec fn u64_res_view(r: Result<u64, String>) -> Result<u64, Seq<char>> {
    match r {
        Ok(n) => Ok(n),
        Err(e) => Err(e@),
    }
}

pub fn parse_u64(s: &[char]) -> (r: Result<u64, IntErrorKind>)
    ensures
        r == parse_u64_spec(s@),
{
    if s.len() == 0 {
        return Err(IntErrorKind::Empty);
    }
    let start: usize = if s[0] == '+' && s.len() > 1 {
        1
    } else {
        0
    };
    let ghost d = if s@[0] == '+' && s@.len() > 1 {
        s@.drop_first()
    } else {
        s@
    };
    proof {
        assert(d =~= s@.skip(start as int));
        assert(parse_u64_spec(s@) == match scan_digits(d, 0) {
            Ok(n) => Ok(n as u64),
            Err(e) => Err(e),
        });
    }
    let mut acc: u64 = 0;
    let mut i = start;
    while i < s.len()
        invariant
            start <= i <= s.len(),
            scan_digits(d, 0) == scan_digits(s@.skip(i as int), acc as nat),
            d == s@.skip(start as int),
            parse_u64_spec(s@) == match scan_digits(d, 0) {
                Ok(n) => Ok(n as u64),
                Err(e) => Err(e),
            },
        decreases s.len() - i,
    {
        let c = s[i];
        let ghost rest = s@.skip(i as int);
        proof {
            assert(rest[0] == c);
            assert(rest.drop_first() =~= s@.skip(i + 1));
        }
        if c < '0' || c > '9' {
            assert(!is_digit(rest[0]));
            assert(scan_digits(rest, acc as nat) == Err::<nat, IntErrorKind>(IntErrorKind::InvalidDigit));
            return Err(IntErrorKind::InvalidDigit);
        }
        let dv = (c as u32 - '0' as u32) as u64;
        assert(dv == digit_value(c));
        if acc > (u64::MAX - dv) / 10 {
            assert(acc * 10 + dv > u64::MAX) by (nonlinear_arith)
                requires
                    acc > (u64::MAX - dv) / 10,
                    dv <= 9,
            ;
            assert(scan_digits(rest, acc as nat) == Err::<nat, IntErrorKind>(IntErrorKind::PosOverflow));
            return Err(IntErrorKind::PosOverflow);
        }
        assert(acc * 10 + dv <= u64::MAX) by (nonlinear_arith)
            requires
                acc <= (u64::MAX - dv) / 10,
                dv <= 9,
        ;
        acc = acc * 10 + dv;
        i += 1;
    }
    assert(s@.skip(i as int).len() == 0);
    Ok(acc)
}

// ---------------------------------------------------------------------
// Length in UTF-8 bytes, as `str::len` counts it.
// ---------------------------------------------------------------------

/// Number of bytes `str::len` reports for these characters.
pub open spec fn byte_len(s: Seq<char>) -> nat {
    vstd::utf8::encode_utf8(s).len()
}

fn char_width(c: char) -> (w: usize)
    ensures
        w == vstd::utf8::encode_scalar(c as u32).len(),
{
    let u = c as u32;
    proof {
        vstd::utf8::char_is_scalar(c);
    }
    if u <= 0x7F {
        1
    } else if u <= 0x7FF {
        2
    } else if u <= 0xFFFF {
        3
    } else {
        4
    }
}

/// Whether the UTF-8 encoding of `v` is longer than `limit` bytes.
pub fn byte_len_exceeds(v: &[char], limit: usize) -> (r: bool)
    ensures
        r == (byte_len(v@) > limit),
{
    let mut j: usize = v.len();
    let mut total: usize = 0;
    assert(v@.skip(j as int) =~= Seq::<char>::empty());
    while j > 0
        invariant
            j <= v.len(),
            total <= limit,
            total == vstd::utf8::encode_utf8(v@.skip(j as int)).len(),
        decreases j,
    {
        let w = char_width(v[j - 1]);
        proof {
            let t = v@.skip(j - 1);
            assert(t[0] == v@[j - 1]);
            assert(t.drop_first() =~= v@.skip(j as int));
        }
        if w > limit - total {
            proof {
                lemma_encode_suffix_grows(v@, j - 1);
            }
            return true;
        }
        total = total + w;
        j -= 1;
    }
    assert(v@.skip(0) =~= v@);
    false
}

proof fn lemma_encode_suffix_grows(s: Seq<char>, i: int)
    requires
        0 <= i <= s.len(),
    ensures
        vstd::utf8::encode_utf8(s).len() >= vstd::utf8::encode_utf8(s.skip(i)).len(),
    decreases i,
{
    if i > 0 {
        assert(s.drop_first().skip(i - 1) =~= s.skip(i));
        lemma_encode_suffix_grows(s.drop_first(), i - 1);
    } else {
        assert(s.skip(0) =~= s);
    }
}

// ---------------------------------------------------------------------
// Decimal text of integers, as `Display` writes them.
// ---------------------------------------------------------------------

pub open spec fn digit_char(d: nat) -> char {
    (('0' as u32) + d) as char
}

/// Decimal digits of `n`, most significant first, without leading zeros.
pub open spec fn nat_text(n: nat) -> Seq<char>
    decreases n,
{
    if n < 10 {
        seq![digit_char(n)]
    } else {
        nat_text(n / 10).push(digit_char(n % 10))
    }
}

/// Decimal text of `n`, with a leading `-` when negative.
pub open spec fn int_text(n: int) -> Seq<char> {
    if n < 0 {
        seq!['-'] + nat_text((-n) as nat)
    } else {
        nat_text(n as nat)
    }
}

fn digit_of(d: u64) -> (c: char)
    requires
        d < 10,
    ensures
        c == digit_char(d as nat),
{
    let u: u32 = 48 + (d as u32);
    proof {
        assert(('0' as u32) == 48);
        assert(u <= 57);
        assert(u < 0xD800);
    }
    char_of_ascii(u)
}

fn char_of_ascii(u: u32) -> (c: char)
    requires
        u < 128,
    ensures
        c == u as char,
{
    let b: u8 = u as u8;
    b as char
}

fn u64_digits(n: u64) -> (v: Vec<char>)
    ensures
        v@ == nat_text(n as nat),
    decreases n,
{
    if n < 10 {
        let mut v = Vec::new();
        v.push(digit_of(n));
        v
    } else {
        let mut v = u64_digits(n / 10);
        v.push(digit_of(n % 10));
        v
    }
}

/// `n.to_string()` for a `u64`.
pub fn u64_text(n: u64) -> (s: String)
    ensures
        s@ == nat_text(n as nat),
{
    string_of(&u64_digits(n))
}

/// `n.to_string()` for an `i64`.
pub fn i64_text(n: i64) -> (s: String)
    ensures
        s@ == int_text(n as int),
{
    if n < 0 {
        let m: u64 = if n == i64::MIN {
            0x8000_0000_0000_0000u64
        } else {
            (-n) as u64
        };
        let minus: [char; 1] = ['-'];
        let v = concat_chars(&minus, &u64_digits(m));
        assert(v@ =~= int_text(n as int));
        string_of(&v)
    } else {
        string_of(&u64_digits(n as u64))
    }
}

} // verus!
