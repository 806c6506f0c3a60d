//! Character-level text handling shared by the parsers: line and word
//! splitting, trimming and substring search, each stated over `Seq<char>`.
use vstd::prelude::*;

verus! {

/// The Unicode `White_Space` property.
pub open spec fn is_white_space(c: char) -> bool {
    ('\u{9}' <= c && c <= '\u{d}') || c == ' ' || c == '\u{85}' || c == '\u{a0}' || c
        == '\u{1680}' || ('\u{2000}' <= c && c <= '\u{200a}') || c == '\u{2028}' || c
        == '\u{2029}' || c == '\u{202f}' || c == '\u{205f}' || c == '\u{3000}'
}

/// Whether `c` has the Unicode `White_Space` property, as `char::is_whitespace` tells.
pub fn is_whitespace(c: char) -> (r: bool)
    ensures
        r == is_white_space(c),
{
    ('\u{9}' <= c && c <= '\u{d}') || c == ' ' || c == '\u{85}' || c == '\u{a0}' || c
        == '\u{1680}' || ('\u{2000}' <= c && c <= '\u{200a}') || c == '\u{2028}' || c
        == '\u{2029}' || c == '\u{202f}' || c == '\u{205f}' || c == '\u{3000}'
}

/// Relies on `String`'s `FromIterator<&char>`: the characters, in order.
#[verifier::external_body]
pub(crate) fn string_of(v: &Vec<char>) -> (r: String)
    ensures
        r@ == v@,
{
    v.iter().collect()
}

/// The characters of `s`, in order.
pub fn chars_of(s: &str) -> (r: Vec<char>)
    ensures
        r@ == s@,
{
    let mut r: Vec<char> = Vec::new();
    for c in it: s.chars()
        invariant
            it.seq() == s@,
            r@ == s@.take(it.index() as int),
    {
        r.push(c);
    }
    r
}

/// A copy of `v[from..to]`.
pub fn slice(v: &Vec<char>, from: usize, to: usize) -> (r: Vec<char>)
    requires
        from <= to <= v@.len(),
    ensures
        r@ == v@.subrange(from as int, to as int),
{
    let mut r: Vec<char> = Vec::new();
    let mut i: usize = from;
    while i < to
        invariant
            from <= i <= to <= v@.len(),
            r@ == v@.subrange(from as int, i as int),
        decreases to - i,
    {
        r.push(v[i]);
        i = i + 1;
        assert(r@ =~= v@.subrange(from as int, i as int));
    }
    r
}

/// `a` followed by `b`.
pub fn concat(a: &Vec<char>, b: &Vec<char>) -> (r: Vec<char>)
    ensures
        r@ == a@ + b@,
{
    let mut r = a.clone();
    let mut i: usize = 0;
    while i < b.len()
        invariant
            i <= b@.len(),
            r@ == a@ + b@.take(i as int),
        decreases b@.len() - i,
    {
        r.push(b[i]);
        i = i + 1;
        assert(r@ =~= a@ + b@.take(i as int));
    }
    assert(b@.take(b@.len() as int) =~= b@);
    r
}

/// The length of the longest prefix of `s` whose characters all satisfy `p`.
pub open spec fn prefix_len(s: Seq<char>, p: spec_fn(char) -> bool) -> nat
    decreases s.len(),
{
    if s.len() > 0 && p(s[0]) {
        1 + prefix_len(s.drop_first(), p)
    } else {
        0
    }
}

/// `prefix_len` is the first position that fails `p`, or the length.
pub proof fn lemma_prefix_len(s: Seq<char>, p: spec_fn(char) -> bool, k: int)
    requires
        0 <= k <= s.len(),
        forall|j: int| 0 <= j < k ==> #[trigger] p(s[j]),
        k == s.len() || !p(s[k]),
    ensures
        prefix_len(s, p) == k,
    decreases k,
{
    if k > 0 {
        let t = s.drop_first();
        assert forall|j: int| 0 <= j < k - 1 implies #[trigger] p(t[j]) by {
            assert(t[j] == s[j + 1]);
        }
        lemma_prefix_len(t, p, k - 1);
    }
}

/// `prefix_len` never exceeds the length, and every character before it satisfies `p`.
pub proof fn lemma_prefix_len_bounds(s: Seq<char>, p: spec_fn(char) -> bool)
    ensures
        prefix_len(s, p) <= s.len(),
        forall|j: int| 0 <= j < prefix_len(s, p) ==> #[trigger] p(s[j]),
        prefix_len(s, p) < s.len() ==> !p(s[prefix_len(s, p) as int]),
    decreases s.len(),
{
    if s.len() > 0 && p(s[0]) {
        let t = s.drop_first();
        lemma_prefix_len_bounds(t, p);
        assert forall|j: int| 0 <= j < prefix_len(s, p) implies #[trigger] p(s[j]) by {
            if j > 0 {
                assert(s[j] == t[j - 1]);
            }
        }
    }
}

/// The length of the leading run of white space.
pub open spec fn leading_space(s: Seq<char>) -> nat {
    prefix_len(s, |c: char| is_white_space(c))
}

/// The length of the trailing run of white space.
pub open spec fn trailing_space(s: Seq<char>) -> nat {
    prefix_len(s.reverse(), |c: char| is_white_space(c))
}

/// `s` without leading and trailing white space.
pub open spec fn trimmed(s: Seq<char>) -> Seq<char> {
    if leading_space(s) == s.len() {
        Seq::empty()
    } else {
        s.subrange(leading_space(s) as int, s.len() - trailing_space(s))
    }
}

/// `s` with white space removed at both ends.
pub fn trim(s: &Vec<char>) -> (r: Vec<char>)
    ensures
        r@ == trimmed(s@),
{
    let ghost ws = |c: char| is_white_space(c);
    let n = s.len();
    let mut a: usize = 0;
    while a < n && is_whitespace(s[a])
        invariant
            a <= n == s@.len(),
            forall|j: int| 0 <= j < a ==> #[trigger] is_white_space(s@[j]),
        decreases n - a,
    {
        a = a + 1;
    }
    proof {
        lemma_prefix_len(s@, ws, a as int);
    }
    if a == n {
        return Vec::new();
    }
    let mut b: usize = n;
    while b > a && is_whitespace(s[b - 1])
        invariant
            a < n == s@.len(),
            !is_white_space(s@[a as int]),
            a <= b <= n,
            forall|j: int| b <= j < n ==> #[trigger] is_white_space(s@[j]),
        decreases b,
    {
        b = b - 1;
    }
    proof {
        let rv = s@.reverse();
        assert forall|j: int| 0 <= j < n - b implies #[trigger] ws(rv[j]) by {
            assert(rv[j] == s@[n - 1 - j]);
        }
        if b > a {
            assert(rv[n - b] == s@[b - 1]);
        } else {
            assert(rv[n - b] == s@[a as int]);
        }
        lemma_prefix_len(rv, ws, n - b);
    }
    slice(s, a, b)
}

/// The length of the first line of `s`, up to its first `'\n'`.
pub open spec fn line_len(s: Seq<char>) -> nat {
    prefix_len(s, not_newline())
}

/// The test that continues a line.
pub open spec fn not_newline() -> spec_fn(char) -> bool {
    |c: char| c != '\n'
}

/// A line without the `'\r'` of a `"\r\n"` ending.
pub open spec fn without_cr(l: Seq<char>) -> Seq<char> {
    if l.len() > 0 && l.last() == '\r' {
        l.drop_last()
    } else {
        l
    }
}

/// The lines of `s`: split at each `'\n'`, a `'\r'` before the `'\n'` dropped,
/// with no empty line after a final `'\n'`.
pub open spec fn lines_of(s: Seq<char>) -> Seq<Seq<char>>
    decreases s.len(),
{
    if s.len() == 0 {
        Seq::empty()
    } else if line_len(s) < s.len() {
        seq![without_cr(s.take(line_len(s) as int))] + lines_of(s.skip(line_len(s) + 1int))
    } else {
        seq![s]
    }
}

/// The views of a vector of character vectors.
pub open spec fn views(v: Seq<Vec<char>>) -> Seq<Seq<char>> {
    v.map_values(|x: Vec<char>| x@)
}

/// The lines of `s`, as `lines_of` gives them.
pub fn lines(s: &Vec<char>) -> (r: Vec<Vec<char>>)
    ensures
        views(r@) == lines_of(s@),
{
    let n = s.len();
    let mut out: Vec<Vec<char>> = Vec::new();
    let mut start: usize = 0;
    let mut i: usize = 0;
    assert(s@.skip(0) =~= s@);
    assert(views(out@) + lines_of(s@) =~= lines_of(s@));
    while i < n
        invariant
            n == s@.len(),
            start <= i <= n,
            forall|j: int| start <= j < i ==> s@[j] != '\n',
            lines_of(s@) == views(out@) + lines_of(s@.skip(start as int)),
        decreases n - i,
    {
        if s[i] == '\n' {
            let mut line = slice(s, start, i);
            if line.len() > 0 && line[line.len() - 1] == '\r' {
                line.pop();
            }
            proof {
                let t = s@.skip(start as int);
                assert forall|j: int| 0 <= j < i - start implies #[trigger] not_newline()(t[j]) by {
                    assert(t[j] == s@[start + j]);
                }
                assert(t[i - start] == s@[i as int]);
                lemma_prefix_len(t, not_newline(), i - start);
                assert(t.take(i - start) =~= s@.subrange(start as int, i as int));
                assert(t.skip(i - start + 1) =~= s@.skip(i + 1));
                assert(views(out@.push(line)) =~= views(out@).push(line@));
            }
            out.push(line);
            start = i + 1;
        }
        i = i + 1;
    }
    proof {
        let t = s@.skip(start as int);
        assert forall|j: int| 0 <= j < n - start implies #[trigger] not_newline()(t[j]) by {
            assert(t[j] == s@[start + j]);
        }
        lemma_prefix_len(t, not_newline(), n - start);
    }
    if start < n {
        let last = slice(s, start, n);
        proof {
            assert(last@ =~= s@.skip(start as int));
            assert(views(out@.push(last)) =~= views(out@).push(last@));
        }
        out.push(last);
    } else {
        assert(views(out@) + Seq::empty() =~= views(out@));
    }
    out
}

/// The length of the word at the start of `s`.
pub open spec fn word_len(s: Seq<char>) -> nat {
    prefix_len(s, not_space())
}

/// The test that continues a word.
pub open spec fn not_space() -> spec_fn(char) -> bool {
    |c: char| !is_white_space(c)
}

#[via_fn]
proof fn words_of_decreases(s: Seq<char>) {
    lemma_prefix_len_bounds(s, not_space());
}

/// The words of `s`: its maximal runs of characters other than white space.
pub open spec fn words_of(s: Seq<char>) -> Seq<Seq<char>>
    decreases s.len(),
    via words_of_decreases
{
    if s.len() == 0 {
        Seq::empty()
    } else if is_white_space(s[0]) {
        words_of(s.drop_first())
    } else {
        seq![s.take(word_len(s) as int)] + words_of(s.skip(word_len(s) as int))
    }
}

/// The words of `s`, as `words_of` gives them.
pub fn words(s: &Vec<char>) -> (r: Vec<Vec<char>>)
    ensures
        views(r@) == words_of(s@),
{
    let n = s.len();
    let mut out: Vec<Vec<char>> = Vec::new();
    let mut i: usize = 0;
    assert(s@.skip(0) =~= s@);
    assert(views(out@) + words_of(s@) =~= words_of(s@));
    while i < n
        invariant
            n == s@.len(),
            i <= n,
            words_of(s@) == views(out@) + words_of(s@.skip(i as int)),
        decreases n - i,
    {
        if is_whitespace(s[i]) {
            assert(s@.skip(i as int).drop_first() =~= s@.skip(i + 1));
            i = i + 1;
        } else {
            let start = i;
            while i < n && !is_whitespace(s[i])
                invariant
                    n == s@.len(),
                    start < n,
                    !is_white_space(s@[start as int]),
                    start <= i <= n,
                    forall|j: int| start <= j < i ==> !is_white_space(#[trigger] s@[j]),
                decreases n - i,
            {
                i = i + 1;
            }
            let w = slice(s, start, i);
            proof {
                let t = s@.skip(start as int);
                assert forall|j: int| 0 <= j < i - start implies #[trigger] not_space()(t[j]) by {
                    assert(t[j] == s@[start + j]);
                }
                if i < n {
                    assert(t[i - start] == s@[i as int]);
                }
                lemma_prefix_len(t, not_space(), i - start);
                assert(t[0] == s@[start as int]);
                assert(t.take(i - start) =~= w@);
                assert(t.skip(i - start) =~= s@.skip(i as int));
                assert(views(out@.push(w)) =~= views(out@).push(w@));
            }
            out.push(w);
        }
    }
    assert(views(out@) + Seq::empty() =~= views(out@));
    out
}

/// `p` occurs in `s` at position `i`.
pub open spec fn occurs_at(s: Seq<char>, p: Seq<char>, i: int) -> bool {
    0 <= i && i + p.len() <= s.len() && s.subrange(i, i + p.len()) == p
}

/// The first position, at `i` or later, where `p` occurs in `s`.
pub open spec fn first_occurrence_from(s: Seq<char>, p: Seq<char>, i: nat) -> Option<nat>
    decreases s.len() + 1 - i,
{
    if i + p.len() > s.len() {
        None
    } else if occurs_at(s, p, i as int) {
        Some(i)
    } else {
        first_occurrence_from(s, p, i + 1)
    }
}

/// The first position where `p` occurs in `s`.
pub open spec fn first_occurrence(s: Seq<char>, p: Seq<char>) -> Option<nat> {
    first_occurrence_from(s, p, 0)
}

/// Whether `p` occurs in `s` at position `i`.
pub fn occurs_at_exec(s: &Vec<char>, p: &Vec<char>, i: usize) -> (r: bool)
    ensures
        r == occurs_at(s@, p@, i as int),
{
    if p.len() > s.len() || i > s.len() - p.len() {
        return false;
    }
    let mut j: usize = 0;
    while j < p.len()
        invariant
            i + p@.len() <= s@.len(),
            s@.len() == s.len(),
            j <= p@.len(),
            forall|k: int| 0 <= k < j ==> s@[i + k] == p@[k],
        decreases p@.len() - j,
    {
        if s[i + j] != p[j] {
            assert(s@.subrange(i as int, i + p@.len())[j as int] == s@[i + j]);
            return false;
        }
        j = j + 1;
    }
    assert(s@.subrange(i as int, i + p@.len()) =~= p@);
    true
}

/// The first position where `p` occurs in `s`.
pub fn find(s: &Vec<char>, p: &Vec<char>) -> (r: Option<usize>)
    ensures
        r matches Some(k) ==> first_occurrence(s@, p@) == Some(k as nat) && occurs_at(
            s@,
            p@,
            k as int,
        ),
        r is None ==> first_occurrence(s@, p@) is None,
{
    if p.len() > s.len() {
        return None;
    }
    let last = s.len() - p.len();
    let mut i: usize = 0;
    loop
        invariant
            last + p@.len() == s@.len(),
            i <= last,
            first_occurrence(s@, p@) == first_occurrence_from(s@, p@, i as nat),
        decreases last - i,
    {
        if occurs_at_exec(s, p, i) {
            return Some(i);
        }
        if i == last {
            assert(first_occurrence_from(s@, p@, (i + 1) as nat) is None);
            return None;
        }
        i = i + 1;
    }
}

/// `s` begins with `p`.
pub open spec fn begins_with(s: Seq<char>, p: Seq<char>) -> bool {
    p.len() <= s.len() && s.take(p.len() as int) == p
}

/// Whether `s` begins with `p`.
pub fn starts_with(s: &Vec<char>, p: &Vec<char>) -> (r: bool)
    ensures
        r == begins_with(s@, p@),
{
    let r = occurs_at_exec(s, p, 0);
    assert(s@.subrange(0, p@.len() as int) == s@.take(p@.len() as int));
    r
}

/// Whether `a` and `b` hold the same characters.
pub fn same_text(a: &str, b: &str) -> (r: bool)
    ensures
        r == (a@ == b@),
{
    let x = chars_of(a);
    let y = chars_of(b);
    if x.len() != y.len() {
        return false;
    }
    let mut i: usize = 0;
    while i < x.len()
        invariant
            x@ == a@,
            y@ == b@,
            x@.len() == y@.len(),
            i <= x@.len(),
            forall|j: int| 0 <= j < i ==> x@[j] == y@[j],
        decreases x@.len() - i,
    {
        if x[i] != y[i] {
            assert(x@[i as int] != y@[i as int]);
            return false;
        }
        i = i + 1;
    }
    assert(x@ =~= y@);
    true
}

/// Where `p` occurs at `t` and nowhere before, its first occurrence is `t`.
pub proof fn lemma_first_occurrence_at(s: Seq<char>, p: Seq<char>, t: nat)
    requires
        occurs_at(s, p, t as int),
        forall|q: int| 0 <= q < t ==> !#[trigger] occurs_at(s, p, q),
    ensures
        first_occurrence(s, p) == Some(t),
{
    lemma_first_occurrence_from(s, p, t, 0);
}

proof fn lemma_first_occurrence_from(s: Seq<char>, p: Seq<char>, t: nat, i: nat)
    requires
        i <= t,
        occurs_at(s, p, t as int),
        forall|q: int| 0 <= q < t ==> !#[trigger] occurs_at(s, p, q),
    ensures
        first_occurrence_from(s, p, i) == Some(t),
    decreases t - i,
{
    if i < t {
        assert(!occurs_at(s, p, i as int));
        lemma_first_occurrence_from(s, p, t, i + 1);
    }
}

} // verus!
