//! Text as sequences of characters: searching, cutting, splitting, joining and
//! rendering numbers.
//!
//! The specifications read a string as the sequence of its characters. Every
//! operation here has the meaning of the method of the same purpose on `str`.

use vstd::prelude::*;

verus! {

// ── Strings and their characters ─────────────────────────────────────────────

/// `String::push` adds one character at the end of the string.
pub assume_specification[ String::push ](s: &mut String, c: char)
    ensures
        final(s)@ == old(s)@.push(c),
;

/// The characters of `s`, in order.
pub fn chars_of(s: &str) -> (r: Vec<char>)
    ensures
        r@ == s@,
{
    let mut out: Vec<char> = Vec::new();
    for c in it: s.chars()
        invariant
            out@ == s@.take(it.index() as int),
            it.seq() == s@,
    {
        out.push(c);
    }
    out
}

/// The string that the characters of `cs` from `from` up to `to` make.
pub fn string_of(cs: &Vec<char>, from: usize, to: usize) -> (r: String)
    requires
        from <= to <= cs@.len(),
    ensures
        r@ == cs@.subrange(from as int, to as int),
{
    let mut out: String = String::new();
    let mut i: usize = from;
    while i < to
        invariant
            from <= i <= to <= cs@.len(),
            out@ == cs@.subrange(from as int, i as int),
        decreases to - i,
    {
        out.push(cs[i]);
        i = i + 1;
    }
    out
}

/// The texts that a sequence of strings holds.
pub open spec fn texts(v: Seq<String>) -> Seq<Seq<char>> {
    Seq::new(v.len(), |i: int| v[i]@)
}

/// The texts that a sequence of string slices holds.
pub open spec fn slice_texts(v: Seq<&'static str>) -> Seq<Seq<char>> {
    Seq::new(v.len(), |i: int| v[i]@)
}

/// The text that an optional string holds.
pub open spec fn optional_text(s: Option<String>) -> Option<Seq<char>> {
    match s {
        Some(t) => Some(t@),
        None => None,
    }
}

/// The text that an optional string slice holds.
pub open spec fn optional_slice_text(s: Option<&str>) -> Option<Seq<char>> {
    match s {
        Some(t) => Some(t@),
        None => None,
    }
}

/// The strings that hold the texts of `parts`.
pub fn owned(parts: &Vec<&'static str>) -> (r: Vec<String>)
    ensures
        texts(r@) == slice_texts(parts@),
{
    let mut out: Vec<String> = Vec::new();
    let mut i: usize = 0;
    while i < parts.len()
        invariant
            i <= parts@.len(),
            out@.len() == i,
            forall|k: int| 0 <= k < i ==> (#[trigger] out@[k])@ == parts@[k]@,
        decreases parts@.len() - i,
    {
        out.push(parts[i].to_owned());
        i = i + 1;
    }
    assert(texts(out@) =~= slice_texts(parts@));
    out
}

/// Copies of the strings of `parts`, in order.
pub fn copies(parts: &Vec<String>) -> (r: Vec<String>)
    ensures
        texts(r@) == texts(parts@),
{
    let mut out: Vec<String> = Vec::new();
    let mut i: usize = 0;
    while i < parts.len()
        invariant
            i <= parts@.len(),
            out@.len() == i,
            forall|k: int| 0 <= k < i ==> (#[trigger] out@[k])@ == parts@[k]@,
        decreases parts@.len() - i,
    {
        out.push(parts[i].clone());
        i = i + 1;
    }
    assert(texts(out@) =~= texts(parts@));
    out
}

/// Whether two texts are equal.
pub fn same_text(a: &str, b: &str) -> (r: bool)
    ensures
        r == (a@ == b@),
{
    let x: Vec<char> = chars_of(a);
    let y: Vec<char> = chars_of(b);
    if x.len() != y.len() {
        return false;
    }
    let mut i: usize = 0;
    while i < x.len()
        invariant
            i <= x@.len(),
            x@.len() == y@.len(),
            forall|k: int| 0 <= k < i ==> x@[k] == y@[k],
            x@ == a@,
            y@ == b@,
        decreases x@.len() - i,
    {
        if x[i] != y[i] {
            assert(a@[i as int] != b@[i as int]);
            return false;
        }
        i = i + 1;
    }
    assert(a@ =~= b@);
    true
}

// ── Searching ────────────────────────────────────────────────────────────────

/// Whether `p` stands in `s` at position `i`.
pub open spec fn occurs_at(s: Seq<char>, p: Seq<char>, i: int) -> bool {
    &&& 0 <= i
    &&& i + p.len() <= s.len()
    &&& s.subrange(i, i + p.len()) == p
}

/// Whether `p` stands somewhere in `s`.
pub open spec fn contains_text(s: Seq<char>, p: Seq<char>) -> bool {
    exists|i: int| #[trigger] occurs_at(s, p, i)
}

/// The first position from `from` on at which `p` stands in `s`.
pub open spec fn first_at(s: Seq<char>, p: Seq<char>, from: int) -> Option<int>
    decreases s.len() + 1 - from,
{
    if from < 0 || from + p.len() > s.len() {
        None
    } else if occurs_at(s, p, from) {
        Some(from)
    } else {
        first_at(s, p, from + 1)
    }
}

/// `first_at` finds a position where there is one, and the smallest.
pub proof fn lemma_first_at(s: Seq<char>, p: Seq<char>, from: int)
    requires
        0 <= from,
    ensures
        match first_at(s, p, from) {
            Some(i) => from <= i && occurs_at(s, p, i) && forall|k: int|
                from <= k < i ==> !#[trigger] occurs_at(s, p, k),
            None => forall|k: int| from <= k ==> !#[trigger] occurs_at(s, p, k),
        },
    decreases s.len() + 1 - from,
{
    if from + p.len() <= s.len() && !occurs_at(s, p, from) {
        lemma_first_at(s, p, from + 1);
    }
}

/// Whether `p` stands in `s` at position `i`.
fn stands_at(s: &Vec<char>, p: &Vec<char>, i: usize) -> (r: bool)
    requires
        i + p@.len() <= s@.len(),
    ensures
        r == occurs_at(s@, p@, i as int),
{
    let n: usize = s.len();
    let mut k: usize = 0;
    while k < p.len()
        invariant
            n == s@.len(),
            k <= p@.len(),
            i + p@.len() <= n,
            forall|j: int| 0 <= j < k ==> s@[i + j] == p@[j],
        decreases p@.len() - k,
    {
        if s[i + k] != p[k] {
            assert(s@.subrange(i as int, i + p@.len())[k as int] != p@[k as int]);
            return false;
        }
        k = k + 1;
    }
    assert(s@.subrange(i as int, i + p@.len()) =~= p@);
    true
}

/// The first position from `from` on at which `p` stands in `s`.
pub fn find_from(s: &Vec<char>, p: &Vec<char>, from: usize) -> (r: Option<usize>)
    requires
        from <= s@.len(),
    ensures
        match r {
            Some(i) => first_at(s@, p@, from as int) == Some(i as int),
            None => first_at(s@, p@, from as int) is None,
        },
{
    let n: usize = s.len();
    let m: usize = p.len();
    let mut i: usize = from;
    while i <= n && m <= n - i
        invariant
            n == s@.len(),
            m == p@.len(),
            i <= n + 1,
            first_at(s@, p@, from as int) == first_at(s@, p@, i as int),
        decreases n + 1 - i,
    {
        if stands_at(s, p, i) {
            return Some(i);
        }
        if i == n {
            assert(first_at(s@, p@, i + 1) is None);
            return None;
        }
        i = i + 1;
    }
    None
}

/// Whether `p` stands somewhere in `s`.
pub fn contains(s: &str, p: &str) -> (r: bool)
    ensures
        r == contains_text(s@, p@),
{
    let cs: Vec<char> = chars_of(s);
    let ps: Vec<char> = chars_of(p);
    proof {
        lemma_first_at(s@, p@, 0);
    }
    match find_from(&cs, &ps, 0) {
        Some(_) => true,
        None => {
            assert forall|i: int| !#[trigger] occurs_at(s@, p@, i) by {}
            false
        },
    }
}

/// Whether `s` begins with `p`.
pub open spec fn begins_with(s: Seq<char>, p: Seq<char>) -> bool {
    occurs_at(s, p, 0)
}

/// Whether `s` begins with `p`.
pub fn starts_with(s: &str, p: &str) -> (r: bool)
    ensures
        r == begins_with(s@, p@),
{
    let cs: Vec<char> = chars_of(s);
    let ps: Vec<char> = chars_of(p);
    if ps.len() > cs.len() {
        return false;
    }
    stands_at(&cs, &ps, 0)
}

// ── Replacing ────────────────────────────────────────────────────────────────

/// `s` with every occurrence of `p`, taken from the left without overlap,
/// replaced by `r`. An empty `p` replaces nothing.
pub open spec fn replace_all(s: Seq<char>, p: Seq<char>, r: Seq<char>) -> Seq<char>
    decreases s.len(),
{
    match first_at(s, p, 0) {
        Some(i) => if p.len() == 0 || i < 0 || i + p.len() > s.len() {
            s
        } else {
            s.take(i) + r + replace_all(s.skip(i + p.len()), p, r)
        },
        None => s,
    }
}

/// Searching from `from` is searching the rest that begins there.
proof fn lemma_first_at_skip(s: Seq<char>, p: Seq<char>, base: int, from: int)
    requires
        0 <= base <= from <= s.len() + 1,
        base <= s.len(),
    ensures
        first_at(s, p, from) == (match first_at(s.skip(base), p, from - base) {
            Some(i) => Some(i + base),
            None => None,
        }),
    decreases s.len() + 1 - from,
{
    let t = s.skip(base);
    if from + p.len() <= s.len() {
        assert(s.subrange(from, from + p.len()) =~= t.subrange(
            from - base,
            from - base + p.len(),
        ));
        if !occurs_at(s, p, from) {
            lemma_first_at_skip(s, p, base, from + 1);
        }
    }
}

/// `s` with every occurrence of the non-empty text `p`, taken from the left
/// without overlap, replaced by `r`.
pub fn replace(s: &str, p: &str, r: &str) -> (out: String)
    requires
        p@.len() > 0,
    ensures
        out@ == replace_all(s@, p@, r@),
{
    let cs: Vec<char> = chars_of(s);
    let ps: Vec<char> = chars_of(p);
    let rs: Vec<char> = chars_of(r);
    let n: usize = cs.len();
    let mut out: String = String::new();
    let mut base: usize = 0;
    assert(s@.skip(0) =~= s@);
    assert(out@ + replace_all(s@.skip(0), p@, r@) =~= replace_all(s@, p@, r@));
    loop
        invariant
            cs@ == s@,
            ps@ == p@,
            rs@ == r@,
            p@.len() > 0,
            n == cs@.len(),
            base <= n,
            out@ + replace_all(s@.skip(base as int), p@, r@) == replace_all(s@, p@, r@),
        decreases cs@.len() - base,
    {
        let ghost rest = s@.skip(base as int);
        proof {
            lemma_first_at_skip(s@, p@, base as int, base as int);
            lemma_first_at(s@, p@, base as int);
            lemma_first_at(rest, p@, 0);
        }
        match find_from(&cs, &ps, base) {
            Some(i) => {
                let ghost before = out@;
                push_chars(&mut out, &cs, base, i);
                push_chars(&mut out, &rs, 0, rs.len());
                base = i + ps.len();
                proof {
                    assert(rest.take(first_at(rest, p@, 0)->0) =~= s@.subrange(
                        s@.len() - rest.len(),
                        i as int,
                    ));
                    assert(rest.skip(first_at(rest, p@, 0)->0 + p@.len()) =~= s@.skip(base as int));
                    assert(r@.subrange(0, r@.len() as int) =~= r@);
                    assert(out@ + replace_all(s@.skip(base as int), p@, r@) =~= before
                        + replace_all(rest, p@, r@));
                }
            },
            None => {
                push_chars(&mut out, &cs, base, n);
                assert(s@.subrange(base as int, s@.len() as int) =~= rest);
                return out;
            },
        }
    }
}

/// Adds the characters of `cs` from `from` up to `to` at the end of `out`.
fn push_chars(out: &mut String, cs: &Vec<char>, from: usize, to: usize)
    requires
        from <= to <= cs@.len(),
    ensures
        final(out)@ == old(out)@ + cs@.subrange(from as int, to as int),
{
    let ghost before = out@;
    let mut i: usize = from;
    assert(before + cs@.subrange(from as int, from as int) =~= before);
    while i < to
        invariant
            from <= i <= to <= cs@.len(),
            out@ == before + cs@.subrange(from as int, i as int),
        decreases to - i,
    {
        out.push(cs[i]);
        assert(cs@.subrange(from as int, i as int).push(cs@[i as int]) =~= cs@.subrange(
            from as int,
            i + 1,
        ));
        assert(out@ =~= before + cs@.subrange(from as int, i + 1));
        i = i + 1;
    }
}

// ── Trimming ─────────────────────────────────────────────────────────────────

/// Whether `c` has the Unicode property `White_Space`.
pub open spec fn white_space(c: char) -> bool {
    ||| '\u{9}' <= c <= '\u{d}'
    ||| c == ' '
    ||| c == '\u{85}'
    ||| c == '\u{a0}'
    ||| c == '\u{1680}'
    ||| '\u{2000}' <= c <= '\u{200a}'
    ||| c == '\u{2028}'
    ||| c == '\u{2029}'
    ||| c == '\u{202f}'
    ||| c == '\u{205f}'
    ||| c == '\u{3000}'
}

/// Whether `c` has the Unicode property `White_Space`.
pub fn is_white_space(c: char) -> (r: bool)
    ensures
        r == white_space(c),
{
    ('\u{9}' <= c && c <= '\u{d}') || c == ' ' || c == '\u{85}' || c == '\u{a0}' || c
        == '\u{1680}' || ('\u{2000}' <= c && c <= '\u{200a}') || c == '\u{2028}' || c
        == '\u{2029}' || c == '\u{202f}' || c == '\u{205f}' || c == '\u{3000}'
}

/// `s` without the white space at its beginning.
pub open spec fn trimmed_start(s: Seq<char>) -> Seq<char>
    decreases s.len(),
{
    if s.len() > 0 && white_space(s[0]) {
        trimmed_start(s.skip(1))
    } else {
        s
    }
}

/// `s` without the white space at its end.
pub open spec fn trimmed_end(s: Seq<char>) -> Seq<char>
    decreases s.len(),
{
    if s.len() > 0 && white_space(s.last()) {
        trimmed_end(s.drop_last())
    } else {
        s
    }
}

/// `s` without the white space around it.
pub open spec fn trimmed(s: Seq<char>) -> Seq<char> {
    trimmed_end(trimmed_start(s))
}

/// `s` without the white space around it.
pub fn trim(s: &str) -> (r: String)
    ensures
        r@ == trimmed(s@),
{
    let cs: Vec<char> = chars_of(s);
    let n: usize = cs.len();
    let mut from: usize = 0;
    assert(s@.skip(0) =~= s@);
    while from < n && is_white_space(cs[from])
        invariant
            n == cs@.len(),
            cs@ == s@,
            from <= n,
            trimmed_start(s@.skip(from as int)) == trimmed_start(s@),
        decreases n - from,
    {
        assert(s@.skip(from as int).skip(1) =~= s@.skip(from + 1));
        from = from + 1;
    }
    let mut to: usize = n;
    assert(s@.skip(from as int) =~= s@.subrange(from as int, n as int));
    while to > from && is_white_space(cs[to - 1])
        invariant
            cs@ == s@,
            from <= to <= cs@.len(),
            trimmed_end(s@.subrange(from as int, to as int)) == trimmed(s@),
        decreases to,
    {
        assert(s@.subrange(from as int, to as int).drop_last() =~= s@.subrange(
            from as int,
            to - 1,
        ));
        to = to - 1;
    }
    string_of(&cs, from, to)
}

/// Trimming at the beginning takes off a run of white space.
pub proof fn lemma_trimmed_start(s: Seq<char>) -> (k: int)
    ensures
        0 <= k <= s.len(),
        trimmed_start(s) == s.skip(k),
        forall|i: int| 0 <= i < k ==> white_space(s[i]),
        k < s.len() ==> !white_space(s[k]),
    decreases s.len(),
{
    if s.len() > 0 && white_space(s[0]) {
        let j = lemma_trimmed_start(s.skip(1));
        assert(s.skip(1).skip(j) =~= s.skip(j + 1));
        assert forall|i: int| 0 <= i < j + 1 implies white_space(s[i]) by {
            if i > 0 {
                assert(s.skip(1)[i - 1] == s[i]);
            }
        }
        j + 1
    } else {
        assert(s.skip(0) =~= s);
        0
    }
}

/// Trimming at the end takes off a run of white space.
pub proof fn lemma_trimmed_end(s: Seq<char>) -> (k: int)
    ensures
        0 <= k <= s.len(),
        trimmed_end(s) == s.take(k),
        forall|i: int| k <= i < s.len() ==> white_space(s[i]),
        k > 0 ==> !white_space(s[k - 1]),
    decreases s.len(),
{
    if s.len() > 0 && white_space(s.last()) {
        let j = lemma_trimmed_end(s.drop_last());
        assert(s.drop_last().take(j) =~= s.take(j));
        assert forall|i: int| j <= i < s.len() implies white_space(s[i]) by {
            if i < s.len() - 1 {
                assert(s.drop_last()[i] == s[i]);
            }
        }
        j
    } else {
        assert(s.take(s.len() as int) =~= s);
        s.len() as int
    }
}

/// Whether `s` neither begins nor ends with white space.
pub open spec fn is_trim(s: Seq<char>) -> bool {
    s.len() > 0 ==> !white_space(s[0]) && !white_space(s.last())
}

/// A trimmed text is a part of the text, and neither begins nor ends with white space.
pub proof fn lemma_trimmed(s: Seq<char>) -> (r: (int, int))
    ensures
        0 <= r.0 <= r.1 <= s.len(),
        trimmed(s) == s.subrange(r.0, r.1),
        is_trim(trimmed(s)),
{
    let a = lemma_trimmed_start(s);
    let t = trimmed_start(s);
    let b = lemma_trimmed_end(t);
    assert(t.take(b) =~= s.subrange(a, a + b));
    (a, a + b)
}

/// Trimming takes off the white space around a text that has none around itself.
pub proof fn lemma_trimmed_inside(before: Seq<char>, s: Seq<char>, after: Seq<char>)
    requires
        s.len() > 0,
        is_trim(s),
        forall|i: int| 0 <= i < before.len() ==> white_space(before[i]),
        forall|i: int| 0 <= i < after.len() ==> white_space(after[i]),
    ensures
        trimmed(before + s + after) == s,
{
    let all = before + s + after;
    let a = lemma_trimmed_start(all);
    assert(all[before.len() as int] == s[0]);
    if a < before.len() {
        assert(all[a] == before[a]);
    }
    assert(a == before.len());
    let t = trimmed_start(all);
    assert(t =~= s + after);
    let b = lemma_trimmed_end(t);
    assert(t[s.len() - 1] == s.last());
    if b > s.len() {
        assert(t[b - 1] == after[b - 1 - s.len()]);
    }
    assert(b == s.len());
    assert(t.take(b) =~= s);
}

/// A text that neither begins nor ends with white space is trimmed to itself.
pub proof fn lemma_trimmed_twice(s: Seq<char>)
    requires
        is_trim(s),
    ensures
        trimmed(s) == s,
{
    if s.len() > 0 {
        lemma_trimmed_inside(Seq::empty(), s, Seq::empty());
        assert(Seq::<char>::empty() + s + Seq::<char>::empty() =~= s);
    }
}

/// What stands in a part of `s` stands in `s`.
pub proof fn lemma_part_occurs(s: Seq<char>, p: Seq<char>, from: int, to: int, i: int)
    requires
        0 <= from <= to <= s.len(),
        occurs_at(s.subrange(from, to), p, i),
    ensures
        occurs_at(s, p, from + i),
        from + i + p.len() <= to,
{
    assert(s.subrange(from + i, from + i + p.len()) =~= s.subrange(from, to).subrange(
        i,
        i + p.len(),
    ));
}

/// A part of `s` holds no text that `s` does not hold.
pub proof fn lemma_part_contains(s: Seq<char>, p: Seq<char>, from: int, to: int)
    requires
        0 <= from <= to <= s.len(),
        contains_text(s.subrange(from, to), p),
    ensures
        contains_text(s, p),
{
    let i = choose|i: int| #[trigger] occurs_at(s.subrange(from, to), p, i);
    lemma_part_occurs(s, p, from, to, i);
}

/// A text that is not there is not replaced.
pub proof fn lemma_replace_nothing(s: Seq<char>, p: Seq<char>, r: Seq<char>)
    requires
        !contains_text(s, p),
    ensures
        replace_all(s, p, r) == s,
{
    lemma_first_at(s, p, 0);
}

/// Replacing `p` by `r` leaves no `p` and brings in no other text `q` either, where `r`
/// does not hold the first character of that text, does not begin with the end of it, and
/// holds not only characters of it.
pub proof fn lemma_replace_brings_in_nothing(
    s: Seq<char>,
    p: Seq<char>,
    r: Seq<char>,
    q: Seq<char>,
    other: int,
)
    requires
        p.len() > 0,
        q.len() > 0,
        0 <= other < r.len(),
        forall|b: int| 0 <= b < q.len() ==> r[other] != #[trigger] q[b],
        forall|a: int| 0 <= a < r.len() ==> #[trigger] r[a] != q[0],
        forall|b: int| 0 < b < q.len() ==> !begins_with(r, #[trigger] q.skip(b)),
        contains_text(replace_all(s, p, r), q),
    ensures
        contains_text(s, q),
        p != q,
    decreases s.len(),
{
    let out = replace_all(s, p, r);
    let i = choose|i: int| #[trigger] occurs_at(out, q, i);
    lemma_first_at(s, p, 0);
    match first_at(s, p, 0) {
        Some(k) => {
            let tail = s.skip(k + p.len());
            let rest = replace_all(tail, p, r);
            assert(out =~= s.take(k) + r + rest);
            if i + q.len() <= k {
                assert(s.subrange(i, i + q.len()) =~= out.subrange(i, i + q.len()));
                assert(occurs_at(s, q, i));
            } else if i >= k + r.len() {
                let j = i - k - r.len();
                assert(rest.subrange(j, j + q.len()) =~= out.subrange(i, i + q.len()));
                assert(occurs_at(rest, q, j));
                lemma_replace_brings_in_nothing(tail, p, r, q, other);
                assert(tail =~= s.subrange(k + p.len(), s.len() as int));
                lemma_part_contains(s, q, k + p.len(), s.len() as int);
            } else if i < k && i + q.len() <= k + r.len() {
                let tail_of_q = q.skip(k - i);
                assert forall|m: int| 0 <= m < tail_of_q.len() implies r[m] == tail_of_q[m] by {
                    assert(out.subrange(i, i + q.len())[k - i + m] == q[k - i + m]);
                    assert(out[k + m] == r[m]);
                }
                assert(r.subrange(0, tail_of_q.len() as int) =~= tail_of_q);
            } else {
                let m = if i >= k {
                    i
                } else {
                    k + other
                };
                assert(out[m] == r[m - k]);
                assert(out.subrange(i, i + q.len())[m - i] == q[m - i]);
            }
        },
        None => {
            assert(occurs_at(s, q, i));
        },
    }
}

/// Whether each `c` in `s` is the beginning of `p` or of `q`.
pub open spec fn only_begins(s: Seq<char>, c: char, p: Seq<char>, q: Seq<char>) -> bool {
    forall|i: int| 0 <= i < s.len() && #[trigger] s[i] == c ==> occurs_at(s, p, i) || occurs_at(s, q, i)
}

/// Where each `c` is the beginning of `p` or of `q`, and `r` holds none, replacing `p` by
/// `r` leaves each `c` as the beginning of `q`.
pub proof fn lemma_replace_leaves_the_other(
    s: Seq<char>,
    c: char,
    p: Seq<char>,
    q: Seq<char>,
    r: Seq<char>,
)
    requires
        p.len() > 0,
        q.len() > 0,
        p[0] == c,
        forall|b: int| 0 < b < q.len() ==> #[trigger] q[b] != c,
        forall|a: int| 0 <= a < r.len() ==> #[trigger] r[a] != c,
        only_begins(s, c, p, q),
    ensures
        only_begins(replace_all(s, p, r), c, q, q),
    decreases s.len(),
{
    let out = replace_all(s, p, r);
    lemma_first_at(s, p, 0);
    match first_at(s, p, 0) {
        Some(k) => {
            let from = k + p.len();
            let tail = s.skip(from);
            let rest = replace_all(tail, p, r);
            assert(out =~= s.take(k) + r + rest);
            assert(s.subrange(k, k + p.len())[0] == c);
            assert forall|j: int| 0 <= j < tail.len() && #[trigger] tail[j] == c implies occurs_at(
                tail,
                p,
                j,
            ) || occurs_at(tail, q, j) by {
                assert(s[from + j] == c);
                if occurs_at(s, p, from + j) {
                    assert(tail.subrange(j, j + p.len()) =~= s.subrange(
                        from + j,
                        from + j + p.len(),
                    ));
                } else {
                    assert(tail.subrange(j, j + q.len()) =~= s.subrange(
                        from + j,
                        from + j + q.len(),
                    ));
                }
            }
            lemma_replace_leaves_the_other(tail, c, p, q, r);
            assert forall|i: int| 0 <= i < out.len() && #[trigger] out[i] == c implies occurs_at(
                out,
                q,
                i,
            ) by {
                if i < k {
                    assert(s[i] == c);
                    assert(!occurs_at(s, p, i));
                    if i + q.len() > k {
                        assert(s.subrange(i, i + q.len())[k - i] == s[k]);
                    }
                    assert(out.subrange(i, i + q.len()) =~= s.subrange(i, i + q.len()));
                } else if i < k + r.len() {
                    assert(out[i] == r[i - k]);
                } else {
                    let j = i - k - r.len();
                    assert(rest[j] == c);
                    assert(out.subrange(i, i + q.len()) =~= rest.subrange(j, j + q.len()));
                }
            }
        },
        None => {},
    }
}

/// What follows the prefix `p` of `s`, where `s` begins with it.
pub open spec fn without_prefix(s: Seq<char>, p: Seq<char>) -> Option<Seq<char>> {
    if begins_with(s, p) {
        Some(s.skip(p.len() as int))
    } else {
        None
    }
}

/// What follows the prefix `p` of `s`, where `s` begins with it.
pub fn strip_prefix(s: &str, p: &str) -> (r: Option<String>)
    ensures
        optional_text(r) == without_prefix(s@, p@),
{
    if !starts_with(s, p) {
        return None;
    }
    let cs: Vec<char> = chars_of(s);
    let ps: Vec<char> = chars_of(p);
    assert(cs@.subrange(ps@.len() as int, cs@.len() as int) =~= s@.skip(p@.len() as int));
    Some(string_of(&cs, ps.len(), cs.len()))
}

/// At most the first `n` characters of `s`.
pub open spec fn at_most(s: Seq<char>, n: int) -> Seq<char> {
    if s.len() <= n {
        s
    } else {
        s.take(n)
    }
}

/// At most the first `n` characters of `s`.
pub fn first_chars(s: &str, n: usize) -> (r: String)
    ensures
        r@ == at_most(s@, n as int),
{
    let cs: Vec<char> = chars_of(s);
    let to: usize = if cs.len() <= n {
        cs.len()
    } else {
        n
    };
    assert(cs@.subrange(0, to as int) =~= at_most(s@, n as int));
    string_of(&cs, 0, to)
}

// ── Lines ────────────────────────────────────────────────────────────────────

/// How many characters of `s` stand before its first line feed.
pub open spec fn line_length(s: Seq<char>) -> int
    decreases s.len(),
{
    if s.len() == 0 || s[0] == '\n' {
        0
    } else {
        1 + line_length(s.skip(1))
    }
}

/// `s` without one carriage return at its end.
pub open spec fn without_return(s: Seq<char>) -> Seq<char> {
    if s.len() > 0 && s.last() == '\r' {
        s.drop_last()
    } else {
        s
    }
}

/// The lines of `s`: each ends with a line feed, which is dropped together with a
/// carriage return before it, or with the text.
pub open spec fn lines_of(s: Seq<char>) -> Seq<Seq<char>>
    decreases s.len(),
{
    let n = line_length(s);
    if s.len() == 0 {
        Seq::empty()
    } else if n < 0 || n >= s.len() {
        seq![s]
    } else {
        seq![without_return(s.take(n))] + lines_of(s.skip(n + 1))
    }
}

/// `line_length` is the position of the first line feed, or the length.
pub proof fn lemma_line_length(s: Seq<char>, n: int)
    requires
        0 <= n <= s.len(),
        forall|k: int| 0 <= k < n ==> s[k] != '\n',
        n < s.len() ==> s[n] == '\n',
    ensures
        line_length(s) == n,
    decreases s.len(),
{
    if n > 0 {
        lemma_line_length(s.skip(1), n - 1);
    }
}

/// The lines of `s`.
pub fn lines(s: &str) -> (r: Vec<String>)
    ensures
        texts(r@) == lines_of(s@),
{
    let cs: Vec<char> = chars_of(s);
    let n: usize = cs.len();
    let mut out: Vec<String> = Vec::new();
    let mut from: usize = 0;
    let mut i: usize = 0;
    assert(s@.skip(0) =~= s@);
    assert(texts(out@) + lines_of(s@.skip(0)) =~= lines_of(s@));
    while i < n
        invariant
            n == cs@.len(),
            cs@ == s@,
            from <= i <= n,
            forall|k: int| from <= k < i ==> s@[k] != '\n',
            texts(out@) + lines_of(s@.skip(from as int)) == lines_of(s@),
        decreases n - i,
    {
        if cs[i] == '\n' {
            let to: usize = if i > from && cs[i - 1] == '\r' {
                i - 1
            } else {
                i
            };
            let line: String = string_of(&cs, from, to);
            let ghost done = texts(out@);
            out.push(line);
            proof {
                let rest = s@.skip(from as int);
                lemma_line_length(rest, i - from);
                assert(rest.take(i - from) =~= s@.subrange(from as int, i as int));
                assert(line@ =~= without_return(rest.take(i - from)));
                assert(rest.skip(i - from + 1) =~= s@.skip(i + 1));
                assert(texts(out@) =~= done.push(line@));
                assert(texts(out@) + lines_of(s@.skip(i + 1)) =~= done + lines_of(rest));
            }
            from = i + 1;
        }
        i = i + 1;
    }
    let ghost done = texts(out@);
    let ghost rest = s@.skip(from as int);
    if from < n {
        let line: String = string_of(&cs, from, n);
        out.push(line);
        proof {
            lemma_line_length(rest, n - from);
            assert(line@ =~= rest);
            assert(texts(out@) =~= done + lines_of(rest));
        }
    } else {
        assert(texts(out@) =~= done + lines_of(rest));
    }
    out
}

/// The texts of `parts` with `sep` between each two.
pub open spec fn joined(parts: Seq<Seq<char>>, sep: Seq<char>) -> Seq<char>
    decreases parts.len(),
{
    if parts.len() == 0 {
        Seq::empty()
    } else if parts.len() == 1 {
        parts[0]
    } else {
        joined(parts.drop_last(), sep) + sep + parts.last()
    }
}

/// The texts of `parts` with `sep` between each two.
pub fn join(parts: &Vec<String>, sep: &str) -> (r: String)
    ensures
        r@ == joined(texts(parts@), sep@),
{
    let mut out: String = String::new();
    let mut i: usize = 0;
    assert(texts(parts@).take(0) =~= Seq::empty());
    while i < parts.len()
        invariant
            i <= parts@.len(),
            out@ == joined(texts(parts@).take(i as int), sep@),
        decreases parts@.len() - i,
    {
        let ghost head = texts(parts@).take(i + 1);
        assert(head.drop_last() =~= texts(parts@).take(i as int));
        if i > 0 {
            out.append(sep);
        }
        out.append(parts[i].as_str());
        assert(out@ =~= joined(head, sep@));
        i = i + 1;
    }
    assert(texts(parts@).take(i as int) =~= texts(parts@));
    out
}

/// No line holds a line feed.
pub proof fn lemma_lines_hold_no_feed(s: Seq<char>)
    ensures
        forall|i: int, k: int|
            0 <= i < lines_of(s).len() && 0 <= k < lines_of(s)[i].len()
                ==> #[trigger] lines_of(s)[i][k] != '\n',
    decreases s.len(),
{
    let n = lemma_first_feed(s);
    if s.len() > 0 {
        if n == s.len() {
            assert(lines_of(s) =~= seq![s]);
        } else {
            let rest = lines_of(s.skip(n + 1));
            lemma_lines_hold_no_feed(s.skip(n + 1));
            assert forall|i: int, k: int|
                0 <= i < lines_of(s).len() && 0 <= k < lines_of(s)[i].len() implies #[trigger] lines_of(
                s,
            )[i][k] != '\n' by {
                if i == 0 {
                    assert(lines_of(s)[0] == without_return(s.take(n)));
                    assert(lines_of(s)[0][k] == s[k]);
                } else {
                    assert(lines_of(s)[i] == rest[i - 1]);
                }
            }
        }
    }
}

/// `line_length` is the position of the first line feed, or the length.
proof fn lemma_first_feed(s: Seq<char>) -> (n: int)
    ensures
        n == line_length(s),
        0 <= n <= s.len(),
        forall|k: int| 0 <= k < n ==> s[k] != '\n',
        n < s.len() ==> s[n] == '\n',
    decreases s.len(),
{
    if s.len() == 0 || s[0] == '\n' {
        0
    } else {
        let n = lemma_first_feed(s.skip(1));
        assert forall|k: int| 0 <= k < n + 1 implies s[k] != '\n' by {
            if k > 0 {
                assert(s.skip(1)[k - 1] == s[k]);
            }
        }
        n + 1
    }
}

/// Joining puts the first text before the others.
proof fn lemma_joined_front(parts: Seq<Seq<char>>, sep: Seq<char>)
    requires
        parts.len() >= 2,
    ensures
        joined(parts, sep) == parts[0] + sep + joined(parts.skip(1), sep),
    decreases parts.len(),
{
    let rest = parts.skip(1);
    if parts.len() == 2 {
        assert(joined(parts.drop_last(), sep) == parts[0]);
        assert(joined(rest, sep) == parts[1]);
    } else {
        lemma_joined_front(parts.drop_last(), sep);
        assert(parts.drop_last().skip(1) =~= rest.drop_last());
        assert(joined(parts, sep) =~= parts[0] + sep + joined(rest, sep));
    }
}

/// Lines that are joined by line feeds are the lines of the text, where none is empty,
/// none holds a line feed, and none ends with a carriage return.
pub proof fn lemma_lines_of_joined(parts: Seq<Seq<char>>)
    requires
        forall|i: int| 0 <= i < parts.len() ==> (#[trigger] parts[i]).len() > 0 && parts[i].last() != '\r',
        forall|i: int, k: int|
            0 <= i < parts.len() && 0 <= k < parts[i].len() ==> #[trigger] parts[i][k] != '\n',
    ensures
        lines_of(joined(parts, "\n"@)) == parts,
    decreases parts.len(),
{
    reveal_strlit("\n");
    let s = joined(parts, "\n"@);
    if parts.len() == 0 {
        assert(lines_of(s) =~= parts);
    } else if parts.len() == 1 {
        lemma_line_length(s, s.len() as int);
        assert(lines_of(s) =~= parts);
    } else {
        let first = parts[0];
        let rest = parts.skip(1);
        let n = first.len() as int;
        lemma_joined_front(parts, "\n"@);
        assert forall|k: int| 0 <= k < n implies s[k] != '\n' by {
            assert(s[k] == parts[0][k]);
        }
        assert(s[n] == '\n');
        lemma_line_length(s, n);
        assert(s.take(n) =~= first);
        assert(s.skip(n + 1) =~= joined(rest, "\n"@));
        assert forall|i: int, k: int|
            0 <= i < rest.len() && 0 <= k < rest[i].len() implies #[trigger] rest[i][k] != '\n' by {
            assert(rest[i][k] == parts[i + 1][k]);
        }
        assert forall|i: int| 0 <= i < rest.len() implies (#[trigger] rest[i]).len() > 0
            && rest[i].last() != '\r' by {
            assert(rest[i] == parts[i + 1]);
        }
        lemma_lines_of_joined(rest);
        assert(lines_of(s) =~= parts);
    }
}

// ── Numbers ──────────────────────────────────────────────────────────────────

/// The character of the digit `d`, in any base up to sixteen.
pub open spec fn digit(d: int) -> char {
    let digits = seq![
        '0',
        '1',
        '2',
        '3',
        '4',
        '5',
        '6',
        '7',
        '8',
        '9',
        'a',
        'b',
        'c',
        'd',
        'e',
        'f',
    ];
    digits[d]
}

/// The character of the digit `d`.
fn digit_char(d: u8) -> (c: char)
    requires
        d < 16,
    ensures
        c == digit(d as int),
{
    if d == 0 {
        '0'
    } else if d == 1 {
        '1'
    } else if d == 2 {
        '2'
    } else if d == 3 {
        '3'
    } else if d == 4 {
        '4'
    } else if d == 5 {
        '5'
    } else if d == 6 {
        '6'
    } else if d == 7 {
        '7'
    } else if d == 8 {
        '8'
    } else if d == 9 {
        '9'
    } else if d == 10 {
        'a'
    } else if d == 11 {
        'b'
    } else if d == 12 {
        'c'
    } else if d == 13 {
        'd'
    } else if d == 14 {
        'e'
    } else {
        'f'
    }
}

/// `n` in decimal, without leading zeros.
pub open spec fn decimal(n: nat) -> Seq<char>
    decreases n,
{
    if n < 10 {
        seq![digit(n as int)]
    } else {
        decimal(n / 10).push(digit((n % 10) as int))
    }
}

/// `n` in decimal, without leading zeros.
pub fn decimal_of(n: u128) -> (r: String)
    ensures
        r@ == decimal(n as nat),
    decreases n,
{
    let mut out: String = if n < 10 {
        String::new()
    } else {
        decimal_of(n / 10)
    };
    out.push(digit_char((n % 10) as u8));
    assert(n < 10 ==> out@ =~= decimal(n as nat));
    out
}

/// Digits differ in their characters.
proof fn lemma_digit_injective(a: int, b: int)
    requires
        0 <= a < 10,
        0 <= b < 10,
        digit(a) == digit(b),
    ensures
        a == b,
{
}

/// Different numbers are written differently.
pub proof fn lemma_decimal_injective(a: nat, b: nat)
    requires
        decimal(a) == decimal(b),
    ensures
        a == b,
    decreases a,
{
    lemma_decimal_length(a);
    lemma_decimal_length(b);
    if a < 10 && b < 10 {
        assert(decimal(a)[0] == digit(a as int));
        assert(decimal(b)[0] == digit(b as int));
        lemma_digit_injective(a as int, b as int);
    } else if a >= 10 && b >= 10 {
        assert(decimal(a).last() == digit((a % 10) as int));
        assert(decimal(b).last() == digit((b % 10) as int));
        lemma_digit_injective((a % 10) as int, (b % 10) as int);
        assert(decimal(a).drop_last() =~= decimal(a / 10));
        assert(decimal(b).drop_last() =~= decimal(b / 10));
        lemma_decimal_injective(a / 10, b / 10);
    }
}

/// Only numbers below ten have one digit.
proof fn lemma_decimal_length(n: nat)
    ensures
        decimal(n).len() >= 1,
        decimal(n).len() == 1 <==> n < 10,
    decreases n,
{
    if n >= 10 {
        lemma_decimal_length(n / 10);
    }
}

/// `n`, which has at most two digits, in exactly two.
pub open spec fn two_digits(n: int) -> Seq<char> {
    seq![digit(n / 10), digit(n % 10)]
}

/// Different numbers below a hundred differ in their two digits.
pub proof fn lemma_two_digits_injective(a: int, b: int)
    requires
        0 <= a < 100,
        0 <= b < 100,
        two_digits(a)[0] == two_digits(b)[0],
        two_digits(a)[1] == two_digits(b)[1],
    ensures
        a == b,
{
    lemma_digit_injective(a / 10, b / 10);
    lemma_digit_injective(a % 10, b % 10);
}

/// Adds `n` in exactly two digits at the end of `out`.
pub fn push_two_digits(out: &mut String, n: u64)
    requires
        n < 100,
    ensures
        final(out)@ == old(out)@ + two_digits(n as int),
{
    let ghost before = out@;
    out.push(digit_char((n / 10) as u8));
    out.push(digit_char((n % 10) as u8));
    assert(out@ =~= before + two_digits(n as int));
}

/// The bytes of `bs`, each as two lower-case hexadecimal digits.
pub open spec fn lower_hex(bs: Seq<u8>) -> Seq<char> {
    Seq::new(
        2 * bs.len(),
        |i: int|
            if i % 2 == 0 {
                digit(bs[i / 2] as int / 16)
            } else {
                digit(bs[i / 2] as int % 16)
            },
    )
}

/// The bytes of `bs`, each as two lower-case hexadecimal digits.
pub fn lower_hex_of(bs: &Vec<u8>) -> (r: String)
    ensures
        r@ == lower_hex(bs@),
{
    let mut out: String = String::new();
    let mut i: usize = 0;
    while i < bs.len()
        invariant
            i <= bs@.len(),
            out@ == lower_hex(bs@.take(i as int)),
        decreases bs@.len() - i,
    {
        let b: u8 = bs[i];
        out.push(digit_char(b / 16));
        out.push(digit_char(b % 16));
        assert(out@ =~= lower_hex(bs@.take(i + 1)));
        i = i + 1;
    }
    assert(bs@.take(i as int) =~= bs@);
    out
}

// ── Laws ─────────────────────────────────────────────────────────────────────

/// The texts of strings are theirs, one for one.
pub proof fn law_texts_are_those_of_the_strings(v: Seq<String>, i: int)
    requires
        0 <= i < v.len(),
    ensures
        texts(v).len() == v.len(),
        texts(v)[i] == v[i]@,
        optional_text(Some(v[i])) == Some(v[i]@),
        optional_text(None) is None,
{
}

/// A text occurs in another exactly where that is some text, the first, and some text; and
/// at the position at which the first of these ends.
pub proof fn law_occurrence_splits_the_text(s: Seq<char>, p: Seq<char>)
    ensures
        contains_text(s, p) <==> exists|a: Seq<char>, b: Seq<char>| s == #[trigger] (a + p + b),
        begins_with(s, p) <==> exists|b: Seq<char>| s == #[trigger] (p + b),
        forall|i: int| #[trigger]
            occurs_at(s, p, i) <==> 0 <= i && i + p.len() <= s.len() && forall|k: int|
                0 <= k < p.len() ==> s[i + k] == #[trigger] p[k],
{
    if contains_text(s, p) {
        let i = choose|i: int| #[trigger] occurs_at(s, p, i);
        assert(s =~= s.take(i) + p + s.skip(i + p.len()));
    }
    if exists|a: Seq<char>, b: Seq<char>| s == #[trigger] (a + p + b) {
        let (a, b) = choose|a: Seq<char>, b: Seq<char>| s == #[trigger] (a + p + b);
        let n = a.len() as int;
        assert(s.subrange(n, n + p.len()) =~= p);
        assert(occurs_at(s, p, a.len() as int));
    }
    if begins_with(s, p) {
        assert(s =~= p + s.skip(p.len() as int));
    }
    if exists|b: Seq<char>| s == #[trigger] (p + b) {
        let b = choose|b: Seq<char>| s == #[trigger] (p + b);
        assert(s.subrange(0, p.len() as int) =~= p);
    }
    assert forall|i: int| #[trigger] occurs_at(s, p, i) <==> 0 <= i && i + p.len() <= s.len()
        && forall|k: int| 0 <= k < p.len() ==> s[i + k] == #[trigger] p[k] by {
        if occurs_at(s, p, i) {
            assert forall|k: int| 0 <= k < p.len() implies s[i + k] == #[trigger] p[k] by {
                assert(s.subrange(i, i + p.len())[k] == s[i + k]);
            }
        } else if 0 <= i && i + p.len() <= s.len() {
            if forall|k: int| 0 <= k < p.len() ==> s[i + k] == #[trigger] p[k] {
                assert(s.subrange(i, i + p.len()) =~= p);
            }
        }
    }
}

/// What follows a prefix is what the prefix is put before.
pub proof fn law_prefix_comes_off(p: Seq<char>, rest: Seq<char>, s: Seq<char>)
    ensures
        without_prefix(p + rest, p) == Some(rest),
        without_prefix(s, p) is None <==> !exists|b: Seq<char>| s == #[trigger] (p + b),
{
    assert((p + rest).subrange(0, p.len() as int) =~= p);
    assert((p + rest).skip(p.len() as int) =~= rest);
    law_occurrence_splits_the_text(s, p);
}

/// Replacing goes from the left: what stands before the first occurrence stays, the
/// occurrence is replaced, and the rest is treated likewise. A text without an occurrence
/// stays as it is.
pub proof fn law_replacing_goes_from_the_left(
    before: Seq<char>,
    p: Seq<char>,
    after: Seq<char>,
    r: Seq<char>,
)
    requires
        p.len() > 0,
        forall|a: Seq<char>, b: Seq<char>|
            before + p + after == #[trigger] (a + p + b) ==> before.len() <= a.len(),
    ensures
        replace_all(before + p + after, p, r) == before + r + replace_all(after, p, r),
        !(exists|a: Seq<char>, b: Seq<char>| after == #[trigger] (a + p + b)) ==> replace_all(
            after,
            p,
            r,
        ) == after,
{
    let s = before + p + after;
    let n = before.len() as int;
    lemma_first_at(s, p, 0);
    assert(s.subrange(n, n + p.len()) =~= p);
    assert(occurs_at(s, p, n));
    let i = first_at(s, p, 0)->0;
    assert(s =~= s.take(i) + p + s.skip(i + p.len()));
    assert(i == n);
    assert(s.take(n) =~= before);
    assert(s.skip(n + p.len()) =~= after);
    law_occurrence_splits_the_text(after, p);
    if !contains_text(after, p) {
        lemma_replace_nothing(after, p, r);
    }
}

/// Trimming takes off white space at both ends, all of it and nothing else.
pub proof fn law_trimming_takes_off_white_space(s: Seq<char>)
    ensures
        exists|a: Seq<char>, b: Seq<char>|
            {
                &&& s == #[trigger] (a + trimmed(s) + b)
                &&& forall|i: int| 0 <= i < a.len() ==> white_space(#[trigger] a[i])
                &&& forall|i: int| 0 <= i < b.len() ==> white_space(#[trigger] b[i])
            },
        trimmed(s).len() > 0 ==> !white_space(trimmed(s)[0]) && !white_space(trimmed(s).last()),
{
    let k = lemma_trimmed_start(s);
    let t = trimmed_start(s);
    let j = lemma_trimmed_end(t);
    let a = s.take(k);
    let b = t.skip(j);
    assert(s =~= a + trimmed(s) + b);
    assert forall|i: int| 0 <= i < b.len() implies white_space(#[trigger] b[i]) by {
        assert(b[i] == t[j + i]);
    }
    lemma_trimmed(s);
}

/// A text is its first line, without a carriage return at its end, and the lines of what
/// follows the first line feed; the last line needs no line feed, and is left as it is.
pub proof fn law_lines_end_at_line_feeds(line: Seq<char>, rest: Seq<char>)
    requires
        forall|k: int| 0 <= k < line.len() ==> #[trigger] line[k] != '\n',
    ensures
        lines_of(line + seq!['\n'] + rest) == seq![
            if line.len() > 0 && line.last() == '\r' {
                line.take(line.len() - 1)
            } else {
                line
            },
        ] + lines_of(rest),
        line.len() > 0 ==> lines_of(line) == seq![line],
        lines_of(Seq::empty()) == Seq::<Seq<char>>::empty(),
{
    let s = line + seq!['\n'] + rest;
    let n = line.len() as int;
    assert forall|k: int| 0 <= k < n implies s[k] != '\n' by {
        assert(s[k] == line[k]);
    }
    lemma_line_length(s, n);
    assert(s.take(n) =~= line);
    assert(s.skip(n + 1) =~= rest);
    if n > 0 {
        assert(line.drop_last() =~= line.take(n - 1));
        lemma_line_length(line, n);
    }
}

/// A text that is put behind others goes behind a separator, unless it is the first.
pub proof fn law_joining_separates(parts: Seq<Seq<char>>, last: Seq<char>, sep: Seq<char>)
    ensures
        joined(Seq::empty(), sep) == Seq::<char>::empty(),
        joined(seq![last], sep) == last,
        parts.len() > 0 ==> joined(parts.push(last), sep) == joined(parts, sep) + sep + last,
{
    assert(parts.push(last).drop_last() =~= parts);
}

/// The beginning of a text has the characters of the text, and as many as are asked for
/// where there are as many.
pub proof fn law_beginning_is_cut_off(s: Seq<char>, n: int)
    requires
        0 <= n,
    ensures
        at_most(s, n).len() == if s.len() < n {
            s.len() as int
        } else {
            n
        },
        forall|i: int| 0 <= i < at_most(s, n).len() ==> #[trigger] at_most(s, n)[i] == s[i],
{
}

/// The number that decimal digits write.
pub open spec fn number_of(s: Seq<char>) -> int
    decreases s.len(),
{
    if s.len() == 0 {
        0
    } else {
        10 * number_of(s.drop_last()) + (s.last() as int - '0' as int)
    }
}

/// A number in decimal is written in digits, writes that number, and begins with a zero only
/// where it is zero.
pub proof fn law_decimal_writes_the_number(n: nat)
    ensures
        number_of(decimal(n)) == n,
        decimal(n).len() > 0,
        forall|i: int| 0 <= i < decimal(n).len() ==> '0' <= #[trigger] decimal(n)[i] <= '9',
        n > 0 ==> decimal(n)[0] != '0',
    decreases n,
{
    reveal_with_fuel(number_of, 2);
    if n >= 10 {
        law_decimal_writes_the_number(n / 10);
        assert(decimal(n).drop_last() =~= decimal(n / 10));
    } else {
        assert(decimal(n).drop_last() =~= Seq::empty());
    }
}

/// Two digits write the number, with a zero in front where it is below ten.
pub proof fn law_two_digits_write_the_number(n: int)
    requires
        0 <= n < 100,
    ensures
        two_digits(n).len() == 2,
        '0' <= two_digits(n)[0] <= '9',
        '0' <= two_digits(n)[1] <= '9',
        10 * (two_digits(n)[0] as int - '0' as int) + (two_digits(n)[1] as int - '0' as int) == n,
{
}

/// The value of a lower-case hexadecimal digit.
pub open spec fn hex_value(c: char) -> int {
    if '0' <= c <= '9' {
        c as int - '0' as int
    } else {
        c as int - 'a' as int + 10
    }
}

/// Each byte is written in two lower-case hexadecimal digits, which write its value.
pub proof fn law_hexadecimal_writes_the_bytes(bs: Seq<u8>, i: int)
    requires
        0 <= i < bs.len(),
    ensures
        lower_hex(bs).len() == 2 * bs.len(),
        forall|k: int|
            0 <= k < lower_hex(bs).len() ==> ('0' <= #[trigger] lower_hex(bs)[k] <= '9') || ('a'
                <= lower_hex(bs)[k] <= 'f'),
        16 * hex_value(lower_hex(bs)[2 * i]) + hex_value(lower_hex(bs)[2 * i + 1]) == bs[i],
{
}

/// The texts of string slices are theirs, one for one.
pub proof fn law_texts_are_those_of_the_slices(v: Seq<&'static str>, i: int)
    requires
        0 <= i < v.len(),
    ensures
        slice_texts(v).len() == v.len(),
        slice_texts(v)[i] == v[i]@,
        optional_slice_text(Some(v[i])) == Some(v[i]@),
        optional_slice_text(None) is None,
{
}

/// White space are the control characters from the tab to the carriage return, the next line,
/// and the separators of lines, of paragraphs and of words, and no other character.
pub proof fn law_white_space_is_that_of_unicode(c: char)
    ensures
        white_space(c) <==> {
            let n = c as int;
            ||| 9 <= n <= 13
            ||| n == 32 || n == 133 || n == 160
            ||| n == 5760
            ||| 8192 <= n <= 8202
            ||| n == 8232 || n == 8233 || n == 8239 || n == 8287
            ||| n == 12288
        },
{
}

} // verus!
