//! The per-run report format: lines `LABEL: value`, found in any order among
//! other lines; the last line carrying a label decides its value.

use crate::text::has_prefix;
use vstd::prelude::*;

verus! {

/// Whitespace as `char::is_whitespace` defines it (the Unicode White_Space set).
pub open spec fn is_ws(c: char) -> bool {
    let u = c as u32;
    (0x9 <= u && u <= 0xd) || u == 0x20 || u == 0x85 || u == 0xa0 || u == 0x1680 || (0x2000 <= u
        && u <= 0x200a) || u == 0x2028 || u == 0x2029 || u == 0x202f || u == 0x205f || u == 0x3000
}

fn char_is_ws(c: char) -> (r: bool)
    ensures
        r == is_ws(c),
{
    let u = c as u32;
    (0x9 <= u && u <= 0xd) || u == 0x20 || u == 0x85 || u == 0xa0 || u == 0x1680 || (0x2000 <= u
        && u <= 0x200a) || u == 0x2028 || u == 0x2029 || u == 0x202f || u == 0x205f || u == 0x3000
}

/// Index of the first `c` at or after `k`, or the length if there is none.
pub open spec fn index_of_from(s: Seq<char>, c: char, k: int) -> int
    decreases s.len() - k,
{
    if k >= s.len() {
        s.len() as int
    } else if s[k] == c {
        k
    } else {
        index_of_from(s, c, k + 1)
    }
}

/// The number of leading whitespace characters.
pub open spec fn lead_ws(s: Seq<char>) -> nat
    decreases s.len(),
{
    if s.len() > 0 && is_ws(s[0]) {
        1 + lead_ws(s.drop_first())
    } else {
        0
    }
}

/// The number of trailing whitespace characters.
pub open spec fn trail_ws(s: Seq<char>) -> nat
    decreases s.len(),
{
    if s.len() > 0 && is_ws(s.last()) {
        1 + trail_ws(s.drop_last())
    } else {
        0
    }
}

/// `s` without leading and trailing whitespace.
pub open spec fn trim(s: Seq<char>) -> Seq<char> {
    if lead_ws(s) == s.len() {
        Seq::empty()
    } else {
        s.subrange(lead_ws(s) as int, s.len() - trail_ws(s))
    }
}

/// The value of a labelled line: after the label, up to the next colon, trimmed.
pub open spec fn field_of_line(line: Seq<char>, label: Seq<char>) -> Seq<char> {
    trim(line.subrange(label.len() as int, index_of_from(line, ':', label.len() as int)))
}

/// The value of the line running from `p` if it carries `label`.
pub open spec fn line_value(s: Seq<char>, label: Seq<char>, p: int) -> Option<Seq<char>> {
    let line = s.subrange(p, index_of_from(s, '\n', p));
    if has_prefix(line, label) {
        Some(field_of_line(line, label))
    } else {
        None
    }
}

/// `later` if present, else `earlier`.
pub open spec fn latest<T>(earlier: Option<T>, later: Option<T>) -> Option<T> {
    if later is Some {
        later
    } else {
        earlier
    }
}

/// The value of the last line at or after line start `p` that carries `label`.
pub open spec fn last_value_from(s: Seq<char>, label: Seq<char>, p: int) -> Option<Seq<char>>
    decreases s.len() - p,
{
    if p < 0 || p > s.len() {
        None
    } else {
        let e = index_of_from(s, '\n', p);
        let here = line_value(s, label, p);
        if p <= e && e < s.len() {
            latest(here, last_value_from(s, label, e + 1))
        } else {
            here
        }
    }
}

/// The value of the last line of the report that carries `label`.
pub open spec fn last_value(s: Seq<char>, label: Seq<char>) -> Option<Seq<char>> {
    last_value_from(s, label, 0)
}

/// Whether a character is an ASCII digit.
pub open spec fn is_digit(c: char) -> bool {
    '0' <= c && c <= '9'
}

/// Every character is an ASCII digit.
pub open spec fn all_digits(s: Seq<char>) -> bool {
    forall|i: int| 0 <= i < s.len() ==> is_digit(#[trigger] s[i])
}

/// The number written by a run of digits.
pub open spec fn digits_value(s: Seq<char>) -> nat
    decreases s.len(),
{
    if s.len() == 0 {
        0
    } else {
        digits_value(s.drop_last()) * 10 + ((s.last() as u32) - ('0' as u32)) as nat
    }
}

/// Decimal text of an unsigned 64-bit number, as `u64`'s `FromStr` reads it:
/// an optional `+`, then one or more digits, with a value that fits.
pub open spec fn parse_u64(s: Seq<char>) -> Option<u64> {
    let d = if s.len() > 0 && s[0] == '+' {
        s.drop_first()
    } else {
        s
    };
    if d.len() > 0 && all_digits(d) && digits_value(d) <= u64::MAX {
        Some(digits_value(d) as u64)
    } else {
        None
    }
}

/// Index of the first `c` in `cs[k..e]`, or `e` if there is none; counted
/// within `cs[base..e]` it is `index_of_from` from `k - base`.
pub fn find_in(cs: &Vec<char>, c: char, base: usize, k: usize, e: usize) -> (r: usize)
    requires
        base <= k <= e <= cs@.len(),
    ensures
        r == base + index_of_from(cs@.subrange(base as int, e as int), c, k - base),
        k <= r <= e,
{
    let ghost sub = cs@.subrange(base as int, e as int);
    let mut i = k;
    while i < e
        invariant
            base <= k <= i <= e,
            e <= cs@.len(),
            sub == cs@.subrange(base as int, e as int),
            index_of_from(sub, c, k - base) == index_of_from(sub, c, i - base),
        decreases e - i,
    {
        assert(sub[i - base] == cs@[i as int]);
        if cs[i] == c {
            return i;
        }
        i += 1;
    }
    i
}

proof fn lemma_lead_ws(s: Seq<char>, m: int)
    requires
        0 <= m <= s.len(),
        forall|j: int| 0 <= j < m ==> is_ws(#[trigger] s[j]),
        m == s.len() || !is_ws(s[m]),
    ensures
        lead_ws(s) == m,
    decreases m,
{
    if m > 0 {
        assert forall|j: int| 0 <= j < m - 1 implies is_ws(#[trigger] s.drop_first()[j]) by {
            assert(s.drop_first()[j] == s[j + 1]);
        }
        lemma_lead_ws(s.drop_first(), m - 1);
    }
}

proof fn lemma_trail_ws(s: Seq<char>, m: int)
    requires
        0 <= m <= s.len(),
        forall|j: int| s.len() - m <= j < s.len() ==> is_ws(#[trigger] s[j]),
        m == s.len() || !is_ws(s[s.len() - m - 1]),
    ensures
        trail_ws(s) == m,
    decreases m,
{
    if m > 0 {
        assert forall|j: int|
            s.drop_last().len() - (m - 1) <= j < s.drop_last().len() implies is_ws(
            #[trigger] s.drop_last()[j],
        ) by {
            assert(s.drop_last()[j] == s[j]);
        }
        lemma_trail_ws(s.drop_last(), m - 1);
    }
}

/// The bounds of `cs[a..b]` without its leading and trailing whitespace.
pub fn trim_range(cs: &Vec<char>, a: usize, b: usize) -> (r: (usize, usize))
    requires
        a <= b <= cs@.len(),
    ensures
        a <= r.0 <= r.1 <= b,
        cs@.subrange(r.0 as int, r.1 as int) == trim(cs@.subrange(a as int, b as int)),
{
    let ghost seg = cs@.subrange(a as int, b as int);
    let mut i = a;
    while i < b
        invariant
            a <= i <= b,
            b <= cs@.len(),
            seg == cs@.subrange(a as int, b as int),
            forall|j: int| a <= j < i ==> is_ws(#[trigger] cs@[j]),
        ensures
            a <= i <= b,
            forall|j: int| a <= j < i ==> is_ws(#[trigger] cs@[j]),
            i == b || !is_ws(cs@[i as int]),
        decreases b - i,
    {
        if !char_is_ws(cs[i]) {
            break;
        }
        i += 1;
    }
    proof {
        assert forall|j: int| 0 <= j < i - a implies is_ws(#[trigger] seg[j]) by {
            assert(seg[j] == cs@[a + j]);
        }
        if i < b {
            assert(seg[i - a] == cs@[i as int]);
        }
        lemma_lead_ws(seg, i - a);
    }
    if i == b {
        assert(cs@.subrange(b as int, b as int) =~= trim(seg));
        return (b, b);
    }
    let mut e = b;
    while e > i + 1
        invariant
            i < e <= b,
            b <= cs@.len(),
            !is_ws(cs@[i as int]),
            forall|j: int| e <= j < b ==> is_ws(#[trigger] cs@[j]),
        ensures
            i < e <= b,
            forall|j: int| e <= j < b ==> is_ws(#[trigger] cs@[j]),
            e == i + 1 || !is_ws(cs@[e - 1]),
        decreases e,
    {
        if !char_is_ws(cs[e - 1]) {
            break;
        }
        e -= 1;
    }
    proof {
        assert forall|j: int| seg.len() - (b - e) <= j < seg.len() implies is_ws(
            #[trigger] seg[j],
        ) by {
            assert(seg[j] == cs@[a + j]);
        }
        assert(seg[seg.len() - (b - e) - 1] == cs@[e - 1]);
        assert(seg[i - a] == cs@[i as int]);
        lemma_trail_ws(seg, b - e);
        assert(cs@.subrange(i as int, e as int) =~= seg.subrange(
            lead_ws(seg) as int,
            seg.len() - trail_ws(seg),
        ));
    }
    (i, e)
}

/// Whether the line `cs[p..e]` starts with `label`.
pub fn has_label(cs: &Vec<char>, p: usize, e: usize, label: &Vec<char>) -> (r: bool)
    requires
        p <= e <= cs@.len(),
    ensures
        r == has_prefix(cs@.subrange(p as int, e as int), label@),
{
    let ghost line = cs@.subrange(p as int, e as int);
    let n = label.len();
    if n > e - p {
        return false;
    }
    let mut j: usize = 0;
    while j < n
        invariant
            j <= n,
            n == label@.len(),
            p + n <= e <= cs@.len(),
            line == cs@.subrange(p as int, e as int),
            forall|m: int| 0 <= m < j ==> cs@[p + m] == label@[m],
        decreases n - j,
    {
        if cs[p + j] != label[j] {
            assert(line.subrange(0, n as int)[j as int] != label@[j as int]);
            return false;
        }
        j += 1;
    }
    assert(line.subrange(0, n as int) =~= label@);
    true
}

/// The bounds of the value of line `cs[p..e]` under `label`, if the line
/// starts with the label.
pub fn labelled_value(cs: &Vec<char>, p: usize, e: usize, label: &Vec<char>) -> (r: Option<
    (usize, usize),
>)
    requires
        p <= e <= cs@.len(),
    ensures
        match r {
            Some((x, y)) => has_prefix(cs@.subrange(p as int, e as int), label@) && p <= x <= y <= e
                && cs@.subrange(x as int, y as int) == field_of_line(
                cs@.subrange(p as int, e as int),
                label@,
            ),
            None => !has_prefix(cs@.subrange(p as int, e as int), label@),
        },
{
    if !has_label(cs, p, e, label) {
        return None;
    }
    let ghost line = cs@.subrange(p as int, e as int);
    let start = p + label.len();
    let colon = find_in(cs, ':', p, start, e);
    let (x, y) = trim_range(cs, start, colon);
    assert(cs@.subrange(start as int, colon as int) =~= line.subrange(
        label@.len() as int,
        index_of_from(line, ':', label@.len() as int),
    ));
    Some((x, y))
}

/// A run of digits is worth at least as much as any of its prefixes.
pub proof fn lemma_digits_prefix(s: Seq<char>, k: int)
    requires
        0 <= k <= s.len(),
    ensures
        digits_value(s) >= digits_value(s.take(k)),
    decreases s.len() - k,
{
    if k < s.len() {
        lemma_digits_prefix(s, k + 1);
        assert(s.take(k + 1).drop_last() =~= s.take(k));
    } else {
        assert(s.take(k) =~= s);
    }
}

/// Reads `cs[a..b]` as an unsigned 64-bit decimal number.
pub fn read_u64(cs: &Vec<char>, a: usize, b: usize) -> (r: Option<u64>)
    requires
        a <= b <= cs@.len(),
    ensures
        r == parse_u64(cs@.subrange(a as int, b as int)),
{
    let ghost t = cs@.subrange(a as int, b as int);
    let mut i = a;
    if a < b && cs[a] == '+' {
        i = a + 1;
    }
    let start = i;
    let ghost d = if t.len() > 0 && t[0] == '+' {
        t.drop_first()
    } else {
        t
    };
    assert(d =~= cs@.subrange(start as int, b as int));
    if start == b {
        return None;
    }
    let mut acc: u64 = 0;
    while i < b
        invariant
            start <= i <= b,
            b <= cs@.len(),
            start < b,
            t == cs@.subrange(a as int, b as int),
            d == cs@.subrange(start as int, b as int),
            d == (if t.len() > 0 && t[0] == '+' {
                t.drop_first()
            } else {
                t
            }),
            forall|j: int| start <= j < i ==> is_digit(#[trigger] cs@[j]),
            acc == digits_value(d.take(i - start)),
        decreases b - i,
    {
        let c = cs[i];
        assert(d[i - start] == cs@[i as int]);
        if !('0' <= c && c <= '9') {
            assert(!is_digit(d[i - start]));
            assert(!all_digits(d));
            return None;
        }
        let v = (c as u32 - '0' as u32) as u64;
        assert(d.take(i - start + 1).drop_last() =~= d.take(i - start));
        assert(d.take(i - start + 1).last() == c);
        assert(digits_value(d.take(i - start + 1)) == acc * 10 + v);
        if acc > (u64::MAX - v) / 10 {
            proof {
                assert(acc * 10 + v > u64::MAX) by (nonlinear_arith)
                    requires
                        acc > (u64::MAX - v) / 10,
                        v <= 9,
                ;
                lemma_digits_prefix(d, i - start + 1);
            }
            return None;
        }
        assert(acc * 10 + v <= u64::MAX) by (nonlinear_arith)
            requires
                acc <= (u64::MAX - v) / 10,
                v <= 9,
        ;
        acc = acc * 10 + v;
        i += 1;
    }
    assert(d.take(b - start) =~= d);
    assert(all_digits(d)) by {
        assert forall|j: int| 0 <= j < d.len() implies is_digit(#[trigger] d[j]) by {
            assert(d[j] == cs@[start + j]);
        }
    }
    Some(acc)
}

} // verus!
