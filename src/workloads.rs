//! Compute kernels of the benchmark programs that the harness times.

use crate::report::{all_digits, digits_value, find_in, index_of_from, is_digit, lemma_digits_prefix};
use crate::text::chars_of;
use std::collections::HashMap;
use vstd::prelude::*;

verus! {

/// The Fibonacci numbers: F(0) = 0, F(1) = 1, F(n) = F(n-1) + F(n-2).
pub open spec fn fib(n: nat) -> nat
    decreases n,
{
    if n <= 1 {
        n
    } else {
        fib((n - 1) as nat) + fib((n - 2) as nat)
    }
}

/// Fibonacci by the naive double recursion, a deliberately call-heavy workload.
pub fn fibonacci(n: u64) -> (r: u64)
    requires
        fib(n as nat) <= u64::MAX,
    ensures
        r == fib(n as nat),
    decreases n,
{
    if n <= 1 {
        n
    } else {
        fibonacci(n - 1) + fibonacci(n - 2)
    }
}

/// The Ackermann function: A(0, n) = n + 1, A(m, 0) = A(m - 1, 1),
/// A(m, n) = A(m - 1, A(m, n - 1)).
pub open spec fn ack(m: nat, n: nat) -> nat
    decreases m, n,
{
    if m == 0 {
        n + 1
    } else if n == 0 {
        ack((m - 1) as nat, 1)
    } else {
        ack((m - 1) as nat, ack(m, (n - 1) as nat))
    }
}

/// The Ackermann function exceeds its second argument.
pub proof fn lemma_ack_exceeds(m: nat, n: nat)
    ensures
        ack(m, n) > n,
    decreases m, n,
{
    if m == 0 {
    } else if n == 0 {
        lemma_ack_exceeds((m - 1) as nat, 1);
    } else {
        lemma_ack_exceeds(m, (n - 1) as nat);
        lemma_ack_exceeds((m - 1) as nat, ack(m, (n - 1) as nat));
    }
}

/// The Ackermann function by its recursive definition.
pub fn ackermann(m: u32, n: u32) -> (r: u32)
    requires
        ack(m as nat, n as nat) <= u32::MAX,
    ensures
        r == ack(m as nat, n as nat),
    decreases m, n,
{
    if m == 0 {
        n + 1
    } else if n == 0 {
        ackermann(m - 1, 1)
    } else {
        proof {
            lemma_ack_exceeds((m - 1) as nat, ack(m as nat, (n - 1) as nat));
        }
        let inner = ackermann(m, n - 1);
        ackermann(m - 1, inner)
    }
}

/// Inserts `i -> 2i` for every `i` below `size` into a hash map, then looks
/// every key up again and sums the values: `size * (size - 1)`.
pub fn benchmark_hashmap(size: usize) -> (r: i64)
    requires
        size * (size - 1) <= i64::MAX,
        2 * size <= usize::MAX,
    ensures
        r == size * (size - 1),
{
    broadcast use vstd::std_specs::hash::group_hash_axioms;

    let mut map: HashMap<usize, usize> = HashMap::new();
    let mut i: usize = 0;
    while i < size
        invariant
            i <= size,
            2 * size <= usize::MAX,
            vstd::std_specs::hash::obeys_key_model::<usize>(),
            vstd::std_specs::hash::builds_valid_hashers::<std::hash::RandomState>(),
            forall|k: usize| k < i ==> #[trigger] map@.contains_key(k) && map@[k] == 2 * k,
        decreases size - i,
    {
        map.insert(i, i * 2);
        i += 1;
    }
    assert(i == size);
    assert forall|k: usize| k < size implies #[trigger] map@.contains_key(k) && map@[k] == 2 * k by {
        assert(k < i);
        assert(map@.contains_key(k));
    }
    let mut sum: i64 = 0;
    let mut i: usize = 0;
    while i < size
        invariant
            i <= size,
            size * (size - 1) <= i64::MAX,
            forall|k: usize| k < size ==> #[trigger] map@.contains_key(k) && map@[k] == 2 * k,
            vstd::std_specs::hash::obeys_key_model::<usize>(),
            sum == i * (i - 1),
        decreases size - i,
    {
        assert(map@.contains_key(i));
        assert((i + 1) * i <= size * (size - 1)) by (nonlinear_arith)
            requires
                i < size,
        ;
        assert(i * (i - 1) + 2 * i == (i + 1) * i) by (nonlinear_arith);
        if let Some(val) = map.get(&i) {
            sum += *val as i64;
        }
        i += 1;
    }
    sum
}

/// `k` has a divisor `d` with `2 <= d < b` and `d < k`.
pub open spec fn has_divisor_below(k: int, b: int) -> bool {
    exists|d: int| 2 <= d < b && d < k && #[trigger] (k % d) == 0
}

/// `k` is prime: at least 2 with no divisor strictly between 1 and itself.
pub open spec fn is_prime(k: int) -> bool {
    k >= 2 && !has_divisor_below(k, k)
}

/// The number of primes below `n`.
pub open spec fn prime_count(n: int) -> nat
    decreases n,
{
    if n <= 0 {
        0
    } else {
        prime_count(n - 1) + if is_prime(n - 1) {
            1nat
        } else {
            0nat
        }
    }
}

/// The sieve state after striking the multiples of every number below `b`.
pub open spec fn sieved(k: int, b: int) -> bool {
    k >= 2 && !has_divisor_below(k, b)
}

proof fn lemma_multiple_below_square(k: int, i: int)
    requires
        2 <= i < k < i * i,
        k % i == 0,
    ensures
        has_divisor_below(k, i),
{
    let q = k / i;
    assert(k == i * q) by (nonlinear_arith)
        requires
            k % i == 0,
            i > 0,
            q == k / i,
    ;
    assert(2 <= q < i) by (nonlinear_arith)
        requires
            k == i * q,
            i < k < i * i,
            i >= 2,
    ;
    assert(k % q == 0) by (nonlinear_arith)
        requires
            k == i * q,
            q > 0,
    ;
    assert(q < k);
}

proof fn lemma_divisor_transfer(k: int, i: int, d: int)
    requires
        2 <= d,
        0 < i,
        k % i == 0,
        i % d == 0,
    ensures
        k % d == 0,
{
    let a = k / i;
    let b = i / d;
    assert(k == i * a) by (nonlinear_arith)
        requires
            k % i == 0,
            i > 0,
            a == k / i,
    ;
    assert(i == d * b) by (nonlinear_arith)
        requires
            i % d == 0,
            d > 0,
            b == i / d,
    ;
    assert(k == d * (b * a)) by (nonlinear_arith)
        requires
            k == i * a,
            i == d * b,
    ;
    assert(k % d == 0) by (nonlinear_arith)
        requires
            k == d * (b * a),
            d > 0,
    ;
}

proof fn lemma_large_divisor(k: int, i: int, d: int)
    requires
        2 <= d < k,
        k % d == 0,
        i <= d,
        k < i * i,
        i >= 2,
    ensures
        has_divisor_below(k, i),
{
    let q = k / d;
    assert(k == d * q) by (nonlinear_arith)
        requires
            k % d == 0,
            d > 0,
            q == k / d,
    ;
    assert(q >= 2) by (nonlinear_arith)
        requires
            k == d * q,
            d < k,
            d >= 2,
    ;
    assert(i * i <= d * i) by (nonlinear_arith)
        requires
            i <= d,
            i >= 0,
    ;
    assert(q < i) by (nonlinear_arith)
        requires
            k == d * q,
            k < d * i,
            d >= 2,
    ;
    assert(k % q == 0) by (nonlinear_arith)
        requires
            k == d * q,
            q > 0,
    ;
}

/// Counts the primes up to and including `limit` with the sieve of Eratosthenes.
pub fn count_primes(limit: usize) -> (r: usize)
    requires
        limit < usize::MAX,
    ensures
        r == prime_count(limit + 1),
{
    if limit < 2 {
        assert(!is_prime(0) && !is_prime(1));
        assert(prime_count(limit + 1) == 0) by {
            assert(prime_count(0) == 0);
            assert(prime_count(1) == 0);
            if limit == 1 {
                assert(prime_count(2) == 0);
            }
        }
        return 0;
    }
    let n = limit + 1;
    let mut sieve = vec![true; n];
    sieve.set(0, false);
    sieve.set(1, false);
    let mut i: usize = 2;
    while i <= limit / i
        invariant
            2 <= i,
            n == limit + 1,
            sieve@.len() == n,
            forall|k: int| 0 <= k < n ==> #[trigger] sieve@[k] == sieved(k, i as int),
        decreases n - i,
    {
        assert(i * i <= limit) by (nonlinear_arith)
            requires
                i <= limit / i,
                i > 0,
        ;
        if sieve[i] {
            let mut j: usize = i * i;
            assert((j as int) % (i as int) == 0) by (nonlinear_arith)
                requires
                    j == i * i,
                    i > 0,
            ;
            loop
                invariant_except_break
                    forall|k: int|
                        0 <= k < n ==> #[trigger] sieve@[k] == (sieved(k, i as int) && !(i * i
                            <= k < j && k % (i as int) == 0)),
                invariant
                    2 <= i,
                    i * i <= limit,
                    n == limit + 1,
                    sieve@.len() == n,
                    i * i <= j <= limit,
                    (j as int) % (i as int) == 0,
                ensures
                    sieve@.len() == n,
                    forall|k: int|
                        0 <= k < n ==> #[trigger] sieve@[k] == (sieved(k, i as int) && !(i * i
                            <= k && k % (i as int) == 0)),
                decreases n - j,
            {
                sieve.set(j, false);
                proof {
                    assert forall|k: int| j < k < j + i implies #[trigger] (k % (i as int)) != 0 by {
                        assert(k % (i as int) != 0) by (nonlinear_arith)
                            requires
                                (j as int) % (i as int) == 0,
                                j < k < j + i,
                                i > 0,
                        ;
                    }
                }
                if limit - j < i {
                    break;
                }
                assert(((j + i) as int) % (i as int) == 0) by (nonlinear_arith)
                    requires
                        (j as int) % (i as int) == 0,
                        i > 0,
                ;
                j = j + i;
            }
            proof {
                assert((i as int) < (i as int) * (i as int)) by (nonlinear_arith)
                    requires
                        i >= 2,
                ;
                assert forall|k: int| 0 <= k < n implies #[trigger] sieve@[k] == sieved(
                    k,
                    i + 1,
                ) by {
                    if has_divisor_below(k, i as int) {
                        let d = choose|d: int| 2 <= d < i && d < k && #[trigger] (k % d) == 0;
                        assert(has_divisor_below(k, i + 1));
                    }
                    if sieved(k, i as int) && i < k && k % (i as int) == 0 {
                        if k < i * i {
                            lemma_multiple_below_square(k, i as int);
                        }
                    }
                    if has_divisor_below(k, i + 1) && !has_divisor_below(k, i as int) {
                        let d = choose|d: int| 2 <= d < i + 1 && d < k && #[trigger] (k % d) == 0;
                        assert(d == i);
                    }
                    if i < k && k % (i as int) == 0 {
                        assert(has_divisor_below(k, i + 1));
                    }
                }
            }
        } else {
            proof {
                assert(has_divisor_below(i as int, i as int));
                let d = choose|d: int| 2 <= d < i && d < i && #[trigger] ((i as int) % d) == 0;
                assert forall|k: int| 0 <= k < n implies #[trigger] sieve@[k] == sieved(
                    k,
                    i + 1,
                ) by {
                    if i < k && k % (i as int) == 0 {
                        lemma_divisor_transfer(k, i as int, d);
                        assert(has_divisor_below(k, i as int));
                    }
                    if has_divisor_below(k, i + 1) && !has_divisor_below(k, i as int) {
                        let e = choose|e: int| 2 <= e < i + 1 && e < k && #[trigger] (k % e) == 0;
                        assert(e == i);
                        lemma_divisor_transfer(k, i as int, d);
                        assert(has_divisor_below(k, i as int));
                    }
                }
            }
        }
        assert(i <= limit / i);
        i += 1;
    }
    assert(i * i > limit) by (nonlinear_arith)
        requires
            i > limit / i,
            i > 0,
    ;
    let mut count: usize = 0;
    let mut k: usize = 0;
    while k < n
        invariant
            k <= n,
            n == limit + 1,
            sieve@.len() == n,
            i * i > limit,
            i >= 2,
            forall|m: int| 0 <= m < n ==> #[trigger] sieve@[m] == sieved(m, i as int),
            count == prime_count(k as int),
            count <= k,
        decreases n - k,
    {
        proof {
            let kk = k as int;
            if has_divisor_below(kk, kk) && !has_divisor_below(kk, i as int) {
                let d = choose|d: int| 2 <= d < kk && d < kk && #[trigger] (kk % d) == 0;
                lemma_large_divisor(kk, i as int, d);
            }
            if has_divisor_below(kk, i as int) {
                let d = choose|d: int| 2 <= d < i && d < kk && #[trigger] (kk % d) == 0;
                assert(has_divisor_below(kk, kk));
            }
            assert(sieve@[kk] == is_prime(kk));
        }
        if sieve[k] {
            count += 1;
        }
        k += 1;
    }
    count
}

/// Decimal text of a signed 64-bit number, as `i64`'s `FromStr` reads it: an
/// optional sign, then one or more digits, with a value in range.
pub open spec fn parse_i64(t: Seq<char>) -> Option<i64> {
    let neg = t.len() > 0 && t[0] == '-';
    let d = if t.len() > 0 && (t[0] == '-' || t[0] == '+') {
        t.drop_first()
    } else {
        t
    };
    if d.len() > 0 && all_digits(d) {
        let v = if neg {
            -digits_value(d)
        } else {
            digits_value(d) as int
        };
        if i64::MIN <= v <= i64::MAX {
            Some(v as i64)
        } else {
            None
        }
    } else {
        None
    }
}

/// The line starting at `p` without its terminator: a carriage return just
/// before the newline belongs to the terminator.
pub open spec fn line_at(s: Seq<char>, p: int) -> Seq<char> {
    let e = index_of_from(s, '\n', p);
    if e < s.len() && e > p && s[e - 1] == '\r' {
        s.subrange(p, e - 1)
    } else {
        s.subrange(p, e)
    }
}

/// The number each line from `p` on contributes: its value, or zero if it
/// does not read as a number.
pub open spec fn values_from(s: Seq<char>, p: int) -> Seq<int>
    decreases s.len() - p,
{
    let v = match parse_i64(line_at(s, p)) {
        Some(x) => x as int,
        None => 0,
    };
    let e = index_of_from(s, '\n', p);
    if 0 <= p <= e && e < s.len() {
        seq![v] + values_from(s, e + 1)
    } else {
        seq![v]
    }
}

/// Sum of a sequence of integers.
pub open spec fn sum_ints(v: Seq<int>) -> int
    decreases v.len(),
{
    if v.len() == 0 {
        0
    } else {
        sum_ints(v.drop_last()) + v.last()
    }
}

/// Every running total of `v` is an `i64`.
pub open spec fn totals_fit(v: Seq<int>) -> bool {
    forall|k: int| 0 <= k <= v.len() ==> i64::MIN <= #[trigger] sum_ints(v.take(k)) <= i64::MAX
}

/// Reads `cs[a..b]` as a signed 64-bit decimal number.
fn read_i64(cs: &Vec<char>, a: usize, b: usize) -> (r: Option<i64>)
    requires
        a <= b <= cs@.len(),
    ensures
        r == parse_i64(cs@.subrange(a as int, b as int)),
{
    let ghost t = cs@.subrange(a as int, b as int);
    let neg = a < b && cs[a] == '-';
    let mut i = a;
    if a < b && (cs[a] == '-' || cs[a] == '+') {
        i = a + 1;
    }
    let start = i;
    let ghost d = if t.len() > 0 && (t[0] == '-' || t[0] == '+') {
        t.drop_first()
    } else {
        t
    };
    assert(d =~= cs@.subrange(start as int, b as int));
    if start == b {
        return None;
    }
    let limit: u64 = if neg {
        0x8000_0000_0000_0000
    } else {
        0x7fff_ffff_ffff_ffff
    };
    let mut acc: u64 = 0;
    while i < b
        invariant
            start <= i <= b,
            b <= cs@.len(),
            start < b,
            d == cs@.subrange(start as int, b as int),
            d == (if t.len() > 0 && (t[0] == '-' || t[0] == '+') {
                t.drop_first()
            } else {
                t
            }),
            t == cs@.subrange(a as int, b as int),
            neg == (t.len() > 0 && t[0] == '-'),
            limit == (if neg {
                0x8000_0000_0000_0000u64
            } else {
                0x7fff_ffff_ffff_ffffu64
            }),
            forall|j: int| start <= j < i ==> is_digit(#[trigger] cs@[j]),
            acc == digits_value(d.take(i - start)),
            acc <= limit,
        decreases b - i,
    {
        let c = cs[i];
        assert(d[i - start] == cs@[i as int]);
        if !('0' <= c && c <= '9') {
            assert(!is_digit(d[i - start]));
            assert(!all_digits(d));
            return None;
        }
        let v = (c as u32 - '0' as u32) as u64;
        assert(d.take(i - start + 1).drop_last() =~= d.take(i - start));
        assert(d.take(i - start + 1).last() == c);
        assert(digits_value(d.take(i - start + 1)) == acc * 10 + v);
        if acc > (limit - v) / 10 {
            proof {
                assert(acc * 10 + v > limit) by (nonlinear_arith)
                    requires
                        acc > (limit - v) / 10,
                        v <= 9,
                        v <= limit,
                ;
                lemma_digits_prefix(d, i - start + 1);
            }
            return None;
        }
        assert(acc * 10 + v <= limit) by (nonlinear_arith)
            requires
                acc <= (limit - v) / 10,
                v <= 9,
                v <= limit,
        ;
        acc = acc * 10 + v;
        i += 1;
    }
    assert(d.take(b - start) =~= d);
    assert(all_digits(d)) by {
        assert forall|j: int| 0 <= j < d.len() implies is_digit(#[trigger] d[j]) by {
            assert(d[j] == cs@[start + j]);
        }
    }
    if neg {
        if acc == 0x8000_0000_0000_0000 {
            Some(i64::MIN)
        } else {
            Some(-(acc as i64))
        }
    } else {
        Some(acc as i64)
    }
}

/// Sums the lines of `input` that read as signed 64-bit numbers; other lines
/// count as zero.
pub fn parse_and_sum(input: &str) -> (r: i64)
    requires
        totals_fit(values_from(input@, 0)),
    ensures
        r == sum_ints(values_from(input@, 0)),
{
    let cs = chars_of(input);
    let n = cs.len();
    let ghost all = values_from(cs@, 0);
    let ghost mut done: Seq<int> = Seq::empty();
    let mut total: i64 = 0;
    let mut p: usize = 0;
    assert(all =~= done + values_from(cs@, 0));
    loop
        invariant_except_break
            all == done + values_from(cs@, p as int),
        invariant
            p <= n,
            n == cs@.len(),
            cs@ == input@,
            all == values_from(cs@, 0),
            totals_fit(all),
            total == sum_ints(done),
        ensures
            total == sum_ints(all),
        decreases n - p,
    {
        let e = find_in(&cs, '\n', 0, p, n);
        assert(cs@.subrange(0, n as int) =~= cs@);
        let end = if e < n && e > p && cs[e - 1] == '\r' {
            e - 1
        } else {
            e
        };
        let value = read_i64(&cs, p, end);
        let ghost v = match value {
            Some(x) => x as int,
            None => 0int,
        };
        assert(values_from(cs@, p as int)[0] == v);
        let ghost next = done.push(v);
        proof {
            assert(all.take(next.len() as int) =~= next);
            assert(next.drop_last() =~= done);
            assert(sum_ints(next) == sum_ints(done) + v);
            assert(i64::MIN <= sum_ints(all.take(next.len() as int)) <= i64::MAX);
        }
        if let Some(x) = value {
            total = total + x;
        }
        proof {
            done = next;
        }
        if e >= n {
            assert(values_from(cs@, p as int) =~= seq![v]);
            assert(all =~= done);
            assert(total == sum_ints(all));
            break;
        }
        assert(values_from(cs@, p as int) =~= seq![v] + values_from(cs@, e + 1));
        assert(all =~= done + values_from(cs@, e + 1));
        p = e + 1;
    }
    total
}

} // verus!
