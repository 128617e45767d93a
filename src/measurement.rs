//! Measurements of single runs, their statistics, and the stability test
//! that decides when enough runs have been collected.

use crate::build_matrix::BuildJob;
use crate::report::{
    find_in, labelled_value, last_value, last_value_from, latest, line_value, parse_u64, read_u64,
};
use crate::text::{chars_of, same_text};
use vstd::prelude::*;
use vstd::string::*;

verus! {

/// Label of the startup time line.
pub open spec fn startup_label() -> Seq<char> {
    "STARTUP_TIME_US:"@
}

/// Label of the compute time line.
pub open spec fn compute_label() -> Seq<char> {
    "COMPUTE_TIME_US:"@
}

/// Label of the result line.
pub open spec fn result_label() -> Seq<char> {
    "RESULT:"@
}

/// The startup time, compute time and result token of a report, when all
/// three are present and both times read as numbers.
pub open spec fn report_fields(text: Seq<char>) -> Option<(u64, u64, Seq<char>)> {
    match (last_value(text, startup_label()), last_value(text, compute_label()), last_value(
        text,
        result_label(),
    )) {
        (Some(s), Some(c), Some(r)) => match (parse_u64(s), parse_u64(c)) {
            (Some(sv), Some(cv)) => Some((sv, cv, r)),
            _ => None,
        },
        _ => None,
    }
}

/// The characters an optional range of `s` covers.
pub open spec fn range_text(s: Seq<char>, o: Option<(usize, usize)>) -> Option<Seq<char>> {
    match o {
        Some((a, b)) => Some(s.subrange(a as int, b as int)),
        None => None,
    }
}

/// An optional range lies within `[0, n)`.
pub open spec fn range_ok(o: Option<(usize, usize)>, n: usize) -> bool {
    match o {
        Some((a, b)) => a <= b <= n,
        None => true,
    }
}

/// One successful run.
#[derive(Debug, Clone)]
pub struct Measurement {
    /// Startup time in microseconds
    pub startup_us: u64,
    /// Compute time in microseconds
    pub compute_us: u64,
    /// Startup plus compute time
    pub total_us: u64,
    /// Result token, for cross-checking runs
    pub result: String,
}

impl Measurement {
    /// Total time is the sum of the two parts.
    pub open spec fn wf(&self) -> bool {
        self.total_us == self.startup_us + self.compute_us
    }

    /// A measurement from its parts.
    pub fn new(startup_us: u64, compute_us: u64, result: String) -> (r: Self)
        requires
            startup_us + compute_us <= u64::MAX,
        ensures
            r.wf(),
            r.startup_us == startup_us,
            r.compute_us == compute_us,
            r.result == result,
    {
        Measurement { startup_us, compute_us, total_us: startup_us + compute_us, result }
    }

    /// Reads a run report. It fails when a labelled field is missing, when a
    /// time does not read as a number, or when the total does not fit.
    pub fn from_output(output: &str) -> (r: Result<Self, String>)
        ensures
            match report_fields(output@) {
                Some((s, c, t)) => if s + c <= u64::MAX {
                    r is Ok && r->Ok_0.wf() && r->Ok_0.startup_us == s && r->Ok_0.compute_us
                        == c && r->Ok_0.result@ == t
                } else {
                    r is Err
                },
                None => r is Err,
            },
    {
        let cs = chars_of(output);
        let n = cs.len();
        let startup_label_chars = chars_of("STARTUP_TIME_US:");
        let compute_label_chars = chars_of("COMPUTE_TIME_US:");
        let result_label_chars = chars_of("RESULT:");
        let mut startup: Option<(usize, usize)> = None;
        let mut compute: Option<(usize, usize)> = None;
        let mut result: Option<(usize, usize)> = None;
        let mut p: usize = 0;
        assert(cs@.subrange(0, n as int) =~= cs@);
        loop
            invariant
                p <= n,
                n == cs@.len(),
                cs@ == output@,
                startup_label_chars@ == startup_label(),
                compute_label_chars@ == compute_label(),
                result_label_chars@ == result_label(),
                range_ok(startup, n),
                range_ok(compute, n),
                range_ok(result, n),
                last_value(cs@, startup_label()) == latest(
                    range_text(cs@, startup),
                    last_value_from(cs@, startup_label(), p as int),
                ),
                last_value(cs@, compute_label()) == latest(
                    range_text(cs@, compute),
                    last_value_from(cs@, compute_label(), p as int),
                ),
                last_value(cs@, result_label()) == latest(
                    range_text(cs@, result),
                    last_value_from(cs@, result_label(), p as int),
                ),
            ensures
                range_ok(startup, n),
                range_ok(compute, n),
                range_ok(result, n),
                last_value(cs@, startup_label()) == range_text(cs@, startup),
                last_value(cs@, compute_label()) == range_text(cs@, compute),
                last_value(cs@, result_label()) == range_text(cs@, result),
            decreases n - p,
        {
            let e = find_in(&cs, '\n', 0, p, n);
            assert(cs@.subrange(0, n as int) =~= cs@);
            let ghost old_s = range_text(cs@, startup);
            let ghost old_c = range_text(cs@, compute);
            let ghost old_r = range_text(cs@, result);
            if let Some(v) = labelled_value(&cs, p, e, &startup_label_chars) {
                startup = Some(v);
            }
            if let Some(v) = labelled_value(&cs, p, e, &compute_label_chars) {
                compute = Some(v);
            }
            if let Some(v) = labelled_value(&cs, p, e, &result_label_chars) {
                result = Some(v);
            }
            proof {
                assert(range_text(cs@, startup) == latest(old_s, line_value(cs@, startup_label(), p as int)));
                assert(range_text(cs@, compute) == latest(old_c, line_value(cs@, compute_label(), p as int)));
                assert(range_text(cs@, result) == latest(old_r, line_value(cs@, result_label(), p as int)));
            }
            if e >= n {
                break;
            }
            p = e + 1;
        }
        match (startup, compute, result) {
            (Some((s0, s1)), Some((c0, c1)), Some((t0, t1))) => match (
                read_u64(&cs, s0, s1),
                read_u64(&cs, c0, c1),
            ) {
                (Some(sv), Some(cv)) => {
                    if sv > u64::MAX - cv {
                        Err(String::from_str("measurement total does not fit"))
                    } else {
                        let token = output.substring_char(t0, t1);
                        Ok(Measurement::new(sv, cv, String::from_str(token)))
                    }
                },
                _ => Err(String::from_str("Failed to parse measurement output")),
            },
            _ => Err(String::from_str("Failed to parse measurement output")),
        }
    }
}

/// Compute times of a sequence of measurements.
pub open spec fn compute_times(s: Seq<Measurement>) -> Seq<u64> {
    s.map_values(|m: Measurement| m.compute_us)
}

/// Total times of a sequence of measurements.
pub open spec fn total_times(s: Seq<Measurement>) -> Seq<u64> {
    s.map_values(|m: Measurement| m.total_us)
}

/// Sum of a sequence of numbers.
pub open spec fn sum_of(s: Seq<u64>) -> int
    decreases s.len(),
{
    if s.len() == 0 {
        0
    } else {
        sum_of(s.drop_last()) + s.last()
    }
}

/// Sum of squares of a sequence of numbers.
pub open spec fn sum_sq_of(s: Seq<u64>) -> int
    decreases s.len(),
{
    if s.len() == 0 {
        0
    } else {
        sum_sq_of(s.drop_last()) + s.last() * s.last()
    }
}

/// Smallest element of a non-empty sequence.
pub open spec fn min_of(s: Seq<u64>) -> u64
    decreases s.len(),
{
    if s.len() <= 1 {
        s[0]
    } else if s.last() < min_of(s.drop_last()) {
        s.last()
    } else {
        min_of(s.drop_last())
    }
}

/// Largest element of a non-empty sequence.
pub open spec fn max_of(s: Seq<u64>) -> u64
    decreases s.len(),
{
    if s.len() <= 1 {
        s[0]
    } else if s.last() > max_of(s.drop_last()) {
        s.last()
    } else {
        max_of(s.drop_last())
    }
}

/// `t` holds the elements of `s` in ascending order.
pub open spec fn is_sorted_perm(t: Seq<u64>, s: Seq<u64>) -> bool {
    &&& forall|i: int, j: int| 0 <= i < j < t.len() ==> t[i] <= t[j]
    &&& t.to_multiset() == s.to_multiset()
}

/// Relies on `<[u64]>::sort_unstable`: the numbers are permuted into ascending order.
#[verifier::external_body]
fn sort_numbers(v: &mut Vec<u64>)
    ensures
        is_sorted_perm(final(v)@, old(v)@),
{
    v.sort_unstable();
}

/// Coefficient of variation below `num / den`, with the population standard
/// deviation: for `n` values with sum `s` and sum of squares `q`, the variance
/// is `(n*q - s*s) / n^2` and the mean `s / n`; a zero mean counts as zero spread.
pub open spec fn cv_below(n: int, s: int, q: int, num: int, den: int) -> bool {
    if s == 0 {
        0 < num
    } else {
        den * den * (n * q - s * s) < num * num * (s * s)
    }
}

/// Descriptive statistics of the compute times of one job, kept exact: sums
/// instead of means, the two middle order statistics instead of a median.
#[derive(Debug, Clone)]
pub struct MeasurementStats {
    /// Number of measurements
    pub count: usize,
    /// Sum of compute times
    pub sum_compute_us: u128,
    /// Sum of squared compute times
    pub sum_sq_compute_us: u128,
    /// Smallest compute time
    pub min_compute_us: u64,
    /// Largest compute time
    pub max_compute_us: u64,
    /// Lower middle compute time: element `(count - 1) / 2` in ascending order
    pub median_low_compute_us: u64,
    /// Upper middle compute time: element `count / 2` in ascending order
    pub median_high_compute_us: u64,
    /// Sum of total times
    pub sum_total_us: u128,
    /// Result token of the first measurement
    pub result: String,
}

impl MeasurementStats {
    /// The statistics describe `ms` exactly.
    pub open spec fn describes(&self, ms: Seq<Measurement>) -> bool {
        let c = compute_times(ms);
        &&& ms.len() > 0
        &&& self.count == ms.len()
        &&& self.sum_compute_us == sum_of(c)
        &&& self.sum_sq_compute_us == sum_sq_of(c)
        &&& self.min_compute_us == min_of(c)
        &&& self.max_compute_us == max_of(c)
        &&& self.sum_total_us == sum_of(total_times(ms))
        &&& self.result == ms[0].result
        &&& exists|t: Seq<u64>|
            is_sorted_perm(t, c) && self.median_low_compute_us == t[(ms.len() - 1) / 2 as int]
                && self.median_high_compute_us == t[(ms.len() / 2) as int]
    }

    /// Statistics of `measurements`. Fails when there are none, or when the
    /// sum of squared compute times does not fit in 128 bits.
    pub fn from_measurements(measurements: &[Measurement]) -> (r: Result<Self, String>)
        ensures
            measurements@.len() == 0 ==> r is Err,
            measurements@.len() > 0 && sum_sq_of(compute_times(measurements@)) > u128::MAX
                ==> r is Err,
            measurements@.len() > 0 && sum_sq_of(compute_times(measurements@)) <= u128::MAX
                ==> r is Ok && r->Ok_0.describes(measurements@),
    {
        let n = measurements.len();
        if n == 0 {
            return Err(String::from_str("Cannot compute stats from empty measurements"));
        }
        let ghost c = compute_times(measurements@);
        let ghost tt = total_times(measurements@);
        let mut sum: u128 = 0;
        let mut sum_sq: u128 = 0;
        let mut sum_total: u128 = 0;
        let mut lo: u64 = measurements[0].compute_us;
        let mut hi: u64 = measurements[0].compute_us;
        let mut times: Vec<u64> = Vec::new();
        let mut i: usize = 0;
        while i < n
            invariant
                0 < n == measurements@.len(),
                i <= n,
                c == compute_times(measurements@),
                tt == total_times(measurements@),
                times@ == c.take(i as int),
                sum == sum_of(c.take(i as int)),
                sum_total == sum_of(tt.take(i as int)),
                sum <= i * 0xffff_ffff_ffff_ffffu128,
                sum_total <= i * 0xffff_ffff_ffff_ffffu128,
                sum_sq == sum_sq_of(c.take(i as int)),
                i > 0 ==> lo == min_of(c.take(i as int)) && hi == max_of(c.take(i as int)),
                i == 0 ==> lo == c[0] && hi == c[0],
            decreases n - i,
        {
            let x = measurements[i].compute_us;
            let y = measurements[i].total_us;
            assert(c.take(i + 1).drop_last() =~= c.take(i as int));
            assert(tt.take(i + 1).drop_last() =~= tt.take(i as int));
            assert(c[i as int] == x && tt[i as int] == y);
            proof {
                lemma_square_fits(x);
            }
            let sq = (x as u128) * (x as u128);
            match sum_sq.checked_add(sq) {
                Some(v) => {
                    sum_sq = v;
                },
                None => {
                    proof {
                        lemma_sum_sq_prefix(c, i + 1);
                    }
                    return Err(String::from_str("compute times too large for exact statistics"));
                },
            }
            assert(i < 0x1_0000_0000_0000_0000);
            sum = sum + x as u128;
            sum_total = sum_total + y as u128;
            if i > 0 {
                if x < lo {
                    lo = x;
                }
                if x > hi {
                    hi = x;
                }
            }
            times.push(x);
            i += 1;
        }
        assert(c.take(n as int) =~= c);
        assert(tt.take(n as int) =~= tt);
        let ghost unsorted = times@;
        sort_numbers(&mut times);
        proof {
            assert(times@.len() == unsorted.len()) by {
                broadcast use vstd::seq_lib::group_to_multiset_ensures;

                assert(times@.to_multiset().len() == unsorted.to_multiset().len());
            }
        }
        let stats = MeasurementStats {
            count: n,
            sum_compute_us: sum,
            sum_sq_compute_us: sum_sq,
            min_compute_us: lo,
            max_compute_us: hi,
            median_low_compute_us: times[(n - 1) / 2],
            median_high_compute_us: times[n / 2],
            sum_total_us: sum_total,
            result: measurements[0].result.clone(),
        };
        assert(is_sorted_perm(times@, c));
        Ok(stats)
    }

    /// Whether the products of the stability test fit in 128 bits for the
    /// threshold `num / den`.
    pub open spec fn stability_fits(&self, num: u64, den: u64) -> bool {
        &&& den * den * self.count <= u128::MAX
        &&& den * den * self.count * self.sum_sq_compute_us <= u128::MAX
        &&& num * num + den * den <= u128::MAX
        &&& self.sum_compute_us * self.sum_compute_us <= u128::MAX
        &&& (num * num + den * den) * (self.sum_compute_us * self.sum_compute_us) <= u128::MAX
    }

    /// Whether the stability test can be computed for the threshold `num / den`.
    pub fn stability_computable(&self, num: u64, den: u64) -> (r: bool)
        ensures
            r == self.stability_fits(num, den),
    {
        proof {
            lemma_square_fits(den);
            lemma_square_fits(num);
        }
        let d2 = (den as u128) * (den as u128);
        let n2 = (num as u128) * (num as u128);
        let lhs = match d2.checked_mul(self.count as u128) {
            Some(v) => v.checked_mul(self.sum_sq_compute_us),
            None => None,
        };
        let s2 = self.sum_compute_us.checked_mul(self.sum_compute_us);
        let rhs = match (n2.checked_add(d2), s2) {
            (Some(f), Some(g)) => f.checked_mul(g),
            _ => None,
        };
        lhs.is_some() && rhs.is_some()
    }

    /// Stable when the coefficient of variation of the compute times is
    /// strictly below `num / den`.
    pub fn is_stable(&self, num: u64, den: u64) -> (r: bool)
        requires
            den > 0,
            self.stability_fits(num, den),
        ensures
            r == cv_below(
                self.count as int,
                self.sum_compute_us as int,
                self.sum_sq_compute_us as int,
                num as int,
                den as int,
            ),
    {
        if self.sum_compute_us == 0 {
            return num > 0;
        }
        proof {
            lemma_square_fits(den);
            lemma_square_fits(num);
        }
        let d2 = (den as u128) * (den as u128);
        let n2 = (num as u128) * (num as u128);
        let s = self.sum_compute_us;
        let lhs = d2 * (self.count as u128) * self.sum_sq_compute_us;
        let rhs = (n2 + d2) * (s * s);
        assert((lhs < rhs) == cv_below(
            self.count as int,
            s as int,
            self.sum_sq_compute_us as int,
            num as int,
            den as int,
        )) by (nonlinear_arith)
            requires
                lhs == d2 * self.count * self.sum_sq_compute_us,
                rhs == (n2 + d2) * (s * s),
                d2 == den * den,
                n2 == num * num,
                s != 0,
        ;
        lhs < rhs
    }
}

proof fn lemma_sum_remove(t: Seq<u64>, i: int)
    requires
        0 <= i < t.len(),
    ensures
        sum_of(t) == sum_of(t.remove(i)) + t[i],
        sum_sq_of(t) == sum_sq_of(t.remove(i)) + t[i] * t[i],
    decreases t.len(),
{
    if i < t.len() - 1 {
        lemma_sum_remove(t.drop_last(), i);
        assert(t.remove(i).drop_last() =~= t.drop_last().remove(i));
        assert(t.remove(i).last() == t.last());
    } else {
        assert(t.remove(i) =~= t.drop_last());
    }
}

proof fn lemma_sums_order_free(s: Seq<u64>, t: Seq<u64>)
    requires
        s.to_multiset() == t.to_multiset(),
    ensures
        sum_of(s) == sum_of(t),
        sum_sq_of(s) == sum_sq_of(t),
    decreases s.len(),
{
    broadcast use vstd::seq_lib::group_to_multiset_ensures;
    broadcast use vstd::multiset::group_multiset_axioms;

    if s.len() == 0 {
        assert(t.to_multiset().len() == 0);
        assert(t.len() == 0);
    } else {
        let x = s.last();
        assert(s.drop_last().push(x) =~= s);
        assert(t.to_multiset().count(x) > 0);
        assert(t.contains(x));
        let i = choose|i: int| 0 <= i < t.len() && t[i] == x;
        lemma_sum_remove(t, i);
        assert(t.remove(i).to_multiset() =~= t.to_multiset().remove(x));
        assert(s.drop_last().to_multiset() =~= s.to_multiset().remove(x));
        lemma_sums_order_free(s.drop_last(), t.remove(i));
    }
}

proof fn lemma_min_max_bound(s: Seq<u64>)
    requires
        s.len() > 0,
    ensures
        s.contains(min_of(s)),
        s.contains(max_of(s)),
        forall|i: int| 0 <= i < s.len() ==> min_of(s) <= #[trigger] s[i] && s[i] <= max_of(s),
    decreases s.len(),
{
    if s.len() > 1 {
        lemma_min_max_bound(s.drop_last());
        assert forall|i: int| 0 <= i < s.len() implies min_of(s) <= #[trigger] s[i] && s[i]
            <= max_of(s) by {
            if i < s.len() - 1 {
                assert(s[i] == s.drop_last()[i]);
            }
        }
        let lo = min_of(s.drop_last());
        let hi = max_of(s.drop_last());
        let j = choose|j: int| 0 <= j < s.drop_last().len() && s.drop_last()[j] == lo;
        let k = choose|k: int| 0 <= k < s.drop_last().len() && s.drop_last()[k] == hi;
        assert(s[j] == lo && s[k] == hi);
        assert(s[s.len() - 1] == s.last());
    } else {
        assert(s[0] == min_of(s));
    }
}

proof fn lemma_extremes_order_free(s: Seq<u64>, t: Seq<u64>)
    requires
        s.len() > 0,
        s.to_multiset() == t.to_multiset(),
    ensures
        min_of(s) == min_of(t),
        max_of(s) == max_of(t),
{
    broadcast use vstd::seq_lib::group_to_multiset_ensures;

    s.to_multiset_ensures();
    t.to_multiset_ensures();
    assert(t.len() == s.len());
    lemma_min_max_bound(s);
    lemma_min_max_bound(t);
    assert(t.to_multiset().count(min_of(s)) > 0);
    assert(s.to_multiset().count(min_of(t)) > 0);
    assert(t.to_multiset().count(max_of(s)) > 0);
    assert(s.to_multiset().count(max_of(t)) > 0);
    let a = choose|i: int| 0 <= i < t.len() && t[i] == min_of(s);
    let b = choose|i: int| 0 <= i < s.len() && s[i] == min_of(t);
    let c = choose|i: int| 0 <= i < t.len() && t[i] == max_of(s);
    let d = choose|i: int| 0 <= i < s.len() && s[i] == max_of(t);
    assert(min_of(t) <= t[a] && min_of(s) <= s[b]);
    assert(t[c] <= max_of(t) && s[d] <= max_of(s));
}

proof fn lemma_sorted_unique(t1: Seq<u64>, t2: Seq<u64>)
    requires
        forall|i: int, j: int| 0 <= i < j < t1.len() ==> t1[i] <= t1[j],
        forall|i: int, j: int| 0 <= i < j < t2.len() ==> t2[i] <= t2[j],
        t1.to_multiset() == t2.to_multiset(),
    ensures
        t1 == t2,
    decreases t1.len(),
{
    broadcast use vstd::seq_lib::group_to_multiset_ensures;
    broadcast use vstd::multiset::group_multiset_axioms;

    t1.to_multiset_ensures();
    t2.to_multiset_ensures();
    assert(t1.len() == t2.len());
    if t1.len() == 0 {
        assert(t1 =~= t2);
    } else {
        let x = t1.last();
        let y = t2.last();
        assert(t2.to_multiset().count(x) > 0);
        assert(t1.to_multiset().count(y) > 0);
        let i = choose|i: int| 0 <= i < t2.len() && t2[i] == x;
        let j = choose|j: int| 0 <= j < t1.len() && t1[j] == y;
        if i < t2.len() - 1 {
            assert(t2[i] <= t2[t2.len() - 1]);
        }
        if j < t1.len() - 1 {
            assert(t1[j] <= t1[t1.len() - 1]);
        }
        assert(x == y);
        assert(t1.drop_last().push(x) =~= t1);
        assert(t2.drop_last().push(y) =~= t2);
        assert(t1.drop_last().to_multiset() =~= t1.to_multiset().remove(x));
        assert(t2.drop_last().to_multiset() =~= t2.to_multiset().remove(y));
        lemma_sorted_unique(t1.drop_last(), t2.drop_last());
        assert(t1 =~= t2);
    }
}

/// The statistics of compute times do not depend on the order of the
/// measurements: two runs whose compute times are the same values in any order
/// have the same count, sums, extremes and middle values, hence the same mean,
/// median and standard deviation.
pub proof fn lemma_stats_order_free(
    a: MeasurementStats,
    b: MeasurementStats,
    ma: Seq<Measurement>,
    mb: Seq<Measurement>,
)
    requires
        a.describes(ma),
        b.describes(mb),
        compute_times(ma).to_multiset() == compute_times(mb).to_multiset(),
    ensures
        a.count == b.count,
        a.sum_compute_us == b.sum_compute_us,
        a.sum_sq_compute_us == b.sum_sq_compute_us,
        a.min_compute_us == b.min_compute_us,
        a.max_compute_us == b.max_compute_us,
        a.median_low_compute_us == b.median_low_compute_us,
        a.median_high_compute_us == b.median_high_compute_us,
{
    broadcast use vstd::seq_lib::group_to_multiset_ensures;

    let ca = compute_times(ma);
    let cb = compute_times(mb);
    assert(ca.to_multiset().len() == cb.to_multiset().len());
    lemma_sums_order_free(ca, cb);
    lemma_extremes_order_free(ca, cb);
    let ta = choose|t: Seq<u64>|
        is_sorted_perm(t, ca) && a.median_low_compute_us == t[(ma.len() - 1) / 2 as int]
            && a.median_high_compute_us == t[(ma.len() / 2) as int];
    let tb = choose|t: Seq<u64>|
        is_sorted_perm(t, cb) && b.median_low_compute_us == t[(mb.len() - 1) / 2 as int]
            && b.median_high_compute_us == t[(mb.len() / 2) as int];
    lemma_sorted_unique(ta, tb);
}

proof fn lemma_square_fits(x: u64)
    ensures
        x * x <= 0xffff_ffff_ffff_fffe_0000_0000_0000_0001u128,
{
    assert(x * x <= 0xffff_ffff_ffff_ffffu64 * 0xffff_ffff_ffff_ffffu64) by (nonlinear_arith)
        requires
            x <= 0xffff_ffff_ffff_ffffu64,
    ;
}

proof fn lemma_sum_sq_prefix(s: Seq<u64>, k: int)
    requires
        0 <= k <= s.len(),
    ensures
        sum_sq_of(s) >= sum_sq_of(s.take(k)),
    decreases s.len() - k,
{
    if k < s.len() {
        lemma_sum_sq_prefix(s, k + 1);
        assert(s.take(k + 1).drop_last() =~= s.take(k));
    } else {
        assert(s.take(k) =~= s);
    }
}

/// Whether a job's iteration loop runs again: never past `max_runs`; always
/// below `min_runs`; in between, only while the measurements are not stable.
pub open spec fn runs_again(runs: nat, min_runs: nat, max_runs: nat, stable: bool) -> bool {
    runs < max_runs && (runs < min_runs || !stable)
}

/// Early-stopping decision after `runs` completed iterations, `stable` being
/// the stability verdict on the measurements so far.
pub fn needs_more_runs(runs: usize, min_runs: usize, max_runs: usize, stable: bool) -> (r: bool)
    ensures
        r == runs_again(runs as nat, min_runs as nat, max_runs as nat, stable),
{
    runs < max_runs && (runs < min_runs || !stable)
}

/// Measurements and current statistics of one job.
#[derive(Debug, Clone)]
pub struct JobResult {
    /// The job
    pub job: BuildJob,
    /// Its measurements, in the order they were taken
    pub measurements: Vec<Measurement>,
    /// Statistics of the measurements, once there are any
    pub stats: Option<MeasurementStats>,
}

impl JobResult {
    /// No measurements yet.
    pub fn new(job: BuildJob) -> (r: Self)
        ensures
            r.job == job,
            r.measurements@.len() == 0,
            r.stats is None,
    {
        JobResult { job, measurements: Vec::new(), stats: None }
    }

    /// Appends a measurement and recomputes the statistics.
    pub fn add_measurement(&mut self, measurement: Measurement)
        ensures
            final(self).job == old(self).job,
            final(self).measurements@ == old(self).measurements@.push(measurement),
            final(self).stats is Some <==> sum_sq_of(compute_times(final(self).measurements@))
                <= u128::MAX,
            final(self).stats is Some ==> final(self).stats->0.describes(
                final(self).measurements@,
            ),
    {
        self.measurements.push(measurement);
        self.update_stats();
    }

    fn update_stats(&mut self)
        requires
            old(self).measurements@.len() > 0,
        ensures
            final(self).job == old(self).job,
            final(self).measurements@ == old(self).measurements@,
            final(self).stats is Some <==> sum_sq_of(compute_times(final(self).measurements@))
                <= u128::MAX,
            final(self).stats is Some ==> final(self).stats->0.describes(
                final(self).measurements@,
            ),
    {
        self.stats = match MeasurementStats::from_measurements(self.measurements.as_slice()) {
            Ok(st) => Some(st),
            Err(_) => None,
        };
    }

    /// The number of measurements.
    pub fn measurement_count(&self) -> (r: usize)
        ensures
            r == self.measurements@.len(),
    {
        self.measurements.len()
    }

    /// Whether at least `min_count` measurements were taken.
    pub fn has_sufficient_measurements(&self, min_count: usize) -> (r: bool)
        ensures
            r == (self.measurements@.len() >= min_count),
    {
        self.measurements.len() >= min_count
    }
}

/// Total number of measurements over a sequence of job results.
pub open spec fn measurement_total(s: Seq<JobResult>) -> int
    decreases s.len(),
{
    if s.len() == 0 {
        0
    } else {
        measurement_total(s.drop_last()) + s.last().measurements@.len()
    }
}

/// Index of the first result of job `id`, searching from `k`; -1 if none.
pub open spec fn result_index_from(s: Seq<JobResult>, id: Seq<char>, k: int) -> int
    decreases s.len() - k,
{
    if k < 0 || k >= s.len() {
        -1
    } else if s[k].job.job_id@ == id {
        k
    } else {
        result_index_from(s, id, k + 1)
    }
}

/// The results of a study, in insertion order.
#[derive(Debug, Clone)]
pub struct ResultsCollection {
    results: Vec<JobResult>,
}

impl View for ResultsCollection {
    type V = Seq<JobResult>;

    closed spec fn view(&self) -> Seq<JobResult> {
        self.results@
    }
}

impl ResultsCollection {
    /// An empty collection.
    pub fn new() -> (r: Self)
        ensures
            r@.len() == 0,
    {
        ResultsCollection { results: Vec::new() }
    }

    /// Appends a job's results.
    pub fn add_result(&mut self, result: JobResult)
        ensures
            final(self)@ == old(self)@.push(result),
    {
        self.results.push(result);
    }

    /// All results, in insertion order.
    pub fn results(&self) -> (r: &[JobResult])
        ensures
            r@ == self@,
    {
        self.results.as_slice()
    }

    /// The number of results.
    pub fn len(&self) -> (r: usize)
        ensures
            r == self@.len(),
    {
        self.results.len()
    }

    /// Whether there are no results.
    pub fn is_empty(&self) -> (r: bool)
        ensures
            r == (self@.len() == 0),
    {
        self.results.len() == 0
    }

    /// The first result of job `job_id`, if any.
    pub fn get_result(&self, job_id: &str) -> (r: Option<&JobResult>)
        ensures
            result_index_from(self@, job_id@, 0) < 0 ==> r is None,
            result_index_from(self@, job_id@, 0) >= 0 ==> r is Some && *r->0 == self@[
                result_index_from(self@, job_id@, 0)
            ],
    {
        let mut k: usize = 0;
        while k < self.results.len()
            invariant
                k <= self.results@.len(),
                result_index_from(self.results@, job_id@, 0) == result_index_from(
                    self.results@,
                    job_id@,
                    k as int,
                ),
            decreases self.results@.len() - k,
        {
            if same_text(self.results[k].job.job_id.as_str(), job_id) {
                return Some(&self.results[k]);
            }
            k += 1;
        }
        None
    }

    /// The number of measurements over all results.
    pub fn total_measurements(&self) -> (r: usize)
        requires
            measurement_total(self@) <= usize::MAX,
        ensures
            r == measurement_total(self@),
    {
        let mut total: usize = 0;
        let mut i: usize = 0;
        while i < self.results.len()
            invariant
                i <= self.results@.len(),
                measurement_total(self.results@) <= usize::MAX,
                total == measurement_total(self.results@.take(i as int)),
            decreases self.results@.len() - i,
        {
            assert(self.results@.take(i + 1).drop_last() =~= self.results@.take(i as int));
            proof {
                lemma_total_prefix(self.results@, i + 1);
            }
            total = total + self.results[i].measurement_count();
            i += 1;
        }
        assert(self.results@.take(i as int) =~= self.results@);
        total
    }
}

proof fn lemma_total_prefix(s: Seq<JobResult>, k: int)
    requires
        0 <= k <= s.len(),
    ensures
        measurement_total(s) >= measurement_total(s.take(k)),
    decreases s.len() - k,
{
    if k < s.len() {
        lemma_total_prefix(s, k + 1);
        assert(s.take(k + 1).drop_last() =~= s.take(k));
    } else {
        assert(s.take(k) =~= s);
    }
}

impl Default for ResultsCollection {
    fn default() -> (r: Self)
        ensures
            r@.len() == 0,
    {
        Self::new()
    }
}

} // verus!
