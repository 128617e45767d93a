//! The build matrix: every benchmark crossed with every chosen configuration.

use crate::config::OptimizationConfig;
use crate::text::{has_prefix, same_text};
use vstd::prelude::*;
use vstd::string::*;

verus! {

/// Names of the benchmark programs, in matrix order.
pub const BENCHMARKS: [&'static str; 10] = [
    "ackermann",
    "fibonacci",
    "prime-sieve",
    "matrix-mult",
    "quicksort",
    "string-parse",
    "hashmap-ops",
    "file-io",
    "json-parse",
    "btreemap-ops",
];

/// The benchmark names as character sequences.
pub open spec fn benchmark_names() -> Seq<Seq<char>> {
    BENCHMARKS@.map_values(|s: &str| s@)
}

/// The job identifier of a benchmark and a configuration: `benchmark-config`.
pub open spec fn job_id_of(benchmark: Seq<char>, config_id: Seq<char>) -> Seq<char> {
    benchmark + "-"@ + config_id
}

/// One benchmark built under one configuration.
#[derive(Debug, Clone)]
pub struct BuildJob {
    /// Benchmark name
    pub benchmark: String,
    /// Configuration identifier
    pub config_id: String,
    /// `benchmark-config`
    pub job_id: String,
}

impl View for BuildJob {
    type V = (Seq<char>, Seq<char>);

    open spec fn view(&self) -> (Seq<char>, Seq<char>) {
        (self.benchmark@, self.config_id@)
    }
}

impl PartialEq for BuildJob {
    fn eq(&self, o: &BuildJob) -> (r: bool) {
        self.benchmark == o.benchmark && self.config_id == o.config_id
    }
}

impl vstd::std_specs::cmp::PartialEqSpecImpl for BuildJob {
    open spec fn obeys_eq_spec() -> bool {
        true
    }

    open spec fn eq_spec(&self, o: &BuildJob) -> bool {
        self@ == o@
    }
}

impl BuildJob {
    /// The job identifier is derived from the pair.
    pub open spec fn wf(&self) -> bool {
        self.job_id@ == job_id_of(self.benchmark@, self.config_id@)
    }

    /// The job for `benchmark` under `config_id`.
    pub fn new(benchmark: &str, config_id: &str) -> (r: Self)
        ensures
            r.wf(),
            r@ == (benchmark@, config_id@),
    {
        let mut job_id = String::from_str(benchmark);
        job_id.append("-");
        job_id.append(config_id);
        BuildJob {
            benchmark: String::from_str(benchmark),
            config_id: String::from_str(config_id),
            job_id,
        }
    }

    /// A copy of this job.
    pub fn duplicate(&self) -> (r: Self)
        ensures
            r == *self,
    {
        BuildJob {
            benchmark: self.benchmark.clone(),
            config_id: self.config_id.clone(),
            job_id: self.job_id.clone(),
        }
    }

    /// The command that builds this job.
    pub fn build_command(&self) -> (r: String)
        ensures
            r@ == "cargo build -p "@ + self.benchmark@ + " --profile "@ + self.config_id@,
    {
        let mut r = String::from_str("cargo build -p ");
        r.append(self.benchmark.as_str());
        r.append(" --profile ");
        r.append(self.config_id.as_str());
        r
    }

    /// The command that runs this job.
    pub fn run_command(&self) -> (r: String)
        ensures
            r@ == "cargo run -p "@ + self.benchmark@ + " --profile "@ + self.config_id@,
    {
        let mut r = String::from_str("cargo run -p ");
        r.append(self.benchmark.as_str());
        r.append(" --profile ");
        r.append(self.config_id.as_str());
        r
    }

    /// Where the built binary of this job lies.
    pub fn binary_path(&self) -> (r: String)
        ensures
            r@ == "target/"@ + self.config_id@ + "/"@ + self.benchmark@,
    {
        let mut r = String::from_str("target/");
        r.append(self.config_id.as_str());
        r.append("/");
        r.append(self.benchmark.as_str());
        r
    }
}

/// The views of a sequence of jobs.
pub open spec fn job_views(s: Seq<BuildJob>) -> Seq<(Seq<char>, Seq<char>)> {
    s.map_values(|j: BuildJob| j@)
}

/// One benchmark paired with each configuration identifier, in order.
pub open spec fn row_of(benchmark: Seq<char>, ids: Seq<Seq<char>>) -> Seq<(Seq<char>, Seq<char>)> {
    ids.map_values(|c: Seq<char>| (benchmark, c))
}

/// Every benchmark paired with every configuration identifier, benchmark-major.
pub open spec fn cross(names: Seq<Seq<char>>, ids: Seq<Seq<char>>) -> Seq<(Seq<char>, Seq<char>)>
    decreases names.len(),
{
    if names.len() == 0 {
        Seq::empty()
    } else {
        cross(names.drop_last(), ids) + row_of(names.last(), ids)
    }
}

/// The identifiers of a sequence of configurations.
pub open spec fn config_ids_of(s: Seq<OptimizationConfig>) -> Seq<Seq<char>> {
    s.map_values(|c: OptimizationConfig| c.id@)
}

/// The jobs of a sequence that satisfy `keep`, in order.
pub open spec fn jobs_where(s: Seq<BuildJob>, keep: spec_fn(BuildJob) -> bool) -> Seq<BuildJob>
    decreases s.len(),
{
    if s.len() == 0 {
        s
    } else {
        let r = jobs_where(s.drop_last(), keep);
        if keep(s.last()) {
            r.push(s.last())
        } else {
            r
        }
    }
}

/// The benchmark name of a job, or its configuration identifier.
pub open spec fn field_of(j: BuildJob, benchmark: bool) -> Seq<char> {
    if benchmark {
        j.benchmark@
    } else {
        j.config_id@
    }
}

/// The jobs behind a sequence of references.
pub open spec fn job_derefs(s: Seq<&BuildJob>) -> Seq<BuildJob> {
    s.map_values(|j: &BuildJob| *j)
}

/// Character order of `String`: lexicographic by code point.
pub open spec fn text_le(a: Seq<char>, b: Seq<char>) -> bool
    decreases a.len(),
{
    if a.len() == 0 {
        true
    } else if b.len() == 0 {
        false
    } else if a[0] != b[0] {
        (a[0] as u32) < (b[0] as u32)
    } else {
        text_le(a.drop_first(), b.drop_first())
    }
}

/// The character views of a sequence of strings.
pub open spec fn text_views(s: Seq<String>) -> Seq<Seq<char>> {
    s.map_values(|t: String| t@)
}

/// Relies on `<[String]>::sort`: the strings are permuted into `String`'s
/// order, which compares UTF-8 bytes and so agrees with code-point order.
#[verifier::external_body]
fn sort_texts(v: &mut Vec<String>)
    ensures
        text_views(final(v)@).to_multiset() == text_views(old(v)@).to_multiset(),
        forall|i: int, j: int|
            0 <= i < j < final(v)@.len() ==> text_le(final(v)@[i]@, final(v)@[j]@),
{
    v.sort();
}

/// All build jobs of a study.
#[derive(Debug, Clone)]
pub struct BuildMatrix {
    jobs: Vec<BuildJob>,
}

impl View for BuildMatrix {
    type V = Seq<BuildJob>;

    closed spec fn view(&self) -> Seq<BuildJob> {
        self.jobs@
    }
}

impl BuildMatrix {
    /// Every job carries its derived identifier.
    pub open spec fn wf(&self) -> bool {
        forall|i: int| 0 <= i < self@.len() ==> (#[trigger] self@[i]).wf()
    }

    /// An empty matrix.
    pub fn new() -> (r: Self)
        ensures
            r.wf(),
            r@ == Seq::<BuildJob>::empty(),
    {
        BuildMatrix { jobs: Vec::new() }
    }

    /// Every benchmark crossed with every configuration in `configs`.
    pub fn generate(configs: &[OptimizationConfig]) -> (r: Self)
        ensures
            r.wf(),
            job_views(r@) == cross(benchmark_names(), config_ids_of(configs@)),
            r@.len() == 10 * configs@.len(),
    {
        let ghost ids = config_ids_of(configs@);
        let mut matrix = Self::new();
        let names = BENCHMARKS;
        let mut i: usize = 0;
        while i < 10
            invariant
                i <= 10,
                names@ == BENCHMARKS@,
                ids == config_ids_of(configs@),
                matrix.wf(),
                job_views(matrix@) == cross(benchmark_names().take(i as int), ids),
            decreases 10 - i,
        {
            let name = names[i];
            let mut j: usize = 0;
            while j < configs.len()
                invariant
                    i < 10,
                    j <= configs@.len(),
                    names@ == BENCHMARKS@,
                    name@ == benchmark_names()[i as int],
                    ids == config_ids_of(configs@),
                    matrix.wf(),
                    job_views(matrix@) == cross(benchmark_names().take(i as int), ids) + row_of(
                        name@,
                        ids.take(j as int),
                    ),
                decreases configs@.len() - j,
            {
                let job = BuildJob::new(name, configs[j].id.as_str());
                let ghost before = job_views(matrix@);
                matrix.add_job(job);
                proof {
                    assert(job_views(matrix@) =~= before.push(job@));
                    assert(row_of(name@, ids.take(j + 1)) =~= row_of(name@, ids.take(j as int)).push(
                        job@,
                    ));
                }
                j += 1;
            }
            proof {
                assert(ids.take(j as int) =~= ids);
                assert(benchmark_names().take(i + 1).drop_last() =~= benchmark_names().take(
                    i as int,
                ));
            }
            i += 1;
        }
        proof {
            assert(benchmark_names().take(10) =~= benchmark_names());
            lemma_cross_len(benchmark_names(), ids);
        }
        matrix
    }

    /// Appends a job.
    pub fn add_job(&mut self, job: BuildJob)
        requires
            old(self).wf(),
            job.wf(),
        ensures
            final(self).wf(),
            final(self)@ == old(self)@.push(job),
    {
        self.jobs.push(job);
        assert forall|i: int| 0 <= i < self@.len() implies (#[trigger] self@[i]).wf() by {
            if i < old(self)@.len() {
                assert(self@[i] == old(self)@[i]);
            }
        }
    }

    /// All jobs, in order.
    pub fn jobs(&self) -> (r: &[BuildJob])
        ensures
            r@ == self@,
    {
        self.jobs.as_slice()
    }

    /// The number of jobs.
    pub fn len(&self) -> (r: usize)
        ensures
            r == self@.len(),
    {
        self.jobs.len()
    }

    /// Whether there are no jobs.
    pub fn is_empty(&self) -> (r: bool)
        ensures
            r == (self@.len() == 0),
    {
        self.jobs.len() == 0
    }

    /// The jobs of one benchmark, in order.
    pub fn jobs_for_benchmark(&self, benchmark: &str) -> (r: Vec<&BuildJob>)
        ensures
            job_derefs(r@) == jobs_where(self@, |j: BuildJob| j.benchmark@ == benchmark@),
    {
        self.select_jobs(benchmark, true)
    }

    /// The jobs of one configuration, in order.
    pub fn jobs_for_config(&self, config_id: &str) -> (r: Vec<&BuildJob>)
        ensures
            job_derefs(r@) == jobs_where(self@, |j: BuildJob| j.config_id@ == config_id@),
    {
        self.select_jobs(config_id, false)
    }

    /// The distinct benchmark names present, in character order.
    pub fn benchmarks(&self) -> (r: Vec<String>)
        ensures
            text_views(r@).no_duplicates(),
            forall|x: Seq<char>|
                text_views(r@).contains(x) <==> exists|k: int|
                    0 <= k < self@.len() && #[trigger] self@[k].benchmark@ == x,
            forall|i: int, j: int| 0 <= i < j < r@.len() ==> text_le(r@[i]@, r@[j]@),
    {
        let r = self.distinct_sorted(true);
        assert forall|x: Seq<char>|
            text_views(r@).contains(x) <==> exists|k: int|
                0 <= k < self@.len() && #[trigger] self@[k].benchmark@ == x by {
            if exists|k: int| 0 <= k < self@.len() && #[trigger] self@[k].benchmark@ == x {
                let k = choose|k: int| 0 <= k < self@.len() && #[trigger] self@[k].benchmark@ == x;
                assert(field_of(self@[k], true) == x);
            }
        }
        r
    }

    /// The distinct configuration identifiers present, in character order.
    pub fn config_ids(&self) -> (r: Vec<String>)
        ensures
            text_views(r@).no_duplicates(),
            forall|x: Seq<char>|
                text_views(r@).contains(x) <==> exists|k: int|
                    0 <= k < self@.len() && #[trigger] self@[k].config_id@ == x,
            forall|i: int, j: int| 0 <= i < j < r@.len() ==> text_le(r@[i]@, r@[j]@),
    {
        let r = self.distinct_sorted(false);
        assert forall|x: Seq<char>|
            text_views(r@).contains(x) <==> exists|k: int|
                0 <= k < self@.len() && #[trigger] self@[k].config_id@ == x by {
            if exists|k: int| 0 <= k < self@.len() && #[trigger] self@[k].config_id@ == x {
                let k = choose|k: int| 0 <= k < self@.len() && #[trigger] self@[k].config_id@ == x;
                assert(field_of(self@[k], false) == x);
            }
        }
        r
    }

    /// The distinct values of one field over all jobs, sorted.
    fn distinct_sorted(&self, by_benchmark: bool) -> (r: Vec<String>)
        ensures
            text_views(r@).no_duplicates(),
            forall|x: Seq<char>|
                text_views(r@).contains(x) <==> exists|k: int|
                    0 <= k < self@.len() && #[trigger] field_of(self@[k], by_benchmark) == x,
            forall|i: int, j: int| 0 <= i < j < r@.len() ==> text_le(r@[i]@, r@[j]@),
    {
        let mut out: Vec<String> = Vec::new();
        let mut i: usize = 0;
        while i < self.jobs.len()
            invariant
                i <= self.jobs@.len(),
                text_views(out@).no_duplicates(),
                forall|x: Seq<char>|
                    text_views(out@).contains(x) <==> exists|k: int|
                        0 <= k < i && #[trigger] field_of(self.jobs@[k], by_benchmark) == x,
            decreases self.jobs@.len() - i,
        {
            let job = &self.jobs[i];
            let value = if by_benchmark {
                &job.benchmark
            } else {
                &job.config_id
            };
            assert(value@ == field_of(self.jobs@[i as int], by_benchmark));
            let mut seen = false;
            let mut k: usize = 0;
            while k < out.len()
                invariant
                    k <= out@.len(),
                    seen <==> exists|m: int| 0 <= m < k && out@[m]@ == value@,
                decreases out@.len() - k,
            {
                if out[k] == *value {
                    seen = true;
                }
                k += 1;
            }
            let ghost before = text_views(out@);
            if !seen {
                out.push(value.clone());
                proof {
                    assert(text_views(out@) =~= before.push(value@));
                    assert forall|a: int, b: int|
                        0 <= a < b < text_views(out@).len() implies text_views(out@)[a]
                        != text_views(out@)[b] by {
                        if b == before.len() {
                            assert(out@[a]@ == before[a]);
                        }
                    }
                }
            }
            proof {
                assert forall|x: Seq<char>|
                    text_views(out@).contains(x) <==> exists|k: int|
                        0 <= k < i + 1 && #[trigger] field_of(self.jobs@[k], by_benchmark)
                            == x by {
                    if text_views(out@).contains(x) {
                        if x == value@ {
                            assert(field_of(self.jobs@[i as int], by_benchmark) == x);
                        } else {
                            let m = choose|m: int|
                                0 <= m < text_views(out@).len() && text_views(out@)[m] == x;
                            assert(before[m] == x);
                            assert(before.contains(x));
                        }
                    }
                    if exists|k: int|
                        0 <= k < i + 1 && #[trigger] field_of(self.jobs@[k], by_benchmark) == x {
                        let k = choose|k: int|
                            0 <= k < i + 1 && #[trigger] field_of(self.jobs@[k], by_benchmark)
                                == x;
                        if k < i {
                            assert(before.contains(x));
                            let m = choose|m: int| 0 <= m < before.len() && before[m] == x;
                            assert(text_views(out@)[m] == x);
                        } else if seen {
                            let m = choose|m: int| 0 <= m < out@.len() && out@[m]@ == value@;
                            assert(text_views(out@)[m] == x);
                        } else {
                            assert(text_views(out@)[before.len() as int] == x);
                        }
                    }
                }
            }
            i += 1;
        }
        let ghost unsorted = text_views(out@);
        proof {
            unsorted.lemma_multiset_has_no_duplicates();
        }
        sort_texts(&mut out);
        proof {
            broadcast use vstd::seq_lib::group_to_multiset_ensures;

            let sorted = text_views(out@);
            assert forall|x: Seq<char>| sorted.contains(x) <==> unsorted.contains(x) by {
                assert(sorted.to_multiset().count(x) == unsorted.to_multiset().count(x));
            }
            sorted.lemma_multiset_has_no_duplicates_conv();
            assert(self@ == self.jobs@);
            assert forall|x: Seq<char>|
                sorted.contains(x) <==> exists|k: int|
                    0 <= k < self@.len() && #[trigger] field_of(self@[k], by_benchmark) == x by {
                assert(sorted.contains(x) <==> unsorted.contains(x));
            }
        }
        out
    }

    /// The jobs whose benchmark (or, with `by_benchmark` false, configuration) is `key`.
    fn select_jobs(&self, key: &str, by_benchmark: bool) -> (r: Vec<&BuildJob>)
        ensures
            by_benchmark ==> job_derefs(r@) == jobs_where(
                self@,
                |j: BuildJob| j.benchmark@ == key@,
            ),
            !by_benchmark ==> job_derefs(r@) == jobs_where(
                self@,
                |j: BuildJob| j.config_id@ == key@,
            ),
    {
        let ghost keep = if by_benchmark {
            |j: BuildJob| j.benchmark@ == key@
        } else {
            |j: BuildJob| j.config_id@ == key@
        };
        let mut r: Vec<&BuildJob> = Vec::new();
        let mut i: usize = 0;
        while i < self.jobs.len()
            invariant
                i <= self.jobs@.len(),
                keep == (if by_benchmark {
                    |j: BuildJob| j.benchmark@ == key@
                } else {
                    |j: BuildJob| j.config_id@ == key@
                }),
                job_derefs(r@) == jobs_where(self.jobs@.take(i as int), keep),
            decreases self.jobs@.len() - i,
        {
            let job = &self.jobs[i];
            let field = if by_benchmark {
                job.benchmark.as_str()
            } else {
                job.config_id.as_str()
            };
            let ghost before = job_derefs(r@);
            assert(self.jobs@.take(i + 1).drop_last() =~= self.jobs@.take(i as int));
            if same_text(field, key) {
                r.push(job);
                assert(job_derefs(r@) =~= before.push(*job));
            }
            i += 1;
        }
        assert(self.jobs@.take(i as int) =~= self.jobs@);
        r
    }
}

/// The length of a cross product.
pub proof fn lemma_cross_len(names: Seq<Seq<char>>, ids: Seq<Seq<char>>)
    ensures
        cross(names, ids).len() == names.len() * ids.len(),
    decreases names.len(),
{
    if names.len() > 0 {
        lemma_cross_len(names.drop_last(), ids);
        assert((names.len() - 1) * ids.len() + ids.len() == names.len() * ids.len())
            by (nonlinear_arith);
    }
}

/// No name followed by a hyphen begins another name, so `name-config`
/// identifiers can be split back.
pub open spec fn hyphen_separable(names: Seq<Seq<char>>) -> bool {
    forall|a: int, b: int|
        0 <= a < names.len() && 0 <= b < names.len() && a != b ==> !has_prefix(
            #[trigger] names[b],
            #[trigger] names[a] + "-"@,
        )
}

/// The benchmark names are distinct and can be split back out of job identifiers.
pub proof fn lemma_benchmark_names()
    ensures
        benchmark_names().len() == 10,
        benchmark_names().no_duplicates(),
        hyphen_separable(benchmark_names()),
{
    reveal_strlit("ackermann");
    reveal_strlit("fibonacci");
    reveal_strlit("prime-sieve");
    reveal_strlit("matrix-mult");
    reveal_strlit("quicksort");
    reveal_strlit("string-parse");
    reveal_strlit("hashmap-ops");
    reveal_strlit("file-io");
    reveal_strlit("json-parse");
    reveal_strlit("btreemap-ops");
    assert("ackermann"@.len() == 9 && "ackermann"@[0] == 'a');
    assert("fibonacci"@.len() == 9 && "fibonacci"@[0] == 'f' && "fibonacci"@[2] == 'b');
    assert("prime-sieve"@.len() == 11 && "prime-sieve"@[0] == 'p');
    assert("matrix-mult"@.len() == 11 && "matrix-mult"@[0] == 'm');
    assert("quicksort"@.len() == 9 && "quicksort"@[0] == 'q');
    assert("string-parse"@.len() == 12 && "string-parse"@[0] == 's');
    assert("hashmap-ops"@.len() == 11 && "hashmap-ops"@[0] == 'h');
    assert("file-io"@.len() == 7 && "file-io"@[0] == 'f' && "file-io"@[2] == 'l');
    assert("json-parse"@.len() == 10 && "json-parse"@[0] == 'j');
    assert("btreemap-ops"@.len() == 12 && "btreemap-ops"@[0] == 'b');
    reveal_strlit("-");
    assert(benchmark_names() =~= seq![
        "ackermann"@,
        "fibonacci"@,
        "prime-sieve"@,
        "matrix-mult"@,
        "quicksort"@,
        "string-parse"@,
        "hashmap-ops"@,
        "file-io"@,
        "json-parse"@,
        "btreemap-ops"@,
    ]);
    assert forall|a: int, b: int|
        0 <= a < 10 && 0 <= b < 10 && a != b implies !has_prefix(
        #[trigger] benchmark_names()[b],
        #[trigger] benchmark_names()[a] + "-"@,
    ) by {
        let x = benchmark_names()[a];
        let y = benchmark_names()[b];
        if has_prefix(y, x + "-"@) {
            assert(y.subrange(0, (x + "-"@).len() as int)[0] == y[0]);
            assert((x + "-"@)[0] == x[0]);
            if x.len() > 2 {
                assert(y.subrange(0, (x + "-"@).len() as int)[2] == y[2]);
                assert((x + "-"@)[2] == x[2]);
            }
        }
    }
}

/// Job identifiers of separable names determine the benchmark and configuration.
pub proof fn lemma_job_id_injective(b1: Seq<char>, c1: Seq<char>, b2: Seq<char>, c2: Seq<char>)
    requires
        job_id_of(b1, c1) == job_id_of(b2, c2),
        b1 == b2 || (!has_prefix(b2, b1 + "-"@) && !has_prefix(b1, b2 + "-"@)),
    ensures
        b1 == b2,
        c1 == c2,
{
    reveal_strlit("-");
    let t = job_id_of(b1, c1);
    assert("-"@.len() == 1);
    if b1.len() == b2.len() {
        assert(b1 =~= t.subrange(0, b1.len() as int));
        assert(b2 =~= t.subrange(0, b2.len() as int));
        assert(c1 =~= t.subrange(b1.len() + 1 as int, t.len() as int));
        assert(c2 =~= t.subrange(b2.len() + 1 as int, t.len() as int));
    } else if b1.len() < b2.len() {
        assert(b2.subrange(0, b1.len() + 1 as int) =~= b1 + "-"@) by {
            assert forall|k: int| 0 <= k < b1.len() + 1 implies b2.subrange(0, b1.len() + 1 as int)[k]
                == (b1 + "-"@)[k] by {
                assert(t[k] == b2[k]);
            }
        }
    } else {
        assert(b1.subrange(0, b2.len() + 1 as int) =~= b2 + "-"@) by {
            assert forall|k: int| 0 <= k < b2.len() + 1 implies b1.subrange(0, b2.len() + 1 as int)[k]
                == (b2 + "-"@)[k] by {
                assert(t[k] == b1[k]);
            }
        }
    }
}

/// Every entry of a cross product pairs a name with an identifier.
pub proof fn lemma_cross_entry(names: Seq<Seq<char>>, ids: Seq<Seq<char>>, k: int)
    requires
        0 <= k < cross(names, ids).len(),
    ensures
        exists|a: int, b: int|
            0 <= a < names.len() && 0 <= b < ids.len() && cross(names, ids)[k] == (
                names[a],
                ids[b],
            ),
    decreases names.len(),
{
    lemma_cross_len(names, ids);
    let head = cross(names.drop_last(), ids);
    lemma_cross_len(names.drop_last(), ids);
    if k < head.len() {
        lemma_cross_entry(names.drop_last(), ids, k);
        let (a, b) = choose|a: int, b: int|
            0 <= a < names.drop_last().len() && 0 <= b < ids.len() && head[k] == (
                names.drop_last()[a],
                ids[b],
            );
        assert(cross(names, ids)[k] == (names[a], ids[b]));
    } else {
        let b = k - head.len();
        assert(cross(names, ids)[k] == (names[names.len() - 1], ids[b]));
    }
}

/// A cross product of distinct names and distinct identifiers has distinct pairs.
pub proof fn lemma_cross_distinct(names: Seq<Seq<char>>, ids: Seq<Seq<char>>)
    requires
        names.no_duplicates(),
        ids.no_duplicates(),
    ensures
        cross(names, ids).no_duplicates(),
    decreases names.len(),
{
    if names.len() > 0 {
        let init = names.drop_last();
        assert(init.no_duplicates());
        lemma_cross_distinct(init, ids);
        let head = cross(init, ids);
        let row = row_of(names.last(), ids);
        lemma_cross_len(init, ids);
        assert forall|p: int, q: int|
            0 <= p < q < cross(names, ids).len() implies cross(names, ids)[p] != cross(
            names,
            ids,
        )[q] by {
            if q >= head.len() && p < head.len() {
                lemma_cross_entry(init, ids, p);
                let (a, b) = choose|a: int, b: int|
                    0 <= a < init.len() && 0 <= b < ids.len() && head[p] == (init[a], ids[b]);
                assert(init[a] == names[a]);
                assert(cross(names, ids)[q].0 == names.last());
            } else if p >= head.len() {
                assert(cross(names, ids)[p] == row[p - head.len()]);
                assert(cross(names, ids)[q] == row[q - head.len()]);
            } else {
                assert(cross(names, ids)[p] == head[p]);
                assert(cross(names, ids)[q] == head[q]);
            }
        }
    }
}

/// A generated build matrix over distinct configuration identifiers has
/// benchmarks times configurations jobs, and no two of them share a job identifier.
pub proof fn lemma_matrix_jobs_unique(configs: Seq<OptimizationConfig>)
    requires
        config_ids_of(configs).no_duplicates(),
    ensures
        cross(benchmark_names(), config_ids_of(configs)).len() == benchmark_names().len()
            * configs.len(),
        forall|p: int, q: int|
            0 <= p < cross(benchmark_names(), config_ids_of(configs)).len() && 0 <= q < cross(
                benchmark_names(),
                config_ids_of(configs),
            ).len() && p != q ==> job_id_of(
                #[trigger] cross(benchmark_names(), config_ids_of(configs))[p].0,
                cross(benchmark_names(), config_ids_of(configs))[p].1,
            ) != job_id_of(
                #[trigger] cross(benchmark_names(), config_ids_of(configs))[q].0,
                cross(benchmark_names(), config_ids_of(configs))[q].1,
            ),
{
    let names = benchmark_names();
    let ids = config_ids_of(configs);
    let x = cross(names, ids);
    lemma_benchmark_names();
    lemma_cross_len(names, ids);
    lemma_cross_distinct(names, ids);
    assert forall|p: int, q: int|
        0 <= p < x.len() && 0 <= q < x.len() && p != q implies job_id_of(
        #[trigger] x[p].0,
        x[p].1,
    ) != job_id_of(#[trigger] x[q].0, x[q].1) by {
        lemma_cross_entry(names, ids, p);
        lemma_cross_entry(names, ids, q);
        let (a1, b1) = choose|a: int, b: int|
            0 <= a < names.len() && 0 <= b < ids.len() && x[p] == (names[a], ids[b]);
        let (a2, b2) = choose|a: int, b: int|
            0 <= a < names.len() && 0 <= b < ids.len() && x[q] == (names[a], ids[b]);
        if job_id_of(x[p].0, x[p].1) == job_id_of(x[q].0, x[q].1) {
            if a1 != a2 {
                assert(!has_prefix(names[a2], names[a1] + "-"@));
                assert(!has_prefix(names[a1], names[a2] + "-"@));
            }
            lemma_job_id_injective(x[p].0, x[p].1, x[q].0, x[q].1);
            assert(x[p] == x[q]);
        }
    }
}

impl Default for BuildMatrix {
    fn default() -> (r: Self)
        ensures
            r.wf(),
            r@ == Seq::<BuildJob>::empty(),
    {
        Self::new()
    }
}

} // verus!
