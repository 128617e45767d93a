//! Pathfinder selection: a small, priority-ordered subset of the generated
//! configurations for a cheap pilot run.

use crate::config::OptimizationConfig;
use crate::generator::{matrix_model, views_of};
use crate::text::{contains, has_infix, has_prefix, same_text, starts_with};
use vstd::prelude::*;

verus! {

/// How the pilot subset is chosen.
#[derive(Debug, Clone, Copy, PartialEq, Eq, Structural)]
pub enum PathfinderStrategy {
    /// References, then configurations tagged as extreme
    BaselineAndExtremes,
    /// References, then single-factor variations
    SingleFactorCoverage,
    /// References, key single-factor picks, size, performance, extremes
    Balanced,
}

/// One membership rule of a selection tier.
#[derive(Clone, Copy)]
pub enum Rule {
    /// `baseline` or `standard-release`
    Reference,
    /// Tagged as extreme: `extreme-` prefix or `max-` anywhere
    ExtremeTagged,
    /// A single-factor variation, by its prefix
    SingleFactor,
    /// Size-oriented
    Size,
    /// Performance-oriented
    Performance,
    /// `extreme-` prefix only
    ExtremePrefix,
}

/// Whether an identifier satisfies a rule.
pub open spec fn rule_holds(rule: Rule, id: Seq<char>) -> bool {
    match rule {
        Rule::Reference => id == "baseline"@ || id == "standard-release"@,
        Rule::ExtremeTagged => has_prefix(id, "extreme-"@) || has_infix(id, "max-"@),
        Rule::SingleFactor => has_prefix(id, "opt-"@) || has_prefix(id, "lto-"@) || has_prefix(
            id,
            "codegen-"@,
        ) || has_prefix(id, "pgo-"@) || has_prefix(id, "cpu-"@) || has_prefix(id, "strip-"@),
        Rule::Size => has_infix(id, "size-"@) || has_prefix(id, "opt-s"@),
        Rule::Performance => has_infix(id, "perf-"@) || has_infix(id, "max-"@),
        Rule::ExtremePrefix => has_prefix(id, "extreme-"@),
    }
}

/// The configurations whose identifier satisfies `rule`, in source order.
pub open spec fn matching(s: Seq<OptimizationConfig>, rule: Rule) -> Seq<OptimizationConfig>
    decreases s.len(),
{
    if s.len() == 0 {
        s
    } else {
        let r = matching(s.drop_last(), rule);
        if rule_holds(rule, s.last().id@) {
            r.push(s.last())
        } else {
            r
        }
    }
}

/// The first configuration whose identifier contains `keyword`.
pub open spec fn first_hit(s: Seq<OptimizationConfig>, keyword: Seq<char>) -> Option<
    OptimizationConfig,
>
    decreases s.len(),
{
    if s.len() == 0 {
        None
    } else {
        match first_hit(s.drop_last(), keyword) {
            Some(c) => Some(c),
            None => if has_infix(s.last().id@, keyword) {
                Some(s.last())
            } else {
                None
            },
        }
    }
}

/// The high-value single-factor keywords of the balanced strategy, in priority order.
pub open spec fn balanced_keywords() -> Seq<Seq<char>> {
    seq!["opt-3"@, "lto-thin"@, "lto-fat"@, "codegen-1"@, "cpu-native"@, "pgo-on"@]
}

/// One first hit per keyword, for the keywords that have one.
pub open spec fn keyword_hits(s: Seq<OptimizationConfig>, keywords: Seq<Seq<char>>) -> Seq<
    OptimizationConfig,
>
    decreases keywords.len(),
{
    if keywords.len() == 0 {
        Seq::empty()
    } else {
        let r = keyword_hits(s, keywords.drop_last());
        match first_hit(s, keywords.last()) {
            Some(c) => r.push(c),
            None => r,
        }
    }
}

/// At most the first `k` items.
pub open spec fn capped<T>(s: Seq<T>, k: nat) -> Seq<T> {
    if s.len() <= k {
        s
    } else {
        s.take(k as int)
    }
}

/// All candidates of a strategy, in priority order, before the budget applies.
pub open spec fn candidates(strategy: PathfinderStrategy, s: Seq<OptimizationConfig>) -> Seq<
    OptimizationConfig,
> {
    match strategy {
        PathfinderStrategy::BaselineAndExtremes => matching(s, Rule::Reference) + matching(
            s,
            Rule::ExtremeTagged,
        ),
        PathfinderStrategy::SingleFactorCoverage => matching(s, Rule::Reference) + matching(
            s,
            Rule::SingleFactor,
        ),
        PathfinderStrategy::Balanced => matching(s, Rule::Reference) + keyword_hits(
            s,
            balanced_keywords(),
        ) + matching(s, Rule::Size) + matching(s, Rule::Performance) + matching(
            s,
            Rule::ExtremePrefix,
        ),
    }
}

/// The configurations behind a sequence of references.
pub open spec fn derefs(s: Seq<&OptimizationConfig>) -> Seq<OptimizationConfig> {
    s.map_values(|c: &OptimizationConfig| *c)
}

proof fn lemma_capped_append<T>(a: Seq<T>, b: Seq<T>, k: nat)
    ensures
        capped(capped(a, k) + b, k) == capped(a + b, k),
{
    if a.len() > k {
        assert(capped(a.take(k as int) + b, k) =~= capped(a + b, k));
    }
}

proof fn lemma_capped_full<T>(a: Seq<T>, b: Seq<T>, k: nat)
    requires
        a.len() >= k,
    ensures
        capped(a + b, k) == capped(a, k),
{
    assert(capped(a + b, k) =~= capped(a, k));
}

/// Does `id` satisfy `rule`?
fn rule_matches(rule: Rule, id: &str) -> (r: bool)
    ensures
        r == rule_holds(rule, id@),
{
    match rule {
        Rule::Reference => same_text(id, "baseline") || same_text(id, "standard-release"),
        Rule::ExtremeTagged => starts_with(id, "extreme-") || contains(id, "max-"),
        Rule::SingleFactor => starts_with(id, "opt-") || starts_with(id, "lto-") || starts_with(
            id,
            "codegen-",
        ) || starts_with(id, "pgo-") || starts_with(id, "cpu-") || starts_with(id, "strip-"),
        Rule::Size => contains(id, "size-") || starts_with(id, "opt-s"),
        Rule::Performance => contains(id, "perf-") || contains(id, "max-"),
        Rule::ExtremePrefix => starts_with(id, "extreme-"),
    }
}

/// Appends, in source order, the configurations that satisfy `rule`,
/// stopping once `max` are selected.
fn fill<'a>(
    configs: &'a [OptimizationConfig],
    selected: &mut Vec<&'a OptimizationConfig>,
    rule: Rule,
    max: usize,
)
    requires
        old(selected)@.len() <= max,
    ensures
        final(selected)@.len() <= max,
        derefs(final(selected)@) == capped(
            derefs(old(selected)@) + matching(configs@, rule),
            max as nat,
        ),
{
    let ghost start = derefs(selected@);
    let mut i: usize = 0;
    while i < configs.len()
        invariant
            i <= configs@.len(),
            start == derefs(old(selected)@),
            selected@.len() <= max,
            derefs(selected@) == capped(
                start + matching(configs@.take(i as int), rule),
                max as nat,
            ),
        decreases configs@.len() - i,
    {
        if selected.len() >= max {
            proof {
                let done = start + matching(configs@.take(i as int), rule);
                assert(derefs(selected@).len() == selected@.len());
                assert(done.len() >= max);
                let rest = configs@.subrange(i as int, configs@.len() as int);
                lemma_matching_append(configs@.take(i as int), rest, rule);
                assert(configs@.take(i as int) + rest =~= configs@);
                assert(matching(configs@, rule) == matching(configs@.take(i as int), rule)
                    + matching(rest, rule));
                assert(start + matching(configs@, rule) =~= done + matching(rest, rule));
                lemma_capped_full(done, matching(rest, rule), max as nat);
                assert(derefs(selected@) == capped(done, max as nat));
            }
            return;
        }
        let c = &configs[i];
        let ghost before = derefs(selected@);
        if rule_matches(rule, c.id.as_str()) {
            selected.push(c);
            proof {
                assert(derefs(selected@) =~= before.push(*c));
            }
        }
        proof {
            assert(configs@.take(i + 1).drop_last() =~= configs@.take(i as int));
            let prev = start + matching(configs@.take(i as int), rule);
            if rule_holds(rule, c.id@) {
                assert(start + matching(configs@.take(i + 1), rule) =~= prev.push(*c));
            } else {
                assert(start + matching(configs@.take(i + 1), rule) =~= prev);
            }
        }
        i += 1;
    }
    assert(configs@.take(i as int) =~= configs@);
}

pub proof fn lemma_matching_append(a: Seq<OptimizationConfig>, b: Seq<OptimizationConfig>, rule: Rule)
    ensures
        matching(a + b, rule) == matching(a, rule) + matching(b, rule),
    decreases b.len(),
{
    if b.len() == 0 {
        assert(a + b =~= a);
        assert(matching(a, rule) + matching(b, rule) =~= matching(a, rule));
    } else {
        assert((a + b).drop_last() =~= a + b.drop_last());
        lemma_matching_append(a, b.drop_last(), rule);
        if rule_holds(rule, b.last().id@) {
            assert(matching(a, rule) + matching(b, rule) =~= (matching(a, rule) + matching(
                b.drop_last(),
                rule,
            )).push(b.last()));
        }
    }
}

/// On the generated matrix a balanced pilot of budget 15 holds at most 15
/// configurations and starts with `baseline` and `standard-release`; with a
/// budget of zero (raised to one) it holds exactly one.
pub proof fn lemma_balanced_pilot(configs: Seq<OptimizationConfig>)
    requires
        views_of(configs) == matrix_model(),
    ensures
        capped(candidates(PathfinderStrategy::Balanced, configs), 15).len() <= 15,
        capped(candidates(PathfinderStrategy::Balanced, configs), 15)[0].id@ == "baseline"@,
        capped(candidates(PathfinderStrategy::Balanced, configs), 15)[1].id@
            == "standard-release"@,
        PathfinderSelector::balanced_budget(0) == 1,
        capped(
            candidates(PathfinderStrategy::Balanced, configs),
            PathfinderSelector::balanced_budget(0),
        ).len() == 1,
{
    let m = matrix_model();
    assert(m.len() == 80);
    assert(views_of(configs).len() == configs.len());
    assert(views_of(configs)[0] == configs[0]@);
    assert(views_of(configs)[1] == configs[1]@);
    assert(configs[0].id@ == m[0].id);
    assert(configs[1].id@ == m[1].id);
    let front = configs.take(2);
    let rest = configs.skip(2);
    assert(front + rest =~= configs);
    lemma_matching_append(front, rest, Rule::Reference);
    assert(front.drop_last() =~= configs.take(1));
    assert(configs.take(1).drop_last() =~= configs.take(0));
    assert(configs.take(0).len() == 0);
    assert(matching(configs.take(0), Rule::Reference).len() == 0);
    assert(rule_holds(Rule::Reference, configs[0].id@));
    assert(rule_holds(Rule::Reference, configs[1].id@));
    assert(configs.take(1).last() == configs[0]);
    assert(front.last() == configs[1]);
    assert(matching(configs.take(1), Rule::Reference) =~= seq![configs[0]]);
    assert(matching(front, Rule::Reference) =~= seq![configs[0], configs[1]]);
    let refs = matching(configs, Rule::Reference);
    let c = candidates(PathfinderStrategy::Balanced, configs);
    assert(c[0] == refs[0] && c[1] == refs[1]);
}

/// Keyword `k` of the balanced strategy.
fn balanced_keyword(k: usize) -> (r: &'static str)
    requires
        k < 6,
    ensures
        r@ == balanced_keywords()[k as int],
{
    match k {
        0 => "opt-3",
        1 => "lto-thin",
        2 => "lto-fat",
        3 => "codegen-1",
        4 => "cpu-native",
        _ => "pgo-on",
    }
}

/// The first configuration whose identifier contains `keyword`.
fn find_first<'a>(configs: &'a [OptimizationConfig], keyword: &str) -> (r: Option<
    &'a OptimizationConfig,
>)
    ensures
        match first_hit(configs@, keyword@) {
            Some(c) => r is Some && *r->0 == c,
            None => r is None,
        },
{
    let mut i: usize = 0;
    while i < configs.len()
        invariant
            i <= configs@.len(),
            first_hit(configs@.take(i as int), keyword@) is None,
        decreases configs@.len() - i,
    {
        assert(configs@.take(i + 1).drop_last() =~= configs@.take(i as int));
        if contains(configs[i].id.as_str(), keyword) {
            proof {
                lemma_first_hit_prefix(configs@, i as int + 1, keyword@);
            }
            return Some(&configs[i]);
        }
        i += 1;
    }
    assert(configs@.take(i as int) =~= configs@);
    None
}

proof fn lemma_first_hit_prefix(s: Seq<OptimizationConfig>, n: int, keyword: Seq<char>)
    requires
        0 <= n <= s.len(),
        first_hit(s.take(n), keyword) is Some,
    ensures
        first_hit(s, keyword) == first_hit(s.take(n), keyword),
    decreases s.len() - n,
{
    if n < s.len() {
        assert(s.take(n + 1).drop_last() =~= s.take(n));
        lemma_first_hit_prefix(s, n + 1, keyword);
    } else {
        assert(s.take(n) =~= s);
    }
}

/// Chooses the pilot subset.
#[derive(Debug, Clone)]
pub struct PathfinderSelector {
    strategy: PathfinderStrategy,
    max_configs: usize,
}

impl PathfinderSelector {
    /// The selector is well formed: its budget is at least one.
    pub open spec fn wf(&self) -> bool {
        self.spec_max_configs() >= 1
    }

    /// The selection budget.
    pub closed spec fn spec_max_configs(&self) -> usize {
        self.max_configs
    }

    /// The strategy.
    pub closed spec fn spec_strategy(&self) -> PathfinderStrategy {
        self.strategy
    }

    /// A selector with `strategy`; a budget of zero becomes one.
    pub fn new(strategy: PathfinderStrategy, max_configs: usize) -> (r: Self)
        ensures
            r.wf(),
            r.spec_strategy() == strategy,
            r.spec_max_configs() == if max_configs == 0 {
                1
            } else {
                max_configs
            },
    {
        let max_configs = if max_configs == 0 {
            1
        } else {
            max_configs
        };
        PathfinderSelector { strategy, max_configs }
    }

    /// The budget a balanced selector keeps for a requested `max_configs`.
    pub open spec fn balanced_budget(max_configs: usize) -> nat {
        if max_configs == 0 {
            1
        } else {
            max_configs as nat
        }
    }

    /// A balanced selector.
    pub fn balanced(max_configs: usize) -> (r: Self)
        ensures
            r.wf(),
            r.spec_strategy() == PathfinderStrategy::Balanced,
            r.spec_max_configs() == if max_configs == 0 {
                1
            } else {
                max_configs
            },
    {
        Self::new(PathfinderStrategy::Balanced, max_configs)
    }

    /// The first `max_configs` candidates of the strategy, in priority order.
    pub fn select<'a>(&self, configs: &'a [OptimizationConfig]) -> (r: Vec<&'a OptimizationConfig>)
        requires
            self.wf(),
        ensures
            derefs(r@) == capped(
                candidates(self.spec_strategy(), configs@),
                self.spec_max_configs() as nat,
            ),
    {
        let max = self.max_configs;
        let mut selected: Vec<&'a OptimizationConfig> = Vec::new();
        assert(derefs(selected@) =~= Seq::<OptimizationConfig>::empty());
        fill(configs, &mut selected, Rule::Reference, max);
        assert(Seq::<OptimizationConfig>::empty() + matching(configs@, Rule::Reference)
            =~= matching(configs@, Rule::Reference));
        let ghost refs = matching(configs@, Rule::Reference);
        match self.strategy {
            PathfinderStrategy::BaselineAndExtremes => {
                fill(configs, &mut selected, Rule::ExtremeTagged, max);
                proof {
                    lemma_capped_append(refs, matching(configs@, Rule::ExtremeTagged), max as nat);
                }
            },
            PathfinderStrategy::SingleFactorCoverage => {
                fill(configs, &mut selected, Rule::SingleFactor, max);
                proof {
                    lemma_capped_append(refs, matching(configs@, Rule::SingleFactor), max as nat);
                }
            },
            PathfinderStrategy::Balanced => {
                let ghost hits = keyword_hits(configs@, balanced_keywords());
                let mut k: usize = 0;
                assert(balanced_keywords().take(6) =~= balanced_keywords());
                while k < 6
                    invariant
                        k <= 6,
                        balanced_keywords().take(6) == balanced_keywords(),
                        max == self.spec_max_configs(),
                        refs == matching(configs@, Rule::Reference),
                        hits == keyword_hits(configs@, balanced_keywords()),
                        selected@.len() <= max,
                        derefs(selected@) == capped(
                            refs + keyword_hits(configs@, balanced_keywords().take(k as int)),
                            max as nat,
                        ),
                    ensures
                        selected@.len() <= max,
                        derefs(selected@) == capped(refs + hits, max as nat),
                    decreases 6 - k,
                {
                    let ghost kws = balanced_keywords().take(k as int);
                    let ghost done = refs + keyword_hits(configs@, kws);
                    if selected.len() >= max {
                        proof {
                            lemma_hits_extend(configs@, k as int);
                            let m = keyword_hits(configs@, kws).len() as int;
                            assert(m <= hits.len());
                            let tail = hits.subrange(m, hits.len() as int);
                            assert(hits =~= hits.take(m) + tail);
                            assert(derefs(selected@).len() == selected@.len());
                            assert(done.len() >= max);
                            lemma_capped_full(done, tail, max as nat);
                            assert(done + tail =~= refs + hits);
                        }
                        break;
                    }
                    let keyword = balanced_keyword(k);
                    assert(balanced_keywords().take(k + 1).drop_last() =~= kws);
                    let ghost before = derefs(selected@);
                    match find_first(configs, keyword) {
                        Some(c) => {
                            selected.push(c);
                            proof {
                                assert(derefs(selected@) =~= before.push(*c));
                                assert(refs + keyword_hits(
                                    configs@,
                                    balanced_keywords().take(k + 1),
                                ) =~= done.push(*c));
                            }
                        },
                        None => {},
                    }
                    k += 1;
                }
                fill(configs, &mut selected, Rule::Size, max);
                proof {
                    lemma_capped_append(refs + hits, matching(configs@, Rule::Size), max as nat);
                }
                fill(configs, &mut selected, Rule::Performance, max);
                proof {
                    lemma_capped_append(
                        refs + hits + matching(configs@, Rule::Size),
                        matching(configs@, Rule::Performance),
                        max as nat,
                    );
                }
                fill(configs, &mut selected, Rule::ExtremePrefix, max);
                proof {
                    lemma_capped_append(
                        refs + hits + matching(configs@, Rule::Size) + matching(
                            configs@,
                            Rule::Performance,
                        ),
                        matching(configs@, Rule::ExtremePrefix),
                        max as nat,
                    );
                }
            },
        }
        selected
    }

    /// The selection budget.
    pub fn max_configs(&self) -> (r: usize)
        ensures
            r == self.spec_max_configs(),
    {
        self.max_configs
    }

    /// The strategy.
    pub fn strategy(&self) -> (r: PathfinderStrategy)
        ensures
            r == self.spec_strategy(),
    {
        self.strategy
    }
}

/// The hits of a longer keyword list extend those of its prefix.
proof fn lemma_hits_extend(s: Seq<OptimizationConfig>, k: int)
    requires
        0 <= k <= balanced_keywords().len(),
    ensures
        keyword_hits(s, balanced_keywords().take(k)) == keyword_hits(
            s,
            balanced_keywords(),
        ).take(keyword_hits(s, balanced_keywords().take(k)).len() as int),
        keyword_hits(s, balanced_keywords().take(k)).len() <= keyword_hits(
            s,
            balanced_keywords(),
        ).len(),
    decreases balanced_keywords().len() - k,
{
    let all = balanced_keywords();
    if k < all.len() {
        lemma_hits_extend(s, k + 1);
        assert(all.take(k + 1).drop_last() =~= all.take(k));
        let short = keyword_hits(s, all.take(k));
        let long = keyword_hits(s, all.take(k + 1));
        assert(long.take(short.len() as int) =~= short);
        assert(keyword_hits(s, all).take(short.len() as int) =~= long.take(
            short.len() as int,
        ));
    } else {
        assert(all.take(k) =~= all);
        let h = keyword_hits(s, all);
        assert(h.take(h.len() as int) =~= h);
    }
}

impl Default for PathfinderSelector {
    fn default() -> (r: Self)
        ensures
            r.wf(),
            r.spec_strategy() == PathfinderStrategy::Balanced,
            r.spec_max_configs() == 15,
    {
        Self::balanced(15)
    }
}

} // verus!
