//! Aggregation of probe outcomes, the stability blend and the composite
//! score.

use crate::common::utils::{lemma_round_div_le, round_div, round_div_exec, speed_score, speed_to_score};
use crate::model::app_config::VerifyConfig;
use crate::model::proxy::{Proxy, ProxyBasic, ProxyCheckResult, ONE};
use crate::service::retry::ProbeAttempt;
use chrono::NaiveDateTime;
use vstd::prelude::*;
use vstd::string::StringExecFns;

verus! {

/// Stability of a candidate that has no stored record: 0.5.
pub const NEUTRAL_STABILITY: u64 = 500_000;

/// Sub-score used when no mean latency is known: 0.1, the lowest step.
pub const SLOWEST_SPEED_SCORE: u64 = 100_000;

/// How thoroughly each candidate is probed.
#[derive(Clone, Copy, Debug, PartialEq, Eq, Structural)]
pub enum VerifyLevel {
    Fast,
    Standard,
    Detailed,
}

impl VerifyLevel {
    /// The level that a configured number selects.
    pub open spec fn spec_from_code(code: u32) -> VerifyLevel {
        if code == 0 {
            VerifyLevel::Fast
        } else if code == 2 {
            VerifyLevel::Detailed
        } else {
            VerifyLevel::Standard
        }
    }

    /// Requests per endpoint for this level.
    pub open spec fn spec_test_count(self) -> u64 {
        match self {
            VerifyLevel::Fast => 1,
            VerifyLevel::Standard => 3,
            VerifyLevel::Detailed => 5,
        }
    }

    /// Retries per request for this level.
    pub open spec fn spec_max_retries(self) -> u8 {
        match self {
            VerifyLevel::Fast => 0,
            VerifyLevel::Standard => 3,
            VerifyLevel::Detailed => 5,
        }
    }

    /// Timeout per request for this level, in seconds, given the configured
    /// timeout: a fixed 3 s when fast, the configured one when standard,
    /// twice that when detailed.
    pub open spec fn spec_timeout(self, configured: u64) -> int {
        match self {
            VerifyLevel::Fast => 3,
            VerifyLevel::Standard => configured as int,
            VerifyLevel::Detailed => 2 * configured,
        }
    }

    pub fn from_code(code: u32) -> (r: VerifyLevel)
        ensures
            r == Self::spec_from_code(code),
    {
        if code == 0 {
            VerifyLevel::Fast
        } else if code == 2 {
            VerifyLevel::Detailed
        } else {
            VerifyLevel::Standard
        }
    }

    /// The preset of this level: requests per endpoint, retries per request,
    /// and the timeout in seconds.
    pub fn preset(self, configured_timeout: u64) -> (r: (u64, u8, u64))
        requires
            self.spec_timeout(configured_timeout) <= u64::MAX,
        ensures
            r.0 == self.spec_test_count(),
            r.1 == self.spec_max_retries(),
            r.2 == self.spec_timeout(configured_timeout),
    {
        match self {
            VerifyLevel::Fast => (1, 0, 3),
            VerifyLevel::Standard => (3, 3, configured_timeout),
            VerifyLevel::Detailed => (5, 5, configured_timeout * 2),
        }
    }
}

/// Weights and probing parameters of one verification batch.
#[derive(Debug)]
pub struct QualityConfig {
    /// Weight of the speed sub-score, in millionths.
    pub speed_weight: u32,
    /// Weight of the success rate, in millionths.
    pub success_weight: u32,
    /// Weight of the stability, in millionths.
    pub stability_weight: u32,
    /// Requests per endpoint.
    pub test_count: u64,
    /// Retries of one request after its first failure.
    pub max_retries: u8,
    /// Timeout of one request, in seconds.
    pub timeout: u64,
    /// Endpoints requested through each candidate.
    pub test_urls: Vec<String>,
    pub verify_level: VerifyLevel,
}

/// A copy of a list of strings.
fn clone_strings(list: &Vec<String>) -> (r: Vec<String>)
    ensures
        r@ == list@,
{
    let mut out: Vec<String> = Vec::new();
    let mut i: usize = 0;
    while i < list.len()
        invariant
            i <= list@.len(),
            out@ == list@.subrange(0, i as int),
        decreases list@.len() - i,
    {
        out.push(list[i].clone());
        assert(out@ == list@.subrange(0, i + 1));
        i = i + 1;
    }
    assert(list@.subrange(0, i as int) == list@);
    out
}

impl QualityConfig {
    /// The default weights are 0.4 for speed and 0.3 each for success rate
    /// and stability; the probing parameters are the preset of the configured
    /// level.
    pub open spec fn is_default_for(&self, verify: &VerifyConfig) -> bool {
        let level = VerifyLevel::spec_from_code(verify.verify_level);
        &&& self.speed_weight == 400_000
        &&& self.success_weight == 300_000
        &&& self.stability_weight == 300_000
        &&& self.test_count == level.spec_test_count()
        &&& self.max_retries == level.spec_max_retries()
        &&& self.timeout == level.spec_timeout(verify.timeout)
        &&& self.test_urls@ == verify.test_urls@
        &&& self.verify_level == level
    }

    /// The configuration of a batch, from what was loaded at start-up.
    pub fn from_config(verify: &VerifyConfig) -> (r: Self)
        requires
            VerifyLevel::spec_from_code(verify.verify_level).spec_timeout(verify.timeout)
                <= u64::MAX,
        ensures
            r.is_default_for(verify),
    {
        let level = VerifyLevel::from_code(verify.verify_level);
        let (test_count, max_retries, timeout) = level.preset(verify.timeout);
        QualityConfig {
            speed_weight: 400_000,
            success_weight: 300_000,
            stability_weight: 300_000,
            test_count,
            max_retries,
            timeout,
            test_urls: clone_strings(&verify.test_urls),
            verify_level: level,
        }
    }

    /// How many attempts one candidate is planned to get: one per endpoint
    /// and request.
    pub open spec fn spec_planned_total(&self) -> int {
        self.test_urls@.len() * self.test_count
    }

    pub fn planned_total(&self) -> (r: u64)
        requires
            self.spec_planned_total() <= u64::MAX,
        ensures
            r == self.spec_planned_total(),
    {
        let n: usize = self.test_urls.len();
        assert(n * self.test_count == self.spec_planned_total());
        (n as u64) * self.test_count
    }
}

impl Clone for QualityConfig {
    fn clone(&self) -> (r: Self)
        ensures
            r.speed_weight == self.speed_weight,
            r.success_weight == self.success_weight,
            r.stability_weight == self.stability_weight,
            r.test_count == self.test_count,
            r.max_retries == self.max_retries,
            r.timeout == self.timeout,
            r.test_urls@ == self.test_urls@,
            r.verify_level == self.verify_level,
    {
        QualityConfig {
            speed_weight: self.speed_weight,
            success_weight: self.success_weight,
            stability_weight: self.stability_weight,
            test_count: self.test_count,
            max_retries: self.max_retries,
            timeout: self.timeout,
            test_urls: clone_strings(&self.test_urls),
            verify_level: self.verify_level,
        }
    }
}

/// The sum of a list of latencies.
pub open spec fn sum_latencies(s: Seq<u64>) -> nat
    decreases s.len(),
{
    if s.len() == 0 {
        0
    } else {
        sum_latencies(s.drop_last()) + s.last() as nat
    }
}

/// The sum of a list with one more latency at its end.
pub proof fn lemma_sum_latencies_push(s: Seq<u64>, x: u64)
    ensures
        sum_latencies(s.push(x)) == sum_latencies(s) + x,
{
    assert(s.push(x).drop_last() == s);
}

/// The sum of two lists joined is the sum of their sums.
pub proof fn lemma_sum_latencies_concat(a: Seq<u64>, b: Seq<u64>)
    ensures
        sum_latencies(a + b) == sum_latencies(a) + sum_latencies(b),
    decreases b.len(),
{
    if b.len() == 0 {
        assert(a + b == a);
    } else {
        lemma_sum_latencies_concat(a, b.drop_last());
        assert((a + b).drop_last() == a + b.drop_last());
    }
}

/// The share of `total` planned attempts that succeeded, rounded to two
/// decimal places and given in millionths; 0 when nothing was planned.
pub open spec fn success_rate_of(successes: nat, total: nat) -> nat {
    if total == 0 {
        0
    } else {
        (round_div(100 * successes, total) * 10_000) as nat
    }
}

/// The mean of the latencies, in hundredths of a second, rounded to the
/// nearest; 0 when there are none.
pub open spec fn average_speed_of(latencies: Seq<u64>) -> nat {
    if latencies.len() == 0 {
        0
    } else {
        round_div(sum_latencies(latencies), latencies.len())
    }
}

/// What the probes of one candidate brought: the latency of each attempt
/// that succeeded, in hundredths of a second and in the order recorded, the
/// number of attempts that failed, and the number that was planned.
#[derive(Debug)]
pub struct QualityTestResults {
    pub successes: Vec<u64>,
    pub failures: u64,
    pub total: u64,
}

impl QualityTestResults {
    /// No more attempts are recorded than were planned.
    pub open spec fn wf(&self) -> bool {
        self.successes@.len() + self.failures <= self.total
    }

    /// The number of attempts recorded so far.
    pub open spec fn recorded(&self) -> nat {
        (self.successes@.len() + self.failures) as nat
    }

    /// The success rate of these results.
    pub open spec fn spec_success_rate(&self) -> nat {
        success_rate_of(self.successes@.len(), self.total as nat)
    }

    /// The mean latency of these results.
    pub open spec fn spec_average_speed(&self) -> nat {
        average_speed_of(self.successes@)
    }

    pub fn new(total: u64) -> (r: Self)
        ensures
            r.successes@ == Seq::<u64>::empty(),
            r.failures == 0,
            r.total == total,
            r.wf(),
    {
        QualityTestResults { successes: Vec::new(), failures: 0, total }
    }

    /// Records an attempt that succeeded after `d` hundredths of a second.
    pub fn record_success(&mut self, d: u64)
        requires
            old(self).recorded() < old(self).total,
        ensures
            final(self).successes@ == old(self).successes@.push(d),
            final(self).failures == old(self).failures,
            final(self).total == old(self).total,
            final(self).wf(),
    {
        self.successes.push(d);
    }

    /// Records an attempt that failed.
    pub fn record_failure(&mut self)
        requires
            old(self).recorded() < old(self).total,
        ensures
            final(self).successes@ == old(self).successes@,
            final(self).failures == old(self).failures + 1,
            final(self).total == old(self).total,
            final(self).wf(),
    {
        self.failures = self.failures + 1;
    }

    /// Records one attempt, whichever way it ended.
    pub fn record(&mut self, attempt: ProbeAttempt)
        requires
            old(self).recorded() < old(self).total,
        ensures
            final(self).successes@ == match attempt {
                ProbeAttempt::Success(d) => old(self).successes@.push(d),
                ProbeAttempt::Failure => old(self).successes@,
            },
            final(self).failures == match attempt {
                ProbeAttempt::Success(_) => old(self).failures as int,
                ProbeAttempt::Failure => old(self).failures + 1,
            },
            final(self).total == old(self).total,
            final(self).wf(),
    {
        match attempt {
            ProbeAttempt::Success(d) => self.record_success(d),
            ProbeAttempt::Failure => self.record_failure(),
        }
    }

    pub fn success_rate(&self) -> (r: u64)
        requires
            self.wf(),
        ensures
            r == self.spec_success_rate(),
            r <= ONE,
    {
        if self.total == 0 {
            0
        } else {
            let n: usize = self.successes.len();
            proof {
                lemma_round_div_le((100 * n) as nat, self.total as nat, 100);
            }
            let hundredths: u128 = round_div_exec(100 * (n as u128), self.total as u128);
            (hundredths * 10_000) as u64
        }
    }

    pub fn average_speed(&self) -> (r: u64)
        ensures
            r == self.spec_average_speed(),
    {
        let n: usize = self.successes.len();
        if n == 0 {
            0
        } else {
            let mut sum: u128 = 0;
            let mut i: usize = 0;
            while i < n
                invariant
                    n == self.successes@.len(),
                    i <= n,
                    sum == sum_latencies(self.successes@.subrange(0, i as int)),
                    sum <= i * u64::MAX,
                decreases n - i,
            {
                proof {
                    let prefix = self.successes@.subrange(0, i as int);
                    lemma_sum_latencies_push(prefix, self.successes@[i as int]);
                    assert(prefix.push(self.successes@[i as int]) == self.successes@.subrange(
                        0,
                        i + 1,
                    ));
                    assert(i * u64::MAX + u64::MAX == (i + 1) * u64::MAX) by (nonlinear_arith);
                    assert(i * u64::MAX <= (usize::MAX - 1) * u64::MAX) by (nonlinear_arith)
                        requires
                            i <= usize::MAX - 1,
                    ;
                }
                sum = sum + (self.successes[i] as u128);
                i = i + 1;
            }
            proof {
                assert(self.successes@.subrange(0, n as int) == self.successes@);
                lemma_round_div_le(sum as nat, n as nat, u64::MAX as nat);
            }
            round_div_exec(sum, n as u128) as u64
        }
    }
}

/// The latencies of the attempts that succeeded, in the order of the
/// attempts.
pub open spec fn success_latencies(attempts: Seq<ProbeAttempt>) -> Seq<u64>
    decreases attempts.len(),
{
    if attempts.len() == 0 {
        Seq::empty()
    } else {
        let rest = success_latencies(attempts.drop_last());
        match attempts.last() {
            ProbeAttempt::Success(d) => rest.push(d),
            ProbeAttempt::Failure => rest,
        }
    }
}

/// The number of attempts that failed.
pub open spec fn failure_count(attempts: Seq<ProbeAttempt>) -> nat
    decreases attempts.len(),
{
    if attempts.len() == 0 {
        0
    } else {
        let rest = failure_count(attempts.drop_last());
        match attempts.last() {
            ProbeAttempt::Success(_) => rest,
            ProbeAttempt::Failure => rest + 1,
        }
    }
}

/// Every attempt is counted once, as a success or as a failure.
pub proof fn lemma_attempts_partition(attempts: Seq<ProbeAttempt>)
    ensures
        success_latencies(attempts).len() + failure_count(attempts) == attempts.len(),
    decreases attempts.len(),
{
    if attempts.len() > 0 {
        lemma_attempts_partition(attempts.drop_last());
    }
}

/// The successes and failures of two runs of attempts, one after the other,
/// are those of the first followed by those of the second.
pub proof fn lemma_attempts_concat(first: Seq<ProbeAttempt>, second: Seq<ProbeAttempt>)
    ensures
        success_latencies(first + second) == success_latencies(first) + success_latencies(second),
        failure_count(first + second) == failure_count(first) + failure_count(second),
    decreases second.len(),
{
    if second.len() == 0 {
        assert(first + second == first);
        assert(success_latencies(first) + Seq::<u64>::empty() == success_latencies(first));
    } else {
        lemma_attempts_concat(first, second.drop_last());
        assert((first + second).drop_last() == first + second.drop_last());
        match second.last() {
            ProbeAttempt::Success(d) => {
                assert((success_latencies(first) + success_latencies(second.drop_last())).push(d)
                    == success_latencies(first) + success_latencies(second.drop_last()).push(d));
            },
            ProbeAttempt::Failure => {},
        }
    }
}

/// The order in which the attempts of a candidate report back does not
/// matter: whichever of two runs of attempts comes first, the failures, the
/// success rate and the mean latency are the same.
pub proof fn lemma_attempt_order_irrelevant(
    first: Seq<ProbeAttempt>,
    second: Seq<ProbeAttempt>,
    total: nat,
)
    ensures
        failure_count(first + second) == failure_count(second + first),
        success_rate_of(success_latencies(first + second).len(), total) == success_rate_of(
            success_latencies(second + first).len(),
            total,
        ),
        average_speed_of(success_latencies(first + second)) == average_speed_of(
            success_latencies(second + first),
        ),
{
    lemma_attempts_concat(first, second);
    lemma_attempts_concat(second, first);
    lemma_sum_latencies_concat(success_latencies(first), success_latencies(second));
    lemma_sum_latencies_concat(success_latencies(second), success_latencies(first));
}

/// Gathers the outcomes of a candidate's attempts into one result. An attempt
/// that never reported back leaves the count of recorded attempts below
/// `total`.
pub fn tally_attempts(total: u64, attempts: &Vec<ProbeAttempt>) -> (r: QualityTestResults)
    requires
        attempts@.len() <= total,
    ensures
        r.successes@ == success_latencies(attempts@),
        r.failures == failure_count(attempts@),
        r.total == total,
        r.wf(),
{
    let mut results = QualityTestResults::new(total);
    let mut i: usize = 0;
    while i < attempts.len()
        invariant
            i <= attempts@.len(),
            attempts@.len() <= total,
            results.total == total,
            results.successes@ == success_latencies(attempts@.subrange(0, i as int)),
            results.failures == failure_count(attempts@.subrange(0, i as int)),
        decreases attempts@.len() - i,
    {
        proof {
            lemma_attempts_partition(attempts@.subrange(0, i as int));
            assert(attempts@.subrange(0, i + 1).drop_last() == attempts@.subrange(0, i as int));
        }
        results.record(attempts[i]);
        i = i + 1;
    }
    proof {
        assert(attempts@.subrange(0, i as int) == attempts@);
        lemma_attempts_partition(attempts@);
    }
    results
}

/// The planned attempts of several results together.
pub open spec fn merged_total(results: Seq<QualityTestResults>) -> nat
    decreases results.len(),
{
    if results.len() == 0 {
        0
    } else {
        merged_total(results.drop_last()) + results.last().total as nat
    }
}

/// The failed attempts of several results together.
pub open spec fn merged_failures(results: Seq<QualityTestResults>) -> nat
    decreases results.len(),
{
    if results.len() == 0 {
        0
    } else {
        merged_failures(results.drop_last()) + results.last().failures as nat
    }
}

/// The latencies of several results, one result after the other.
pub open spec fn merged_successes(results: Seq<QualityTestResults>) -> Seq<u64>
    decreases results.len(),
{
    if results.len() == 0 {
        Seq::empty()
    } else {
        merged_successes(results.drop_last()) + results.last().successes@
    }
}

/// Merges the results of a candidate's endpoints into one: the latencies are
/// joined in order, the failures and the planned attempts are added up.
pub fn merge_test_results(results: &[QualityTestResults]) -> (merged: QualityTestResults)
    requires
        forall|i: int| 0 <= i < results@.len() ==> (#[trigger] results@[i]).wf(),
        merged_total(results@) <= u64::MAX,
    ensures
        merged.successes@ == merged_successes(results@),
        merged.failures == merged_failures(results@),
        merged.total == merged_total(results@),
        merged.wf(),
{
    let mut successes: Vec<u64> = Vec::new();
    let mut failures: u64 = 0;
    let mut total: u64 = 0;
    let mut i: usize = 0;
    while i < results.len()
        invariant
            i <= results@.len(),
            forall|k: int| 0 <= k < results@.len() ==> (#[trigger] results@[k]).wf(),
            merged_total(results@) <= u64::MAX,
            successes@ == merged_successes(results@.subrange(0, i as int)),
            failures == merged_failures(results@.subrange(0, i as int)),
            total == merged_total(results@.subrange(0, i as int)),
            successes@.len() + failures <= total,
        decreases results@.len() - i,
    {
        let r = &results[i];
        proof {
            assert(results@.subrange(0, i + 1).drop_last() == results@.subrange(0, i as int));
            assert(results@.subrange(0, i + 1).last() == results@[i as int]);
            lemma_merged_total_prefix(results@, i + 1);
            assert(r.wf());
        }
        let mut j: usize = 0;
        while j < r.successes.len()
            invariant
                j <= r.successes@.len(),
                successes@ == merged_successes(results@.subrange(0, i as int))
                    + r.successes@.subrange(0, j as int),
            decreases r.successes@.len() - j,
        {
            successes.push(r.successes[j]);
            assert(r.successes@.subrange(0, j + 1) == r.successes@.subrange(0, j as int).push(
                r.successes@[j as int],
            ));
            j = j + 1;
        }
        assert(r.successes@.subrange(0, j as int) == r.successes@);
        failures = failures + r.failures;
        total = total + r.total;
        i = i + 1;
    }
    assert(results@.subrange(0, i as int) == results@);
    QualityTestResults { successes, failures, total }
}

/// The planned attempts of the first `n` results are no more than those of
/// all of them.
pub proof fn lemma_merged_total_prefix(results: Seq<QualityTestResults>, n: int)
    requires
        0 <= n <= results.len(),
    ensures
        merged_total(results.subrange(0, n)) <= merged_total(results),
    decreases results.len() - n,
{
    if n < results.len() {
        lemma_merged_total_prefix(results, n + 1);
        assert(results.subrange(0, n + 1).drop_last() == results.subrange(0, n));
    } else {
        assert(results.subrange(0, n) == results);
    }
}

/// The value of an optional figure, or `fallback` where it is absent.
pub open spec fn or_value(figure: Option<u64>, fallback: u64) -> u64 {
    match figure {
        Some(v) => v,
        None => fallback,
    }
}

/// The stability after a pass that measured `new_rate`, given the success
/// rate and the stability of the stored record: seven tenths of the old
/// stability plus three tenths of `1 - delta`, where `delta` is the distance
/// between the two success rates; rounded to the nearest millionth and kept
/// between 0 and 1.
pub open spec fn blend_stability(new_rate: u64, prior_rate: u64, prior_stability: u64) -> u64 {
    let delta: int = if new_rate >= prior_rate {
        new_rate - prior_rate
    } else {
        prior_rate - new_rate
    };
    let raw: int = 7 * prior_stability + 3 * (ONE - delta);
    if raw <= 0 {
        0
    } else if round_div(raw as nat, 10) >= ONE {
        ONE
    } else {
        round_div(raw as nat, 10) as u64
    }
}

/// The stability of a candidate after a pass that measured `new_rate`: the
/// blend with the stored record where there is one, and 0.5 where there is
/// none. A stored record without a success rate counts as 0, one without a
/// stability as 0.5.
pub open spec fn spec_stability(new_rate: u64, prior: Option<Proxy>) -> u64 {
    match prior {
        Some(old) => blend_stability(
            new_rate,
            or_value(old.success_rate, 0),
            or_value(old.stability, NEUTRAL_STABILITY),
        ),
        None => NEUTRAL_STABILITY,
    }
}

/// A candidate without a stored record gets the neutral stability, whatever
/// was measured.
pub proof fn lemma_no_prior_is_neutral(new_rate: u64)
    ensures
        spec_stability(new_rate, None) == 500_000,
{
}

/// Blends a freshly measured success rate with a stored record.
pub fn stability(new_success_rate: u64, prior: Option<&Proxy>) -> (r: u64)
    ensures
        r == spec_stability(
            new_success_rate,
            match prior {
                Some(old) => Some(*old),
                None => None,
            },
        ),
        r <= ONE,
{
    match prior {
        None => NEUTRAL_STABILITY,
        Some(old) => {
            let prior_rate: u64 = match old.success_rate {
                Some(v) => v,
                None => 0,
            };
            let prior_stability: u64 = match old.stability {
                Some(v) => v,
                None => NEUTRAL_STABILITY,
            };
            let delta: u64 = if new_success_rate >= prior_rate {
                new_success_rate - prior_rate
            } else {
                prior_rate - new_success_rate
            };
            let gain: u128 = 7 * (prior_stability as u128) + 3 * (ONE as u128);
            let loss: u128 = 3 * (delta as u128);
            if loss >= gain {
                0
            } else {
                let rounded: u128 = round_div_exec(gain - loss, 10);
                if rounded >= ONE as u128 {
                    ONE
                } else {
                    rounded as u64
                }
            }
        },
    }
}

/// The weighted sum of the three figures: each is multiplied by its weight,
/// the sum is rounded to the nearest millionth and capped at 1.
pub open spec fn weighted_score(
    speed_part: u64,
    success: u64,
    stability: u64,
    speed_weight: u32,
    success_weight: u32,
    stability_weight: u32,
) -> u64 {
    let sum: nat = (speed_part * speed_weight + success * success_weight + stability
        * stability_weight) as nat;
    if round_div(sum, ONE as nat) >= ONE {
        ONE
    } else {
        round_div(sum, ONE as nat) as u64
    }
}

/// The composite score of a set of figures under a configuration. A missing
/// latency gets the lowest speed sub-score; a missing success rate or
/// stability counts as 0.
pub open spec fn spec_score(figures: ProxyCheckResult, config: QualityConfig) -> u64 {
    weighted_score(
        match figures.speed {
            Some(speed) => speed_score(speed),
            None => SLOWEST_SPEED_SCORE,
        },
        or_value(figures.success_rate, 0),
        or_value(figures.stability, 0),
        config.speed_weight,
        config.success_weight,
        config.stability_weight,
    )
}

/// The composite score lies between 0 and 1 for all figures and weights.
pub proof fn lemma_score_bounds(figures: ProxyCheckResult, config: QualityConfig)
    ensures
        0 <= spec_score(figures, config) <= ONE,
{
}

/// Computes the composite score of `proxy` and stores it there; the other
/// figures stay as they are.
pub fn compute_score(proxy: &mut ProxyCheckResult, config: &QualityConfig)
    ensures
        final(proxy).score == Some(spec_score(*old(proxy), *config)),
        spec_score(*old(proxy), *config) <= ONE,
        final(proxy).speed == old(proxy).speed,
        final(proxy).success_rate == old(proxy).success_rate,
        final(proxy).stability == old(proxy).stability,
        final(proxy).last_checked == old(proxy).last_checked,
{
    let speed_part: u64 = match proxy.speed {
        Some(speed) => speed_to_score(speed),
        None => SLOWEST_SPEED_SCORE,
    };
    let success: u64 = match proxy.success_rate {
        Some(v) => v,
        None => 0,
    };
    let stability: u64 = match proxy.stability {
        Some(v) => v,
        None => 0,
    };
    let a: u128 = (speed_part as u128) * (config.speed_weight as u128);
    assert(a <= 1_000_000 * 0xffff_ffff) by (nonlinear_arith)
        requires
            a == speed_part * config.speed_weight,
            speed_part <= 1_000_000,
            config.speed_weight <= 0xffff_ffff,
    ;
    assert(success * config.success_weight <= 0xffff_ffff_ffff_ffff * 0xffff_ffff)
        by (nonlinear_arith)
        requires
            success <= 0xffff_ffff_ffff_ffff,
            config.success_weight <= 0xffff_ffff,
    ;
    assert(stability * config.stability_weight <= 0xffff_ffff_ffff_ffff * 0xffff_ffff)
        by (nonlinear_arith)
        requires
            stability <= 0xffff_ffff_ffff_ffff,
            config.stability_weight <= 0xffff_ffff,
    ;
    let b: u128 = (success as u128) * (config.success_weight as u128);
    let c: u128 = (stability as u128) * (config.stability_weight as u128);
    let rounded: u128 = round_div_exec(a + b + c, ONE as u128);
    let score: u64 = if rounded >= ONE as u128 {
        ONE
    } else {
        rounded as u64
    };
    proxy.score = Some(score);
}

/// The record of a candidate after a verification pass: its identity, the
/// aggregated figures of the probes, the time of the pass, the stability
/// blended with the stored record, and the composite score of it all.
pub open spec fn evaluated(
    proxy: ProxyBasic,
    results: QualityTestResults,
    prior: Option<Proxy>,
    config: QualityConfig,
    now: NaiveDateTime,
    record: Proxy,
) -> bool {
    let rate = results.spec_success_rate() as u64;
    let figures = ProxyCheckResult {
        speed: Some(results.spec_average_speed() as u64),
        success_rate: Some(rate),
        stability: Some(spec_stability(rate, prior)),
        score: None,
        last_checked: Some(now),
    };
    &&& record.spec_basic() == proxy
    &&& record.speed == figures.speed
    &&& record.success_rate == figures.success_rate
    &&& record.stability == figures.stability
    &&& record.last_checked == figures.last_checked
    &&& record.score == Some(spec_score(figures, config))
}

/// Turns the probe results of one candidate into its updated record.
///
/// `prior` is the record that the store holds for the candidate, if any, and
/// `now` the time of this pass.
pub fn evaluate(
    proxy: &ProxyBasic,
    test_results: &QualityTestResults,
    prior: Option<&Proxy>,
    config: &QualityConfig,
    now: NaiveDateTime,
) -> (record: Proxy)
    requires
        test_results.wf(),
    ensures
        evaluated(
            *proxy,
            *test_results,
            match prior {
                Some(old) => Some(*old),
                None => None,
            },
            *config,
            now,
            record,
        ),
        record.spec_result().is_total(),
        record.spec_result().in_bounds(),
{
    let mut result = ProxyCheckResult::default();
    result.speed = Some(test_results.average_speed());
    let rate: u64 = test_results.success_rate();
    result.success_rate = Some(rate);
    result.last_checked = Some(now);
    result.stability = Some(stability(rate, prior));
    compute_score(&mut result, config);
    Proxy::from_parts(proxy.clone(), result)
}

/// The address under which a candidate is used as a forwarding proxy.
pub open spec fn spec_proxy_url(proxy: ProxyBasic) -> Seq<char> {
    "http://"@ + proxy.ip@ + ":"@ + proxy.port@
}

/// Builds the address under which requests are routed through `proxy`.
pub fn proxy_url(proxy: &ProxyBasic) -> (url: String)
    ensures
        url@ == spec_proxy_url(*proxy),
{
    String::from_str("http://").concat(proxy.ip.as_str()).concat(":").concat(proxy.port.as_str())
}

/// `chrono::Utc::now`, turned into a naive date and time by
/// `DateTime::naive_utc`. The value comes from the system clock, so nothing
/// is claimed of it. chrono expects the clock not to stand before 1970.
#[verifier::external_body]
fn now_utc() -> (now: NaiveDateTime) {
    chrono::Utc::now().naive_utc()
}

/// Turns the probe results of one candidate into its updated record, stamped
/// with the time at which this function ran.
pub fn evaluate_now(
    proxy: &ProxyBasic,
    test_results: &QualityTestResults,
    prior: Option<&Proxy>,
    config: &QualityConfig,
) -> (record: Proxy)
    requires
        test_results.wf(),
    ensures
        record.last_checked matches Some(now) && evaluated(
            *proxy,
            *test_results,
            match prior {
                Some(old) => Some(*old),
                None => None,
            },
            *config,
            now,
            record,
        ),
        record.spec_result().is_total(),
        record.spec_result().in_bounds(),
{
    let now = now_utc();
    evaluate(proxy, test_results, prior, config, now)
}

} // verus!
