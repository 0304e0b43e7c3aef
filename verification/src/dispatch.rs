//! Fan-out over a batch of probes and aggregation of their outcomes.
//!
//! The dispatcher runs one probe per artifact and insists on a terminal
//! outcome from every one of them: a probe that ends without reporting is a
//! fatal, run-ending condition, while hits and misses are both ordinary.
//! The aggregator reduces the collected outcomes to a total and a hit
//! count; the order in which probes finish never matters, only the counts.

use vstd::prelude::*;

verus! {

use crate::probe::{ProbeEvent, ProbeOutcome, run_probe_script, script_outcome};

/// The per-script view of a batch of probe scripts.
pub open spec fn script_views(scripts: Seq<Vec<ProbeEvent>>) -> Seq<Seq<ProbeEvent>> {
    scripts.map_values(|s: Vec<ProbeEvent>| s@)
}

/// Whether every script in the batch reaches a terminal outcome.
pub open spec fn all_scripts_terminate(scripts: Seq<Seq<ProbeEvent>>) -> bool {
    forall|i: int| 0 <= i < scripts.len() ==> script_outcome(#[trigger] scripts[i]) is Some
}

/// The terminal outcome of each script in the batch, in input order.
pub open spec fn terminal_outcomes(scripts: Seq<Seq<ProbeEvent>>) -> Seq<ProbeOutcome> {
    Seq::new(scripts.len(), |i: int| script_outcome(scripts[i]).unwrap())
}

/// How many of the outcomes are hits.
pub open spec fn hits_of(outcomes: Seq<ProbeOutcome>) -> nat
    decreases outcomes.len(),
{
    if outcomes.len() == 0 {
        0
    } else {
        (hits_of(outcomes.drop_last()) + if outcomes.last() is Hit {
            1nat
        } else {
            0nat
        }) as nat
    }
}

/// There are never more hits than outcomes.
pub proof fn lemma_hits_bounded(outcomes: Seq<ProbeOutcome>)
    ensures
        hits_of(outcomes) <= outcomes.len(),
    decreases outcomes.len(),
{
    if outcomes.len() > 0 {
        lemma_hits_bounded(outcomes.drop_last());
    }
}

/// Run one probe per script and collect every terminal outcome, in input
/// order. Returns `None` — the fatal case — as soon as any probe's script
/// runs out without a terminal response; hits and misses are never errors.
pub fn dispatch_scripts(scripts: &Vec<Vec<ProbeEvent>>, initial_backoff_ms: u64) -> (r: Option<
    Vec<ProbeOutcome>,
>)
    ensures
        r is Some <==> all_scripts_terminate(script_views(scripts@)),
        match r {
            Some(outcomes) => outcomes@ == terminal_outcomes(script_views(scripts@)),
            None => true,
        },
{
    let mut outcomes: Vec<ProbeOutcome> = Vec::new();
    let mut i: usize = 0;
    while i < scripts.len()
        invariant
            i <= scripts@.len(),
            outcomes@.len() == i,
            forall|j: int|
                0 <= j < i ==> {
                    &&& script_outcome(#[trigger] scripts@[j]@) is Some
                    &&& outcomes@[j] == script_outcome(scripts@[j]@).unwrap()
                },
        decreases scripts@.len() - i,
    {
        match run_probe_script(&scripts[i], initial_backoff_ms) {
            Some(sim) => {
                outcomes.push(sim.outcome);
                i = i + 1;
            },
            None => {
                assert(script_views(scripts@)[i as int] == scripts@[i as int]@);
                assert(!all_scripts_terminate(script_views(scripts@)));
                return None;
            },
        }
    }
    assert(outcomes@ =~= terminal_outcomes(script_views(scripts@)));
    Some(outcomes)
}

/// The reduced result of a run: how many probes reported, and how many of
/// them were hits.
#[derive(Clone, Copy, Debug, PartialEq, Eq, Structural)]
pub struct AggregateResult {
    pub count: usize,
    pub hits: usize,
}

impl AggregateResult {
    /// The hit ratio scaled to parts per ten thousand, and zero — rather
    /// than a division failure — for an empty run.
    pub open spec fn hit_ratio_permyriad_spec(self) -> int {
        if self.count == 0 {
            0
        } else {
            (self.hits * 10000) / (self.count as int)
        }
    }

    /// Hit ratio in parts per ten thousand; an empty run reports zero.
    pub fn hit_ratio_permyriad(&self) -> (r: u64)
        requires
            self.hits <= self.count,
        ensures
            r == self.hit_ratio_permyriad_spec(),
            r <= 10000,
    {
        if self.count == 0 {
            0
        } else {
            let scaled: u128 = (self.hits as u128) * 10000;
            let ratio: u128 = scaled / (self.count as u128);
            proof {
                assert(self.hits * 10000 <= self.count * 10000) by (nonlinear_arith)
                    requires
                        self.hits <= self.count,
                ;
                assert((self.hits * 10000) / (self.count as int) <= (self.count * 10000) / (
                self.count as int)) by (nonlinear_arith)
                    requires
                        self.hits * 10000 <= self.count * 10000,
                        self.count > 0,
                ;
                assert((self.count * 10000) / (self.count as int) == 10000) by (nonlinear_arith)
                    requires
                        self.count > 0,
                ;
            }
            ratio as u64
        }
    }
}

/// Count the outcomes and the hits among them.
pub fn aggregate(outcomes: &Vec<ProbeOutcome>) -> (r: AggregateResult)
    ensures
        r.count == outcomes@.len(),
        r.hits == hits_of(outcomes@),
        r.hits <= r.count,
{
    let mut hits: usize = 0;
    let mut i: usize = 0;
    while i < outcomes.len()
        invariant
            i <= outcomes@.len(),
            hits == hits_of(outcomes@.take(i as int)),
            hits <= i,
        decreases outcomes@.len() - i,
    {
        let ghost prefix = outcomes@.take(i as int);
        let ghost next_prefix = outcomes@.take(i as int + 1);
        proof {
            assert(next_prefix.drop_last() =~= prefix);
        }
        if matches!(outcomes[i], ProbeOutcome::Hit) {
            hits = hits + 1;
        }
        i = i + 1;
    }
    proof {
        assert(outcomes@.take(outcomes@.len() as int) =~= outcomes@);
    }
    AggregateResult { count: outcomes.len(), hits }
}

/// Everything one simulated run reports: the aggregated outcome counts and
/// the warning, if any, from the resource-limit adjustment.
pub struct RunReport {
    pub aggregate: AggregateResult,
    pub limit_warning: Option<u64>,
}

/// One whole run of the pipeline on simulated traffic: assess the
/// resource-limit adjustment, dispatch every probe, aggregate.
///
/// The contract pins the aggregate by the scripts alone: whether the limit
/// adjustment succeeded has no bearing on dispatch or aggregation, it only
/// decides the warning in the report. A run fails (`None`) exactly when
/// some probe's script ends without a terminal response.
pub fn simulate_run(
    scripts: &Vec<Vec<ProbeEvent>>,
    initial_backoff_ms: u64,
    limit_raise_result: &Option<u64>,
    effective_limit: u64,
) -> (r: Option<RunReport>)
    ensures
        r is Some <==> all_scripts_terminate(script_views(scripts@)),
        match r {
            Some(report) => {
                &&& report.aggregate.count == scripts@.len()
                &&& report.aggregate.hits == hits_of(terminal_outcomes(script_views(scripts@)))
                &&& report.aggregate.hits <= report.aggregate.count
                &&& report.limit_warning == crate::limits::limit_warning_spec(
                    *limit_raise_result,
                    effective_limit,
                )
            },
            None => true,
        },
{
    let limit_warning = crate::limits::assess_limit_adjustment(limit_raise_result, effective_limit);
    match dispatch_scripts(scripts, initial_backoff_ms) {
        Some(outcomes) => {
            let aggregate_result = aggregate(&outcomes);
            Some(RunReport { aggregate: aggregate_result, limit_warning })
        },
        None => None,
    }
}

/// For every batch in which each probe terminates, the aggregate of the
/// dispatched outcomes counts exactly one outcome per input script, and
/// the hits never exceed that count.
pub proof fn lemma_dispatch_aggregate_counts(scripts: Seq<Seq<ProbeEvent>>)
    requires
        all_scripts_terminate(scripts),
    ensures
        terminal_outcomes(scripts).len() == scripts.len(),
        hits_of(terminal_outcomes(scripts)) <= scripts.len(),
{
    lemma_hits_bounded(terminal_outcomes(scripts));
}

} // verus!
