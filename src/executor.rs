//! The executor: which ranked opportunities are acted on, and how.

use crate::book::{active_entries, OpportunityBook};
use crate::models::ArbitrageOpportunity;
use vstd::prelude::*;

verus! {

/// The opportunities selected in one pass of the executor. Under a dry run they are
/// only to be logged; otherwise they are to be executed.
pub struct ExecutionPlan<'a> {
    pub simulated: Vec<&'a ArbitrageOpportunity>,
    pub dispatched: Vec<&'a ArbitrageOpportunity>,
}

impl<'a> ExecutionPlan<'a> {
    /// The selected opportunities: the simulated ones under a dry run, else the
    /// dispatched ones.
    pub open spec fn chosen(self, dry_run: bool) -> Seq<&'a ArbitrageOpportunity> {
        if dry_run {
            self.simulated@
        } else {
            self.dispatched@
        }
    }

    /// `o` is among the selected opportunities.
    pub open spec fn selects(self, dry_run: bool, o: ArbitrageOpportunity) -> bool {
        exists|i: int| 0 <= i < self.chosen(dry_run).len() && *self.chosen(dry_run)[i] == o
    }
}

pub open spec fn selection_size(available: nat, max_concurrent: usize) -> int {
    if available < max_concurrent { available as int } else { max_concurrent as int }
}

/// Takes the first `max_concurrent` of a ranked snapshot; under `dry_run` they are
/// all simulated and none is dispatched, otherwise all are dispatched.
pub fn plan_execution<'a>(
    ranked: &Vec<&'a ArbitrageOpportunity>,
    max_concurrent: usize,
    dry_run: bool,
) -> (r: ExecutionPlan<'a>)
    ensures
        r.chosen(dry_run).len() == selection_size(ranked@.len(), max_concurrent),
        forall|i: int| 0 <= i < r.chosen(dry_run).len() ==> #[trigger] r.chosen(dry_run)[i] == ranked@[i],
        dry_run ==> r.dispatched@.len() == 0,
        !dry_run ==> r.simulated@.len() == 0,
{
    let n: usize = if ranked.len() < max_concurrent { ranked.len() } else { max_concurrent };
    let mut chosen: Vec<&'a ArbitrageOpportunity> = Vec::new();
    let mut i: usize = 0;
    while i < n
        invariant
            n <= ranked@.len(),
            i <= n,
            chosen@.len() == i,
            forall|k: int| 0 <= k < i ==> chosen@[k] == ranked@[k],
        decreases n - i,
    {
        chosen.push(ranked[i]);
        i = i + 1;
    }
    if dry_run {
        ExecutionPlan { simulated: chosen, dispatched: Vec::new() }
    } else {
        ExecutionPlan { simulated: Vec::new(), dispatched: chosen }
    }
}

impl OpportunityBook {
    /// The executor's selection from a fresh snapshot of the ranked active entries.
    pub fn execution_plan(&self, max_concurrent: usize, dry_run: bool) -> (r: ExecutionPlan<'_>)
        requires
            self.wf(),
        ensures
            dry_run ==> r.dispatched@.len() == 0,
            !dry_run ==> r.simulated@.len() == 0,
            r.chosen(dry_run).len() == selection_size(active_entries(self.opportunities()).len(), max_concurrent),
            forall|i: int, j: int| 0 <= i < j < r.chosen(dry_run).len()
                ==> crate::book::ranks_before(*r.chosen(dry_run)[i], *r.chosen(dry_run)[j]),
            forall|i: int| 0 <= i < r.chosen(dry_run).len() ==> crate::book::is_active(*#[trigger] r.chosen(dry_run)[i])
                && self.opportunities().contains(*r.chosen(dry_run)[i]),
            forall|j: int| 0 <= j < self.opportunities().len() && crate::book::is_active(#[trigger] self.opportunities()[j])
                ==> r.selects(dry_run, self.opportunities()[j]) || forall|i: int| 0 <= i < r.chosen(dry_run).len()
                    ==> crate::book::ranks_before(*r.chosen(dry_run)[i], self.opportunities()[j]),
    {
        let ranked = self.rank_active();
        let plan = plan_execution(&ranked, max_concurrent, dry_run);
        proof {
            let chosen = plan.chosen(dry_run);
            assert forall|i: int, j: int| 0 <= i < j < chosen.len()
                implies crate::book::ranks_before(*chosen[i], *chosen[j]) by {
                assert(chosen[i] == ranked@[i] && chosen[j] == ranked@[j]);
            }
            assert forall|i: int| 0 <= i < chosen.len() implies crate::book::is_active(*#[trigger] chosen[i])
                && self.opportunities().contains(*chosen[i]) by {
                assert(chosen[i] == ranked@[i]);
            }
            assert forall|j: int| 0 <= j < self.opportunities().len() && crate::book::is_active(#[trigger] self.opportunities()[j])
                implies plan.selects(dry_run, self.opportunities()[j]) || forall|i: int| 0 <= i < chosen.len()
                    ==> crate::book::ranks_before(*chosen[i], self.opportunities()[j]) by {
                let o = self.opportunities()[j];
                let x = choose|x: int| 0 <= x < ranked@.len() && *ranked@[x] == o;
                if x < chosen.len() {
                    assert(*chosen[x] == o);
                } else {
                    assert forall|i: int| 0 <= i < chosen.len() implies crate::book::ranks_before(*chosen[i], o) by {
                        assert(chosen[i] == ranked@[i]);
                    }
                }
            }
        }
        plan
    }
}

} // verus!
