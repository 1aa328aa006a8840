//! The opportunity book: at most one live opportunity per directed key
//! `"{symbol}-{buy venue}-{sell venue}"`.

use crate::models::{ArbitrageOpportunity, OpportunityStatus};
use vstd::prelude::*;

verus! {

/// Default lifetime of an opportunity: five minutes, in milliseconds.
pub const DEFAULT_EXPIRY_MS: i64 = 300000;

/// The directed key of an opportunity.
pub open spec fn key_of(o: ArbitrageOpportunity) -> Seq<char> {
    o.pair.symbol@ + "-"@ + o.buy_exchange@ + "-"@ + o.sell_exchange@
}

/// Builds the directed key of `o`.
pub fn opportunity_key(o: &ArbitrageOpportunity) -> (r: String)
    ensures
        r@ == key_of(*o),
{
    let mut k = o.pair.symbol.clone();
    k.append("-");
    k.append(o.buy_exchange.as_str());
    k.append("-");
    k.append(o.sell_exchange.as_str());
    k
}

/// `a` may be ranked ahead of `b`: a higher profit, or an equal profit and an
/// earlier (or equal) timestamp.
pub open spec fn ranks_before(a: ArbitrageOpportunity, b: ArbitrageOpportunity) -> bool {
    b.profit_percentage.scaled() < a.profit_percentage.scaled() || (
    a.profit_percentage.scaled() == b.profit_percentage.scaled() && a.timestamp <= b.timestamp)
}

pub open spec fn is_active(o: ArbitrageOpportunity) -> bool {
    o.status == OpportunityStatus::Active
}

/// The active opportunities of `s`, in order.
pub open spec fn active_entries(s: Seq<ArbitrageOpportunity>) -> Seq<ArbitrageOpportunity> {
    s.filter(|o: ArbitrageOpportunity| is_active(o))
}

/// More than `expiry` milliseconds have passed between `o`'s timestamp and `now`.
pub open spec fn is_expired(o: ArbitrageOpportunity, now: i64, expiry: i64) -> bool {
    now - o.timestamp > expiry
}

/// `kept` and `removed` are what expiring `before` at `now` leaves and takes out.
pub open spec fn expiry_step(
    before: Seq<ArbitrageOpportunity>,
    kept: Seq<ArbitrageOpportunity>,
    removed: Seq<ArbitrageOpportunity>,
    now: i64,
    expiry: i64,
) -> bool {
    &&& kept == before.filter(|o: ArbitrageOpportunity| !is_expired(o, now, expiry))
    &&& removed == before.filter(|o: ArbitrageOpportunity| is_expired(o, now, expiry)).map_values(
        |o: ArbitrageOpportunity| with_status(o, OpportunityStatus::Expired),
    )
}

pub open spec fn with_status(o: ArbitrageOpportunity, s: OpportunityStatus) -> ArbitrageOpportunity {
    ArbitrageOpportunity { status: s, ..o }
}

/// Keys of a sequence of opportunities are pairwise distinct.
pub open spec fn distinct_keys(s: Seq<ArbitrageOpportunity>) -> bool {
    forall|i: int, j: int| 0 <= i < s.len() && 0 <= j < s.len() && i != j ==> key_of(s[i]) != key_of(s[j])
}

/// Position of the entry under key `k`, if any.
pub open spec fn position_of(s: Seq<ArbitrageOpportunity>, k: Seq<char>) -> Option<int> {
    if exists|i: int| 0 <= i < s.len() && key_of(s[i]) == k {
        Some(choose|i: int| 0 <= i < s.len() && key_of(s[i]) == k)
    } else {
        None
    }
}

/// What `upsert` did with its argument.
#[derive(Clone, Copy, Debug, PartialEq, Eq, Structural)]
pub enum UpsertOutcome {
    /// No entry had the key: the opportunity was added and is to be persisted.
    Inserted,
    /// It beat the stored profit and replaced it: it is to be persisted again.
    Replaced,
    /// Its profit was not higher than the stored one: nothing changed.
    Ignored,
}

/// Live opportunities, one per directed key, in order of first insertion.
pub struct OpportunityBook {
    entries: Vec<ArbitrageOpportunity>,
    expiry_ms: i64,
}

impl OpportunityBook {
    /// The stored opportunities, in order of first insertion.
    pub closed spec fn opportunities(self) -> Seq<ArbitrageOpportunity> {
        self.entries@
    }

    /// The lifetime after which entries expire, in milliseconds.
    pub closed spec fn expiry(self) -> i64 {
        self.expiry_ms
    }

    pub closed spec fn wf(self) -> bool {
        &&& distinct_keys(self.entries@)
        &&& self.expiry_ms >= 0
        &&& forall|i: int| 0 <= i < self.entries@.len() ==> (#[trigger] self.entries@[i]).profit_percentage.wf()
    }

    /// An empty book whose entries expire after `expiry_ms` milliseconds.
    pub fn new(expiry_ms: i64) -> (r: OpportunityBook)
        requires
            expiry_ms >= 0,
        ensures
            r.wf(),
            r.opportunities() == Seq::<ArbitrageOpportunity>::empty(),
            r.expiry() == expiry_ms,
    {
        OpportunityBook { entries: Vec::new(), expiry_ms }
    }

    /// Number of stored entries.
    pub fn len(&self) -> (r: usize)
        ensures
            r == self.opportunities().len(),
    {
        self.entries.len()
    }

    /// The entry stored under `key`.
    pub fn get(&self, key: &str) -> (r: Option<&ArbitrageOpportunity>)
        requires
            self.wf(),
        ensures
            r is Some <==> position_of(self.opportunities(), key@) is Some,
            r matches Some(o) ==> *o == self.opportunities()[position_of(self.opportunities(), key@).unwrap()],
    {
        match self.find(key) {
            Some(i) => Some(&self.entries[i]),
            None => None,
        }
    }

    fn find(&self, key: &str) -> (r: Option<usize>)
        requires
            self.wf(),
        ensures
            r is Some <==> position_of(self.entries@, key@) is Some,
            r matches Some(i) ==> i < self.entries@.len() && key_of(self.entries@[i as int]) == key@
                && position_of(self.entries@, key@) == Some(i as int),
    {
        let mut i: usize = 0;
        while i < self.entries.len()
            invariant
                self.wf(),
                i <= self.entries@.len(),
                forall|k: int| 0 <= k < i ==> key_of(self.entries@[k]) != key@,
            decreases self.entries@.len() - i,
        {
            let k = opportunity_key(&self.entries[i]);
            if crate::models::text_eq(k.as_str(), key) {
                proof {
                    let j = choose|j: int| 0 <= j < self.entries@.len() && key_of(self.entries@[j]) == key@;
                    if j != i {
                        assert(key_of(self.entries@[j]) != key_of(self.entries@[i as int]));
                    }
                }
                return Some(i);
            }
            i = i + 1;
        }
        None
    }

    /// Adds `opp` under its key if no entry has it; replaces the stored entry only
    /// if `opp`'s profit is strictly higher. So the stored profit of every key
    /// never decreases.
    pub fn upsert(&mut self, opp: ArbitrageOpportunity) -> (r: UpsertOutcome)
        requires
            old(self).wf(),
            opp.profit_percentage.wf(),
        ensures
            final(self).wf(),
            final(self).expiry() == old(self).expiry(),
            ({
                let s = old(self).opportunities();
                match position_of(s, key_of(opp)) {
                    None => r == UpsertOutcome::Inserted && final(self).opportunities() == s.push(opp),
                    Some(j) => if s[j].profit_percentage.spec_lt(opp.profit_percentage) {
                        r == UpsertOutcome::Replaced && final(self).opportunities() == s.update(j, opp)
                    } else {
                        r == UpsertOutcome::Ignored && final(self).opportunities() == s
                    },
                }
            }),
            old(self).opportunities().len() <= final(self).opportunities().len(),
            forall|i: int| 0 <= i < old(self).opportunities().len() ==> {
                &&& key_of(#[trigger] final(self).opportunities()[i]) == key_of(old(self).opportunities()[i])
                &&& old(self).opportunities()[i].profit_percentage.spec_le(final(self).opportunities()[i].profit_percentage)
            },
    {
        let key = opportunity_key(&opp);
        match self.find(key.as_str()) {
            None => {
                proof {
                    assert forall|i: int, j: int|
                        0 <= i < self.entries@.push(opp).len() && 0 <= j < self.entries@.push(opp).len() && i != j
                        implies key_of(self.entries@.push(opp)[i]) != key_of(self.entries@.push(opp)[j]) by {
                        if i < self.entries@.len() && j == self.entries@.len() {
                            assert(key_of(self.entries@[i]) != key@);
                        }
                        if j < self.entries@.len() && i == self.entries@.len() {
                            assert(key_of(self.entries@[j]) != key@);
                        }
                    }
                }
                self.entries.push(opp);
                UpsertOutcome::Inserted
            },
            Some(i) => {
                if self.entries[i].profit_percentage.lt(&opp.profit_percentage) {
                    self.entries.set(i, opp);
                    UpsertOutcome::Replaced
                } else {
                    UpsertOutcome::Ignored
                }
            },
        }
    }

    /// `expire` at the current time, which is handed back with the expired
    /// entries.
    pub fn expire_stale(&mut self) -> (r: (Vec<ArbitrageOpportunity>, i64))
        requires
            old(self).wf(),
        ensures
            final(self).wf(),
            final(self).expiry() == old(self).expiry(),
            expiry_step(old(self).opportunities(), final(self).opportunities(), r.0@, r.1, old(self).expiry()),
            distinct_keys(r.0@),
            forall|i: int| 0 <= i < r.0@.len() ==> position_of(final(self).opportunities(), key_of(#[trigger] r.0@[i])) is None,
    {
        let now = crate::calculator::now_millis();
        let r = self.expire(now);
        (r, now)
    }

    /// Moves the entry under `key` to the terminal `status` and takes it out of the
    /// book, handing it back for persisting; a later opportunity with that key is
    /// then a new entry.
    pub fn mark(&mut self, key: &str, status: OpportunityStatus) -> (r: Option<ArbitrageOpportunity>)
        requires
            old(self).wf(),
            status != OpportunityStatus::Active,
        ensures
            final(self).wf(),
            final(self).expiry() == old(self).expiry(),
            match position_of(old(self).opportunities(), key@) {
                None => r is None && final(self).opportunities() == old(self).opportunities(),
                Some(j) => r == Some(with_status(old(self).opportunities()[j], status))
                    && final(self).opportunities() == old(self).opportunities().remove(j),
            },
            position_of(final(self).opportunities(), key@) is None,
    {
        match self.find(key) {
            None => None,
            Some(i) => {
                let ghost before = self.entries@;
                let mut o = self.entries.remove(i);
                proof {
                    let after = self.entries@;
                    assert forall|a: int, b: int| 0 <= a < after.len() && 0 <= b < after.len() && a != b
                        implies key_of(after[a]) != key_of(after[b]) by {
                        let a0 = if a < i { a } else { a + 1 };
                        let b0 = if b < i { b } else { b + 1 };
                        assert(after[a] == before[a0] && after[b] == before[b0]);
                    }
                    assert forall|a: int| 0 <= a < after.len() implies (#[trigger] after[a]).profit_percentage.wf() by {
                        if a < i {
                            assert(after[a] == before[a]);
                        } else {
                            assert(after[a] == before[a + 1]);
                        }
                    }
                }
                proof {
                    let after = self.entries@;
                    if exists|a: int| 0 <= a < after.len() && key_of(after[a]) == key@ {
                        let a = choose|a: int| 0 <= a < after.len() && key_of(after[a]) == key@;
                        let a0 = if a < i { a } else { a + 1 };
                        assert(after[a] == before[a0]);
                        assert(key_of(before[i as int]) == key@);
                    }
                }
                o.status = status;
                Some(o)
            },
        }
    }

    /// The active entries, best first: by profit descending, then by earlier
    /// timestamp.
    pub fn rank_active(&self) -> (r: Vec<&ArbitrageOpportunity>)
        requires
            self.wf(),
        ensures
            forall|i: int, j: int| 0 <= i < j < r@.len() ==> ranks_before(*r@[i], *r@[j]),
            forall|i: int| 0 <= i < r@.len() ==> is_active(*#[trigger] r@[i])
                && self.opportunities().contains(*r@[i]),
            forall|j: int| 0 <= j < self.opportunities().len() && is_active(#[trigger] self.opportunities()[j])
                ==> exists|i: int| 0 <= i < r@.len() && *r@[i] == self.opportunities()[j],
            r@.len() == active_entries(self.opportunities()).len(),
    {
        let mut r: Vec<&ArbitrageOpportunity> = Vec::new();
        let mut n: usize = 0;
        while n < self.entries.len()
            invariant
                self.wf(),
                n <= self.entries@.len(),
                forall|i: int, j: int| 0 <= i < j < r@.len() ==> ranks_before(*r@[i], *r@[j]),
                forall|i: int| 0 <= i < r@.len() ==> is_active(*#[trigger] r@[i])
                    && self.entries@.contains(*r@[i]) && r@[i].profit_percentage.wf(),
                forall|j: int| 0 <= j < n && is_active(#[trigger] self.entries@[j])
                    ==> exists|i: int| 0 <= i < r@.len() && *r@[i] == self.entries@[j],
                r@.len() == active_entries(self.entries@.take(n as int)).len(),
            decreases self.entries@.len() - n,
        {
            let e = &self.entries[n];
            proof {
                assert(self.entries@.take(n + 1) == self.entries@.take(n as int).push(*e));
                self.entries@.take(n as int).lemma_filter_push(*e, |o: ArbitrageOpportunity| is_active(o));
            }
            if e.status == OpportunityStatus::Active {
                let mut p: usize = 0;
                while p < r.len() && ranked_ahead(r[p], e)
                    invariant
                        p <= r@.len(),
                        e.profit_percentage.wf(),
                        forall|i: int| 0 <= i < r@.len() ==> (#[trigger] r@[i]).profit_percentage.wf(),
                        forall|q: int| 0 <= q < p ==> ranks_before(*r@[q], *e),
                    decreases r@.len() - p,
                {
                    p = p + 1;
                }
                let ghost old_r = r@;
                r.insert(p, e);
                proof {
                    assert forall|i: int, j: int| 0 <= i < j < r@.len() implies ranks_before(*r@[i], *r@[j]) by {
                        if p < old_r.len() {
                            assert(!ranks_before(*old_r[p as int], *e));
                        }
                        if i < p && j == p {
                        } else if i == p && j > p {
                            assert(ranks_before(*old_r[p as int], *old_r[j - 1]) || j - 1 == p);
                        } else if i < p && j > p {
                            assert(r@[i] == old_r[i] && r@[j] == old_r[j - 1]);
                        } else if i > p {
                            assert(r@[i] == old_r[i - 1] && r@[j] == old_r[j - 1]);
                        } else {
                            assert(r@[i] == old_r[i] && r@[j] == old_r[j]);
                        }
                    }
                    assert forall|i: int| 0 <= i < r@.len() implies is_active(*#[trigger] r@[i])
                        && self.entries@.contains(*r@[i]) && r@[i].profit_percentage.wf() by {
                        if i < p {
                            assert(r@[i] == old_r[i]);
                        } else if i > p {
                            assert(r@[i] == old_r[i - 1]);
                        } else {
                            assert(self.entries@[n as int] == *e);
                            assert(self.entries@.contains(*e));
                        }
                    }
                    assert forall|j: int| 0 <= j < n + 1 && is_active(#[trigger] self.entries@[j])
                        implies exists|i: int| 0 <= i < r@.len() && *r@[i] == self.entries@[j] by {
                        if j < n {
                            let i0 = choose|i: int| 0 <= i < old_r.len() && *old_r[i] == self.entries@[j];
                            if i0 < p {
                                assert(*r@[i0] == self.entries@[j]);
                            } else {
                                assert(*r@[i0 + 1] == self.entries@[j]);
                            }
                        } else {
                            assert(*r@[p as int] == self.entries@[j]);
                        }
                    }
                }
            }
            n = n + 1;
        }
        assert(self.entries@.take(n as int) == self.entries@);
        r
    }

    /// Removes every entry older than the expiry, and hands each back once,
    /// marked `Expired`, in book order, for persisting.
    pub fn expire(&mut self, now: i64) -> (r: Vec<ArbitrageOpportunity>)
        requires
            old(self).wf(),
        ensures
            final(self).wf(),
            final(self).expiry() == old(self).expiry(),
            final(self).opportunities() == old(self).opportunities().filter(
                |o: ArbitrageOpportunity| !is_expired(o, now, old(self).expiry()),
            ),
            r@ == old(self).opportunities().filter(
                |o: ArbitrageOpportunity| is_expired(o, now, old(self).expiry()),
            ).map_values(|o: ArbitrageOpportunity| with_status(o, OpportunityStatus::Expired)),
            distinct_keys(r@),
            forall|i: int| 0 <= i < r@.len() ==> (#[trigger] r@[i]).status == OpportunityStatus::Expired,
            forall|i: int| 0 <= i < r@.len() ==> position_of(final(self).opportunities(), key_of(#[trigger] r@[i])) is None,
    {
        let mut pending: Vec<ArbitrageOpportunity> = Vec::new();
        std::mem::swap(&mut pending, &mut self.entries);
        let total = pending.len();
        let ghost orig = pending@;
        let ghost expiry = self.expiry_ms;
        let mut removed: Vec<ArbitrageOpportunity> = Vec::new();
        let mut i: usize = 0;
        while pending.len() > 0
            invariant
                expiry == self.expiry_ms,
                self.expiry_ms >= 0,
                orig.len() == total,
                i + pending@.len() == orig.len(),
                pending@ == orig.subrange(i as int, orig.len() as int),
                self.entries@ == orig.take(i as int).filter(|o: ArbitrageOpportunity| !is_expired(o, now, expiry)),
                removed@ == orig.take(i as int).filter(|o: ArbitrageOpportunity| is_expired(o, now, expiry)).map_values(
                    |o: ArbitrageOpportunity| with_status(o, OpportunityStatus::Expired),
                ),
            decreases pending@.len(),
        {
            let mut o = pending.remove(0);
            proof {
                assert(orig[i as int] == o);
                assert(orig.take(i + 1) == orig.take(i as int).push(o));
                orig.take(i as int).lemma_filter_push(o, |o: ArbitrageOpportunity| !is_expired(o, now, expiry));
                orig.take(i as int).lemma_filter_push(o, |o: ArbitrageOpportunity| is_expired(o, now, expiry));
                assert(pending@ == orig.subrange(i + 1, orig.len() as int));
            }
            if (now as i128) - (o.timestamp as i128) > (self.expiry_ms as i128) {
                o.status = OpportunityStatus::Expired;
                removed.push(o);
                proof {
                    let f = |o: ArbitrageOpportunity| is_expired(o, now, expiry);
                    let m = |o: ArbitrageOpportunity| with_status(o, OpportunityStatus::Expired);
                    assert(orig.take(i + 1).filter(f) == orig.take(i as int).filter(f).push(orig[i as int]));
                    assert(removed@ == orig.take(i + 1).filter(f).map_values(m));
                }
            } else {
                self.entries.push(o);
            }
            i = i + 1;
        }
        proof {
            assert(orig.take(i as int) == orig);
            let keep = |o: ArbitrageOpportunity| !is_expired(o, now, expiry);
            assert forall|a: int| 0 <= a < orig.filter(keep).len()
                implies #[trigger] orig.filter(keep)[a].profit_percentage.wf() by {
                orig.lemma_filter_contains_rev(keep, orig.filter(keep)[a]);
                assert(orig.filter(keep).contains(orig.filter(keep)[a]));
            }
            lemma_filter_keeps_distinct_keys(orig, keep);
            let gone = |o: ArbitrageOpportunity| is_expired(o, now, expiry);
            lemma_filter_keeps_distinct_keys(orig, gone);
            let f = orig.filter(gone);
            assert forall|a: int, b: int| 0 <= a < removed@.len() && 0 <= b < removed@.len() && a != b
                implies key_of(removed@[a]) != key_of(removed@[b]) by {
                assert(key_of(removed@[a]) == key_of(f[a]));
                assert(key_of(removed@[b]) == key_of(f[b]));
            }
            let kept = orig.filter(keep);
            assert forall|i: int| 0 <= i < removed@.len()
                implies position_of(kept, key_of(#[trigger] removed@[i])) is None by {
                let k = key_of(removed@[i]);
                assert(k == key_of(f[i]));
                orig.lemma_filter_contains_rev(gone, f[i]);
                assert(f.contains(f[i]));
                let b = choose|b: int| 0 <= b < orig.len() && orig[b] == f[i];
                orig.filter_lemma(gone);
                if exists|j: int| 0 <= j < kept.len() && key_of(kept[j]) == k {
                    let j = choose|j: int| 0 <= j < kept.len() && key_of(kept[j]) == k;
                    orig.lemma_filter_contains_rev(keep, kept[j]);
                    assert(kept.contains(kept[j]));
                    orig.filter_lemma(keep);
                    let a = choose|a: int| 0 <= a < orig.len() && orig[a] == kept[j];
                    assert(key_of(orig[a]) == key_of(orig[b]));
                    assert(a == b);
                    assert(gone(f[i]));
                    assert(keep(kept[j]));
                }
            }
        }
        removed
    }
}

/// Dropping entries keeps the remaining keys distinct.
pub proof fn lemma_filter_keeps_distinct_keys(
    s: Seq<ArbitrageOpportunity>,
    p: spec_fn(ArbitrageOpportunity) -> bool,
)
    requires
        distinct_keys(s),
    ensures
        distinct_keys(s.filter(p)),
    decreases s.len(),
{
    reveal(Seq::filter);
    if s.len() > 0 {
        let init = s.drop_last();
        assert(distinct_keys(init)) by {
            assert forall|i: int, j: int| 0 <= i < init.len() && 0 <= j < init.len() && i != j
                implies key_of(init[i]) != key_of(init[j]) by {
                assert(init[i] == s[i] && init[j] == s[j]);
            }
        }
        lemma_filter_keeps_distinct_keys(init, p);
        let sub = init.filter(p);
        if p(s.last()) {
            assert forall|i: int| 0 <= i < sub.len() implies key_of(#[trigger] sub[i]) != key_of(s.last()) by {
                init.lemma_filter_contains_rev(p, sub[i]);
                assert(sub.contains(sub[i]));
                let k = choose|k: int| 0 <= k < init.len() && init[k] == sub[i];
                assert(s[k] == sub[i]);
            }
            assert(s.filter(p) == sub.push(s.last()));
        }
    }
}

/// Whether `a` may be ranked ahead of `b`.
fn ranked_ahead(a: &ArbitrageOpportunity, b: &ArbitrageOpportunity) -> (r: bool)
    requires
        a.profit_percentage.wf(),
        b.profit_percentage.wf(),
    ensures
        r == ranks_before(*a, *b),
{
    if b.profit_percentage.lt(&a.profit_percentage) {
        true
    } else if a.profit_percentage.same_value(&b.profit_percentage) {
        a.timestamp <= b.timestamp
    } else {
        false
    }
}

} // verus!
