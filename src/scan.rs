//! The decisions of one scan tick: which pairs to scan, and which quote
//! directions to hand to the calculator.

use crate::config::{parsed_symbol, Config, ExchangeConfig};
use crate::models::{parse_trading_pair, TradingPair};
use vstd::prelude::*;

verus! {

/// Some enabled venue of `en` lists a pair text whose canonical symbol is `sym`.
pub open spec fn offered_symbol(en: Seq<(String, ExchangeConfig)>, sym: Seq<char>) -> bool {
    exists|a: int, b: int|
        0 <= a < en.len() && 0 <= b < en[a].1.trading_pairs@.len()
            && parsed_symbol(#[trigger] en[a].1.trading_pairs@[b]@) == Some(sym)
}

/// Some pair of `ps` has the canonical symbol `sym`.
pub open spec fn has_symbol(ps: Seq<TradingPair>, sym: Seq<char>) -> bool {
    exists|i: int| 0 <= i < ps.len() && ps[i].symbol@ == sym
}

/// The pairs of one tick: `None` when fewer than two venues are enabled (the tick
/// then does nothing); otherwise one pair per canonical symbol that an enabled
/// venue lists, each once.
pub fn plan_scan(config: &Config) -> (r: Option<Vec<TradingPair>>)
    ensures
        r is None <==> config.enabled_entries().len() < 2,
        r matches Some(ps) ==> forall|i: int, j: int| 0 <= i < ps@.len() && 0 <= j < ps@.len() && i != j
            ==> ps@[i].symbol@ != ps@[j].symbol@,
        r matches Some(ps) ==> forall|i: int| 0 <= i < ps@.len()
            ==> offered_symbol(config.enabled_entries(), #[trigger] ps@[i].symbol@),
        r matches Some(ps) ==> forall|sym: Seq<char>| offered_symbol(config.enabled_entries(), sym)
            ==> has_symbol(ps@, sym),
{
    let enabled = config.get_enabled_exchanges();
    if enabled.len() < 2 {
        return None;
    }
    let ghost en = config.enabled_entries();
    let mut ps: Vec<TradingPair> = Vec::new();
    let mut a: usize = 0;
    while a < enabled.len()
        invariant
            enabled@.len() == en.len(),
            forall|k: int| 0 <= k < enabled@.len() ==> #[trigger] enabled@[k] == en[k],
            a <= en.len(),
            forall|i: int, j: int| 0 <= i < ps@.len() && 0 <= j < ps@.len() && i != j
                ==> ps@[i].symbol@ != ps@[j].symbol@,
            forall|i: int| 0 <= i < ps@.len() ==> offered_symbol(en, #[trigger] ps@[i].symbol@),
            forall|x: int, b: int| 0 <= x < a && 0 <= b < en[x].1.trading_pairs@.len()
                && (#[trigger] parsed_symbol(en[x].1.trading_pairs@[b]@)) is Some
                ==> exists|i: int| 0 <= i < ps@.len()
                    && Some(ps@[i].symbol@) == parsed_symbol(en[x].1.trading_pairs@[b]@),
        decreases en.len() - a,
    {
        let texts = &enabled[a].1.trading_pairs;
        assert(texts@ == en[a as int].1.trading_pairs@);
        let mut b: usize = 0;
        while b < texts.len()
            invariant
                enabled@.len() == en.len(),
                forall|k: int| 0 <= k < enabled@.len() ==> #[trigger] enabled@[k] == en[k],
                a < en.len(),
                texts@ == en[a as int].1.trading_pairs@,
                b <= texts@.len(),
                forall|i: int, j: int| 0 <= i < ps@.len() && 0 <= j < ps@.len() && i != j
                    ==> ps@[i].symbol@ != ps@[j].symbol@,
                forall|i: int| 0 <= i < ps@.len() ==> offered_symbol(en, #[trigger] ps@[i].symbol@),
                forall|x: int, c: int| 0 <= x < a && 0 <= c < en[x].1.trading_pairs@.len()
                    && (#[trigger] parsed_symbol(en[x].1.trading_pairs@[c]@)) is Some
                    ==> exists|i: int| 0 <= i < ps@.len()
                        && Some(ps@[i].symbol@) == parsed_symbol(en[x].1.trading_pairs@[c]@),
                forall|c: int| 0 <= c < b && (#[trigger] parsed_symbol(texts@[c]@)) is Some
                    ==> exists|i: int| 0 <= i < ps@.len() && Some(ps@[i].symbol@) == parsed_symbol(texts@[c]@),
            decreases texts@.len() - b,
        {
            let parsed = parse_trading_pair(texts[b].as_str());
            match parsed {
                None => {},
                Some(p) => {
                    assert(parsed_symbol(texts@[b as int]@) == Some(p.symbol@));
                    assert(offered_symbol(en, p.symbol@)) by {
                        assert(parsed_symbol(en[a as int].1.trading_pairs@[b as int]@) == Some(p.symbol@));
                    }
                    let mut k: usize = 0;
                    let mut seen = false;
                    while k < ps.len()
                        invariant
                            k <= ps@.len(),
                            seen ==> exists|i: int| 0 <= i < ps@.len() && ps@[i].symbol@ == p.symbol@,
                            !seen ==> forall|i: int| 0 <= i < k ==> ps@[i].symbol@ != p.symbol@,
                        decreases ps@.len() - k,
                    {
                        if ps[k].same_pair(&p) {
                            seen = true;
                        }
                        k = k + 1;
                    }
                    if !seen {
                        let ghost old_ps = ps@;
                        ps.push(p);
                        proof {
                            assert forall|i: int| 0 <= i < ps@.len() implies offered_symbol(
                                en,
                                #[trigger] ps@[i].symbol@,
                            ) by {
                                if i < old_ps.len() {
                                    assert(ps@[i] == old_ps[i]);
                                }
                            }
                            assert forall|x: int, c: int| 0 <= x < a && 0 <= c < en[x].1.trading_pairs@.len()
                                && (#[trigger] parsed_symbol(en[x].1.trading_pairs@[c]@)) is Some
                                implies exists|i: int| 0 <= i < ps@.len()
                                && Some(ps@[i].symbol@) == parsed_symbol(en[x].1.trading_pairs@[c]@) by {
                                let i0 = choose|i: int| 0 <= i < old_ps.len()
                                    && Some(old_ps[i].symbol@) == parsed_symbol(en[x].1.trading_pairs@[c]@);
                                assert(ps@[i0] == old_ps[i0]);
                            }
                            assert forall|c: int| 0 <= c < b + 1 && (#[trigger] parsed_symbol(texts@[c]@)) is Some
                                implies exists|i: int| 0 <= i < ps@.len()
                                && Some(ps@[i].symbol@) == parsed_symbol(texts@[c]@) by {
                                if c < b {
                                    let i0 = choose|i: int| 0 <= i < old_ps.len()
                                        && Some(old_ps[i].symbol@) == parsed_symbol(texts@[c]@);
                                    assert(ps@[i0] == old_ps[i0]);
                                } else {
                                    assert(ps@[old_ps.len() as int] == p);
                                }
                            }
                        }
                    }
                },
            }
            b = b + 1;
        }
        a = a + 1;
    }
    proof {
        assert(en == config.enabled_entries());
        assert forall|sym: Seq<char>| offered_symbol(config.enabled_entries(), sym)
            implies has_symbol(ps@, sym) by {
            let (x, c) = choose|x: int, c: int|
                0 <= x < en.len() && 0 <= c < en[x].1.trading_pairs@.len()
                    && parsed_symbol(#[trigger] en[x].1.trading_pairs@[c]@) == Some(sym);
            assert(parsed_symbol(en[x].1.trading_pairs@[c]@) is Some);
            let i0 = choose|i: int| 0 <= i < ps@.len()
                && Some(ps@[i].symbol@) == parsed_symbol(en[x].1.trading_pairs@[c]@);
            assert(ps@[i0].symbol@ == sym);
        }
    }
    Some(ps)
}

/// Every ordered pair of distinct quote positions below `n`, as `(buy, sell)`:
/// each unordered pair is considered in both directions.
pub fn candidate_directions(n: usize) -> (r: Vec<(usize, usize)>)
    ensures
        forall|k: int| 0 <= k < r@.len() ==> (#[trigger] r@[k]).0 < n && r@[k].1 < n && r@[k].0 != r@[k].1,
        forall|a: usize, b: usize| a < n && b < n && a != b ==> r@.contains((a, b)),
        r@.no_duplicates(),
{
    let mut r: Vec<(usize, usize)> = Vec::new();
    let mut i: usize = 0;
    while i < n
        invariant
            i <= n,
            forall|k: int| 0 <= k < r@.len() ==> (#[trigger] r@[k]).0 < n && r@[k].1 < n && r@[k].0 != r@[k].1,
            forall|a: usize, b: usize| a < i && b < n && a != b ==> r@.contains((a, b)),
            forall|a: usize, b: usize| b < i && a < n && a != b ==> r@.contains((a, b)),
            r@.no_duplicates(),
            forall|k: int| 0 <= k < r@.len() ==> (#[trigger] r@[k]).0 < i || r@[k].1 < i,
        decreases n - i,
    {
        let mut j: usize = i + 1;
        while j < n
            invariant
                i < n,
                i + 1 <= j <= n,
                forall|k: int| 0 <= k < r@.len() ==> (#[trigger] r@[k]).0 < n && r@[k].1 < n && r@[k].0 != r@[k].1,
                forall|a: usize, b: usize| a < i && b < n && a != b ==> r@.contains((a, b)),
                forall|a: usize, b: usize| b < i && a < n && a != b ==> r@.contains((a, b)),
                forall|b: usize| i < b < j ==> r@.contains((i, b)) && r@.contains((b, i)),
                r@.no_duplicates(),
                forall|k: int| 0 <= k < r@.len() ==> (#[trigger] r@[k]).0 < i || r@[k].1 < i || (r@[k].0 == i
                    && r@[k].1 < j) || (r@[k].1 == i && r@[k].0 < j),
            decreases n - j,
        {
            let ghost before = r@;
            r.push((i, j));
            r.push((j, i));
            proof {
                assert forall|x: (usize, usize)| before.contains(x) implies r@.contains(x) by {
                    let k = choose|k: int| 0 <= k < before.len() && before[k] == x;
                    assert(r@[k] == x);
                }
                assert(r@[r@.len() - 2] == (i, j));
                assert(r@[r@.len() - 1] == (j, i));
                assert forall|k: int| 0 <= k < before.len() implies r@[k] == before[k] && (#[trigger] before[k]) != (i, j)
                    && before[k] != (j, i) by {}
                assert forall|x: int, y: int| 0 <= x < r@.len() && 0 <= y < r@.len() && x != y implies r@[x] != r@[y] by {
                    if x < before.len() && y < before.len() {
                        assert(before[x] != before[y]);
                    } else if x < before.len() {
                        assert(before[x] != (i, j) && before[x] != (j, i));
                    } else if y < before.len() {
                        assert(before[y] != (i, j) && before[y] != (j, i));
                    }
                }
                assert forall|k: int| 0 <= k < r@.len() implies (#[trigger] r@[k]).0 < i || r@[k].1 < i || (r@[k].0 == i
                    && r@[k].1 < j + 1) || (r@[k].1 == i && r@[k].0 < j + 1) by {
                    if k < before.len() {
                        assert(r@[k] == before[k]);
                    }
                }
                assert forall|a: usize, b: usize| a < i && b < n && a != b implies r@.contains((a, b)) by {
                    assert(before.contains((a, b)));
                }
                assert forall|a: usize, b: usize| b < i && a < n && a != b implies r@.contains((a, b)) by {
                    assert(before.contains((a, b)));
                }
                assert forall|b: usize| i < b < j + 1 implies r@.contains((i, b)) && r@.contains((b, i)) by {
                    if b < j {
                        assert(before.contains((i, b)) && before.contains((b, i)));
                    }
                }
            }
            j = j + 1;
        }
        i = i + 1;
    }
    r
}

} // verus!
