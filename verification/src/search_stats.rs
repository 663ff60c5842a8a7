//! Counters of the search work that a batch did, for diagnosis. They are
//! off unless asked for and take no part in any result.

use vstd::prelude::*;

verus! {

/// The counters as they stood at one moment.
#[derive(Debug, Clone, Copy, PartialEq, Eq)]
pub struct SearchStatsSnapshot {
    /// Bracketing searches started by the arbitrageur.
    pub arb_bracket_calls: u64,
    /// Quotes asked for while bracketing.
    pub arb_bracket_evals: u64,
    /// Golden-section searches started by the arbitrageur.
    pub arb_golden_calls: u64,
    /// Rounds of those golden-section searches.
    pub arb_golden_iters: u64,
    /// Quotes asked for in those golden-section searches.
    pub arb_golden_evals: u64,
    /// Arbitrage searches that stopped early on a narrow bracket.
    pub arb_early_stop_amount_tol: u64,
    /// Split searches started by the router.
    pub router_calls: u64,
    /// Rounds of the router's split searches.
    pub router_golden_iters: u64,
    /// Split quotes asked for by the router.
    pub router_evals: u64,
    /// Split searches that stopped early on nearly equal scores.
    pub router_early_stop_rel_gap: u64,
}

/// A snapshot with every counter at zero.
pub open spec fn zero_snapshot() -> SearchStatsSnapshot {
    SearchStatsSnapshot {
        arb_bracket_calls: 0,
        arb_bracket_evals: 0,
        arb_golden_calls: 0,
        arb_golden_iters: 0,
        arb_golden_evals: 0,
        arb_early_stop_amount_tol: 0,
        router_calls: 0,
        router_golden_iters: 0,
        router_evals: 0,
        router_early_stop_rel_gap: 0,
    }
}

/// A counter after one more event: one higher, starting over at zero past
/// the 64-bit range, or as it was while counting is off.
pub open spec fn bumped(count: u64, enabled: bool) -> u64 {
    if !enabled {
        count
    } else if count == u64::MAX {
        0
    } else {
        (count + 1) as u64
    }
}

/// The counters, and whether they count.
pub struct SearchStats {
    /// Whether events are counted and snapshots handed out.
    pub enabled: bool,
    /// The counts so far.
    pub counts: SearchStatsSnapshot,
}

impl SearchStats {
    /// Counters at zero, counting or not as `enabled` says.
    pub fn new(enabled: bool) -> (stats: Self)
        ensures
            stats.enabled == enabled,
            stats.counts == zero_snapshot(),
    {
        SearchStats {
            enabled,
            counts: SearchStatsSnapshot {
                arb_bracket_calls: 0,
                arb_bracket_evals: 0,
                arb_golden_calls: 0,
                arb_golden_iters: 0,
                arb_golden_evals: 0,
                arb_early_stop_amount_tol: 0,
                router_calls: 0,
                router_golden_iters: 0,
                router_evals: 0,
                router_early_stop_rel_gap: 0,
            },
        }
    }
}

/// One more event on `count`.
fn bump(count: u64, enabled: bool) -> (next: u64)
    ensures
        next == bumped(count, enabled),
{
    if !enabled {
        count
    } else if count == u64::MAX {
        0
    } else {
        count + 1
    }
}

/// Whether counting is on.
pub fn enabled(stats: &SearchStats) -> (on: bool)
    ensures
        on == stats.enabled,
{
    stats.enabled
}

/// Sets every counter back to zero, whether counting is on or off.
pub fn reset(stats: &mut SearchStats)
    ensures
        final(stats).enabled == old(stats).enabled,
        final(stats).counts == zero_snapshot(),
{
    stats.counts.arb_bracket_calls = 0;
    stats.counts.arb_bracket_evals = 0;
    stats.counts.arb_golden_calls = 0;
    stats.counts.arb_golden_iters = 0;
    stats.counts.arb_golden_evals = 0;
    stats.counts.arb_early_stop_amount_tol = 0;
    stats.counts.router_calls = 0;
    stats.counts.router_golden_iters = 0;
    stats.counts.router_evals = 0;
    stats.counts.router_early_stop_rel_gap = 0;
}

/// The counters as they stand, where counting is on; nothing where it is
/// off.
pub fn snapshot_if_enabled(stats: &SearchStats) -> (snapshot: Option<SearchStatsSnapshot>)
    ensures
        snapshot == if stats.enabled {
            Some(stats.counts)
        } else {
            None
        },
{
    if !stats.enabled {
        return None;
    }
    Some(stats.counts)
}

/// Counts one more of: bracketing searches started by the arbitrageur.
pub fn inc_arb_bracket_call(stats: &mut SearchStats)
    ensures
        *final(stats) == (SearchStats {
            counts: SearchStatsSnapshot {
                arb_bracket_calls: bumped(old(stats).counts.arb_bracket_calls, old(stats).enabled),
                ..old(stats).counts
            },
            ..*old(stats)
        }),
{
    stats.counts.arb_bracket_calls = bump(stats.counts.arb_bracket_calls, stats.enabled);
}

/// Counts one more of: quotes asked for while bracketing.
pub fn inc_arb_bracket_eval(stats: &mut SearchStats)
    ensures
        *final(stats) == (SearchStats {
            counts: SearchStatsSnapshot {
                arb_bracket_evals: bumped(old(stats).counts.arb_bracket_evals, old(stats).enabled),
                ..old(stats).counts
            },
            ..*old(stats)
        }),
{
    stats.counts.arb_bracket_evals = bump(stats.counts.arb_bracket_evals, stats.enabled);
}

/// Counts one more of: golden-section searches started by the arbitrageur.
pub fn inc_arb_golden_call(stats: &mut SearchStats)
    ensures
        *final(stats) == (SearchStats {
            counts: SearchStatsSnapshot {
                arb_golden_calls: bumped(old(stats).counts.arb_golden_calls, old(stats).enabled),
                ..old(stats).counts
            },
            ..*old(stats)
        }),
{
    stats.counts.arb_golden_calls = bump(stats.counts.arb_golden_calls, stats.enabled);
}

/// Counts one more of: rounds of those golden-section searches.
pub fn inc_arb_golden_iter(stats: &mut SearchStats)
    ensures
        *final(stats) == (SearchStats {
            counts: SearchStatsSnapshot {
                arb_golden_iters: bumped(old(stats).counts.arb_golden_iters, old(stats).enabled),
                ..old(stats).counts
            },
            ..*old(stats)
        }),
{
    stats.counts.arb_golden_iters = bump(stats.counts.arb_golden_iters, stats.enabled);
}

/// Counts one more of: quotes asked for in those golden-section searches.
pub fn inc_arb_golden_eval(stats: &mut SearchStats)
    ensures
        *final(stats) == (SearchStats {
            counts: SearchStatsSnapshot {
                arb_golden_evals: bumped(old(stats).counts.arb_golden_evals, old(stats).enabled),
                ..old(stats).counts
            },
            ..*old(stats)
        }),
{
    stats.counts.arb_golden_evals = bump(stats.counts.arb_golden_evals, stats.enabled);
}

/// Counts one more of: arbitrage searches that stopped early on a narrow bracket.
pub fn inc_arb_early_stop_amount_tol(stats: &mut SearchStats)
    ensures
        *final(stats) == (SearchStats {
            counts: SearchStatsSnapshot {
                arb_early_stop_amount_tol: bumped(old(stats).counts.arb_early_stop_amount_tol, old(stats).enabled),
                ..old(stats).counts
            },
            ..*old(stats)
        }),
{
    stats.counts.arb_early_stop_amount_tol = bump(stats.counts.arb_early_stop_amount_tol, stats.enabled);
}

/// Counts one more of: split searches started by the router.
pub fn inc_router_call(stats: &mut SearchStats)
    ensures
        *final(stats) == (SearchStats {
            counts: SearchStatsSnapshot {
                router_calls: bumped(old(stats).counts.router_calls, old(stats).enabled),
                ..old(stats).counts
            },
            ..*old(stats)
        }),
{
    stats.counts.router_calls = bump(stats.counts.router_calls, stats.enabled);
}

/// Counts one more of: rounds of the router's split searches.
pub fn inc_router_iter(stats: &mut SearchStats)
    ensures
        *final(stats) == (SearchStats {
            counts: SearchStatsSnapshot {
                router_golden_iters: bumped(old(stats).counts.router_golden_iters, old(stats).enabled),
                ..old(stats).counts
            },
            ..*old(stats)
        }),
{
    stats.counts.router_golden_iters = bump(stats.counts.router_golden_iters, stats.enabled);
}

/// Counts one more of: split quotes asked for by the router.
pub fn inc_router_eval(stats: &mut SearchStats)
    ensures
        *final(stats) == (SearchStats {
            counts: SearchStatsSnapshot {
                router_evals: bumped(old(stats).counts.router_evals, old(stats).enabled),
                ..old(stats).counts
            },
            ..*old(stats)
        }),
{
    stats.counts.router_evals = bump(stats.counts.router_evals, stats.enabled);
}

/// Counts one more of: split searches that stopped early on nearly equal scores.
pub fn inc_router_early_stop_rel_gap(stats: &mut SearchStats)
    ensures
        *final(stats) == (SearchStats {
            counts: SearchStatsSnapshot {
                router_early_stop_rel_gap: bumped(old(stats).counts.router_early_stop_rel_gap, old(stats).enabled),
                ..old(stats).counts
            },
            ..*old(stats)
        }),
{
    stats.counts.router_early_stop_rel_gap = bump(stats.counts.router_early_stop_rel_gap, stats.enabled);
}

} // verus!
