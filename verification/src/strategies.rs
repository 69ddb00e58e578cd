//! Selection strategies.
//!
//! A strategy takes an order, a pool of candidate drivers and the active
//! rule set, filters the candidates through the rules, and picks at most
//! one driver by its own ranking. Each built-in strategy's contract pins
//! its ranking down: the chosen driver is eligible and optimal among all
//! eligible candidates, with ties broken arbitrarily.

use vstd::prelude::*;
use crate::drivers::{
    contains_ref, lemma_ratio_total, lemma_ratio_trans, ratio_le, vehicle_large_spec, Driver,
};
use crate::location::distance_m_spec;
use crate::orders::{requires_large_spec, Order};
use crate::rules::{all_rules_pass, passes_all, RuleKind};

verus! {

/// A selection policy: filter the candidates through the rules, then pick
/// at most one driver. Whatever the ranking, a chosen driver always comes
/// from the candidate pool and passes every rule, and `None` is returned
/// only when no candidate passes.
pub trait DispatchStrategy {
    fn select_driver<'a>(
        &self,
        order: &Order,
        drivers: Vec<&'a Driver>,
        rules: &Vec<RuleKind>,
    ) -> (r: Option<&'a Driver>)
        ensures
            match r {
                Some(d) => contains_ref(drivers@, *d) && all_rules_pass(rules@, *order, *d),
                None => forall|i: int|
                    0 <= i < drivers@.len() ==> !all_rules_pass(
                        rules@,
                        *order,
                        *#[trigger] drivers@[i],
                    ),
            },
    ;

    /// A short diagnostic name.
    fn name(&self) -> (r: &'static str);
}

/// The candidate at least as close to the pickup point as every eligible
/// candidate, restricted to large-capable vehicles when `only_large` is
/// set. Returns `None` only when no candidate survives the restriction.
fn best_by_distance<'a>(
    order: &Order,
    drivers: &Vec<&'a Driver>,
    rules: &Vec<RuleKind>,
    only_large: bool,
) -> (r: Option<&'a Driver>)
    ensures
        match r {
            Some(d) => {
                &&& contains_ref(drivers@, *d)
                &&& all_rules_pass(rules@, *order, *d)
                &&& (only_large ==> vehicle_large_spec(d.vehicle_type))
                &&& forall|i: int|
                    0 <= i < drivers@.len() && all_rules_pass(
                        rules@,
                        *order,
                        *#[trigger] drivers@[i],
                    ) && (only_large ==> vehicle_large_spec(drivers@[i].vehicle_type))
                        ==> distance_m_spec(d.current_location, order.pickup_location)
                        <= distance_m_spec(drivers@[i].current_location, order.pickup_location)
            },
            None => forall|i: int|
                0 <= i < drivers@.len() ==> !(all_rules_pass(rules@, *order, *#[trigger] drivers@[i])
                    && (only_large ==> vehicle_large_spec(drivers@[i].vehicle_type))),
        },
{
    let mut best: Option<&'a Driver> = None;
    let mut best_dist: u64 = 0;
    let mut i: usize = 0;
    while i < drivers.len()
        invariant
            i <= drivers@.len(),
            match best {
                Some(b) => {
                    &&& contains_ref(drivers@, *b)
                    &&& all_rules_pass(rules@, *order, *b)
                    &&& (only_large ==> vehicle_large_spec(b.vehicle_type))
                    &&& best_dist == distance_m_spec(b.current_location, order.pickup_location)
                    &&& forall|k: int|
                        0 <= k < i && all_rules_pass(rules@, *order, *#[trigger] drivers@[k]) && (
                        only_large ==> vehicle_large_spec(drivers@[k].vehicle_type)) ==> best_dist
                            <= distance_m_spec(drivers@[k].current_location, order.pickup_location)
                },
                None => forall|k: int|
                    0 <= k < i ==> !(all_rules_pass(rules@, *order, *#[trigger] drivers@[k]) && (
                    only_large ==> vehicle_large_spec(drivers@[k].vehicle_type))),
            },
        decreases drivers@.len() - i,
    {
        let d: &'a Driver = drivers[i];
        if passes_all(rules, order, d) && (!only_large || d.vehicle_type.can_carry_large_items()) {
            let dist = d.distance_to(order.pickup_location);
            let replace: bool = match best {
                None => true,
                Some(_) => dist < best_dist,
            };
            if replace {
                proof {
                    assert(contains_ref(drivers@, *d)) by {
                        assert(*drivers@[i as int] == *d);
                    }
                }
                best = Some(d);
                best_dist = dist;
            }
        }
        i = i + 1;
    }
    best
}

/// Picks the eligible driver nearest to the order's pickup point.
#[derive(Clone, Copy, Debug, PartialEq, Eq, Structural)]
pub struct NearestFirstStrategy;

impl NearestFirstStrategy {
    pub fn new() -> (r: Self) {
        Self
    }
}

impl Default for NearestFirstStrategy {
    fn default() -> (r: Self) {
        Self::new()
    }
}

impl DispatchStrategy for NearestFirstStrategy {
    fn select_driver<'a>(
        &self,
        order: &Order,
        drivers: Vec<&'a Driver>,
        rules: &Vec<RuleKind>,
    ) -> (r: Option<&'a Driver>)
        ensures
            r matches Some(d) ==> forall|i: int|
                0 <= i < drivers@.len() && all_rules_pass(rules@, *order, *#[trigger] drivers@[i])
                    ==> distance_m_spec(d.current_location, order.pickup_location)
                    <= distance_m_spec(drivers@[i].current_location, order.pickup_location),
    {
        best_by_distance(order, &drivers, rules, false)
    }

    fn name(&self) -> (r: &'static str)
        ensures
            r@ == "NearestFirst"@,
    {
        "NearestFirst"
    }
}

/// Picks the eligible driver with the lowest load ratio.
#[derive(Clone, Copy, Debug, PartialEq, Eq, Structural)]
pub struct LoadBalancedStrategy;

impl LoadBalancedStrategy {
    pub fn new() -> (r: Self) {
        Self
    }
}

impl Default for LoadBalancedStrategy {
    fn default() -> (r: Self) {
        Self::new()
    }
}

impl DispatchStrategy for LoadBalancedStrategy {
    fn select_driver<'a>(
        &self,
        order: &Order,
        drivers: Vec<&'a Driver>,
        rules: &Vec<RuleKind>,
    ) -> (r: Option<&'a Driver>)
        ensures
            r matches Some(d) ==> forall|i: int|
                0 <= i < drivers@.len() && all_rules_pass(rules@, *order, *#[trigger] drivers@[i])
                    ==> ratio_le(*d, *drivers@[i]),
    {
        let mut best: Option<&'a Driver> = None;
        let mut i: usize = 0;
        while i < drivers.len()
            invariant
                i <= drivers@.len(),
                match best {
                    Some(b) => {
                        &&& contains_ref(drivers@, *b)
                        &&& all_rules_pass(rules@, *order, *b)
                        &&& forall|k: int|
                            0 <= k < i && all_rules_pass(
                                rules@,
                                *order,
                                *#[trigger] drivers@[k],
                            ) ==> ratio_le(*b, *drivers@[k])
                    },
                    None => forall|k: int|
                        0 <= k < i ==> !all_rules_pass(rules@, *order, *#[trigger] drivers@[k]),
                },
            decreases drivers@.len() - i,
        {
            let d: &'a Driver = drivers[i];
            if passes_all(rules, order, d) {
                match best {
                    None => {
                        proof {
                            assert(contains_ref(drivers@, *d)) by {
                                assert(*drivers@[i as int] == *d);
                            }
                        }
                        best = Some(d);
                    },
                    Some(b) => {
                        if !b.load_ratio_le(d) {
                            proof {
                                lemma_ratio_total(*b, *d);
                                assert(contains_ref(drivers@, *d)) by {
                                    assert(*drivers@[i as int] == *d);
                                }
                                assert forall|k: int|
                                    0 <= k < i + 1 && all_rules_pass(
                                        rules@,
                                        *order,
                                        *#[trigger] drivers@[k],
                                    ) implies ratio_le(*d, *drivers@[k]) by {
                                    if k < i {
                                        lemma_ratio_trans(*d, *b, *drivers@[k]);
                                    }
                                }
                            }
                            best = Some(d);
                        } else {
                            proof {
                                assert(ratio_le(*b, *drivers@[i as int]));
                            }
                        }
                    },
                }
            }
            i = i + 1;
        }
        best
    }

    fn name(&self) -> (r: &'static str)
        ensures
            r@ == "LoadBalanced"@,
    {
        "LoadBalanced"
    }
}

/// Picks the eligible driver with the highest rating; among drivers tied
/// at the top rating, the one with the lowest load ratio.
#[derive(Clone, Copy, Debug, PartialEq, Eq, Structural)]
pub struct RatingPriorityStrategy;

impl RatingPriorityStrategy {
    pub fn new() -> (r: Self) {
        Self
    }
}

impl Default for RatingPriorityStrategy {
    fn default() -> (r: Self) {
        Self::new()
    }
}

impl DispatchStrategy for RatingPriorityStrategy {
    fn select_driver<'a>(
        &self,
        order: &Order,
        drivers: Vec<&'a Driver>,
        rules: &Vec<RuleKind>,
    ) -> (r: Option<&'a Driver>)
        ensures
            r matches Some(d) ==> forall|i: int|
                0 <= i < drivers@.len() && all_rules_pass(rules@, *order, *#[trigger] drivers@[i])
                    ==> d.rating_tenths >= drivers@[i].rating_tenths && (drivers@[i].rating_tenths
                    == d.rating_tenths ==> ratio_le(*d, *drivers@[i])),
    {
        let mut best: Option<&'a Driver> = None;
        let mut i: usize = 0;
        while i < drivers.len()
            invariant
                i <= drivers@.len(),
                match best {
                    Some(b) => {
                        &&& contains_ref(drivers@, *b)
                        &&& all_rules_pass(rules@, *order, *b)
                        &&& forall|k: int|
                            0 <= k < i && all_rules_pass(
                                rules@,
                                *order,
                                *#[trigger] drivers@[k],
                            ) ==> b.rating_tenths >= drivers@[k].rating_tenths && (
                            drivers@[k].rating_tenths == b.rating_tenths ==> ratio_le(
                                *b,
                                *drivers@[k],
                            ))
                    },
                    None => forall|k: int|
                        0 <= k < i ==> !all_rules_pass(rules@, *order, *#[trigger] drivers@[k]),
                },
            decreases drivers@.len() - i,
        {
            let d: &'a Driver = drivers[i];
            if passes_all(rules, order, d) {
                match best {
                    None => {
                        proof {
                            assert(contains_ref(drivers@, *d)) by {
                                assert(*drivers@[i as int] == *d);
                            }
                        }
                        best = Some(d);
                    },
                    Some(b) => {
                        let replace: bool = d.rating_tenths > b.rating_tenths || (d.rating_tenths
                            == b.rating_tenths && !b.load_ratio_le(d));
                        if replace {
                            proof {
                                lemma_ratio_total(*b, *d);
                                assert(contains_ref(drivers@, *d)) by {
                                    assert(*drivers@[i as int] == *d);
                                }
                                assert forall|k: int|
                                    0 <= k < i + 1 && all_rules_pass(
                                        rules@,
                                        *order,
                                        *#[trigger] drivers@[k],
                                    ) implies d.rating_tenths >= drivers@[k].rating_tenths && (
                                drivers@[k].rating_tenths == d.rating_tenths ==> ratio_le(
                                    *d,
                                    *drivers@[k],
                                )) by {
                                    if k < i && drivers@[k].rating_tenths == d.rating_tenths
                                        && d.rating_tenths == b.rating_tenths {
                                        lemma_ratio_trans(*d, *b, *drivers@[k]);
                                    }
                                }
                            }
                            best = Some(d);
                        } else {
                            proof {
                                lemma_ratio_total(*b, *d);
                                assert(b.rating_tenths >= drivers@[i as int].rating_tenths);
                            }
                        }
                    },
                }
            }
            i = i + 1;
        }
        best
    }

    fn name(&self) -> (r: &'static str)
        ensures
            r@ == "RatingPriority"@,
    {
        "RatingPriority"
    }
}

/// Prefers large-capable vehicles for orders that need them, falling back
/// to the full eligible set when none qualifies; picks the nearest driver
/// within the chosen set.
#[derive(Clone, Copy, Debug, PartialEq, Eq, Structural)]
pub struct CapacityMatchStrategy;

impl CapacityMatchStrategy {
    pub fn new() -> (r: Self) {
        Self
    }
}

impl Default for CapacityMatchStrategy {
    fn default() -> (r: Self) {
        Self::new()
    }
}

impl DispatchStrategy for CapacityMatchStrategy {
    fn select_driver<'a>(
        &self,
        order: &Order,
        drivers: Vec<&'a Driver>,
        rules: &Vec<RuleKind>,
    ) -> (r: Option<&'a Driver>)
        ensures
            r matches Some(d) ==> {
                if requires_large_spec(order.order_type) && (exists|i: int|
                    0 <= i < drivers@.len() && all_rules_pass(
                        rules@,
                        *order,
                        *#[trigger] drivers@[i],
                    ) && vehicle_large_spec(drivers@[i].vehicle_type)) {
                    &&& vehicle_large_spec(d.vehicle_type)
                    &&& forall|i: int|
                        0 <= i < drivers@.len() && all_rules_pass(
                            rules@,
                            *order,
                            *#[trigger] drivers@[i],
                        ) && vehicle_large_spec(drivers@[i].vehicle_type) ==> distance_m_spec(
                            d.current_location,
                            order.pickup_location,
                        ) <= distance_m_spec(drivers@[i].current_location, order.pickup_location)
                } else {
                    forall|i: int|
                        0 <= i < drivers@.len() && all_rules_pass(
                            rules@,
                            *order,
                            *#[trigger] drivers@[i],
                        ) ==> distance_m_spec(d.current_location, order.pickup_location)
                            <= distance_m_spec(drivers@[i].current_location, order.pickup_location)
                }
            },
    {
        if order.order_type.requires_large_vehicle() {
            let preferred = best_by_distance(order, &drivers, rules, true);
            if preferred.is_some() {
                return preferred;
            }
        }
        best_by_distance(order, &drivers, rules, false)
    }

    fn name(&self) -> (r: &'static str)
        ensures
            r@ == "CapacityMatch"@,
    {
        "CapacityMatch"
    }
}

/// One of the built-in strategies, as a swappable engine field.
#[derive(Clone, Copy, Debug, PartialEq, Eq, Structural)]
pub enum StrategyKind {
    NearestFirst(NearestFirstStrategy),
    LoadBalanced(LoadBalancedStrategy),
    RatingPriority(RatingPriorityStrategy),
    CapacityMatch(CapacityMatchStrategy),
}

/// The diagnostic name each strategy reports.
pub open spec fn strategy_name_spec(s: StrategyKind) -> Seq<char> {
    match s {
        StrategyKind::NearestFirst(_) => "NearestFirst"@,
        StrategyKind::LoadBalanced(_) => "LoadBalanced"@,
        StrategyKind::RatingPriority(_) => "RatingPriority"@,
        StrategyKind::CapacityMatch(_) => "CapacityMatch"@,
    }
}

impl DispatchStrategy for StrategyKind {
    fn select_driver<'a>(
        &self,
        order: &Order,
        drivers: Vec<&'a Driver>,
        rules: &Vec<RuleKind>,
    ) -> (r: Option<&'a Driver>)
        ensures
            match (self, r) {
                (StrategyKind::NearestFirst(_), Some(d)) => forall|i: int|
                    0 <= i < drivers@.len() && all_rules_pass(
                        rules@,
                        *order,
                        *#[trigger] drivers@[i],
                    ) ==> distance_m_spec(d.current_location, order.pickup_location)
                        <= distance_m_spec(drivers@[i].current_location, order.pickup_location),
                (StrategyKind::LoadBalanced(_), Some(d)) => forall|i: int|
                    0 <= i < drivers@.len() && all_rules_pass(
                        rules@,
                        *order,
                        *#[trigger] drivers@[i],
                    ) ==> ratio_le(*d, *drivers@[i]),
                (StrategyKind::RatingPriority(_), Some(d)) => forall|i: int|
                    0 <= i < drivers@.len() && all_rules_pass(
                        rules@,
                        *order,
                        *#[trigger] drivers@[i],
                    ) ==> d.rating_tenths >= drivers@[i].rating_tenths && (
                    drivers@[i].rating_tenths == d.rating_tenths ==> ratio_le(*d, *drivers@[i])),
                (StrategyKind::CapacityMatch(_), Some(d)) => {
                    if requires_large_spec(order.order_type) && (exists|i: int|
                        0 <= i < drivers@.len() && all_rules_pass(
                            rules@,
                            *order,
                            *#[trigger] drivers@[i],
                        ) && vehicle_large_spec(drivers@[i].vehicle_type)) {
                        &&& vehicle_large_spec(d.vehicle_type)
                        &&& forall|i: int|
                            0 <= i < drivers@.len() && all_rules_pass(
                                rules@,
                                *order,
                                *#[trigger] drivers@[i],
                            ) && vehicle_large_spec(drivers@[i].vehicle_type) ==> distance_m_spec(
                                d.current_location,
                                order.pickup_location,
                            ) <= distance_m_spec(
                                drivers@[i].current_location,
                                order.pickup_location,
                            )
                    } else {
                        forall|i: int|
                            0 <= i < drivers@.len() && all_rules_pass(
                                rules@,
                                *order,
                                *#[trigger] drivers@[i],
                            ) ==> distance_m_spec(d.current_location, order.pickup_location)
                                <= distance_m_spec(
                                drivers@[i].current_location,
                                order.pickup_location,
                            )
                    }
                },
                (_, None) => true,
            },
    {
        match self {
            StrategyKind::NearestFirst(s) => s.select_driver(order, drivers, rules),
            StrategyKind::LoadBalanced(s) => s.select_driver(order, drivers, rules),
            StrategyKind::RatingPriority(s) => s.select_driver(order, drivers, rules),
            StrategyKind::CapacityMatch(s) => s.select_driver(order, drivers, rules),
        }
    }

    fn name(&self) -> (r: &'static str)
        ensures
            r@ == strategy_name_spec(*self),
    {
        match self {
            StrategyKind::NearestFirst(s) => s.name(),
            StrategyKind::LoadBalanced(s) => s.name(),
            StrategyKind::RatingPriority(s) => s.name(),
            StrategyKind::CapacityMatch(s) => s.name(),
        }
    }
}

} // verus!
