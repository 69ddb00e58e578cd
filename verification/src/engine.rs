//! The dispatch engine.
//!
//! The engine owns the driver registry, one active strategy and an ordered
//! rule list. `dispatch` snapshots the available drivers, lets the
//! strategy pick one through the rules, and then commits the assignment on
//! that driver in a second phase, re-checking availability at commit time.
//! Since the engine owns the registry exclusively, the commit re-check is
//! proved to succeed: the race the two-phase protocol guards against in a
//! shared setting cannot be lost here, and dispatch is all-or-nothing: on
//! any failure neither the order nor any driver has changed.

use vstd::prelude::*;
use crate::drivers::{
    contains_driver, contains_ref, copy_driver, driver_after_assign, driver_after_release,
    driver_available, has_id, idx_of, lemma_idx_of, pool_wf, ratio_le, same_driver,
    vehicle_display_spec, vehicle_large_spec, Driver, DriverPool,
};
use crate::fresh::now_timestamp;
use crate::location::{distance_m_spec, Location};
use crate::orders::{requires_large_spec, Order, OrderStatus};
use crate::rules::{all_rules_pass, CapacityRule, RuleKind, VehicleTypeRule};
use crate::strategies::{strategy_name_spec, DispatchStrategy, StrategyKind};

verus! {

/// A typed dispatch failure. `OrderNotFound` and `InvalidOperation` are
/// reserved members of the taxonomy; no current operation returns them.
#[derive(Debug, Clone)]
pub enum DispatchError {
    NoDriverAvailable,
    DriverNotFound(u128),
    OrderNotFound(u128),
    CapacityExceeded,
    InvalidOperation(String),
}

/// What a successful dispatch reports back.
#[derive(Debug)]
pub struct DispatchResult {
    pub order_id: u128,
    pub driver_id: u128,
    pub driver_name: String,
    pub vehicle_type: String,
    pub distance_to_pickup_m: u64,
    pub estimated_arrival_minutes: u32,
    pub strategy_used: String,
    pub timestamp: i64,
}

/// A driver an engine may assign this order to: available, and passing
/// every active rule.
#[verifier::opaque]
pub open spec fn eligible_driver(order: Order, rules: Seq<RuleKind>, d: Driver) -> bool {
    driver_available(d) && all_rules_pass(rules, order, d)
}

/// The chosen driver is ranked best by the given strategy among all
/// eligible drivers of the registry (ties broken arbitrarily).
#[verifier::opaque]
pub open spec fn strategy_optimal(
    s: StrategyKind,
    order: Order,
    pool: Seq<Driver>,
    rules: Seq<RuleKind>,
    chosen: Driver,
) -> bool {
    match s {
        StrategyKind::NearestFirst(_) => forall|j: int|
            0 <= j < pool.len() && eligible_driver(order, rules, #[trigger] pool[j])
                ==> distance_m_spec(chosen.current_location, order.pickup_location)
                <= distance_m_spec(pool[j].current_location, order.pickup_location),
        StrategyKind::LoadBalanced(_) => forall|j: int|
            0 <= j < pool.len() && eligible_driver(order, rules, #[trigger] pool[j]) ==> ratio_le(
                chosen,
                pool[j],
            ),
        StrategyKind::RatingPriority(_) => forall|j: int|
            0 <= j < pool.len() && eligible_driver(order, rules, #[trigger] pool[j])
                ==> chosen.rating_tenths >= pool[j].rating_tenths && (pool[j].rating_tenths
                == chosen.rating_tenths ==> ratio_le(chosen, pool[j])),
        StrategyKind::CapacityMatch(_) => {
            if requires_large_spec(order.order_type) && (exists|j: int|
                0 <= j < pool.len() && eligible_driver(order, rules, #[trigger] pool[j])
                    && vehicle_large_spec(pool[j].vehicle_type)) {
                &&& vehicle_large_spec(chosen.vehicle_type)
                &&& forall|j: int|
                    0 <= j < pool.len() && eligible_driver(order, rules, #[trigger] pool[j])
                        && vehicle_large_spec(pool[j].vehicle_type) ==> distance_m_spec(
                        chosen.current_location,
                        order.pickup_location,
                    ) <= distance_m_spec(pool[j].current_location, order.pickup_location)
            } else {
                forall|j: int|
                    0 <= j < pool.len() && eligible_driver(order, rules, #[trigger] pool[j])
                        ==> distance_m_spec(chosen.current_location, order.pickup_location)
                        <= distance_m_spec(pool[j].current_location, order.pickup_location)
            }
        },
    }
}

/// The fields of an order that dispatch never touches.
pub open spec fn order_fields_fixed(a: Order, b: Order) -> bool {
    &&& b.id == a.id
    &&& b.order_type == a.order_type
    &&& b.pickup_location == a.pickup_location
    &&& b.delivery_location == a.delivery_location
    &&& b.distance_m == a.distance_m
    &&& b.estimated_duration_minutes == a.estimated_duration_minutes
    &&& b.price == a.price
    &&& b.created_at == a.created_at
    &&& b.metadata@ == a.metadata@
}


/// A snapshot of the available drivers covers exactly the available
/// registry entries; if no snapshot member passes the rules, no registry
/// entry is eligible.
proof fn lemma_no_candidate(
    order: Order,
    pool: Seq<Driver>,
    avail: Seq<&Driver>,
    rules: Seq<RuleKind>,
)
    requires
        forall|j: int|
            0 <= j < pool.len() && driver_available(#[trigger] pool[j]) ==> contains_ref(
                avail,
                pool[j],
            ),
        forall|i: int|
            0 <= i < avail.len() ==> !all_rules_pass(rules, order, *#[trigger] avail[i]),
    ensures
        forall|j: int|
            0 <= j < pool.len() ==> !eligible_driver(order, rules, #[trigger] pool[j]),
{
    reveal(eligible_driver);
    assert forall|j: int|
        0 <= j < pool.len() implies !eligible_driver(order, rules, #[trigger] pool[j]) by {
        if driver_available(pool[j]) {
            let w = choose|w: int| 0 <= w < avail.len() && *#[trigger] avail[w] == pool[j];
            assert(!all_rules_pass(rules, order, *avail[w]));
        }
    }
}

/// A driver chosen from the snapshot is an available registry entry; the
/// returned value is its index.
proof fn lemma_chosen_index(pool: Seq<Driver>, avail: Seq<&Driver>, chosen: Driver) -> (j: int)
    requires
        forall|i: int|
            0 <= i < avail.len() ==> driver_available(*#[trigger] avail[i]) && contains_driver(
                pool,
                *avail[i],
            ),
        contains_ref(avail, chosen),
    ensures
        0 <= j < pool.len(),
        pool[j] == chosen,
        driver_available(chosen),
{
    let wa = choose|wa: int| 0 <= wa < avail.len() && *#[trigger] avail[wa] == chosen;
    assert(driver_available(*avail[wa]) && contains_driver(pool, *avail[wa]));
    let j = choose|j: int| 0 <= j < pool.len() && #[trigger] pool[j] == chosen;
    j
}

/// The ranking a strategy guarantees over the snapshot of available
/// drivers carries over to every eligible driver of the registry.
#[verifier::spinoff_prover]
proof fn lemma_snapshot_optimal(
    s: StrategyKind,
    order: Order,
    pool: Seq<Driver>,
    avail: Seq<&Driver>,
    rules: Seq<RuleKind>,
    chosen: Driver,
)
    requires
        forall|i: int|
            0 <= i < avail.len() ==> driver_available(*#[trigger] avail[i]) && contains_driver(
                pool,
                *avail[i],
            ),
        forall|j: int|
            0 <= j < pool.len() && driver_available(#[trigger] pool[j]) ==> contains_ref(
                avail,
                pool[j],
            ),
        match s {
            StrategyKind::NearestFirst(_) => forall|i: int|
                0 <= i < avail.len() && all_rules_pass(rules, order, *#[trigger] avail[i])
                    ==> distance_m_spec(chosen.current_location, order.pickup_location)
                    <= distance_m_spec(avail[i].current_location, order.pickup_location),
            StrategyKind::LoadBalanced(_) => forall|i: int|
                0 <= i < avail.len() && all_rules_pass(rules, order, *#[trigger] avail[i])
                    ==> ratio_le(chosen, *avail[i]),
            StrategyKind::RatingPriority(_) => forall|i: int|
                0 <= i < avail.len() && all_rules_pass(rules, order, *#[trigger] avail[i])
                    ==> chosen.rating_tenths >= avail[i].rating_tenths && (avail[i].rating_tenths
                    == chosen.rating_tenths ==> ratio_le(chosen, *avail[i])),
            StrategyKind::CapacityMatch(_) => {
                if requires_large_spec(order.order_type) && (exists|i: int|
                    0 <= i < avail.len() && all_rules_pass(rules, order, *#[trigger] avail[i])
                        && vehicle_large_spec(avail[i].vehicle_type)) {
                    &&& vehicle_large_spec(chosen.vehicle_type)
                    &&& forall|i: int|
                        0 <= i < avail.len() && all_rules_pass(rules, order, *#[trigger] avail[i])
                            && vehicle_large_spec(avail[i].vehicle_type) ==> distance_m_spec(
                            chosen.current_location,
                            order.pickup_location,
                        ) <= distance_m_spec(avail[i].current_location, order.pickup_location)
                } else {
                    forall|i: int|
                        0 <= i < avail.len() && all_rules_pass(rules, order, *#[trigger] avail[i])
                            ==> distance_m_spec(chosen.current_location, order.pickup_location)
                            <= distance_m_spec(avail[i].current_location, order.pickup_location)
                }
            },
        },
    ensures
        strategy_optimal(s, order, pool, rules, chosen),
{
    reveal(strategy_optimal);
    reveal(eligible_driver);
    match s {
        StrategyKind::NearestFirst(_) => {
            assert forall|j: int|
                0 <= j < pool.len() && eligible_driver(
                    order,
                    rules,
                    #[trigger] pool[j],
                ) implies distance_m_spec(chosen.current_location, order.pickup_location)
                <= distance_m_spec(pool[j].current_location, order.pickup_location) by {
                let w = choose|w: int| 0 <= w < avail.len() && *#[trigger] avail[w] == pool[j];
                assert(all_rules_pass(rules, order, *avail[w]));
            }
        },
        StrategyKind::LoadBalanced(_) => {
            assert forall|j: int|
                0 <= j < pool.len() && eligible_driver(
                    order,
                    rules,
                    #[trigger] pool[j],
                ) implies ratio_le(chosen, pool[j]) by {
                let w = choose|w: int| 0 <= w < avail.len() && *#[trigger] avail[w] == pool[j];
                assert(all_rules_pass(rules, order, *avail[w]));
            }
        },
        StrategyKind::RatingPriority(_) => {
            assert forall|j: int|
                0 <= j < pool.len() && eligible_driver(
                    order,
                    rules,
                    #[trigger] pool[j],
                ) implies chosen.rating_tenths >= pool[j].rating_tenths && (pool[j].rating_tenths
                == chosen.rating_tenths ==> ratio_le(chosen, pool[j])) by {
                let w = choose|w: int| 0 <= w < avail.len() && *#[trigger] avail[w] == pool[j];
                assert(all_rules_pass(rules, order, *avail[w]));
            }
        },
        StrategyKind::CapacityMatch(_) => {
            let pool_large = exists|j: int|
                0 <= j < pool.len() && eligible_driver(order, rules, #[trigger] pool[j])
                    && vehicle_large_spec(pool[j].vehicle_type);
            let snap_large = exists|i: int|
                0 <= i < avail.len() && all_rules_pass(rules, order, *#[trigger] avail[i])
                    && vehicle_large_spec(avail[i].vehicle_type);
            if pool_large {
                let j = choose|j: int|
                    0 <= j < pool.len() && eligible_driver(order, rules, #[trigger] pool[j])
                        && vehicle_large_spec(pool[j].vehicle_type);
                let w = choose|w: int| 0 <= w < avail.len() && *#[trigger] avail[w] == pool[j];
                assert(all_rules_pass(rules, order, *avail[w]) && vehicle_large_spec(
                    avail[w].vehicle_type,
                ));
                assert(snap_large);
            }
            if snap_large {
                let i = choose|i: int|
                    0 <= i < avail.len() && all_rules_pass(rules, order, *#[trigger] avail[i])
                        && vehicle_large_spec(avail[i].vehicle_type);
                let j = choose|j: int| 0 <= j < pool.len() && #[trigger] pool[j] == *avail[i];
                assert(eligible_driver(order, rules, pool[j]));
                assert(pool_large);
            }
            if requires_large_spec(order.order_type) && pool_large {
                assert forall|j: int|
                    0 <= j < pool.len() && eligible_driver(order, rules, #[trigger] pool[j])
                        && vehicle_large_spec(pool[j].vehicle_type) implies distance_m_spec(
                    chosen.current_location,
                    order.pickup_location,
                ) <= distance_m_spec(pool[j].current_location, order.pickup_location) by {
                    let w = choose|w: int| 0 <= w < avail.len() && *#[trigger] avail[w] == pool[j];
                    assert(all_rules_pass(rules, order, *avail[w]) && vehicle_large_spec(
                        avail[w].vehicle_type,
                    ));
                }
            } else {
                assert forall|j: int|
                    0 <= j < pool.len() && eligible_driver(
                        order,
                        rules,
                        #[trigger] pool[j],
                    ) implies distance_m_spec(chosen.current_location, order.pickup_location)
                    <= distance_m_spec(pool[j].current_location, order.pickup_location) by {
                    let w = choose|w: int| 0 <= w < avail.len() && *#[trigger] avail[w] == pool[j];
                    assert(all_rules_pass(rules, order, *avail[w]));
                }
            }
        },
    }
}

/// Phase one of a dispatch: snapshot the available drivers, let the
/// strategy pick one through the rules, and resolve it to its registry
/// index. Returns `None` exactly when no registered driver is eligible.
#[verifier::rlimit(100)]
#[verifier::spinoff_prover]
fn select_phase(
    pool: &DriverPool,
    strategy: &StrategyKind,
    rules: &Vec<RuleKind>,
    order: &Order,
) -> (r: Option<usize>)
    requires
        pool_wf(pool@),
    ensures
        match r {
            Some(idx) => {
                &&& idx < pool@.len()
                &&& eligible_driver(*order, rules@, pool@[idx as int])
                &&& strategy_optimal(*strategy, *order, pool@, rules@, pool@[idx as int])
            },
            None => forall|j: int|
                0 <= j < pool@.len() ==> !eligible_driver(*order, rules@, #[trigger] pool@[j]),
        },
{
    let available = pool.get_available_drivers();
    let ghost avail = available@;
    let selected = strategy.select_driver(order, available, rules);
    match selected {
        None => {
            proof {
                lemma_no_candidate(*order, pool@, avail, rules@);
            }
            None
        },
        Some(d) => {
            let ghost chosen = *d;
            let ghost j0 = 0int;
            proof {
                j0 = lemma_chosen_index(pool@, avail, chosen);
                assert(eligible_driver(*order, rules@, chosen)) by {
                    reveal(eligible_driver);
                }
                lemma_snapshot_optimal(*strategy, *order, pool@, avail, rules@, chosen);
            }
            let found = pool.find_index(d.id);
            match found {
                Some(idx) => {
                    proof {
                        if idx as int != j0 {
                            assert(pool@[idx as int].id != pool@[j0].id);
                        }
                        assert(pool@[idx as int] == chosen);
                    }
                    Some(idx)
                },
                None => {
                    proof {
                        assert(has_id(pool@, chosen.id)) by {
                            assert(0 <= j0 < pool@.len() && pool@[j0].id == chosen.id);
                        }
                        assert(false);
                    }
                    None
                },
            }
        },
    }
}

/// The dispatch engine: the driver registry, the active strategy, and the
/// active rule list.
pub struct DispatchEngine {
    driver_pool: DriverPool,
    strategy: StrategyKind,
    rules: Vec<RuleKind>,
}

impl DispatchEngine {
    /// The registry contents.
    pub closed spec fn drivers_spec(self) -> Seq<Driver> {
        self.driver_pool@
    }

    /// The active strategy.
    pub closed spec fn strategy_spec(self) -> StrategyKind {
        self.strategy
    }

    /// The active rule list.
    pub closed spec fn rules_spec(self) -> Seq<RuleKind> {
        self.rules@
    }

    /// The registry holds each driver identifier at most once.
    pub open spec fn wf(self) -> bool {
        pool_wf(self.drivers_spec())
    }

    /// A fresh engine with an empty registry and the default rules:
    /// capacity and vehicle type.
    pub fn new(strategy: StrategyKind) -> (r: Self)
        ensures
            r.wf(),
            r.drivers_spec().len() == 0,
            r.strategy_spec() == strategy,
            r.rules_spec() =~= seq![
                RuleKind::Capacity(CapacityRule),
                RuleKind::Vehicle(VehicleTypeRule),
            ],
    {
        let mut rules: Vec<RuleKind> = Vec::new();
        rules.push(RuleKind::Capacity(CapacityRule));
        rules.push(RuleKind::Vehicle(VehicleTypeRule));
        Self { driver_pool: DriverPool::new(), strategy, rules }
    }

    /// The same engine with the rule list replaced.
    pub fn with_rules(self, rules: Vec<RuleKind>) -> (r: Self)
        ensures
            r.drivers_spec() == self.drivers_spec(),
            r.strategy_spec() == self.strategy_spec(),
            r.rules_spec() == rules@,
    {
        Self { rules, ..self }
    }

    /// Appends one rule to the active list.
    pub fn add_rule(&mut self, rule: RuleKind)
        ensures
            final(self).drivers_spec() == old(self).drivers_spec(),
            final(self).strategy_spec() == old(self).strategy_spec(),
            final(self).rules_spec() == old(self).rules_spec().push(rule),
    {
        self.rules.push(rule);
    }

    /// Inserts a driver, overwriting any entry with the same identifier.
    pub fn add_driver(&mut self, driver: Driver)
        requires
            old(self).wf(),
        ensures
            final(self).wf(),
            final(self).strategy_spec() == old(self).strategy_spec(),
            final(self).rules_spec() == old(self).rules_spec(),
            has_id(final(self).drivers_spec(), driver.id),
            if has_id(old(self).drivers_spec(), driver.id) {
                final(self).drivers_spec() == old(self).drivers_spec().update(
                    idx_of(old(self).drivers_spec(), driver.id),
                    driver,
                )
            } else {
                final(self).drivers_spec() == old(self).drivers_spec().push(driver)
            },
    {
        self.driver_pool.add_driver(driver);
    }

    /// Removes and returns the driver with the given identifier; fails
    /// with `DriverNotFound` exactly when no entry carries it.
    pub fn remove_driver(&mut self, driver_id: u128) -> (r: Result<Driver, DispatchError>)
        requires
            old(self).wf(),
        ensures
            final(self).wf(),
            final(self).strategy_spec() == old(self).strategy_spec(),
            final(self).rules_spec() == old(self).rules_spec(),
            match r {
                Ok(d) => {
                    &&& has_id(old(self).drivers_spec(), driver_id)
                    &&& d == old(self).drivers_spec()[idx_of(old(self).drivers_spec(), driver_id)]
                    &&& final(self).drivers_spec() == old(self).drivers_spec().remove(
                        idx_of(old(self).drivers_spec(), driver_id),
                    )
                },
                Err(e) => {
                    &&& e == DispatchError::DriverNotFound(driver_id)
                    &&& !has_id(old(self).drivers_spec(), driver_id)
                    &&& final(self).drivers_spec() == old(self).drivers_spec()
                },
            },
    {
        match self.driver_pool.remove_driver(driver_id) {
            Some(d) => Ok(d),
            None => Err(DispatchError::DriverNotFound(driver_id)),
        }
    }

    /// Assigns the order to the driver the active strategy selects among
    /// the available drivers, committing load, counters, status and the
    /// order's assignment atomically. Returns `Ok` exactly when some
    /// registered driver is available and passes every active rule; on
    /// failure, neither the order nor any driver has changed.
    #[verifier::rlimit(100)]
    #[verifier::spinoff_prover]
    pub fn dispatch(&mut self, order: &mut Order) -> (r: Result<DispatchResult, DispatchError>)
        requires
            old(self).wf(),
        ensures
            final(self).wf(),
            final(self).strategy_spec() == old(self).strategy_spec(),
            final(self).rules_spec() == old(self).rules_spec(),
            order_fields_fixed(*old(order), *final(order)),
            (r is Ok) <==> (exists|j: int|
                0 <= j < old(self).drivers_spec().len() && eligible_driver(
                    *old(order),
                    old(self).rules_spec(),
                    #[trigger] old(self).drivers_spec()[j],
                )),
            match r {
                Ok(res) => exists|j: int|
                    {
                        &&& 0 <= j < old(self).drivers_spec().len()
                        &&& eligible_driver(
                            *old(order),
                            old(self).rules_spec(),
                            #[trigger] old(self).drivers_spec()[j],
                        )
                        &&& strategy_optimal(
                            old(self).strategy_spec(),
                            *old(order),
                            old(self).drivers_spec(),
                            old(self).rules_spec(),
                            old(self).drivers_spec()[j],
                        )
                        &&& final(self).drivers_spec() == old(self).drivers_spec().update(
                            j,
                            driver_after_assign(old(self).drivers_spec()[j]),
                        )
                        &&& res.order_id == old(order).id
                        &&& res.driver_id == old(self).drivers_spec()[j].id
                        &&& res.driver_name == old(self).drivers_spec()[j].name
                        &&& res.vehicle_type@ == vehicle_display_spec(
                            old(self).drivers_spec()[j].vehicle_type,
                        )
                        &&& res.distance_to_pickup_m == distance_m_spec(
                            old(self).drivers_spec()[j].current_location,
                            old(order).pickup_location,
                        )
                        &&& res.estimated_arrival_minutes == res.distance_to_pickup_m as int / 500
                        &&& res.strategy_used@ == strategy_name_spec(old(self).strategy_spec())
                        &&& final(order).status == OrderStatus::Dispatched
                        &&& final(order).assigned_to == Some(res.driver_id)
                    },
                Err(e) => {
                    &&& e is NoDriverAvailable
                    &&& final(self).drivers_spec() == old(self).drivers_spec()
                    &&& *final(order) == *old(order)
                },
            },
    {
        let ghost old_pool = self.driver_pool@;
        let selected = select_phase(&self.driver_pool, &self.strategy, &self.rules, order);
        match selected {
            None => Err(DispatchError::NoDriverAvailable),
            Some(idx) => {
                let ghost chosen = self.driver_pool@[idx as int];
                proof {
                    assert(driver_available(chosen)) by {
                        reveal(eligible_driver);
                    }
                }
                let drv = self.driver_pool.get_driver_mut(idx);
                let driver_id = drv.id;
                let driver_name = drv.name.clone();
                let vehicle_label = drv.vehicle_type.display_name().to_owned();
                let pickup_dist = drv.distance_to(order.pickup_location);
                let arrival: u32 = (pickup_dist / 500) as u32;
                let committed = drv.assign_order();
                if committed {
                    order.status = OrderStatus::Dispatched;
                    order.assigned_to = Some(driver_id);
                    let result = DispatchResult {
                        order_id: order.id,
                        driver_id,
                        driver_name,
                        vehicle_type: vehicle_label,
                        distance_to_pickup_m: pickup_dist,
                        estimated_arrival_minutes: arrival,
                        strategy_used: self.strategy.name().to_owned(),
                        timestamp: now_timestamp(),
                    };
                    proof {
                        assert(self.driver_pool@ == old_pool.update(
                            idx as int,
                            driver_after_assign(old_pool[idx as int]),
                        ));
                        assert forall|p: int, q: int|
                            0 <= p < q < self.driver_pool@.len() implies self.driver_pool@[p].id
                            != self.driver_pool@[q].id by {
                            assert(old_pool[p].id != old_pool[q].id);
                        }
                    }
                    Ok(result)
                } else {
                    // unreachable: the selected driver was available, and
                    // nothing changed between the two phases
                    proof {
                        assert(false);
                    }
                    Err(DispatchError::CapacityExceeded)
                }
            },
        }
    }

    /// Hands one order back from a driver: its load goes down by one, with
    /// a floor at zero, and it returns to idle when below capacity and not
    /// offline. Fails with `DriverNotFound` exactly when the identifier is
    /// unknown.
    pub fn release_order(&mut self, driver_id: u128) -> (r: Result<(), DispatchError>)
        requires
            old(self).wf(),
        ensures
            final(self).wf(),
            final(self).strategy_spec() == old(self).strategy_spec(),
            final(self).rules_spec() == old(self).rules_spec(),
            match r {
                Ok(_) => {
                    &&& has_id(old(self).drivers_spec(), driver_id)
                    &&& final(self).drivers_spec() == old(self).drivers_spec().update(
                        idx_of(old(self).drivers_spec(), driver_id),
                        driver_after_release(
                            old(self).drivers_spec()[idx_of(old(self).drivers_spec(), driver_id)],
                        ),
                    )
                },
                Err(e) => {
                    &&& e == DispatchError::DriverNotFound(driver_id)
                    &&& !has_id(old(self).drivers_spec(), driver_id)
                    &&& final(self).drivers_spec() == old(self).drivers_spec()
                },
            },
    {
        let ghost old_pool = self.driver_pool@;
        let found = self.driver_pool.find_index(driver_id);
        match found {
            Some(idx) => {
                proof {
                    lemma_idx_of(old_pool, driver_id, idx as int);
                }
                let drv = self.driver_pool.get_driver_mut(idx);
                drv.release_order();
                proof {
                    assert forall|p: int, q: int|
                        0 <= p < q < self.driver_pool@.len() implies self.driver_pool@[p].id
                        != self.driver_pool@[q].id by {
                        assert(old_pool[p].id != old_pool[q].id);
                    }
                }
                Ok(())
            },
            None => Err(DispatchError::DriverNotFound(driver_id)),
        }
    }

    /// A copy of the driver's current record. Fails with `DriverNotFound`
    /// exactly when the identifier is unknown.
    pub fn get_driver_stats(&self, driver_id: u128) -> (r: Result<Driver, DispatchError>)
        requires
            self.wf(),
        ensures
            match r {
                Ok(d) => {
                    &&& has_id(self.drivers_spec(), driver_id)
                    &&& same_driver(
                        d,
                        self.drivers_spec()[idx_of(self.drivers_spec(), driver_id)],
                    )
                },
                Err(e) => {
                    &&& e == DispatchError::DriverNotFound(driver_id)
                    &&& !has_id(self.drivers_spec(), driver_id)
                },
            },
    {
        match self.driver_pool.get_driver(driver_id) {
            Some(d) => Ok(copy_driver(d)),
            None => Err(DispatchError::DriverNotFound(driver_id)),
        }
    }

    /// Copies of all registered drivers, in registry order.
    pub fn get_all_drivers(&self) -> (r: Vec<Driver>)
        ensures
            r@.len() == self.drivers_spec().len(),
            forall|i: int|
                0 <= i < r@.len() ==> same_driver(#[trigger] r@[i], self.drivers_spec()[i]),
    {
        let refs = self.driver_pool.get_all_drivers();
        let mut out: Vec<Driver> = Vec::new();
        let mut i: usize = 0;
        while i < refs.len()
            invariant
                i <= refs@.len(),
                refs@.len() == self.drivers_spec().len(),
                forall|k: int|
                    0 <= k < refs@.len() ==> *#[trigger] refs@[k] == self.drivers_spec()[k],
                out@.len() == i,
                forall|k: int|
                    0 <= k < i ==> same_driver(#[trigger] out@[k], self.drivers_spec()[k]),
            decreases refs@.len() - i,
        {
            out.push(copy_driver(refs[i]));
            i = i + 1;
        }
        out
    }

    /// Overwrites the driver's current location. Fails with
    /// `DriverNotFound` exactly when the identifier is unknown.
    pub fn update_driver_location(&mut self, driver_id: u128, new_location: Location) -> (r: Result<
        (),
        DispatchError,
    >)
        requires
            old(self).wf(),
        ensures
            final(self).wf(),
            final(self).strategy_spec() == old(self).strategy_spec(),
            final(self).rules_spec() == old(self).rules_spec(),
            match r {
                Ok(_) => {
                    &&& has_id(old(self).drivers_spec(), driver_id)
                    &&& final(self).drivers_spec() == old(self).drivers_spec().update(
                        idx_of(old(self).drivers_spec(), driver_id),
                        Driver {
                            current_location: new_location,
                            ..old(self).drivers_spec()[idx_of(
                                old(self).drivers_spec(),
                                driver_id,
                            )]
                        },
                    )
                },
                Err(e) => {
                    &&& e == DispatchError::DriverNotFound(driver_id)
                    &&& !has_id(old(self).drivers_spec(), driver_id)
                    &&& final(self).drivers_spec() == old(self).drivers_spec()
                },
            },
    {
        let ghost old_pool = self.driver_pool@;
        let found = self.driver_pool.find_index(driver_id);
        match found {
            Some(idx) => {
                proof {
                    lemma_idx_of(old_pool, driver_id, idx as int);
                }
                let drv = self.driver_pool.get_driver_mut(idx);
                drv.current_location = new_location;
                proof {
                    assert forall|p: int, q: int|
                        0 <= p < q < self.driver_pool@.len() implies self.driver_pool@[p].id
                        != self.driver_pool@[q].id by {
                        assert(old_pool[p].id != old_pool[q].id);
                    }
                }
                Ok(())
            },
            None => Err(DispatchError::DriverNotFound(driver_id)),
        }
    }
}

} // verus!
