//! Eligibility rules.
//!
//! A rule is a pure pass/fail predicate over an (order, driver) pair. The
//! active rules of an engine are combined by logical AND: a driver is
//! eligible only if every rule passes. Each rule states its predicate as a
//! spec function, and its `evaluate` method decides exactly that
//! predicate.

use vstd::prelude::*;
use crate::drivers::{driver_available, vehicle_large_spec, Driver};
use crate::location::distance_m_spec;
use crate::orders::{requires_large_spec, time_sensitive_spec, Order};

verus! {

/// A pass/fail eligibility predicate over an (order, driver) pair,
/// carrying no mutable state. `passes` is the predicate a rule decides;
/// `evaluate` must return exactly its value.
pub trait DispatchRule {
    /// The predicate this rule decides.
    spec fn passes(&self, order: &Order, driver: &Driver) -> bool;

    /// Decides the predicate, exactly.
    fn evaluate(&self, order: &Order, driver: &Driver) -> (r: bool)
        ensures
            r == self.passes(order, driver),
    ;

    /// A short diagnostic name.
    fn name(&self) -> (r: &'static str);
}

/// Passes iff the driver is available (not offline, below capacity).
#[derive(Clone, Copy, Debug, PartialEq, Eq, Structural)]
pub struct CapacityRule;

impl DispatchRule for CapacityRule {
    open spec fn passes(&self, order: &Order, driver: &Driver) -> bool {
        driver_available(*driver)
    }

    fn evaluate(&self, order: &Order, driver: &Driver) -> (r: bool) {
        driver.is_available()
    }

    fn name(&self) -> (r: &'static str)
        ensures
            r@ == "CapacityRule"@,
    {
        "CapacityRule"
    }
}

/// Passes iff the driver stands within a fixed distance of the order's
/// pickup point.
#[derive(Clone, Copy, Debug, PartialEq, Eq, Structural)]
pub struct DistanceRule {
    pub max_distance_m: u64,
}

impl DistanceRule {
    pub fn new(max_distance_m: u64) -> (r: Self)
        ensures
            r.max_distance_m == max_distance_m,
    {
        Self { max_distance_m }
    }
}

impl DispatchRule for DistanceRule {
    open spec fn passes(&self, order: &Order, driver: &Driver) -> bool {
        distance_m_spec(driver.current_location, order.pickup_location) <= self.max_distance_m
    }

    fn evaluate(&self, order: &Order, driver: &Driver) -> (r: bool) {
        driver.distance_to(order.pickup_location) <= self.max_distance_m
    }

    fn name(&self) -> (r: &'static str)
        ensures
            r@ == "DistanceRule"@,
    {
        "DistanceRule"
    }
}

/// Passes iff an order that needs a large vehicle meets a vehicle class
/// that can carry large items; passes vacuously otherwise.
#[derive(Clone, Copy, Debug, PartialEq, Eq, Structural)]
pub struct VehicleTypeRule;

impl DispatchRule for VehicleTypeRule {
    open spec fn passes(&self, order: &Order, driver: &Driver) -> bool {
        requires_large_spec(order.order_type) ==> vehicle_large_spec(driver.vehicle_type)
    }

    fn evaluate(&self, order: &Order, driver: &Driver) -> (r: bool) {
        if order.order_type.requires_large_vehicle() {
            driver.vehicle_type.can_carry_large_items()
        } else {
            true
        }
    }

    fn name(&self) -> (r: &'static str)
        ensures
            r@ == "VehicleTypeRule"@,
    {
        "VehicleTypeRule"
    }
}

/// Passes iff a time-sensitive order meets a rating of at least the given
/// floor (in tenths of a star); passes vacuously otherwise.
#[derive(Clone, Copy, Debug, PartialEq, Eq, Structural)]
pub struct RatingRule {
    pub min_rating_tenths: u32,
}

impl RatingRule {
    pub fn new(min_rating_tenths: u32) -> (r: Self)
        ensures
            r.min_rating_tenths == min_rating_tenths,
    {
        Self { min_rating_tenths }
    }
}

impl DispatchRule for RatingRule {
    open spec fn passes(&self, order: &Order, driver: &Driver) -> bool {
        time_sensitive_spec(order.order_type) ==> driver.rating_tenths >= self.min_rating_tenths
    }

    fn evaluate(&self, order: &Order, driver: &Driver) -> (r: bool) {
        if order.order_type.is_time_sensitive() {
            driver.rating_tenths >= self.min_rating_tenths
        } else {
            true
        }
    }

    fn name(&self) -> (r: &'static str)
        ensures
            r@ == "RatingRule"@,
    {
        "RatingRule"
    }
}

/// One of the built-in rules, as a value that can sit in an engine's rule
/// list.
#[derive(Clone, Copy, Debug, PartialEq, Eq, Structural)]
pub enum RuleKind {
    Capacity(CapacityRule),
    Distance(DistanceRule),
    Vehicle(VehicleTypeRule),
    Rating(RatingRule),
}

impl DispatchRule for RuleKind {
    open spec fn passes(&self, order: &Order, driver: &Driver) -> bool {
        match self {
            RuleKind::Capacity(rule) => rule.passes(order, driver),
            RuleKind::Distance(rule) => rule.passes(order, driver),
            RuleKind::Vehicle(rule) => rule.passes(order, driver),
            RuleKind::Rating(rule) => rule.passes(order, driver),
        }
    }

    fn evaluate(&self, order: &Order, driver: &Driver) -> (r: bool) {
        match self {
            RuleKind::Capacity(rule) => rule.evaluate(order, driver),
            RuleKind::Distance(rule) => rule.evaluate(order, driver),
            RuleKind::Vehicle(rule) => rule.evaluate(order, driver),
            RuleKind::Rating(rule) => rule.evaluate(order, driver),
        }
    }

    fn name(&self) -> (r: &'static str) {
        match self {
            RuleKind::Capacity(rule) => rule.name(),
            RuleKind::Distance(rule) => rule.name(),
            RuleKind::Vehicle(rule) => rule.name(),
            RuleKind::Rating(rule) => rule.name(),
        }
    }
}

/// Every rule in the list passes on this (order, driver) pair.
pub open spec fn all_rules_pass(rules: Seq<RuleKind>, order: Order, driver: Driver) -> bool {
    forall|k: int| 0 <= k < rules.len() ==> (#[trigger] rules[k]).passes(&order, &driver)
}

/// Decides `all_rules_pass` over a rule list.
pub fn passes_all(rules: &Vec<RuleKind>, order: &Order, driver: &Driver) -> (r: bool)
    ensures
        r == all_rules_pass(rules@, *order, *driver),
{
    let mut k: usize = 0;
    while k < rules.len()
        invariant
            k <= rules@.len(),
            forall|m: int| 0 <= m < k ==> (#[trigger] rules@[m]).passes(order, driver),
        decreases rules@.len() - k,
    {
        if !rules[k].evaluate(order, driver) {
            return false;
        }
        k = k + 1;
    }
    true
}

} // verus!
