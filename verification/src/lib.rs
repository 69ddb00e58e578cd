//! A delivery/ride dispatch engine: a driver registry, composable eligibility
//! rules, pluggable selection strategies, and an engine that assigns each
//! incoming order to at most one driver and commits the assignment atomically.

pub mod drivers;
pub mod engine;
pub mod location;
pub mod orders;
pub mod rules;
pub mod strategies;

mod fresh;

pub use drivers::{Driver, DriverPool, DriverStatus, VehicleType};
pub use engine::{DispatchEngine, DispatchError, DispatchResult};
pub use location::{distance_m, Location};
pub use orders::{Order, OrderStatus, OrderType};
pub use rules::{CapacityRule, DispatchRule, DistanceRule, RatingRule, RuleKind, VehicleTypeRule};
pub use strategies::{
    CapacityMatchStrategy, DispatchStrategy, LoadBalancedStrategy, NearestFirstStrategy,
    RatingPriorityStrategy, StrategyKind,
};
