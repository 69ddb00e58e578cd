//! Behavior of the individual components: the distance function, order
//! derivation, rules, strategies, the registry, and the engine's error
//! cases.

use dispatcher::{
    CapacityMatchStrategy, CapacityRule, DispatchEngine, DispatchError, DispatchRule,
    DispatchStrategy, DistanceRule, Driver, DriverPool, DriverStatus, LoadBalancedStrategy,
    Location, NearestFirstStrategy, Order, OrderStatus, OrderType, RatingPriorityStrategy,
    RatingRule, RuleKind, StrategyKind, VehicleType, VehicleTypeRule,
};
use dispatcher::location::distance_m;

#[test]
fn distance_is_symmetric_and_zero_on_self() {
    let a = Location::new(39_904_200, 116_407_400);
    let b = Location::new(40_079_800, 116_603_100);
    assert_eq!(distance_m(a, b), distance_m(b, a));
    assert_eq!(distance_m(a, a), 0);
    assert_eq!(distance_m(b, b), 0);
}

#[test]
fn order_derives_price_and_duration_from_distance() {
    let order = Order::new(
        OrderType::Food,
        Location::new(39_904_200, 116_407_400),
        Location::new(39_915_000, 116_418_000),
    );
    let dist = order.distance_m;
    assert_eq!(order.price, (500 + dist * 200 / 1000 + 50) / 100);
    let minutes = dist * 60 / 20_000;
    let expected = if minutes < 5 { 5 } else { minutes as u32 };
    assert_eq!(order.estimated_duration_minutes, expected);
    assert_eq!(order.status, OrderStatus::Pending);
    assert!(order.assigned_to.is_none());
}

#[test]
fn zero_distance_order_has_base_price_and_minimum_duration() {
    let here = Location::new(39_904_200, 116_407_400);
    let order = Order::new(OrderType::RideHailing, here, here);
    assert_eq!(order.distance_m, 0);
    // base fare 10 units, rounded from 1050 fen
    assert_eq!(order.price, 10);
    // five-minute floor
    assert_eq!(order.estimated_duration_minutes, 5);
}

#[test]
fn order_metadata_appends() {
    let here = Location::new(39_904_200, 116_407_400);
    let order = Order::new(OrderType::Food, here, here)
        .with_metadata("note".to_string(), "no onions".to_string());
    assert_eq!(order.metadata.len(), 1);
    assert_eq!(order.metadata[0].0, "note");
    assert_eq!(order.metadata[0].1, "no onions");
}

#[test]
fn new_driver_takes_vehicle_capacity_and_defaults() {
    let d = Driver::new(
        "司机".to_string(),
        VehicleType::Van,
        Location::new(39_904_200, 116_407_400),
    );
    assert_eq!(d.capacity, 6);
    assert_eq!(d.current_load, 0);
    assert_eq!(d.rating_tenths, 50);
    assert_eq!(d.total_orders, 0);
    assert_eq!(d.status, DriverStatus::Idle);
    assert!(d.is_available());
}

#[test]
fn vehicle_classes_capacities_and_large_item_support() {
    assert_eq!(VehicleType::ElectricBike.capacity(), 2);
    assert_eq!(VehicleType::Motorcycle.capacity(), 3);
    assert_eq!(VehicleType::Car.capacity(), 4);
    assert_eq!(VehicleType::Van.capacity(), 6);
    assert_eq!(VehicleType::Truck.capacity(), 10);
    assert!(!VehicleType::ElectricBike.can_carry_large_items());
    assert!(!VehicleType::Motorcycle.can_carry_large_items());
    assert!(VehicleType::Car.can_carry_large_items());
    assert!(VehicleType::Van.can_carry_large_items());
    assert!(VehicleType::Truck.can_carry_large_items());
    assert_eq!(VehicleType::ElectricBike.display_name(), "电动车");
}

#[test]
fn driver_assign_and_release_roundtrip() {
    let mut d = Driver::new(
        "司机".to_string(),
        VehicleType::ElectricBike,
        Location::new(39_904_200, 116_407_400),
    );
    assert!(d.assign_order());
    assert_eq!(d.current_load, 1);
    assert_eq!(d.status, DriverStatus::Idle);
    assert!(d.assign_order());
    assert_eq!(d.current_load, 2);
    assert_eq!(d.status, DriverStatus::Busy);
    assert!(!d.assign_order());
    assert_eq!(d.current_load, 2);
    d.release_order();
    assert_eq!(d.current_load, 1);
    assert_eq!(d.status, DriverStatus::Idle);
}

#[test]
fn release_at_zero_load_is_a_no_op() {
    let mut d = Driver::new(
        "司机".to_string(),
        VehicleType::Car,
        Location::new(39_904_200, 116_407_400),
    );
    d.release_order();
    assert_eq!(d.current_load, 0);
    assert_eq!(d.status, DriverStatus::Idle);

    let strategy = StrategyKind::NearestFirst(NearestFirstStrategy::new());
    let mut engine = DispatchEngine::new(strategy);
    let driver = Driver::new(
        "司机".to_string(),
        VehicleType::Car,
        Location::new(39_904_200, 116_407_400),
    );
    let id = driver.id;
    engine.add_driver(driver);
    assert!(engine.release_order(id).is_ok());
    assert_eq!(engine.get_driver_stats(id).unwrap().current_load, 0);
}

#[test]
fn rules_evaluate_their_predicates() {
    let order_food = Order::new(
        OrderType::Food,
        Location::new(39_905_000, 116_408_000),
        Location::new(39_915_000, 116_418_000),
    );
    let order_express = Order::new(
        OrderType::Express,
        Location::new(39_905_000, 116_408_000),
        Location::new(39_915_000, 116_418_000),
    );
    let mut d = Driver::new(
        "司机".to_string(),
        VehicleType::ElectricBike,
        Location::new(39_904_200, 116_407_400),
    );
    d.rating_tenths = 35;

    assert!(CapacityRule.evaluate(&order_food, &d));
    d.status = DriverStatus::Offline;
    assert!(!CapacityRule.evaluate(&order_food, &d));
    d.status = DriverStatus::Idle;

    // the driver stands about 120 m from the pickup point
    assert!(DistanceRule::new(1_000).evaluate(&order_food, &d));
    assert!(!DistanceRule::new(100).evaluate(&order_food, &d));

    assert!(VehicleTypeRule.evaluate(&order_food, &d));
    assert!(!VehicleTypeRule.evaluate(&order_express, &d));

    // rating floor applies only to time-sensitive categories
    assert!(!RatingRule::new(40).evaluate(&order_food, &d));
    assert!(RatingRule::new(40).evaluate(&order_express, &d));
    assert_eq!(RatingRule::new(40).name(), "RatingRule");
}

#[test]
fn strategy_selects_among_explicit_candidates() {
    let order = Order::new(
        OrderType::Food,
        Location::new(39_905_000, 116_408_000),
        Location::new(39_915_000, 116_418_000),
    );
    let near = Driver::new(
        "近".to_string(),
        VehicleType::ElectricBike,
        Location::new(39_904_200, 116_407_400),
    );
    let far = Driver::new(
        "远".to_string(),
        VehicleType::ElectricBike,
        Location::new(39_920_000, 116_430_000),
    );
    let rules = vec![RuleKind::Capacity(CapacityRule)];
    let strategy = NearestFirstStrategy::new();
    let picked = strategy.select_driver(&order, vec![&near, &far], &rules);
    assert_eq!(picked.unwrap().name, "近");
    assert_eq!(strategy.name(), "NearestFirst");

    let picked_none = strategy.select_driver(&order, vec![], &rules);
    assert!(picked_none.is_none());
}

#[test]
fn capacity_match_prefers_large_vehicles_and_falls_back() {
    let order = Order::new(
        OrderType::Cargo,
        Location::new(39_905_000, 116_408_000),
        Location::new(39_915_000, 116_418_000),
    );
    // the small vehicle stands closer, but the order needs a large one
    let near_bike = Driver::new(
        "近车".to_string(),
        VehicleType::ElectricBike,
        Location::new(39_904_200, 116_407_400),
    );
    let far_van = Driver::new(
        "远货车".to_string(),
        VehicleType::Van,
        Location::new(39_920_000, 116_430_000),
    );
    let rules = vec![RuleKind::Capacity(CapacityRule)];
    let strategy = CapacityMatchStrategy::new();
    let picked = strategy.select_driver(&order, vec![&near_bike, &far_van], &rules);
    assert_eq!(picked.unwrap().name, "远货车");

    // with no large vehicle at all, fall back instead of failing
    let picked_fallback = strategy.select_driver(&order, vec![&near_bike], &rules);
    assert_eq!(picked_fallback.unwrap().name, "近车");
}

#[test]
fn load_balanced_exhausts_both_drivers_then_fails() {
    let strategy = StrategyKind::LoadBalanced(LoadBalancedStrategy::new());
    let mut engine =
        DispatchEngine::new(strategy).with_rules(vec![RuleKind::Capacity(CapacityRule)]);

    let here = Location::new(39_904_200, 116_407_400);
    let x = Driver::new("X".to_string(), VehicleType::ElectricBike, here);
    let mut y = Driver::new("Y".to_string(), VehicleType::ElectricBike, here);
    y.current_load = 2;
    let x_id = x.id;
    engine.add_driver(x);
    engine.add_driver(y);

    let pickup = Location::new(39_905_000, 116_408_000);
    let delivery = Location::new(39_915_000, 116_418_000);

    let mut order1 = Order::new(OrderType::Food, pickup, delivery);
    let first = engine.dispatch(&mut order1).unwrap();
    assert_eq!(first.driver_name, "X");
    assert_eq!(order1.status, OrderStatus::Dispatched);
    assert_eq!(order1.assigned_to, Some(x_id));

    let mut order2 = Order::new(OrderType::Food, pickup, delivery);
    assert_eq!(engine.dispatch(&mut order2).unwrap().driver_name, "X");

    // both drivers now stand at full load
    let mut order3 = Order::new(OrderType::Food, pickup, delivery);
    let third = engine.dispatch(&mut order3);
    assert!(matches!(third, Err(DispatchError::NoDriverAvailable)));
    assert_eq!(order3.status, OrderStatus::Pending);
    assert!(order3.assigned_to.is_none());
}

#[test]
fn dispatch_failure_changes_nothing() {
    let strategy = StrategyKind::NearestFirst(NearestFirstStrategy::new());
    let mut engine = DispatchEngine::new(strategy);

    let driver = Driver::new(
        "骑手".to_string(),
        VehicleType::ElectricBike,
        Location::new(39_904_200, 116_407_400),
    );
    let id = driver.id;
    engine.add_driver(driver);

    // an express order needs a large vehicle, so dispatch fails
    let mut order = Order::new(
        OrderType::Express,
        Location::new(39_905_000, 116_408_000),
        Location::new(39_915_000, 116_418_000),
    );
    let result = engine.dispatch(&mut order);
    assert!(matches!(result, Err(DispatchError::NoDriverAvailable)));
    assert_eq!(order.status, OrderStatus::Pending);
    assert!(order.assigned_to.is_none());
    assert_eq!(engine.get_driver_stats(id).unwrap().current_load, 0);
}

#[test]
fn dispatch_result_reports_the_commitment() {
    let strategy = StrategyKind::NearestFirst(NearestFirstStrategy::new());
    let mut engine = DispatchEngine::new(strategy);

    let driver = Driver::new(
        "骑手".to_string(),
        VehicleType::ElectricBike,
        Location::new(39_904_200, 116_407_400),
    );
    let id = driver.id;
    engine.add_driver(driver);

    let mut order = Order::new(
        OrderType::Food,
        Location::new(39_905_000, 116_408_000),
        Location::new(39_915_000, 116_418_000),
    );
    let order_id = order.id;
    let result = engine.dispatch(&mut order).unwrap();
    assert_eq!(result.order_id, order_id);
    assert_eq!(result.driver_id, id);
    assert_eq!(result.vehicle_type, "电动车");
    assert_eq!(result.strategy_used, "NearestFirst");
    assert_eq!(
        result.estimated_arrival_minutes,
        (result.distance_to_pickup_m / 500) as u32
    );
    let stats = engine.get_driver_stats(id).unwrap();
    assert_eq!(stats.current_load, 1);
    assert_eq!(stats.total_orders, 1);
}

#[test]
fn unknown_driver_ids_are_reported() {
    let strategy = StrategyKind::NearestFirst(NearestFirstStrategy::new());
    let mut engine = DispatchEngine::new(strategy);
    let unknown_id = 12_345_u128;
    assert!(matches!(
        engine.get_driver_stats(unknown_id),
        Err(DispatchError::DriverNotFound(id)) if id == unknown_id
    ));
    assert!(matches!(
        engine.release_order(unknown_id),
        Err(DispatchError::DriverNotFound(_))
    ));
    assert!(matches!(
        engine.update_driver_location(unknown_id, Location::new(0, 0)),
        Err(DispatchError::DriverNotFound(_))
    ));
    assert!(matches!(
        engine.remove_driver(unknown_id),
        Err(DispatchError::DriverNotFound(_))
    ));
}

#[test]
fn pool_overwrites_same_id_and_removes() {
    let mut pool = DriverPool::new();
    let d1 = Driver::new(
        "甲".to_string(),
        VehicleType::Car,
        Location::new(39_904_200, 116_407_400),
    );
    let id = d1.id;
    let mut d2 = Driver::new(
        "乙".to_string(),
        VehicleType::Truck,
        Location::new(39_910_000, 116_410_000),
    );
    d2.id = id;

    pool.add_driver(d1);
    pool.add_driver(d2);
    assert_eq!(pool.get_all_drivers().len(), 1);
    assert_eq!(pool.get_driver(id).unwrap().name, "乙");

    let removed = pool.remove_driver(id).unwrap();
    assert_eq!(removed.name, "乙");
    assert!(pool.get_driver(id).is_none());
    assert!(pool.remove_driver(id).is_none());
}

#[test]
fn available_drivers_excludes_offline_and_full() {
    let mut pool = DriverPool::new();
    let here = Location::new(39_904_200, 116_407_400);
    let idle = Driver::new("空".to_string(), VehicleType::Car, here);
    let idle_id = idle.id;
    let mut offline = Driver::new("离线".to_string(), VehicleType::Car, here);
    offline.status = DriverStatus::Offline;
    let mut full = Driver::new("满".to_string(), VehicleType::ElectricBike, here);
    full.current_load = 2;
    pool.add_driver(idle);
    pool.add_driver(offline);
    pool.add_driver(full);

    let available = pool.get_available_drivers();
    assert_eq!(available.len(), 1);
    assert_eq!(available[0].id, idle_id);
}

#[test]
fn engine_lists_all_drivers() {
    let strategy = StrategyKind::CapacityMatch(CapacityMatchStrategy::new());
    let mut engine = DispatchEngine::new(strategy);
    let here = Location::new(39_904_200, 116_407_400);
    engine.add_driver(Driver::new("甲".to_string(), VehicleType::Car, here));
    engine.add_driver(Driver::new("乙".to_string(), VehicleType::Van, here));
    let all = engine.get_all_drivers();
    assert_eq!(all.len(), 2);
    let removed = all[0].id;
    engine.remove_driver(removed).unwrap();
    assert_eq!(engine.get_all_drivers().len(), 1);
}

#[test]
fn rating_priority_breaks_ties_by_load_ratio() {
    let strategy = StrategyKind::RatingPriority(RatingPriorityStrategy::new());
    let mut engine = DispatchEngine::new(strategy);
    let here = Location::new(39_904_200, 116_407_400);

    let mut loaded = Driver::new("半载".to_string(), VehicleType::Car, here);
    loaded.rating_tenths = 49;
    loaded.current_load = 2;
    let mut empty = Driver::new("空载".to_string(), VehicleType::Car, here);
    empty.rating_tenths = 49;

    engine.add_driver(loaded);
    engine.add_driver(empty);

    let mut order = Order::new(
        OrderType::RideHailing,
        Location::new(39_905_000, 116_408_000),
        Location::new(39_950_000, 116_450_000),
    );
    assert_eq!(engine.dispatch(&mut order).unwrap().driver_name, "空载");
}

#[test]
fn load_balanced_compares_ratios_across_capacities() {
    let strategy = StrategyKind::LoadBalanced(LoadBalancedStrategy::new());
    let mut engine = DispatchEngine::new(strategy);
    let here = Location::new(39_904_200, 116_407_400);

    // one of two seats taken beats two of ten seats taken only as a ratio:
    // 1/2 is above 2/10, so the truck must win
    let mut bike = Driver::new("半载车".to_string(), VehicleType::ElectricBike, here);
    bike.current_load = 1;
    let mut truck = Driver::new("轻载卡车".to_string(), VehicleType::Truck, here);
    truck.current_load = 2;

    engine.add_driver(bike);
    engine.add_driver(truck);

    let mut order = Order::new(
        OrderType::Food,
        Location::new(39_905_000, 116_408_000),
        Location::new(39_915_000, 116_418_000),
    );
    assert_eq!(engine.dispatch(&mut order).unwrap().driver_name, "轻载卡车");
}
