//! End-to-end dispatch flows through the engine, with coordinates in
//! microdegrees and distances in meters.

use dispatcher::{
    CapacityRule, DispatchEngine, DistanceRule, Driver, DriverStatus, Location,
    LoadBalancedStrategy, NearestFirstStrategy, Order, OrderType, RatingPriorityStrategy,
    RuleKind, StrategyKind, VehicleType,
};
use dispatcher::location::distance_m;

#[test]
fn test_nearest_first_strategy() {
    let strategy = StrategyKind::NearestFirst(NearestFirstStrategy::new());
    let mut engine = DispatchEngine::new(strategy);

    let driver1 = Driver::new(
        "近的司机".to_string(),
        VehicleType::ElectricBike,
        Location::new(39_904_200, 116_407_400),
    );
    let driver2 = Driver::new(
        "远的司机".to_string(),
        VehicleType::ElectricBike,
        Location::new(39_920_000, 116_430_000),
    );

    engine.add_driver(driver1);
    engine.add_driver(driver2);

    let mut order = Order::new(
        OrderType::Food,
        Location::new(39_905_000, 116_408_000),
        Location::new(39_915_000, 116_418_000),
    );

    let result = engine.dispatch(&mut order);
    assert!(result.is_ok());
    assert_eq!(result.unwrap().driver_name, "近的司机");
}

#[test]
fn test_load_balanced_strategy() {
    let strategy = StrategyKind::LoadBalanced(LoadBalancedStrategy::new());
    let mut engine = DispatchEngine::new(strategy);

    let mut driver1 = Driver::new(
        "空闲司机".to_string(),
        VehicleType::ElectricBike,
        Location::new(39_904_200, 116_407_400),
    );
    driver1.current_load = 0;

    let mut driver2 = Driver::new(
        "忙碌司机".to_string(),
        VehicleType::ElectricBike,
        Location::new(39_904_200, 116_407_400),
    );
    driver2.current_load = 2;

    engine.add_driver(driver1);
    engine.add_driver(driver2);

    let mut order = Order::new(
        OrderType::Food,
        Location::new(39_905_000, 116_408_000),
        Location::new(39_915_000, 116_418_000),
    );

    let result = engine.dispatch(&mut order);
    assert!(result.is_ok());
    assert_eq!(result.unwrap().driver_name, "空闲司机");
}

#[test]
fn test_rating_priority_strategy() {
    let strategy = StrategyKind::RatingPriority(RatingPriorityStrategy::new());
    let mut engine = DispatchEngine::new(strategy);

    let mut driver1 = Driver::new(
        "低分司机".to_string(),
        VehicleType::Car,
        Location::new(39_904_200, 116_407_400),
    );
    driver1.rating_tenths = 45;

    let mut driver2 = Driver::new(
        "高分司机".to_string(),
        VehicleType::Car,
        Location::new(39_904_200, 116_407_400),
    );
    driver2.rating_tenths = 49;

    engine.add_driver(driver1);
    engine.add_driver(driver2);

    let mut order = Order::new(
        OrderType::RideHailing,
        Location::new(39_905_000, 116_408_000),
        Location::new(39_950_000, 116_450_000),
    );

    let result = engine.dispatch(&mut order);
    assert!(result.is_ok());
    assert_eq!(result.unwrap().driver_name, "高分司机");
}

#[test]
fn test_distance_rule() {
    let strategy = StrategyKind::NearestFirst(NearestFirstStrategy::new());
    let mut engine = DispatchEngine::new(strategy).with_rules(vec![
        RuleKind::Capacity(CapacityRule),
        RuleKind::Distance(DistanceRule::new(1_000)),
    ]);

    let driver = Driver::new(
        "司机".to_string(),
        VehicleType::ElectricBike,
        Location::new(39_904_200, 116_407_400),
    );
    engine.add_driver(driver);

    let mut order = Order::new(
        OrderType::Food,
        Location::new(39_920_000, 116_430_000),
        Location::new(39_925_000, 116_435_000),
    );

    let result = engine.dispatch(&mut order);
    assert!(result.is_err());
}

#[test]
fn test_vehicle_type_rule() {
    let strategy = StrategyKind::NearestFirst(NearestFirstStrategy::new());
    let mut engine = DispatchEngine::new(strategy);

    let driver = Driver::new(
        "骑手".to_string(),
        VehicleType::ElectricBike,
        Location::new(39_904_200, 116_407_400),
    );
    engine.add_driver(driver);

    let mut order = Order::new(
        OrderType::Express,
        Location::new(39_905_000, 116_408_000),
        Location::new(39_915_000, 116_418_000),
    );

    let result = engine.dispatch(&mut order);
    assert!(result.is_err());
}

#[test]
fn test_capacity_exceeded() {
    let strategy = StrategyKind::NearestFirst(NearestFirstStrategy::new());
    let mut engine = DispatchEngine::new(strategy);

    let mut driver = Driver::new(
        "司机".to_string(),
        VehicleType::ElectricBike,
        Location::new(39_904_200, 116_407_400),
    );
    driver.capacity = 1;
    driver.current_load = 1;
    driver.status = DriverStatus::Busy;

    engine.add_driver(driver);

    let mut order = Order::new(
        OrderType::Food,
        Location::new(39_905_000, 116_408_000),
        Location::new(39_915_000, 116_418_000),
    );

    let result = engine.dispatch(&mut order);
    assert!(result.is_err());
}

#[test]
fn test_distance_calculation() {
    let loc1 = Location::new(39_904_200, 116_407_400);
    let loc2 = Location::new(40_079_800, 116_603_100);

    let distance = distance_m(loc1, loc2);
    assert!(distance > 20_000 && distance < 30_000);
}

#[test]
fn test_order_price_calculation() {
    let order = Order::new(
        OrderType::Food,
        Location::new(39_904_200, 116_407_400),
        Location::new(39_915_000, 116_418_000),
    );

    assert!(order.price > 0);
    assert!(order.estimated_duration_minutes > 0);
}

#[test]
fn test_driver_release() {
    let strategy = StrategyKind::NearestFirst(NearestFirstStrategy::new());
    let mut engine = DispatchEngine::new(strategy);

    let driver = Driver::new(
        "司机".to_string(),
        VehicleType::ElectricBike,
        Location::new(39_904_200, 116_407_400),
    );
    let driver_id = driver.id;
    engine.add_driver(driver);

    let mut order = Order::new(
        OrderType::Food,
        Location::new(39_905_000, 116_408_000),
        Location::new(39_915_000, 116_418_000),
    );
    engine.dispatch(&mut order).unwrap();

    let driver_stats = engine.get_driver_stats(driver_id).unwrap();
    assert_eq!(driver_stats.current_load, 1);

    engine.release_order(driver_id).unwrap();
    let driver_stats = engine.get_driver_stats(driver_id).unwrap();
    assert_eq!(driver_stats.current_load, 0);
}

#[test]
fn test_update_driver_location() {
    let strategy = StrategyKind::NearestFirst(NearestFirstStrategy::new());
    let mut engine = DispatchEngine::new(strategy);

    let driver = Driver::new(
        "司机".to_string(),
        VehicleType::Car,
        Location::new(39_904_200, 116_407_400),
    );
    let driver_id = driver.id;
    engine.add_driver(driver);

    let new_location = Location::new(39_910_000, 116_410_000);
    engine.update_driver_location(driver_id, new_location).unwrap();

    let driver_stats = engine.get_driver_stats(driver_id).unwrap();
    assert_eq!(driver_stats.current_location.latitude, 39_910_000);
    assert_eq!(driver_stats.current_location.longitude, 116_410_000);
}
