//! Orders.
//!
//! An order is created with a category, a pickup and a delivery location;
//! its distance, estimated duration and price are derived once at
//! construction and never recomputed. Prices are in whole currency units,
//! computed from fares in hundredths (fen) and rounded to the nearest
//! unit; durations are in minutes with a five-minute floor.

use vstd::prelude::*;
use crate::fresh::{fresh_id, now_timestamp};
use crate::location::{distance_m, distance_m_spec, Location};

verus! {

#[derive(Clone, Copy, Debug, PartialEq, Eq, Structural)]
pub enum OrderType {
    Food,
    Express,
    FreshFood,
    RideHailing,
    Cargo,
}

/// The display label of each order category.
pub open spec fn order_display_spec(t: OrderType) -> Seq<char> {
    match t {
        OrderType::Food => "外卖订单"@,
        OrderType::Express => "快递订单"@,
        OrderType::FreshFood => "生鲜订单"@,
        OrderType::RideHailing => "打车订单"@,
        OrderType::Cargo => "货运订单"@,
    }
}

/// Whether a category needs a vehicle that can carry large items.
pub open spec fn requires_large_spec(t: OrderType) -> bool {
    match t {
        OrderType::Express | OrderType::Cargo => true,
        _ => false,
    }
}

/// Whether a category is time-sensitive (and so subject to rating rules).
pub open spec fn time_sensitive_spec(t: OrderType) -> bool {
    match t {
        OrderType::Food | OrderType::FreshFood | OrderType::RideHailing => true,
        _ => false,
    }
}

/// The assumed travel speed of each category, in km/h.
pub open spec fn speed_kmh_spec(t: OrderType) -> int {
    match t {
        OrderType::Food | OrderType::FreshFood => 20,
        OrderType::Express => 30,
        OrderType::RideHailing => 40,
        OrderType::Cargo => 35,
    }
}

/// The base fare of each category, in fen (hundredths of a unit).
pub open spec fn base_fen_spec(t: OrderType) -> int {
    match t {
        OrderType::Food => 500,
        OrderType::Express => 800,
        OrderType::FreshFood => 600,
        OrderType::RideHailing => 1000,
        OrderType::Cargo => 1500,
    }
}

/// The per-kilometer fare of each category, in fen.
pub open spec fn per_km_fen_spec(t: OrderType) -> int {
    match t {
        OrderType::Food => 200,
        OrderType::Express => 300,
        OrderType::FreshFood => 250,
        OrderType::RideHailing => 280,
        OrderType::Cargo => 500,
    }
}

/// Estimated duration in minutes: distance over the category speed,
/// truncated, floored at five minutes.
pub open spec fn duration_spec(distance_m: int, t: OrderType) -> int {
    let minutes = distance_m * 60 / (speed_kmh_spec(t) * 1000);
    if minutes < 5 {
        5
    } else {
        minutes
    }
}

/// Price in whole currency units: base fare plus distance times the
/// per-kilometer fare, rounded to the nearest unit.
pub open spec fn price_spec(distance_m: int, t: OrderType) -> int {
    let fen = base_fen_spec(t) + distance_m * per_km_fen_spec(t) / 1000;
    (fen + 50) / 100
}

impl OrderType {
    pub fn display_name(&self) -> (r: &'static str)
        ensures
            r@ == order_display_spec(*self),
    {
        match self {
            OrderType::Food => "外卖订单",
            OrderType::Express => "快递订单",
            OrderType::FreshFood => "生鲜订单",
            OrderType::RideHailing => "打车订单",
            OrderType::Cargo => "货运订单",
        }
    }

    pub fn requires_large_vehicle(&self) -> (r: bool)
        ensures
            r == requires_large_spec(*self),
    {
        match self {
            OrderType::Express | OrderType::Cargo => true,
            _ => false,
        }
    }

    pub fn is_time_sensitive(&self) -> (r: bool)
        ensures
            r == time_sensitive_spec(*self),
    {
        match self {
            OrderType::Food | OrderType::FreshFood | OrderType::RideHailing => true,
            _ => false,
        }
    }
}

#[derive(Clone, Copy, Debug, PartialEq, Eq, Structural)]
pub enum OrderStatus {
    Pending,
    Dispatched,
    PickedUp,
    InTransit,
    Delivered,
    Cancelled,
}

/// An order record. Distance, duration and price are fixed at creation;
/// only the status and the assigned driver change afterwards.
#[derive(Debug)]
pub struct Order {
    pub id: u128,
    pub order_type: OrderType,
    pub status: OrderStatus,
    pub pickup_location: Location,
    pub delivery_location: Location,
    pub distance_m: u64,
    pub estimated_duration_minutes: u32,
    pub price: u64,
    pub created_at: i64,
    pub assigned_to: Option<u128>,
    pub metadata: Vec<(String, String)>,
}

impl Order {
    /// A new pending order. Distance, duration and price are derived here,
    /// once. The identifier and the creation timestamp are drawn from
    /// outside, so nothing is promised of them.
    pub fn new(order_type: OrderType, pickup_location: Location, delivery_location: Location) -> (
        r: Self)
        ensures
            r.order_type == order_type,
            r.status == OrderStatus::Pending,
            r.pickup_location == pickup_location,
            r.delivery_location == delivery_location,
            r.distance_m == distance_m_spec(pickup_location, delivery_location),
            r.estimated_duration_minutes == duration_spec(r.distance_m as int, order_type),
            r.price == price_spec(r.distance_m as int, order_type),
            r.assigned_to is None,
            r.metadata@ == Seq::<(String, String)>::empty(),
    {
        let dist: u64 = distance_m(pickup_location, delivery_location);
        let estimated_duration_minutes = Self::estimate_duration(dist, &order_type);
        let price = Self::calculate_price(dist, &order_type);
        Self {
            id: fresh_id(),
            order_type,
            status: OrderStatus::Pending,
            pickup_location,
            delivery_location,
            distance_m: dist,
            estimated_duration_minutes,
            price,
            created_at: now_timestamp(),
            assigned_to: None,
            metadata: Vec::new(),
        }
    }

    /// Estimated minutes to deliver over a given distance.
    fn estimate_duration(distance_m: u64, order_type: &OrderType) -> (r: u32)
        requires
            distance_m <= 20_015_087,
        ensures
            r == duration_spec(distance_m as int, *order_type),
    {
        let base_speed: u64 = match order_type {
            OrderType::Food | OrderType::FreshFood => 20,
            OrderType::Express => 30,
            OrderType::RideHailing => 40,
            OrderType::Cargo => 35,
        };
        let minutes: u64 = distance_m * 60 / (base_speed * 1000);
        if minutes < 5 {
            5
        } else {
            minutes as u32
        }
    }

    /// Price of an order over a given distance, in whole currency units.
    fn calculate_price(distance_m: u64, order_type: &OrderType) -> (r: u64)
        requires
            distance_m <= 20_015_087,
        ensures
            r == price_spec(distance_m as int, *order_type),
    {
        let base_fen: u64 = match order_type {
            OrderType::Food => 500,
            OrderType::Express => 800,
            OrderType::FreshFood => 600,
            OrderType::RideHailing => 1000,
            OrderType::Cargo => 1500,
        };
        let per_km_fen: u64 = match order_type {
            OrderType::Food => 200,
            OrderType::Express => 300,
            OrderType::FreshFood => 250,
            OrderType::RideHailing => 280,
            OrderType::Cargo => 500,
        };
        let fen: u64 = base_fen + distance_m * per_km_fen / 1000;
        (fen + 50) / 100
    }

    /// The same order with one more metadata pair appended.
    pub fn with_metadata(self, key: String, value: String) -> (r: Self)
        ensures
            r.id == self.id,
            r.order_type == self.order_type,
            r.status == self.status,
            r.pickup_location == self.pickup_location,
            r.delivery_location == self.delivery_location,
            r.distance_m == self.distance_m,
            r.estimated_duration_minutes == self.estimated_duration_minutes,
            r.price == self.price,
            r.created_at == self.created_at,
            r.assigned_to == self.assigned_to,
            r.metadata@ == self.metadata@.push((key, value)),
    {
        let mut updated = self;
        updated.metadata.push((key, value));
        updated
    }
}

} // verus!
