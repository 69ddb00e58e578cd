//! Drivers and the driver registry.
//!
//! A `Driver` carries a vehicle class with a fixed capacity, a current
//! load, a status, a position and a rating (stored in tenths, so `50`
//! means five stars). The `DriverPool` maps driver identifiers to driver
//! records, with unique identifiers as its invariant.

use vstd::prelude::*;
use crate::fresh::fresh_id;
use crate::location::{distance_m, distance_m_spec, Location};

verus! {

#[derive(Clone, Copy, Debug, PartialEq, Eq, Structural)]
pub enum DriverStatus {
    Idle,
    Busy,
    Offline,
}

#[derive(Clone, Copy, Debug, PartialEq, Eq, Structural)]
pub enum VehicleType {
    ElectricBike,
    Motorcycle,
    Car,
    Van,
    Truck,
}

/// The fixed passenger/parcel capacity of each vehicle class.
pub open spec fn vehicle_capacity_spec(v: VehicleType) -> int {
    match v {
        VehicleType::ElectricBike => 2,
        VehicleType::Motorcycle => 3,
        VehicleType::Car => 4,
        VehicleType::Van => 6,
        VehicleType::Truck => 10,
    }
}

/// Whether a vehicle class can carry large items.
pub open spec fn vehicle_large_spec(v: VehicleType) -> bool {
    match v {
        VehicleType::Car | VehicleType::Van | VehicleType::Truck => true,
        _ => false,
    }
}

/// The display label of each vehicle class.
pub open spec fn vehicle_display_spec(v: VehicleType) -> Seq<char> {
    match v {
        VehicleType::ElectricBike => "电动车"@,
        VehicleType::Motorcycle => "摩托车"@,
        VehicleType::Car => "汽车"@,
        VehicleType::Van => "面包车"@,
        VehicleType::Truck => "卡车"@,
    }
}

impl VehicleType {
    pub fn display_name(&self) -> (r: &'static str)
        ensures
            r@ == vehicle_display_spec(*self),
    {
        match self {
            VehicleType::ElectricBike => "电动车",
            VehicleType::Motorcycle => "摩托车",
            VehicleType::Car => "汽车",
            VehicleType::Van => "面包车",
            VehicleType::Truck => "卡车",
        }
    }

    pub fn capacity(&self) -> (r: usize)
        ensures
            r == vehicle_capacity_spec(*self),
    {
        match self {
            VehicleType::ElectricBike => 2,
            VehicleType::Motorcycle => 3,
            VehicleType::Car => 4,
            VehicleType::Van => 6,
            VehicleType::Truck => 10,
        }
    }

    pub fn can_carry_large_items(&self) -> (r: bool)
        ensures
            r == vehicle_large_spec(*self),
    {
        match self {
            VehicleType::Car | VehicleType::Van | VehicleType::Truck => true,
            _ => false,
        }
    }
}

/// A driver record. The rating is stored in tenths of a star (`50` is the
/// five-star default); all other counters are plain integers.
#[derive(Debug)]
pub struct Driver {
    pub id: u128,
    pub name: String,
    pub status: DriverStatus,
    pub vehicle_type: VehicleType,
    pub current_location: Location,
    pub capacity: usize,
    pub current_load: usize,
    pub rating_tenths: u32,
    pub total_orders: u32,
    pub metadata: Vec<(String, String)>,
}

/// A driver can take another order: not offline, and below capacity.
pub open spec fn driver_available(d: Driver) -> bool {
    d.status != DriverStatus::Offline && d.current_load < d.capacity
}

/// The load ratio of `a` (current load over capacity, taken as 1 when the
/// capacity is zero) is at most the load ratio of `b`, compared exactly by
/// cross-multiplication.
pub open spec fn ratio_le(a: Driver, b: Driver) -> bool {
    if a.capacity == 0 && b.capacity == 0 {
        true
    } else if a.capacity == 0 {
        b.current_load >= b.capacity
    } else if b.capacity == 0 {
        a.current_load <= a.capacity
    } else {
        a.current_load * b.capacity <= b.current_load * a.capacity
    }
}

/// Two driver records with the same contents (field by field; metadata by
/// its sequence of pairs). Copies made by the registry satisfy this.
pub open spec fn same_driver(a: Driver, b: Driver) -> bool {
    &&& a.id == b.id
    &&& a.name == b.name
    &&& a.status == b.status
    &&& a.vehicle_type == b.vehicle_type
    &&& a.current_location == b.current_location
    &&& a.capacity == b.capacity
    &&& a.current_load == b.current_load
    &&& a.rating_tenths == b.rating_tenths
    &&& a.total_orders == b.total_orders
    &&& a.metadata@ == b.metadata@
}

/// The load-ratio order is total: of any two drivers, one ratio is at
/// most the other.
pub proof fn lemma_ratio_total(a: Driver, b: Driver)
    ensures
        ratio_le(a, b) || ratio_le(b, a),
{
}

/// The load-ratio order is transitive.
pub proof fn lemma_ratio_trans(a: Driver, b: Driver, c: Driver)
    requires
        ratio_le(a, b),
        ratio_le(b, c),
    ensures
        ratio_le(a, c),
{
    let la = a.current_load as int;
    let ca = a.capacity as int;
    let lb = b.current_load as int;
    let cb = b.capacity as int;
    let lc = c.current_load as int;
    let cc = c.capacity as int;
    if ca == 0 && cc == 0 {
    } else if ca == 0 {
        if cb > 0 {
            assert(lc >= cc) by (nonlinear_arith)
                requires
                    lb >= cb,
                    lb * cc <= lc * cb,
                    cb > 0,
                    cc > 0,
                    lc >= 0,
            ;
        }
    } else if cc == 0 {
        if cb > 0 {
            assert(la <= ca) by (nonlinear_arith)
                requires
                    la * cb <= lb * ca,
                    lb <= cb,
                    ca > 0,
                    cb > 0,
                    la >= 0,
            ;
        }
    } else {
        if cb == 0 {
            assert(la * cc <= lc * ca) by (nonlinear_arith)
                requires
                    la <= ca,
                    lc >= cc,
                    cc > 0,
                    ca > 0,
                    la >= 0,
                    lc >= 0,
            ;
        } else {
            assert(la * cc <= lc * ca) by (nonlinear_arith)
                requires
                    la * cb <= lb * ca,
                    lb * cc <= lc * cb,
                    ca > 0,
                    cb > 0,
                    cc > 0,
                    la >= 0,
                    lb >= 0,
                    lc >= 0,
            ;
        }
    }
}

/// The record after a successful assignment: load and order count go up by
/// one (the count saturates), and the driver turns busy on reaching
/// capacity.
pub open spec fn driver_after_assign(d: Driver) -> Driver {
    Driver {
        current_load: (d.current_load + 1) as usize,
        total_orders: if d.total_orders < u32::MAX {
            (d.total_orders + 1) as u32
        } else {
            d.total_orders
        },
        status: if d.current_load + 1 >= d.capacity {
            DriverStatus::Busy
        } else {
            d.status
        },
        ..d
    }
}

/// The record after a release: the load goes down by one if it was
/// positive (never below zero), and a driver below capacity who is not
/// offline returns to idle.
pub open spec fn driver_after_release(d: Driver) -> Driver {
    if d.current_load > 0 {
        Driver {
            current_load: (d.current_load - 1) as usize,
            status: if d.current_load - 1 < d.capacity && d.status != DriverStatus::Offline {
                DriverStatus::Idle
            } else {
                d.status
            },
            ..d
        }
    } else {
        d
    }
}

impl Driver {
    /// A new idle driver with an empty load, the capacity of its vehicle
    /// class, and the default five-star rating. The identifier is freshly
    /// drawn, so nothing is promised of it.
    pub fn new(name: String, vehicle_type: VehicleType, current_location: Location) -> (r: Self)
        ensures
            r.name == name,
            r.status == DriverStatus::Idle,
            r.vehicle_type == vehicle_type,
            r.current_location == current_location,
            r.capacity == vehicle_capacity_spec(vehicle_type),
            r.current_load == 0,
            r.rating_tenths == 50,
            r.total_orders == 0,
            r.metadata@ == Seq::<(String, String)>::empty(),
    {
        let capacity = vehicle_type.capacity();
        Self {
            id: fresh_id(),
            name,
            status: DriverStatus::Idle,
            vehicle_type,
            current_location,
            capacity,
            current_load: 0,
            rating_tenths: 50,
            total_orders: 0,
            metadata: Vec::new(),
        }
    }

    pub fn is_available(&self) -> (r: bool)
        ensures
            r == driver_available(*self),
    {
        self.status != DriverStatus::Offline && self.current_load < self.capacity
    }

    /// Whether this driver's load ratio is at most `other`'s, compared
    /// exactly (no floating point): `a/b <= c/d` iff `a*d <= c*b`.
    pub fn load_ratio_le(&self, other: &Driver) -> (r: bool)
        ensures
            r == ratio_le(*self, *other),
    {
        if self.capacity == 0 && other.capacity == 0 {
            true
        } else if self.capacity == 0 {
            other.current_load >= other.capacity
        } else if other.capacity == 0 {
            self.current_load <= self.capacity
        } else {
            proof {
                assert((self.current_load as u128) * (other.capacity as u128) < 0x1_0000_0000_0000_0000 * 0x1_0000_0000_0000_0000) by (nonlinear_arith)
                    requires
                        0 <= self.current_load < 0x1_0000_0000_0000_0000,
                        0 <= other.capacity < 0x1_0000_0000_0000_0000,
                ;
                assert((other.current_load as u128) * (self.capacity as u128) < 0x1_0000_0000_0000_0000 * 0x1_0000_0000_0000_0000) by (nonlinear_arith)
                    requires
                        0 <= other.current_load < 0x1_0000_0000_0000_0000,
                        0 <= self.capacity < 0x1_0000_0000_0000_0000,
                ;
            }
            (self.current_load as u128) * (other.capacity as u128) <= (other.current_load as u128)
                * (self.capacity as u128)
        }
    }

    /// Takes one more order if the driver is available; returns whether the
    /// assignment was committed. On failure nothing changes.
    pub fn assign_order(&mut self) -> (r: bool)
        ensures
            r == driver_available(*old(self)),
            r ==> *final(self) == driver_after_assign(*old(self)),
            !r ==> *final(self) == *old(self),
    {
        if self.is_available() {
            self.current_load = self.current_load + 1;
            if self.total_orders < u32::MAX {
                self.total_orders = self.total_orders + 1;
            }
            if self.current_load >= self.capacity {
                self.status = DriverStatus::Busy;
            }
            true
        } else {
            false
        }
    }

    /// Gives one order back. At load zero this is a no-op: the load never
    /// goes below zero.
    pub fn release_order(&mut self)
        ensures
            *final(self) == driver_after_release(*old(self)),
            old(self).current_load == 0 ==> final(self).current_load == 0,
    {
        if self.current_load > 0 {
            self.current_load = self.current_load - 1;
            if self.current_load < self.capacity && self.status != DriverStatus::Offline {
                self.status = DriverStatus::Idle;
            }
        }
    }

    /// Great-circle distance in meters from this driver to `location`.
    pub fn distance_to(&self, location: Location) -> (r: u64)
        ensures
            r == distance_m_spec(self.current_location, location),
            r <= 20_015_087,
    {
        distance_m(self.current_location, location)
    }
}

/// Copies a metadata list pair by pair.
fn clone_pairs(v: &Vec<(String, String)>) -> (r: Vec<(String, String)>)
    ensures
        r@ == v@,
{
    let mut out: Vec<(String, String)> = Vec::new();
    let mut i: usize = 0;
    while i < v.len()
        invariant
            i <= v.len(),
            out@ =~= v@.subrange(0, i as int),
        decreases v.len() - i,
    {
        let p = &v[i];
        out.push((p.0.clone(), p.1.clone()));
        proof {
            assert(v@.subrange(0, (i + 1) as int) =~= v@.subrange(0, i as int).push(v@[i as int]));
        }
        i = i + 1;
    }
    proof {
        assert(v@.subrange(0, v@.len() as int) =~= v@);
    }
    out
}

/// Copies a driver record field by field.
pub(crate) fn copy_driver(d: &Driver) -> (r: Driver)
    ensures
        same_driver(r, *d),
{
    Driver {
        id: d.id,
        name: d.name.clone(),
        status: d.status,
        vehicle_type: d.vehicle_type,
        current_location: d.current_location,
        capacity: d.capacity,
        current_load: d.current_load,
        rating_tenths: d.rating_tenths,
        total_orders: d.total_orders,
        metadata: clone_pairs(&d.metadata),
    }
}

/// All identifiers in the registry are distinct.
pub open spec fn pool_wf(s: Seq<Driver>) -> bool {
    forall|i: int, j: int| 0 <= i < j < s.len() ==> s[i].id != s[j].id
}

/// Some entry carries the given identifier.
pub open spec fn has_id(s: Seq<Driver>, id: u128) -> bool {
    exists|i: int| 0 <= i < s.len() && #[trigger] s[i].id == id
}

/// The index of the entry with the given identifier (unique under
/// `pool_wf`).
pub open spec fn idx_of(s: Seq<Driver>, id: u128) -> int {
    choose|i: int| 0 <= i < s.len() && #[trigger] s[i].id == id
}

/// Under `pool_wf`, the entry holding an identifier is unique, and
/// `idx_of` finds exactly it.
pub proof fn lemma_idx_of(s: Seq<Driver>, id: u128, i: int)
    requires
        pool_wf(s),
        0 <= i < s.len(),
        s[i].id == id,
    ensures
        has_id(s, id),
        idx_of(s, id) == i,
{
    assert(has_id(s, id)) by {
        assert(0 <= i < s.len() && s[i].id == id);
    }
    let j = choose|j: int| 0 <= j < s.len() && #[trigger] s[j].id == id;
    if j < i {
        assert(s[j].id != s[i].id);
    }
    if i < j {
        assert(s[i].id != s[j].id);
    }
}

/// Some entry of `s` equals the given record.
pub open spec fn contains_driver(s: Seq<Driver>, d: Driver) -> bool {
    exists|j: int| 0 <= j < s.len() && #[trigger] s[j] == d
}

/// Some reference in `s` points at the given record.
pub open spec fn contains_ref(s: Seq<&Driver>, d: Driver) -> bool {
    exists|i: int| 0 <= i < s.len() && *#[trigger] s[i] == d
}

/// The driver registry: the sole owner of all driver records, keyed by the
/// drivers' unique identifiers.
#[derive(Debug)]
pub struct DriverPool {
    drivers: Vec<Driver>,
}

impl View for DriverPool {
    type V = Seq<Driver>;

    closed spec fn view(&self) -> Seq<Driver> {
        self.drivers@
    }
}

impl DriverPool {
    pub fn new() -> (r: Self)
        ensures
            r@.len() == 0,
            pool_wf(r@),
    {
        Self { drivers: Vec::new() }
    }

    /// The index of the entry with the given identifier, if any.
    pub(crate) fn find_index(&self, driver_id: u128) -> (r: Option<usize>)
        ensures
            match r {
                Some(i) => i < self@.len() && self@[i as int].id == driver_id,
                None => !has_id(self@, driver_id),
            },
    {
        let mut i: usize = 0;
        while i < self.drivers.len()
            invariant
                i <= self.drivers@.len(),
                forall|k: int| 0 <= k < i ==> #[trigger] self.drivers@[k].id != driver_id,
            decreases self.drivers@.len() - i,
        {
            if self.drivers[i].id == driver_id {
                return Some(i);
            }
            i = i + 1;
        }
        None
    }

    /// Inserts a driver, overwriting any entry with the same identifier.
    pub fn add_driver(&mut self, driver: Driver)
        requires
            pool_wf(old(self)@),
        ensures
            pool_wf(final(self)@),
            has_id(final(self)@, driver.id),
            if has_id(old(self)@, driver.id) {
                final(self)@ == old(self)@.update(idx_of(old(self)@, driver.id), driver)
            } else {
                final(self)@ == old(self)@.push(driver)
            },
    {
        let found = self.find_index(driver.id);
        match found {
            Some(i) => {
                proof {
                    lemma_idx_of(self@, driver.id, i as int);
                }
                self.drivers.set(i, driver);
                proof {
                    lemma_idx_of(self@, driver.id, i as int);
                }
            },
            None => {
                self.drivers.push(driver);
                proof {
                    lemma_idx_of(self@, driver.id, self@.len() - 1);
                }
            },
        }
    }

    /// Removes and returns the entry with the given identifier, if any.
    pub fn remove_driver(&mut self, driver_id: u128) -> (r: Option<Driver>)
        requires
            pool_wf(old(self)@),
        ensures
            pool_wf(final(self)@),
            !has_id(final(self)@, driver_id),
            if has_id(old(self)@, driver_id) {
                &&& r == Some(old(self)@[idx_of(old(self)@, driver_id)])
                &&& final(self)@ == old(self)@.remove(idx_of(old(self)@, driver_id))
            } else {
                r is None && final(self)@ == old(self)@
            },
    {
        let found = self.find_index(driver_id);
        match found {
            Some(i) => {
                proof {
                    lemma_idx_of(self@, driver_id, i as int);
                }
                let d = self.drivers.remove(i);
                proof {
                    assert forall|p: int, q: int|
                        0 <= p < q < self@.len() implies self@[p].id != self@[q].id by {
                        if q < i as int {
                            assert(old(self)@[p].id != old(self)@[q].id);
                        } else if p < i as int {
                            assert(old(self)@[p].id != old(self)@[q + 1].id);
                        } else {
                            assert(old(self)@[p + 1].id != old(self)@[q + 1].id);
                        }
                    }
                    assert forall|k: int| 0 <= k < self@.len() implies #[trigger] self@[k].id
                        != driver_id by {
                        if k < i as int {
                            assert(old(self)@[k].id != old(self)@[i as int].id);
                        } else {
                            assert(old(self)@[k + 1].id != old(self)@[i as int].id);
                        }
                    }
                }
                Some(d)
            },
            None => None,
        }
    }

    /// A reference to the entry with the given identifier, if any.
    pub fn get_driver(&self, driver_id: u128) -> (r: Option<&Driver>)
        requires
            pool_wf(self@),
        ensures
            match r {
                Some(d) => has_id(self@, driver_id) && *d == self@[idx_of(self@, driver_id)],
                None => !has_id(self@, driver_id),
            },
    {
        let found = self.find_index(driver_id);
        match found {
            Some(i) => {
                proof {
                    lemma_idx_of(self@, driver_id, i as int);
                }
                Some(&self.drivers[i])
            },
            None => None,
        }
    }

    /// A mutable reference to the entry at a known index.
    pub fn get_driver_mut(&mut self, index: usize) -> (r: &mut Driver)
        requires
            index < old(self)@.len(),
        ensures
            *r == old(self)@[index as int],
            final(self)@ == old(self)@.update(index as int, *final(r)),
    {
        &mut self.drivers[index]
    }

    /// References to all entries, in registry order.
    pub fn get_all_drivers(&self) -> (r: Vec<&Driver>)
        ensures
            r@.len() == self@.len(),
            forall|i: int| 0 <= i < r@.len() ==> *#[trigger] r@[i] == self@[i],
    {
        let mut out: Vec<&Driver> = Vec::new();
        let mut i: usize = 0;
        while i < self.drivers.len()
            invariant
                i <= self.drivers@.len(),
                out@.len() == i,
                forall|k: int| 0 <= k < i ==> *#[trigger] out@[k] == self.drivers@[k],
            decreases self.drivers@.len() - i,
        {
            out.push(&self.drivers[i]);
            i = i + 1;
        }
        out
    }

    /// References to every available entry: each result is available and
    /// comes from the registry, and every available entry appears.
    pub fn get_available_drivers(&self) -> (r: Vec<&Driver>)
        ensures
            forall|i: int|
                0 <= i < r@.len() ==> driver_available(*#[trigger] r@[i]) && contains_driver(
                    self@,
                    *r@[i],
                ),
            forall|j: int|
                0 <= j < self@.len() && driver_available(#[trigger] self@[j]) ==> contains_ref(
                    r@,
                    self@[j],
                ),
    {
        let mut out: Vec<&Driver> = Vec::new();
        let mut i: usize = 0;
        while i < self.drivers.len()
            invariant
                i <= self.drivers@.len(),
                forall|k: int|
                    0 <= k < out@.len() ==> driver_available(*#[trigger] out@[k])
                        && contains_driver(self.drivers@, *out@[k]),
                forall|j: int|
                    0 <= j < i && driver_available(#[trigger] self.drivers@[j]) ==> contains_ref(
                        out@,
                        self.drivers@[j],
                    ),
            decreases self.drivers@.len() - i,
        {
            let d = &self.drivers[i];
            if d.is_available() {
                let ghost old_out = out@;
                out.push(d);
                proof {
                    assert(contains_driver(self.drivers@, *d)) by {
                        assert(self.drivers@[i as int] == *d);
                    }
                    assert forall|j: int|
                        0 <= j < i + 1 && driver_available(
                            #[trigger] self.drivers@[j],
                        ) implies contains_ref(out@, self.drivers@[j]) by {
                        if j < i {
                            let w = choose|w: int|
                                0 <= w < old_out.len() && *#[trigger] old_out[w]
                                    == self.drivers@[j];
                            assert(*out@[w] == self.drivers@[j]);
                        } else {
                            assert(*out@[out@.len() - 1] == self.drivers@[j]);
                        }
                    }
                }
            }
            i = i + 1;
        }
        out
    }
}

impl Default for DriverPool {
    fn default() -> (r: Self)
        ensures
            r@.len() == 0,
            pool_wf(r@),
    {
        Self::new()
    }
}

} // verus!
