//! Energy model: operating points of performance domains, their cost, power and
//! temperature, and the machine-wide model that maps CPUs to domains.
use vstd::prelude::*;
use super::cpumask::{CpuMask, MAX_CPUS, all_cpus};
use super::task::SpinLock;

verus! {

/// Operating points per domain.
pub const MAX_OPP_COUNT: usize = 16;

/// Domains per model.
pub const MAX_PD_COUNT: usize = 8;

/// Highest power a domain reports, in milliwatts.
pub const EM_MAX_POWER: u32 = 100_000_000;

/// Lowest meaningful power, in milliwatts.
pub const EM_MIN_POWER: u32 = 100;

/// Frequency scale.
pub const EM_FREQ_SCALE: u64 = 1_000_000;

/// Power scale.
pub const EM_POWER_SCALE: u64 = 1_000;

/// Capacity of the fastest CPU.
pub const EM_CAPACITY_SCALE: u64 = 1024;

/// Domain index of a CPU that belongs to no domain.
pub const NO_DOMAIN: u32 = 0xffff_ffff;

/// One operating point: frequency, power and capacity.
#[derive(Debug, Clone, Copy, PartialEq, Eq, Structural)]
pub struct CapacityState {
    pub frequency: u32,
    pub power: u32,
    pub cost: u32,
    pub performance: u32,
    pub capacity: u32,
    pub voltage: u32,
    pub transition_latency_ns: u32,
    pub flags: u32,
}

/// An operating point with every field zero.
pub open spec fn empty_state() -> CapacityState {
    CapacityState {
        frequency: 0,
        power: 0,
        cost: 0,
        performance: 0,
        capacity: 0,
        voltage: 0,
        transition_latency_ns: 0,
        flags: 0,
    }
}

/// Cost of running at a point of capacity `cap` and power `power` in a domain whose
/// best capacity is `max_cap`: the power weighted by how far the point is below the
/// best, saturated to 32 bits; a point without capacity costs the most.
pub open spec fn state_cost(power: u32, cap: u32, max_cap: u32) -> u32 {
    if cap == 0 {
        u32::MAX
    } else {
        let c = power * (max_cap - cap + 1) / 1024;
        if c > u32::MAX {
            u32::MAX
        } else {
            c as u32
        }
    }
}

impl CapacityState {
    /// A point with every field zero.
    pub fn empty() -> (r: Self)
        ensures
            r == empty_state(),
    {
        CapacityState {
            frequency: 0,
            power: 0,
            cost: 0,
            performance: 0,
            capacity: 0,
            voltage: 0,
            transition_latency_ns: 0,
            flags: 0,
        }
    }

    /// A point whose performance equals its capacity; no cost yet.
    pub fn new(freq: u32, power: u32, cap: u32, volt: u32, lat: u32) -> (r: Self)
        ensures
            r == (CapacityState {
                frequency: freq,
                power: power,
                cost: 0,
                performance: cap,
                capacity: cap,
                voltage: volt,
                transition_latency_ns: lat,
                flags: 0,
            }),
    {
        CapacityState {
            frequency: freq,
            power: power,
            cost: 0,
            performance: cap,
            capacity: cap,
            voltage: volt,
            transition_latency_ns: lat,
            flags: 0,
        }
    }

    /// Set the cost against the domain's best capacity `max_cap`.
    pub fn compute_cost(&mut self, max_cap: u32)
        requires
            old(self).capacity <= max_cap,
        ensures
            *final(self) == (CapacityState {
                cost: state_cost(old(self).power, old(self).capacity, max_cap),
                ..*old(self)
            }),
    {
        if self.capacity == 0 {
            self.cost = u32::MAX;
            return;
        }
        let inverted_cap = max_cap - self.capacity;
        proof {
            vstd::arithmetic::mul::lemma_mul_upper_bound(
                self.power as int,
                u32::MAX as int,
                inverted_cap as int + 1,
                0x1_0000_0000,
            );
        }
        let power_cost = (self.power as u64 * (inverted_cap as u64 + 1)) / EM_CAPACITY_SCALE;
        self.cost = if power_cost > 0xffff_ffff { u32::MAX } else { power_cost as u32 };
    }

    /// The point has a frequency, a capacity and a power.
    pub fn is_valid(&self) -> (r: bool)
        ensures
            r == (self.frequency > 0 && self.capacity > 0 && self.power > 0),
    {
        self.frequency > 0 && self.capacity > 0 && self.power > 0
    }
}

/// A group of CPUs that change frequency together, with its operating points and
/// thermal state.
pub struct PerformanceDomain {
    pub states: Vec<CapacityState>,
    pub nr_states: u32,
    pub cpus: CpuMask,
    pub td_lock: SpinLock,
    pub max_capacity: u32,
    pub min_capacity: u32,
    pub flags: u32,
    pub id: u32,
    pub thermal_pressure: u32,
    pub effective_capacity: u32,
    pub active_state_idx: u32,
    pub power_multiplier: u32,
    pub leakage_coefficient: u32,
    pub dynamic_coefficient: u32,
    pub thermal_resistance: u32,
    pub thermal_capacitance: u32,
    pub ambient_temp_celsius: u32,
    pub current_temp_millideg: u32,
    pub max_temp_millideg: u32,
    pub throttle_temp_millideg: u32,
}

/// Temperature weighting of leakage: 1024 up to 25 degrees, ten more per degree
/// above.
pub open spec fn temp_factor(temp_millideg: u32) -> int {
    let c = temp_millideg / 1000;
    if c > 25 {
        1024 + (c - 25) * 10
    } else {
        1024
    }
}

/// Dynamic power of operating point `idx`.
pub open spec fn dynamic_power(pd: PerformanceDomain, idx: int) -> int {
    let s = pd.states@[idx];
    pd.dynamic_coefficient * s.frequency * s.voltage * s.voltage / 1_000_000
}

/// Leakage power at a temperature.
pub open spec fn static_power(pd: PerformanceDomain, temp_millideg: u32) -> int {
    pd.leakage_coefficient * temp_factor(temp_millideg) / 1024
}

/// The power arithmetic of operating point `idx` fits in 64 bits.
pub open spec fn power_fits(pd: PerformanceDomain, idx: int, temp_millideg: u32) -> bool {
    0 <= idx < pd.nr_states ==> {
        let s = pd.states@[idx];
        &&& pd.dynamic_coefficient * s.frequency * s.voltage * s.voltage <= u64::MAX
        &&& (dynamic_power(pd, idx) + static_power(pd, temp_millideg)) * pd.power_multiplier <= u64::MAX
    }
}

/// Power drawn at operating point `idx` and the given temperature, capped at
/// `EM_MAX_POWER`; 0 for an index past the points.
pub open spec fn power_at(pd: PerformanceDomain, idx: int, temp_millideg: u32) -> u32 {
    if idx < 0 || idx >= pd.nr_states {
        0
    } else {
        let total = (dynamic_power(pd, idx) + static_power(pd, temp_millideg)) * pd.power_multiplier / 1024;
        if total > EM_MAX_POWER {
            EM_MAX_POWER
        } else {
            total as u32
        }
    }
}

/// Quotient rounded toward zero.
pub open spec fn tdiv(x: int, d: int) -> int {
    if x >= 0 {
        x / d
    } else {
        -((-x) / d)
    }
}

/// Heat flowing out at the current temperature.
pub open spec fn heat_flow(pd: PerformanceDomain) -> int {
    let r = if pd.thermal_resistance > 1 { pd.thermal_resistance as int } else { 1 };
    tdiv((pd.current_temp_millideg - pd.ambient_temp_celsius * 1000) * 1000, r)
}

/// Net heat over `dt` milliseconds at `power` milliwatts.
pub open spec fn net_heat(pd: PerformanceDomain, power: u32, dt: u32) -> int {
    power * dt - heat_flow(pd)
}

/// The temperature arithmetic fits in its machine types.
pub open spec fn temp_update_fits(pd: PerformanceDomain, power: u32, dt: u32) -> bool {
    &&& pd.ambient_temp_celsius * 1000 <= u32::MAX
    &&& power * dt <= i64::MAX
    &&& -(i64::MAX / 1000) <= net_heat(pd, power, dt) <= i64::MAX / 1000
    &&& pd.current_temp_millideg + tdiv(net_heat(pd, power, dt) * 1000, capacitance(pd)) <= i64::MAX
}

/// Thermal capacitance, at least 1.
pub open spec fn capacitance(pd: PerformanceDomain) -> int {
    if pd.thermal_capacitance > 1 {
        pd.thermal_capacitance as int
    } else {
        1
    }
}

/// Temperature after `dt` milliseconds at `power` milliwatts: the heat balance over the
/// thermal capacitance, kept between ambient and the maximum.
pub open spec fn next_temp(pd: PerformanceDomain, power: u32, dt: u32) -> u32 {
    let t = pd.current_temp_millideg + tdiv(net_heat(pd, power, dt) * 1000, capacitance(pd));
    let ambient = pd.ambient_temp_celsius * 1000;
    let lo = if t > ambient { t } else { ambient };
    (if lo < pd.max_temp_millideg { lo } else { pd.max_temp_millideg as int }) as u32
}

/// Index of the first of the domain's points with at least `target` capacity, or the
/// last point.
pub open spec fn capacity_index(pd: PerformanceDomain, target: u32) -> int {
    if exists|i: int| 0 <= i < pd.nr_states && pd.states@[i].capacity >= target {
        choose|i: int|
            0 <= i < pd.nr_states && pd.states@[i].capacity >= target && forall|j: int|
                0 <= j < i ==> pd.states@[j].capacity < target
    } else {
        pd.nr_states - 1
    }
}

/// Distance between two frequencies.
pub open spec fn freq_diff(a: u32, b: u32) -> int {
    if a > b {
        a - b
    } else {
        b - a
    }
}

/// Quotient rounded toward zero, for `d > 0`.
fn div_trunc(x: i64, d: i64) -> (r: i64)
    requires
        d > 0,
        x > i64::MIN,
    ensures
        r == tdiv(x as int, d as int),
{
    if x >= 0 {
        ((x as u64) / (d as u64)) as i64
    } else {
        let q = ((-x) as u64) / (d as u64);
        -(q as i64)
    }
}

impl PerformanceDomain {
    /// Sixteen point slots, at most sixteen in use, a well-formed mask.
    pub open spec fn wf(&self) -> bool {
        &&& self.states.len() == MAX_OPP_COUNT
        &&& self.nr_states <= MAX_OPP_COUNT
        &&& self.cpus.wf()
    }

    /// A domain with no points or CPUs and the default thermal constants.
    pub fn empty() -> (r: Self)
        ensures
            r.wf(),
            r.nr_states == 0,
            r.cpus@ == Set::<int>::empty(),
            forall|i: int| 0 <= i < MAX_OPP_COUNT ==> r.states@[i] == empty_state(),
            !r.td_lock.held(),
            r.max_capacity == 0 && r.min_capacity == 0 && r.flags == 0 && r.id == 0,
            r.thermal_pressure == 0 && r.effective_capacity == 0 && r.active_state_idx == 0,
            r.power_multiplier == 1024 && r.leakage_coefficient == 100 && r.dynamic_coefficient == 500,
            r.thermal_resistance == 10 && r.thermal_capacitance == 100 && r.ambient_temp_celsius == 25,
            r.current_temp_millideg == 25000 && r.max_temp_millideg == 105000 && r.throttle_temp_millideg
                == 85000,
    {
        let mut states: Vec<CapacityState> = Vec::new();
        let mut i: usize = 0;
        while i < MAX_OPP_COUNT
            invariant
                i <= MAX_OPP_COUNT,
                states.len() == i,
                forall|j: int| 0 <= j < i ==> states@[j] == empty_state(),
            decreases MAX_OPP_COUNT - i,
        {
            states.push(CapacityState::empty());
            i = i + 1;
        }
        PerformanceDomain {
            states,
            nr_states: 0,
            cpus: CpuMask::empty(),
            td_lock: SpinLock::new(),
            max_capacity: 0,
            min_capacity: 0,
            flags: 0,
            id: 0,
            thermal_pressure: 0,
            effective_capacity: 0,
            active_state_idx: 0,
            power_multiplier: 1024,
            leakage_coefficient: 100,
            dynamic_coefficient: 500,
            thermal_resistance: 10,
            thermal_capacitance: 100,
            ambient_temp_celsius: 25,
            current_temp_millideg: 25000,
            max_temp_millideg: 105000,
            throttle_temp_millideg: 85000,
        }
    }

    /// Reset the domain to `id` over `cpus`, with no points and the temperature at
    /// ambient.
    pub fn init(&mut self, id: u32, cpus: CpuMask)
        requires
            old(self).wf(),
            cpus.wf(),
            old(self).ambient_temp_celsius * 1000 <= u32::MAX,
        ensures
            final(self).wf(),
            *final(self) == (PerformanceDomain {
                id,
                cpus,
                nr_states: 0,
                max_capacity: 0,
                min_capacity: u32::MAX,
                thermal_pressure: 0,
                effective_capacity: 0,
                active_state_idx: 0,
                current_temp_millideg: (old(self).ambient_temp_celsius * 1000) as u32,
                ..*old(self)
            }),
    {
        self.id = id;
        self.cpus = cpus;
        self.nr_states = 0;
        self.max_capacity = 0;
        self.min_capacity = u32::MAX;
        self.thermal_pressure = 0;
        self.effective_capacity = 0;
        self.active_state_idx = 0;
        self.current_temp_millideg = self.ambient_temp_celsius * 1000;
    }

    /// Append a valid point while there is room, widening the capacity range; report
    /// whether it was taken.
    pub fn add_state(&mut self, state: CapacityState) -> (r: bool)
        requires
            old(self).wf(),
        ensures
            final(self).wf(),
            r == (old(self).nr_states < MAX_OPP_COUNT && state.frequency > 0 && state.capacity > 0 && state.power
                > 0),
            !r ==> *final(self) == *old(self),
            r ==> *final(self) == (PerformanceDomain {
                states: final(self).states,
                nr_states: (old(self).nr_states + 1) as u32,
                max_capacity: if state.capacity > old(self).max_capacity {
                    state.capacity
                } else {
                    old(self).max_capacity
                },
                min_capacity: if state.capacity < old(self).min_capacity {
                    state.capacity
                } else {
                    old(self).min_capacity
                },
                ..*old(self)
            }),
            r ==> final(self).states@ == old(self).states@.update(old(self).nr_states as int, state),
    {
        if self.nr_states as usize >= MAX_OPP_COUNT {
            return false;
        }
        if !state.is_valid() {
            return false;
        }
        let idx = self.nr_states as usize;
        self.states.set(idx, state);
        self.nr_states = self.nr_states + 1;
        if state.capacity > self.max_capacity {
            self.max_capacity = state.capacity;
        }
        if state.capacity < self.min_capacity {
            self.min_capacity = state.capacity;
        }
        true
    }

    /// Recorded effective capacity.
    pub fn get_effective_capacity(&self) -> (r: u32)
        ensures
            r == self.effective_capacity,
    {
        self.effective_capacity
    }

    /// Record thermal pressure: the effective capacity drops by it, down to the
    /// smallest capacity when it reaches the best one.
    pub fn update_thermal_pressure(&mut self, pressure: u32)
        ensures
            *final(self) == (PerformanceDomain {
                thermal_pressure: pressure,
                effective_capacity: if pressure >= old(self).max_capacity {
                    old(self).min_capacity
                } else {
                    (old(self).max_capacity - pressure) as u32
                },
                ..*old(self)
            }),
    {
        self.thermal_pressure = pressure;
        let max_cap = self.max_capacity;
        let effective = if pressure >= max_cap {
            self.min_capacity
        } else {
            max_cap - pressure
        };
        self.effective_capacity = effective;
    }

    /// Power at operating point `state_idx` and temperature `temp_millideg`.
    pub fn compute_power_at_state(&self, state_idx: usize, temp_millideg: u32) -> (r: u32)
        requires
            self.wf(),
            power_fits(*self, state_idx as int, temp_millideg),
        ensures
            r == power_at(*self, state_idx as int, temp_millideg),
    {
        if state_idx >= self.nr_states as usize {
            return 0;
        }
        let state = self.states[state_idx];
        let freq_mhz = state.frequency as u64;
        let volt_mv = state.voltage as u64;
        proof {
            let a = self.dynamic_coefficient as int;
            let f = freq_mhz as int;
            let v = volt_mv as int;
            assert(0 <= a * f <= 0xffff_ffff * 0xffff_ffffint) by (nonlinear_arith)
                requires
                    0 <= a <= 0xffff_ffff,
                    0 <= f <= 0xffff_ffff,
            ;
            assert(0 <= a * f * v <= u64::MAX) by (nonlinear_arith)
                requires
                    0 <= a * f <= 0xffff_ffff * 0xffff_ffffint,
                    0 <= v,
                    a * f * v * v <= u64::MAX,
            ;
        }
        let dyn_power = (self.dynamic_coefficient as u64 * freq_mhz * volt_mv * volt_mv) / (EM_POWER_SCALE
            * EM_POWER_SCALE);
        let temp_celsius = temp_millideg / 1000;
        let temp_factor: u32 = if temp_celsius > 25 {
            1024 + ((temp_celsius - 25) * 10)
        } else {
            1024
        };
        proof {
            vstd::arithmetic::mul::lemma_mul_upper_bound(
                self.leakage_coefficient as int,
                u32::MAX as int,
                temp_factor as int,
                u32::MAX as int,
            );
        }
        let static_power = (self.leakage_coefficient as u64 * temp_factor as u64) / 1024;
        proof {
            assert(dyn_power as int + static_power as int <= u64::MAX) by {
                let d = dyn_power as int + static_power as int;
                let m = self.power_multiplier as int;
                if m == 0 {
                    assert(static_power as int <= 0x1_0000_0000 * 0x1_0000_0000 / 1024) by (nonlinear_arith)
                        requires
                            static_power as int == (self.leakage_coefficient as int * temp_factor as int) / 1024,
                            self.leakage_coefficient as int <= u32::MAX,
                            temp_factor as int <= u32::MAX,
                            temp_factor as int >= 0,
                    ;
                    assert(dyn_power as int <= u64::MAX / 1_000_000);
                } else {
                    assert(d <= d * m) by (nonlinear_arith)
                        requires
                            d >= 0,
                            m >= 1,
                    ;
                }
            }
        }
        let total = (dyn_power + static_power) * self.power_multiplier as u64 / 1024;
        if total > EM_MAX_POWER as u64 {
            EM_MAX_POWER
        } else {
            total as u32
        }
    }

    /// Advance the temperature by `delta_time_ms` at `power_mw`.
    pub fn update_temperature(&mut self, power_mw: u32, delta_time_ms: u32)
        requires
            temp_update_fits(*old(self), power_mw, delta_time_ms),
        ensures
            *final(self) == (PerformanceDomain {
                current_temp_millideg: next_temp(*old(self), power_mw, delta_time_ms),
                ..*old(self)
            }),
    {
        let current_temp = self.current_temp_millideg;
        let ambient = self.ambient_temp_celsius * 1000;
        let thermal_r: u64 = if self.thermal_resistance > 1 { self.thermal_resistance as u64 } else { 1 };
        let thermal_c: u64 = if self.thermal_capacitance > 1 { self.thermal_capacitance as u64 } else { 1 };
        let dt = delta_time_ms as u64;
        let power = power_mw as u64;
        let temp_diff = current_temp as i64 - ambient as i64;
        let heat = div_trunc(temp_diff * 1000, thermal_r as i64);
        proof {
            vstd::arithmetic::mul::lemma_mul_upper_bound(power as int, u32::MAX as int, dt as int, u32::MAX as int);
        }
        let net = ((power * dt) as i64) - heat;
        let temp_delta = div_trunc(net * 1000, thermal_c as i64);
        proof {
            assert(-(i64::MAX / 1000) * 1000 <= net * 1000 <= (i64::MAX / 1000) * 1000);
            assert(temp_delta >= -(i64::MAX / 1000) * 1000) by {
                let x = net * 1000;
                let c = thermal_c as int;
                if x < 0 {
                    vstd::arithmetic::div_mod::lemma_div_is_ordered_by_denominator(-x, 1, c);
                } else {
                    vstd::arithmetic::div_mod::lemma_div_pos_is_pos(x, c);
                }
            }
        }
        let t = current_temp as i64 + temp_delta;
        let lo = if t > ambient as i64 { t } else { ambient as i64 };
        let new_temp = if lo < self.max_temp_millideg as i64 { lo } else { self.max_temp_millideg as i64 };
        self.current_temp_millideg = new_temp as u32;
    }

    /// `cpu` belongs to the domain.
    pub fn contains_cpu(&self, cpu: u32) -> (r: bool)
        requires
            self.wf(),
        ensures
            r == self.cpus@.contains(cpu as int),
    {
        self.cpus.test(cpu)
    }

    /// Index of the operating point in use.
    pub fn get_active_state_idx(&self) -> (r: u32)
        ensures
            r == self.active_state_idx,
    {
        self.active_state_idx
    }

    /// Select operating point `idx` when it exists.
    pub fn set_active_state_idx(&mut self, idx: u32)
        ensures
            *final(self) == (PerformanceDomain {
                active_state_idx: if idx < old(self).nr_states {
                    idx
                } else {
                    old(self).active_state_idx
                },
                ..*old(self)
            }),
    {
        if idx < self.nr_states {
            self.active_state_idx = idx;
        }
    }
}


/// An operating point with its cost set against `max_cap`.
pub open spec fn costed(s: CapacityState, max_cap: u32) -> CapacityState {
    CapacityState { cost: state_cost(s.power, s.capacity, max_cap), ..s }
}

/// The first `n` points in increasing order of capacity.
pub open spec fn sorted_by_capacity(states: Seq<CapacityState>, n: int) -> bool {
    forall|a: int, b: int| 0 <= a < b < n ==> states[a].capacity <= states[b].capacity
}

/// Exchanging two entries keeps the multiset of a sequence.
proof fn lemma_swap_multiset<A>(s: Seq<A>, i: int, j: int)
    requires
        0 <= i < s.len(),
        0 <= j < s.len(),
    ensures
        s.update(i, s[j]).update(j, s[i]).to_multiset() == s.to_multiset(),
{
    broadcast use vstd::multiset::group_multiset_axioms, vstd::seq_lib::to_multiset_contains;

    let s1 = s.update(i, s[j]);
    vstd::seq_lib::to_multiset_update(s, i, s[j]);
    vstd::seq_lib::to_multiset_update(s1, j, s[i]);
    assert(s.contains(s[i]));
    assert(s1.contains(s1[j]));
    assert(s1.update(j, s[i]).to_multiset() =~= s.to_multiset());
}

impl PerformanceDomain {
    /// Each point in use has at most the recorded best capacity.
    pub open spec fn capacities_bounded(&self) -> bool {
        forall|i: int| 0 <= i < self.nr_states ==> #[trigger] self.states@[i].capacity <= self.max_capacity
    }

    /// Order the points in use by increasing capacity.
    fn sort_states(&mut self)
        requires
            old(self).wf(),
        ensures
            final(self).wf(),
            *final(self) == (PerformanceDomain { states: final(self).states, ..*old(self) }),
            final(self).states@.subrange(0, old(self).nr_states as int).to_multiset() == old(
                self,
            ).states@.subrange(0, old(self).nr_states as int).to_multiset(),
            forall|k: int|
                old(self).nr_states <= k < MAX_OPP_COUNT ==> final(self).states@[k] == old(self).states@[k],
            sorted_by_capacity(final(self).states@, old(self).nr_states as int),
            sorted_by_capacity(old(self).states@, old(self).nr_states as int) ==> final(self).states@ == old(
                self,
            ).states@,
    {
        let n = self.nr_states as usize;
        let ghost m = self.states@.subrange(0, n as int).to_multiset();
        let mut i: usize = 0;
        while i < n
            invariant
                self.wf(),
                n == self.nr_states,
                *self == (PerformanceDomain { states: self.states, ..*old(self) }),
                i <= n,
                self.states@.subrange(0, n as int).to_multiset() == m,
                forall|k: int| n <= k < MAX_OPP_COUNT ==> self.states@[k] == old(self).states@[k],
                sorted_by_capacity(self.states@, i as int),
                forall|a: int, b: int|
                    0 <= a < i <= b < n ==> self.states@[a].capacity <= self.states@[b].capacity,
                sorted_by_capacity(old(self).states@, n as int) ==> self.states@ == old(self).states@,
            decreases n - i,
        {
            let mut j: usize = i + 1;
            while j < n
                invariant
                    self.wf(),
                    n == self.nr_states,
                    *self == (PerformanceDomain { states: self.states, ..*old(self) }),
                    i < n,
                    i + 1 <= j <= n,
                    self.states@.subrange(0, n as int).to_multiset() == m,
                    forall|k: int| n <= k < MAX_OPP_COUNT ==> self.states@[k] == old(self).states@[k],
                    sorted_by_capacity(self.states@, i as int),
                    forall|a: int, b: int|
                        0 <= a < i <= b < n ==> self.states@[a].capacity <= self.states@[b].capacity,
                    forall|b: int| i < b < j ==> self.states@[i as int].capacity <= self.states@[b].capacity,
                    sorted_by_capacity(old(self).states@, n as int) ==> self.states@ == old(self).states@,
                decreases n - j,
            {
                if self.states[j].capacity < self.states[i].capacity {
                    let ghost before = self.states@;
                    let tmp = self.states[i];
                    let other = self.states[j];
                    self.states.set(i, other);
                    self.states.set(j, tmp);
                    proof {
                        let sub = before.subrange(0, n as int);
                        lemma_swap_multiset(sub, i as int, j as int);
                        assert(self.states@.subrange(0, n as int) =~= sub.update(i as int, sub[j as int]).update(
                            j as int,
                            sub[i as int],
                        ));
                    }
                }
                j = j + 1;
            }
            i = i + 1;
        }
    }

    /// Set every point's cost against the best capacity, order the points by
    /// capacity, and make the best capacity the effective one.
    pub fn finalize(&mut self)
        requires
            old(self).wf(),
            old(self).capacities_bounded(),
        ensures
            final(self).wf(),
            *final(self) == (PerformanceDomain {
                states: final(self).states,
                effective_capacity: old(self).max_capacity,
                ..*old(self)
            }),
            final(self).states@.subrange(0, old(self).nr_states as int).to_multiset() == Seq::new(
                old(self).nr_states as nat,
                |i: int| costed(old(self).states@[i], old(self).max_capacity),
            ).to_multiset(),
            forall|k: int|
                old(self).nr_states <= k < MAX_OPP_COUNT ==> final(self).states@[k] == old(self).states@[k],
            sorted_by_capacity(final(self).states@, old(self).nr_states as int),
            sorted_by_capacity(old(self).states@, old(self).nr_states as int) ==> forall|k: int|
                0 <= k < old(self).nr_states ==> final(self).states@[k] == costed(
                    old(self).states@[k],
                    old(self).max_capacity,
                ),
    {
        let max_cap = self.max_capacity;
        let n = self.nr_states as usize;
        let mut i: usize = 0;
        while i < n
            invariant
                self.wf(),
                n == self.nr_states,
                max_cap == self.max_capacity,
                *self == (PerformanceDomain { states: self.states, ..*old(self) }),
                old(self).capacities_bounded(),
                i <= n,
                forall|k: int| 0 <= k < i ==> self.states@[k] == costed(old(self).states@[k], max_cap),
                forall|k: int| i <= k < MAX_OPP_COUNT ==> self.states@[k] == old(self).states@[k],
            decreases n - i,
        {
            let mut st = self.states[i];
            st.compute_cost(max_cap);
            self.states.set(i, st);
            i = i + 1;
        }
        assert(self.states@.subrange(0, n as int) =~= Seq::new(
            n as nat,
            |i: int| costed(old(self).states@[i], old(self).max_capacity),
        ));
        let ghost costed_states = self.states@;
        assert(sorted_by_capacity(old(self).states@, n as int) ==> sorted_by_capacity(costed_states, n as int));
        self.sort_states();
        self.effective_capacity = self.max_capacity;
    }

    /// The first point, in order, with at least `target_cap` capacity; else the last
    /// point; none without points.
    pub fn find_state_for_capacity(&self, target_cap: u32) -> (r: Option<&CapacityState>)
        requires
            self.wf(),
        ensures
            match r {
                None => self.nr_states == 0,
                Some(s) => self.nr_states > 0 && *s == self.states@[capacity_index(*self, target_cap)],
            },
    {
        let n = self.nr_states as usize;
        let mut i: usize = 0;
        while i < n
            invariant
                self.wf(),
                n == self.nr_states,
                i <= n,
                forall|j: int| 0 <= j < i ==> self.states@[j].capacity < target_cap,
            decreases n - i,
        {
            if self.states[i].capacity >= target_cap {
                proof {
                    let c = capacity_index(*self, target_cap);
                    assert(0 <= c < self.nr_states && self.states@[c].capacity >= target_cap && forall|j: int|
                        0 <= j < c ==> self.states@[j].capacity < target_cap);
                    if c < i {
                    } else if c > i {
                    }
                }
                return Some(&self.states[i]);
            }
            i = i + 1;
        }
        if n > 0 {
            Some(&self.states[n - 1])
        } else {
            None
        }
    }

    /// The first point, in order, whose frequency is nearest to `target_freq`; none
    /// without points, or when every point is `u32::MAX` away.
    pub fn find_state_for_frequency(&self, target_freq: u32) -> (r: Option<&CapacityState>)
        requires
            self.wf(),
        ensures
            match r {
                None => forall|j: int| 0 <= j < self.nr_states ==> freq_diff(self.states@[j].frequency, target_freq) == u32::MAX,
                Some(s) => exists|i: int|
                    0 <= i < self.nr_states && *s == self.states@[i] && (forall|j: int|
                        0 <= j < i ==> freq_diff(self.states@[j].frequency, target_freq) > freq_diff(
                            self.states@[i].frequency,
                            target_freq,
                        )) && (forall|j: int|
                        i < j < self.nr_states ==> freq_diff(self.states@[j].frequency, target_freq) >= freq_diff(
                            self.states@[i].frequency,
                            target_freq,
                        )),
            },
    {
        let n = self.nr_states as usize;
        let mut best: Option<usize> = None;
        let mut best_diff: u32 = u32::MAX;
        let mut i: usize = 0;
        while i < n
            invariant
                self.wf(),
                n == self.nr_states,
                i <= n,
                match best {
                    None => forall|j: int| 0 <= j < i ==> freq_diff(self.states@[j].frequency, target_freq) >= u32::MAX,
                    Some(b) => b < i && best_diff == freq_diff(self.states@[b as int].frequency, target_freq)
                        && (forall|j: int|
                        0 <= j < b ==> freq_diff(self.states@[j].frequency, target_freq) > best_diff) && (forall|j: int|
                        b < j < i ==> freq_diff(self.states@[j].frequency, target_freq) >= best_diff),
                },
                best.is_none() ==> best_diff == u32::MAX,
            decreases n - i,
        {
            let f = self.states[i].frequency;
            let diff = if f > target_freq { f - target_freq } else { target_freq - f };
            if diff < best_diff {
                best_diff = diff;
                best = Some(i);
            }
            i = i + 1;
        }
        match best {
            Some(b) => Some(&self.states[b]),
            None => None,
        }
    }
}


/// The machine's performance domains and which domain each CPU is in.
pub struct EnergyModel {
    pub domains: Vec<PerformanceDomain>,
    pub nr_domains: u32,
    pub cpu_to_pd: Vec<u32>,
    pub lock: SpinLock,
    pub flags: u32,
    pub origin: u32,
    pub global_max_capacity: u32,
    pub global_min_capacity: u32,
    pub total_system_power_mw: u32,
    pub last_update_time_ns: u64,
}

/// The domain of `cpu`, when it is in range and mapped to a registered domain.
pub open spec fn pd_index(em: EnergyModel, cpu: u32) -> Option<int> {
    if cpu >= MAX_CPUS {
        None
    } else {
        let i = em.cpu_to_pd@[cpu as int];
        if i == NO_DOMAIN || i >= em.nr_domains {
            None
        } else {
            Some(i as int)
        }
    }
}

/// Power of the domains `0..n` at their active points and temperatures, summed with
/// saturation at `u32::MAX`.
pub open spec fn system_power(domains: Seq<PerformanceDomain>, n: int) -> u32
    decreases n,
{
    if n <= 0 {
        0
    } else {
        let p = power_at(domains[n - 1], domains[n - 1].active_state_idx as int, domains[n - 1].current_temp_millideg);
        system_power(domains, n - 1).saturating_add(p)
    }
}

/// A domain's power at its active point and temperature.
pub open spec fn active_power(pd: PerformanceDomain) -> u32 {
    power_at(pd, pd.active_state_idx as int, pd.current_temp_millideg)
}

/// The power and temperature arithmetic of a domain fits.
pub open spec fn energy_fits(pd: PerformanceDomain, delta_ms: u32) -> bool {
    &&& power_fits(pd, pd.active_state_idx as int, pd.current_temp_millideg)
    &&& temp_update_fits(pd, active_power(pd), delta_ms)
}

/// Capacity a utilisation (out of 1024) asks of a domain of capacity `cap`, kept to its
/// low 32 bits.
pub open spec fn scaled_capacity(util: u32, cap: u32) -> u32 {
    (util * cap / 1024) as u32
}

/// Index of the first of all the domain's point slots with capacity `cap`, or 0.
pub open spec fn first_slot_with_capacity(pd: PerformanceDomain, cap: u32) -> int {
    if exists|i: int| 0 <= i < pd.states.len() && pd.states@[i].capacity == cap {
        choose|i: int|
            0 <= i < pd.states.len() && pd.states@[i].capacity == cap && forall|j: int|
                0 <= j < i ==> pd.states@[j].capacity != cap
    } else {
        0
    }
}

/// The point whose power prices a task of utilisation `util` in domain `pd`.
pub open spec fn task_state_index(pd: PerformanceDomain, util: u32) -> int {
    first_slot_with_capacity(pd, pd.states@[capacity_index(pd, scaled_capacity(util, pd.max_capacity))].capacity)
}

/// Energy of a task of utilisation `util` on `cpu`: the power of the point that covers
/// it, weighted by the utilisation; `u32::MAX` for a CPU without a domain or a domain
/// without points.
pub open spec fn task_energy(em: EnergyModel, util: u32, cpu: u32) -> u32 {
    match pd_index(em, cpu) {
        None => u32::MAX,
        Some(i) => {
            let pd = em.domains@[i];
            if pd.nr_states == 0 {
                u32::MAX
            } else {
                let e = power_at(pd, task_state_index(pd, util), pd.current_temp_millideg) * util / 1024;
                if e > u32::MAX {
                    u32::MAX
                } else {
                    e as u32
                }
            }
        },
    }
}

/// The arithmetic of `task_energy` fits.
pub open spec fn task_energy_fits(em: EnergyModel, util: u32, cpu: u32) -> bool {
    match pd_index(em, cpu) {
        None => true,
        Some(i) => {
            let pd = em.domains@[i];
            pd.nr_states > 0 ==> power_fits(pd, task_state_index(pd, util), pd.current_temp_millideg)
        },
    }
}

/// Point `i` of `pd` is among the cheapest of those with at least `target` capacity
/// and a cost below `u32::MAX`, and the first such.
pub open spec fn cheapest_covering(pd: PerformanceDomain, target: u32, i: int) -> bool {
    &&& 0 <= i < pd.nr_states
    &&& pd.states@[i].capacity >= target
    &&& pd.states@[i].cost < u32::MAX
    &&& forall|j: int|
        0 <= j < i && pd.states@[j].capacity >= target ==> pd.states@[j].cost > pd.states@[i].cost
    &&& forall|j: int|
        i < j < pd.nr_states && pd.states@[j].capacity >= target ==> pd.states@[j].cost >= pd.states@[i].cost
}

/// No point covers `target` at a cost below `u32::MAX`.
pub open spec fn none_covering(pd: PerformanceDomain, target: u32) -> bool {
    forall|j: int| 0 <= j < pd.nr_states && pd.states@[j].capacity >= target ==> pd.states@[j].cost == u32::MAX
}

impl EnergyModel {
    /// Eight domain slots of well-formed domains, one mapping entry per CPU.
    pub open spec fn wf(&self) -> bool {
        &&& self.domains.len() == MAX_PD_COUNT
        &&& self.nr_domains <= MAX_PD_COUNT
        &&& self.cpu_to_pd.len() == MAX_CPUS
        &&& forall|i: int| 0 <= i < MAX_PD_COUNT ==> #[trigger] self.domains@[i].wf()
    }

    /// No domain; no CPU mapped.
    pub fn empty() -> (r: Self)
        ensures
            r.wf(),
            r.nr_domains == 0,
            forall|c: int| 0 <= c < MAX_CPUS ==> r.cpu_to_pd@[c] == NO_DOMAIN,
            !r.lock.held(),
            r.flags == 0 && r.origin == 0,
            r.global_max_capacity == 0 && r.global_min_capacity == u32::MAX,
            r.total_system_power_mw == 0 && r.last_update_time_ns == 0,
    {
        let mut domains: Vec<PerformanceDomain> = Vec::new();
        let mut i: usize = 0;
        while i < MAX_PD_COUNT
            invariant
                i <= MAX_PD_COUNT,
                domains.len() == i,
                forall|j: int| 0 <= j < i ==> #[trigger] domains@[j].wf(),
            decreases MAX_PD_COUNT - i,
        {
            domains.push(PerformanceDomain::empty());
            i = i + 1;
        }
        let mut cpu_to_pd: Vec<u32> = Vec::new();
        let mut c: usize = 0;
        while c < MAX_CPUS
            invariant
                c <= MAX_CPUS,
                cpu_to_pd.len() == c,
                forall|j: int| 0 <= j < c ==> cpu_to_pd@[j] == NO_DOMAIN,
            decreases MAX_CPUS - c,
        {
            cpu_to_pd.push(NO_DOMAIN);
            c = c + 1;
        }
        EnergyModel {
            domains,
            nr_domains: 0,
            cpu_to_pd,
            lock: SpinLock::new(),
            flags: 0,
            origin: 0,
            global_max_capacity: 0,
            global_min_capacity: u32::MAX,
            total_system_power_mw: 0,
            last_update_time_ns: 0,
        }
    }

    /// Forget every domain and mapping.
    pub fn init(&mut self)
        requires
            old(self).wf(),
        ensures
            final(self).wf(),
            *final(self) == (EnergyModel {
                nr_domains: 0,
                global_max_capacity: 0,
                global_min_capacity: u32::MAX,
                cpu_to_pd: final(self).cpu_to_pd,
                ..*old(self)
            }),
            forall|c: int| 0 <= c < MAX_CPUS ==> final(self).cpu_to_pd@[c] == NO_DOMAIN,
    {
        self.nr_domains = 0;
        self.global_max_capacity = 0;
        self.global_min_capacity = u32::MAX;
        let mut c: usize = 0;
        while c < MAX_CPUS
            invariant
                c <= MAX_CPUS,
                self.wf(),
                *self == (EnergyModel {
                    nr_domains: 0,
                    global_max_capacity: 0,
                    global_min_capacity: u32::MAX,
                    cpu_to_pd: self.cpu_to_pd,
                    ..*old(self)
                }),
                forall|j: int| 0 <= j < c ==> self.cpu_to_pd@[j] == NO_DOMAIN,
            decreases MAX_CPUS - c,
        {
            self.cpu_to_pd.set(c, NO_DOMAIN);
            c = c + 1;
        }
    }

    /// Add `pd` as the next domain, numbered by its slot, map its CPUs to it and widen
    /// the capacity range; report whether there was room.
    pub fn register_domain(&mut self, pd: PerformanceDomain) -> (r: bool)
        requires
            old(self).wf(),
            pd.wf(),
        ensures
            final(self).wf(),
            r == (old(self).nr_domains < MAX_PD_COUNT),
            !r ==> *final(self) == *old(self),
            r ==> *final(self) == (EnergyModel {
                domains: final(self).domains,
                nr_domains: final(self).nr_domains,
                cpu_to_pd: final(self).cpu_to_pd,
                global_max_capacity: final(self).global_max_capacity,
                global_min_capacity: final(self).global_min_capacity,
                ..*old(self)
            }),
            r ==> final(self).domains@ == old(self).domains@.update(
                old(self).nr_domains as int,
                PerformanceDomain { id: old(self).nr_domains, ..pd },
            ),
            r ==> final(self).nr_domains == old(self).nr_domains + 1,
            r ==> forall|c: int|
                0 <= c < MAX_CPUS ==> final(self).cpu_to_pd@[c] == if pd.cpus@.contains(c) {
                    old(self).nr_domains
                } else {
                    old(self).cpu_to_pd@[c]
                },
            r ==> final(self).global_max_capacity == if pd.max_capacity > old(self).global_max_capacity {
                pd.max_capacity
            } else {
                old(self).global_max_capacity
            },
            r ==> final(self).global_min_capacity == if pd.min_capacity < old(self).global_min_capacity {
                pd.min_capacity
            } else {
                old(self).global_min_capacity
            },
    {
        if self.nr_domains as usize >= MAX_PD_COUNT {
            return false;
        }
        let idx = self.nr_domains as usize;
        let mut c: u32 = 0;
        while c < 1024
            invariant
                c <= MAX_CPUS,
                old(self).wf(),
                pd.wf(),
                self.wf(),
                idx == old(self).nr_domains,
                idx < MAX_PD_COUNT,
                *self == (EnergyModel { cpu_to_pd: self.cpu_to_pd, ..*old(self) }),
                forall|j: int|
                    0 <= j < MAX_CPUS ==> self.cpu_to_pd@[j] == if pd.cpus@.contains(j) && j < c {
                        idx as u32
                    } else {
                        old(self).cpu_to_pd@[j]
                    },
            decreases MAX_CPUS - c,
        {
            if pd.cpus.test(c) {
                self.cpu_to_pd.set(c as usize, idx as u32);
            }
            c = c + 1;
        }
        let pd_max = pd.max_capacity;
        let pd_min = pd.min_capacity;
        let mut pd = pd;
        pd.id = idx as u32;
        self.domains.set(idx, pd);
        if pd_max > self.global_max_capacity {
            self.global_max_capacity = pd_max;
        }
        if pd_min < self.global_min_capacity {
            self.global_min_capacity = pd_min;
        }
        self.nr_domains = self.nr_domains + 1;
        true
    }
}


/// A domain under thermal pressure `pressure`.
pub open spec fn pressured(pd: PerformanceDomain, pressure: u32) -> PerformanceDomain {
    PerformanceDomain {
        thermal_pressure: pressure,
        effective_capacity: if pressure >= pd.max_capacity {
            pd.min_capacity
        } else {
            (pd.max_capacity - pressure) as u32
        },
        ..pd
    }
}

impl EnergyModel {
    /// Slot of the domain of `cpu`.
    pub(crate) fn pd_slot(&self, cpu: u32) -> (r: Option<usize>)
        requires
            self.wf(),
        ensures
            match r {
                None => pd_index(*self, cpu).is_none(),
                Some(i) => pd_index(*self, cpu) == Some(i as int) && i < MAX_PD_COUNT,
            },
    {
        if cpu as usize >= MAX_CPUS {
            return None;
        }
        let pd_idx = self.cpu_to_pd[cpu as usize];
        if pd_idx == NO_DOMAIN || pd_idx >= self.nr_domains {
            return None;
        }
        Some(pd_idx as usize)
    }

    /// The domain of `cpu`, if it has one.
    pub fn get_pd_for_cpu(&self, cpu: u32) -> (r: Option<&PerformanceDomain>)
        requires
            self.wf(),
        ensures
            match r {
                None => pd_index(*self, cpu).is_none(),
                Some(pd) => exists|i: int| pd_index(*self, cpu) == Some(i) && *pd == self.domains@[i],
            },
    {
        match self.pd_slot(cpu) {
            None => None,
            Some(i) => Some(&self.domains[i]),
        }
    }

    /// Put domain `i` under thermal pressure `pressure`.
    fn pressure_domain(&mut self, i: usize, pressure: u32)
        requires
            old(self).wf(),
            i < MAX_PD_COUNT,
        ensures
            final(self).wf(),
            final(self).domains@ == old(self).domains@.update(i as int, pressured(old(self).domains@[i as int], pressure)),
            *final(self) == (EnergyModel { domains: final(self).domains, ..*old(self) }),
    {
        let mut pd = self.domains.remove(i);
        pd.update_thermal_pressure(pressure);
        self.domains.insert(i, pd);
        assert(self.domains@ =~= old(self).domains@.update(i as int, pressured(old(self).domains@[i as int], pressure)));
    }

    /// Apply thermal pressure to the domain of `cpu`, if it has one.
    pub fn invert_capacity_for_thermal(&mut self, cpu: u32, thermal_pressure: u32)
        requires
            old(self).wf(),
        ensures
            final(self).wf(),
            *final(self) == (EnergyModel { domains: final(self).domains, ..*old(self) }),
            final(self).domains@ == match pd_index(*old(self), cpu) {
                None => old(self).domains@,
                Some(i) => old(self).domains@.update(i, pressured(old(self).domains@[i], thermal_pressure)),
            },
    {
        match self.pd_slot(cpu) {
            None => {},
            Some(i) => self.pressure_domain(i, thermal_pressure),
        }
    }

    /// Remove thermal pressure from every registered domain.
    pub fn clear_thermal_pressure(&mut self)
        requires
            old(self).wf(),
        ensures
            final(self).wf(),
            *final(self) == (EnergyModel { domains: final(self).domains, ..*old(self) }),
            forall|i: int|
                0 <= i < MAX_PD_COUNT ==> final(self).domains@[i] == if i < old(self).nr_domains {
                    pressured(old(self).domains@[i], 0)
                } else {
                    old(self).domains@[i]
                },
    {
        let n = self.nr_domains as usize;
        let mut i: usize = 0;
        while i < n
            invariant
                self.wf(),
                n == old(self).nr_domains,
                n <= MAX_PD_COUNT,
                i <= n,
                *self == (EnergyModel { domains: self.domains, ..*old(self) }),
                forall|k: int|
                    0 <= k < MAX_PD_COUNT ==> self.domains@[k] == if k < i {
                        pressured(old(self).domains@[k], 0)
                    } else {
                        old(self).domains@[k]
                    },
            decreases n - i,
        {
            self.pressure_domain(i, 0);
            i = i + 1;
        }
    }

    /// Best capacity over all domains.
    pub fn get_max_capacity(&self) -> (r: u32)
        ensures
            r == self.global_max_capacity,
    {
        self.global_max_capacity
    }

    /// Smallest capacity over all domains.
    pub fn get_min_capacity(&self) -> (r: u32)
        ensures
            r == self.global_min_capacity,
    {
        self.global_min_capacity
    }

    /// `cpu`'s domain reaches more than half the best capacity.
    pub fn is_cpu_big(&self, cpu: u32) -> (r: bool)
        requires
            self.wf(),
        ensures
            r == match pd_index(*self, cpu) {
                None => false,
                Some(i) => self.domains@[i].max_capacity > self.global_max_capacity / 2,
            },
    {
        match self.pd_slot(cpu) {
            None => false,
            Some(i) => self.domains[i].max_capacity > self.global_max_capacity / 2,
        }
    }

    /// `cpu`'s domain reaches at most half the best capacity.
    pub fn is_cpu_little(&self, cpu: u32) -> (r: bool)
        requires
            self.wf(),
        ensures
            r == match pd_index(*self, cpu) {
                None => false,
                Some(i) => self.domains@[i].max_capacity <= self.global_max_capacity / 2,
            },
    {
        match self.pd_slot(cpu) {
            None => false,
            Some(i) => self.domains[i].max_capacity <= self.global_max_capacity / 2,
        }
    }

    /// Inspection hook; changes nothing.
    pub fn dump_state(&self) {
    }

    /// Sum the domains' power at their active points (saturating), advance each
    /// domain's temperature by `delta_time_ms` at its power, and record the sum.
    pub fn compute_system_energy(&mut self, delta_time_ms: u32) -> (r: u32)
        requires
            old(self).wf(),
            forall|i: int| 0 <= i < old(self).nr_domains ==> energy_fits(#[trigger] old(self).domains@[i], delta_time_ms),
        ensures
            final(self).wf(),
            r == system_power(old(self).domains@, old(self).nr_domains as int),
            *final(self) == (EnergyModel { domains: final(self).domains, total_system_power_mw: r, ..*old(self) }),
            forall|i: int|
                0 <= i < MAX_PD_COUNT ==> final(self).domains@[i] == if i < old(self).nr_domains {
                    PerformanceDomain {
                        current_temp_millideg: next_temp(old(self).domains@[i], active_power(old(self).domains@[i]), delta_time_ms),
                        ..old(self).domains@[i]
                    }
                } else {
                    old(self).domains@[i]
                },
    {
        let n = self.nr_domains as usize;
        let mut total_power: u32 = 0;
        let mut i: usize = 0;
        while i < n
            invariant
                self.wf(),
                n == old(self).nr_domains,
                n <= MAX_PD_COUNT,
                i <= n,
                forall|k: int| 0 <= k < old(self).nr_domains ==> energy_fits(#[trigger] old(self).domains@[k], delta_time_ms),
                *self == (EnergyModel { domains: self.domains, ..*old(self) }),
                total_power == system_power(old(self).domains@, i as int),
                forall|k: int|
                    0 <= k < MAX_PD_COUNT ==> self.domains@[k] == if k < i {
                        PerformanceDomain {
                            current_temp_millideg: next_temp(old(self).domains@[k], active_power(old(self).domains@[k]), delta_time_ms),
                            ..old(self).domains@[k]
                        }
                    } else {
                        old(self).domains@[k]
                    },
            decreases n - i,
        {
            let ghost before = self.domains@;
            assert(before[i as int].wf());
            let mut pd = self.domains.remove(i);
            assert(pd == old(self).domains@[i as int]);
            assert(energy_fits(old(self).domains@[i as int], delta_time_ms));
            let active_idx = pd.active_state_idx as usize;
            let temp = pd.current_temp_millideg;
            let power = pd.compute_power_at_state(active_idx, temp);
            total_power = total_power.saturating_add(power);
            pd.update_temperature(power, delta_time_ms);
            assert(pd.wf());
            self.domains.insert(i, pd);
            assert(self.domains@ =~= before.update(i as int, pd));
            proof {
                assert forall|k: int| 0 <= k < MAX_PD_COUNT implies #[trigger] self.domains@[k] == if k < i + 1 {
                        PerformanceDomain {
                            current_temp_millideg: next_temp(old(self).domains@[k], active_power(old(self).domains@[k]), delta_time_ms),
                            ..old(self).domains@[k]
                        }
                    } else {
                        old(self).domains@[k]
                    } by {
                    if k != i {
                    }
                }
                assert forall|k: int| 0 <= k < MAX_PD_COUNT implies #[trigger] self.domains@[k].wf() by {
                    if k != i {
                    }
                }
            }
            i = i + 1;
        }
        self.total_system_power_mw = total_power;
        total_power
    }
}


impl EnergyModel {
    /// Energy of a task of utilisation `task_util` (out of 1024) placed on `cpu`.
    pub fn compute_task_energy_on_cpu(&self, task_util: u32, cpu: u32) -> (r: u32)
        requires
            self.wf(),
            task_energy_fits(*self, task_util, cpu),
        ensures
            r == task_energy(*self, task_util, cpu),
    {
        let i = match self.pd_slot(cpu) {
            None => return u32::MAX,
            Some(i) => i,
        };
        let pd = &self.domains[i];
        assert(pd.wf());
        proof {
            vstd::arithmetic::mul::lemma_mul_upper_bound(
                task_util as int,
                u32::MAX as int,
                pd.max_capacity as int,
                u32::MAX as int,
            );
        }
        let target_cap = #[verifier::truncate] ((task_util as u64 * pd.max_capacity as u64 / 1024) as u32);
        let cap = match pd.find_state_for_capacity(target_cap) {
            Some(s) => s.capacity,
            None => return u32::MAX,
        };
        let ghost ci = capacity_index(*pd, target_cap);
        assert(0 <= ci < pd.nr_states) by {
            if exists|j: int| 0 <= j < pd.nr_states && pd.states@[j].capacity >= target_cap {
            }
        }
        let mut idx: usize = 0;
        let mut k: usize = 0;
        while k < MAX_OPP_COUNT
            invariant
                pd.wf(),
                0 <= ci < MAX_OPP_COUNT,
                pd.states@[ci].capacity == cap,
                k <= MAX_OPP_COUNT,
                forall|j: int| 0 <= j < k ==> pd.states@[j].capacity != cap,
            ensures
                idx == first_slot_with_capacity(*pd, cap),
            decreases MAX_OPP_COUNT - k,
        {
            if pd.states[k].capacity == cap {
                idx = k;
                proof {
                    let f = first_slot_with_capacity(*pd, cap);
                    assert(0 <= f < pd.states.len() && pd.states@[f].capacity == cap && forall|j: int|
                        0 <= j < f ==> pd.states@[j].capacity != cap);
                    if f < k {
                    } else if f > k {
                    }
                }
                break;
            }
            k = k + 1;
        }
        let temp = pd.current_temp_millideg;
        let power = pd.compute_power_at_state(idx, temp);
        proof {
            vstd::arithmetic::mul::lemma_mul_upper_bound(power as int, u32::MAX as int, task_util as int, u32::MAX as int);
        }
        let energy = (power as u64 * task_util as u64) / 1024;
        if energy > 0xffff_ffff {
            u32::MAX
        } else {
            energy as u32
        }
    }

    /// The cheapest operating point of domain `pd_idx` that covers `target_util` (out
    /// of 1024) of its effective capacity, the first among equals; the last point when
    /// none covers it at a cost below `u32::MAX`.
    pub fn find_best_state_for_domain(&self, pd_idx: u32, target_util: u32) -> (r: Option<usize>)
        requires
            self.wf(),
        ensures
            pd_idx >= self.nr_domains ==> r.is_none(),
            pd_idx < self.nr_domains ==> {
                let pd = self.domains@[pd_idx as int];
                let target = scaled_capacity(target_util, pd.effective_capacity);
                match r {
                    Some(i) => cheapest_covering(pd, target, i as int) || (none_covering(pd, target) && pd.nr_states > 0
                        && i == pd.nr_states - 1),
                    None => none_covering(pd, target) && pd.nr_states == 0,
                }
            },
    {
        if pd_idx >= self.nr_domains {
            return None;
        }
        let pd = &self.domains[pd_idx as usize];
        assert(pd.wf());
        let eff_cap = pd.get_effective_capacity();
        proof {
            vstd::arithmetic::mul::lemma_mul_upper_bound(
                target_util as int,
                u32::MAX as int,
                eff_cap as int,
                u32::MAX as int,
            );
        }
        let target_cap = #[verifier::truncate] ((target_util as u64 * eff_cap as u64 / 1024) as u32);
        let n = pd.nr_states as usize;
        let mut best_idx: Option<usize> = None;
        let mut best_cost: u32 = u32::MAX;
        let mut i: usize = 0;
        while i < n
            invariant
                pd.wf(),
                n == pd.nr_states,
                i <= n,
                match best_idx {
                    None => best_cost == u32::MAX && forall|j: int|
                        0 <= j < i && pd.states@[j].capacity >= target_cap ==> pd.states@[j].cost == u32::MAX,
                    Some(b) => b < i && best_cost == pd.states@[b as int].cost && best_cost < u32::MAX
                        && pd.states@[b as int].capacity >= target_cap && (forall|j: int|
                        0 <= j < b && pd.states@[j].capacity >= target_cap ==> pd.states@[j].cost > best_cost) && (
                    forall|j: int|
                        b < j < i && pd.states@[j].capacity >= target_cap ==> pd.states@[j].cost >= best_cost),
                },
            decreases n - i,
        {
            if pd.states[i].capacity >= target_cap {
                if pd.states[i].cost < best_cost {
                    best_cost = pd.states[i].cost;
                    best_idx = Some(i);
                }
            }
            i = i + 1;
        }
        if best_idx.is_none() && n > 0 {
            best_idx = Some(n - 1);
        }
        best_idx
    }
}

/// An operating point as `CapacityState::new` builds it.
pub open spec fn opp(freq: u32, power: u32, cap: u32, volt: u32, lat: u32) -> CapacityState {
    CapacityState {
        frequency: freq,
        power: power,
        cost: 0,
        performance: cap,
        capacity: cap,
        voltage: volt,
        transition_latency_ns: lat,
        flags: 0,
    }
}

/// Operating points of the synthetic little domain, by increasing capacity.
pub open spec fn little_opp(k: int) -> CapacityState {
    if k == 0 {
        opp(500, 100, 150, 800, 10)
    } else if k == 1 {
        opp(700, 150, 250, 850, 10)
    } else if k == 2 {
        opp(1000, 250, 382, 900, 10)
    } else if k == 3 {
        opp(1200, 350, 480, 950, 10)
    } else if k == 4 {
        opp(1500, 500, 600, 1000, 10)
    } else if k == 5 {
        opp(1800, 700, 750, 1050, 10)
    } else {
        opp(2000, 900, 870, 1100, 10)
    }
}

/// Operating points of the synthetic big domain, by increasing capacity.
pub open spec fn big_opp(k: int) -> CapacityState {
    if k == 0 {
        opp(600, 300, 400, 850, 20)
    } else if k == 1 {
        opp(900, 500, 650, 900, 20)
    } else if k == 2 {
        opp(1200, 800, 900, 950, 20)
    } else if k == 3 {
        opp(1500, 1200, 1100, 1000, 20)
    } else if k == 4 {
        opp(1800, 1800, 1400, 1050, 20)
    } else if k == 5 {
        opp(2100, 2500, 1700, 1100, 20)
    } else if k == 6 {
        opp(2400, 3500, 2000, 1150, 20)
    } else {
        opp(2800, 5000, 2400, 1200, 20)
    }
}

/// Operating points of the synthetic huge domain, by increasing capacity.
pub open spec fn huge_opp(k: int) -> CapacityState {
    if k == 0 {
        opp(800, 800, 800, 900, 30)
    } else if k == 1 {
        opp(1200, 1500, 1300, 950, 30)
    } else if k == 2 {
        opp(1600, 2500, 1800, 1000, 30)
    } else if k == 3 {
        opp(2000, 4000, 2400, 1050, 30)
    } else if k == 4 {
        opp(2400, 6000, 3000, 1100, 30)
    } else if k == 5 {
        opp(2800, 9000, 3600, 1150, 30)
    } else if k == 6 {
        opp(3200, 13000, 4200, 1200, 30)
    } else {
        opp(3600, 18000, 4800, 1250, 30)
    }
}

/// A domain built from `points` (`n` of them, capacities increasing from `min_cap` to
/// `max_cap`) with the given identity, CPUs and coefficients, finalised.
pub open spec fn synthetic_pd(
    r: PerformanceDomain,
    id: u32,
    cpus: Set<int>,
    dynamic: u32,
    leakage: u32,
    resistance: u32,
    capacitance: u32,
    n: int,
    min_cap: u32,
    max_cap: u32,
) -> bool {
    &&& r.wf()
    &&& r.id == id
    &&& r.cpus@ == cpus
    &&& r.dynamic_coefficient == dynamic
    &&& r.leakage_coefficient == leakage
    &&& r.thermal_resistance == resistance
    &&& r.thermal_capacitance == capacitance
    &&& r.nr_states == n
    &&& r.min_capacity == min_cap
    &&& r.max_capacity == max_cap
    &&& r.effective_capacity == max_cap
    &&& r.thermal_pressure == 0
    &&& r.active_state_idx == 0
    &&& r.current_temp_millideg == 25000
    &&& r.power_multiplier == 1024
    &&& r.ambient_temp_celsius == 25
    &&& r.max_temp_millideg == 105000
    &&& r.throttle_temp_millideg == 85000
    &&& forall|k: int| n <= k < MAX_OPP_COUNT ==> r.states@[k] == empty_state()
}


/// A finalised domain with the given identity, CPUs and coefficients over `points`,
/// which are valid and in strictly increasing order of capacity.
fn build_pd(
    id: u32,
    cpus: CpuMask,
    dynamic: u32,
    leakage: u32,
    resistance: u32,
    capacitance: u32,
    points: Vec<CapacityState>,
) -> (r: PerformanceDomain)
    requires
        cpus.wf(),
        1 <= points.len() <= MAX_OPP_COUNT,
        forall|k: int|
            0 <= k < points.len() ==> #[trigger] points@[k].frequency > 0 && points@[k].capacity > 0
                && points@[k].power > 0,
        forall|a: int, b: int| 0 <= a < b < points.len() ==> points@[a].capacity < points@[b].capacity,
    ensures
        synthetic_pd(
            r,
            id,
            cpus@,
            dynamic,
            leakage,
            resistance,
            capacitance,
            points.len() as int,
            points@[0].capacity,
            points@[points.len() - 1].capacity,
        ),
        forall|k: int|
            0 <= k < points.len() ==> r.states@[k] == costed(points@[k], points@[points.len() - 1].capacity),
{
    let mut pd = PerformanceDomain::empty();
    let ghost cpus_view = cpus@;
    pd.init(id, cpus);
    pd.dynamic_coefficient = dynamic;
    pd.leakage_coefficient = leakage;
    pd.thermal_resistance = resistance;
    pd.thermal_capacitance = capacitance;
    let n = points.len();
    let mut i: usize = 0;
    while i < n
        invariant
            n == points.len(),
            1 <= n <= MAX_OPP_COUNT,
            forall|k: int|
                0 <= k < points.len() ==> #[trigger] points@[k].frequency > 0 && points@[k].capacity > 0
                    && points@[k].power > 0,
            forall|a: int, b: int| 0 <= a < b < points.len() ==> points@[a].capacity < points@[b].capacity,
            i <= n,
            pd.wf(),
            pd.id == id,
            pd.cpus@ == cpus_view,
            pd.dynamic_coefficient == dynamic,
            pd.leakage_coefficient == leakage,
            pd.thermal_resistance == resistance,
            pd.thermal_capacitance == capacitance,
            pd.nr_states == i,
            i == 0 ==> pd.max_capacity == 0 && pd.min_capacity == u32::MAX,
            i > 0 ==> pd.max_capacity == points@[i - 1].capacity && pd.min_capacity == points@[0].capacity,
            pd.effective_capacity == 0,
            pd.thermal_pressure == 0,
            pd.active_state_idx == 0,
            pd.current_temp_millideg == 25000,
            pd.power_multiplier == 1024,
            pd.ambient_temp_celsius == 25,
            pd.max_temp_millideg == 105000,
            pd.throttle_temp_millideg == 85000,
            forall|k: int| 0 <= k < i ==> pd.states@[k] == points@[k],
            forall|k: int| i <= k < MAX_OPP_COUNT ==> pd.states@[k] == empty_state(),
        decreases n - i,
    {
        let ok = pd.add_state(points[i]);
        assert(ok);
        i = i + 1;
    }
    assert(pd.capacities_bounded()) by {
        assert forall|k: int| 0 <= k < pd.nr_states implies #[trigger] pd.states@[k].capacity <= pd.max_capacity by {
            if k < n - 1 {
                assert(points@[k].capacity < points@[n - 1].capacity);
            }
        }
    }
    assert(sorted_by_capacity(pd.states@, pd.nr_states as int)) by {
        assert forall|a: int, b: int| 0 <= a < b < pd.nr_states implies pd.states@[a].capacity <= pd.states@[b].capacity by {
            assert(points@[a].capacity < points@[b].capacity);
        }
    }
    pd.finalize();
    pd
}

/// The synthetic little domain: seven points from 150 to 870 capacity.
pub fn em_build_synthetic_little_pd(cpus: CpuMask) -> (r: PerformanceDomain)
    requires
        cpus.wf(),
    ensures
        synthetic_pd(r, 0, cpus@, 200, 50, 15, 120, 7, little_opp(0).capacity, little_opp(6).capacity),
        forall|k: int| 0 <= k < 7 ==> r.states@[k] == costed(little_opp(k), little_opp(6).capacity),
{
    let points: Vec<CapacityState> = vec![
        CapacityState::new(500, 100, 150, 800, 10),
        CapacityState::new(700, 150, 250, 850, 10),
        CapacityState::new(1000, 250, 382, 900, 10),
        CapacityState::new(1200, 350, 480, 950, 10),
        CapacityState::new(1500, 500, 600, 1000, 10),
        CapacityState::new(1800, 700, 750, 1050, 10),
        CapacityState::new(2000, 900, 870, 1100, 10),
    ];
    assert(forall|k: int| 0 <= k < 7 ==> points@[k] == little_opp(k));
    build_pd(0, cpus, 200, 50, 15, 120, points)
}

/// The synthetic big domain: eight points from 400 to 2400 capacity.
pub fn em_build_synthetic_big_pd(cpus: CpuMask) -> (r: PerformanceDomain)
    requires
        cpus.wf(),
    ensures
        synthetic_pd(r, 1, cpus@, 800, 200, 8, 80, 8, big_opp(0).capacity, big_opp(7).capacity),
        forall|k: int| 0 <= k < 8 ==> r.states@[k] == costed(big_opp(k), big_opp(7).capacity),
{
    let points: Vec<CapacityState> = vec![
        CapacityState::new(600, 300, 400, 850, 20),
        CapacityState::new(900, 500, 650, 900, 20),
        CapacityState::new(1200, 800, 900, 950, 20),
        CapacityState::new(1500, 1200, 1100, 1000, 20),
        CapacityState::new(1800, 1800, 1400, 1050, 20),
        CapacityState::new(2100, 2500, 1700, 1100, 20),
        CapacityState::new(2400, 3500, 2000, 1150, 20),
        CapacityState::new(2800, 5000, 2400, 1200, 20),
    ];
    assert(forall|k: int| 0 <= k < 8 ==> points@[k] == big_opp(k));
    build_pd(1, cpus, 800, 200, 8, 80, points)
}

/// The synthetic huge domain: eight points from 800 to 4800 capacity.
pub fn em_build_synthetic_huge_pd(cpus: CpuMask) -> (r: PerformanceDomain)
    requires
        cpus.wf(),
    ensures
        synthetic_pd(r, 2, cpus@, 1500, 400, 5, 50, 8, huge_opp(0).capacity, huge_opp(7).capacity),
        forall|k: int| 0 <= k < 8 ==> r.states@[k] == costed(huge_opp(k), huge_opp(7).capacity),
{
    let points: Vec<CapacityState> = vec![
        CapacityState::new(800, 800, 800, 900, 30),
        CapacityState::new(1200, 1500, 1300, 950, 30),
        CapacityState::new(1600, 2500, 1800, 1000, 30),
        CapacityState::new(2000, 4000, 2400, 1050, 30),
        CapacityState::new(2400, 6000, 3000, 1100, 30),
        CapacityState::new(2800, 9000, 3600, 1150, 30),
        CapacityState::new(3200, 13000, 4200, 1200, 30),
        CapacityState::new(3600, 18000, 4800, 1250, 30),
    ];
    assert(forall|k: int| 0 <= k < 8 ==> points@[k] == huge_opp(k));
    build_pd(2, cpus, 1500, 400, 5, 50, points)
}

} // verus!
