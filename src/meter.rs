//! The simulated meter: its register and coil tables, the physical state they
//! are derived from, and how that state evolves over time.
use vstd::prelude::*;

verus! {

/// Number of 16-bit registers, addressed `0..REGISTER_COUNT`.
pub const REGISTER_COUNT: u16 = 200;

/// Number of coils, addressed `0..COIL_COUNT`.
pub const COIL_COUNT: u16 = 100;

/// Writing `true` to this coil zeroes the cumulative energy; its value is never stored.
pub const RESET_COIL: u16 = 10;

/// Minimum time between two effective physical updates.
pub const UPDATE_PERIOD_MS: u64 = 1000;

/// Energy is counted in tenth-watt milliseconds (1e-4 J); this many make 0.01 kWh.
pub const ENERGY_UNITS_PER_CENTI_KWH: u64 = 360_000_000;

/// 1234.56 kWh, that is 123456 hundredths of a kWh, in energy units.
pub const INITIAL_ENERGY: u64 = 44_444_160_000_000;

/// The kinds of meter that can be simulated.
#[derive(Debug, Clone, Copy, PartialEq, Eq, Structural)]
pub enum MeterType {
    Electric,
}

/// The tag that the meter-type register holds.
pub open spec fn meter_type_code(t: MeterType) -> u16 {
    match t {
        MeterType::Electric => 0,
    }
}

/// Names what str::to_lowercase returns for a string.
pub uninterp spec fn lower_of(s: Seq<char>) -> Seq<char>;

/// Relies on str::to_lowercase: the lowercase mapping of every character,
/// which depends on the characters alone.
#[verifier::external_body]
fn lowercase(s: &str) -> (r: String)
    ensures
        r@ == lower_of(s@),
{
    s.to_lowercase()
}

/// The message of the error for an unknown meter type name.
pub open spec fn unknown_type_message(s: Seq<char>) -> Seq<char> {
    "Unknown meter type: "@ + s
}

impl MeterType {
    /// The meter type named by an already lowercased name, if any.
    pub fn from_lowercase(lower: &str) -> (r: Option<MeterType>)
        ensures
            r == (if lower@ == "electric"@ { Some(MeterType::Electric) } else { None }),
    {
        let name = String::from_str(lower);
        let electric = String::from_str("electric");
        if name == electric {
            Some(MeterType::Electric)
        } else {
            None
        }
    }

    /// Parses a meter type name, ignoring case.
    pub fn from_str(s: &str) -> (r: Result<MeterType, String>)
        ensures
            match r {
                Ok(t) => lower_of(s@) == "electric"@ && t == MeterType::Electric,
                Err(e) => lower_of(s@) != "electric"@ && e@ == unknown_type_message(s@),
            },
    {
        let lower = lowercase(s);
        match MeterType::from_lowercase(lower.as_str()) {
            Some(t) => Ok(t),
            None => Err(String::from_str("Unknown meter type: ").concat(s)),
        }
    }

    pub fn code(&self) -> (r: u16)
        ensures
            r == meter_type_code(*self),
    {
        match self {
            MeterType::Electric => 0,
        }
    }
}

/// The hidden physical state of the meter, in fixed-point units.
#[derive(Debug, Clone, Copy, PartialEq, Eq, Structural)]
pub struct Readings {
    /// Cumulative energy, in tenth-watt milliseconds.
    pub energy: u64,
    /// Base power draw, in tenths of a watt.
    pub base_power_dw: u32,
    /// Phase voltages, in tenths of a volt.
    pub voltage_l1_dv: u16,
    pub voltage_l2_dv: u16,
    pub voltage_l3_dv: u16,
    /// Phase currents, in hundredths of an ampere.
    pub current_l1_ca: u64,
    pub current_l2_ca: u64,
    pub current_l3_ca: u64,
    /// Frequency, in hundredths of a hertz.
    pub frequency_chz: u16,
    /// Power factor, in thousandths.
    pub power_factor_milli: u16,
}

/// The physical state a meter starts with: 230 V, 15 A per phase, 50 Hz,
/// 5000 W base load, power factor 0.95 and 1234.56 kWh consumed.
pub open spec fn initial_readings() -> Readings {
    Readings {
        energy: INITIAL_ENERGY,
        base_power_dw: 50000,
        voltage_l1_dv: 2300,
        voltage_l2_dv: 2300,
        voltage_l3_dv: 2300,
        current_l1_ca: 1500,
        current_l2_ca: 1500,
        current_l3_ca: 1500,
        frequency_chz: 5000,
        power_factor_milli: 950,
    }
}

/// The coils a meter starts with: online, no alarms, communication OK.
pub open spec fn initial_coils() -> Seq<bool> {
    Seq::new(COIL_COUNT as nat, |i: int| i < 3)
}

/// Cumulative consumption in hundredths of a kWh, saturated to 32 bits.
pub open spec fn consumption_scaled(energy: u64) -> int {
    let c = energy as int / ENERGY_UNITS_PER_CENTI_KWH as int;
    if c > u32::MAX {
        u32::MAX as int
    } else {
        c
    }
}

pub open spec fn low_word(x: int) -> u16 {
    (x % 0x10000) as u16
}

pub open spec fn high_word(x: int) -> u16 {
    ((x / 0x10000) % 0x10000) as u16
}

pub open spec fn saturate16(x: int) -> u16 {
    if x > u16::MAX {
        u16::MAX
    } else {
        x as u16
    }
}

/// The register table after it is re-derived from `r`: the derived addresses
/// are overwritten, every other address keeps its value from `prev`.
pub open spec fn derive_registers(prev: Seq<u16>, r: Readings, online: bool, t: MeterType) -> Seq<u16> {
    prev.update(0, low_word(consumption_scaled(r.energy)))
        .update(1, high_word(consumption_scaled(r.energy)))
        .update(2, low_word(r.base_power_dw as int))
        .update(3, high_word(r.base_power_dw as int))
        .update(10, r.voltage_l1_dv)
        .update(11, r.voltage_l2_dv)
        .update(12, r.voltage_l3_dv)
        .update(13, saturate16(r.current_l1_ca as int))
        .update(14, saturate16(r.current_l2_ca as int))
        .update(15, saturate16(r.current_l3_ca as int))
        .update(16, r.frequency_chz)
        .update(17, r.power_factor_milli)
        .update(100, if online { 1u16 } else { 0u16 })
        .update(101, meter_type_code(t))
}

/// The value read at `address`: out-of-range addresses read as 0.
pub open spec fn register_at(regs: Seq<u16>, address: int) -> u16 {
    if 0 <= address < regs.len() {
        regs[address]
    } else {
        0
    }
}

/// The value read at `address`: out-of-range addresses read as false.
pub open spec fn coil_at(coils: Seq<bool>, address: int) -> bool {
    if 0 <= address < coils.len() {
        coils[address]
    } else {
        false
    }
}

/// The state after the reset coil fires: no energy consumed, all else kept.
pub open spec fn reset_energy(r: Readings) -> Readings {
    Readings { energy: 0, ..r }
}

/// The random perturbations of one physical update.
#[derive(Debug, Clone, Copy, PartialEq, Eq, Structural)]
pub struct Variation {
    /// Power variation, in thousandths of the base power.
    pub power_permille: i32,
    /// Voltage offsets from 230 V, in tenths of a volt.
    pub voltage_l1_dv: i32,
    pub voltage_l2_dv: i32,
    pub voltage_l3_dv: i32,
    /// Frequency offset from 50 Hz, in hundredths of a hertz.
    pub frequency_chz: i32,
    /// Power factor offset from 0.95, in thousandths.
    pub power_factor_milli: i32,
}

impl Variation {
    /// Each perturbation lies in its half-open range: power within ±10%,
    /// voltages within ±5 V, frequency within ±0.1 Hz, power factor within ±0.05.
    pub open spec fn wf(&self) -> bool {
        &&& -100 <= self.power_permille < 100
        &&& -50 <= self.voltage_l1_dv < 50
        &&& -50 <= self.voltage_l2_dv < 50
        &&& -50 <= self.voltage_l3_dv < 50
        &&& -10 <= self.frequency_chz < 10
        &&& -50 <= self.power_factor_milli < 50
    }
}

/// Instantaneous power, in tenths of a watt: the base power varied by `v`.
pub open spec fn drawn_power(r: Readings, v: Variation) -> int {
    r.base_power_dw * (1000 + v.power_permille) / 1000
}

/// Energy after drawing `power` (tenths of a watt) for `elapsed` milliseconds,
/// saturated to 64 bits.
pub open spec fn accumulate(energy: u64, power: int, elapsed: int) -> u64 {
    let e = energy + power * elapsed;
    if e > u64::MAX {
        u64::MAX
    } else {
        e as u64
    }
}

/// Balanced-load phase current in hundredths of an ampere,
/// `power / (3 * voltage * power_factor)` in the fixed-point units.
pub open spec fn phase_current(power_dw: int, voltage_dv: int, pf_milli: int) -> int {
    power_dw * 100000 / (3 * voltage_dv * pf_milli)
}

pub open spec fn clamp_power_factor(x: int) -> int {
    if x > 1000 {
        1000
    } else if x < 800 {
        800
    } else {
        x
    }
}

/// The physical state after an update `elapsed` milliseconds after the last
/// one, with perturbations `v`. Currents use the power factor from before.
pub open spec fn advanced_readings(r: Readings, elapsed: int, v: Variation) -> Readings {
    let power = drawn_power(r, v);
    let v1 = 2300 + v.voltage_l1_dv;
    let v2 = 2300 + v.voltage_l2_dv;
    let v3 = 2300 + v.voltage_l3_dv;
    Readings {
        energy: accumulate(r.energy, power, elapsed),
        base_power_dw: r.base_power_dw,
        voltage_l1_dv: v1 as u16,
        voltage_l2_dv: v2 as u16,
        voltage_l3_dv: v3 as u16,
        current_l1_ca: phase_current(power, v1, r.power_factor_milli as int) as u64,
        current_l2_ca: phase_current(power, v2, r.power_factor_milli as int) as u64,
        current_l3_ca: phase_current(power, v3, r.power_factor_milli as int) as u64,
        frequency_chz: (5000 + v.frequency_chz) as u16,
        power_factor_milli: clamp_power_factor(950 + v.power_factor_milli) as u16,
    }
}

proof fn lemma_current_divisor(voltage_dv: int, pf_milli: int)
    requires
        2250 <= voltage_dv <= 2350,
        800 <= pf_milli <= 1000,
    ensures
        0 < 3 * voltage_dv * pf_milli <= 3 * 2350 * 1000,
{
    assert(0 < 3 * voltage_dv * pf_milli <= 3 * 2350 * 1000) by (nonlinear_arith)
        requires
            2250 <= voltage_dv <= 2350,
            800 <= pf_milli <= 1000,
    ;
}

/// Relies on rand::Rng::gen_range on rand::thread_rng(): a value of the
/// half-open range `lo..hi`, which must not be empty.
#[verifier::external_body]
fn draw_in_range(lo: i32, hi: i32) -> (r: i32)
    requires
        lo < hi,
    ensures
        lo <= r < hi,
{
    rand::Rng::gen_range(&mut rand::thread_rng(), lo..hi)
}

/// What an update at `now_ms` with perturbations `v` does: an effective
/// update when one is due, nothing otherwise.
pub open spec fn update_outcome(before: Meter, after: Meter, now_ms: u64, v: Variation) -> bool {
    if before.update_due(now_ms) {
        before.advanced_by(after, now_ms, v)
    } else {
        after == before
    }
}

/// `after` is `before` once `value` is written to coil `address`. Out-of-range
/// addresses change nothing. The reset coil stores nothing: writing `true` to
/// it zeroes the cumulative energy (the registers keep their values until the
/// next update), writing `false` has no effect. Any other coil stores the value.
pub open spec fn coil_written(before: Meter, after: Meter, address: u16, value: bool) -> bool {
    &&& after.coils@ == (if address < COIL_COUNT && address != RESET_COIL {
        before.coils@.update(address as int, value)
    } else {
        before.coils@
    })
    &&& after.readings == (if address == RESET_COIL && value {
        reset_energy(before.readings)
    } else {
        before.readings
    })
    &&& after.registers@ == before.registers@
    &&& after.meter_type == before.meter_type
    &&& after.last_update_ms == before.last_update_ms
}

/// `after` is `before` once `value` is written verbatim to register `address`;
/// out-of-range addresses change nothing, and nothing is re-derived.
pub open spec fn register_written(before: Meter, after: Meter, address: u16, value: u16) -> bool {
    &&& after.registers@ == (if address < REGISTER_COUNT {
        before.registers@.update(address as int, value)
    } else {
        before.registers@
    })
    &&& after.coils@ == before.coils@
    &&& after.readings == before.readings
    &&& after.meter_type == before.meter_type
    &&& after.last_update_ms == before.last_update_ms
}

/// One simulated meter: its register and coil tables and its physical state.
pub struct Meter {
    pub meter_type: MeterType,
    pub registers: [u16; 200],
    pub coils: [bool; 100],
    /// Time of the last effective update, in milliseconds since construction.
    pub last_update_ms: u64,
    /// The physical state the derived registers come from.
    pub readings: Readings,
}

impl Meter {
    /// At least one update period has passed since the last effective update.
    pub open spec fn update_due(&self, now_ms: u64) -> bool {
        now_ms - self.last_update_ms >= UPDATE_PERIOD_MS
    }

    /// `next` is this meter after an effective update at `now_ms` with
    /// perturbations `v`: new physical state, registers re-derived from it.
    pub open spec fn advanced_by(self, next: Self, now_ms: u64, v: Variation) -> bool {
        &&& next.meter_type == self.meter_type
        &&& next.coils@ == self.coils@
        &&& next.last_update_ms == now_ms
        &&& next.readings == advanced_readings(
            self.readings,
            now_ms - self.last_update_ms,
            v,
        )
        &&& next.registers@ == derive_registers(
            self.registers@,
            next.readings,
            self.coils@[0],
            self.meter_type,
        )
    }

    /// The power factor stays within [0.80, 1.00].
    pub open spec fn wf(&self) -> bool {
        800 <= self.readings.power_factor_milli <= 1000
    }

    /// A meter of the given type with the initial physical state, its coils
    /// set to online / no alarms / communication OK, and its registers derived.
    pub fn new(meter_type: MeterType) -> (r: Self)
        ensures
            r.wf(),
            r.meter_type == meter_type,
            r.readings == initial_readings(),
            r.last_update_ms == 0,
            r.coils@ == initial_coils(),
            r.registers@ == derive_registers(
                Seq::new(REGISTER_COUNT as nat, |i: int| 0u16),
                initial_readings(),
                true,
                meter_type,
            ),
    {
        let mut meter = Meter {
            meter_type,
            registers: [0u16; 200],
            coils: [false; 100],
            last_update_ms: 0,
            readings: Readings {
                energy: INITIAL_ENERGY,
                base_power_dw: 50000,
                voltage_l1_dv: 2300,
                voltage_l2_dv: 2300,
                voltage_l3_dv: 2300,
                current_l1_ca: 1500,
                current_l2_ca: 1500,
                current_l3_ca: 1500,
                frequency_chz: 5000,
                power_factor_milli: 950,
            },
        };
        assert(meter.registers@ =~= Seq::new(REGISTER_COUNT as nat, |i: int| 0u16));
        meter.initialize_coils();
        meter.update_registers();
        meter
    }

    fn initialize_coils(&mut self)
        requires
            forall|i: int| 0 <= i < COIL_COUNT ==> !old(self).coils@[i],
        ensures
            final(self).coils@ == initial_coils(),
            final(self).registers@ == old(self).registers@,
            final(self).meter_type == old(self).meter_type,
            final(self).readings == old(self).readings,
            final(self).last_update_ms == old(self).last_update_ms,
    {
        self.coils[0] = true;
        self.coils[1] = true;
        self.coils[2] = true;
        assert(self.coils@ =~= initial_coils());
    }

    /// Reads a register; out-of-range addresses read as 0.
    pub fn get_register_value(&self, address: u16) -> (r: u16)
        ensures
            r == register_at(self.registers@, address as int),
    {
        if address < REGISTER_COUNT {
            self.registers[address as usize]
        } else {
            0
        }
    }

    /// Reads a coil; out-of-range addresses read as false.
    pub fn get_coil_value(&self, address: u16) -> (r: bool)
        ensures
            r == coil_at(self.coils@, address as int),
    {
        if address < COIL_COUNT {
            self.coils[address as usize]
        } else {
            false
        }
    }

    /// Writes a coil as `coil_written` describes; fails on an out-of-range address.
    pub fn set_coil_value(&mut self, address: u16, value: bool) -> (r: bool)
        ensures
            r == (address < COIL_COUNT),
            coil_written(*old(self), *final(self), address, value),
    {
        if address < COIL_COUNT {
            if address == RESET_COIL {
                if value {
                    self.readings.energy = 0;
                }
            } else {
                self.coils[address as usize] = value;
            }
            true
        } else {
            false
        }
    }

    /// Writes a register verbatim; fails on an out-of-range address.
    pub fn set_register_value(&mut self, address: u16, value: u16) -> (r: bool)
        ensures
            r == (address < REGISTER_COUNT),
            register_written(*old(self), *final(self), address, value),
    {
        if address < REGISTER_COUNT {
            self.registers[address as usize] = value;
            true
        } else {
            false
        }
    }

    pub fn is_update_due(&self, now_ms: u64) -> (r: bool)
        ensures
            r == self.update_due(now_ms),
    {
        now_ms >= self.last_update_ms && now_ms - self.last_update_ms >= UPDATE_PERIOD_MS
    }

    /// Advances the physical state with perturbations `v` if an update is due
    /// at `now_ms`; otherwise does nothing.
    pub fn update_with(&mut self, now_ms: u64, v: Variation)
        requires
            old(self).wf(),
            v.wf(),
        ensures
            final(self).wf(),
            update_outcome(*old(self), *final(self), now_ms, v),
    {
        if self.is_update_due(now_ms) {
            let elapsed = now_ms - self.last_update_ms;
            self.update_readings(elapsed, v);
            self.update_registers();
            self.last_update_ms = now_ms;
        }
    }

    /// Advances the physical state with freshly drawn perturbations if an
    /// update is due at `now_ms` (milliseconds since construction); otherwise
    /// does nothing.
    pub fn update(&mut self, now_ms: u64)
        requires
            old(self).wf(),
        ensures
            final(self).wf(),
            !old(self).update_due(now_ms) ==> *final(self) == *old(self),
            old(self).update_due(now_ms) ==> exists|v: Variation|
                v.wf() && #[trigger] old(self).advanced_by(*final(self), now_ms, v),
    {
        if self.is_update_due(now_ms) {
            let v = Variation {
                power_permille: draw_in_range(-100, 100),
                voltage_l1_dv: draw_in_range(-50, 50),
                voltage_l2_dv: draw_in_range(-50, 50),
                voltage_l3_dv: draw_in_range(-50, 50),
                frequency_chz: draw_in_range(-10, 10),
                power_factor_milli: draw_in_range(-50, 50),
            };
            let ghost before = *self;
            self.update_with(now_ms, v);
            assert(before.advanced_by(*self, now_ms, v));
        }
    }

    fn update_readings(&mut self, elapsed: u64, v: Variation)
        requires
            old(self).wf(),
            v.wf(),
        ensures
            final(self).readings == advanced_readings(old(self).readings, elapsed as int, v),
            final(self).registers@ == old(self).registers@,
            final(self).coils@ == old(self).coils@,
            final(self).meter_type == old(self).meter_type,
            final(self).last_update_ms == old(self).last_update_ms,
    {
        let r = self.readings;
        let factor: u64 = (1000 + v.power_permille) as u64;
        assert(r.base_power_dw * factor <= 0xFFFF_FFFF * 1100) by (nonlinear_arith)
            requires
                r.base_power_dw <= 0xFFFF_FFFF,
                factor <= 1100,
        ;
        let power: u64 = r.base_power_dw as u64 * factor / 1000;
        assert(power == drawn_power(r, v));
        assert(power <= 0x2_0000_0000);
        assert(power * elapsed < 0x2_0000_0000 * 0x1_0000_0000_0000_0000) by (nonlinear_arith)
            requires
                power <= 0x2_0000_0000,
                elapsed < 0x1_0000_0000_0000_0000,
        ;
        let total: u128 = r.energy as u128 + power as u128 * elapsed as u128;
        let energy: u64 = if total > u64::MAX as u128 { u64::MAX } else { total as u64 };

        let v1: u16 = (2300 + v.voltage_l1_dv) as u16;
        let v2: u16 = (2300 + v.voltage_l2_dv) as u16;
        let v3: u16 = (2300 + v.voltage_l3_dv) as u16;
        let pf: u64 = r.power_factor_milli as u64;
        let numerator: u64 = power * 100000;
        proof {
            lemma_current_divisor(v1 as int, pf as int);
            lemma_current_divisor(v2 as int, pf as int);
            lemma_current_divisor(v3 as int, pf as int);
        }
        let c1 = numerator / (3 * v1 as u64 * pf);
        let c2 = numerator / (3 * v2 as u64 * pf);
        let c3 = numerator / (3 * v3 as u64 * pf);

        let drawn_pf: i32 = 950 + v.power_factor_milli;
        let new_pf: u16 = if drawn_pf > 1000 {
            1000
        } else if drawn_pf < 800 {
            800
        } else {
            drawn_pf as u16
        };
        self.readings = Readings {
            energy,
            base_power_dw: r.base_power_dw,
            voltage_l1_dv: v1,
            voltage_l2_dv: v2,
            voltage_l3_dv: v3,
            current_l1_ca: c1,
            current_l2_ca: c2,
            current_l3_ca: c3,
            frequency_chz: (5000 + v.frequency_chz) as u16,
            power_factor_milli: new_pf,
        };
    }

    fn update_registers(&mut self)
        ensures
            final(self).registers@ == derive_registers(
                old(self).registers@,
                old(self).readings,
                old(self).coils@[0],
                old(self).meter_type,
            ),
            final(self).coils@ == old(self).coils@,
            final(self).meter_type == old(self).meter_type,
            final(self).readings == old(self).readings,
            final(self).last_update_ms == old(self).last_update_ms,
    {
        let r = self.readings;
        let c: u64 = r.energy / ENERGY_UNITS_PER_CENTI_KWH;
        let consumption: u32 = if c > u32::MAX as u64 { u32::MAX } else { c as u32 };
        self.registers[0] = (consumption % 0x10000) as u16;
        self.registers[1] = ((consumption / 0x10000) % 0x10000) as u16;
        let power: u32 = r.base_power_dw;
        self.registers[2] = (power % 0x10000) as u16;
        self.registers[3] = ((power / 0x10000) % 0x10000) as u16;
        self.registers[10] = r.voltage_l1_dv;
        self.registers[11] = r.voltage_l2_dv;
        self.registers[12] = r.voltage_l3_dv;
        self.registers[13] = if r.current_l1_ca > 0xFFFF { 0xFFFF } else { r.current_l1_ca as u16 };
        self.registers[14] = if r.current_l2_ca > 0xFFFF { 0xFFFF } else { r.current_l2_ca as u16 };
        self.registers[15] = if r.current_l3_ca > 0xFFFF { 0xFFFF } else { r.current_l3_ca as u16 };
        self.registers[16] = r.frequency_chz;
        self.registers[17] = r.power_factor_milli;
        let online: u16 = if self.coils[0] { 1 } else { 0 };
        self.registers[100] = online;
        let code = self.meter_type.code();
        self.registers[101] = code;
    }
}

/// A register written in range reads back as the value written.
pub proof fn lemma_register_read_after_write(before: Meter, after: Meter, address: u16, value: u16)
    requires
        address < REGISTER_COUNT,
        register_written(before, after, address, value),
    ensures
        register_at(after.registers@, address as int) == value,
{
}

/// A coil written in range reads back as the value written, except the reset
/// coil, which reads back as it was before the write.
pub proof fn lemma_coil_read_after_write(before: Meter, after: Meter, address: u16, value: bool)
    requires
        address < COIL_COUNT,
        coil_written(before, after, address, value),
    ensures
        address != RESET_COIL ==> coil_at(after.coils@, address as int) == value,
        address == RESET_COIL ==> coil_at(after.coils@, address as int) == coil_at(
            before.coils@,
            address as int,
        ),
{
}

/// Out of range, a register reads as 0 and a write to it leaves every register,
/// coil and reading as it was.
pub proof fn lemma_register_out_of_range(before: Meter, after: Meter, address: u16, value: u16)
    requires
        address >= REGISTER_COUNT,
        register_written(before, after, address, value),
    ensures
        register_at(before.registers@, address as int) == 0,
        after.registers@ == before.registers@,
        after.coils@ == before.coils@,
        after.readings == before.readings,
{
}

/// Out of range, a coil reads as false and a write to it leaves every register,
/// coil and reading as it was.
pub proof fn lemma_coil_out_of_range(before: Meter, after: Meter, address: u16, value: bool)
    requires
        address >= COIL_COUNT,
        coil_written(before, after, address, value),
    ensures
        !coil_at(before.coils@, address as int),
        after.registers@ == before.registers@,
        after.coils@ == before.coils@,
        after.readings == before.readings,
{
}

/// Once an update has taken effect at `t1`, a second update before one more
/// period has passed does nothing.
pub proof fn lemma_update_within_period_is_noop(
    m0: Meter,
    m1: Meter,
    m2: Meter,
    t1: u64,
    t2: u64,
    v1: Variation,
    v2: Variation,
)
    requires
        m0.update_due(t1),
        update_outcome(m0, m1, t1, v1),
        update_outcome(m1, m2, t2, v2),
        t2 < t1 + UPDATE_PERIOD_MS,
    ensures
        m2 == m1,
{
}

/// An effective update replaces the voltage, frequency and power factor
/// readings with the drawn ones, and recomputes the currents from them: the
/// readings change unless the draws repeat the previous values.
pub proof fn lemma_update_takes_drawn_readings(before: Meter, after: Meter, now_ms: u64, v: Variation)
    requires
        before.wf(),
        v.wf(),
        before.update_due(now_ms),
        update_outcome(before, after, now_ms, v),
    ensures
        after.last_update_ms == now_ms,
        after.readings.voltage_l1_dv == 2300 + v.voltage_l1_dv,
        after.readings.voltage_l2_dv == 2300 + v.voltage_l2_dv,
        after.readings.voltage_l3_dv == 2300 + v.voltage_l3_dv,
        after.readings.current_l1_ca == phase_current(
            drawn_power(before.readings, v),
            2300 + v.voltage_l1_dv,
            before.readings.power_factor_milli as int,
        ),
        after.readings.frequency_chz == 5000 + v.frequency_chz,
        after.readings.power_factor_milli == 950 + v.power_factor_milli,
        after.readings.voltage_l1_dv != before.readings.voltage_l1_dv <==> 2300 + v.voltage_l1_dv
            != before.readings.voltage_l1_dv,
{
    let power = drawn_power(before.readings, v);
    let d = 3 * (2300 + v.voltage_l1_dv) * before.readings.power_factor_milli;
    lemma_current_divisor(2300 + v.voltage_l1_dv, before.readings.power_factor_milli as int);
    assert(power >= 0) by (nonlinear_arith)
        requires
            power == before.readings.base_power_dw * (1000 + v.power_permille) / 1000,
            before.readings.base_power_dw >= 0,
            1000 + v.power_permille >= 0,
    ;
    assert(0 <= power * 100000 / d <= power * 100000) by (nonlinear_arith)
        requires
            power >= 0,
            d >= 1,
    ;
    assert(power <= 0xFFFF_FFFF * 1100) by (nonlinear_arith)
        requires
            power == before.readings.base_power_dw * (1000 + v.power_permille) / 1000,
            before.readings.base_power_dw <= 0xFFFF_FFFF,
            1000 + v.power_permille <= 1100,
    ;
}

/// An update never decreases the cumulative energy.
pub proof fn lemma_update_never_decreases_energy(before: Meter, after: Meter, now_ms: u64, v: Variation)
    requires
        v.wf(),
        update_outcome(before, after, now_ms, v),
    ensures
        after.readings.energy >= before.readings.energy,
{
    if before.update_due(now_ms) {
        let power = drawn_power(before.readings, v);
        let elapsed = now_ms - before.last_update_ms;
        assert(power >= 0) by (nonlinear_arith)
            requires
                power == before.readings.base_power_dw * (1000 + v.power_permille) / 1000,
                before.readings.base_power_dw >= 0,
                1000 + v.power_permille >= 0,
        ;
        assert(power * elapsed >= 0) by (nonlinear_arith)
            requires
                power >= 0,
                elapsed >= 0,
        ;
    }
}

/// An update keeps the power factor within [0.80, 1.00].
pub proof fn lemma_update_keeps_power_factor(before: Meter, after: Meter, now_ms: u64, v: Variation)
    requires
        before.wf(),
        update_outcome(before, after, now_ms, v),
    ensures
        after.wf(),
{
}

/// Along any run of updates from a well-formed meter, the power factor stays
/// within [0.80, 1.00]: `ms[i + 1]` is `ms[i]` after an update at `times[i]`
/// with perturbations `vs[i]`.
pub proof fn lemma_power_factor_stays_in_range(ms: Seq<Meter>, times: Seq<u64>, vs: Seq<Variation>)
    requires
        ms.len() == times.len() + 1,
        vs.len() == times.len(),
        ms[0].wf(),
        forall|i: int|
            0 <= i < times.len() ==> #[trigger] update_outcome(ms[i], ms[i + 1], times[i], vs[i]),
    ensures
        forall|i: int|
            0 <= i < ms.len() ==> 800 <= #[trigger] ms[i].readings.power_factor_milli <= 1000,
    decreases times.len(),
{
    if times.len() > 0 {
        let n = times.len() - 1;
        let prefix = ms.drop_last();
        assert forall|i: int| 0 <= i < n implies #[trigger] update_outcome(
            prefix[i],
            prefix[i + 1],
            times.drop_last()[i],
            vs.drop_last()[i],
        ) by {
            assert(update_outcome(ms[i], ms[i + 1], times[i], vs[i]));
        }
        lemma_power_factor_stays_in_range(prefix, times.drop_last(), vs.drop_last());
        assert(prefix[n].wf());
        assert(update_outcome(ms[n], ms[n + 1], times[n], vs[n]));
        lemma_update_keeps_power_factor(ms[n], ms[n + 1], times[n], vs[n]);
        assert forall|i: int| 0 <= i < ms.len() implies 800
            <= #[trigger] ms[i].readings.power_factor_milli <= 1000 by {
            if i < ms.len() - 1 {
                assert(prefix[i] == ms[i]);
            }
        }
    }
}

} // verus!
