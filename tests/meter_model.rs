use asset_simulator::meter::{Meter, MeterType, Variation, INITIAL_ENERGY, ENERGY_UNITS_PER_CENTI_KWH};

fn calm() -> Variation {
    Variation {
        power_permille: 0,
        voltage_l1_dv: 0,
        voltage_l2_dv: 0,
        voltage_l3_dv: 0,
        frequency_chz: 0,
        power_factor_milli: 0,
    }
}

#[test]
fn from_str_accepts_any_case() {
    assert_eq!(MeterType::from_str("electric"), Ok(MeterType::Electric));
    assert_eq!(MeterType::from_str("ELECTRIC"), Ok(MeterType::Electric));
    assert_eq!(MeterType::from_str("Electric"), Ok(MeterType::Electric));
}

#[test]
fn from_str_rejects_unknown_names() {
    assert_eq!(MeterType::from_str("Gas"), Err(String::from("Unknown meter type: Gas")));
    assert_eq!(MeterType::from_str(""), Err(String::from("Unknown meter type: ")));
}

#[test]
fn from_lowercase_needs_lowercase() {
    assert_eq!(MeterType::from_lowercase("electric"), Some(MeterType::Electric));
    assert_eq!(MeterType::from_lowercase("Electric"), None);
}

#[test]
fn new_meter_registers_and_coils() {
    let m = Meter::new(MeterType::Electric);
    // 1234.56 kWh as 123456, low word first
    assert_eq!(m.get_register_value(0), 57920);
    assert_eq!(m.get_register_value(1), 1);
    assert_eq!(m.get_register_value(0) as u32 + ((m.get_register_value(1) as u32) << 16), 123456);
    assert_eq!(m.get_register_value(2), 50000);
    assert_eq!(m.get_register_value(3), 0);
    for a in 10..13 {
        assert_eq!(m.get_register_value(a), 2300);
    }
    for a in 13..16 {
        assert_eq!(m.get_register_value(a), 1500);
    }
    assert_eq!(m.get_register_value(16), 5000);
    assert_eq!(m.get_register_value(17), 950);
    assert_eq!(m.get_register_value(100), 1);
    assert_eq!(m.get_register_value(101), 0);
    assert_eq!(m.get_register_value(4), 0);
    assert_eq!(m.get_register_value(199), 0);
    assert!(m.get_coil_value(0));
    assert!(m.get_coil_value(1));
    assert!(m.get_coil_value(2));
    assert!(!m.get_coil_value(3));
    assert_eq!(m.readings.energy, INITIAL_ENERGY);
    assert_eq!(m.readings.energy / ENERGY_UNITS_PER_CENTI_KWH, 123456);
}

#[test]
fn register_write_then_read() {
    let mut m = Meter::new(MeterType::Electric);
    for a in [0u16, 17, 50, 199] {
        assert!(m.set_register_value(a, 0xBEEF));
        assert_eq!(m.get_register_value(a), 0xBEEF);
    }
}

#[test]
fn coil_write_then_read() {
    let mut m = Meter::new(MeterType::Electric);
    for a in [0u16, 3, 50, 99] {
        assert!(m.set_coil_value(a, true));
        assert!(m.get_coil_value(a));
        assert!(m.set_coil_value(a, false));
        assert!(!m.get_coil_value(a));
    }
}

#[test]
fn reset_coil_zeroes_energy_but_is_not_stored() {
    let mut m = Meter::new(MeterType::Electric);
    assert!(m.set_coil_value(10, true));
    assert!(!m.get_coil_value(10));
    assert_eq!(m.readings.energy, 0);
    // registers keep their values until the next update
    assert_eq!(m.get_register_value(0), 57920);
    m.update_with(1000, calm());
    assert_eq!(m.get_register_value(0), 0);
    assert_eq!(m.get_register_value(1), 0);
}

#[test]
fn reset_coil_false_does_nothing() {
    let mut m = Meter::new(MeterType::Electric);
    assert!(m.set_coil_value(10, false));
    assert!(!m.get_coil_value(10));
    assert_eq!(m.readings.energy, INITIAL_ENERGY);
}

#[test]
fn out_of_range_access() {
    let mut m = Meter::new(MeterType::Electric);
    assert_eq!(m.get_register_value(200), 0);
    assert_eq!(m.get_register_value(u16::MAX), 0);
    assert!(!m.get_coil_value(100));
    assert!(!m.get_coil_value(u16::MAX));
    let registers = m.registers;
    let coils = m.coils;
    assert!(!m.set_register_value(200, 7));
    assert!(!m.set_coil_value(100, true));
    assert!(!m.set_coil_value(u16::MAX, true));
    assert_eq!(m.registers, registers);
    assert_eq!(m.coils, coils);
    assert_eq!(m.readings.energy, INITIAL_ENERGY);
}

#[test]
fn update_before_a_second_is_a_noop() {
    let mut m = Meter::new(MeterType::Electric);
    let before = m.readings;
    m.update_with(999, calm());
    assert_eq!(m.readings, before);
    assert_eq!(m.last_update_ms, 0);
    m.update(500);
    assert_eq!(m.readings, before);
}

#[test]
fn update_with_known_variation() {
    let mut m = Meter::new(MeterType::Electric);
    m.update_with(1000, calm());
    // 5000 W for one second is 5e7 tenth-watt milliseconds
    assert_eq!(m.readings.energy, INITIAL_ENERGY + 50_000_000);
    assert_eq!(m.readings.voltage_l1_dv, 2300);
    // 5000 W / (3 * 230 V * 0.95) = 7.627 A
    assert_eq!(m.readings.current_l1_ca, 762);
    assert_eq!(m.get_register_value(13), 762);
    assert_eq!(m.readings.frequency_chz, 5000);
    assert_eq!(m.readings.power_factor_milli, 950);
    assert_eq!(m.last_update_ms, 1000);
    let after_first = m.readings;
    // a second call within the same second does nothing
    m.update_with(1500, Variation { power_permille: 50, ..calm() });
    assert_eq!(m.readings, after_first);
    assert_eq!(m.last_update_ms, 1000);
}

#[test]
fn update_with_extreme_variation() {
    let mut m = Meter::new(MeterType::Electric);
    let v = Variation {
        power_permille: -100,
        voltage_l1_dv: -50,
        voltage_l2_dv: 49,
        voltage_l3_dv: 10,
        frequency_chz: -10,
        power_factor_milli: 49,
    };
    m.update_with(2000, v);
    // 4500 W for two seconds
    assert_eq!(m.readings.energy, INITIAL_ENERGY + 45000 * 2000);
    assert_eq!(m.get_register_value(10), 2250);
    assert_eq!(m.get_register_value(11), 2349);
    assert_eq!(m.get_register_value(12), 2310);
    // 45000 * 100000 / (3 * 2250 * 950)
    assert_eq!(m.readings.current_l1_ca, 701);
    assert_eq!(m.get_register_value(16), 4990);
    assert_eq!(m.get_register_value(17), 999);
}

#[test]
fn update_keeps_power_factor_in_range_and_energy_growing() {
    let mut m = Meter::new(MeterType::Electric);
    let mut energy = m.readings.energy;
    for k in 1..=50u64 {
        m.update(k * 1000);
        assert!(m.readings.power_factor_milli >= 800 && m.readings.power_factor_milli <= 1000);
        assert!(m.readings.energy >= energy);
        assert_eq!(m.last_update_ms, k * 1000);
        let v = m.readings.voltage_l1_dv;
        assert!((2250..2350).contains(&v));
        let f = m.readings.frequency_chz;
        assert!((4990..5010).contains(&f));
        energy = m.readings.energy;
    }
}

#[test]
fn status_register_follows_online_coil_on_update() {
    let mut m = Meter::new(MeterType::Electric);
    assert!(m.set_coil_value(0, false));
    assert_eq!(m.get_register_value(100), 1);
    m.update_with(1000, calm());
    assert_eq!(m.get_register_value(100), 0);
}
