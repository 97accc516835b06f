use asset_simulator::meter::{Meter, MeterType};
use asset_simulator::modbus::{
    connection_action, create_exception_response, is_write_request, process_modbus_request,
    process_read_request, ConnectionAction,
};

fn request(function_code: u8, a: u16, b: u16) -> Vec<u8> {
    let mut r = vec![0x12, 0x34, 0, 0, 0, 6, 0x07, function_code];
    r.extend_from_slice(&a.to_be_bytes());
    r.extend_from_slice(&b.to_be_bytes());
    r
}

fn exception(function_byte: u8, code: u8) -> Vec<u8> {
    vec![0x12, 0x34, 0, 0, 0, 3, 0x07, function_byte, code]
}

#[test]
fn read_holding_registers_round_trip() {
    let mut m = Meter::new(MeterType::Electric);
    let r = process_modbus_request(&request(0x03, 0, 2), &mut m).unwrap();
    assert_eq!(r, vec![0x12, 0x34, 0, 0, 0, 7, 0x07, 0x03, 4, 0xE2, 0x40, 0x00, 0x01]);
    let low = u16::from_be_bytes([r[9], r[10]]) as u32;
    let high = u16::from_be_bytes([r[11], r[12]]) as u32;
    assert_eq!(low + (high << 16), 123456);
}

#[test]
fn read_holding_registers_quantity_limits() {
    let mut m = Meter::new(MeterType::Electric);
    assert_eq!(process_modbus_request(&request(0x03, 0, 0), &mut m), Some(exception(0x83, 0x03)));
    assert_eq!(process_modbus_request(&request(0x03, 0, 126), &mut m), Some(exception(0x83, 0x03)));
    let r = process_modbus_request(&request(0x03, 0, 125), &mut m).unwrap();
    assert_eq!(r.len(), 9 + 250);
    assert_eq!(r[8], 250);
    assert_eq!(u16::from_be_bytes([r[4], r[5]]), 253);
}

#[test]
fn read_registers_past_the_table_read_zero() {
    let m = Meter::new(MeterType::Electric);
    let r = process_read_request(&request(0x03, 199, 3), &m).unwrap();
    assert_eq!(r, vec![0x12, 0x34, 0, 0, 0, 9, 0x07, 0x03, 6, 0, 0, 0, 0, 0, 0]);
    let r = process_read_request(&request(0x03, 0xFFFF, 2), &m).unwrap();
    assert_eq!(r, vec![0x12, 0x34, 0, 0, 0, 7, 0x07, 0x03, 4, 0, 0, 0, 0]);
}

#[test]
fn read_input_registers_answer_as_holding_registers() {
    let m = Meter::new(MeterType::Electric);
    let r = process_read_request(&request(0x04, 16, 2), &m).unwrap();
    assert_eq!(r, vec![0x12, 0x34, 0, 0, 0, 7, 0x07, 0x03, 4, 0x13, 0x88, 0x03, 0xB6]);
    assert_eq!(process_read_request(&request(0x04, 0, 0), &m), Some(exception(0x83, 0x03)));
}

#[test]
fn read_coils_quantity_limits() {
    let mut m = Meter::new(MeterType::Electric);
    assert_eq!(process_modbus_request(&request(0x01, 0, 2001), &mut m), Some(exception(0x81, 0x03)));
    assert_eq!(process_modbus_request(&request(0x01, 0, 0), &mut m), Some(exception(0x81, 0x03)));
    let r = process_modbus_request(&request(0x01, 0, 2000), &mut m).unwrap();
    assert_eq!(r[7], 0x01);
    assert_eq!(r[8], 250);
    assert_eq!(r.len(), 9 + 250);
    assert_eq!(r[9], 0b0000_0111);
    assert!(r[10..].iter().all(|b| *b == 0));
}

#[test]
fn read_coils_packs_bits_lsb_first() {
    let mut m = Meter::new(MeterType::Electric);
    assert!(m.set_coil_value(8, true));
    assert!(m.set_coil_value(9, true));
    assert!(m.set_coil_value(99, true));
    let r = process_read_request(&request(0x01, 0, 10), &m).unwrap();
    assert_eq!(r, vec![0x12, 0x34, 0, 0, 0, 5, 0x07, 0x01, 2, 0b0000_0111, 0b0000_0011]);
    let r = process_read_request(&request(0x02, 1, 9), &m).unwrap();
    assert_eq!(r, vec![0x12, 0x34, 0, 0, 0, 5, 0x07, 0x01, 2, 0b1000_0011, 0b0000_0001]);
    let r = process_read_request(&request(0x01, 98, 3), &m).unwrap();
    assert_eq!(r, vec![0x12, 0x34, 0, 0, 0, 4, 0x07, 0x01, 1, 0b0000_0010]);
}

#[test]
fn write_single_coil_rejects_other_values() {
    let mut m = Meter::new(MeterType::Electric);
    assert_eq!(process_modbus_request(&request(0x05, 3, 0x1234), &mut m), Some(exception(0x85, 0x03)));
    assert!(!m.get_coil_value(3));
}

#[test]
fn write_single_coil_echoes_and_stores() {
    let mut m = Meter::new(MeterType::Electric);
    let req = request(0x05, 3, 0xFF00);
    assert_eq!(process_modbus_request(&req, &mut m), Some(req.clone()));
    assert!(m.get_coil_value(3));
    let req = request(0x05, 0, 0x0000);
    assert_eq!(process_modbus_request(&req, &mut m), Some(req.clone()));
    assert!(!m.get_coil_value(0));
}

#[test]
fn write_single_coil_out_of_range() {
    let mut m = Meter::new(MeterType::Electric);
    assert_eq!(process_modbus_request(&request(0x05, 100, 0xFF00), &mut m), Some(exception(0x85, 0x02)));
}

#[test]
fn write_reset_coil_over_the_wire() {
    let mut m = Meter::new(MeterType::Electric);
    let req = request(0x05, 10, 0xFF00);
    assert_eq!(process_modbus_request(&req, &mut m), Some(req.clone()));
    assert_eq!(m.readings.energy, 0);
    assert!(!m.get_coil_value(10));
}

#[test]
fn write_single_register_echoes_and_stores() {
    let mut m = Meter::new(MeterType::Electric);
    let req = request(0x06, 42, 0xABCD);
    assert_eq!(process_modbus_request(&req, &mut m), Some(req.clone()));
    assert_eq!(m.get_register_value(42), 0xABCD);
    let r = process_modbus_request(&request(0x03, 42, 1), &mut m).unwrap();
    assert_eq!(&r[8..], &[2, 0xAB, 0xCD]);
}

#[test]
fn write_single_register_out_of_range() {
    let mut m = Meter::new(MeterType::Electric);
    assert_eq!(process_modbus_request(&request(0x06, 200, 1), &mut m), Some(exception(0x86, 0x02)));
}

#[test]
fn short_frames_get_illegal_data_value() {
    let mut m = Meter::new(MeterType::Electric);
    for (fc, reply) in [(0x01u8, 0x81u8), (0x02, 0x81), (0x03, 0x83), (0x04, 0x83), (0x05, 0x85), (0x06, 0x86)] {
        let req = vec![0x12, 0x34, 0, 0, 0, 2, 0x07, fc, 0, 0];
        assert_eq!(process_modbus_request(&req, &mut m), Some(exception(reply, 0x03)));
    }
}

#[test]
fn nonzero_protocol_id_gets_no_reply() {
    let mut m = Meter::new(MeterType::Electric);
    let mut req = request(0x03, 0, 2);
    req[3] = 1;
    assert_eq!(process_modbus_request(&req, &mut m), None);
    let mut req = request(0x06, 0, 2);
    req[2] = 1;
    assert_eq!(process_modbus_request(&req, &mut m), None);
    assert_eq!(m.get_register_value(0), 57920);
}

#[test]
fn frames_under_eight_bytes_get_no_reply() {
    let mut m = Meter::new(MeterType::Electric);
    assert_eq!(process_modbus_request(&[0x12, 0x34, 0, 0, 0, 6, 7], &mut m), None);
    assert_eq!(process_modbus_request(&[], &mut m), None);
}

#[test]
fn unknown_function_code_is_illegal_function() {
    let mut m = Meter::new(MeterType::Electric);
    assert_eq!(process_modbus_request(&request(0x99, 0, 1), &mut m), Some(exception(0x99, 0x01)));
    assert_eq!(process_modbus_request(&request(0x10, 0, 1), &mut m), Some(exception(0x90, 0x01)));
}

#[test]
fn exception_response_layout() {
    assert_eq!(
        create_exception_response(0xABCD, 9, 0x03, 0x02),
        Some(vec![0xAB, 0xCD, 0, 0, 0, 3, 9, 0x83, 0x02])
    );
}

#[test]
fn write_requests_are_recognised() {
    assert!(is_write_request(&request(0x05, 0, 0)));
    assert!(is_write_request(&request(0x06, 0, 0)));
    assert!(!is_write_request(&request(0x03, 0, 1)));
    let mut req = request(0x06, 0, 0);
    req[2] = 1;
    assert!(!is_write_request(&req));
    assert!(!is_write_request(&[0, 0, 0]));
}

#[test]
fn connection_actions() {
    assert_eq!(connection_action(0), ConnectionAction::Close);
    assert_eq!(connection_action(7), ConnectionAction::Discard);
    assert_eq!(connection_action(8), ConnectionAction::Serve);
    assert_eq!(connection_action(260), ConnectionAction::Serve);
}
