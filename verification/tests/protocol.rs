use modbus_rtu::crc::calculate_crc;
use modbus_rtu::frame::{
    parse_read_response, read_request, response_len, ModbusError, READ_HOLDING_REGISTERS,
    READ_INPUT_REGISTERS,
};

#[test]
fn crc_of_empty_input_is_initial_value() {
    assert_eq!(calculate_crc(&[]), 0xFFFF);
}

#[test]
fn crc_matches_known_frames() {
    assert_eq!(calculate_crc(&[0x01, 0x03, 0x00, 0x00, 0x00, 0x0A]), 0xCDC5);
    assert_eq!(calculate_crc(&[0x11, 0x03, 0x00, 0x6B, 0x00, 0x03]), 0x8776);
    assert_eq!(calculate_crc(&[0x01, 0x04, 0x00, 0x10, 0x00, 0x02]), 0x0E70);
}

#[test]
fn crc_of_frame_with_its_crc_is_zero() {
    let body = [0x11u8, 0x03, 0x00, 0x6B, 0x00, 0x03];
    let crc = calculate_crc(&body);
    let mut framed = body.to_vec();
    framed.push((crc & 0xFF) as u8);
    framed.push((crc >> 8) as u8);
    assert_eq!(calculate_crc(&framed), 0);
}

#[test]
fn holding_register_request_frame() {
    let frame = read_request(1, READ_HOLDING_REGISTERS, 0, 100);
    assert_eq!(frame, vec![0x01, 0x03, 0x00, 0x00, 0x00, 0x64, 0x44, 0x21]);
    assert_eq!(calculate_crc(&frame), 0);
}

#[test]
fn input_register_request_frame() {
    let frame = read_request(1, READ_INPUT_REGISTERS, 0x0010, 2);
    assert_eq!(frame, vec![0x01, 0x04, 0x00, 0x10, 0x00, 0x02, 0x70, 0x0E]);
}

#[test]
fn request_carries_address_and_count_big_endian() {
    let frame = read_request(0x11, READ_HOLDING_REGISTERS, 0x1234, 0xABCD);
    assert_eq!(&frame[..6], &[0x11, 0x03, 0x12, 0x34, 0xAB, 0xCD]);
    assert_eq!(frame.len(), 8);
    assert_eq!(calculate_crc(&frame), 0);
}

#[test]
fn response_length_counts_header_data_and_crc() {
    assert_eq!(response_len(0), 5);
    assert_eq!(response_len(1), 7);
    assert_eq!(response_len(100), 205);
    assert_eq!(response_len(0x7FFF), 5 + 0xFFFE);
}

#[test]
fn parse_decodes_big_endian_registers() {
    let response = [0x01, 0x03, 0x04, 0x12, 0x34, 0xAB, 0xCD, 0x00, 0x00];
    assert_eq!(
        parse_read_response(&response, 1, READ_HOLDING_REGISTERS, 2),
        Ok(vec![0x1234, 0xABCD])
    );
}

#[test]
fn parse_of_zero_registers_is_empty() {
    let response = [0x07, 0x04, 0x00, 0x00, 0x00];
    assert_eq!(parse_read_response(&response, 7, READ_INPUT_REGISTERS, 0), Ok(vec![]));
}

#[test]
fn parse_rejects_other_slave() {
    let response = [0x02, 0x03, 0x02, 0x00, 0x01, 0x00, 0x00];
    assert_eq!(
        parse_read_response(&response, 1, READ_HOLDING_REGISTERS, 1),
        Err(ModbusError::InvalidResponse)
    );
}

#[test]
fn parse_rejects_other_function() {
    let response = [0x01, 0x83, 0x02, 0x00, 0x01, 0x00, 0x00];
    assert_eq!(
        parse_read_response(&response, 1, READ_HOLDING_REGISTERS, 1),
        Err(ModbusError::InvalidResponse)
    );
    assert_eq!(ModbusError::InvalidResponse.message(), "Invalid response");
}

#[test]
fn parse_of_a_slave_reply_gives_back_its_values() {
    let values: Vec<u16> = vec![0, 1, 0x00FF, 0xFF00, 0xFFFF, 12345];
    let mut body = vec![0x05u8, 0x04, (values.len() * 2) as u8];
    for v in &values {
        body.push((v >> 8) as u8);
        body.push((v & 0xFF) as u8);
    }
    let crc = calculate_crc(&body);
    body.push((crc & 0xFF) as u8);
    body.push((crc >> 8) as u8);
    assert_eq!(body.len(), response_len(values.len() as u16));
    assert_eq!(
        parse_read_response(&body, 5, READ_INPUT_REGISTERS, values.len() as u16),
        Ok(values)
    );
}

#[test]
fn requests_for_other_addresses_differ_only_in_address_and_crc() {
    let f1 = read_request(3, READ_HOLDING_REGISTERS, 0x0000, 10);
    let f2 = read_request(3, READ_HOLDING_REGISTERS, 0x1F40, 10);
    for i in [0usize, 1, 4, 5] {
        assert_eq!(f1[i], f2[i]);
    }
    assert_ne!(&f1[2..4], &f2[2..4]);
    assert_ne!(&f1[6..8], &f2[6..8]);
}

#[test]
fn holding_and_input_replies_decode_alike() {
    let rx_input = [0x09u8, 0x04, 0x04, 0x00, 0x2A, 0x80, 0x01, 0xAA, 0xBB];
    let mut rx_holding = rx_input;
    rx_holding[1] = 0x03;
    let a = parse_read_response(&rx_input, 9, READ_INPUT_REGISTERS, 2);
    let b = parse_read_response(&rx_holding, 9, READ_HOLDING_REGISTERS, 2);
    assert_eq!(a, b);
    assert_eq!(a, Ok(vec![0x002A, 0x8001]));
    let r1 = read_request(9, READ_INPUT_REGISTERS, 5, 2);
    let r2 = read_request(9, READ_HOLDING_REGISTERS, 5, 2);
    for i in [0usize, 2, 3, 4, 5] {
        assert_eq!(r1[i], r2[i]);
    }
}
