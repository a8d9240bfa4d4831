use modbus_rtu::text::{
    binary_string, decimal_string, default_register_name, format_register_value, hex_string,
    DisplayStyle,
};

#[test]
fn decimal_text() {
    assert_eq!(decimal_string(0), "0");
    assert_eq!(decimal_string(7), "7");
    assert_eq!(decimal_string(10), "10");
    assert_eq!(decimal_string(65535), "65535");
    assert_eq!(decimal_string(u32::MAX), "4294967295");
}

#[test]
fn hex_text_is_padded_upper_case() {
    assert_eq!(hex_string(0), "0x0000");
    assert_eq!(hex_string(0x00AB), "0x00AB");
    assert_eq!(hex_string(0xBEEF), "0xBEEF");
    assert_eq!(hex_string(0xFFFF), "0xFFFF");
}

#[test]
fn binary_text_has_sixteen_digits() {
    assert_eq!(binary_string(0), "0000000000000000");
    assert_eq!(binary_string(5), "0000000000000101");
    assert_eq!(binary_string(0x8001), "1000000000000001");
    assert_eq!(binary_string(0xFFFF), "1111111111111111");
}

#[test]
fn formatted_text_reads_back() {
    for v in [0u16, 1, 9, 10, 255, 4096, 12345, 65535] {
        let dec = format_register_value(v, DisplayStyle::Decimal);
        assert_eq!(dec.parse::<u16>().unwrap(), v);
        let hex = format_register_value(v, DisplayStyle::Hexadecimal);
        assert_eq!(u16::from_str_radix(&hex[2..], 16).unwrap(), v);
        let bin = format_register_value(v, DisplayStyle::Binary);
        assert_eq!(u16::from_str_radix(&bin, 2).unwrap(), v);
    }
}

#[test]
fn formatting_follows_the_style() {
    assert_eq!(format_register_value(300, DisplayStyle::Decimal), "300");
    assert_eq!(format_register_value(300, DisplayStyle::Hexadecimal), "0x012C");
    assert_eq!(format_register_value(300, DisplayStyle::Binary), "0000000100101100");
    assert_eq!(DisplayStyle::default(), DisplayStyle::Decimal);
}

#[test]
fn default_names() {
    assert_eq!(default_register_name(0), "寄存器 0");
    assert_eq!(default_register_name(42), "寄存器 42");
    assert_eq!(default_register_name(65535), "寄存器 65535");
}
