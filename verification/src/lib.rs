//! Modbus RTU master: frame building, CRC-16 and response decoding for the
//! "read holding registers" (0x03) and "read input registers" (0x04)
//! requests, plus the state model of the register-monitor front end.

pub mod crc;
pub mod frame;
pub mod text;
pub mod monitor;
