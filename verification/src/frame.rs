//! Request frames and response decoding for the two register-read
//! functions of Modbus RTU.

use vstd::prelude::*;
use crate::crc::{calculate_crc, crc16, lemma_crc_of_framed_is_zero, with_crc};

verus! {

/// Function code of "read holding registers".
pub const READ_HOLDING_REGISTERS: u8 = 0x03;

/// Function code of "read input registers".
pub const READ_INPUT_REGISTERS: u8 = 0x04;

/// Why a reply was not accepted.
#[derive(Debug, Clone, Copy, PartialEq, Eq)]
pub enum ModbusError {
    /// The reply names another slave or another function than the request.
    InvalidResponse,
}

impl ModbusError {
    /// The message the error is reported with.
    pub fn message(&self) -> (m: &'static str)
        ensures
            m@ == "Invalid response"@,
    {
        proof {
            reveal_strlit("Invalid response");
        }
        match self {
            ModbusError::InvalidResponse => "Invalid response",
        }
    }
}

/// High byte of a 16-bit word.
pub open spec fn hi_byte(w: u16) -> u8 {
    (w >> 8) as u8
}

/// Low byte of a 16-bit word.
pub open spec fn lo_byte(w: u16) -> u8 {
    (w & 0xFF) as u8
}

/// The 16-bit word sent as `hi` then `lo` (big-endian).
pub open spec fn be_word(hi: u8, lo: u8) -> u16 {
    ((hi as u16) << 8) | (lo as u16)
}

/// A word sent big-endian is read back unchanged.
pub proof fn lemma_be_word_roundtrip(w: u16)
    ensures
        be_word(hi_byte(w), lo_byte(w)) == w,
{
    assert((((((w >> 8) as u8) as u16) << 8) | (((w & 0xFF) as u8) as u16)) == w) by (bit_vector);
}

/// A big-endian word is its high byte times 256 plus its low byte.
pub proof fn lemma_be_word_value(hi: u8, lo: u8)
    ensures
        be_word(hi, lo) as int == hi as int * 256 + lo as int,
{
    assert((((hi as u16) << 8) | (lo as u16)) as int == hi as int * 256 + lo as int) by (bit_vector);
}

/// The six bytes of a read request before its CRC: slave, function,
/// first register address and register count, both big-endian.
pub open spec fn read_request_body(slave_id: u8, function: u8, address: u16, count: u16) -> Seq<u8> {
    seq![slave_id, function, hi_byte(address), lo_byte(address), hi_byte(count), lo_byte(count)]
}

/// The whole read request: its body followed by the body's CRC.
pub open spec fn read_request_frame(slave_id: u8, function: u8, address: u16, count: u16) -> Seq<u8> {
    with_crc(read_request_body(slave_id, function, address, count))
}

/// Builds the request that reads `count` registers from `address` of
/// slave `slave_id` with function `function`.
pub fn read_request(slave_id: u8, function: u8, address: u16, count: u16) -> (frame: Vec<u8>)
    ensures
        frame@ == read_request_frame(slave_id, function, address, count),
{
    let mut request: Vec<u8> = Vec::new();
    request.push(slave_id);
    request.push(function);
    request.push((address >> 8) as u8);
    request.push((address & 0xFF) as u8);
    request.push((count >> 8) as u8);
    request.push((count & 0xFF) as u8);
    assert(request@ =~= read_request_body(slave_id, function, address, count));
    let crc = calculate_crc(request.as_slice());
    request.push((crc & 0xFF) as u8);
    request.push((crc >> 8) as u8);
    assert(request@ =~= read_request_frame(slave_id, function, address, count));
    request
}

/// Every request frame passes the receiver's CRC check, and its address
/// and count fields read back as the values it was built from.
pub proof fn lemma_read_request_well_formed(slave_id: u8, function: u8, address: u16, count: u16)
    ensures
        ({
            let f = read_request_frame(slave_id, function, address, count);
            &&& f.len() == 8
            &&& crc16(f) == 0
            &&& f[0] == slave_id
            &&& f[1] == function
            &&& be_word(f[2], f[3]) == address
            &&& be_word(f[4], f[5]) == count
        }),
{
    lemma_crc_of_framed_is_zero(read_request_body(slave_id, function, address, count));
    lemma_be_word_roundtrip(address);
    lemma_be_word_roundtrip(count);
}

/// Two requests that differ only in the first register address differ only
/// in the address bytes (2 and 3) and the CRC bytes (6 and 7).
pub proof fn lemma_request_address_bytes(slave_id: u8, function: u8, a1: u16, a2: u16, count: u16)
    ensures
        ({
            let f1 = read_request_frame(slave_id, function, a1, count);
            let f2 = read_request_frame(slave_id, function, a2, count);
            &&& f1.len() == 8 && f2.len() == 8
            &&& forall|i: int| 0 <= i < 8 && i != 2 && i != 3 && i != 6 && i != 7 ==> #[trigger] f1[i] == f2[i]
        }),
{
}

/// Two requests that differ only in the function code differ only in the
/// function byte (1) and the CRC bytes (6 and 7).
pub proof fn lemma_request_function_byte(slave_id: u8, f1: u8, f2: u8, address: u16, count: u16)
    ensures
        ({
            let r1 = read_request_frame(slave_id, f1, address, count);
            let r2 = read_request_frame(slave_id, f2, address, count);
            &&& r1.len() == 8 && r2.len() == 8
            &&& forall|i: int| 0 <= i < 8 && i != 1 && i != 6 && i != 7 ==> #[trigger] r1[i] == r2[i]
        }),
{
}

/// Number of bytes in the reply to a request for `count` registers:
/// slave, function, byte count, two bytes per register, two CRC bytes.
pub open spec fn response_length(count: u16) -> nat {
    (5 + 2 * count) as nat
}

/// Length of the reply to a request for `count` registers.
pub fn response_len(count: u16) -> (len: usize)
    requires
        count <= 0x7FFF,
    ensures
        len == response_length(count),
{
    let doubled: u16 = count * 2;
    5 + doubled as usize
}

/// Register `i` of a reply: the big-endian word at bytes `3 + 2i`, `4 + 2i`.
pub open spec fn register_at(response: Seq<u8>, i: int) -> u16 {
    be_word(response[3 + 2 * i], response[4 + 2 * i])
}

/// The `count` registers that a reply carries.
pub open spec fn decoded_registers(response: Seq<u8>, count: nat) -> Seq<u16> {
    Seq::new(count, |i: int| register_at(response, i))
}

/// Whether a reply answers the given slave and function.
pub open spec fn response_matches(response: Seq<u8>, slave_id: u8, function: u8) -> bool {
    response[0] == slave_id && response[1] == function
}

/// A reply is taken as the answer exactly when its first byte is the slave
/// asked and its second byte the function asked.
pub proof fn lemma_response_matches_bytes(response: Seq<u8>, slave_id: u8, function: u8)
    ensures
        response_matches(response, slave_id, function) <==> (response[0] == slave_id && response[1] == function),
        response[0] != slave_id ==> !response_matches(response, slave_id, function),
{
}

/// Register `i` of a reply is the byte at `3 + 2i` times 256 plus the byte
/// at `4 + 2i`, and a reply carries exactly the number of registers asked.
pub proof fn lemma_decoded_register_value(response: Seq<u8>, count: nat, i: int)
    requires
        0 <= i < count,
    ensures
        decoded_registers(response, count).len() == count,
        decoded_registers(response, count)[i] as int == response[3 + 2 * i] as int * 256 + response[4 + 2 * i] as int,
{
    lemma_be_word_value(response[3 + 2 * i], response[4 + 2 * i]);
}

/// Checks that `response` answers slave `slave_id` and function
/// `function`, and decodes its `count` registers.
pub fn parse_read_response(response: &[u8], slave_id: u8, function: u8, count: u16) -> (result: Result<Vec<u16>, ModbusError>)
    requires
        count <= 0x7FFF,
        response@.len() >= 3 + 2 * count,
    ensures
        result is Ok <==> (response@[0] == slave_id && response@[1] == function),
        result is Err ==> result == Err::<Vec<u16>, ModbusError>(ModbusError::InvalidResponse),
        result matches Ok(registers) ==> registers@.len() == count
            && forall|i: int| 0 <= i < count ==>
                #[trigger] registers@[i] as int == response@[3 + 2 * i] as int * 256 + response@[4 + 2 * i] as int,
        match result {
            Ok(registers) => response_matches(response@, slave_id, function)
                && registers@ == decoded_registers(response@, count as nat),
            Err(e) => !response_matches(response@, slave_id, function)
                && e == ModbusError::InvalidResponse,
        },
{
    if response[0] != slave_id || response[1] != function {
        return Err(ModbusError::InvalidResponse);
    }
    let mut registers: Vec<u16> = Vec::new();
    let mut i: u16 = 0;
    while i < count
        invariant
            i <= count,
            count <= 0x7FFF,
            response@.len() >= 3 + 2 * count,
            registers@ =~= decoded_registers(response@, i as nat),
        decreases count - i,
    {
        let twice: u16 = i * 2;
        let high = response[3 + twice as usize];
        let low = response[4 + twice as usize];
        let value: u16 = ((high as u16) << 8) | (low as u16);
        registers.push(value);
        i = i + 1;
    }
    proof {
        assert forall|k: int| 0 <= k < count implies
            #[trigger] registers@[k] as int == response@[3 + 2 * k] as int * 256 + response@[4 + 2 * k] as int by {
            lemma_be_word_value(response@[3 + 2 * k], response@[4 + 2 * k]);
        }
    }
    Ok(registers)
}

/// The registers read do not depend on the request's address or function:
/// two replies that are equal but for the function byte, each carrying the
/// function code it answers, are both accepted or both refused, and give
/// the same registers.
pub proof fn lemma_decoding_ignores_function(rx1: Seq<u8>, rx2: Seq<u8>, slave_id: u8, count: nat)
    requires
        rx1.len() == rx2.len(),
        rx1.len() >= 3 + 2 * count,
        forall|i: int| 0 <= i < rx1.len() && i != 1 ==> #[trigger] rx1[i] == rx2[i],
    ensures
        response_matches(rx1, slave_id, rx1[1]) == response_matches(rx2, slave_id, rx2[1]),
        decoded_registers(rx1, count) == decoded_registers(rx2, count),
{
    assert(rx1[0] == rx2[0]);
    assert forall|i: int| 0 <= i < count implies #[trigger] register_at(rx1, i) == register_at(rx2, i) by {
        assert(rx1[3 + 2 * i] == rx2[3 + 2 * i]);
        assert(rx1[4 + 2 * i] == rx2[4 + 2 * i]);
    }
    assert(decoded_registers(rx1, count) =~= decoded_registers(rx2, count));
}

/// The data bytes of a reply carrying `values`: each word big-endian.
pub open spec fn encode_registers(values: Seq<u16>) -> Seq<u8> {
    Seq::new(
        2 * values.len(),
        |k: int| if k % 2 == 0 { hi_byte(values[k / 2]) } else { lo_byte(values[k / 2]) },
    )
}

/// The reply a slave sends to a register read: slave, function, byte
/// count, the words, and the CRC.
pub open spec fn read_response_frame(slave_id: u8, function: u8, values: Seq<u16>) -> Seq<u8> {
    with_crc(seq![slave_id, function, (2 * values.len()) as u8] + encode_registers(values))
}

/// Decoding a reply gives back the words the slave put in it, and the
/// reply matches the slave and function it was sent for.
#[verifier::spinoff_prover]
#[verifier::rlimit(40)]
pub proof fn lemma_decode_encoded_response(slave_id: u8, function: u8, values: Seq<u16>)
    ensures
        ({
            let r = read_response_frame(slave_id, function, values);
            &&& r.len() == 5 + 2 * values.len()
            &&& response_matches(r, slave_id, function)
            &&& decoded_registers(r, values.len()) == values
        }),
{
    let r = read_response_frame(slave_id, function, values);
    let body = seq![slave_id, function, (2 * values.len()) as u8] + encode_registers(values);
    assert forall|i: int| 0 <= i < values.len() implies #[trigger] register_at(r, i) == values[i] by {
        assert(r[3 + 2 * i] == body[3 + 2 * i]);
        assert(r[4 + 2 * i] == body[4 + 2 * i]);
        assert(body[3 + 2 * i] == encode_registers(values)[2 * i]);
        assert(body[4 + 2 * i] == encode_registers(values)[2 * i + 1]);
        assert((2 * i) % 2 == 0 && (2 * i) / 2 == i);
        assert((2 * i + 1) % 2 == 1 && (2 * i + 1) / 2 == i);
        lemma_be_word_roundtrip(values[i]);
    }
    assert(decoded_registers(r, values.len()) =~= values);
}

} // verus!
