//! The Modbus TCP request/response engine: frame parsing, dispatch by
//! function code, and the read and write handlers over a meter.
use vstd::prelude::*;
use crate::meter::{coil_at, coil_written, register_at, register_written, Meter, COIL_COUNT, REGISTER_COUNT};

verus! {

/// Exception code: the function code is not supported.
pub const ILLEGAL_FUNCTION: u8 = 0x01;

/// Exception code: the data address is out of range.
pub const ILLEGAL_DATA_ADDRESS: u8 = 0x02;

/// Exception code: a value in the request is not allowed.
pub const ILLEGAL_DATA_VALUE: u8 = 0x03;

pub const READ_COILS: u8 = 0x01;
pub const READ_DISCRETE_INPUTS: u8 = 0x02;
pub const READ_HOLDING_REGISTERS: u8 = 0x03;
pub const READ_INPUT_REGISTERS: u8 = 0x04;
pub const WRITE_SINGLE_COIL: u8 = 0x05;
pub const WRITE_SINGLE_REGISTER: u8 = 0x06;

/// Length of the MBAP header plus the function code.
pub const HEADER_LEN: usize = 8;

/// Length of a request that carries an address and a quantity or value.
pub const REQUEST_LEN: usize = 12;

pub const MAX_REGISTER_QUANTITY: u16 = 125;
pub const MAX_COIL_QUANTITY: u16 = 2000;

/// The coil value that writes `true`.
pub const COIL_ON: u16 = 0xFF00;

/// The big-endian 16-bit value at bytes `i` and `i + 1`.
pub open spec fn be16(b: Seq<u8>, i: int) -> u16 {
    (b[i] as int * 256 + b[i + 1] as int) as u16
}

pub open spec fn hi_byte(x: u16) -> u8 {
    (x / 256) as u8
}

pub open spec fn lo_byte(x: u16) -> u8 {
    (x % 256) as u8
}

/// A frame: transaction id, protocol id 0, `length`, unit id, then `pdu`.
pub open spec fn frame(tid: u16, length: u16, uid: u8, pdu: Seq<u8>) -> Seq<u8> {
    seq![hi_byte(tid), lo_byte(tid), 0u8, 0u8, hi_byte(length), lo_byte(length), uid] + pdu
}

/// An exception frame: the function code with its high bit set, then `code`.
pub open spec fn exception_frame(tid: u16, uid: u8, function_code: u8, code: u8) -> Seq<u8> {
    frame(tid, 3, uid, seq![function_code | 0x80, code])
}

/// A successful read: function code, byte count, data.
pub open spec fn read_frame(tid: u16, uid: u8, function_code: u8, data: Seq<u8>) -> Seq<u8> {
    frame(tid, (3 + data.len()) as u16, uid, seq![function_code, data.len() as u8] + data)
}

/// `quantity` registers from `start`, each as two big-endian bytes.
pub open spec fn register_payload(regs: Seq<u16>, start: int, quantity: int) -> Seq<u8> {
    Seq::new(
        (2 * quantity) as nat,
        |k: int|
            {
                let v = register_at(regs, start + k / 2);
                if k % 2 == 0 {
                    hi_byte(v)
                } else {
                    lo_byte(v)
                }
            },
    )
}

/// 2 to the power `n`.
pub open spec fn bit_weight(n: nat) -> nat
    decreases n,
{
    if n == 0 {
        1
    } else {
        2 * bit_weight((n - 1) as nat)
    }
}

/// The number whose bit `i` is `bits[i]`.
pub open spec fn bits_value(bits: Seq<bool>) -> nat
    decreases bits.len(),
{
    if bits.len() == 0 {
        0
    } else {
        bits_value(bits.drop_last()) + if bits.last() {
            bit_weight((bits.len() - 1) as nat)
        } else {
            0
        }
    }
}

/// `quantity` coils from `start`.
pub open spec fn coil_bits(coils: Seq<bool>, start: int, quantity: int) -> Seq<bool> {
    Seq::new(quantity as nat, |i: int| coil_at(coils, start + i))
}

/// The bytes that pack the coils: bit `i % 8` of byte `i / 8` holds coil `start + i`.
pub open spec fn coil_payload(coils: Seq<bool>, start: int, quantity: int) -> Seq<u8> {
    let bits = coil_bits(coils, start, quantity);
    Seq::new(
        ((quantity + 7) / 8) as nat,
        |j: int|
            bits_value(
                bits.subrange(8 * j, if 8 * j + 8 < quantity { 8 * j + 8 } else { quantity }),
            ) as u8,
    )
}

/// The reply to a register read (answered under function code 0x03).
pub open spec fn register_read_reply(req: Seq<u8>, regs: Seq<u16>, tid: u16, uid: u8) -> Seq<u8> {
    if req.len() < REQUEST_LEN {
        exception_frame(tid, uid, READ_HOLDING_REGISTERS, ILLEGAL_DATA_VALUE)
    } else {
        let quantity = be16(req, 10);
        if quantity == 0 || quantity > MAX_REGISTER_QUANTITY {
            exception_frame(tid, uid, READ_HOLDING_REGISTERS, ILLEGAL_DATA_VALUE)
        } else {
            read_frame(
                tid,
                uid,
                READ_HOLDING_REGISTERS,
                register_payload(regs, be16(req, 8) as int, quantity as int),
            )
        }
    }
}

/// The reply to a coil read (answered under function code 0x01).
pub open spec fn coil_read_reply(req: Seq<u8>, coils: Seq<bool>, tid: u16, uid: u8) -> Seq<u8> {
    if req.len() < REQUEST_LEN {
        exception_frame(tid, uid, READ_COILS, ILLEGAL_DATA_VALUE)
    } else {
        let quantity = be16(req, 10);
        if quantity == 0 || quantity > MAX_COIL_QUANTITY {
            exception_frame(tid, uid, READ_COILS, ILLEGAL_DATA_VALUE)
        } else {
            read_frame(tid, uid, READ_COILS, coil_payload(coils, be16(req, 8) as int, quantity as int))
        }
    }
}

/// The coil value that a write-single-coil request carries, if it is a legal one.
pub open spec fn coil_request_value(req: Seq<u8>) -> Option<bool> {
    if be16(req, 10) == 0 {
        Some(false)
    } else if be16(req, 10) == COIL_ON {
        Some(true)
    } else {
        None
    }
}

/// The reply to a write-single-coil request: the request itself on success.
pub open spec fn coil_write_reply(req: Seq<u8>, tid: u16, uid: u8) -> Seq<u8> {
    if req.len() < REQUEST_LEN || coil_request_value(req) is None {
        exception_frame(tid, uid, WRITE_SINGLE_COIL, ILLEGAL_DATA_VALUE)
    } else if be16(req, 8) >= COIL_COUNT {
        exception_frame(tid, uid, WRITE_SINGLE_COIL, ILLEGAL_DATA_ADDRESS)
    } else {
        req
    }
}

/// The reply to a write-single-register request: the request itself on success.
pub open spec fn register_write_reply(req: Seq<u8>, tid: u16, uid: u8) -> Seq<u8> {
    if req.len() < REQUEST_LEN {
        exception_frame(tid, uid, WRITE_SINGLE_REGISTER, ILLEGAL_DATA_VALUE)
    } else if be16(req, 8) >= REGISTER_COUNT {
        exception_frame(tid, uid, WRITE_SINGLE_REGISTER, ILLEGAL_DATA_ADDRESS)
    } else {
        req
    }
}

pub open spec fn reply_view(r: Option<Vec<u8>>) -> Option<Seq<u8>> {
    match r {
        Some(v) => Some(v@),
        None => None,
    }
}

/// Builds an exception frame for `function_code` with `exception_code`.
pub fn create_exception_response(
    transaction_id: u16,
    unit_id: u8,
    function_code: u8,
    exception_code: u8,
) -> (r: Option<Vec<u8>>)
    ensures
        reply_view(r) == Some(exception_frame(transaction_id, unit_id, function_code, exception_code)),
{
    let mut response: Vec<u8> = Vec::new();
    push_header(&mut response, transaction_id, 3, unit_id);
    response.push(function_code | 0x80);
    response.push(exception_code);
    assert(response@ =~= exception_frame(transaction_id, unit_id, function_code, exception_code));
    Some(response)
}

fn push_header(buf: &mut Vec<u8>, transaction_id: u16, length: u16, unit_id: u8)
    ensures
        final(buf)@ == old(buf)@ + seq![
            hi_byte(transaction_id),
            lo_byte(transaction_id),
            0u8,
            0u8,
            hi_byte(length),
            lo_byte(length),
            unit_id,
        ],
{
    buf.push((transaction_id / 256) as u8);
    buf.push((transaction_id % 256) as u8);
    buf.push(0);
    buf.push(0);
    buf.push((length / 256) as u8);
    buf.push((length % 256) as u8);
    buf.push(unit_id);
}

fn read_be16(b: &[u8], i: usize) -> (r: u16)
    requires
        i + 1 < b@.len(),
    ensures
        r == be16(b@, i as int),
{
    b[i] as u16 * 256 + b[i + 1] as u16
}

fn read_frame_of(transaction_id: u16, unit_id: u8, function_code: u8, data: Vec<u8>) -> (r: Vec<u8>)
    requires
        data@.len() <= 250,
    ensures
        r@ == read_frame(transaction_id, unit_id, function_code, data@),
{
    let mut data = data;
    let byte_count: u8 = data.len() as u8;
    let mut response: Vec<u8> = Vec::new();
    push_header(&mut response, transaction_id, 3 + byte_count as u16, unit_id);
    response.push(function_code);
    response.push(byte_count);
    let ghost payload = data@;
    response.append(&mut data);
    assert(response@ =~= read_frame(transaction_id, unit_id, function_code, payload));
    response
}

/// Reads holding registers: start address in bytes 8-9, quantity (1 to 125)
/// in bytes 10-11.
pub fn handle_read_holding_registers(
    request: &[u8],
    meter: &Meter,
    transaction_id: u16,
    unit_id: u8,
) -> (r: Option<Vec<u8>>)
    ensures
        reply_view(r) == Some(register_read_reply(request@, meter.registers@, transaction_id, unit_id)),
{
    if request.len() < REQUEST_LEN {
        return create_exception_response(transaction_id, unit_id, READ_HOLDING_REGISTERS, ILLEGAL_DATA_VALUE);
    }
    let start_address = read_be16(request, 8);
    let quantity = read_be16(request, 10);
    if quantity == 0 || quantity > MAX_REGISTER_QUANTITY {
        return create_exception_response(transaction_id, unit_id, READ_HOLDING_REGISTERS, ILLEGAL_DATA_VALUE);
    }
    let ghost payload = register_payload(meter.registers@, start_address as int, quantity as int);
    let mut data: Vec<u8> = Vec::new();
    let mut i: u16 = 0;
    while i < quantity
        invariant
            0 <= i <= quantity <= MAX_REGISTER_QUANTITY,
            payload == register_payload(meter.registers@, start_address as int, quantity as int),
            data@.len() == 2 * i,
            forall|k: int| 0 <= k < 2 * i ==> data@[k] == payload[k],
        decreases quantity - i,
    {
        let address: u32 = start_address as u32 + i as u32;
        let value: u16 = if address <= 0xFFFF {
            meter.get_register_value(address as u16)
        } else {
            0
        };
        assert(value == register_at(meter.registers@, address as int));
        data.push((value / 256) as u8);
        data.push((value % 256) as u8);
        assert(data@[2 * i as int] == payload[2 * i as int]);
        assert(data@[2 * i + 1] == payload[2 * i + 1]);
        i = i + 1;
    }
    assert(data@ =~= payload);
    Some(read_frame_of(transaction_id, unit_id, READ_HOLDING_REGISTERS, data))
}

/// Input registers are the holding registers.
pub fn handle_read_input_registers(
    request: &[u8],
    meter: &Meter,
    transaction_id: u16,
    unit_id: u8,
) -> (r: Option<Vec<u8>>)
    ensures
        reply_view(r) == Some(register_read_reply(request@, meter.registers@, transaction_id, unit_id)),
{
    handle_read_holding_registers(request, meter, transaction_id, unit_id)
}

proof fn lemma_bit_weight_small(n: nat)
    requires
        n < 8,
    ensures
        1 <= bit_weight(n) <= 128,
{
    reveal_with_fuel(bit_weight, 8);
    if n == 0 {
    } else if n == 1 {
    } else if n == 2 {
    } else if n == 3 {
    } else if n == 4 {
    } else if n == 5 {
    } else if n == 6 {
    } else {
    }
}

/// Extending a run of bits by one adds the new bit at the next weight.
proof fn lemma_bits_value_extend(s: Seq<bool>, lo: int, hi: int)
    requires
        0 <= lo <= hi < s.len(),
    ensures
        bits_value(s.subrange(lo, hi + 1)) == bits_value(s.subrange(lo, hi)) + if s[hi] {
            bit_weight((hi - lo) as nat)
        } else {
            0
        },
{
    let t = s.subrange(lo, hi + 1);
    assert(t.drop_last() =~= s.subrange(lo, hi));
    assert(t.last() == s[hi]);
}

/// Reads coils: start address in bytes 8-9, quantity (1 to 2000) in bytes
/// 10-11, packed eight to a byte, least significant bit first.
pub fn handle_read_coils(
    request: &[u8],
    meter: &Meter,
    transaction_id: u16,
    unit_id: u8,
) -> (r: Option<Vec<u8>>)
    ensures
        reply_view(r) == Some(coil_read_reply(request@, meter.coils@, transaction_id, unit_id)),
{
    if request.len() < REQUEST_LEN {
        return create_exception_response(transaction_id, unit_id, READ_COILS, ILLEGAL_DATA_VALUE);
    }
    let start_address = read_be16(request, 8);
    let quantity = read_be16(request, 10);
    if quantity == 0 || quantity > MAX_COIL_QUANTITY {
        return create_exception_response(transaction_id, unit_id, READ_COILS, ILLEGAL_DATA_VALUE);
    }
    let ghost bits = coil_bits(meter.coils@, start_address as int, quantity as int);
    let ghost payload = coil_payload(meter.coils@, start_address as int, quantity as int);
    let byte_count: u32 = (quantity as u32 + 7) / 8;
    let mut data: Vec<u8> = Vec::new();
    let mut j: u32 = 0;
    while j < byte_count
        invariant
            0 <= j <= byte_count,
            byte_count == (quantity + 7) / 8,
            1 <= quantity <= MAX_COIL_QUANTITY,
            bits == coil_bits(meter.coils@, start_address as int, quantity as int),
            payload == coil_payload(meter.coils@, start_address as int, quantity as int),
            data@.len() == j,
            forall|k: int| 0 <= k < j ==> data@[k] == payload[k],
        decreases byte_count - j,
    {
        let base: u32 = j * 8;
        let end: u32 = if base + 8 < quantity as u32 { base + 8 } else { quantity as u32 };
        let mut acc: u32 = 0;
        let mut weight: u32 = 1;
        let mut b: u32 = base;
        while b < end
            invariant
                base <= b <= end <= base + 8,
                end <= quantity,
                bits == coil_bits(meter.coils@, start_address as int, quantity as int),
                weight == bit_weight((b - base) as nat),
                weight <= 256,
                acc < weight,
                acc == bits_value(bits.subrange(base as int, b as int)),
            decreases end - b,
        {
            let address: u32 = start_address as u32 + b;
            let on: bool = if address <= 0xFFFF {
                meter.get_coil_value(address as u16)
            } else {
                false
            };
            assert(on == bits[b as int]);
            proof {
                lemma_bits_value_extend(bits, base as int, b as int);
                lemma_bit_weight_small((b - base) as nat);
            }
            if on {
                acc = acc + weight;
            }
            weight = weight * 2;
            b = b + 1;
        }
        data.push(acc as u8);
        assert(data@[j as int] == payload[j as int]);
        j = j + 1;
    }
    assert(data@ =~= payload);
    Some(read_frame_of(transaction_id, unit_id, READ_COILS, data))
}

/// Discrete inputs are the coils.
pub fn handle_read_discrete_inputs(
    request: &[u8],
    meter: &Meter,
    transaction_id: u16,
    unit_id: u8,
) -> (r: Option<Vec<u8>>)
    ensures
        reply_view(r) == Some(coil_read_reply(request@, meter.coils@, transaction_id, unit_id)),
{
    handle_read_coils(request, meter, transaction_id, unit_id)
}

/// Writes a single coil: address in bytes 8-9, value 0x0000 (off) or 0xFF00
/// (on) in bytes 10-11. On success the request is echoed back.
pub fn handle_write_single_coil(
    request: &[u8],
    meter: &mut Meter,
    transaction_id: u16,
    unit_id: u8,
) -> (r: Option<Vec<u8>>)
    ensures
        reply_view(r) == Some(coil_write_reply(request@, transaction_id, unit_id)),
        if request@.len() >= REQUEST_LEN && coil_request_value(request@) is Some {
            coil_written(
                *old(meter),
                *final(meter),
                be16(request@, 8),
                coil_request_value(request@)->Some_0,
            )
        } else {
            *final(meter) == *old(meter)
        },
{
    if request.len() < REQUEST_LEN {
        return create_exception_response(transaction_id, unit_id, WRITE_SINGLE_COIL, ILLEGAL_DATA_VALUE);
    }
    let address = read_be16(request, 8);
    let value = read_be16(request, 10);
    let coil_value: bool = if value == 0 {
        false
    } else if value == COIL_ON {
        true
    } else {
        return create_exception_response(transaction_id, unit_id, WRITE_SINGLE_COIL, ILLEGAL_DATA_VALUE);
    };
    if !meter.set_coil_value(address, coil_value) {
        return create_exception_response(transaction_id, unit_id, WRITE_SINGLE_COIL, ILLEGAL_DATA_ADDRESS);
    }
    Some(vstd::slice::slice_to_vec(request))
}

/// Writes a single register: address in bytes 8-9, raw value in bytes 10-11.
/// On success the request is echoed back.
pub fn handle_write_single_register(
    request: &[u8],
    meter: &mut Meter,
    transaction_id: u16,
    unit_id: u8,
) -> (r: Option<Vec<u8>>)
    ensures
        reply_view(r) == Some(register_write_reply(request@, transaction_id, unit_id)),
        if request@.len() >= REQUEST_LEN {
            register_written(*old(meter), *final(meter), be16(request@, 8), be16(request@, 10))
        } else {
            *final(meter) == *old(meter)
        },
{
    if request.len() < REQUEST_LEN {
        return create_exception_response(transaction_id, unit_id, WRITE_SINGLE_REGISTER, ILLEGAL_DATA_VALUE);
    }
    let address = read_be16(request, 8);
    let value = read_be16(request, 10);
    if !meter.set_register_value(address, value) {
        return create_exception_response(transaction_id, unit_id, WRITE_SINGLE_REGISTER, ILLEGAL_DATA_ADDRESS);
    }
    Some(vstd::slice::slice_to_vec(request))
}

/// The frame has a full header and protocol id 0: anything else gets no reply.
pub open spec fn accepted(req: Seq<u8>) -> bool {
    req.len() >= HEADER_LEN && be16(req, 2) == 0
}

/// The reply to a request, given the tables it is served from: none for a
/// frame that is not accepted, an illegal-function exception for an unknown
/// function code.
pub open spec fn response(req: Seq<u8>, regs: Seq<u16>, coils: Seq<bool>) -> Option<Seq<u8>> {
    if !accepted(req) {
        None
    } else {
        let tid = be16(req, 0);
        let uid = req[6];
        let fc = req[7];
        Some(
            if fc == READ_HOLDING_REGISTERS || fc == READ_INPUT_REGISTERS {
                register_read_reply(req, regs, tid, uid)
            } else if fc == READ_COILS || fc == READ_DISCRETE_INPUTS {
                coil_read_reply(req, coils, tid, uid)
            } else if fc == WRITE_SINGLE_COIL {
                coil_write_reply(req, tid, uid)
            } else if fc == WRITE_SINGLE_REGISTER {
                register_write_reply(req, tid, uid)
            } else {
                exception_frame(tid, uid, fc, ILLEGAL_FUNCTION)
            },
        )
    }
}

/// The request is accepted and asks to write the meter.
pub open spec fn writes_meter(req: Seq<u8>) -> bool {
    accepted(req) && (req[7] == WRITE_SINGLE_COIL || req[7] == WRITE_SINGLE_REGISTER)
}

/// What a request does to the meter: a legal write-single-coil or
/// write-single-register request writes, nothing else changes the meter.
pub open spec fn request_effect(req: Seq<u8>, before: Meter, after: Meter) -> bool {
    if writes_meter(req) && req.len() >= REQUEST_LEN && req[7] == WRITE_SINGLE_COIL
        && coil_request_value(req) is Some {
        coil_written(before, after, be16(req, 8), coil_request_value(req)->Some_0)
    } else if writes_meter(req) && req.len() >= REQUEST_LEN && req[7] == WRITE_SINGLE_REGISTER {
        register_written(before, after, be16(req, 8), be16(req, 10))
    } else {
        after == before
    }
}

/// Whether serving the request needs exclusive access to the meter.
pub fn is_write_request(request: &[u8]) -> (r: bool)
    ensures
        r == writes_meter(request@),
{
    request.len() >= HEADER_LEN && read_be16(request, 2) == 0 && (request[7] == WRITE_SINGLE_COIL
        || request[7] == WRITE_SINGLE_REGISTER)
}

/// Serves a request that only reads the meter.
pub fn process_read_request(request: &[u8], meter: &Meter) -> (r: Option<Vec<u8>>)
    requires
        !writes_meter(request@),
    ensures
        reply_view(r) == response(request@, meter.registers@, meter.coils@),
{
    if request.len() < HEADER_LEN {
        return None;
    }
    let transaction_id = read_be16(request, 0);
    let protocol_id = read_be16(request, 2);
    let unit_id = request[6];
    let function_code = request[7];
    if protocol_id != 0 {
        return None;
    }
    if function_code == READ_HOLDING_REGISTERS {
        handle_read_holding_registers(request, meter, transaction_id, unit_id)
    } else if function_code == READ_INPUT_REGISTERS {
        handle_read_input_registers(request, meter, transaction_id, unit_id)
    } else if function_code == READ_COILS {
        handle_read_coils(request, meter, transaction_id, unit_id)
    } else if function_code == READ_DISCRETE_INPUTS {
        handle_read_discrete_inputs(request, meter, transaction_id, unit_id)
    } else {
        create_exception_response(transaction_id, unit_id, function_code, ILLEGAL_FUNCTION)
    }
}

/// Serves one request frame: returns the reply to send, if any, and applies
/// the write it asks for.
pub fn process_modbus_request(request: &[u8], meter: &mut Meter) -> (r: Option<Vec<u8>>)
    ensures
        reply_view(r) == response(request@, old(meter).registers@, old(meter).coils@),
        request_effect(request@, *old(meter), *final(meter)),
        old(meter).wf() ==> final(meter).wf(),
{
    if !is_write_request(request) {
        return process_read_request(request, meter);
    }
    let transaction_id = read_be16(request, 0);
    let unit_id = request[6];
    if request[7] == WRITE_SINGLE_COIL {
        handle_write_single_coil(request, meter, transaction_id, unit_id)
    } else {
        handle_write_single_register(request, meter, transaction_id, unit_id)
    }
}

/// What to do after a read from a connection.
#[derive(Debug, Clone, Copy, PartialEq, Eq, Structural)]
pub enum ConnectionAction {
    /// The peer closed the connection: stop serving it.
    Close,
    /// Too few bytes for a frame: discard them and read again.
    Discard,
    /// Serve the bytes read as one request frame.
    Serve,
}

/// Decides what to do with a read of `bytes_read` bytes.
pub fn connection_action(bytes_read: usize) -> (r: ConnectionAction)
    ensures
        r == (if bytes_read == 0 {
            ConnectionAction::Close
        } else if bytes_read < HEADER_LEN {
            ConnectionAction::Discard
        } else {
            ConnectionAction::Serve
        }),
{
    if bytes_read == 0 {
        ConnectionAction::Close
    } else if bytes_read < HEADER_LEN {
        ConnectionAction::Discard
    } else {
        ConnectionAction::Serve
    }
}

} // verus!
