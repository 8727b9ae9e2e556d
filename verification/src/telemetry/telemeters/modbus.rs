//! The Modbus telemeter: the data logger answers as a device on the RS-485
//! line, with the values of the cycle in its input registers.

use vstd::prelude::*;
use modbus_core::rtu::server::encode_response;
use modbus_core::rtu::{Header, ResponseAdu};
use modbus_core::{Data, Exception, ExceptionResponse, FunctionCode, Response, ResponsePdu};
use crate::board::{GpioMode, RRIVBoard};
use crate::drivers::codec::{lemma_radix_values, to_unsigned};
use crate::drivers::resources::gpio::GpioRequest;
use crate::telemetry::telemeters::Telemeter;

verus! {

/// The address at which the data logger answers.
pub const RRIV_DEFAULT_MODBUS_CLIENT_ID: u8 = 24;

/// The pin that switches the transceiver between sending and receiving.
pub const DIRECTION_PIN: u8 = 1;

/// What the data logger answers.
#[derive(Clone, Copy, Debug)]
pub enum ModbusReply {
    /// The input registers that were asked for.
    InputRegisters([u16; 16]),
    /// The refusal of a request for input registers, because the device failed.
    DeviceFailure,
}

/// The checksum of the `modbus_core` crate: the CRC-16 of Modbus over `bytes`,
/// as its `rtu::crc16` returns it, with the byte that is sent first in the
/// high half.
pub uninterp spec fn modbus_crc16(bytes: Seq<u8>) -> u16;

/// Byte `k` of registers on the line: each register takes two bytes, the high
/// byte first.
pub open spec fn register_byte(registers: Seq<u16>, k: int) -> u8 {
    if k % 2 == 0 {
        (registers[k / 2] / 256) as u8
    } else {
        (registers[k / 2] % 256) as u8
    }
}

/// What an answer with sixteen input registers says between the address and the
/// checksum: the function code, 4, the number of data bytes, and the
/// registers.
pub open spec fn registers_pdu(registers: Seq<u16>) -> Seq<u8> {
    seq![0x04u8, 32u8] + Seq::new(32, |k: int| register_byte(registers, k))
}

/// What an answer says between the address and the checksum. Input registers
/// come behind their function code, 4, and the number of their bytes. A
/// refusal is that function code with the high bit set, and the code of the
/// failure, 4.
pub open spec fn reply_pdu(reply: ModbusReply) -> Seq<u8> {
    match reply {
        ModbusReply::InputRegisters(registers) => registers_pdu(registers@),
        ModbusReply::DeviceFailure => seq![0x84u8, 0x04u8],
    }
}

/// A frame on the line: the address of the device, what it says, and the
/// checksum of both.
pub open spec fn rtu_frame(slave: u8, pdu: Seq<u8>) -> Seq<u8> {
    let body = seq![slave] + pdu;
    body + seq![(modbus_crc16(body) / 256) as u8, (modbus_crc16(body) % 256) as u8]
}

/// `modbus_core::rtu::server::encode_response`, on an answer that
/// `Data::from_words` packs. Sixteen registers take the thirty-two bytes that
/// they are packed into, and either answer fits the buffer of a hundred bytes,
/// so that the call succeeds. The frame is the address, the protocol data unit
/// of the answer and the checksum of both, high byte first.
#[verifier::external_body]
fn encode_rtu_response(slave: u8, reply: &ModbusReply) -> (r: Result<Vec<u8>, ()>)
    ensures
        r is Ok,
        r matches Ok(frame) ==> frame@ == seq![slave] + reply_pdu(*reply) + seq![
            (modbus_crc16(seq![slave] + reply_pdu(*reply)) / 256) as u8,
            (modbus_crc16(seq![slave] + reply_pdu(*reply)) % 256) as u8,
        ],
{
    let (mut data, mut buffer) = ([0u8; 32], [0u8; 100]);
    let pdu = ResponsePdu(match reply {
        ModbusReply::InputRegisters(words) => Ok(Response::ReadInputRegisters(Data::from_words(words, &mut data).map_err(|_| ())?)),
        ModbusReply::DeviceFailure => Err(ExceptionResponse { function: FunctionCode::ReadInputRegisters, exception: Exception::ServerDeviceFailure }),
    });
    match encode_response(ResponseAdu { hdr: Header { slave }, pdu }, &mut buffer) {
        Ok(length) => Ok(buffer[..length].to_vec()),
        Err(_) => Err(()),
    }
}

/// The registers that hold the values of a cycle: each value in two's
/// complement.
pub open spec fn registers_for(values: Seq<i16>) -> Seq<u16> {
    Seq::new(values.len(), |i: int| to_unsigned(values[i] as int, 2) as u16)
}

/// The registers that hold the values of a cycle.
pub fn input_registers(values: &[i16; 16]) -> (registers: [u16; 16])
    ensures
        registers@ == registers_for(values@),
{
    let mut registers: [u16; 16] = [0, 0, 0, 0, 0, 0, 0, 0, 0, 0, 0, 0, 0, 0, 0, 0];
    let mut i: usize = 0;
    while i < 16
        invariant
            i <= 16,
            forall|j: int|
                0 <= j < i ==> #[trigger] registers@[j] == to_unsigned(values@[j] as int, 2) as u16,
        decreases 16 - i,
    {
        proof {
            lemma_radix_values();
        }
        let value: i16 = values[i];
        registers[i] = if value >= 0 {
            value as u16
        } else {
            (value as i32 + 0x1_0000) as u16
        };
        i += 1;
    }
    assert(registers@ =~= registers_for(values@));
    registers
}

/// Chooses the frame to send from what the encoder gave: the answer with the
/// registers where it could be framed, else the refusal where that could be
/// framed, else nothing.
pub fn frame_to_send(answer: Result<Vec<u8>, ()>, refusal: Result<Vec<u8>, ()>) -> (frame: Option<
    Vec<u8>,
>)
    ensures
        frame == match (answer, refusal) {
            (Ok(bytes), _) => Some(bytes),
            (Err(_), Ok(bytes)) => Some(bytes),
            (Err(_), Err(_)) => None::<Vec<u8>>,
        },
{
    match answer {
        Ok(bytes) => Some(bytes),
        Err(_) => match refusal {
            Ok(bytes) => Some(bytes),
            Err(_) => None,
        },
    }
}

/// The frame with which the data logger answers a request for its input
/// registers: the registers with the values of the cycle. Were they not
/// framed, a refusal would take their place.
pub fn response_frame(values: &[i16; 16]) -> (frame: Option<Vec<u8>>)
    ensures
        frame matches Some(bytes) && bytes@ == rtu_frame(
            RRIV_DEFAULT_MODBUS_CLIENT_ID,
            registers_pdu(registers_for(values@)),
        ),
{
    let registers: [u16; 16] = input_registers(values);
    proof {
        assert(reply_pdu(ModbusReply::InputRegisters(registers)) =~= registers_pdu(
            registers_for(values@),
        ));
    }
    let answer: Result<Vec<u8>, ()> = encode_rtu_response(
        RRIV_DEFAULT_MODBUS_CLIENT_ID,
        &ModbusReply::InputRegisters(registers),
    );
    let refusal: Result<Vec<u8>, ()> = match answer {
        Ok(_) => Err(()),
        Err(_) => encode_rtu_response(RRIV_DEFAULT_MODBUS_CLIENT_ID, &ModbusReply::DeviceFailure),
    };
    frame_to_send(answer, refusal)
}

/// Sends `payload` on the RS-485 line: the transceiver is switched to sending
/// for as long as the bytes go out. The payload goes out as it is, in one
/// send: its bytes are the frame, and are not written out as text.
pub fn transmit<B: RRIVBoard>(board: &mut B, payload: &[u8]) {
    board.set_gpio_pin_mode(DIRECTION_PIN, GpioMode::PushPullOutput);
    board.write_gpio_pin(DIRECTION_PIN, true);
    board.usart_send(payload);
    board.write_gpio_pin(DIRECTION_PIN, false);
}

/// Answers a request for the input registers with the values of the cycle.
pub fn send_input_registers_response<B: RRIVBoard>(board: &mut B, values: &[i16; 16]) {
    match response_frame(values) {
        Some(frame) => {
            transmit(board, frame.as_slice());
        },
        None => {},
    }
}

/// The Modbus telemeter.
#[derive(Clone, Copy, Debug)]
pub struct ModBusRTU();

impl Telemeter for ModBusRTU {
    fn run_loop_iteration<B: RRIVBoard>(&mut self, board: &mut B) {
    }

    fn transmit<B: RRIVBoard>(&mut self, board: &mut B, values: &[i16; 16]) {
        send_input_registers_response(board, values);
    }

    fn ready_to_transmit<B: RRIVBoard>(&mut self, board: &mut B) -> (ready: bool)
        ensures
            ready,
    {
        true
    }

    fn process_events<B: RRIVBoard>(&mut self, board: &mut B) {
    }

    /// The telemeter holds the RS-485 transceiver.
    fn get_requested_gpios(&self) -> (request: GpioRequest)
        ensures
            request@ == Set::<int>::empty().insert(9),
    {
        let mut request = GpioRequest::none();
        request.use_rs485();
        request
    }
}

} // verus!
