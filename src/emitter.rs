//! Trigger messages: one OSC message with an integer argument, as bytes ready
//! to be sent in a single datagram.

use vstd::prelude::*;
use crate::error::SequencerError;
use vstd::string::StringSliceAdditionalSpecFns;

verus! {

/// The port on the loopback interface that trigger datagrams are sent to.
pub const DESTINATION_PORT: u16 = 8000;

/// The OSC address that every trigger message carries.
pub const TRIGGER_ADDRESS: &'static str = "/prefix/note";

/// The zero bytes that bring a string of `len` bytes to a multiple of four.
pub open spec fn zero_padding(len: nat) -> Seq<u8> {
    Seq::new(((4 - len % 4) % 4) as nat, |i: int| 0u8)
}

/// An OSC string: the bytes, a terminating zero, then zeros up to a
/// multiple of four bytes.
pub open spec fn osc_string(s: Seq<u8>) -> Seq<u8> {
    s.push(0u8) + zero_padding(s.len() + 1)
}

/// The four big-endian bytes of a 32-bit two's complement integer.
pub open spec fn be_i32_bytes(v: i32) -> Seq<u8> {
    let u: int = if v < 0 {
        v + 0x1_0000_0000
    } else {
        v as int
    };
    seq![
        (u / 0x100_0000 % 0x100) as u8,
        (u / 0x1_0000 % 0x100) as u8,
        (u / 0x100 % 0x100) as u8,
        (u % 0x100) as u8,
    ]
}

/// The encoding of an OSC message at `addr` with one 32-bit integer
/// argument: the address, the type tags ",i", then the integer.
pub open spec fn osc_int_message(addr: Seq<u8>, v: i32) -> Seq<u8> {
    osc_string(addr) + osc_string(seq![44u8, 105u8]) + be_i32_bytes(v)
}

#[verifier::external_type_specification]
#[verifier::external_body]
pub struct ExOscError(rosc::OscError);

/// Relies on `rosc::encoder::encode` for a message with one `Int` argument:
/// it writes the address and the type tags as OSC strings, then the integer
/// big-endian, and has no failing path for such a message.
#[verifier::external_body]
fn encode_int_message(addr: &str, value: i32) -> (r: Result<Vec<u8>, rosc::OscError>)
    ensures
        r is Ok,
        r is Ok ==> r->Ok_0@ == osc_int_message(addr.spec_bytes(), value),
{
    let message = rosc::OscMessage { addr: addr.to_owned(), args: Some(vec![rosc::OscType::Int(value)]) };
    rosc::encoder::encode(&rosc::OscPacket::Message(message))
}

/// The bytes of the trigger message whose payload is `counter`. The payload
/// is a 32-bit OSC integer, so a counter past `i32::MAX` cannot be encoded.
pub fn trigger_message(counter: u64) -> (r: Result<Vec<u8>, SequencerError>)
    ensures
        counter <= i32::MAX ==> r is Ok && r->Ok_0@ == osc_int_message(
            TRIGGER_ADDRESS.spec_bytes(),
            counter as i32,
        ),
        counter > i32::MAX ==> r == Err::<Vec<u8>, SequencerError>(
            SequencerError::EncodingFailure,
        ),
{
    if counter > i32::MAX as u64 {
        return Err(SequencerError::EncodingFailure);
    }
    match encode_int_message(TRIGGER_ADDRESS, counter as i32) {
        Ok(bytes) => Ok(bytes),
        Err(_) => Err(SequencerError::EncodingFailure),
    }
}

} // verus!
