//! The server's side of the exchange: reading a message from a datagram
//! and the acknowledgement it answers with.

use vstd::prelude::*;

use crate::data_types::Message;
use crate::wire::{bincode_decode, bincode_decode_error_text, message_read};

verus! {

/// The report of a datagram that does not decode, from bincode's text for
/// the error.
pub fn decode_error_report(detail: &String) -> (s: String)
    ensures
        s@ == "[SERVER] Decode error: "@ + detail@,
{
    let mut s = String::from_str("[SERVER] Decode error: ");
    s.append(detail.as_str());
    s
}

/// Reads a message from the front of a datagram, with the number of bytes
/// it takes; a datagram that does not start with a message is reported as
/// a decoding error.
pub fn deserialize_message(buffer: &[u8]) -> (r: Result<(Message, usize), String>)
    ensures
        match message_read(buffer@) {
            Some((seq, text, used)) => r matches Ok((m, n)) && m.seq_number == seq && m.message@
                == text && n == used,
            None => r matches Err(e) && e@ == "[SERVER] Decode error: "@ + bincode_decode_error_text(
                buffer@,
            ),
        },
{
    match bincode_decode(buffer) {
        Ok((seq_number, message, used)) => Ok((Message { seq_number, message }, used)),
        Err(detail) => Err(decode_error_report(&detail)),
    }
}

/// The acknowledgement of a message: its sequence number, as one byte.
pub fn ack_payload(data: &Message) -> (ack: Vec<u8>)
    ensures
        ack@ == seq![data.seq_number],
{
    let mut ack = Vec::new();
    ack.push(data.seq_number);
    assert(ack@ =~= seq![data.seq_number]);
    ack
}

/// What the server does with a datagram: the message it carries and the
/// acknowledgement to send back, or the report of a decoding error.
pub fn handle_datagram(buffer: &[u8]) -> (r: Result<(Message, Vec<u8>), String>)
    ensures
        match message_read(buffer@) {
            Some((seq, text, _)) => r matches Ok((m, ack)) && m.seq_number == seq && m.message@
                == text && ack@ == seq![seq],
            None => r matches Err(e) && e@ == "[SERVER] Decode error: "@ + bincode_decode_error_text(
                buffer@,
            ),
        },
{
    match deserialize_message(buffer) {
        Ok((m, _used)) => {
            let ack = ack_payload(&m);
            Ok((m, ack))
        },
        Err(e) => Err(e),
    }
}

} // verus!
