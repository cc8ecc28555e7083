//! The client's side of the exchange: messages from typed lines, their
//! bytes on the wire, and the wait for an acknowledgement with resends.

use vstd::prelude::*;

use crate::data_types::Message;
use crate::networking_util::{failure_text, IoFailure};
use crate::text::chars_of;
use crate::wire::{bincode_encode, message_bytes};

verus! {

/// A message holding a sequence number and a typed line.
pub fn create_message(seq_number: u8, user_input: String) -> (m: Message)
    ensures
        m.seq_number == seq_number,
        m.message@ == user_input@,
{
    Message { seq_number, message: user_input }
}

/// The message for a typed line: none for an empty line (a lone newline),
/// which the client skips.
pub fn client_input_message(seq_number: u8, user_input: String) -> (m: Option<Message>)
    ensures
        user_input@ == seq!['\n'] ==> m is None,
        user_input@ != seq!['\n'] ==> (m matches Some(msg) && msg.seq_number == seq_number
            && msg.message@ == user_input@),
{
    let chars = chars_of(user_input.as_str());
    if chars.len() == 1 && chars[0] == '\n' {
        assert(user_input@ =~= seq!['\n']);
        None
    } else {
        Some(create_message(seq_number, user_input))
    }
}

/// The bytes that carry a message to the server.
pub fn encode_message(data: &Message) -> (r: Result<Vec<u8>, String>)
    ensures
        r matches Ok(v) && v@ == message_bytes(data.seq_number, data.message@),
{
    match bincode_encode(data.seq_number, data.message.as_str()) {
        Ok(b) => Ok(b),
        Err(_e) => Err(IoFailure::ClientSerialize.describe()),
    }
}

// ---------------------------------------------------------------------------
// Waiting for an acknowledgement
// ---------------------------------------------------------------------------

/// The wait for the acknowledgement of one message: after a first pause of
/// one second the server is polled up to `retries` times, and after each
/// poll that finds nothing the message is sent again and the client pauses
/// for `timeout` seconds.
pub struct AckWait {
    attempt: i32,
    retries: i32,
    acked: Option<u8>,
    timeout: u64,
}

/// The state of a wait: polls made without an answer, polls allowed, the
/// byte of the acknowledgement once one came, and the pause in seconds
/// after each silent poll.
pub type AckState = (int, int, Option<u8>, u64);

/// Whether a wait in this state polls again.
pub open spec fn ack_polling(s: AckState) -> bool {
    s.2 is None && s.0 < s.1
}

/// The state after one poll: an answer ends the wait, silence counts one
/// more attempt.
pub open spec fn ack_step(s: AckState, reply: Option<u8>) -> AckState {
    match reply {
        Some(b) => (s.0, s.1, Some(b), s.3),
        None => (s.0 + 1, s.1, None, s.3),
    }
}

/// The state after `k` polls that found nothing, from the start of a wait.
pub open spec fn after_silence(retries: int, timeout: u64, k: nat) -> AckState
    decreases k,
{
    if k == 0 {
        (0, retries, None, timeout)
    } else {
        ack_step(after_silence(retries, timeout, (k - 1) as nat), None)
    }
}

/// What the client does after a poll.
pub enum AckAction {
    /// An acknowledgement came, holding this byte.
    Acknowledged(u8),
    /// Nothing came on poll number `n` (from 0): send the message again,
    /// then pause for the given number of seconds.
    Resend(i32, u64),
}

impl View for AckWait {
    type V = AckState;

    closed spec fn view(&self) -> AckState {
        (self.attempt as int, self.retries as int, self.acked, self.timeout)
    }
}

impl AckWait {
    #[verifier::type_invariant]
    closed spec fn inv(self) -> bool {
        &&& 0 <= self.attempt
        &&& self.attempt <= if self.retries > 0 {
            self.retries
        } else {
            0
        }
    }

    /// A wait that has made no poll yet.
    pub fn new(retries: i32, timeout: u64) -> (w: AckWait)
        ensures
            w@ == (0int, retries as int, None::<u8>, timeout),
    {
        AckWait { attempt: 0, retries, acked: None, timeout }
    }

    /// The pause, in seconds, before the first poll.
    pub fn first_pause_secs(&self) -> (secs: u64)
        ensures
            secs == 1,
    {
        1
    }

    /// Whether the client polls again: no answer yet, and polls left.
    pub fn attempts_left(&self) -> (b: bool)
        ensures
            b == ack_polling(self@),
    {
        self.acked.is_none() && self.attempt < self.retries
    }

    /// Takes the result of one poll: the byte received, or `None`.
    pub fn record(&mut self, reply: Option<u8>) -> (action: AckAction)
        requires
            ack_polling(old(self)@),
        ensures
            final(self)@ == ack_step(old(self)@, reply),
            reply matches Some(b) ==> action == AckAction::Acknowledged(b),
            reply is None ==> action == AckAction::Resend(old(self)@.0 as i32, old(self)@.3),
    {
        proof {
            use_type_invariant(&*self);
        }
        match reply {
            Some(b) => {
                self.acked = Some(b);
                AckAction::Acknowledged(b)
            },
            None => {
                let n = self.attempt;
                self.attempt = self.attempt + 1;
                AckAction::Resend(n, self.timeout)
            },
        }
    }

    /// How the wait ended: `Ok` once acknowledged, else the report that no
    /// acknowledgement came.
    pub fn outcome(&self) -> (r: Result<(), String>)
        requires
            !ack_polling(self@),
        ensures
            self@.2 is Some ==> r is Ok,
            self@.2 is None ==> (r matches Err(e) && e@ == failure_text(IoFailure::NoAck)),
    {
        if self.acked.is_some() {
            Ok(())
        } else {
            Err(IoFailure::NoAck.describe())
        }
    }
}

/// A wait that finds nothing polls exactly `retries` times (none when
/// `retries` is not positive): after `k` silent polls, `k` attempts are
/// counted and the wait goes on exactly while `k < retries`.
pub proof fn law_gives_up_after_retries(retries: int, timeout: u64, k: nat)
    requires
        k <= retries || k == 0,
    ensures
        after_silence(retries, timeout, k) == (k as int, retries, None::<u8>, timeout),
        ack_polling(after_silence(retries, timeout, k)) <==> k < retries,
    decreases k,
{
    if k > 0 {
        law_gives_up_after_retries(retries, timeout, (k - 1) as nat);
    }
}

/// An answer on any poll ends the wait as acknowledged, with no further
/// resend.
pub proof fn law_answer_ends_wait(s: AckState, b: u8)
    requires
        ack_polling(s),
    ensures
        ack_step(s, Some(b)).2 == Some(b),
        !ack_polling(ack_step(s, Some(b))),
        ack_step(s, Some(b)).0 == s.0,
{
}

} // verus!
