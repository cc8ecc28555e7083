//! The on-the-wire form of a message: bincode's standard configuration
//! applied to a sequence number and a text.
//!
//! A message is its sequence number as one byte, then the length of the
//! text's UTF-8 bytes as a bincode variable-length integer, then those bytes.

use vstd::prelude::*;
use vstd::utf8::*;

verus! {

#[verifier::external_type_specification]
#[verifier::external_body]
pub struct ExEncodeError(bincode::error::EncodeError);

// ---------------------------------------------------------------------------
// The format
// ---------------------------------------------------------------------------

/// `256` to the power `n`.
pub open spec fn pow256(n: nat) -> nat
    decreases n,
{
    if n == 0 {
        1
    } else {
        256 * pow256((n - 1) as nat)
    }
}

/// The little-endian value of a byte sequence.
pub open spec fn le_value(b: Seq<u8>) -> nat
    decreases b.len(),
{
    if b.len() == 0 {
        0
    } else {
        b[0] as nat + 256 * le_value(b.drop_first())
    }
}

/// The `n` low bytes of `v`, least significant first.
pub open spec fn le_bytes(v: nat, n: nat) -> Seq<u8>
    decreases n,
{
    if n == 0 {
        seq![]
    } else {
        seq![(v % 256) as u8] + le_bytes(v / 256, (n - 1) as nat)
    }
}

/// bincode's variable-length encoding of an unsigned integer below `2^64`.
pub open spec fn varint_bytes(v: nat) -> Seq<u8> {
    if v < 251 {
        seq![v as u8]
    } else if v < 0x1_0000 {
        seq![251u8] + le_bytes(v, 2)
    } else if v < 0x1_0000_0000 {
        seq![252u8] + le_bytes(v, 4)
    } else {
        seq![253u8] + le_bytes(v, 8)
    }
}

/// The bytes of a message with sequence number `seq` and text `text`.
pub open spec fn message_bytes(seq: u8, text: Seq<char>) -> Seq<u8> {
    let body = encode_utf8(text);
    seq![seq] + varint_bytes(body.len()) + body
}

/// Reads a bincode variable-length unsigned integer (as a `u64`) from the
/// front of `b`: its value and the number of bytes it takes. A marker byte
/// is followed by the value in 2, 4 or 8 little-endian bytes; the marker of
/// 128-bit values and the reserved byte are refused.
pub open spec fn varint_read(b: Seq<u8>) -> Option<(nat, nat)> {
    if b.len() == 0 {
        None
    } else if b[0] < 251 {
        Some((b[0] as nat, 1))
    } else if b[0] == 251 {
        if b.len() >= 3 {
            Some((le_value(b.subrange(1, 3)), 3))
        } else {
            None
        }
    } else if b[0] == 252 {
        if b.len() >= 5 {
            Some((le_value(b.subrange(1, 5)), 5))
        } else {
            None
        }
    } else if b[0] == 253 {
        if b.len() >= 9 {
            Some((le_value(b.subrange(1, 9)), 9))
        } else {
            None
        }
    } else {
        None
    }
}

/// Reads a message from the front of `b`: its sequence number, its text and
/// the number of bytes it takes; `None` where `b` does not start with one.
pub open spec fn message_read(b: Seq<u8>) -> Option<(u8, Seq<char>, nat)> {
    if b.len() == 0 {
        None
    } else {
        match varint_read(b.drop_first()) {
            None => None,
            Some((len, used)) => {
                let start = 1 + used;
                if len > usize::MAX || start + len > b.len() {
                    None
                } else {
                    let body = b.subrange(start as int, (start + len) as int);
                    if valid_utf8(body) {
                        Some((b[0], decode_utf8(body), (start + len) as nat))
                    } else {
                        None
                    }
                }
            },
        }
    }
}

// ---------------------------------------------------------------------------
// Calls into bincode
// ---------------------------------------------------------------------------

/// Encodes a sequence number and a text as one message.
///
/// Trusted: calls `bincode::encode_to_vec` on the pair `(seq, text)` with
/// `bincode::config::standard()`, which encodes the fields of a tuple in
/// order, a `u8` as its one byte and a string as its UTF-8 length (a
/// variable-length integer) followed by its UTF-8 bytes. Encoding into a
/// vector has no failing step, so the call always succeeds.
#[verifier::external_body]
pub(crate) fn bincode_encode(seq: u8, text: &str) -> (r: Result<Vec<u8>, bincode::error::EncodeError>)
    ensures
        r is Ok,
        r matches Ok(v) ==> v@ == message_bytes(seq, text@),
{
    bincode::encode_to_vec((seq, text), bincode::config::standard())
}

/// The text that bincode gives, through the `Display` impl of its
/// `DecodeError`, for its failure to decode a message from `bytes`.
pub uninterp spec fn bincode_decode_error_text(bytes: Seq<u8>) -> Seq<char>;

/// Decodes one message from the front of `bytes`.
///
/// Trusted: calls `bincode::borrow_decode_from_slice` for the pair
/// `(u8, &str)` with `bincode::config::standard()`; this reads a `u8`, a
/// `u64` variable-length integer, that many bytes, and checks them as
/// UTF-8, and it gives the values and the number of bytes read. It fails
/// exactly where `message_read` has no value, and then gives bincode's
/// error as text, which depends on the bytes alone and is named, not stated.
#[verifier::external_body]
pub(crate) fn bincode_decode(bytes: &[u8]) -> (r: Result<(u8, String, usize), String>)
    ensures
        r is Ok <==> message_read(bytes@) is Some,
        r matches Ok(t) ==> message_read(bytes@) == Some((t.0, t.1@, t.2 as nat)),
        r matches Err(t) ==> t@ == bincode_decode_error_text(bytes@),
{
    match bincode::borrow_decode_from_slice::<(u8, &str), _>(bytes, bincode::config::standard()) {
        Ok(((seq, text), used)) => Ok((seq, text.to_string(), used)),
        Err(e) => Err(format!("{}", e)),
    }
}

// ---------------------------------------------------------------------------
// Round trip
// ---------------------------------------------------------------------------

proof fn lemma_le_round_trip(v: nat, n: nat)
    requires
        v < pow256(n),
    ensures
        le_bytes(v, n).len() == n,
        le_value(le_bytes(v, n)) == v,
    decreases n,
{
    if n > 0 {
        let p = pow256((n - 1) as nat);
        assert(v / 256 < p) by (nonlinear_arith)
            requires
                v < 256 * p,
        ;
        lemma_le_round_trip(v / 256, (n - 1) as nat);
        let b = le_bytes(v, n);
        assert(b.drop_first() =~= le_bytes(v / 256, (n - 1) as nat));
        assert(v == v % 256 + 256 * (v / 256));
    }
}

proof fn lemma_varint_round_trip(v: nat, rest: Seq<u8>)
    requires
        v <= usize::MAX,
    ensures
        varint_read(varint_bytes(v) + rest) == Some((v, varint_bytes(v).len())),
{
    reveal_with_fuel(pow256, 9);
    let b = varint_bytes(v) + rest;
    if v < 251 {
    } else if v < 0x1_0000 {
        lemma_le_round_trip(v, 2);
        assert(b.subrange(1, 3) =~= le_bytes(v, 2));
    } else if v < 0x1_0000_0000 {
        lemma_le_round_trip(v, 4);
        assert(b.subrange(1, 5) =~= le_bytes(v, 4));
    } else {
        lemma_le_round_trip(v, 8);
        assert(b.subrange(1, 9) =~= le_bytes(v, 8));
    }
}

/// Reading the bytes of a message gives back its sequence number and its
/// text, and takes all of the bytes; any bytes after them are left alone.
pub proof fn law_message_round_trip(seq: u8, text: Seq<char>, rest: Seq<u8>)
    requires
        encode_utf8(text).len() <= usize::MAX,
    ensures
        message_read(message_bytes(seq, text) + rest) == Some(
            (seq, text, message_bytes(seq, text).len()),
        ),
{
    let body = encode_utf8(text);
    let v = varint_bytes(body.len());
    let b = message_bytes(seq, text) + rest;
    assert(b.drop_first() =~= v + (body + rest));
    lemma_varint_round_trip(body.len(), body + rest);
    let start = 1 + v.len();
    assert(b.subrange(start as int, (start + body.len()) as int) =~= body);
    encode_utf8_valid_utf8(text);
    encode_utf8_decode_utf8(text);
}

} // verus!
