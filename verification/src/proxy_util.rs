//! The proxy between client and server: checks of its arguments, the
//! addresses it binds and connects to, and its choice, for each packet, to
//! drop it, forward it, or forward it after a delay.

use vstd::prelude::*;

use crate::networking_util::{check_valid_ip, ip_check_error, IpAddress};
use crate::random::random_in;

verus! {

/// Checks the proxy's two addresses, the listening one first; each is the
/// address text read as an IP address, `None` where it is not one.
pub fn validate_proxy_args(listen_ip: &Option<IpAddress>, target_ip: &Option<IpAddress>) -> (r: Result<(), String>)
    ensures
        match (ip_check_error(*listen_ip), ip_check_error(*target_ip)) {
            (Some(m), _) => r matches Err(e) && e@ == "[PROXY] Ip address error: "@ + m,
            (None, Some(m)) => r matches Err(e) && e@ == "[PROXY] Ip address error: "@ + m,
            (None, None) => r is Ok,
        },
{
    match check_valid_ip(listen_ip) {
        Ok(()) => {},
        Err(e) => {
            let mut s = String::from_str("[PROXY] Ip address error: ");
            s.append(e.as_str());
            return Err(s);
        },
    }
    match check_valid_ip(target_ip) {
        Ok(()) => {},
        Err(e) => {
            let mut s = String::from_str("[PROXY] Ip address error: ");
            s.append(e.as_str());
            return Err(s);
        },
    }
    Ok(())
}

/// The `address:port` text that the proxy binds or connects to.
pub fn socket_address_text(ip: &str, port: &str) -> (s: String)
    ensures
        s@ == ip@ + ":"@ + port@,
{
    let mut s = String::from_str(ip);
    s.append(":");
    s.append(port);
    s
}

/// Whether a roll of `roll + 1` (a number in `1..=100`) beats `chance`.
pub open spec fn roll_beats(roll: int, chance: int) -> bool {
    roll + 1 > chance
}

/// The outcome of a roll: `roll` is a number in `0..100`.
pub fn roll_outcome(roll: u32, chance: u32) -> (b: bool)
    requires
        roll < 100,
    ensures
        b == roll_beats(roll as int, chance as int),
{
    let mut roll = roll;
    roll += 1;
    roll > chance
}

/// Rolls a number in `1..=100` and tells whether it is above `percent`: so
/// the result is `true` with probability `(100 - percent)%`, always for a
/// chance of 0 and never for a chance of 100 or more.
pub fn chance(percent: u32) -> (b: bool)
    ensures
        exists|roll: int| 0 <= roll < 100 && b == roll_beats(roll, percent as int),
        percent == 0 ==> b,
        percent >= 100 ==> !b,
{
    let roll = random_in(0, 99);
    roll_outcome(roll, percent)
}

/// Picks a delay in milliseconds in `min_delay..=max_delay`.
pub fn random_delay(min_delay: u32, max_delay: u32) -> (delay: u32)
    requires
        min_delay <= max_delay,
    ensures
        min_delay <= delay <= max_delay,
{
    random_in(min_delay, max_delay)
}

/// What the proxy does with one packet.
pub enum PacketPlan {
    Drop,
    Forward,
    /// Forward after this many milliseconds.
    ForwardAfter(u32),
    /// A delay is due, but its range `min..=max` is empty, so none can be drawn.
    DelayRangeEmpty,
}

/// The plan for a packet from its two rolls (numbers in `0..100`): it stays
/// when the first roll beats the drop chance, and it is delayed by `delay`
/// when, besides, the second roll does not beat the delay chance.
pub open spec fn packet_plan(
    drop_roll: int,
    delay_roll: int,
    delay: u32,
    drop_percent: u32,
    delay_percent: u32,
) -> PacketPlan {
    if !roll_beats(drop_roll, drop_percent as int) {
        PacketPlan::Drop
    } else if roll_beats(delay_roll, delay_percent as int) {
        PacketPlan::Forward
    } else {
        PacketPlan::ForwardAfter(delay)
    }
}

/// Plans a packet from rolls already made.
pub fn plan_from_rolls(
    drop_roll: u32,
    delay_roll: u32,
    delay: u32,
    drop_percent: u32,
    delay_percent: u32,
) -> (p: PacketPlan)
    requires
        drop_roll < 100,
        delay_roll < 100,
    ensures
        p == packet_plan(drop_roll as int, delay_roll as int, delay, drop_percent, delay_percent),
{
    if !roll_outcome(drop_roll, drop_percent) {
        PacketPlan::Drop
    } else if roll_outcome(delay_roll, delay_percent) {
        PacketPlan::Forward
    } else {
        PacketPlan::ForwardAfter(delay)
    }
}

/// The plan once a delay is to be drawn from `min_delay..=max_delay`: a
/// delay that is due from an empty range is reported as such.
pub open spec fn drawn_plan(
    drop_roll: int,
    delay_roll: int,
    delay: u32,
    drop_percent: u32,
    delay_percent: u32,
    min_delay: u32,
    max_delay: u32,
) -> PacketPlan {
    match packet_plan(drop_roll, delay_roll, delay, drop_percent, delay_percent) {
        PacketPlan::ForwardAfter(d) => if min_delay > max_delay {
            PacketPlan::DelayRangeEmpty
        } else {
            PacketPlan::ForwardAfter(d)
        },
        other => other,
    }
}

/// Plans a packet: a packet is dropped with `drop_percent`% chance; a packet
/// that stays is delayed with `delay_percent`% chance, by a delay in
/// `min_delay..=max_delay`. A delay that is due from an empty range is
/// reported, not drawn.
pub fn plan_packet(drop_percent: u32, delay_percent: u32, min_delay: u32, max_delay: u32) -> (p: PacketPlan)
    ensures
        exists|drop_roll: int, delay_roll: int, delay: u32|
            0 <= drop_roll < 100 && 0 <= delay_roll < 100 && p == drawn_plan(
                drop_roll,
                delay_roll,
                delay,
                drop_percent,
                delay_percent,
                min_delay,
                max_delay,
            ),
        drop_percent == 0 ==> !(p is Drop),
        drop_percent >= 100 ==> p is Drop,
        delay_percent == 0 ==> !(p is ForwardAfter) && !(p is DelayRangeEmpty),
        delay_percent >= 100 && drop_percent == 0 && min_delay <= max_delay ==> p is ForwardAfter,
        delay_percent >= 100 && drop_percent == 0 && min_delay > max_delay ==> p is DelayRangeEmpty,
        p is DelayRangeEmpty ==> min_delay > max_delay,
        p matches PacketPlan::ForwardAfter(d) ==> min_delay <= d <= max_delay,
{
    let drop_roll = random_in(0, 99);
    let delay_roll = if roll_outcome(drop_roll, drop_percent) {
        random_in(0, 99)
    } else {
        0
    };
    let planned = plan_from_rolls(drop_roll, delay_roll, min_delay, drop_percent, delay_percent);
    let ghost witness = drawn_plan(drop_roll as int, delay_roll as int, min_delay, drop_percent, delay_percent, min_delay, max_delay);
    match planned {
        PacketPlan::ForwardAfter(_) => {
            if min_delay > max_delay {
                assert(witness == PacketPlan::DelayRangeEmpty);
                PacketPlan::DelayRangeEmpty
            } else {
                let delay = random_delay(min_delay, max_delay);
                assert(drawn_plan(drop_roll as int, delay_roll as int, delay, drop_percent, delay_percent, min_delay, max_delay) == PacketPlan::ForwardAfter(delay));
                PacketPlan::ForwardAfter(delay)
            }
        },
        other => {
            assert(witness == other);
            other
        },
    }
}

/// How many of the drop rolls `0..n` drop the packet.
pub open spec fn drops_among(
    n: nat,
    delay_roll: int,
    delay: u32,
    drop_percent: u32,
    delay_percent: u32,
) -> nat
    decreases n,
{
    if n == 0 {
        0
    } else {
        drops_among((n - 1) as nat, delay_roll, delay, drop_percent, delay_percent) + if packet_plan(
            n - 1,
            delay_roll,
            delay,
            drop_percent,
            delay_percent,
        ) is Drop {
            1nat
        } else {
            0nat
        }
    }
}

proof fn lemma_drops_among(n: nat, delay_roll: int, delay: u32, drop_percent: u32, delay_percent: u32)
    ensures
        drops_among(n, delay_roll, delay, drop_percent, delay_percent) == if n < drop_percent {
            n
        } else {
            drop_percent as nat
        },
    decreases n,
{
    if n > 0 {
        lemma_drops_among((n - 1) as nat, delay_roll, delay, drop_percent, delay_percent);
    }
}

/// Of the 100 equally likely drop rolls, exactly `drop_percent` of them
/// (all 100 when it is 100 or more) drop the packet, and a roll drops it
/// exactly when the roll plus one is at most `drop_percent`.
pub proof fn law_drop_rolls_match_percent(
    delay_roll: int,
    delay: u32,
    drop_percent: u32,
    delay_percent: u32,
)
    ensures
        drops_among(100, delay_roll, delay, drop_percent, delay_percent) == if drop_percent < 100 {
            drop_percent as nat
        } else {
            100nat
        },
        forall|r: int|
            0 <= r < 100 ==> (#[trigger] packet_plan(r, delay_roll, delay, drop_percent, delay_percent)
                is Drop <==> r + 1 <= drop_percent),
{
    lemma_drops_among(100, delay_roll, delay, drop_percent, delay_percent);
}

} // verus!
