//! The protocol of a SkyWatcher mount on a serial line.
//!
//! A command is a colon, a letter, an axis and an optional number of six
//! hexadecimal digits, closed by a carriage return. Positions are steps of a
//! 24-bit circle.

use crate::number::{
    decimal, decimal_text, digit_char, hex6, is_digit_of, is_numeral, law_hex6_round_trip,
    numeral_value, padded_text, parse_in_base, read_in_base,
};
use crate::text::{chars_of, concat2, same_text, texts};
use vstd::arithmetic::div_mod::{lemma_fundamental_div_mod, lemma_fundamental_div_mod_converse};
use vstd::prelude::*;
use vstd::slice::slice_subrange;

verus! {

/// The number of steps of a full turn.
pub const TOTAL_STEPS_24BIT: u32 = 16_777_216;

/// A distance of fewer steps counts as arrived.
pub const ARRIVAL_STEPS: u32 = 20_000;

/// The number of steps that a tracking mount is sent ahead.
pub const TRACKING_STEPS: u32 = 200_000;

/// The speed of a slew.
pub const SLEW_SPEED: u32 = 0x0100;

/// The clock of the mount, in ticks per second.
pub const INTERNAL_CLOCK_FREQ: u64 = 6_000_000;

/// A sidereal day, in tenths of a millisecond.
pub const SIDEREAL_DAY_TENTHS_MS: u64 = 861_640_905;

// ---------------------------------------------------------------------------
// Commands and replies
// ---------------------------------------------------------------------------

/// The bytes of a command on the line, as text.
pub open spec fn framed(command: Seq<char>) -> Seq<char> {
    ":"@ + command + "\r"@
}

/// The bytes of a command on the line, as text.
pub fn frame_command(command: &str) -> (r: String)
    ensures
        r@ == framed(command@),
{
    let mut out = ":".to_owned();
    out.append(command);
    out.append("\r");
    out
}

/// Takes one byte of a reply in. Returns whether the reply is complete.
pub fn take_byte(reply: &mut String, byte: u8) -> (complete: bool)
    ensures
        complete == (byte == 13),
        final(reply)@ == if byte == 13 {
            old(reply)@
        } else {
            old(reply)@.push(byte as char)
        },
{
    if byte == 13 {
        true
    } else {
        reply.push(byte as char);
        false
    }
}

/// A command without a number.
pub open spec fn plain_command(letter: Seq<char>, axis: nat) -> Seq<char> {
    letter + decimal(axis)
}

/// A command with a number.
pub open spec fn number_command(letter: Seq<char>, axis: nat, n: nat) -> Seq<char> {
    letter + decimal(axis) + hex6(n)
}

fn plain(letter: &str, axis: u8) -> (r: String)
    ensures
        r@ == plain_command(letter@, axis as nat),
{
    concat2(letter, decimal_text(axis as u64).as_str())
}

fn with_number(letter: &str, axis: u8, n: u32) -> (r: String)
    ensures
        r@ == number_command(letter@, axis as nat, n as nat),
{
    let mut out = plain(letter, axis);
    out.append(padded_text(n as u64, 16, 6).as_str());
    out
}

/// The command that stops an axis.
pub fn stop(axis: u8) -> (r: String)
    ensures
        r@ == plain_command("K"@, axis as nat),
{
    plain("K", axis)
}

/// The command that initialises an axis.
pub fn init_axis(axis: u8) -> (r: String)
    ensures
        r@ == plain_command("F"@, axis as nat),
{
    plain("F", axis)
}

/// The command that asks for the position of an axis.
pub fn get_position(axis: u8) -> (r: String)
    ensures
        r@ == plain_command("j"@, axis as nat),
{
    plain("j", axis)
}

/// The command that asks for the status of an axis.
pub fn is_moving(axis: u8) -> (r: String)
    ensures
        r@ == plain_command("f"@, axis as nat),
{
    plain("f", axis)
}

/// Checks a reply that should be a bare equals sign.
pub fn accepted(reply: &str, fault: &str) -> (r: Result<(), String>)
    ensures
        match r {
            Ok(_) => reply@ == "="@,
            Err(e) => reply@ != "="@ && e@ == fault@ + reply@,
        },
{
    if same_text(reply, "=") {
        Ok(())
    } else {
        Err(concat2(fault, reply))
    }
}

/// Checks the reply to the initialisation.
pub fn init_reply(reply: &str) -> (r: Result<(), String>)
    ensures
        match r {
            Ok(_) => reply@ == "="@,
            Err(e) => reply@ != "="@ && e@ == "Init failed: "@ + reply@,
        },
{
    accepted(reply, "Init failed: ")
}

/// The three low bytes of a number in the opposite order.
pub open spec fn swapped(raw: int) -> int {
    (raw % 256) * 65536 + (raw / 256 % 256) * 256 + raw / 65536 % 256
}

fn swap_bytes(raw: u32) -> (r: u32)
    ensures
        r == swapped(raw as int),
        r < TOTAL_STEPS_24BIT,
{
    (raw % 256) * 65536 + (raw / 256 % 256) * 256 + raw / 65536 % 256
}

/// The position that a reply tells.
pub open spec fn position_in(reply: Seq<char>) -> Option<int> {
    if reply.len() > 0 && reply[0] == '=' {
        match parse_in_base(reply.skip(1), 16, 0xffff_ffff) {
            Some(raw) => Some(swapped(raw as int)),
            None => None,
        }
    } else {
        None
    }
}

/// Reads the position out of a reply: an equals sign and hexadecimal digits,
/// the low byte first.
pub fn position_reply(reply: &str) -> (r: Result<u32, String>)
    ensures
        match r {
            Ok(p) => position_in(reply@) == Some(p as int) && p < TOTAL_STEPS_24BIT,
            Err(e) => position_in(reply@) is None && e@ == if reply@.len() > 0 && reply@[0] == '=' {
                "Invalid hex: "@ + reply@
            } else {
                "Bad position response: "@ + reply@
            },
        },
{
    let s = chars_of(reply);
    if s.len() == 0 || s[0] != '=' {
        return Err(concat2("Bad position response: ", reply));
    }
    let digits = slice_subrange(s.as_slice(), 1, s.len());
    assert(digits@ =~= reply@.skip(1));
    match read_in_base(digits, 16, 0xffff_ffff) {
        Some(raw) => Ok(swap_bytes(raw as u32)),
        None => Err(concat2("Invalid hex: ", reply)),
    }
}

/// The reply holds only characters that come from one byte each, and its
/// status byte is not cut in half.
pub open spec fn is_line_text(reply: Seq<char>) -> bool {
    &&& forall|i: int| 0 <= i < reply.len() ==> (#[trigger] reply[i]) as u32 <= 0xff
    &&& reply.len() >= 3 && reply[1] as u32 <= 0x7f ==> reply[2] as u32 <= 0x7f
}

/// Whether the reply holds only characters that come from one byte each, and
/// its status byte is not cut in half.
pub fn is_whole_line(reply: &str) -> (r: bool)
    ensures
        r == is_line_text(reply@),
{
    let s = chars_of(reply);
    for i in 0..s.len()
        invariant
            s@ == reply@,
            forall|k: int| 0 <= k < i ==> (#[trigger] s@[k]) as u32 <= 0xff,
    {
        if s[i] as u32 > 0xff {
            return false;
        }
    }
    !(s.len() >= 3 && s[1] as u32 <= 0x7f && s[2] as u32 > 0x7f)
}

/// The reply is long enough to hold a status: an equals sign and two bytes.
pub open spec fn has_status(reply: Seq<char>) -> bool {
    &&& reply.len() > 0
    &&& reply[0] == '='
    &&& reply.len() >= 3 || (reply.len() == 2 && reply[1] as u32 > 0x7f)
}

/// The status in a reply says that the axis moves.
pub open spec fn moving_in(reply: Seq<char>) -> bool {
    &&& reply[1] as u32 <= 0x7f
    &&& match parse_in_base(reply.subrange(1, 3), 16, 255) {
        Some(v) => v % 2 == 1,
        None => false,
    }
}

/// Reads out of a reply whether the axis moves.
pub fn moving_reply(reply: &str) -> (r: Result<bool, String>)
    requires
        is_line_text(reply@),
    ensures
        match r {
            Ok(moving) => has_status(reply@) && moving == moving_in(reply@),
            Err(e) => !has_status(reply@) && e@ == "Bad status response: "@ + reply@,
        },
{
    let s = chars_of(reply);
    let n = s.len();
    let long = n >= 3 || (n == 2 && s[1] as u32 > 0x7f);
    if n == 0 || s[0] != '=' || !long {
        return Err(concat2("Bad status response: ", reply));
    }
    if s[1] as u32 > 0x7f {
        return Ok(false);
    }
    let low = slice_subrange(s.as_slice(), 1, 3);
    match read_in_base(low, 16, 255) {
        Some(status) => Ok(status % 2 == 1),
        None => Ok(false),
    }
}

// ---------------------------------------------------------------------------
// Slews
// ---------------------------------------------------------------------------

/// The position `delta` steps from `start` on the circle.
pub open spec fn moved(start: int, delta: int) -> int {
    (start + delta) % (TOTAL_STEPS_24BIT as int)
}

/// The position `delta` steps from `start` on the circle.
pub fn slew_target(start: u32, delta: i64) -> (r: u32)
    requires
        start < TOTAL_STEPS_24BIT,
    ensures
        r == moved(start as int, delta as int),
        r < TOTAL_STEPS_24BIT,
{
    let sum: i128 = start as i128 + delta as i128;
    let total: i128 = TOTAL_STEPS_24BIT as i128;
    if sum >= 0 {
        (sum % total) as u32
    } else {
        let below: i128 = -sum;
        let back: i128 = below % total;
        proof {
            let t = TOTAL_STEPS_24BIT as int;
            lemma_fundamental_div_mod(below as int, t);
            let q = below as int / t;
            if back == 0 {
                lemma_fundamental_div_mod_converse(
                    sum as int,
                    t,
                    -q,
                    0,
                );
            } else {
                lemma_fundamental_div_mod_converse(
                    sum as int,
                    t,
                    -q - 1,
                    t - back as int,
                );
            }
        }
        if back == 0 {
            0
        } else {
            (total - back) as u32
        }
    }
}

/// The commands of a slew: direction, speed, target, start.
pub open spec fn slew_commands(axis: nat, start: int, delta: int) -> Seq<Seq<char>> {
    seq![
        plain_command(
            if delta >= 0 {
                "G"@
            } else {
                "H"@
            },
            axis,
        ),
        number_command("I"@, axis, SLEW_SPEED as nat),
        number_command("S"@, axis, moved(start, delta) as nat),
        plain_command("J"@, axis),
    ]
}

/// The commands of a slew by `delta` steps from `start`. The reply to the last
/// is checked with `go_reply`.
pub fn slew_relative(axis: u8, start: u32, delta: i64) -> (r: (u32, Vec<String>))
    requires
        start < TOTAL_STEPS_24BIT,
    ensures
        r.0 == moved(start as int, delta as int),
        r.0 < TOTAL_STEPS_24BIT,
        texts(r.1@) == slew_commands(axis as nat, start as int, delta as int),
{
    let target = slew_target(start, delta);
    let mut commands: Vec<String> = Vec::new();
    commands.push(
        plain(
            if delta >= 0 {
                "G"
            } else {
                "H"
            },
            axis,
        ),
    );
    commands.push(with_number("I", axis, SLEW_SPEED));
    commands.push(with_number("S", axis, target));
    commands.push(plain("J", axis));
    assert(texts(commands@) =~= slew_commands(
        axis as nat,
        start as int,
        delta as int,
    ));
    (target, commands)
}

/// Checks the reply to the start of a slew.
pub fn go_reply(reply: &str) -> (r: Result<(), String>)
    ensures
        match r {
            Ok(_) => reply@ == "="@,
            Err(e) => reply@ != "="@ && e@ == "Go failed: "@ + reply@,
        },
{
    accepted(reply, "Go failed: ")
}

/// The number of steps between two positions, the shorter way round.
pub open spec fn distance(a: int, b: int) -> int {
    let diff = if a >= b {
        a - b
    } else {
        b - a
    };
    if diff > TOTAL_STEPS_24BIT / 2 {
        TOTAL_STEPS_24BIT - diff
    } else {
        diff
    }
}

/// The number of steps between two positions, the shorter way round.
pub fn step_distance(a: u32, b: u32) -> (r: u32)
    requires
        a < TOTAL_STEPS_24BIT,
        b < TOTAL_STEPS_24BIT,
    ensures
        r == distance(a as int, b as int),
{
    let diff: u32 = if a >= b {
        a - b
    } else {
        b - a
    };
    if diff > TOTAL_STEPS_24BIT / 2 {
        TOTAL_STEPS_24BIT - diff
    } else {
        diff
    }
}

/// What to do while a slew runs.
#[derive(Debug, Clone, Copy, PartialEq, Eq, Structural)]
pub enum SlewNext {
    /// Wait this many milliseconds and ask for the position.
    AskPosition { after_ms: u64 },
    /// Stop the axis.
    Stop,
    /// Wait this many milliseconds and ask for the status.
    AskStatus { after_ms: u64 },
    /// The slew is over.
    Done,
}

/// What to do at a position of a slew.
pub fn at_position(target: u32, current: u32) -> (r: SlewNext)
    requires
        target < TOTAL_STEPS_24BIT,
        current < TOTAL_STEPS_24BIT,
    ensures
        r == if distance(target as int, current as int) < ARRIVAL_STEPS {
            SlewNext::Stop
        } else {
            SlewNext::AskPosition { after_ms: 150 }
        },
        r is Stop <==> distance(target as int, current as int) < 20_000,
{
    if step_distance(target, current) < ARRIVAL_STEPS {
        SlewNext::Stop
    } else {
        SlewNext::AskPosition { after_ms: 150 }
    }
}

/// What to do when the axis was told to stop and its status was asked for,
/// `waited` whole seconds later. No longer than three seconds is waited.
pub fn while_stopping(waited: u64, moving: bool) -> (r: SlewNext)
    ensures
        r == if waited > 3 || !moving {
            SlewNext::Done
        } else {
            SlewNext::AskStatus { after_ms: 100 }
        },
{
    if waited > 3 || !moving {
        SlewNext::Done
    } else {
        SlewNext::AskStatus { after_ms: 100 }
    }
}

// ---------------------------------------------------------------------------
// Tracking
// ---------------------------------------------------------------------------

/// The number of clock ticks per step at which the mount turns once in a
/// sidereal day, rounded.
pub open spec fn sidereal_divisor() -> int {
    let ticks = INTERNAL_CLOCK_FREQ as int * SIDEREAL_DAY_TENTHS_MS as int;
    let steps = TOTAL_STEPS_24BIT as int * 10_000;
    (2 * ticks + steps) / (2 * steps)
}

/// The products in the divisor, worked out.
proof fn lemma_sidereal_divisor()
    ensures
        INTERNAL_CLOCK_FREQ as int * SIDEREAL_DAY_TENTHS_MS as int == 5_169_845_430_000_000,
        sidereal_divisor() == 30_815,
{
    let ticks = INTERNAL_CLOCK_FREQ as int * SIDEREAL_DAY_TENTHS_MS as int;
    assert(ticks == 5_169_845_430_000_000) by (nonlinear_arith)
        requires
            ticks == 6_000_000 * 861_640_905,
    ;
    let steps = TOTAL_STEPS_24BIT as int * 10_000;
    assert(steps == 167_772_160_000);
    lemma_fundamental_div_mod_converse(
        2 * ticks + steps,
        2 * steps,
        30_815,
        2 * ticks + steps - 30_815 * (2 * steps),
    );
}

/// The number of clock ticks per step at which the mount turns once in a
/// sidereal day, rounded.
pub fn clock_divisor() -> (r: u32)
    ensures
        r == sidereal_divisor(),
        r == 30_815,
{
    proof {
        lemma_sidereal_divisor();
    }
    let ticks: u64 = INTERNAL_CLOCK_FREQ * SIDEREAL_DAY_TENTHS_MS;
    let steps: u64 = TOTAL_STEPS_24BIT as u64 * 10_000;
    ((2 * ticks + steps) / (2 * steps)) as u32
}

/// The commands before the position is asked for: no ramp, west, speed. The
/// speed comes before the target, since the mount computes its ramps from the
/// speed it knows.
pub open spec fn tracking_setup(axis: nat) -> Seq<Seq<char>> {
    seq![
        number_command("U"@, axis, 0),
        plain_command("H"@, axis),
        number_command("I"@, axis, sidereal_divisor() as nat),
    ]
}

/// The commands behind the position: target, start.
pub open spec fn tracking_start(axis: nat, current: int) -> Seq<Seq<char>> {
    seq![
        number_command("S"@, axis, moved(current, -(TRACKING_STEPS as int)) as nat),
        plain_command("J"@, axis),
    ]
}

/// The commands that a stopped axis gets before its position is asked for.
pub fn sidereal_setup(axis: u8) -> (r: Vec<String>)
    ensures
        texts(r@) == tracking_setup(axis as nat),
{
    let mut commands: Vec<String> = Vec::new();
    commands.push(with_number("U", axis, 0));
    commands.push(plain("H", axis));
    commands.push(with_number("I", axis, clock_divisor()));
    assert(texts(commands@) =~= tracking_setup(axis as nat));
    commands
}

/// The commands that start the tracking at a position. The reply to the last
/// is checked with `tracking_reply`.
pub fn sidereal_start(axis: u8, current: u32) -> (r: (u32, Vec<String>))
    requires
        current < TOTAL_STEPS_24BIT,
    ensures
        r.0 == moved(current as int, -(TRACKING_STEPS as int)),
        r.0 < TOTAL_STEPS_24BIT,
        texts(r.1@) == tracking_start(axis as nat, current as int),
{
    let target = slew_target(current, -(TRACKING_STEPS as i64));
    let mut commands: Vec<String> = Vec::new();
    commands.push(with_number("S", axis, target));
    commands.push(plain("J", axis));
    assert(texts(commands@) =~= tracking_start(axis as nat, current as int));
    (target, commands)
}

/// Checks the reply to the start of the tracking.
pub fn tracking_reply(reply: &str) -> (r: Result<(), String>)
    ensures
        match r {
            Ok(_) => reply@ == "="@,
            Err(e) => reply@ != "="@ && e@ == "Start tracking failed: "@ + reply@,
        },
{
    accepted(reply, "Start tracking failed: ")
}

/// The steps from one position forward to another.
pub open spec fn forward(from: int, to: int) -> int {
    moved(to, -from)
}

/// What a number of steps per second means.
pub open spec fn tracking_verdict(diff: int) -> Seq<char> {
    if 180 <= diff <= 210 {
        "YES (Sidereal)"@
    } else if diff > 0 {
        "DRIFTING (Too Slow)"@
    } else {
        "STOPPED"@
    }
}

/// The steps of a second, and what they mean.
pub fn check_tracking(last: u32, current: u32) -> (r: (u32, String))
    requires
        last < TOTAL_STEPS_24BIT,
        current < TOTAL_STEPS_24BIT,
    ensures
        r.0 == forward(last as int, current as int),
        r.1@ == tracking_verdict(r.0 as int),
{
    let diff: u32 = if current >= last {
        current - last
    } else {
        (TOTAL_STEPS_24BIT - last) + current
    };
    let verdict = if diff >= 180 && diff <= 210 {
        "YES (Sidereal)".to_owned()
    } else if diff > 0 {
        "DRIFTING (Too Slow)".to_owned()
    } else {
        "STOPPED".to_owned()
    };
    (diff, verdict)
}

// ---------------------------------------------------------------------------
// Laws
// ---------------------------------------------------------------------------

/// Swapping the bytes of a 24-bit number twice gives the number back.
pub proof fn law_swap_twice(raw: int)
    requires
        0 <= raw < TOTAL_STEPS_24BIT,
    ensures
        swapped(swapped(raw)) == raw,
        0 <= swapped(raw) < TOTAL_STEPS_24BIT,
{
    let a = raw % 256;
    let b = raw / 256 % 256;
    let c = raw / 65536 % 256;
    let s = a * 65536 + b * 256 + c;
    assert(s % 256 == c && s / 256 % 256 == b && s / 65536 % 256 == a);
}

/// The position that a mount tells, low byte first, is read as it was meant.
pub proof fn law_position_read_back(position: int)
    requires
        0 <= position < TOTAL_STEPS_24BIT,
    ensures
        position_in(seq!['='] + hex6(swapped(position) as nat)) == Some(position),
{
    law_swap_twice(position);
    law_hex6_round_trip(swapped(position) as nat);
    let reply = seq!['='] + hex6(swapped(position) as nat);
    assert(reply.skip(1) =~= hex6(swapped(position) as nat));
}

/// The distance is the same both ways, never more than half a turn, and zero
/// only between equal positions.
pub proof fn law_distance(a: int, b: int)
    requires
        0 <= a < TOTAL_STEPS_24BIT,
        0 <= b < TOTAL_STEPS_24BIT,
    ensures
        distance(a, b) == distance(b, a),
        0 <= distance(a, b) <= TOTAL_STEPS_24BIT / 2,
        distance(a, b) == 0 <==> a == b,
{
}

/// A slew and the slew back end where they began.
pub proof fn law_slew_and_back(start: int, delta: int)
    requires
        0 <= start < TOTAL_STEPS_24BIT,
    ensures
        moved(moved(start, delta), -delta) == start,
{
    let t = TOTAL_STEPS_24BIT as int;
    let m = (start + delta) % t;
    lemma_fundamental_div_mod(start + delta, t);
    let q = (start + delta) / t;
    assert(m - delta == start - t * q);
    assert(start - t * q == (-q) * t + start) by (nonlinear_arith);
    lemma_fundamental_div_mod_converse(m - delta, t, -q, start);
}

/// The way forward, taken from the first position, leads to the second.
pub proof fn law_forward_arrives(from: int, to: int)
    requires
        0 <= from < TOTAL_STEPS_24BIT,
        0 <= to < TOTAL_STEPS_24BIT,
    ensures
        moved(from, forward(from, to)) == to,
{
    law_slew_and_back(to, -from);
    assert(forward(from, to) + from == from + forward(from, to));
}

/// A command stands between a colon and a carriage return.
pub proof fn law_frame_of_a_command(command: Seq<char>)
    ensures
        framed(command) == seq![':'] + command + seq!['\r'],
{
    reveal_strlit(":");
    reveal_strlit("\r");
    assert(framed(command) =~= seq![':'] + command + seq!['\r']);
}

/// The number of a command has six hexadecimal digits behind the letter and the
/// axis, and is read back from them.
pub proof fn law_number_of_a_command(letter: Seq<char>, axis: nat, n: nat)
    requires
        n < 0x100_0000,
    ensures
        ({
            let c = number_command(letter, axis, n);
            let head = letter + decimal(axis);
            &&& c.len() == head.len() + 6
            &&& c.take(head.len() as int) == head
            &&& parse_in_base(c.skip(head.len() as int), 16, 0xffff_ffff) == Some(n)
            &&& plain_command(letter, axis) == head
        }),
{
    law_hex6_round_trip(n);
    let c = number_command(letter, axis, n);
    let head = letter + decimal(axis);
    assert(c.take(head.len() as int) =~= head);
    assert(c.skip(head.len() as int) =~= hex6(n));
}

/// The position behind a slew lies on the circle, and differs from the way that
/// was asked for by whole turns.
pub proof fn law_slew_goes_the_way(start: int, delta: int)
    ensures
        0 <= moved(start, delta) < 16_777_216,
        exists|turns: int|
            start + delta == #[trigger] (turns * 16_777_216) + moved(start, delta),
        0 <= start + delta < 16_777_216 ==> moved(start, delta) == start + delta,
{
    let t = 16_777_216int;
    lemma_fundamental_div_mod(start + delta, t);
    let q = (start + delta) / t;
    assert(t * q == q * t) by (nonlinear_arith);
    assert(start + delta == (q * t) + moved(start, delta));
}

/// A slew is set up in four commands: the direction, "G" forward and "H"
/// backward, the speed, the target, and the start.
pub proof fn law_commands_of_a_slew(axis: nat, start: int, delta: int)
    ensures
        ({
            let c = slew_commands(axis, start, delta);
            &&& c.len() == 4
            &&& delta >= 0 ==> c[0] == "G"@ + decimal(axis)
            &&& delta < 0 ==> c[0] == "H"@ + decimal(axis)
            &&& c[1] == "I"@ + decimal(axis) + hex6(256)
            &&& c[2] == "S"@ + decimal(axis) + hex6(moved(start, delta) as nat)
            &&& c[3] == "J"@ + decimal(axis)
        }),
{
}

/// A mount that tracks is sent two hundred thousand steps back, at the speed at
/// which it turns once in a sidereal day: 30815 ticks for each step. Before that
/// the ramp is taken away and the direction is set.
pub proof fn law_commands_of_tracking(axis: nat, current: int)
    ensures
        sidereal_divisor() == 30_815,
        ({
            let c = tracking_setup(axis);
            let s = tracking_start(axis, current);
            &&& c.len() == 3
            &&& c[0] == "U"@ + decimal(axis) + hex6(0)
            &&& c[1] == "H"@ + decimal(axis)
            &&& c[2] == "I"@ + decimal(axis) + hex6(30_815)
            &&& s.len() == 2
            &&& s[0] == "S"@ + decimal(axis) + hex6(moved(current, -200_000) as nat)
            &&& s[1] == "J"@ + decimal(axis)
        }),
{
    lemma_sidereal_divisor();
}

/// The speed of tracking is the nearest there is: with one tick more or less for
/// each step, a turn would not take a time nearer to a sidereal day.
pub proof fn law_divisor_is_nearest()
    ensures
        ({
            let ticks = 6_000_000 * 861_640_905;
            let steps = 16_777_216 * 10_000;
            let off = sidereal_divisor() * steps - ticks;
            -steps <= 2 * off <= steps
        }),
{
    lemma_sidereal_divisor();
    assert(6_000_000 * 861_640_905 == 5_169_845_430_000_000int);
    assert(16_777_216 * 10_000 == 167_772_160_000int);
    assert(30_815 * 167_772_160_000 == 5_169_899_110_400_000int);
}

/// The distance between two positions is the shorter of the two ways from one
/// forward to the other.
pub proof fn law_distance_is_the_shorter_way(a: int, b: int)
    requires
        0 <= a < 16_777_216,
        0 <= b < 16_777_216,
    ensures
        distance(a, b) <= forward(a, b) || a == b,
        distance(a, b) <= forward(b, a) || a == b,
        distance(a, b) == forward(a, b) || distance(a, b) == forward(b, a),
        a != b ==> forward(a, b) + forward(b, a) == 16_777_216,
{
    let t = 16_777_216int;
    if a >= b {
        lemma_fundamental_div_mod_converse(a - b, t, 0, a - b);
        if a > b {
            lemma_fundamental_div_mod_converse(b - a, t, -1, t + b - a);
        }
    } else {
        lemma_fundamental_div_mod_converse(b - a, t, 0, b - a);
        lemma_fundamental_div_mod_converse(a - b, t, -1, t + a - b);
    }
    assert(forward(a, b) == (b + -a) % t);
    assert(forward(b, a) == (a + -b) % t);
}

/// A second of tracking has from 180 to 210 steps; with any other number above
/// zero the mount drifts, and with none it stands.
pub proof fn law_steps_of_a_second(diff: int)
    requires
        0 <= diff,
    ensures
        180 <= diff <= 210 ==> tracking_verdict(diff) == "YES (Sidereal)"@,
        0 < diff < 180 || diff > 210 ==> tracking_verdict(diff) == "DRIFTING (Too Slow)"@,
        diff == 0 ==> tracking_verdict(diff) == "STOPPED"@,
{
}

/// The first of the three bytes of a number becomes the last, and the last the
/// first.
pub proof fn law_bytes_are_swapped(high: int, middle: int, low: int)
    requires
        0 <= high < 256,
        0 <= middle < 256,
        0 <= low < 256,
    ensures
        swapped(high * 65536 + middle * 256 + low) == low * 65536 + middle * 256 + high,
{
    let s = high * 65536 + middle * 256 + low;
    assert(s % 256 == low && s / 256 % 256 == middle && s / 65536 % 256 == high);
}

/// An axis moves exactly where the second digit of its status is odd.
pub proof fn law_status_of_an_axis(first: nat, second: nat, rest: Seq<char>)
    requires
        first < 16,
        second < 16,
    ensures
        ({
            let reply = seq!['=', digit_char(first), digit_char(second)] + rest;
            &&& has_status(reply)
            &&& moving_in(reply) <==> second % 2 == 1
        }),
{
    let reply = seq!['=', digit_char(first), digit_char(second)] + rest;
    let status = seq![digit_char(first), digit_char(second)];
    assert(reply.subrange(1, 3) =~= status);
    reveal_with_fuel(numeral_value, 3);
    assert(status.drop_last().drop_last() =~= Seq::<char>::empty());
    assert(numeral_value(status, 16) == first * 16 + second);
    assert(is_digit_of(status[0], 16) && is_digit_of(status[1], 16));
    assert(is_numeral(status, 16));
    assert(status[0] != '+');
    assert((first * 16 + second) % 2 == second % 2);
}

} // verus!
