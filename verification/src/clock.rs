//! The wall clock, and the clock offset of a remote machine.

use vstd::prelude::*;

use std::time::UNIX_EPOCH;

verus! {

/// The whole milliseconds since 1 January 1970 UTC that the machine's clock
/// shows, or `None` when it is set to a time before that.
///
/// Calls `std::time::SystemTime::elapsed` on the epoch. What it returns is the
/// clock's to decide, so nothing is claimed of it.
#[verifier::external_body]
fn millis_since_epoch() -> (r: Option<u128>) {
    match UNIX_EPOCH.elapsed() {
        Ok(d) => Some(d.as_millis()),
        Err(_) => None,
    }
}

/// A clock reading as 64-bit milliseconds: the low 64 bits of the count, and
/// zero for a clock set before the epoch.
pub open spec fn wire_millis(reading: Option<u128>) -> u64 {
    match reading {
        Some(m) => (m % 0x1_0000_0000_0000_0000u128) as u64,
        None => 0,
    }
}

/// A clock reading as 64-bit milliseconds.
pub fn utc_ms(reading: Option<u128>) -> (r: u64)
    ensures
        r == wire_millis(reading),
{
    match reading {
        Some(m) => (m % 0x1_0000_0000_0000_0000u128) as u64,
        None => 0,
    }
}

/// The current time in milliseconds since 1 January 1970 UTC.
pub fn now_utc_ms() -> (r: u64)
    ensures
        exists|reading: Option<u128>| r == wire_millis(reading),
{
    utc_ms(millis_since_epoch())
}

/// `n / 2` rounded towards zero.
pub open spec fn half_towards_zero(n: int) -> int {
    if n >= 0 {
        n / 2
    } else {
        -((-n) / 2)
    }
}

/// `n` brought into the range of a 64-bit signed number.
pub open spec fn clamped_i64(n: int) -> int {
    if n < i64::MIN {
        i64::MIN as int
    } else if n > i64::MAX {
        i64::MAX as int
    } else {
        n
    }
}

/// A time that stops at the last one that fits in 64 bits.
pub open spec fn capped(ms: int) -> u64 {
    if ms > u64::MAX {
        u64::MAX
    } else {
        ms as u64
    }
}

/// How far a remote clock is ahead, from the four readings of one ping.
pub open spec fn offset_of(t1: u64, t2: u64, t3: u64, t4: u64) -> int {
    clamped_i64(half_towards_zero((t2 - t1) + (t3 - t4)))
}

/// How far the remote clock is ahead of ours, from one ping: sent at `t1`,
/// received there at `t2`, answered there at `t3`, back here at `t4`. The two
/// legs are taken to last equally long.
pub fn compute_offset(t1: u64, t2: u64, t3: u64, t4: u64) -> (r: i64)
    ensures
        r == offset_of(t1, t2, t3, t4),
{
    let legs: i128 = (t2 as i128 - t1 as i128) + (t3 as i128 - t4 as i128);
    let offset: i128 = if legs >= 0 {
        legs / 2
    } else {
        -((-legs) / 2)
    };
    if offset < i64::MIN as i128 {
        i64::MIN
    } else if offset > i64::MAX as i128 {
        i64::MAX
    } else {
        offset as i64
    }
}

/// A remote clock that runs `offset` ahead is measured exactly when the ping
/// takes as long there as back.
pub proof fn law_offset_symmetric_ping(t1: u64, t2: u64, t3: u64, t4: u64, leg: int, offset: i64)
    requires
        t2 == t1 + leg + offset,
        t4 == t3 + leg - offset,
    ensures
        offset_of(t1, t2, t3, t4) == offset,
{
}

/// The measured offset is half of what the two legs differ by, rounded towards
/// zero, wherever that fits in 64 bits, and the nearest 64-bit number otherwise.
pub proof fn law_offset_is_half_the_legs(t1: u64, t2: u64, t3: u64, t4: u64)
    ensures
        ({
            let legs = (t2 - t1) + (t3 - t4);
            let offset = offset_of(t1, t2, t3, t4);
            &&& i64::MIN <= offset <= i64::MAX
            &&& 0 <= legs && legs / 2 <= i64::MAX ==> 2 * offset <= legs <= 2 * offset + 1
            &&& legs < 0 && -legs / 2 <= i64::MAX ==> 2 * offset - 1 <= legs <= 2 * offset
            &&& legs / 2 > i64::MAX ==> offset == i64::MAX
            &&& legs < 0 && -legs / 2 > i64::MAX ==> offset == i64::MIN
        }),
{
}

/// Swapping the ends of a ping turns the sign of the offset: each clock is as far
/// behind the other as that is ahead.
pub proof fn law_offset_turns_sign(t1: u64, t2: u64, t3: u64, t4: u64)
    requires
        offset_of(t1, t2, t3, t4) != i64::MIN,
        offset_of(t1, t2, t3, t4) != i64::MAX,
    ensures
        offset_of(t2, t1, t4, t3) == -offset_of(t1, t2, t3, t4),
{
}

/// A count of milliseconds that fits in 64 bits is read as it is, and a clock set
/// before the epoch as zero; a time that does not fit stops at the last that does.
pub proof fn law_readings_that_fit(m: u64, ms: int)
    requires
        ms >= 0,
    ensures
        wire_millis(Some(m as u128)) == m,
        wire_millis(None) == 0,
        ms <= u64::MAX ==> capped(ms) == ms,
        ms > u64::MAX ==> capped(ms) == u64::MAX,
{
}

/// Of a count that does not fit, the part beyond 64 bits is dropped.
pub proof fn law_readings_wrap(m: u128)
    requires
        m <= 0xFFFF_FFFF_FFFF_FFFF_0000_0000_0000_0000 - 1,
    ensures
        wire_millis(Some((m + 0x1_0000_0000_0000_0000) as u128)) == wire_millis(Some(m)),
{
}

} // verus!
