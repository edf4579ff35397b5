//! The messages that carry diagnostics: a time stamp, a header and the array
//! of statuses that is published.
use vstd::prelude::*;

use crate::diagnostic_status_wrapper::{DiagnosticStatus, StatusView};

verus! {

/// A point in time as seconds and nanoseconds.
pub struct Time {
    pub sec: i32,
    pub nanosec: u32,
}

/// The header of a message: a time stamp and a frame.
pub struct Header {
    pub stamp: Time,
    pub frame_id: String,
}

/// The statuses published at one update, with their header.
pub struct DiagnosticArray {
    pub header: Header,
    pub status: Vec<DiagnosticStatus>,
}

/// Nanoseconds in a second.
pub const NANOS_PER_SEC: i64 = 1_000_000_000;

/// The quotient of `n` by one billion, rounded towards zero.
pub open spec fn sec_part(n: int) -> int {
    if n >= 0 {
        n / 1_000_000_000
    } else {
        -((-n) / 1_000_000_000)
    }
}

/// The remainder of `n` by one billion, with the sign of `n`.
pub open spec fn nanosec_part(n: int) -> int {
    n - sec_part(n) * 1_000_000_000
}

/// The nanoseconds that a time stamp stands for: `sec * 10^9 + nanosec`.
pub open spec fn time_nanos(t: Time) -> int {
    t.sec * 1_000_000_000 + t.nanosec
}

/// Converts a time stamp to nanoseconds.
pub fn builtin_time_to_nanos(stamp: &Time) -> (n: i64)
    ensures
        n == time_nanos(*stamp),
{
    let sec: i64 = stamp.sec as i64;
    let nanosec: i64 = stamp.nanosec as i64;
    assert(-2_147_483_648 * 1_000_000_000 <= sec * 1_000_000_000 <= 2_147_483_647 * 1_000_000_000)
        by (nonlinear_arith)
        requires
            -2_147_483_648 <= sec <= 2_147_483_647,
    ;
    sec * NANOS_PER_SEC + nanosec
}

/// Splits nanoseconds into a time stamp as the published header does: the
/// quotient and the remainder by one billion, each cast to the field's type
/// (a cast that wraps where the value does not fit).
pub fn stamp_from_nanos(n: i64) -> (t: Time)
    ensures
        t.sec == sec_part(n as int) as i32,
        t.nanosec == nanosec_part(n as int) as u32,
{
    if n >= 0 {
        let q: i64 = n / NANOS_PER_SEC;
        let r: i64 = n % NANOS_PER_SEC;
        Time { sec: q as i32, nanosec: r as u32 }
    } else {
        let magnitude: u64 = ((-(n + 1)) as u64) + 1;
        let q: u64 = magnitude / 1_000_000_000;
        let r: u64 = magnitude % 1_000_000_000;
        let sq: i64 = -(q as i64);
        let sr: i64 = -(r as i64);
        assert(sr == n - sq * 1_000_000_000);
        Time { sec: sq as i32, nanosec: sr as u32 }
    }
}

/// Law: a number of nanoseconds that a time stamp can hold comes back
/// unchanged from its split into seconds and nanoseconds.
pub proof fn lemma_stamp_round_trip(n: int)
    requires
        0 <= n < 2_147_483_648 * 1_000_000_000,
    ensures
        time_nanos(Time { sec: sec_part(n) as i32, nanosec: nanosec_part(n) as u32 }) == n,
{
    assert(0 <= sec_part(n) < 2_147_483_648);
    assert(0 <= nanosec_part(n) < 1_000_000_000);
}

impl View for DiagnosticArray {
    type V = (Time, Seq<char>, Seq<StatusView>);

    open spec fn view(&self) -> (Time, Seq<char>, Seq<StatusView>) {
        (
            self.header.stamp,
            self.header.frame_id@,
            self.status@.map_values(|s: DiagnosticStatus| s@),
        )
    }
}

} // verus!
