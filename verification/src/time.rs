//! Timeline time kept as whole microseconds, so that no rounding drift builds up.
use vstd::prelude::*;
use crate::text::{push_char, push_int_zero_padded, zero_padded_int};

verus! {

/// Integer quotient rounded toward zero, as Rust's `/` computes it.
pub open spec fn tdiv(a: int, b: int) -> int {
    if a >= 0 { a / b } else { -((-a) / b) }
}

/// Remainder that goes with `tdiv`, as Rust's `%` computes it (sign of the dividend).
pub open spec fn tmod(a: int, b: int) -> int {
    a - b * tdiv(a, b)
}

/// A point or span on the timeline, counted in whole microseconds.
#[derive(Clone, Copy, Debug, PartialEq, Eq, Structural, PartialOrd, Ord, Default)]
pub struct TimeCode {
    /// Total duration in microseconds.
    pub micros: i64,
}

/// `HH:MM:SS.mmm` for a microsecond count: each part zero-padded, milliseconds truncated.
pub open spec fn timecode_text(micros: int) -> Seq<char> {
    let total_ms = tdiv(micros, 1000);
    let ms = tmod(total_ms, 1000);
    let total_secs = tdiv(total_ms, 1000);
    let secs = tmod(total_secs, 60);
    let total_mins = tdiv(total_secs, 60);
    let mins = tmod(total_mins, 60);
    let hours = tdiv(total_mins, 60);
    zero_padded_int(hours, 2) + seq![':'] + zero_padded_int(mins, 2) + seq![':']
        + zero_padded_int(secs, 2) + seq!['.'] + zero_padded_int(ms, 3)
}

/// Bounds on truncating division and its remainder by a positive divisor.
pub proof fn lemma_tdiv_bounds(a: int, b: int)
    requires
        b > 0,
    ensures
        a >= 0 ==> 0 <= tdiv(a, b) <= a,
        a < 0 ==> a <= tdiv(a, b) <= 0,
        -b < tmod(a, b) < b,
        a >= 0 ==> 0 <= tmod(a, b),
        a >= 0 ==> 0 <= b * tdiv(a, b) <= a,
        a < 0 ==> a <= b * tdiv(a, b) <= 0,
{
    let n = if a >= 0 { a } else { -a };
    let q = n / b;
    let r = n % b;
    vstd::arithmetic::div_mod::lemma_fundamental_div_mod(n, b);
    vstd::arithmetic::div_mod::lemma_mod_pos_bound(n, b);
    vstd::arithmetic::div_mod::lemma_div_pos_is_pos(n, b);
    assert(0 <= q <= n && 0 <= b * q <= n) by (nonlinear_arith)
        requires
            n >= 0,
            b > 0,
            n == b * q + r,
            0 <= r < b,
            0 <= q,
    ;
    if a >= 0 {
        assert(tdiv(a, b) == q);
        assert(tmod(a, b) == a - b * q);
    } else {
        assert(tdiv(a, b) == -q);
        assert(b * (-q) == -(b * q)) by (nonlinear_arith);
        assert(tmod(a, b) == a + b * q);
    }
}

/// `HH:MM:SS:FF` for a frame count at `fps` whole frames per second (a rate below one
/// counts as one): each part zero-padded to two digits.
pub open spec fn smpte_text(total_frames: int, fps: int) -> Seq<char> {
    let per = if fps < 1 { 1 } else { fps };
    let frames = tmod(total_frames, per);
    let total_secs = tdiv(total_frames, per);
    let secs = tmod(total_secs, 60);
    let total_mins = tdiv(total_secs, 60);
    let mins = tmod(total_mins, 60);
    let hours = tdiv(total_mins, 60);
    zero_padded_int(hours, 2) + seq![':'] + zero_padded_int(mins, 2) + seq![':']
        + zero_padded_int(secs, 2) + seq![':'] + zero_padded_int(frames, 2)
}

/// Formats a frame count as SMPTE `HH:MM:SS:FF` at `fps` whole frames per second.
pub fn smpte_from_frames(total_frames: i64, fps: i64) -> (s: String)
    ensures
        s@ == smpte_text(total_frames as int, fps as int),
{
    let per: i64 = if fps < 1 { 1 } else { fps };
    let total_secs = total_frames / per;
    proof {
        lemma_tdiv_bounds(total_frames as int, per as int);
    }
    let frames = total_frames - per * total_secs;
    let secs = total_secs % 60;
    let total_mins = total_secs / 60;
    let mins = total_mins % 60;
    let hours = total_mins / 60;
    assert(total_secs == tdiv(total_frames as int, per as int));
    assert(secs == tmod(total_secs as int, 60));
    assert(hours == tdiv(total_mins as int, 60));
    let mut s = String::new();
    push_int_zero_padded(&mut s, hours, 2);
    push_char(&mut s, ':');
    push_int_zero_padded(&mut s, mins, 2);
    push_char(&mut s, ':');
    push_int_zero_padded(&mut s, secs, 2);
    push_char(&mut s, ':');
    push_int_zero_padded(&mut s, frames, 2);
    assert(s@ =~= smpte_text(total_frames as int, fps as int));
    s
}

impl TimeCode {
    /// The time at zero.
    pub fn zero() -> (t: TimeCode)
        ensures
            t.micros == 0,
    {
        TimeCode { micros: 0 }
    }

    /// Builds a time code, clamping negative inputs to zero.
    pub fn from_micros(micros: i64) -> (t: TimeCode)
        ensures
            t.micros == if micros < 0 { 0 } else { micros },
    {
        TimeCode { micros: if micros < 0 { 0 } else { micros } }
    }

    /// Formats as `HH:MM:SS.mmm`.
    pub fn to_timecode_str(&self) -> (s: String)
        ensures
            s@ == timecode_text(self.micros as int),
    {
        let total_ms = self.micros / 1000;
        let ms = total_ms % 1000;
        let total_secs = total_ms / 1000;
        let secs = total_secs % 60;
        let total_mins = total_secs / 60;
        let mins = total_mins % 60;
        let hours = total_mins / 60;
        let mut s = String::new();
        push_int_zero_padded(&mut s, hours, 2);
        push_char(&mut s, ':');
        push_int_zero_padded(&mut s, mins, 2);
        push_char(&mut s, ':');
        push_int_zero_padded(&mut s, secs, 2);
        push_char(&mut s, '.');
        push_int_zero_padded(&mut s, ms, 3);
        assert(s@ =~= timecode_text(self.micros as int));
        s
    }

    /// Sum of two time codes (the sum must fit in an `i64`).
    pub fn add(self, rhs: TimeCode) -> (t: TimeCode)
        requires
            i64::MIN <= self.micros + rhs.micros <= i64::MAX,
        ensures
            t.micros == self.micros + rhs.micros,
    {
        TimeCode { micros: self.micros + rhs.micros }
    }

    /// Difference of two time codes, never below zero (the difference must fit in an `i64`).
    pub fn sub(self, rhs: TimeCode) -> (t: TimeCode)
        requires
            i64::MIN <= self.micros - rhs.micros <= i64::MAX,
        ensures
            t.micros == if self.micros - rhs.micros < 0 { 0 } else { self.micros - rhs.micros },
    {
        let d = self.micros - rhs.micros;
        TimeCode { micros: if d < 0 { 0 } else { d } }
    }

    /// Adds `rhs` in place (the sum must fit in an `i64`).
    pub fn add_assign(&mut self, rhs: TimeCode)
        requires
            i64::MIN <= old(self).micros + rhs.micros <= i64::MAX,
        ensures
            final(self).micros == old(self).micros + rhs.micros,
    {
        self.micros = self.micros + rhs.micros;
    }

    /// Subtracts `rhs` in place, never below zero (the difference must fit in an `i64`).
    pub fn sub_assign(&mut self, rhs: TimeCode)
        requires
            i64::MIN <= old(self).micros - rhs.micros <= i64::MAX,
        ensures
            final(self).micros == if old(self).micros - rhs.micros < 0 {
                0
            } else {
                old(self).micros - rhs.micros
            },
    {
        let d = self.micros - rhs.micros;
        self.micros = if d < 0 { 0 } else { d };
    }
}

} // verus!
