//! A small pseudo-random number generator with four words of state.

use vstd::prelude::*;

verus! {

/// The state of a random series.
pub struct RandomSeries {
    a: u64,
    b: u64,
    c: u64,
    d: u64,
}

/// The four state words of a series, as contracts see them.
pub struct SeriesState {
    pub a: u64,
    pub b: u64,
    pub c: u64,
    pub d: u64,
}

impl View for RandomSeries {
    type V = SeriesState;

    closed spec fn view(&self) -> SeriesState {
        SeriesState { a: self.a, b: self.b, c: self.c, d: self.d }
    }
}

/// A number reduced modulo 2^64.
pub open spec fn wrap(v: int) -> u64 {
    (v % 0x1_0000_0000_0000_0000) as u64
}

/// A 64-bit word rotated to the left by `n` bits, for `n` from 1 to 63.
pub open spec fn rotated_left(v: u64, n: u64) -> u64 {
    (v << n) | (v >> ((64 - n) as u64))
}

/// The state that follows `s`. The last word of the new state is the number
/// that the step hands out.
pub open spec fn advance(s: SeriesState) -> SeriesState {
    let e = wrap(s.a - rotated_left(s.b, 27));
    let a = s.b ^ rotated_left(s.c, 17);
    let b = wrap(s.c + s.d);
    let c = wrap(s.d + e);
    let d = wrap(e + a);
    SeriesState { a, b, c, d }
}

/// The state after `n` steps from `s`.
pub open spec fn advance_by(s: SeriesState, n: nat) -> SeriesState
    decreases n,
{
    if n == 0 {
        s
    } else {
        advance(advance_by(s, (n - 1) as nat))
    }
}

/// The state that a seed value is spread into, before it is stirred.
pub open spec fn unstirred(value: u64) -> SeriesState {
    SeriesState { a: 0xf1ea5eed, b: value, c: value, d: value }
}

/// The number of steps that stir a fresh seed.
pub open spec fn stir_steps() -> nat {
    20
}

/// Rotates a 64-bit word to the left by `n` bits.
pub fn rotate_left(v: u64, n: u64) -> (r: u64)
    requires
        0 < n < 64,
    ensures
        r == rotated_left(v, n),
{
    (v << n) | (v >> (64 - n))
}

/// Steps the series and returns the next number of it.
pub fn random_u64(random_series: &mut RandomSeries) -> (r: u64)
    ensures
        final(random_series)@ == advance(old(random_series)@),
        r == final(random_series)@.d,
{
    let mut a = random_series.a;
    let mut b = random_series.b;
    let mut c = random_series.c;
    let mut d = random_series.d;

    let e = a.wrapping_sub(rotate_left(b, 27));

    a = b ^ rotate_left(c, 17);
    b = c.wrapping_add(d);
    c = d.wrapping_add(e);
    d = e.wrapping_add(a);

    random_series.a = a;
    random_series.b = b;
    random_series.c = c;
    random_series.d = d;

    d
}

/// Starts a series from a seed value: the seed is spread over the state,
/// which is then stirred by twenty steps.
pub fn seed(value: u64) -> (series: RandomSeries)
    ensures
        series@ == advance_by(unstirred(value), stir_steps()),
{
    let mut random_series = RandomSeries { a: 0xf1ea5eedu64, b: value, c: value, d: value };

    let mut i: u64 = 0;
    while i < 20
        invariant
            i <= 20,
            random_series@ == advance_by(unstirred(value), i as nat),
        decreases 20 - i,
    {
        random_u64(&mut random_series);
        i = i + 1;
    }

    random_series
}

/// Stepping `m` times and then `n` times is stepping `m + n` times.
pub proof fn lemma_advance_by_adds(s: SeriesState, m: nat, n: nat)
    ensures
        advance_by(advance_by(s, m), n) == advance_by(s, m + n),
    decreases n,
{
    if n > 0 {
        lemma_advance_by_adds(s, m, (n - 1) as nat);
    }
}

} // verus!
