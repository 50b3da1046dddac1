//! Time as plain integers. The library never reads a clock: whoever calls it
//! says what time it is, counted from an origin of the caller's own.
use vstd::prelude::*;

verus! {

/// A span of time in nanoseconds.
#[derive(Clone, Copy, Debug, PartialEq, Eq, PartialOrd, Ord, Hash, Structural)]
pub struct Duration {
    pub nanos: u64,
}

/// A moment, in nanoseconds since the caller's origin.
#[derive(Clone, Copy, Debug, PartialEq, Eq, PartialOrd, Ord, Hash, Structural)]
pub struct Instant {
    pub nanos: u64,
}

impl Duration {
    /// A span of `ms` milliseconds.
    pub fn from_millis(ms: u64) -> (d: Duration)
        requires
            ms * 1_000_000 <= u64::MAX,
        ensures
            d.nanos == ms * 1_000_000,
    {
        Duration { nanos: ms * 1_000_000 }
    }
}

/// The time from `earlier` to `later`, and none where `later` is not later.
pub open spec fn elapsed(earlier: Instant, later: Instant) -> int {
    if later.nanos >= earlier.nanos {
        later.nanos - earlier.nanos
    } else {
        0
    }
}

/// A whole, in the parts that a [`share`] is counted in.
pub const WHOLE: u64 = 1_000_000_000;

/// How much of a span of `of` nanoseconds is over after `after` nanoseconds, in
/// billionths, rounded down. A span of no length is over at once.
pub open spec fn share(after: int, of: int) -> int {
    if after >= of {
        WHOLE as int
    } else {
        after * WHOLE / of
    }
}

/// How much of a span is over after `after`, in billionths.
pub fn share_of(after: Duration, of: Duration) -> (s: u64)
    ensures
        s == share(after.nanos as int, of.nanos as int),
        s <= WHOLE,
{
    if after.nanos >= of.nanos {
        return WHOLE;
    }
    proof {
        let n = after.nanos as int;
        assert(0 <= n * 1_000_000_000 <= u64::MAX * 1_000_000_000) by (nonlinear_arith)
            requires
                0 <= n <= u64::MAX,
        ;
    }
    let scaled: u128 = after.nanos as u128 * WHOLE as u128;
    let s: u128 = scaled / of.nanos as u128;
    proof {
        lemma_share(after.nanos as int, of.nanos as int);
    }
    s as u64
}

/// A share is nothing at the start, the whole at the end, and in between never
/// runs backwards and stays short of the whole.
pub proof fn law_shares_run_forward(earlier: int, later: int, of: int)
    requires
        0 <= earlier <= later,
    ensures
        0 <= share(earlier, of) <= share(later, of) <= WHOLE,
        of > 0 ==> share(0, of) == 0,
        share(later, of) == WHOLE <==> later >= of,
{
    if later < of {
        lemma_share(later, of);
        lemma_share(earlier, of);
        assert(earlier * WHOLE <= later * WHOLE) by (nonlinear_arith)
            requires
                earlier <= later,
        ;
        vstd::arithmetic::div_mod::lemma_div_is_ordered(
            earlier * WHOLE,
            later * WHOLE,
            of,
        );
    } else if earlier < of {
        lemma_share(earlier, of);
    }
    if of > 0 {
        lemma_share(0, of);
        vstd::arithmetic::div_mod::lemma_div_basics(of);
        assert(0 * WHOLE == 0) by (nonlinear_arith);
    }
}

proof fn lemma_share(after: int, of: int)
    requires
        0 <= after < of,
    ensures
        0 <= after * WHOLE / of < WHOLE,
{
    assert(after * WHOLE < of * WHOLE) by (nonlinear_arith)
        requires
            0 <= after < of,
    ;
    assert(0 <= after * WHOLE) by (nonlinear_arith)
        requires
            0 <= after,
    ;
    let q = after * WHOLE / of;
    vstd::arithmetic::div_mod::lemma_fundamental_div_mod(after * WHOLE, of);
    assert(q < WHOLE) by (nonlinear_arith)
        requires
            after * WHOLE < of * WHOLE,
            of > 0,
            after * WHOLE == of * q + (after * WHOLE) % of,
            (after * WHOLE) % of >= 0,
    ;
    vstd::arithmetic::div_mod::lemma_div_pos_is_pos(after * WHOLE, of);
}

impl Instant {
    /// The moment `ms` milliseconds from the origin.
    pub fn from_millis(ms: u64) -> (t: Instant)
        requires
            ms * 1_000_000 <= u64::MAX,
        ensures
            t.nanos == ms * 1_000_000,
    {
        Instant { nanos: ms * 1_000_000 }
    }

    /// The time since `earlier`, and none where that lies ahead.
    pub fn saturating_duration_since(self, earlier: Instant) -> (d: Duration)
        ensures
            d.nanos == elapsed(earlier, self),
    {
        if self.nanos >= earlier.nanos {
            Duration { nanos: self.nanos - earlier.nanos }
        } else {
            Duration { nanos: 0 }
        }
    }

    /// The moment `d` later.
    pub fn plus(self, d: Duration) -> (t: Instant)
        requires
            self.nanos + d.nanos <= u64::MAX,
        ensures
            t.nanos == self.nanos + d.nanos,
    {
        Instant { nanos: self.nanos + d.nanos }
    }
}

/// A share is the true part of the span, rounded down to a billionth: as many billionths
/// of the span as fit into the time that is over, and not one more.
pub proof fn law_a_share_is_rounded_down(after: int, of: int)
    requires
        0 <= after < of,
    ensures
        share(after, of) * of <= after * 1_000_000_000 < (share(after, of) + 1) * of,
{
    let scaled = after * 1_000_000_000;
    let q = scaled / of;
    vstd::arithmetic::div_mod::lemma_fundamental_div_mod(scaled, of);
    vstd::arithmetic::div_mod::lemma_mod_bound(scaled, of);
    assert(q * of <= scaled < (q + 1) * of) by (nonlinear_arith)
        requires
            scaled == of * q + scaled % of,
            0 <= scaled % of < of,
    ;
}

/// The time between a moment and the one `d` behind it is `d`, and none the other way round.
pub proof fn law_time_runs_one_way(t: Instant, u: Instant, d: int)
    requires
        d >= 0,
        u.nanos == t.nanos + d,
    ensures
        elapsed(t, u) == d,
        elapsed(u, t) == 0,
{
}

} // verus!
