//! Points in time as plain numbers. Nothing here reads a clock: every
//! operation that depends on the time takes it as an argument.

use vstd::prelude::*;

verus! {

pub const NANOS_PER_SEC: u128 = 1_000_000_000;

pub const NANOS_PER_MILLI: u128 = 1_000_000;

/// A wall-clock time, counted from the Unix epoch.
#[derive(Clone, Copy, PartialEq, Eq, Structural, Debug)]
pub struct WallTime {
    pub secs: i64,
    pub nanos: u32,
}

/// A reading of a clock that never goes backwards, counted from an arbitrary
/// but fixed origin.
#[derive(Clone, Copy, PartialEq, Eq, Structural, Debug)]
pub struct Monotonic {
    pub secs: i64,
    pub nanos: u32,
}

/// One moment as both clocks show it.
#[derive(Clone, Copy, PartialEq, Eq, Structural, Debug)]
pub struct Now {
    pub wall: WallTime,
    pub mono: Monotonic,
}

/// `b - a` where that is positive, zero otherwise.
pub open spec fn elapsed(a: int, b: int) -> nat {
    if b > a {
        (b - a) as nat
    } else {
        0
    }
}

/// Nanoseconds since the epoch, rounded down to milliseconds; times before
/// the epoch count as the epoch. The low 64 bits are kept.
pub open spec fn millis_of(nanos: int) -> u64 {
    (elapsed(0, nanos) / 1_000_000) as u64
}

/// The wall-clock time that many milliseconds after the epoch.
pub open spec fn at_millis(ms: u64) -> WallTime {
    WallTime { secs: (ms / 1000) as i64, nanos: ((ms % 1000) * 1_000_000) as u32 }
}

/// The reading `back` nanoseconds before `m`, or `m` itself where the clock
/// cannot express that.
pub open spec fn rewound(m: Monotonic, back: int) -> Monotonic {
    let secs = (m.at() - back) / 1_000_000_000;
    if i64::MIN <= secs <= i64::MAX {
        Monotonic { secs: secs as i64, nanos: ((m.at() - back) % 1_000_000_000) as u32 }
    } else {
        m
    }
}

/// A whole number of milliseconds is read back as it was written.
pub proof fn millis_round_trip(ms: u64)
    ensures
        at_millis(ms).at() == ms * 1_000_000,
        millis_of(at_millis(ms).at()) == ms,
{
    assert(ms == (ms / 1000) * 1000 + ms % 1000);
}

/// Times lie apart what their seconds and nanoseconds say, and the zero of the
/// clock is at zero.
pub proof fn times_are_counted_in_nanoseconds(
    t: WallTime,
    u: WallTime,
    m: Monotonic,
    n: Monotonic,
)
    ensures
        u.at() - t.at() == (u.secs - t.secs) * 1_000_000_000 + (u.nanos - t.nanos),
        n.at() - m.at() == (n.secs - m.secs) * 1_000_000_000 + (n.nanos - m.nanos),
        t.secs == 0 && t.nanos == 0 ==> t.at() == 0,
        m.secs == 0 && m.nanos == 0 ==> m.at() == 0,
{
}

/// A reading that is moved back lies that much earlier, wherever the clock can
/// say so; otherwise it is not moved.
pub proof fn rewinding_goes_back(m: Monotonic, back: int)
    ensures
        ({
            let t = m.at() - back;
            if i64::MIN * 1_000_000_000 <= t < (i64::MAX + 1) * 1_000_000_000 {
                rewound(m, back).at() == t && rewound(m, back).nanos < 1_000_000_000
            } else {
                rewound(m, back) == m
            }
        }),
{
    let t = m.at() - back;
    assert(t == (t / 1_000_000_000) * 1_000_000_000 + t % 1_000_000_000) by (nonlinear_arith);
}

impl WallTime {
    /// Nanoseconds since the Unix epoch.
    pub open spec fn at(self) -> int {
        self.secs * 1_000_000_000 + self.nanos
    }

    fn total(self) -> (res: i128)
        ensures
            res == self.at(),
    {
        self.secs as i128 * 1_000_000_000 + self.nanos as i128
    }

    /// How long after `earlier` this time is, in nanoseconds; zero where it
    /// is not after it.
    pub fn since(self, earlier: WallTime) -> (res: u128)
        ensures
            res == elapsed(earlier.at(), self.at()),
            res <= i128::MAX / 2,
    {
        let a = self.total();
        let b = earlier.total();
        if a > b {
            (a - b) as u128
        } else {
            0
        }
    }

    /// The whole milliseconds since the epoch, `back` nanoseconds before this
    /// time.
    pub fn millis_before(self, back: u128) -> (res: u64)
        requires
            back <= i128::MAX / 2,
        ensures
            res == millis_of(self.at() - back),
    {
        let t: i128 = self.total() - back as i128;
        if t > 0 {
            #[verifier::truncate]
            let ms = (t as u128 / NANOS_PER_MILLI) as u64;
            ms
        } else {
            0
        }
    }
}

impl View for Monotonic {
    type V = Monotonic;

    open spec fn view(&self) -> Monotonic {
        *self
    }
}

impl Monotonic {
    /// Nanoseconds since the clock's origin.
    pub open spec fn at(self) -> int {
        self.secs * 1_000_000_000 + self.nanos
    }

    fn total(self) -> (res: i128)
        ensures
            res == self.at(),
    {
        self.secs as i128 * 1_000_000_000 + self.nanos as i128
    }

    /// How long after `earlier` this reading is, in nanoseconds; zero where it
    /// is not after it.
    pub fn since(self, earlier: Monotonic) -> (res: u128)
        ensures
            res == elapsed(earlier.at(), self.at()),
            res <= i128::MAX / 2,
    {
        let a = self.total();
        let b = earlier.total();
        if a > b {
            (a - b) as u128
        } else {
            0
        }
    }

    /// The reading `back` nanoseconds before this one, or this one where the
    /// clock cannot express that.
    pub fn rewind(self, back: u128) -> (res: Monotonic)
        requires
            back <= i128::MAX / 2,
        ensures
            res == rewound(self, back as int),
    {
        let unit: i128 = 1_000_000_000;
        let t: i128 = self.total() - back as i128;
        let mut secs: i128 = t / unit;
        let mut nanos: i128 = t % unit;
        if nanos < 0 {
            secs = secs - 1;
            nanos = nanos + unit;
        }
        assert(secs == (self.at() - back) / 1_000_000_000 && nanos == (self.at() - back)
            % 1_000_000_000) by (nonlinear_arith)
            requires
                t == self.at() - back,
                t == secs * 1_000_000_000 + nanos,
                0 <= nanos < 1_000_000_000,
        ;
        if i64::MIN as i128 <= secs && secs <= i64::MAX as i128 {
            Monotonic { secs: secs as i64, nanos: nanos as u32 }
        } else {
            self
        }
    }
}

} // verus!
