//! Per-frame counts of classified pixels and the deviation of their history.

use vstd::prelude::*;

verus! {

/// How many pixels of one vibration frame fell into each of the four colour
/// classes (ch1 counts green, ch2 cyan, ch3 yellow, ch4 red).
#[derive(Default, Clone, Copy, Debug, PartialEq, Eq, Structural)]
pub struct Statistic {
    pub ch1: u16,
    pub ch2: u16,
    pub ch3: u16,
    pub ch4: u16,
}

impl Statistic {
    pub fn new(ch1: u16, ch2: u16, ch3: u16, ch4: u16) -> (r: Statistic)
        ensures
            r == (Statistic { ch1, ch2, ch3, ch4 }),
    {
        Statistic { ch1, ch2, ch3, ch4 }
    }

    /// The channel selected by a 0-based index.
    pub open spec fn spec_channel(self, c: int) -> u16 {
        if c == 0 {
            self.ch1
        } else if c == 1 {
            self.ch2
        } else if c == 2 {
            self.ch3
        } else {
            self.ch4
        }
    }

    /// The truncated mean of the four channels of one statistic.
    pub open spec fn spec_channel_mean(self) -> int {
        (self.ch1 + self.ch2 + self.ch3 + self.ch4) / 4
    }
}

/// The per-channel sums of squared deviations over a statistic history.
///
/// The deviation centre of channel `c` is the truncated channel mean of the
/// history's entry number `c`, so a history must hold at least four entries.
/// The scalar agitation signal is `sqrt(ssd) / normalization` per channel;
/// that square root is left to the caller, which keeps this type exact.
#[derive(Default, Clone, Copy, Debug, PartialEq, Eq, Structural)]
pub struct DispersionSsd {
    pub ch1: u64,
    pub ch2: u64,
    pub ch3: u64,
    pub ch4: u64,
}

/// The sum of squared deviations of channel `c` over the first `n` history
/// entries, centred on the channel mean of entry number `c`.
pub open spec fn spec_ssd_prefix(stats: Seq<Statistic>, c: int, n: int) -> int
    decreases n,
{
    if n <= 0 {
        0
    } else {
        let centre = stats[c].spec_channel_mean();
        let d = stats[n - 1].spec_channel(c) - centre;
        spec_ssd_prefix(stats, c, n - 1) + d * d
    }
}

/// The sum of squared deviations of channel `c` over a whole history.
pub open spec fn spec_ssd(stats: Seq<Statistic>, c: int) -> int {
    spec_ssd_prefix(stats, c, stats.len() as int)
}

/// A sum of squared deviations is never negative, whatever the history.
pub proof fn lemma_ssd_nonnegative(stats: Seq<Statistic>, c: int)
    ensures
        spec_ssd(stats, c) >= 0,
{
    lemma_ssd_prefix_nonnegative(stats, c, stats.len() as int);
}

/// The inductive core of `lemma_ssd_nonnegative`.
proof fn lemma_ssd_prefix_nonnegative(stats: Seq<Statistic>, c: int, n: int)
    ensures
        spec_ssd_prefix(stats, c, n) >= 0,
    decreases n,
{
    if n > 0 {
        lemma_ssd_prefix_nonnegative(stats, c, n - 1);
        let centre = stats[c].spec_channel_mean();
        let d = stats[n - 1].spec_channel(c) - centre;
        assert(d * d >= 0) by (nonlinear_arith);
    }
}

/// A history of one repeated statistic whose four channels agree has zero
/// deviation in every channel. (A repeated statistic with unequal channels
/// does not: each channel is centred on a whole entry's channel mean, so
/// its deviations vanish only when the channels agree.)
pub proof fn lemma_dispersion_of_constant_history(stats: Seq<Statistic>, s: Statistic)
    requires
        stats.len() >= 4,
        forall|i: int| 0 <= i < stats.len() ==> stats[i] == s,
        s.ch1 == s.ch2 && s.ch2 == s.ch3 && s.ch3 == s.ch4,
    ensures
        spec_ssd(stats, 0) == 0,
        spec_ssd(stats, 1) == 0,
        spec_ssd(stats, 2) == 0,
        spec_ssd(stats, 3) == 0,
{
    assert forall|c: int| 0 <= c < 4 implies spec_ssd(stats, c) == 0 by {
        lemma_ssd_prefix_constant(stats, s, c, stats.len() as int);
    }
}

/// The inductive core of `lemma_dispersion_of_constant_history`.
proof fn lemma_ssd_prefix_constant(stats: Seq<Statistic>, s: Statistic, c: int, n: int)
    requires
        stats.len() >= 4,
        forall|i: int| 0 <= i < stats.len() ==> stats[i] == s,
        s.ch1 == s.ch2 && s.ch2 == s.ch3 && s.ch3 == s.ch4,
        0 <= c < 4,
        n <= stats.len(),
    ensures
        spec_ssd_prefix(stats, c, n) == 0,
    decreases n,
{
    if n > 0 {
        lemma_ssd_prefix_constant(stats, s, c, n - 1);
        assert(stats[c].spec_channel_mean() == s.ch1);
        assert(stats[n - 1].spec_channel(c) == s.ch1);
    }
}

/// The truncated mean of the four channels of one statistic, as executable
/// arithmetic.
fn channel_mean(s: &Statistic) -> (r: u16)
    ensures
        r == s.spec_channel_mean(),
{
    let sum: u32 = s.ch1 as u32 + s.ch2 as u32 + s.ch3 as u32 + s.ch4 as u32;
    (sum / 4) as u16
}

/// Per-channel sums of squared deviations over a statistic history.
///
/// Channel `c`'s deviations are centred on the truncated channel mean of the
/// history entry number `c`, which asks for at least four entries.
pub fn compute_statistic(history_stats: &Vec<Statistic>) -> (r: DispersionSsd)
    requires
        4 <= history_stats@.len() < 0x1_0000_0000,
    ensures
        r.ch1 == spec_ssd(history_stats@, 0),
        r.ch2 == spec_ssd(history_stats@, 1),
        r.ch3 == spec_ssd(history_stats@, 2),
        r.ch4 == spec_ssd(history_stats@, 3),
{
    let c1 = ssd_channel(history_stats, 0);
    let c2 = ssd_channel(history_stats, 1);
    let c3 = ssd_channel(history_stats, 2);
    let c4 = ssd_channel(history_stats, 3);
    DispersionSsd { ch1: c1, ch2: c2, ch3: c3, ch4: c4 }
}

/// The sum of squared deviations of one channel over the whole history.
fn ssd_channel(stats: &Vec<Statistic>, c: usize) -> (r: u64)
    requires
        c < 4,
        4 <= stats@.len() < 0x1_0000_0000,
    ensures
        r == spec_ssd(stats@, c as int),
{
    let centre: u16 = channel_mean(&stats[c]);
    let mut acc: u64 = 0;
    let mut i: usize = 0;
    let n = stats.len();
    while i < n
        invariant
            n == stats@.len(),
            4 <= n < 0x1_0000_0000,
            c < 4,
            i <= n,
            centre == stats@[c as int].spec_channel_mean(),
            acc == spec_ssd_prefix(stats@, c as int, i as int),
            acc <= i * 0xffff_ffff,
        decreases n - i,
    {
        let v: u16 = channel_at(&stats[i], c);
        let d: i64 = v as i64 - centre as i64;
        proof {
            assert(d * d <= 0xffff_ffff) by (nonlinear_arith)
                requires -0x1_0000 < d < 0x1_0000;
            assert(d * d >= 0) by (nonlinear_arith);
            assert((i + 1) * 0xffff_ffff == i * 0xffff_ffff + 0xffff_ffff) by (nonlinear_arith);
            assert(i * 0xffff_ffff <= 0xffff_ffff * 0x1_0000_0000) by (nonlinear_arith)
                requires 0 <= i < 0x1_0000_0000;
        }
        let sq: u64 = (d * d) as u64;
        acc = acc + sq;
        i = i + 1;
    }
    acc
}

/// One channel of a statistic, selected by a 0-based index.
fn channel_at(s: &Statistic, c: usize) -> (r: u16)
    requires
        c < 4,
    ensures
        r == s.spec_channel(c as int),
{
    if c == 0 {
        s.ch1
    } else if c == 1 {
        s.ch2
    } else if c == 2 {
        s.ch3
    } else {
        s.ch4
    }
}

} // verus!
