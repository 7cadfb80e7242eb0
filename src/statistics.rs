use vstd::prelude::*;

verus! {

/// Sum of a sequence of samples.
pub open spec fn sum_of(s: Seq<u32>) -> int
    decreases s.len(),
{
    if s.len() == 0 {
        0
    } else {
        sum_of(s.drop_last()) + s.last()
    }
}

/// Sum of the squares of a sequence of samples.
pub open spec fn sum_of_squares_of(s: Seq<u32>) -> int
    decreases s.len(),
{
    if s.len() == 0 {
        0
    } else {
        sum_of_squares_of(s.drop_last()) + s.last() * s.last()
    }
}

/// Smallest sample of a non-empty sequence.
pub open spec fn min_of(s: Seq<u32>) -> u32
    decreases s.len(),
{
    if s.len() <= 1 {
        s[0]
    } else if s.last() < min_of(s.drop_last()) {
        s.last()
    } else {
        min_of(s.drop_last())
    }
}

/// Largest sample of a non-empty sequence.
pub open spec fn max_of(s: Seq<u32>) -> u32
    decreases s.len(),
{
    if s.len() <= 1 {
        s[0]
    } else if s.last() > max_of(s.drop_last()) {
        s.last()
    } else {
        max_of(s.drop_last())
    }
}

proof fn lemma_sums_bounded(s: Seq<u32>)
    ensures
        0 <= sum_of(s) <= s.len() * 0xffff_ffff,
        0 <= sum_of_squares_of(s) <= s.len() * (0xffff_ffff * 0xffff_ffff),
    decreases s.len(),
{
    if s.len() > 0 {
        lemma_sums_bounded(s.drop_last());
        let x = s.last();
        assert(x * x <= 0xffff_ffff * 0xffff_ffff) by (nonlinear_arith)
            requires
                0 <= x <= 0xffff_ffff,
        ;
        assert((s.len() - 1) * 0xffff_ffff + 0xffff_ffff == s.len() * 0xffff_ffff) by (
        nonlinear_arith);
        assert((s.len() - 1) * (0xffff_ffff * 0xffff_ffff) + 0xffff_ffff * 0xffff_ffff
            == s.len() * (0xffff_ffff * 0xffff_ffff)) by (nonlinear_arith);
    }
}

/// Running statistics over a stream of integer samples (timer ticks), in O(1)
/// memory: count, exact sums of the samples and of their squares, minimum and
/// maximum. Mean and variance follow exactly from the sums; the ghost field
/// records the stream that the fields summarise.
#[derive(Clone, Copy)]
pub struct StatsAccumulator {
    count: u32,
    sum: u64,
    sum_of_squares: u128,
    min: u32,
    max: u32,
    samples: Ghost<Seq<u32>>,
}

impl View for StatsAccumulator {
    type V = Seq<u32>;

    closed spec fn view(&self) -> Seq<u32> {
        self.samples@
    }
}

impl StatsAccumulator {
    /// The relation between the fields and the samples seen so far.
    pub closed spec fn wf(self) -> bool {
        &&& self.count as int == self.samples@.len()
        &&& self.sum as int == sum_of(self.samples@)
        &&& self.sum_of_squares as int == sum_of_squares_of(self.samples@)
        &&& self.count > 0 ==> self.min == min_of(self.samples@)
        &&& self.count > 0 ==> self.max == max_of(self.samples@)
    }

    /// No samples yet.
    pub fn new() -> (r: Self)
        ensures
            r.wf(),
            r@ == Seq::<u32>::empty(),
    {
        StatsAccumulator {
            count: 0,
            sum: 0,
            sum_of_squares: 0,
            min: u32::MAX,
            max: 0,
            samples: Ghost(Seq::empty()),
        }
    }

    /// Records one sample.
    pub fn add(&mut self, value: u32)
        requires
            old(self).wf(),
            old(self)@.len() < u32::MAX,
        ensures
            final(self).wf(),
            final(self)@ == old(self)@.push(value),
    {
        proof {
            lemma_sums_bounded(self.samples@);
            assert(self.samples@.len() * 0xffff_ffff + 0xffff_ffff <= 0xffff_ffff * 0xffff_ffff) by (nonlinear_arith)
                requires self.samples@.len() < 0xffff_ffff;
            assert(self.samples@.len() * (0xffff_ffff * 0xffff_ffff) + 0xffff_ffff * 0xffff_ffff
                <= 0xffff_ffff * (0xffff_ffff * 0xffff_ffff)) by (nonlinear_arith)
                requires self.samples@.len() < 0xffff_ffff;
            assert((value as int) * (value as int) <= 0xffff_ffff * 0xffff_ffff) by (nonlinear_arith)
                requires value <= 0xffff_ffff;
        }
        let ghost before = self.samples@;
        self.count = self.count + 1;
        self.sum = self.sum + value as u64;
        self.sum_of_squares = self.sum_of_squares + (value as u128) * (value as u128);
        if self.count == 1 {
            self.min = value;
            self.max = value;
        } else {
            if value < self.min {
                self.min = value;
            }
            if value > self.max {
                self.max = value;
            }
        }
        self.samples = Ghost(before.push(value));
        assert(self.samples@.drop_last() =~= before);
    }

    /// Number of samples recorded.
    pub fn count(&self) -> (r: u32)
        requires
            self.wf(),
        ensures
            r == self@.len(),
    {
        self.count
    }

    /// Sum of the samples.
    pub fn sum(&self) -> (r: u64)
        requires
            self.wf(),
        ensures
            r == sum_of(self@),
    {
        self.sum
    }

    /// Sum of the squares of the samples.
    pub fn sum_of_squares(&self) -> (r: u128)
        requires
            self.wf(),
        ensures
            r == sum_of_squares_of(self@),
    {
        self.sum_of_squares
    }

    /// Smallest sample, or `None` before the first.
    pub fn min(&self) -> (r: Option<u32>)
        requires
            self.wf(),
        ensures
            r == (if self@.len() == 0 { None } else { Some(min_of(self@)) }),
    {
        if self.count == 0 {
            None
        } else {
            Some(self.min)
        }
    }

    /// Largest sample, or `None` before the first.
    pub fn max(&self) -> (r: Option<u32>)
        requires
            self.wf(),
        ensures
            r == (if self@.len() == 0 { None } else { Some(max_of(self@)) }),
    {
        if self.count == 0 {
            None
        } else {
            Some(self.max)
        }
    }

    /// `n·Σx² − (Σx)²` over the `n` samples: the sample variance times
    /// `n·(n − 1)`, as an exact integer. `None` with fewer than two samples.
    pub fn scaled_variance(&self) -> (r: Option<u128>)
        requires
            self.wf(),
        ensures
            self@.len() < 2 ==> r.is_none(),
            self@.len() >= 2 ==> r == Some(
                (self@.len() * sum_of_squares_of(self@) - sum_of(self@) * sum_of(self@)) as u128,
            ),
    {
        if self.count < 2 {
            None
        } else {
            proof {
                lemma_sums_bounded(self.samples@);
                lemma_spread_nonnegative(self.samples@);
                let n = self.samples@.len();
                let q = sum_of_squares_of(self.samples@);
                assert(n * q <= 0xffff_ffff * (0xffff_ffff * (0xffff_ffff * 0xffff_ffff))) by (nonlinear_arith)
                    requires n <= 0xffff_ffff, 0 <= q <= n * (0xffff_ffff * 0xffff_ffff);
                assert(self.sum as int * self.sum as int <= self.count as int * self.sum_of_squares as int);
            }
            let scaled = (self.count as u128) * self.sum_of_squares;
            let square = (self.sum as u128) * (self.sum as u128);
            Some(scaled - square)
        }
    }
}

/// Cauchy–Schwarz for a sequence of samples: `(Σx)² ≤ n·Σx²`.
proof fn lemma_spread_nonnegative(s: Seq<u32>)
    ensures
        sum_of(s) * sum_of(s) <= s.len() * sum_of_squares_of(s),
    decreases s.len(),
{
    if s.len() > 0 {
        let t = s.drop_last();
        lemma_spread_nonnegative(t);
        lemma_cross_terms(t, s.last());
        let a = sum_of(t);
        let q = sum_of_squares_of(t);
        let n = t.len() as int;
        let x = s.last() as int;
        assert((a + x) * (a + x) <= (n + 1) * (q + x * x)) by (nonlinear_arith)
            requires
                a * a <= n * q,
                2 * a * x <= q + n * x * x,
        ;
    }
}

/// `2·x·Σy ≤ Σy² + n·x²`, summing `2xy ≤ y² + x²` over the sequence.
proof fn lemma_cross_terms(s: Seq<u32>, x: u32)
    ensures
        2 * sum_of(s) * x <= sum_of_squares_of(s) + s.len() * x * x,
    decreases s.len(),
{
    if s.len() > 0 {
        let t = s.drop_last();
        lemma_cross_terms(t, x);
        let y = s.last() as int;
        let xi = x as int;
        assert(2 * y * xi <= y * y + xi * xi) by (nonlinear_arith);
        assert(2 * (sum_of(t) + y) * xi <= (sum_of_squares_of(t) + y * y) + (t.len() + 1) * xi * xi) by (nonlinear_arith)
            requires
                2 * sum_of(t) * xi <= sum_of_squares_of(t) + t.len() * xi * xi,
                2 * y * xi <= y * y + xi * xi,
        ;
    }
}

} // verus!
