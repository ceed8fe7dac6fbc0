//! The frequency spectrum of one analysis tick and its statistics.

use vstd::prelude::*;

verus! {

/// The largest number of bins a [`Spectrum`] can hold.
pub const MAX_BINS: usize = 0xFFFF_FFFF;

/// One frequency slot of a spectrum. The frequency is in millionths of a
/// hertz, the magnitude in millionths.
#[derive(Clone, Copy, Debug, PartialEq, Eq, Structural)]
pub struct Bin {
    pub frequency: u64,
    pub magnitude: u32,
}

/// Why a run of bins is no spectrum.
#[derive(Clone, Copy, Debug, PartialEq, Eq, Structural)]
pub enum SpectrumError {
    /// More than [`MAX_BINS`] bins.
    TooManyBins,
    /// A bin whose frequency is not above that of the bin before it.
    OutOfOrder,
}

/// Whether the frequencies strictly rise from each bin to the next.
pub open spec fn ascending(bins: Seq<Bin>) -> bool {
    forall|i: int, j: int| 0 <= i < j < bins.len() ==> bins[i].frequency < bins[j].frequency
}

/// Whether every frequency lies between the two limits, both included.
pub open spec fn within(bins: Seq<Bin>, lower: u64, upper: u64) -> bool {
    forall|i: int| 0 <= i < bins.len() ==> lower <= (#[trigger] bins[i]).frequency <= upper
}

/// The magnitudes of a run of bins, in order.
pub open spec fn magnitudes(bins: Seq<Bin>) -> Seq<u32> {
    Seq::new(bins.len(), |i: int| bins[i].magnitude)
}

/// The sum of the magnitudes at the indices `from..to`.
pub open spec fn sum_between(values: Seq<u32>, from: int, to: int) -> nat
    decreases to - from,
{
    if from >= to {
        0
    } else {
        sum_between(values, from, to - 1) + values[to - 1] as nat
    }
}

/// The sum of all magnitudes.
pub open spec fn total(values: Seq<u32>) -> nat {
    sum_between(values, 0, values.len() as int)
}

/// The arithmetic mean of the magnitudes, rounded down; zero for none.
pub open spec fn mean(values: Seq<u32>) -> nat {
    if values.len() == 0 {
        0
    } else {
        total(values) / values.len()
    }
}

/// The index of the largest magnitude among the first `count` values; of
/// equal ones the last. Zero where `count` is zero.
pub open spec fn peak_index(values: Seq<u32>, count: nat) -> int
    decreases count,
{
    if count <= 1 {
        0
    } else {
        let before = peak_index(values, (count - 1) as nat);
        if values[count - 1] >= values[before] {
            count - 1
        } else {
            before
        }
    }
}

/// The largest magnitude; zero for none.
pub open spec fn peak(values: Seq<u32>) -> nat {
    if values.len() == 0 {
        0
    } else {
        values[peak_index(values, values.len())] as nat
    }
}

/// A sum over a range is bounded by the length of the range.
pub proof fn lemma_sum_between_bounds(values: Seq<u32>, from: int, to: int)
    requires
        0 <= from <= to <= values.len(),
    ensures
        sum_between(values, from, to) <= (to - from) * u32::MAX,
    decreases to - from,
{
    if from < to {
        lemma_sum_between_bounds(values, from, to - 1);
        assert((to - 1 - from) * u32::MAX + u32::MAX == (to - from) * u32::MAX)
            by (nonlinear_arith);
    }
}

/// A sum over a range splits at any point inside it.
pub proof fn lemma_sum_between_split(values: Seq<u32>, from: int, mid: int, to: int)
    requires
        0 <= from <= mid <= to <= values.len(),
    ensures
        sum_between(values, from, to) == sum_between(values, from, mid) + sum_between(
            values,
            mid,
            to,
        ),
    decreases to - mid,
{
    if mid < to {
        lemma_sum_between_split(values, from, mid, to - 1);
    }
}

/// A sum of zeros is zero.
pub proof fn lemma_sum_between_zero(values: Seq<u32>, from: int, to: int)
    requires
        0 <= from <= to <= values.len(),
        forall|i: int| from <= i < to ==> values[i] == 0,
    ensures
        sum_between(values, from, to) == 0,
    decreases to - from,
{
    if from < to {
        lemma_sum_between_zero(values, from, to - 1);
    }
}

/// The peak index names a largest value, and the last one of them.
pub proof fn lemma_peak_index(values: Seq<u32>, count: nat)
    requires
        0 < count <= values.len(),
    ensures
        0 <= peak_index(values, count) < count,
        forall|i: int|
            0 <= i < count ==> #[trigger] values[i] <= values[peak_index(values, count)],
        forall|i: int|
            peak_index(values, count) < i < count ==> #[trigger] values[i] < values[peak_index(
                values,
                count,
            )],
    decreases count,
{
    if count > 1 {
        lemma_peak_index(values, (count - 1) as nat);
    }
}

/// The sum of the magnitudes at the indices `from..to`.
pub fn sum_levels(levels: &Vec<u32>, from: usize, to: usize) -> (sum: u64)
    requires
        levels@.len() <= MAX_BINS,
        from <= to <= levels@.len(),
    ensures
        sum == sum_between(levels@, from as int, to as int),
{
    let mut sum: u64 = 0;
    let mut i: usize = from;
    while i < to
        invariant
            from <= i <= to <= levels@.len() <= MAX_BINS,
            sum == sum_between(levels@, from as int, i as int),
        decreases to - i,
    {
        proof {
            lemma_sum_between_bounds(levels@, from as int, i as int);
            assert((i - from) * u32::MAX + u32::MAX <= u64::MAX) by (nonlinear_arith)
                requires
                    0 <= i - from < MAX_BINS,
            ;
        }
        sum = sum + levels[i] as u64;
        i = i + 1;
    }
    sum
}

/// The arithmetic mean of the magnitudes, rounded down; zero for none.
pub fn average_level(levels: &Vec<u32>) -> (average: u32)
    requires
        levels@.len() <= MAX_BINS,
    ensures
        average == mean(levels@),
{
    let count = levels.len();
    if count == 0 {
        return 0;
    }
    let sum = sum_levels(levels, 0, count);
    proof {
        lemma_sum_between_bounds(levels@, 0, count as int);
        assert(sum / (count as u64) <= u32::MAX) by (nonlinear_arith)
            requires
                sum <= count * u32::MAX,
                count > 0,
        ;
    }
    (sum / count as u64) as u32
}

/// The index of the largest magnitude, of equal ones the last; `None` for
/// no magnitudes.
pub fn peak_position(levels: &Vec<u32>) -> (position: Option<usize>)
    ensures
        position.is_some() <==> levels@.len() > 0,
        position matches Some(index) ==> index == peak_index(levels@, levels@.len()) && index
            < levels@.len(),
{
    let count = levels.len();
    if count == 0 {
        return None;
    }
    let mut best: usize = 0;
    let mut i: usize = 1;
    while i < count
        invariant
            1 <= i <= count,
            count == levels@.len(),
            best == peak_index(levels@, i as nat),
            0 <= best < i,
        decreases count - i,
    {
        if levels[i] >= levels[best] {
            best = i;
        }
        i = i + 1;
    }
    Some(best)
}

/// The largest magnitude; zero for none.
pub fn peak_level(levels: &Vec<u32>) -> (top: u32)
    ensures
        top == peak(levels@),
{
    match peak_position(levels) {
        Some(index) => levels[index],
        None => 0,
    }
}

/// The bins of one analysis tick: frequencies strictly rising, each with
/// its magnitude.
pub struct Spectrum {
    bins: Vec<Bin>,
    levels: Vec<u32>,
}

impl View for Spectrum {
    type V = Seq<Bin>;

    closed spec fn view(&self) -> Seq<Bin> {
        self.bins@
    }
}

impl Spectrum {
    /// A spectrum holds at most [`MAX_BINS`] bins, in rising frequency.
    pub closed spec fn well_formed(&self) -> bool {
        &&& self.bins@.len() <= MAX_BINS
        &&& ascending(self.bins@)
        &&& self.levels@ == magnitudes(self.bins@)
    }

    /// The magnitudes of the bins, in order.
    pub open spec fn levels(&self) -> Seq<u32> {
        magnitudes(self@)
    }

    /// What well-formedness says of the bins.
    pub proof fn lemma_well_formed(&self)
        requires
            self.well_formed(),
        ensures
            self@.len() <= MAX_BINS,
            ascending(self@),
            self.levels().len() == self@.len(),
    {
    }

    /// Takes the bins of a spectrum, lowest frequency first.
    pub fn new(bins: Vec<Bin>) -> (made: Result<Spectrum, SpectrumError>)
        ensures
            bins@.len() > MAX_BINS ==> made == Err::<Spectrum, SpectrumError>(
                SpectrumError::TooManyBins,
            ),
            bins@.len() <= MAX_BINS && !ascending(bins@) ==> made == Err::<
                Spectrum,
                SpectrumError,
            >(SpectrumError::OutOfOrder),
            bins@.len() <= MAX_BINS && ascending(bins@) ==> made.is_ok(),
            made matches Ok(spectrum) ==> spectrum.well_formed() && spectrum@ == bins@,
    {
        if bins.len() > MAX_BINS {
            return Err(SpectrumError::TooManyBins);
        }
        let mut levels: Vec<u32> = Vec::new();
        if bins.len() > 0 {
            levels.push(bins[0].magnitude);
        }
        let mut i: usize = 1;
        while i < bins.len()
            invariant
                1 <= i,
                bins@.len() <= MAX_BINS,
                levels@.len() == if bins@.len() < i {
                    bins@.len()
                } else {
                    i as nat
                },
                forall|k: int| 0 <= k < levels@.len() ==> levels@[k] == bins@[k].magnitude,
                forall|a: int, b: int|
                    0 <= a < b < i && b < bins@.len() ==> bins@[a].frequency < bins@[b].frequency,
            decreases bins.len() - i,
        {
            if bins[i - 1].frequency >= bins[i].frequency {
                assert(!(bins@[i - 1].frequency < bins@[i as int].frequency));
                return Err(SpectrumError::OutOfOrder);
            }
            assert forall|a: int, b: int| 0 <= a < b < i + 1 && b < bins@.len() implies bins@[a].frequency
                < bins@[b].frequency by {
                if b == i && a < i - 1 {
                    assert(bins@[a].frequency < bins@[i - 1].frequency);
                }
            }
            levels.push(bins[i].magnitude);
            i = i + 1;
        }
        assert(levels@ =~= magnitudes(bins@));
        Ok(Spectrum { bins, levels })
    }

    /// The number of bins.
    pub fn len(&self) -> (len: usize)
        ensures
            len == self@.len(),
    {
        self.bins.len()
    }

    /// The bins, lowest frequency first.
    pub fn data(&self) -> (bins: &Vec<Bin>)
        ensures
            bins@ == self@,
    {
        &self.bins
    }

    /// The magnitudes of the bins, in order.
    pub fn magnitudes(&self) -> (levels: &Vec<u32>)
        requires
            self.well_formed(),
        ensures
            levels@ == self.levels(),
            levels@.len() <= MAX_BINS,
    {
        &self.levels
    }

    /// Whether the spectrum is restricted to the frequencies from `lower`
    /// to `upper`, both included.
    pub fn lies_within(&self, lower: u64, upper: u64) -> (answer: bool)
        requires
            self.well_formed(),
        ensures
            answer == within(self@, lower, upper),
    {
        let count = self.bins.len();
        if count == 0 {
            return true;
        }
        let first = self.bins[0].frequency;
        let last = self.bins[count - 1].frequency;
        let answer = lower <= first && last <= upper;
        proof {
            if answer {
                assert forall|i: int| 0 <= i < self@.len() implies lower <= (
                #[trigger] self@[i]).frequency <= upper by {
                    if 0 < i {
                        assert(self@[0].frequency < self@[i].frequency);
                    }
                    if i < count - 1 {
                        assert(self@[i].frequency < self@[count - 1].frequency);
                    }
                }
            } else if lower > first {
                assert(!(lower <= self@[0].frequency <= upper));
            } else {
                assert(!(lower <= self@[count - 1].frequency <= upper));
            }
        }
        answer
    }

    /// The arithmetic mean of the magnitudes, rounded down; zero for an
    /// empty spectrum.
    pub fn average(&self) -> (average: u32)
        requires
            self.well_formed(),
        ensures
            average == mean(self.levels()),
    {
        average_level(&self.levels)
    }

    /// The bin of the largest magnitude, of equal ones the one of the
    /// highest frequency; `None` for an empty spectrum.
    pub fn max(&self) -> (top: Option<Bin>)
        requires
            self.well_formed(),
        ensures
            top.is_some() <==> self@.len() > 0,
            top matches Some(bin) ==> bin == self@[peak_index(self.levels(), self@.len())],
    {
        match peak_position(&self.levels) {
            Some(index) => Some(self.bins[index]),
            None => None,
        }
    }
}

} // verus!
