//! The visual mapper: reduces a spectrum of any size to a fixed number of
//! columns, smooths them around the circle, mirrors the sections, and gives
//! each column its height and its highlight.

use crate::fixed::held;
use crate::fixed::mul_div;
use crate::fixed::UNIT;
use crate::spectrum::average_level;
use crate::spectrum::mean;
use crate::spectrum::peak;
use crate::spectrum::peak_level;
use crate::spectrum::sum_between;
use crate::spectrum::sum_levels;
use crate::spectrum::MAX_BINS;
use vstd::arithmetic::div_mod::lemma_fundamental_div_mod;
use vstd::arithmetic::div_mod::lemma_fundamental_div_mod_converse;
use vstd::arithmetic::div_mod::lemma_small_mod;
use vstd::prelude::*;

verus! {

/// The values of a run of columns as mathematical naturals.
pub open spec fn naturals(values: Seq<u64>) -> Seq<nat> {
    Seq::new(values.len(), |i: int| values[i] as nat)
}

/// Where a spectrum has at least as many bins as there are columns: the
/// first bin of a column's range.
pub open spec fn bucket_start(bins: nat, columns: nat, column: nat) -> nat {
    column * (bins / columns)
}

/// Where a spectrum has at least as many bins as there are columns: the end
/// of a column's range. The last column takes the bins that are left over.
pub open spec fn bucket_end(bins: nat, columns: nat, column: nat) -> nat {
    if column + 1 == columns {
        bins
    } else {
        (column + 1) * (bins / columns)
    }
}

/// Where a spectrum has fewer bins than there are columns: the first column
/// that a bin fills. Each bin fills `columns / bins` columns, and each of
/// the first `columns % bins` bins one more.
pub open spec fn first_column(bins: nat, columns: nat, bin: nat) -> nat {
    bin * (columns / bins) + if bin < columns % bins {
        bin
    } else {
        columns % bins
    }
}

/// Where a spectrum has fewer bins than there are columns: the bin that
/// fills a column.
pub open spec fn source_bin(bins: nat, columns: nat, column: nat) -> nat {
    let share = columns / bins;
    let extra = columns % bins;
    if column < extra * (share + 1) {
        column / (share + 1)
    } else {
        (extra + (column - extra * (share + 1)) / (share as int)) as nat
    }
}

/// The value that bucketing gives one column: the sum over its range of
/// bins, or the magnitude of the one bin that fills it; zero where the
/// spectrum is empty.
pub open spec fn bucket_value(levels: Seq<u32>, columns: nat, column: nat) -> nat {
    if levels.len() == 0 {
        0
    } else if levels.len() >= columns {
        sum_between(
            levels,
            bucket_start(levels.len(), columns, column) as int,
            bucket_end(levels.len(), columns, column) as int,
        )
    } else {
        levels[source_bin(levels.len(), columns, column) as int] as nat
    }
}

/// The values that bucketing gives the columns, one for each.
pub open spec fn bucketed(levels: Seq<u32>, columns: nat) -> Seq<nat> {
    Seq::new(columns, |column: int| bucket_value(levels, columns, column as nat))
}

/// The ranges of the columns follow one another and stay within the bins.
pub proof fn lemma_bucket_ranges(bins: nat, columns: nat, column: nat)
    requires
        0 < columns <= bins,
        column < columns,
    ensures
        bucket_start(bins, columns, column) < bucket_end(bins, columns, column) <= bins,
        column == 0 ==> bucket_start(bins, columns, column) == 0,
        column + 1 < columns ==> bucket_end(bins, columns, column) == bucket_start(
            bins,
            columns,
            column + 1,
        ),
        column + 1 == columns ==> bucket_end(bins, columns, column) == bins,
        bucket_start(bins, columns, column) + bins / columns <= bins,
{
    let width = bins / columns;
    lemma_fundamental_div_mod(bins as int, columns as int);
    assert(width >= 1) by (nonlinear_arith)
        requires
            bins == columns * width + bins % columns,
            0 <= bins % columns < columns,
            0 < columns <= bins,
            width >= 0,
    ;
    assert(column * width + width <= columns * width) by (nonlinear_arith)
        requires
            column + 1 <= columns,
            width >= 0,
    ;
    assert((column + 1) * width == column * width + width) by (nonlinear_arith);
}

/// The columns that a bin fills follow those of the bin before it, and
/// together the bins fill every column.
pub proof fn lemma_first_column(bins: nat, columns: nat, bin: nat)
    requires
        0 < bins < columns,
        bin < bins,
    ensures
        first_column(bins, columns, 0) == 0,
        first_column(bins, columns, bins) == columns,
        first_column(bins, columns, bin + 1) == first_column(bins, columns, bin) + columns / bins
            + if bin < columns % bins {
            1nat
        } else {
            0nat
        },
        first_column(bins, columns, bin) < first_column(bins, columns, bin + 1) <= columns,
        columns / bins >= 1,
{
    let share = columns / bins;
    let extra = columns % bins;
    lemma_fundamental_div_mod(columns as int, bins as int);
    assert(share >= 1) by (nonlinear_arith)
        requires
            columns == bins * share + extra,
            0 <= extra < bins,
            bins < columns,
            share >= 0,
    ;
    assert(0 * share == 0) by (nonlinear_arith);
    assert((bin + 1) * share == bin * share + share) by (nonlinear_arith);
    assert((bin + 1) * share + extra <= bins * share + extra) by (nonlinear_arith)
        requires
            bin + 1 <= bins,
            share >= 0,
    ;
}

/// A column is filled by the bin whose run of columns it lies in.
pub proof fn lemma_source_bin(bins: nat, columns: nat, bin: nat, column: nat)
    requires
        0 < bins < columns,
        bin < bins,
        first_column(bins, columns, bin) <= column < first_column(bins, columns, bin + 1),
    ensures
        source_bin(bins, columns, column) == bin,
{
    let share = columns / bins;
    let extra = columns % bins;
    lemma_first_column(bins, columns, bin);
    if bin < extra {
        assert(bin * share + bin == bin * (share + 1)) by (nonlinear_arith);
        assert((bin + 1) * (share + 1) <= extra * (share + 1)) by (nonlinear_arith)
            requires
                bin + 1 <= extra,
                share >= 0,
        ;
        assert((bin + 1) * (share + 1) == bin * (share + 1) + share + 1) by (nonlinear_arith);
        lemma_fundamental_div_mod_converse(
            column as int,
            (share + 1) as int,
            bin as int,
            column - bin * (share + 1),
        );
    } else {
        let rest = column - extra * (share + 1);
        assert(extra * (share + 1) == extra * share + extra) by (nonlinear_arith);
        assert(bin * share == extra * share + (bin - extra) * share) by (nonlinear_arith);
        assert(rest == (bin - extra) * share + (column - bin * share - extra));
        lemma_fundamental_div_mod_converse(
            rest,
            share as int,
            bin - extra,
            column - bin * share - extra,
        );
    }
}

/// Reduces a run of magnitudes to `column_count` values. With at least as many
/// bins as columns, each column sums a range of `bins / column_count` bins
/// and the last column also takes the remainder. With fewer bins, each bin
/// fills a run of columns, the earliest bins one column more than the rest.
/// An empty spectrum gives zeros.
pub fn bucket(levels: &Vec<u32>, column_count: usize) -> (values: Vec<u64>)
    requires
        levels@.len() <= MAX_BINS,
    ensures
        values@.len() == column_count,
        naturals(values@) == bucketed(levels@, column_count as nat),
{
    let bins = levels.len();
    let ghost columns = column_count as nat;
    let mut values: Vec<u64> = Vec::new();
    if bins == 0 {
        while values.len() < column_count
            invariant
                values@.len() <= column_count,
                levels@.len() == 0,
                forall|c: int| 0 <= c < values@.len() ==> values@[c] == 0,
            decreases column_count - values@.len(),
        {
            values.push(0);
        }
    } else if bins >= column_count {
        if column_count > 0 {
            let width = bins / column_count;
            let mut column: usize = 0;
            while column < column_count
                invariant
                    0 < column_count <= bins,
                    bins == levels@.len(),
                    bins <= MAX_BINS,
                    width == bins / column_count,
                    columns == column_count,
                    column <= column_count,
                    values@.len() == column,
                    forall|c: int|
                        0 <= c < column ==> values@[c] as nat == bucket_value(
                            levels@,
                            columns,
                            c as nat,
                        ),
                decreases column_count - column,
            {
                proof {
                    lemma_bucket_ranges(bins as nat, columns, column as nat);
                }
                let start = column * width;
                let end = if column == column_count - 1 {
                    bins
                } else {
                    start + width
                };
                assert(end == bucket_end(bins as nat, columns, column as nat)) by {
                    assert((column + 1) * width == column * width + width) by (nonlinear_arith);
                }
                let sum = sum_levels(levels, start, end);
                values.push(sum);
                column = column + 1;
            }
        }
    } else {
        let share = column_count / bins;
        let extra = column_count % bins;
        let mut bin: usize = 0;
        while bin < bins
            invariant
                0 < bins < column_count,
                bins == levels@.len(),
                share == column_count / bins,
                extra == column_count % bins,
                columns == column_count,
                bin <= bins,
                values@.len() == first_column(bins as nat, columns, bin as nat),
                forall|c: int|
                    0 <= c < values@.len() ==> values@[c] as nat == bucket_value(
                        levels@,
                        columns,
                        c as nat,
                    ),
            decreases bins - bin,
        {
            proof {
                lemma_first_column(bins as nat, columns, bin as nat);
            }
            let count = if bin < extra {
                share + 1
            } else {
                share
            };
            let level = levels[bin];
            let mut filled: usize = 0;
            while filled < count
                invariant
                    0 < bins < column_count,
                    bins == levels@.len(),
                    columns == column_count,
                    bin < bins,
                    filled <= count,
                    level == levels@[bin as int],
                    first_column(bins as nat, columns, bin as nat) + count == first_column(
                        bins as nat,
                        columns,
                        (bin + 1) as nat,
                    ),
                    values@.len() == first_column(bins as nat, columns, bin as nat) + filled,
                    forall|c: int|
                        0 <= c < values@.len() ==> values@[c] as nat == bucket_value(
                            levels@,
                            columns,
                            c as nat,
                        ),
                decreases count - filled,
            {
                proof {
                    lemma_source_bin(bins as nat, columns, bin as nat, values@.len() as nat);
                }
                values.push(level as u64);
                filled = filled + 1;
            }
            bin = bin + 1;
        }
        proof {
            lemma_first_column(bins as nat, columns, 0);
        }
    }
    assert(naturals(values@) =~= bucketed(levels@, columns));
    values
}

/// Where the smoothing window of a column starts: half a window back
/// around the circle of `active` columns.
pub open spec fn window_start(column: nat, range: nat, active: nat) -> nat {
    ((column + active - (range / 2) % active) % (active as int)) as nat
}

/// The sum of `count` values, taken around the circle from `start` on.
pub open spec fn window_sum(values: Seq<nat>, start: nat, count: nat) -> nat
    decreases count,
{
    if count == 0 {
        0
    } else {
        window_sum(values, start, (count - 1) as nat) + values[(start + count - 1) % (
        values.len() as int)]
    }
}

/// The mean over the window of one column, rounded down; zero for a window
/// of no width.
pub open spec fn smooth_at(values: Seq<nat>, column: nat, range: nat) -> nat {
    if range == 0 {
        0
    } else {
        window_sum(values, window_start(column, range, values.len()), range) / range
    }
}

/// The values after the first `count` columns were smoothed, one after the
/// other and in place: a later window reads the new values of the columns
/// before it.
pub open spec fn smooth_through(values: Seq<nat>, range: nat, count: nat) -> Seq<nat>
    decreases count,
{
    if count == 0 {
        values
    } else {
        let before = smooth_through(values, range, (count - 1) as nat);
        before.update(count - 1, smooth_at(before, (count - 1) as nat, range))
    }
}

/// The values after every column was smoothed.
pub open spec fn smoothed(values: Seq<nat>, range: nat) -> Seq<nat> {
    smooth_through(values, range, values.len())
}

/// Smoothing keeps the number of columns.
pub proof fn lemma_smooth_through_len(values: Seq<nat>, range: nat, count: nat)
    requires
        count <= values.len(),
    ensures
        smooth_through(values, range, count).len() == values.len(),
    decreases count,
{
    if count > 0 {
        lemma_smooth_through_len(values, range, (count - 1) as nat);
    }
}

/// One step around a circle of `size` places.
proof fn lemma_step_around(place: int, size: int)
    requires
        0 <= place,
        0 < size,
    ensures
        (place + 1) % size == if place % size + 1 == size {
            0
        } else {
            place % size + 1
        },
{
    lemma_fundamental_div_mod(place, size);
    let q = place / size;
    let r = place % size;
    assert(size * q == q * size) by (nonlinear_arith);
    if r + 1 == size {
        assert(place + 1 == (q + 1) * size + 0) by (nonlinear_arith)
            requires
                place == q * size + r,
                r + 1 == size,
        ;
        lemma_fundamental_div_mod_converse(place + 1, size, q + 1, 0);
    } else {
        lemma_fundamental_div_mod_converse(place + 1, size, q, r + 1);
    }
}

/// Half a window back from a column, without leaving the circle.
proof fn lemma_window_start(column: nat, range: nat, active: nat)
    requires
        column < active,
    ensures
        window_start(column, range, active) == if column >= (range / 2) % active {
            column - (range / 2) % active
        } else {
            column + (active - (range / 2) % active)
        },
{
    let half = (range / 2) % active;
    if column >= half {
        lemma_fundamental_div_mod_converse(
            column + active - half,
            active as int,
            1,
            column - half,
        );
    } else {
        lemma_fundamental_div_mod_converse(
            column + active - half,
            active as int,
            0,
            column + active - half,
        );
    }
}

/// Smooths the columns around their circle, in place and in rising order:
/// each column becomes the mean of a window of `smoothing_range` columns
/// that starts half a window before it. A window of no width gives zero.
pub fn smooth(values: &mut Vec<u64>, smoothing_range: usize)
    ensures
        final(values)@.len() == old(values)@.len(),
        naturals(final(values)@) == smoothed(naturals(old(values)@), smoothing_range as nat),
{
    let active = values.len();
    let ghost range = smoothing_range as nat;
    let ghost before = naturals(values@);
    let mut column: usize = 0;
    while column < active
        invariant
            column <= active,
            values@.len() == active,
            before.len() == active,
            range == smoothing_range,
            naturals(values@) == smooth_through(before, range, column as nat),
        decreases active - column,
    {
        let ghost current = naturals(values@);
        let mut mean: u64 = 0;
        if smoothing_range > 0 {
            let half = (smoothing_range / 2) % active;
            let mut index: usize = if column >= half {
                column - half
            } else {
                column + (active - half)
            };
            let ghost start = index as nat;
            proof {
                lemma_window_start(column as nat, range, active as nat);
                lemma_small_mod(start, active as nat);
            }
            let mut sum: u128 = 0;
            let mut taken: usize = 0;
            while taken < smoothing_range
                invariant
                    taken <= smoothing_range,
                    values@.len() == active,
                    current == naturals(values@),
                    start < active,
                    index < active,
                    index == (start + taken) % (active as int),
                    sum == window_sum(current, start, taken as nat),
                    sum <= taken * u64::MAX,
                decreases smoothing_range - taken,
            {
                proof {
                    lemma_step_around(start + taken, active as int);
                    assert(taken * u64::MAX + u64::MAX <= u128::MAX) by (nonlinear_arith)
                        requires
                            taken <= usize::MAX,
                            usize::MAX <= u64::MAX,
                    ;
                    assert(current[index as int] == values@[index as int]);
                    assert((taken + 1) * u64::MAX == taken * u64::MAX + u64::MAX)
                        by (nonlinear_arith);
                }
                sum = sum + values[index] as u128;
                index = if index + 1 == active {
                    0
                } else {
                    index + 1
                };
                taken = taken + 1;
            }
            assert(sum / (smoothing_range as u128) <= u64::MAX) by (nonlinear_arith)
                requires
                    sum <= smoothing_range * u64::MAX,
                    smoothing_range > 0,
            ;
            mean = (sum / smoothing_range as u128) as u64;
        }
        assert(mean as nat == smooth_at(current, column as nat, range));
        values.set(column, mean);
        assert(naturals(values@) =~= current.update(column as int, mean as nat));
        column = column + 1;
    }
}

/// What the display shows of one column.
#[derive(Clone, Copy, Debug, PartialEq, Eq, Structural)]
pub struct ColumnValue {
    /// The bucketed and smoothed value, in millionths.
    pub value: u64,
    /// The height of the bar, in millionths.
    pub height: u32,
    /// Whether the column takes the highlight colour.
    pub highlighted: bool,
}

/// The height of a column: its value in proportion to the largest
/// magnitude `top` of the spectrum, scaled to `max_height` and held between
/// one whole and `max_height`. With `top` at zero the quotient has no
/// value for a column at zero, which gets one whole, and is without bound
/// for any other, which gets `max_height`.
pub open spec fn height_of(value: nat, max_height: nat, top: nat) -> nat {
    if top == 0 {
        if value == 0 {
            UNIT as nat
        } else {
            max_height
        }
    } else {
        held(((value * max_height) / top) as int, UNIT as int, max_height as int) as nat
    }
}

/// A column is highlighted when its value is above twice the mean
/// magnitude of the spectrum.
pub open spec fn is_highlighted(value: nat, average: nat) -> bool {
    value > 2 * average
}

/// The number of columns in one section of the circle.
pub open spec fn section_width(columns: nat, sections: nat) -> nat {
    columns / sections
}

/// The value of every column: the first section is bucketed from the
/// spectrum and smoothed around its own circle, and every further column
/// repeats the column of the first section at the same place.
pub open spec fn column_values(levels: Seq<u32>, columns: nat, sections: nat, range: nat) -> Seq<
    nat,
> {
    let active = section_width(columns, sections);
    let section = smoothed(bucketed(levels, columns).take(active as int), range);
    Seq::new(columns, |i: int| section[i % (active as int)])
}

/// What the display shows of a column with the given value.
pub open spec fn shown(value: nat, levels: Seq<u32>, max_height: nat) -> ColumnValue {
    ColumnValue {
        value: value as u64,
        height: height_of(value, max_height, peak(levels)) as u32,
        highlighted: is_highlighted(value, mean(levels)),
    }
}

/// What the display shows of every column.
pub open spec fn mapped(
    levels: Seq<u32>,
    columns: nat,
    sections: nat,
    range: nat,
    max_height: nat,
) -> Seq<ColumnValue> {
    let values = column_values(levels, columns, sections, range);
    Seq::new(columns, |i: int| shown(values[i], levels, max_height))
}

/// The height of one column. `top` is the largest magnitude of the
/// spectrum.
pub fn column_height(value: u64, max_height: u32, top: u32) -> (height: u32)
    requires
        max_height >= UNIT,
    ensures
        height == height_of(value as nat, max_height as nat, top as nat),
        UNIT <= height <= max_height,
{
    if top == 0 {
        if value == 0 {
            UNIT
        } else {
            max_height
        }
    } else {
        let raw = mul_div(value, max_height, top);
        if raw < UNIT as u64 {
            UNIT
        } else if raw > max_height as u64 {
            max_height
        } else {
            raw as u32
        }
    }
}

/// Maps a run of magnitudes to `column_count` columns in `section_count` equal
/// sections: buckets it, smooths the first section, repeats that section
/// around the circle, and gives each column its height and highlight.
pub fn map_columns(
    levels: &Vec<u32>,
    column_count: usize,
    section_count: usize,
    smoothing_range: usize,
    max_height: u32,
) -> (columns: Vec<ColumnValue>)
    requires
        levels@.len() <= MAX_BINS,
        0 < section_count <= column_count,
        max_height >= UNIT,
    ensures
        columns@ == mapped(
            levels@,
            column_count as nat,
            section_count as nat,
            smoothing_range as nat,
            max_height as nat,
        ),
{
    let mut values = bucket(levels, column_count);
    let active = column_count / section_count;
    assert(active >= 1) by (nonlinear_arith)
        requires
            active == column_count / section_count,
            0 < section_count <= column_count,
    ;
    assert(active <= column_count) by (nonlinear_arith)
        requires
            active == column_count / section_count,
            0 < section_count,
    ;
    let ghost bucketed_values = naturals(values@);
    values.truncate(active);
    assert(naturals(values@) =~= bucketed_values.take(active as int));
    smooth(&mut values, smoothing_range);
    let ghost section = naturals(values@);
    let top = peak_level(levels);
    let average = average_level(levels);
    let mut columns: Vec<ColumnValue> = Vec::new();
    let mut i: usize = 0;
    while i < column_count
        invariant
            i <= column_count,
            0 < active,
            max_height >= UNIT,
            values@.len() == active,
            section == naturals(values@),
            top == peak(levels@),
            average == mean(levels@),
            columns@.len() == i,
            forall|c: int|
                0 <= c < i ==> columns@[c] == shown(
                    section[c % (active as int)],
                    levels@,
                    max_height as nat,
                ),
        decreases column_count - i,
    {
        let value = values[i % active];
        let height = column_height(value, max_height, top);
        let highlighted = value > 2 * (average as u64);
        columns.push(ColumnValue { value, height, highlighted });
        i = i + 1;
    }
    assert(columns@ =~= mapped(
        levels@,
        column_count as nat,
        section_count as nat,
        smoothing_range as nat,
        max_height as nat,
    ));
    columns
}

} // verus!
