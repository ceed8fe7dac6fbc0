//! What holds of the visual mapper on every spectrum.

use crate::fixed::UNIT;
use crate::mapper::bucket_end;
use crate::mapper::bucket_start;
use crate::mapper::bucket_value;
use crate::mapper::bucketed;
use crate::mapper::column_values;
use crate::mapper::lemma_bucket_ranges;
use crate::mapper::lemma_first_column;
use crate::mapper::lemma_smooth_through_len;
use crate::mapper::mapped;
use crate::mapper::section_width;
use crate::mapper::smooth_at;
use crate::mapper::smooth_through;
use crate::mapper::smoothed;
use crate::mapper::source_bin;
use crate::mapper::window_start;
use crate::mapper::window_sum;
use crate::mapper::ColumnValue;
use crate::spectrum::lemma_peak_index;
use crate::spectrum::lemma_sum_between_split;
use crate::spectrum::lemma_sum_between_zero;
use crate::spectrum::sum_between;
use crate::spectrum::mean;
use crate::spectrum::peak;
use crate::spectrum::total;
use vstd::arithmetic::div_mod::lemma_fundamental_div_mod;
use vstd::arithmetic::div_mod::lemma_fundamental_div_mod_converse;
use vstd::arithmetic::div_mod::lemma_mod_pos_bound;
use vstd::arithmetic::div_mod::lemma_multiply_divide_lt;
use vstd::arithmetic::div_mod::lemma_small_mod;
use vstd::prelude::*;

verus! {

/// Whether every magnitude is zero.
pub open spec fn silent(levels: Seq<u32>) -> bool {
    forall|i: int| 0 <= i < levels.len() ==> levels[i] == 0
}

/// Whether every value is zero.
pub open spec fn all_zero(values: Seq<nat>) -> bool {
    forall|i: int| 0 <= i < values.len() ==> values[i] == 0
}

/// Where the bins are fewer than the columns, every column is filled by a
/// bin of the spectrum.
pub proof fn lemma_source_bin_in_range(bins: nat, columns: nat, column: nat)
    requires
        0 < bins < columns,
        column < columns,
    ensures
        source_bin(bins, columns, column) < bins,
{
    let share = columns / bins;
    let extra = columns % bins;
    lemma_first_column(bins, columns, 0);
    lemma_fundamental_div_mod(columns as int, bins as int);
    if column < extra * (share + 1) {
        assert(extra * (share + 1) == (share + 1) * extra) by (nonlinear_arith);
        lemma_multiply_divide_lt(column as int, (share + 1) as int, extra as int);
    } else {
        let rest = column - extra * (share + 1);
        assert(rest < share * (bins - extra)) by (nonlinear_arith)
            requires
                rest == column - extra * (share + 1),
                column < columns,
                columns == bins * share + extra,
        ;
        lemma_multiply_divide_lt(rest, share as int, bins - extra);
    }
}

/// Bucketing gives a value to every column, whatever the number of bins:
/// there are exactly as many values as columns, and each is the sum over
/// the column's own range of bins, or the magnitude of a bin of the
/// spectrum.
pub proof fn lemma_bucketing_is_complete(levels: Seq<u32>, columns: nat, column: nat)
    requires
        column < columns,
    ensures
        bucketed(levels, columns).len() == columns,
        bucketed(levels, columns)[column as int] == bucket_value(levels, columns, column),
        levels.len() >= columns ==> bucket_start(levels.len(), columns, column) < bucket_end(
            levels.len(),
            columns,
            column,
        ) <= levels.len(),
        0 < levels.len() < columns ==> source_bin(levels.len(), columns, column) < levels.len(),
{
    if levels.len() >= columns {
        lemma_bucket_ranges(levels.len(), columns, column);
    } else if levels.len() > 0 {
        lemma_source_bin_in_range(levels.len(), columns, column);
    }
}

/// The sum of the first `count` values.
pub open spec fn sum_values(values: Seq<nat>, count: nat) -> nat
    decreases count,
{
    if count == 0 {
        0
    } else {
        sum_values(values, (count - 1) as nat) + values[count - 1]
    }
}

/// With at least as many bins as columns, the first columns hold between
/// them the magnitudes of all bins up to the end of the last one's range.
pub proof fn lemma_buckets_follow_on(levels: Seq<u32>, columns: nat, count: nat)
    requires
        0 < count <= columns <= levels.len(),
    ensures
        sum_values(bucketed(levels, columns), count) == sum_between(
            levels,
            0,
            bucket_end(levels.len(), columns, (count - 1) as nat) as int,
        ),
    decreases count,
{
    let bins = levels.len();
    let last = (count - 1) as nat;
    lemma_bucket_ranges(bins, columns, last);
    if count == 1 {
        assert(sum_values(bucketed(levels, columns), 0) == 0);
    } else {
        lemma_buckets_follow_on(levels, columns, last);
        lemma_bucket_ranges(bins, columns, (count - 2) as nat);
        lemma_sum_between_split(
            levels,
            0,
            bucket_start(bins, columns, last) as int,
            bucket_end(bins, columns, last) as int,
        );
    }
}

/// With at least as many bins as columns, no bin is left out and none is
/// counted twice: the columns together hold the sum of all magnitudes.
pub proof fn lemma_buckets_keep_total(levels: Seq<u32>, columns: nat)
    requires
        0 < columns <= levels.len(),
    ensures
        sum_values(bucketed(levels, columns), columns) == total(levels),
{
    lemma_buckets_follow_on(levels, columns, columns);
}

/// A silent spectrum buckets to zeros.
pub proof fn lemma_silent_buckets(levels: Seq<u32>, columns: nat)
    requires
        silent(levels),
    ensures
        all_zero(bucketed(levels, columns)),
{
    assert forall|c: int| 0 <= c < columns implies bucketed(levels, columns)[c] == 0 by {
        lemma_bucketing_is_complete(levels, columns, c as nat);
        if levels.len() >= columns {
            lemma_sum_between_zero(
                levels,
                bucket_start(levels.len(), columns, c as nat) as int,
                bucket_end(levels.len(), columns, c as nat) as int,
            );
        }
    }
}

/// A window over zeros sums to zero.
pub proof fn lemma_window_sum_zero(values: Seq<nat>, start: nat, count: nat)
    requires
        values.len() > 0,
        all_zero(values),
    ensures
        window_sum(values, start, count) == 0,
    decreases count,
{
    if count > 0 {
        lemma_window_sum_zero(values, start, (count - 1) as nat);
        lemma_mod_pos_bound(start + count - 1, values.len() as int);
    }
}

/// Smoothing zeros leaves zeros.
pub proof fn lemma_smoothing_keeps_zeros(values: Seq<nat>, range: nat, count: nat)
    requires
        count <= values.len(),
        all_zero(values),
    ensures
        all_zero(smooth_through(values, range, count)),
    decreases count,
{
    if count > 0 {
        let before = smooth_through(values, range, (count - 1) as nat);
        lemma_smoothing_keeps_zeros(values, range, (count - 1) as nat);
        lemma_smooth_through_len(values, range, (count - 1) as nat);
        if range > 0 {
            lemma_window_sum_zero(
                before,
                window_start((count - 1) as nat, range, before.len()),
                range,
            );
            assert(0nat / range == 0) by (nonlinear_arith)
                requires
                    range > 0,
            ;
        }
        assert(smooth_at(before, (count - 1) as nat, range) == 0);
    }
}

/// A window of one column leaves every value as it was.
pub proof fn lemma_unit_window_keeps_values(values: Seq<nat>, count: nat)
    requires
        count <= values.len(),
    ensures
        smooth_through(values, 1, count) == values,
        count == values.len() ==> smoothed(values, 1) == values,
    decreases count,
{
    if count > 0 {
        let column = (count - 1) as nat;
        let size = values.len();
        lemma_unit_window_keeps_values(values, column);
        lemma_small_mod(0, size);
        lemma_fundamental_div_mod_converse((column + size) as int, size as int, 1, column as int);
        assert(window_start(column, 1, size) == column);
        lemma_small_mod(column, size);
        assert(window_sum(values, column, 0) == 0);
        assert(window_sum(values, column, 1) == values[column as int]);
        assert(smooth_at(values, column, 1) == values[column as int]);
        assert(values.update(column as int, values[column as int]) =~= values);
    }
}

/// Every column shows what the column at the same place of the first
/// section shows.
pub proof fn lemma_sections_repeat(
    levels: Seq<u32>,
    columns: nat,
    sections: nat,
    range: nat,
    max_height: nat,
    column: nat,
)
    requires
        0 < sections <= columns,
        column < columns,
    ensures
        0 < section_width(columns, sections) <= columns,
        column % section_width(columns, sections) < columns,
        mapped(levels, columns, sections, range, max_height)[column as int] == mapped(
            levels,
            columns,
            sections,
            range,
            max_height,
        )[(column % section_width(columns, sections)) as int],
{
    let active = section_width(columns, sections);
    assert(1 <= active <= columns) by (nonlinear_arith)
        requires
            active == columns / sections,
            0 < sections <= columns,
    ;
    let place = column % active;
    lemma_mod_pos_bound(column as int, active as int);
    lemma_small_mod(place, active);
}

/// The mirroring law: with two sections, each column of the second half
/// shows what its partner in the first half shows, height and all.
pub proof fn lemma_mirrored_halves(
    levels: Seq<u32>,
    columns: nat,
    range: nat,
    max_height: nat,
    column: nat,
)
    requires
        2 <= columns,
        column < columns / 2,
    ensures
        column + columns / 2 < columns,
        mapped(levels, columns, 2, range, max_height)[(column + columns / 2) as int] == mapped(
            levels,
            columns,
            2,
            range,
            max_height,
        )[column as int],
        mapped(levels, columns, 2, range, max_height)[(column + columns / 2) as int].height == mapped(
            levels,
            columns,
            2,
            range,
            max_height,
        )[column as int].height,
{
    let half = columns / 2;
    lemma_fundamental_div_mod_converse((column + half) as int, half as int, 1, column as int);
    lemma_small_mod(column, half);
    lemma_sections_repeat(levels, columns, 2, range, max_height, column + half);
    lemma_sections_repeat(levels, columns, 2, range, max_height, column);
}

/// The silence law: where every magnitude is zero, every column stands at
/// the least height, one whole, and none is highlighted.
pub proof fn lemma_silence(
    levels: Seq<u32>,
    columns: nat,
    sections: nat,
    range: nat,
    max_height: nat,
    column: nat,
)
    requires
        silent(levels),
        0 < sections <= columns,
        column < columns,
    ensures
        mapped(levels, columns, sections, range, max_height)[column as int] == (ColumnValue {
            value: 0,
            height: UNIT,
            highlighted: false,
        }),
{
    let active = section_width(columns, sections);
    lemma_sections_repeat(levels, columns, sections, range, max_height, column);
    let first = bucketed(levels, columns).take(active as int);
    lemma_silent_buckets(levels, columns);
    assert(all_zero(first));
    lemma_smoothing_keeps_zeros(first, range, first.len());
    lemma_smooth_through_len(first, range, first.len());
    lemma_mod_pos_bound(column as int, active as int);
    assert(column_values(levels, columns, sections, range)[column as int] == 0);
    if levels.len() > 0 {
        lemma_peak_index(levels, levels.len());
        lemma_sum_between_zero(levels, 0, levels.len() as int);
        assert(0nat / levels.len() == 0) by (nonlinear_arith)
            requires
                levels.len() > 0,
        ;
    }
    assert(peak(levels) == 0);
    assert(mean(levels) == 0);
}

/// The mapping is a function of its inputs: two runs on one spectrum under
/// one setting show the same columns.
pub proof fn lemma_mapping_repeats(
    first: Seq<ColumnValue>,
    second: Seq<ColumnValue>,
    levels: Seq<u32>,
    columns: nat,
    sections: nat,
    range: nat,
    max_height: nat,
)
    requires
        first == mapped(levels, columns, sections, range, max_height),
        second == mapped(levels, columns, sections, range, max_height),
    ensures
        first == second,
{
}

} // verus!
