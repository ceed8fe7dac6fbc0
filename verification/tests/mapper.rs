use radial_visualizer::fixed::UNIT;
use radial_visualizer::mapper::bucket;
use radial_visualizer::mapper::column_height;
use radial_visualizer::mapper::map_columns;
use radial_visualizer::mapper::smooth;
use radial_visualizer::mapper::ColumnValue;

#[test]
fn bucket_sums_ranges_and_last_takes_remainder() {
    let levels = vec![1, 2, 3, 4, 5, 6, 7, 8, 9, 10];
    assert_eq!(bucket(&levels, 4), vec![3, 7, 11, 34]);
}

#[test]
fn bucket_with_as_many_bins_as_columns() {
    let levels = vec![5, 6, 7];
    assert_eq!(bucket(&levels, 3), vec![5, 6, 7]);
}

#[test]
fn bucket_into_one_column_sums_everything() {
    let levels = vec![1, 2, 3, 4, 5];
    assert_eq!(bucket(&levels, 1), vec![15]);
}

#[test]
fn bucket_spreads_few_bins_over_many_columns() {
    let levels = vec![10, 20, 30];
    assert_eq!(bucket(&levels, 8), vec![10, 10, 10, 20, 20, 20, 30, 30]);
}

#[test]
fn bucket_spreads_evenly_without_extra_columns() {
    let levels = vec![7, 9];
    assert_eq!(bucket(&levels, 6), vec![7, 7, 7, 9, 9, 9]);
}

#[test]
fn bucket_of_one_bin_fills_every_column() {
    let levels = vec![42];
    assert_eq!(bucket(&levels, 5), vec![42, 42, 42, 42, 42]);
}

#[test]
fn bucket_of_empty_spectrum_is_zero() {
    let levels: Vec<u32> = Vec::new();
    assert_eq!(bucket(&levels, 4), vec![0, 0, 0, 0]);
}

#[test]
fn bucket_into_no_columns() {
    let levels = vec![1, 2, 3];
    assert_eq!(bucket(&levels, 0), Vec::<u64>::new());
}

#[test]
fn bucket_assigns_every_column_for_any_sizes() {
    for bins in 0..40usize {
        let levels: Vec<u32> = (0..bins as u32).map(|i| i + 1).collect();
        for columns in 1..40usize {
            let values = bucket(&levels, columns);
            assert_eq!(values.len(), columns);
            if bins >= columns {
                let total: u64 = values.iter().sum();
                let expected: u64 = levels.iter().map(|&l| l as u64).sum();
                assert_eq!(total, expected);
            } else if bins > 0 {
                assert_eq!(values[0], 1);
                assert_eq!(values[columns - 1], bins as u64);
                for c in 1..columns {
                    assert!(values[c] == values[c - 1] || values[c] == values[c - 1] + 1);
                }
            }
        }
    }
}

#[test]
fn smoothing_is_sequential_and_circular() {
    let mut values = vec![10, 20, 30, 40];
    smooth(&mut values, 2);
    assert_eq!(values, vec![25, 22, 26, 33]);
}

#[test]
fn smoothing_with_window_of_three() {
    let mut values = vec![3, 6, 9];
    smooth(&mut values, 3);
    assert_eq!(values, vec![6, 7, 7]);
}

#[test]
fn smoothing_range_one_is_a_no_op() {
    let mut values = vec![10, 0, 7, 123_456, 5];
    smooth(&mut values, 1);
    assert_eq!(values, vec![10, 0, 7, 123_456, 5]);
}

#[test]
fn smoothing_range_zero_gives_zero() {
    let mut values = vec![10, 20, 30];
    smooth(&mut values, 0);
    assert_eq!(values, vec![0, 0, 0]);
}

#[test]
fn smoothing_of_no_columns() {
    let mut values: Vec<u64> = Vec::new();
    smooth(&mut values, 3);
    assert!(values.is_empty());
}

#[test]
fn smoothing_of_largest_values_does_not_overflow() {
    let mut values = vec![u64::MAX, u64::MAX, u64::MAX];
    smooth(&mut values, 3);
    assert_eq!(values, vec![u64::MAX, u64::MAX, u64::MAX]);
}

#[test]
fn height_is_in_proportion_to_the_peak() {
    assert_eq!(column_height(500_000, 400_000_000, 1_000_000), 200_000_000);
    assert_eq!(column_height(1_000_000, 400_000_000, 1_000_000), 400_000_000);
    assert_eq!(column_height(250_000, 400_000_000, 500_000), 200_000_000);
}

#[test]
fn height_is_held_between_one_and_max_height() {
    assert_eq!(column_height(1, 400_000_000, 1_000_000), UNIT);
    assert_eq!(column_height(0, 400_000_000, 1_000_000), UNIT);
    assert_eq!(column_height(3_000_000, 400_000_000, 1_000_000), 400_000_000);
    assert_eq!(column_height(u64::MAX, u32::MAX, 1), u32::MAX);
}

#[test]
fn height_with_peak_zero() {
    assert_eq!(column_height(0, 400_000_000, 0), UNIT);
    assert_eq!(column_height(5, 400_000_000, 0), 400_000_000);
}

#[test]
fn map_columns_gives_value_height_and_highlight() {
    let levels = vec![100_000, 200_000, 1_000_000, 300_000];
    let columns = map_columns(&levels, 4, 1, 1, 400_000_000);
    assert_eq!(
        columns,
        vec![
            ColumnValue { value: 100_000, height: 40_000_000, highlighted: false },
            ColumnValue { value: 200_000, height: 80_000_000, highlighted: false },
            ColumnValue { value: 1_000_000, height: 400_000_000, highlighted: true },
            ColumnValue { value: 300_000, height: 120_000_000, highlighted: false },
        ]
    );
}

#[test]
fn highlight_needs_more_than_twice_the_mean() {
    let levels = vec![800_000, 0, 0, 0];
    let columns = map_columns(&levels, 4, 1, 1, 2_000_000);
    assert!(columns[0].highlighted);
    let levels = vec![400_000, 400_000, 0, 0];
    let columns = map_columns(&levels, 4, 1, 1, 2_000_000);
    assert!(!columns[0].highlighted);
    assert!(!columns[1].highlighted);
}

#[test]
fn two_sections_mirror_the_first_half() {
    let levels: Vec<u32> = (0..64u32).map(|i| (i * 37 % 101) * 9_000).collect();
    let columns = map_columns(&levels, 16, 2, 3, 400_000_000);
    assert_eq!(columns.len(), 16);
    for i in 0..8 {
        assert_eq!(columns[i + 8].height, columns[i].height);
        assert_eq!(columns[i + 8], columns[i]);
    }
}

#[test]
fn sections_repeat_the_first_section() {
    let levels: Vec<u32> = (0..50u32).map(|i| (i * 13 % 17) * 50_000).collect();
    let columns = map_columns(&levels, 10, 3, 2, 400_000_000);
    for i in 0..10 {
        assert_eq!(columns[i], columns[i % 3]);
    }
}

#[test]
fn one_section_smooths_around_all_columns() {
    let levels = vec![10, 20, 30, 40];
    let columns = map_columns(&levels, 4, 1, 2, 400_000_000);
    let values: Vec<u64> = columns.iter().map(|c| c.value).collect();
    assert_eq!(values, vec![25, 22, 26, 33]);
}

#[test]
fn silence_gives_least_height_and_no_highlight() {
    let levels = vec![0u32; 1000];
    for sections in 1..=2usize {
        for range in 0..5usize {
            let columns = map_columns(&levels, 32, sections, range, 400_000_000);
            assert_eq!(columns.len(), 32);
            for column in &columns {
                assert_eq!(
                    *column,
                    ColumnValue { value: 0, height: UNIT, highlighted: false }
                );
            }
        }
    }
}

#[test]
fn empty_spectrum_maps_like_silence() {
    let levels: Vec<u32> = Vec::new();
    let columns = map_columns(&levels, 8, 1, 4, 400_000_000);
    assert_eq!(columns, vec![ColumnValue { value: 0, height: UNIT, highlighted: false }; 8]);
}

#[test]
fn mapping_twice_gives_the_same_columns() {
    let levels: Vec<u32> = (0..300u32).map(|i| (i * i % 1000) * 1_000).collect();
    let first = map_columns(&levels, 64, 2, 4, 400_000_000);
    let second = map_columns(&levels, 64, 2, 4, 400_000_000);
    assert_eq!(first, second);
}

#[test]
fn fewer_bins_than_columns_still_fill_every_column() {
    let levels = vec![1_000_000, 500_000];
    let columns = map_columns(&levels, 6, 1, 1, 10_000_000);
    let heights: Vec<u32> = columns.iter().map(|c| c.height).collect();
    assert_eq!(
        heights,
        vec![10_000_000, 10_000_000, 10_000_000, 5_000_000, 5_000_000, 5_000_000]
    );
}
