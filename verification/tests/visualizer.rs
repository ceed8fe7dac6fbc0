use radial_visualizer::fixed::UNIT;
use radial_visualizer::mapper::map_columns;
use radial_visualizer::sample_buffer::SampleBuffer;
use radial_visualizer::sample_buffer::SPECTRUM_DATA_LENGTH;
use radial_visualizer::settings::AudioVisualizerSettings;
use radial_visualizer::spectrum::Bin;
use radial_visualizer::spectrum::Spectrum;
use radial_visualizer::visualizer::begin_analysis;
use radial_visualizer::visualizer::update_audio_visualizer_rotation;
use radial_visualizer::visualizer::update_audio_visualizer_scale;
use radial_visualizer::visualizer::visualize_audio_frequency;
use radial_visualizer::visualizer::visualize_audio_spectrum;
use radial_visualizer::visualizer::AnalysisStep;

fn store_of(capacity: usize, samples: u32) -> SampleBuffer {
    let mut store = SampleBuffer::new(capacity).unwrap();
    for sample in 0..samples {
        store.push(sample);
    }
    store
}

#[test]
fn default_store_is_empty() {
    let store = SampleBuffer::default();
    assert_eq!(SPECTRUM_DATA_LENGTH, 8192);
    assert_eq!(store.capacity(), 8192);
    assert_eq!(store.len(), 0);
}

#[test]
fn analysis_is_idle_off_a_tick() {
    let data = store_of(8192, 8192);
    let settings = AudioVisualizerSettings::default();
    assert!(matches!(begin_analysis(false, &data, &settings), AnalysisStep::Idle));
}

#[test]
fn analysis_waits_for_a_full_buffer() {
    let settings = AudioVisualizerSettings::default();
    let data = SampleBuffer::default();
    assert!(matches!(begin_analysis(true, &data, &settings), AnalysisStep::NotEnoughData));
    let data = store_of(8192, 8191);
    assert!(matches!(begin_analysis(true, &data, &settings), AnalysisStep::NotEnoughData));
}

#[test]
fn analysis_takes_the_samples_of_a_full_buffer() {
    let settings = AudioVisualizerSettings::default();
    let data = store_of(8192, 8200);
    match begin_analysis(true, &data, &settings) {
        AnalysisStep::Analyze(samples) => {
            assert_eq!(samples.len(), 8192);
            assert_eq!(samples[0], 8);
            assert_eq!(samples[8191], 8199);
        }
        other => panic!("unexpected step {:?}", other),
    }
    assert_eq!(data.len(), 8192);
}

#[test]
fn analysis_refuses_a_length_that_does_not_fit() {
    let settings = AudioVisualizerSettings::default();
    let data = store_of(4096, 4096);
    assert!(matches!(begin_analysis(true, &data, &settings), AnalysisStep::Incompatible));
    let mut settings = AudioVisualizerSettings::default();
    settings.spectrum_data_length = 6;
    let data = store_of(6, 6);
    assert!(matches!(begin_analysis(true, &data, &settings), AnalysisStep::Incompatible));
    settings.spectrum_data_length = 1;
    let data = store_of(1, 1);
    assert!(matches!(begin_analysis(true, &data, &settings), AnalysisStep::Incompatible));
    settings.spectrum_data_length = 2;
    let data = store_of(2, 2);
    assert!(matches!(begin_analysis(true, &data, &settings), AnalysisStep::Analyze(_)));
}

#[test]
fn frequency_display_keeps_the_mean_and_maps_the_columns() {
    let mut average = 0;
    let bins: Vec<Bin> = (0..64u64)
        .map(|i| Bin { frequency: 20_000_000 + i * 500_000, magnitude: (i as u32 % 8) * 125_000 })
        .collect();
    let levels: Vec<u32> = bins.iter().map(|b| b.magnitude).collect();
    let spectrum = Spectrum::new(bins).unwrap();
    let mut settings = AudioVisualizerSettings::default();
    settings.column_count_power_of_two = 5;
    settings.column_count = 32;
    settings.section_count = 2;
    let columns = visualize_audio_frequency(&mut average, &spectrum, &settings);
    assert_eq!(average, 437_500);
    assert_eq!(columns.len(), 32);
    assert_eq!(columns, map_columns(&levels, 32, 2, 4, 400_000_000));
    for i in 0..16 {
        assert_eq!(columns[i + 16].height, columns[i].height);
    }
}

#[test]
fn frequency_display_of_silence() {
    let mut average = 77;
    let bins: Vec<Bin> = (0..3000u64).map(|i| Bin { frequency: i, magnitude: 0 }).collect();
    let spectrum = Spectrum::new(bins).unwrap();
    let settings = AudioVisualizerSettings::default();
    let columns = visualize_audio_frequency(&mut average, &spectrum, &settings);
    assert_eq!(average, 0);
    assert_eq!(columns.len(), 256);
    assert!(columns.iter().all(|c| c.height == UNIT && !c.highlighted));
}

#[test]
fn sample_display_maps_levels_by_the_same_rule() {
    let levels: Vec<u32> = (0..8192u32).map(|i| (i % 100) * 10_000).collect();
    let settings = AudioVisualizerSettings::default();
    let columns = visualize_audio_spectrum(&levels, &settings);
    assert_eq!(columns.len(), 256);
    assert_eq!(columns, map_columns(&levels, 256, 1, 4, 400_000_000));
}

#[test]
fn scale_eases_every_column_on_a_tick() {
    let settings = AudioVisualizerSettings::default();
    let mut distances = vec![200_000_000, 700_000_000, 0, -100_000_000];
    update_audio_visualizer_scale(true, 500_000, &settings, &mut distances);
    assert_eq!(distances, vec![450_000_000, 700_000_000, 350_000_000, 300_000_000]);
}

#[test]
fn scale_with_threshold_one_arrives_at_once() {
    let mut settings = AudioVisualizerSettings::default();
    settings.scale_threshold = 1_000_000;
    let mut distances = vec![200_000_000, 0, 999_999_999];
    update_audio_visualizer_scale(true, 250_000, &settings, &mut distances);
    assert_eq!(distances, vec![450_000_000, 450_000_000, 450_000_000]);
}

#[test]
fn scale_rests_off_a_tick() {
    let settings = AudioVisualizerSettings::default();
    let mut distances = vec![1, 2, 3];
    update_audio_visualizer_scale(false, 500_000, &settings, &mut distances);
    assert_eq!(distances, vec![1, 2, 3]);
}

#[test]
fn rotation_turns_on_a_tick_only() {
    let mut settings = AudioVisualizerSettings::default();
    assert_eq!(update_audio_visualizer_rotation(true, &settings), Some(-5_000));
    assert_eq!(update_audio_visualizer_rotation(false, &settings), None);
    settings.rotation_speed = 0;
    assert_eq!(update_audio_visualizer_rotation(true, &settings), None);
}
