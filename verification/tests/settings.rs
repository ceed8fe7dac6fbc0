use radial_visualizer::fixed::is_power_of_two;
use radial_visualizer::fixed::mul_div;
use radial_visualizer::fixed::pow2;
use radial_visualizer::fixed::FULL_TURN;
use radial_visualizer::fixed::UNIT;
use radial_visualizer::settings::AudioVisualizerSettings;
use radial_visualizer::settings::Rgba;
use radial_visualizer::settings::VisualilzerType;
use radial_visualizer::settings::WindowFunction;
use radial_visualizer::visualizer::restructure_audio_visualizer;
use radial_visualizer::visualizer::setup_audio_visualizer;

#[test]
fn default_settings() {
    let settings = AudioVisualizerSettings::default();
    assert_eq!(settings.spectrum_data_length, 8192);
    assert_eq!(settings.lower_frequency_limit, 20_000_000);
    assert_eq!(settings.upper_frequency_limit, 1_555_500_000);
    assert_eq!(settings.sampling_rate, 4096);
    assert_eq!(settings.window_function, WindowFunction::Rectangular);
    assert_eq!(settings.column_count, 256);
    assert_eq!(settings.column_count_power_of_two, 8);
    assert_eq!(settings.section_count, 1);
    assert_eq!(settings.radius, 200_000_000);
    assert_eq!(settings.rotation_speed, 5_000);
    assert_eq!(settings.angle_increment, 24_543);
    assert_eq!(settings.column_width, 2_500_000);
    assert_eq!(settings.max_height, 400_000_000);
    assert_eq!(settings.smoothing_range, 4);
    assert_eq!(settings.scale_strenght, 1_000_000_000);
    assert_eq!(settings.scale_threshold, 2_000_000);
    assert!(!settings.normal_color_transition_enabled);
    assert_eq!(settings.normal_color_transition_speed, 5_000);
    let white = Rgba { r: 1_000_000, g: 1_000_000, b: 1_000_000, a: 1_000_000 };
    let red = Rgba { r: 1_000_000, g: 0, b: 0, a: 1_000_000 };
    assert_eq!(settings.normal_primary_color, white);
    assert_eq!(settings.normal_secondary_color, white);
    assert_eq!(settings.normal_primary_color_hdr_multiplier, 1_000_000);
    assert_eq!(settings.normal_secondary_color_hdr_multiplier, 1_000_000);
    assert_eq!(settings.normal_color_transition_progress, 0);
    assert!(!settings.highlight_color_transition_enabled);
    assert_eq!(settings.highlight_color_transition_speed, 5_000);
    assert_eq!(settings.highlight_primary_color, red);
    assert_eq!(settings.highlight_secondary_color, red);
    assert_eq!(settings.highlight_primary_color_hdr_multiplier, 1_000_000);
    assert_eq!(settings.highlight_secondary_color_hdr_multiplier, 1_000_000);
    assert_eq!(settings.highlight_color_transition_progress, 0);
}

#[test]
fn default_settings_are_valid() {
    let settings = AudioVisualizerSettings::default();
    assert!(settings.is_valid());
    assert!(settings.is_mappable());
}

#[test]
fn default_visualizer_is_the_frequency_visualizer() {
    assert_eq!(VisualilzerType::default(), VisualilzerType::FrequencyVisualizer);
}

#[test]
fn frequency_range_must_rise() {
    let mut settings = AudioVisualizerSettings::default();
    settings.lower_frequency_limit = settings.upper_frequency_limit;
    assert!(!settings.is_valid());
}

#[test]
fn sampling_rate_must_cover_the_upper_limit() {
    let mut settings = AudioVisualizerSettings::default();
    settings.sampling_rate = 3112;
    assert!(settings.is_valid());
    settings.sampling_rate = 3111;
    assert!(!settings.is_valid());
}

#[test]
fn column_count_must_match_its_exponent() {
    let mut settings = AudioVisualizerSettings::default();
    settings.column_count = 128;
    assert!(!settings.is_valid());
    settings.column_count_power_of_two = 7;
    assert!(settings.is_valid());
    settings.column_count_power_of_two = 4;
    settings.column_count = 16;
    assert!(!settings.is_valid());
    settings.column_count_power_of_two = 11;
    settings.column_count = 2048;
    assert!(!settings.is_valid());
    settings.column_count_power_of_two = 10;
    settings.column_count = 1024;
    assert!(settings.is_valid());
    settings.column_count_power_of_two = 5;
    settings.column_count = 32;
    assert!(settings.is_valid());
}

#[test]
fn smoothing_range_must_fit_a_section() {
    let mut settings = AudioVisualizerSettings::default();
    settings.smoothing_range = 256;
    assert!(settings.is_valid());
    settings.smoothing_range = 257;
    assert!(!settings.is_valid());
    settings.section_count = 2;
    settings.smoothing_range = 128;
    assert!(settings.is_valid());
    settings.smoothing_range = 129;
    assert!(!settings.is_valid());
}

#[test]
fn sections_and_height_must_allow_mapping() {
    let mut settings = AudioVisualizerSettings::default();
    settings.section_count = 0;
    assert!(!settings.is_mappable());
    assert!(!settings.is_valid());
    settings.section_count = 257;
    assert!(!settings.is_mappable());
    settings.section_count = 256;
    assert!(settings.is_mappable());
    settings.max_height = UNIT - 1;
    assert!(!settings.is_mappable());
    assert!(!settings.is_valid());
    settings.max_height = UNIT;
    assert!(settings.is_mappable());
}

#[test]
fn sample_count_must_be_a_power_of_two() {
    let mut settings = AudioVisualizerSettings::default();
    settings.spectrum_data_length = 8191;
    assert!(!settings.is_valid());
    settings.spectrum_data_length = 1;
    assert!(!settings.is_valid());
    settings.spectrum_data_length = 0;
    assert!(!settings.is_valid());
    settings.spectrum_data_length = 2;
    assert!(settings.is_valid());
}

#[test]
fn restructure_recomputes_the_column_count() {
    let mut settings = AudioVisualizerSettings::default();
    settings.column_count_power_of_two = 5;
    restructure_audio_visualizer(&mut settings);
    assert_eq!(settings.column_count, 32);
    assert_eq!(settings.angle_increment, 196_349);
    settings.column_count_power_of_two = 10;
    restructure_audio_visualizer(&mut settings);
    assert_eq!(settings.column_count, 1024);
    assert_eq!(settings.angle_increment, 6_135);
    let mut expected = AudioVisualizerSettings::default();
    expected.column_count_power_of_two = 10;
    expected.column_count = 1024;
    expected.angle_increment = FULL_TURN / 1024;
    assert_eq!(settings, expected);
}

#[test]
fn setup_fits_the_columns_into_the_window() {
    let mut settings = AudioVisualizerSettings::default();
    setup_audio_visualizer(&mut settings, 1_280_000_000);
    assert_eq!(settings.column_width, 5_000_000);
    let mut expected = AudioVisualizerSettings::default();
    expected.column_width = 5_000_000;
    assert_eq!(settings, expected);
}

#[test]
fn powers_of_two() {
    assert_eq!(pow2(0), 1);
    assert_eq!(pow2(8), 256);
    assert_eq!(pow2(31), 2_147_483_648);
    assert!(is_power_of_two(1));
    assert!(is_power_of_two(8192));
    assert!(!is_power_of_two(0));
    assert!(!is_power_of_two(3));
    assert!(!is_power_of_two(8190));
    assert!(!is_power_of_two(usize::MAX));
    assert!(is_power_of_two(usize::MAX / 2 + 1));
}

#[test]
fn mul_div_is_exact_and_cut_off() {
    assert_eq!(mul_div(500_000, 400_000_000, 1_000_000), 200_000_000);
    assert_eq!(mul_div(7, 3, 2), 10);
    assert_eq!(mul_div(7, 3, 0), 0);
    assert_eq!(mul_div(u64::MAX, u32::MAX, u32::MAX), u64::MAX);
    assert_eq!(mul_div(u64::MAX, 2, 1), u64::MAX);
}
