//! The live-tunable configuration of the analysis and of the display.

use crate::fixed::is_power_of_two;
use crate::fixed::power_of_two;
use crate::fixed::two_to;
use crate::fixed::FULL_TURN;
use crate::fixed::UNIT;
use vstd::prelude::*;

verus! {

/// The weighting applied to a window of samples before the transform.
#[derive(Debug, Clone, Copy, PartialEq, Eq, Hash, Structural)]
pub enum WindowFunction {
    /// No weighting: the samples pass as they are.
    Rectangular,
    Hann,
    Hamming,
}

/// Which of the two displays runs.
#[derive(Debug, Clone, Copy, PartialEq, Eq, Hash, Structural)]
pub enum VisualilzerType {
    /// Columns follow the frequency spectrum of the samples.
    FrequencyVisualizer,
    /// Columns follow the samples themselves.
    SpectrumVisualizer,
}

impl Default for VisualilzerType {
    fn default() -> (kind: VisualilzerType)
        ensures
            kind == VisualilzerType::FrequencyVisualizer,
    {
        VisualilzerType::FrequencyVisualizer
    }
}

/// A colour by its four channels, each in millionths.
#[derive(Debug, Clone, Copy, PartialEq, Eq, Structural)]
pub struct Rgba {
    pub r: i32,
    pub g: i32,
    pub b: i32,
    pub a: i32,
}

/// Opaque white.
pub open spec fn white() -> Rgba {
    Rgba { r: 1_000_000, g: 1_000_000, b: 1_000_000, a: 1_000_000 }
}

/// Opaque red.
pub open spec fn red() -> Rgba {
    Rgba { r: 1_000_000, g: 0, b: 0, a: 1_000_000 }
}

/// The smallest exponent of the column count: 32 columns.
pub const MIN_COLUMN_POWER: usize = 5;

/// The largest exponent of the column count: 1024 columns.
pub const MAX_COLUMN_POWER: usize = 10;

/// The configuration. Frequencies are in millionths of a hertz, angles in
/// millionths of a radian, lengths, heights, factors and colour channels
/// in millionths; the sampling rate is in hertz.
#[derive(Debug, Clone, Copy, PartialEq, Eq, Structural)]
pub struct AudioVisualizerSettings {
    pub spectrum_data_length: usize,
    pub lower_frequency_limit: u64,
    pub upper_frequency_limit: u64,
    pub sampling_rate: u32,
    pub window_function: WindowFunction,
    pub column_count: usize,
    pub column_count_power_of_two: usize,
    pub section_count: usize,
    pub radius: u32,
    pub rotation_speed: i32,
    pub angle_increment: u64,
    pub column_width: u64,
    pub max_height: u32,
    pub smoothing_range: usize,
    pub scale_strenght: u64,
    pub scale_threshold: u32,
    pub normal_color_transition_enabled: bool,
    pub normal_color_transition_speed: i32,
    pub normal_primary_color: Rgba,
    pub normal_secondary_color: Rgba,
    pub normal_primary_color_hdr_multiplier: i32,
    pub normal_secondary_color_hdr_multiplier: i32,
    pub normal_color_transition_progress: i32,
    pub highlight_color_transition_enabled: bool,
    pub highlight_color_transition_speed: i32,
    pub highlight_primary_color: Rgba,
    pub highlight_secondary_color: Rgba,
    pub highlight_primary_color_hdr_multiplier: i32,
    pub highlight_secondary_color_hdr_multiplier: i32,
    pub highlight_color_transition_progress: i32,
}

impl AudioVisualizerSettings {
    /// The configuration a display starts with.
    pub open spec fn initial() -> AudioVisualizerSettings {
        AudioVisualizerSettings {
            spectrum_data_length: 8192,
            lower_frequency_limit: 20_000_000,
            upper_frequency_limit: 1_555_500_000,
            sampling_rate: 4096,
            window_function: WindowFunction::Rectangular,
            column_count: 256,
            column_count_power_of_two: 8,
            section_count: 1,
            radius: 200_000_000,
            rotation_speed: 5_000,
            angle_increment: 24_543,
            column_width: 2_500_000,
            max_height: 400_000_000,
            smoothing_range: 4,
            scale_strenght: 1_000_000_000,
            scale_threshold: 2_000_000,
            normal_color_transition_enabled: false,
            normal_color_transition_speed: 5_000,
            normal_primary_color: white(),
            normal_secondary_color: white(),
            normal_primary_color_hdr_multiplier: 1_000_000,
            normal_secondary_color_hdr_multiplier: 1_000_000,
            normal_color_transition_progress: 0,
            highlight_color_transition_enabled: false,
            highlight_color_transition_speed: 5_000,
            highlight_primary_color: red(),
            highlight_secondary_color: red(),
            highlight_primary_color_hdr_multiplier: 1_000_000,
            highlight_secondary_color_hdr_multiplier: 1_000_000,
            highlight_color_transition_progress: 0,
        }
    }

    /// The frequency range rises, and the sampling rate is at least twice
    /// its upper limit and one hertz more.
    pub open spec fn frequencies_fit(&self) -> bool {
        &&& self.lower_frequency_limit < self.upper_frequency_limit
        &&& self.sampling_rate * UNIT >= 2 * self.upper_frequency_limit + UNIT
    }

    /// The column count is the power of two that its exponent names, from
    /// 32 to 1024.
    pub open spec fn columns_fit(&self) -> bool {
        &&& MIN_COLUMN_POWER <= self.column_count_power_of_two <= MAX_COLUMN_POWER
        &&& self.column_count == two_to(self.column_count_power_of_two as nat)
    }

    /// What the visual mapper needs: at least one section, no more
    /// sections than columns, and a height limit of at least one whole.
    pub open spec fn mappable(&self) -> bool {
        &&& 0 < self.section_count <= self.column_count
        &&& self.max_height >= UNIT
    }

    /// Everything that holds of a configuration in use.
    pub open spec fn well_formed(&self) -> bool {
        &&& self.spectrum_data_length >= 2
        &&& power_of_two(self.spectrum_data_length as nat)
        &&& self.frequencies_fit()
        &&& self.columns_fit()
        &&& self.mappable()
        &&& self.smoothing_range <= self.column_count / self.section_count
    }

    /// The starting configuration is well formed.
    pub proof fn lemma_initial_is_well_formed()
        ensures
            Self::initial().well_formed(),
    {
        assert(two_to(8) == 256) by {
            reveal_with_fuel(two_to, 9);
        }
        assert(two_to(13) == 8192) by {
            reveal_with_fuel(two_to, 14);
        }
    }

    /// Whether the visual mapper can run under this configuration.
    pub fn is_mappable(&self) -> (answer: bool)
        ensures
            answer == self.mappable(),
    {
        0 < self.section_count && self.section_count <= self.column_count && self.max_height
            >= UNIT
    }

    /// Whether the configuration is well formed.
    pub fn is_valid(&self) -> (answer: bool)
        ensures
            answer == self.well_formed(),
    {
        if self.spectrum_data_length < 2 || !is_power_of_two(self.spectrum_data_length) {
            return false;
        }
        if self.lower_frequency_limit >= self.upper_frequency_limit {
            return false;
        }
        assert(self.sampling_rate * UNIT <= u32::MAX * UNIT) by (nonlinear_arith)
            requires
                self.sampling_rate <= u32::MAX,
        ;
        let rate: u128 = self.sampling_rate as u128 * UNIT as u128;
        let need: u128 = 2 * self.upper_frequency_limit as u128 + UNIT as u128;
        if rate < need {
            return false;
        }
        if self.column_count_power_of_two < MIN_COLUMN_POWER || self.column_count_power_of_two
            > MAX_COLUMN_POWER {
            return false;
        }
        if self.column_count != crate::fixed::pow2(self.column_count_power_of_two) {
            return false;
        }
        if !self.is_mappable() {
            return false;
        }
        self.smoothing_range <= self.column_count / self.section_count
    }
}

impl Default for AudioVisualizerSettings {
    fn default() -> (settings: AudioVisualizerSettings)
        ensures
            settings == AudioVisualizerSettings::initial(),
            settings.well_formed(),
    {
        proof {
            AudioVisualizerSettings::lemma_initial_is_well_formed();
        }
        let white = Rgba { r: 1_000_000, g: 1_000_000, b: 1_000_000, a: 1_000_000 };
        let red = Rgba { r: 1_000_000, g: 0, b: 0, a: 1_000_000 };
        AudioVisualizerSettings {
            spectrum_data_length: 8192,
            lower_frequency_limit: 20_000_000,
            upper_frequency_limit: 1_555_500_000,
            sampling_rate: 4096,
            window_function: WindowFunction::Rectangular,
            column_count: 256,
            column_count_power_of_two: 8,
            section_count: 1,
            radius: 200_000_000,
            rotation_speed: 5_000,
            angle_increment: FULL_TURN / 256,
            column_width: 2_500_000,
            max_height: 400_000_000,
            smoothing_range: 4,
            scale_strenght: 1_000_000_000,
            scale_threshold: 2_000_000,
            normal_color_transition_enabled: false,
            normal_color_transition_speed: 5_000,
            normal_primary_color: white,
            normal_secondary_color: white,
            normal_primary_color_hdr_multiplier: 1_000_000,
            normal_secondary_color_hdr_multiplier: 1_000_000,
            normal_color_transition_progress: 0,
            highlight_color_transition_enabled: false,
            highlight_color_transition_speed: 5_000,
            highlight_primary_color: red,
            highlight_secondary_color: red,
            highlight_primary_color_hdr_multiplier: 1_000_000,
            highlight_secondary_color_hdr_multiplier: 1_000_000,
            highlight_color_transition_progress: 0,
        }
    }
}

} // verus!
