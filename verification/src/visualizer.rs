//! What each tick of the display does: the decisions of the analysis, the
//! mapping of a spectrum to columns, and the moves of the ring.

use crate::color::stepped;
use crate::color::transition_step;
use crate::color::Transition;
use crate::fixed::is_power_of_two;
use crate::fixed::pow2;
use crate::fixed::power_of_two;
use crate::fixed::two_to;
use crate::fixed::FULL_TURN;
use crate::mapper::map_columns;
use crate::mapper::mapped;
use crate::mapper::ColumnValue;
use crate::motion::ease_toward;
use crate::motion::eased;
use crate::motion::radius_target;
use crate::motion::rotation_step;
use crate::motion::scaled_radius;
use crate::motion::turn_of;
use crate::sample_buffer::SampleBuffer;
use crate::settings::AudioVisualizerSettings;
use crate::settings::Rgba;
use crate::spectrum::mean;
use crate::spectrum::Spectrum;
use crate::spectrum::MAX_BINS;
use crate::timer::carried;
use crate::timer::AudioVisualizerUpdateTimer;
use vstd::prelude::*;

verus! {

/// What the analysis does on one pass of the loop.
#[derive(Debug)]
pub enum AnalysisStep {
    /// The timer did not fire: nothing to do.
    Idle,
    /// The sample store is still filling: skip this tick.
    NotEnoughData,
    /// The store is full, but the number of samples is not the configured
    /// one, or no transform takes it: it is below two or no power of two.
    Incompatible,
    /// Transform these samples, oldest first.
    Analyze(Vec<u32>),
}

/// Whether a transform takes `count` samples under a configuration that
/// expects `expected` of them.
pub open spec fn transformable(count: nat, expected: nat) -> bool {
    &&& count == expected
    &&& count >= 2
    &&& power_of_two(count)
}

/// The column width that fits `column_count` columns side by side into a
/// window.
pub fn setup_audio_visualizer(settings: &mut AudioVisualizerSettings, window_width: u64)
    requires
        old(settings).column_count > 0,
    ensures
        *final(settings) == (AudioVisualizerSettings {
            column_width: (window_width / (old(settings).column_count as u64)),
            ..*old(settings)
        }),
{
    settings.column_width = window_width / settings.column_count as u64;
}

/// Recomputes the column count from its exponent, and the angle between
/// two columns from the count.
pub fn restructure_audio_visualizer(settings: &mut AudioVisualizerSettings)
    requires
        old(settings).column_count_power_of_two < 32,
    ensures
        *final(settings) == (AudioVisualizerSettings {
            column_count: two_to(old(settings).column_count_power_of_two as nat) as usize,
            angle_increment: (FULL_TURN as nat / two_to(
                old(settings).column_count_power_of_two as nat,
            )) as u64,
            ..*old(settings)
        }),
        final(settings).column_count == two_to(old(settings).column_count_power_of_two as nat),
{
    let count = pow2(settings.column_count_power_of_two);
    settings.column_count = count;
    settings.angle_increment = FULL_TURN / count as u64;
}

/// One pass of the loop on the timer, `delta_nanos` after the pass before.
pub fn tick_audio_visualizer_update_timer(
    timer: &mut AudioVisualizerUpdateTimer,
    delta_nanos: u64,
)
    ensures
        final(timer).period() == old(timer).period(),
        final(timer).fired() <==> old(timer).elapsed() + delta_nanos >= old(timer).period(),
        final(timer).fired() ==> final(timer).elapsed() == carried(
            old(timer).elapsed() + delta_nanos as nat,
            old(timer).period(),
        ),
        !final(timer).fired() ==> final(timer).elapsed() == old(timer).elapsed() + delta_nanos,
        final(timer).well_formed(),
{
    timer.tick(delta_nanos);
}

/// Decides what the analysis does on this pass, and copies the samples
/// out where it is to run, so that the store is free again at once.
pub fn begin_analysis(fired: bool, store: &SampleBuffer, settings: &AudioVisualizerSettings) -> (step:
    AnalysisStep)
    ensures
        !fired ==> step is Idle,
        fired && store@.len() != store.limit() ==> step is NotEnoughData,
        fired && store@.len() == store.limit() && !transformable(
            store@.len(),
            settings.spectrum_data_length as nat,
        ) ==> step is Incompatible,
        fired && store@.len() == store.limit() && transformable(
            store@.len(),
            settings.spectrum_data_length as nat,
        ) ==> (step matches AnalysisStep::Analyze(samples) && samples@ == store@),
{
    if !fired {
        return AnalysisStep::Idle;
    }
    match store.snapshot() {
        None => AnalysisStep::NotEnoughData,
        Some(samples) => {
            let count = samples.len();
            if count == settings.spectrum_data_length && count >= 2 && is_power_of_two(count) {
                AnalysisStep::Analyze(samples)
            } else {
                AnalysisStep::Incompatible
            }
        },
    }
}

/// The frequency display: keeps the mean magnitude of the spectrum in
/// `latest_average_frequency_value`, for the radius of the ring, and maps
/// the spectrum to the columns.
pub fn visualize_audio_frequency(
    latest_average_frequency_value: &mut u32,
    spectrum: &Spectrum,
    settings: &AudioVisualizerSettings,
) -> (columns: Vec<ColumnValue>)
    requires
        spectrum.well_formed(),
        settings.mappable(),
    ensures
        *final(latest_average_frequency_value) == mean(spectrum.levels()),
        columns@ == mapped(
            spectrum.levels(),
            settings.column_count as nat,
            settings.section_count as nat,
            settings.smoothing_range as nat,
            settings.max_height as nat,
        ),
{
    *latest_average_frequency_value = spectrum.average();
    map_columns(
        spectrum.magnitudes(),
        settings.column_count,
        settings.section_count,
        settings.smoothing_range,
        settings.max_height,
    )
}

/// The sample display: maps the levels of the samples themselves, in
/// millionths and oldest first, to the columns, by the rule of the
/// frequency display.
pub fn visualize_audio_spectrum(levels: &Vec<u32>, settings: &AudioVisualizerSettings) -> (columns:
    Vec<ColumnValue>)
    requires
        levels@.len() <= MAX_BINS,
        settings.mappable(),
    ensures
        columns@ == mapped(
            levels@,
            settings.column_count as nat,
            settings.section_count as nat,
            settings.smoothing_range as nat,
            settings.max_height as nat,
        ),
{
    map_columns(
        levels,
        settings.column_count,
        settings.section_count,
        settings.smoothing_range,
        settings.max_height,
    )
}

/// The radius that the ring heads for under the latest mean magnitude.
pub open spec fn ring_target(average: u32, settings: AudioVisualizerSettings) -> int {
    radius_target(settings.radius as nat, average as nat, settings.scale_strenght as nat)
}

/// On a tick, eases the distance of every column from the centre toward
/// the radius that the latest mean magnitude calls for. Off a tick the
/// columns rest.
pub fn update_audio_visualizer_scale(
    fired: bool,
    latest_average_frequency_value: u32,
    settings: &AudioVisualizerSettings,
    distances: &mut Vec<i64>,
)
    ensures
        final(distances)@.len() == old(distances)@.len(),
        !fired ==> final(distances)@ == old(distances)@,
        fired ==> forall|i: int|
            0 <= i < old(distances)@.len() ==> #[trigger] final(distances)@[i] == eased(
                old(distances)@[i] as int,
                ring_target(latest_average_frequency_value, *settings),
                settings.scale_threshold as nat,
            ),
{
    if !fired {
        return ;
    }
    let target = scaled_radius(
        settings.radius,
        latest_average_frequency_value,
        settings.scale_strenght,
    );
    let count = distances.len();
    let mut i: usize = 0;
    while i < count
        invariant
            i <= count,
            distances@.len() == count,
            count == old(distances)@.len(),
            target == ring_target(latest_average_frequency_value, *settings),
            forall|k: int| i <= k < count ==> distances@[k] == old(distances)@[k],
            forall|k: int|
                0 <= k < i ==> #[trigger] distances@[k] == eased(
                    old(distances)@[k] as int,
                    target as int,
                    settings.scale_threshold as nat,
                ),
        decreases count - i,
    {
        let next = ease_toward(distances[i], target, settings.scale_threshold);
        distances.set(i, next);
        i = i + 1;
    }
}

/// On a tick, the angle by which the ring turns, in millionths of a
/// radian: against the rotation speed. `None` off a tick and at speed zero.
pub fn update_audio_visualizer_rotation(fired: bool, settings: &AudioVisualizerSettings) -> (turn:
    Option<i64>)
    ensures
        turn.is_some() <==> fired && settings.rotation_speed != 0,
        turn matches Some(angle) ==> turn_of(settings.rotation_speed as int) == Some(angle as int),
{
    if fired {
        rotation_step(settings.rotation_speed)
    } else {
        None
    }
}

/// The normal colour after one tick.
pub open spec fn normal_step(settings: AudioVisualizerSettings) -> Transition {
    stepped(
        settings.normal_color_transition_enabled,
        settings.normal_color_transition_progress as int,
        settings.normal_color_transition_speed as int,
        settings.normal_primary_color,
        settings.normal_secondary_color,
        settings.normal_primary_color_hdr_multiplier as int,
        settings.normal_secondary_color_hdr_multiplier as int,
    )
}

/// The highlight colour after one tick.
pub open spec fn highlight_step(settings: AudioVisualizerSettings) -> Transition {
    stepped(
        settings.highlight_color_transition_enabled,
        settings.highlight_color_transition_progress as int,
        settings.highlight_color_transition_speed as int,
        settings.highlight_primary_color,
        settings.highlight_secondary_color,
        settings.highlight_primary_color_hdr_multiplier as int,
        settings.highlight_secondary_color_hdr_multiplier as int,
    )
}

/// On a tick, moves both colour transitions on and gives the colours that
/// the normal and the highlighted columns now take. Off a tick nothing
/// changes.
pub fn update_color_transition(fired: bool, settings: &mut AudioVisualizerSettings) -> (colors:
    Option<(Rgba, Rgba)>)
    ensures
        !fired ==> colors.is_none() && *final(settings) == *old(settings),
        fired ==> colors == Some(
            (normal_step(*old(settings)).color, highlight_step(*old(settings)).color),
        ),
        fired ==> *final(settings) == (AudioVisualizerSettings {
            normal_color_transition_speed: normal_step(*old(settings)).speed,
            normal_color_transition_progress: normal_step(*old(settings)).progress,
            highlight_color_transition_speed: highlight_step(*old(settings)).speed,
            highlight_color_transition_progress: highlight_step(*old(settings)).progress,
            ..*old(settings)
        }),
{
    if !fired {
        return None;
    }
    let normal = transition_step(
        settings.normal_color_transition_enabled,
        settings.normal_color_transition_progress,
        settings.normal_color_transition_speed,
        settings.normal_primary_color,
        settings.normal_secondary_color,
        settings.normal_primary_color_hdr_multiplier,
        settings.normal_secondary_color_hdr_multiplier,
    );
    let highlight = transition_step(
        settings.highlight_color_transition_enabled,
        settings.highlight_color_transition_progress,
        settings.highlight_color_transition_speed,
        settings.highlight_primary_color,
        settings.highlight_secondary_color,
        settings.highlight_primary_color_hdr_multiplier,
        settings.highlight_secondary_color_hdr_multiplier,
    );
    settings.normal_color_transition_speed = normal.speed;
    settings.normal_color_transition_progress = normal.progress;
    settings.highlight_color_transition_speed = highlight.speed;
    settings.highlight_color_transition_progress = highlight.progress;
    Some((normal.color, highlight.color))
}

} // verus!
