use radial_visualizer::timer::AudioVisualizerUpdateTimer;
use radial_visualizer::timer::DEFAULT_PERIOD;
use radial_visualizer::visualizer::tick_audio_visualizer_update_timer;

#[test]
fn default_timer_has_the_default_period() {
    let timer = AudioVisualizerUpdateTimer::default();
    assert_eq!(DEFAULT_PERIOD, 32_000_000);
    assert_eq!(timer.period_nanos(), 32_000_000);
    assert_eq!(timer.elapsed_nanos(), 0);
    assert!(!timer.just_finished());
}

#[test]
fn timer_fires_when_the_period_is_reached() {
    let mut timer = AudioVisualizerUpdateTimer::default();
    timer.tick(10_000_000);
    assert!(!timer.just_finished());
    timer.tick(10_000_000);
    assert!(!timer.just_finished());
    timer.tick(10_000_000);
    assert!(!timer.just_finished());
    assert_eq!(timer.elapsed_nanos(), 30_000_000);
    timer.tick(10_000_000);
    assert!(timer.just_finished());
    assert_eq!(timer.elapsed_nanos(), 8_000_000);
    timer.tick(10_000_000);
    assert!(!timer.just_finished());
    assert_eq!(timer.elapsed_nanos(), 18_000_000);
}

#[test]
fn timer_fires_on_exactly_one_period() {
    let mut timer = AudioVisualizerUpdateTimer::new(100);
    timer.tick(100);
    assert!(timer.just_finished());
    assert_eq!(timer.elapsed_nanos(), 0);
}

#[test]
fn timer_fires_once_for_a_long_pass() {
    let mut timer = AudioVisualizerUpdateTimer::new(100);
    timer.tick(1_050);
    assert!(timer.just_finished());
    assert_eq!(timer.elapsed_nanos(), 50);
    timer.tick(0);
    assert!(!timer.just_finished());
    assert_eq!(timer.elapsed_nanos(), 50);
}

#[test]
fn timer_of_period_zero_fires_every_pass() {
    let mut timer = AudioVisualizerUpdateTimer::new(0);
    timer.tick(0);
    assert!(timer.just_finished());
    timer.tick(5);
    assert!(timer.just_finished());
    assert_eq!(timer.elapsed_nanos(), 0);
}

#[test]
fn timer_takes_the_longest_pass() {
    let mut timer = AudioVisualizerUpdateTimer::new(u64::MAX);
    timer.tick(u64::MAX - 1);
    assert!(!timer.just_finished());
    timer.tick(u64::MAX);
    assert!(timer.just_finished());
    assert_eq!(timer.elapsed_nanos(), u64::MAX - 1);
}

#[test]
fn tick_function_drives_the_timer() {
    let mut timer = AudioVisualizerUpdateTimer::default();
    tick_audio_visualizer_update_timer(&mut timer, 31_999_999);
    assert!(!timer.just_finished());
    tick_audio_visualizer_update_timer(&mut timer, 1);
    assert!(timer.just_finished());
    assert_eq!(timer.elapsed_nanos(), 0);
}
