use tile::pacing::{capped_fps, SleepPacer};

const MILLI: u64 = 1_000_000;
const MACOS_FPS_CAP: Option<u32> = Some(45);
const UNCAPPED: Option<u32> = None;
const ALL_FPS_CAPS: &[Option<u32>] = &[UNCAPPED, MACOS_FPS_CAP];
const PLATFORM_FPS_CAP: Option<u32> = UNCAPPED;

#[test]
fn sleep_pacer_aggregates_stats_across_same_window_retargets() {
    let mut pacer = SleepPacer::new(0);
    pacer.begin_stats(7, 20 * MILLI, 0);
    pacer.record_frame_work(10 * MILLI);
    pacer.begin_stats(7, 20 * MILLI, 0);
    pacer.record_frame_work(21 * MILLI);

    let stats = pacer.stats.as_ref().unwrap();
    assert_eq!(stats.frames, 2);
    assert_eq!(stats.overruns, 1);
    let finished = pacer.finish_stats();
    assert!(finished.is_some());
    assert!(pacer.stats.is_none());
}

#[test]
fn sleep_pacer_starts_fresh_stats_for_a_different_window() {
    let mut pacer = SleepPacer::new(0);
    pacer.begin_stats(7, 20 * MILLI, 0);
    pacer.record_frame_work(21 * MILLI);

    let superseded = pacer.begin_stats(8, 20 * MILLI, 5);

    let stats = pacer.stats.as_ref().unwrap();
    assert_eq!(stats.id, 8);
    assert_eq!(stats.frames, 0);
    assert_eq!(superseded.map(|s| s.id), Some(7));
}

#[test]
fn every_platform_cap_bounds_the_frame_rate() {
    let fps = 240;
    assert_eq!(capped_fps(fps, MACOS_FPS_CAP), 45);
    assert_eq!(capped_fps(fps, UNCAPPED), fps);
}

#[test]
fn a_rate_below_every_cap_is_left_alone() {
    let fps = 15;
    for cap in ALL_FPS_CAPS {
        assert_eq!(capped_fps(fps, *cap), fps, "cap {cap:?} changed a rate already below it");
    }
}

#[test]
fn this_platform_uses_one_of_the_declared_caps() {
    assert!(ALL_FPS_CAPS.contains(&PLATFORM_FPS_CAP));
    assert_eq!(capped_fps(240, PLATFORM_FPS_CAP), 240);
}

#[test]
fn the_pacer_sleeps_out_the_rest_of_the_frame() {
    let mut pacer = SleepPacer::new(100);
    assert_eq!(pacer.remaining(10, 104), Some(6));
    assert_eq!(pacer.remaining(10, 130), None);
    assert_eq!(pacer.frame_done(112), 12);
    assert_eq!(pacer.previous, 112);
    pacer.reset(200);
    assert_eq!(pacer.remaining(10, 200), Some(10));
}

#[test]
fn finishing_without_a_flight_reports_nothing() {
    let mut pacer = SleepPacer::new(0);
    pacer.record_frame_work(5);
    assert!(pacer.finish_stats().is_none());
}
