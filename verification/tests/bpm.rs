use sakanaa_web::bpm::{
    double_if_slow, first_beat_ms, onset_time_ms, plan_analysis, AnalysisError, AnalysisPlan,
    BPMCluster, BeatEvent, BeatTracker, ProcessedAudio, SampleWindow, StreamInfo, TempoChange,
    TempoEstimate, BPM_CLUSTER_THRESHOLD, CONFIDENCE_FLOOR, DOUBLED_TEMPO_LIMIT, HALF_TEMPO_LIMIT,
    TEMPO_BUFFER_SIZE, TEMPO_HOP_SIZE,
};

fn sure(bpm_milli: u32, onset_ms: u64) -> TempoEstimate {
    TempoEstimate { bpm_milli, confidence_micro: 500_000, onset_ms }
}

fn event(time_ms: u64, bpm_milli: u32) -> BeatEvent {
    BeatEvent { time_ms, bpm_milli }
}

#[test]
fn constants_are_those_of_the_design() {
    assert_eq!(BPM_CLUSTER_THRESHOLD, 8_000);
    assert_eq!(CONFIDENCE_FLOOR, 50_000);
    assert_eq!(HALF_TEMPO_LIMIT, 200_000);
    assert_eq!(DOUBLED_TEMPO_LIMIT, 300_000);
    assert_eq!(TEMPO_BUFFER_SIZE, 1024);
    assert_eq!(TEMPO_HOP_SIZE, 512);
}

#[test]
fn cluster_median_of_odd_and_even_counts() {
    let mut c = BPMCluster::new();
    assert_eq!(c.median(), None);
    assert_eq!(c.len(), 0);
    c.add(120_000);
    assert_eq!(c.median(), Some(120_000));
    c.add(122_000);
    assert_eq!(c.median(), Some(121_000));
    c.add(118_000);
    assert_eq!(c.median(), Some(120_000));
    c.add(121_001);
    // 118000 120000 121001 122000: the mean of the two in the middle, rounded down
    assert_eq!(c.median(), Some(120_500));
    assert_eq!(c.len(), 4);
}

#[test]
fn cluster_median_resists_an_outlier() {
    let mut c = BPMCluster::new();
    for bpm in [100_000, 101_000, 99_000, 100_500, 107_900] {
        c.add(bpm);
    }
    assert_eq!(c.median(), Some(100_500));
}

#[test]
fn cluster_nearness_is_measured_on_the_exact_mean() {
    let mut c = BPMCluster::new();
    assert!(!c.is_near(120_000));
    for bpm in [118_000, 120_000, 121_000, 122_000] {
        c.add(bpm);
    }
    // the mean is 120250
    assert!(c.is_near(120_250));
    assert!(c.is_near(128_249));
    assert!(!c.is_near(128_250));
    assert!(c.is_near(112_251));
    assert!(!c.is_near(112_250));
}

#[test]
fn first_beat_is_the_onset_modulo_the_beat() {
    assert_eq!(first_beat_ms(1300, 120_000), 300);
    assert_eq!(first_beat_ms(1000, 90_000), 333);
    assert_eq!(first_beat_ms(499, 120_000), 499);
    assert_eq!(first_beat_ms(500, 120_000), 0);
    assert_eq!(first_beat_ms(0, 120_000), 0);
    assert_eq!(first_beat_ms(77, 0), 77);
    assert_eq!(first_beat_ms(u64::MAX, 1), u64::MAX % 60_000_000);
}

#[test]
fn onset_time_is_rounded_to_the_nearest_millisecond() {
    assert_eq!(onset_time_ms(0, 44_100), Some(0));
    assert_eq!(onset_time_ms(44_100, 44_100), Some(1000));
    assert_eq!(onset_time_ms(22_072, 44_100), Some(500));
    assert_eq!(onset_time_ms(22_073, 44_100), Some(501));
    assert_eq!(onset_time_ms(1, 2000), Some(1));
    assert_eq!(onset_time_ms(1, 2001), Some(0));
    assert_eq!(onset_time_ms(5, 0), None);
    assert_eq!(onset_time_ms(u64::MAX, 1), None);
}

#[test]
fn steady_tempo_makes_one_cluster_and_one_event() {
    let mut t = BeatTracker::new();
    let bpms = [120_000, 121_500, 118_200, 122_000, 119_000, 120_700, 118_000];
    for (i, bpm) in bpms.iter().enumerate() {
        t.observe(sure(*bpm, 1300 + 500 * i as u64));
    }
    assert_eq!(t.cluster_count(), 1);
    assert_eq!(t.changes(), vec![TempoChange { time_ms: 1300, cluster: 0 }]);
}

#[test]
fn tempo_step_makes_one_more_event_at_its_onset() {
    let mut t = BeatTracker::new();
    for (i, bpm) in [120_000, 121_500, 118_200, 122_000, 119_000].iter().enumerate() {
        t.observe(sure(*bpm, 1300 + 500 * i as u64));
    }
    t.observe(sure(140_000, 9000));
    t.observe(sure(141_000, 9400));
    t.observe(sure(139_500, 9800));
    assert_eq!(t.cluster_count(), 2);
    assert_eq!(
        t.changes(),
        vec![
            TempoChange { time_ms: 1300, cluster: 0 },
            TempoChange { time_ms: 9000, cluster: 1 },
        ]
    );
    // medians 120000 and 140000, both slow: the timeline is doubled, and the
    // first event lies on the first beat of the track
    assert_eq!(t.timeline(), vec![event(300, 240_000), event(9000, 280_000)]);
}

#[test]
fn tempo_that_comes_back_joins_its_old_cluster() {
    let mut t = BeatTracker::new();
    t.observe(sure(100_000, 1000));
    t.observe(sure(180_000, 2000));
    t.observe(sure(101_000, 3000));
    assert_eq!(t.cluster_count(), 2);
    assert_eq!(
        t.changes(),
        vec![
            TempoChange { time_ms: 1000, cluster: 0 },
            TempoChange { time_ms: 2000, cluster: 1 },
            TempoChange { time_ms: 3000, cluster: 0 },
        ]
    );
    // 180 is not slow: nothing is doubled; the cluster 0 has the median 100500
    assert_eq!(
        t.timeline(),
        vec![
            event(first_beat_ms(1000, 100_500), 100_500),
            event(2000, 180_000),
            event(3000, 100_500),
        ]
    );
    assert_eq!(first_beat_ms(1000, 100_500), 402);
}

#[test]
fn estimate_below_the_confidence_floor_is_dropped() {
    let mut t = BeatTracker::new();
    t.observe(TempoEstimate { bpm_milli: 120_000, confidence_micro: 49_999, onset_ms: 10 });
    t.observe(TempoEstimate { bpm_milli: 120_000, confidence_micro: 0, onset_ms: 20 });
    assert_eq!(t.cluster_count(), 0);
    assert!(t.changes().is_empty());
    assert!(t.timeline().is_empty());
}

#[test]
fn estimate_at_the_confidence_floor_counts() {
    let mut t = BeatTracker::new();
    t.observe(TempoEstimate { bpm_milli: 120_000, confidence_micro: 50_000, onset_ms: 30 });
    assert_eq!(t.cluster_count(), 1);
    assert_eq!(t.changes(), vec![TempoChange { time_ms: 30, cluster: 0 }]);
    // one below the floor between two that count leaves no trace
    t.observe(TempoEstimate { bpm_milli: 180_000, confidence_micro: 49_999, onset_ms: 40 });
    t.observe(TempoEstimate { bpm_milli: 121_000, confidence_micro: 50_001, onset_ms: 50 });
    assert_eq!(t.cluster_count(), 1);
    assert_eq!(t.changes(), vec![TempoChange { time_ms: 30, cluster: 0 }]);
}

#[test]
fn estimate_near_the_old_tempo_goes_back_to_it_after_a_step() {
    // 125 lies near the mean of the first cluster, 120, as well as near the
    // second, 129: the first cluster takes it, and the tempo changes again
    let mut t = BeatTracker::new();
    t.observe(sure(120_000, 100));
    t.observe(sure(129_000, 200));
    t.observe(sure(125_000, 300));
    assert_eq!(t.cluster_count(), 2);
    assert_eq!(
        t.changes(),
        vec![
            TempoChange { time_ms: 100, cluster: 0 },
            TempoChange { time_ms: 200, cluster: 1 },
            TempoChange { time_ms: 300, cluster: 0 },
        ]
    );
}

#[test]
fn estimate_joins_the_first_cluster_it_is_near() {
    let mut t = BeatTracker::new();
    t.observe(sure(100_000, 1));
    t.observe(sure(110_000, 2));
    // 105 is near both clusters: the first one takes it
    t.observe(sure(105_000, 3));
    assert_eq!(t.cluster_count(), 2);
    assert_eq!(
        t.changes(),
        vec![
            TempoChange { time_ms: 1, cluster: 0 },
            TempoChange { time_ms: 2, cluster: 1 },
            TempoChange { time_ms: 3, cluster: 0 },
        ]
    );
}

#[test]
fn slow_timeline_is_doubled_exactly() {
    let slow = vec![event(0, 70_000), event(10, 90_000), event(20, 85_500), event(30, 149_999)];
    assert_eq!(
        double_if_slow(slow),
        vec![event(0, 140_000), event(10, 180_000), event(20, 171_000), event(30, 299_998)]
    );
}

#[test]
fn one_fast_event_leaves_the_timeline_as_it_is() {
    let mixed = vec![event(0, 70_000), event(10, 200_000), event(20, 90_000)];
    assert_eq!(double_if_slow(mixed.clone()), mixed);
    let mixed = vec![event(0, 70_000), event(10, 250_000)];
    assert_eq!(double_if_slow(mixed.clone()), mixed);
    // under the half tempo limit, but its double is not plausible
    let mixed = vec![event(0, 70_000), event(10, 150_000)];
    assert_eq!(double_if_slow(mixed.clone()), mixed);
}

#[test]
fn empty_timeline_stays_empty() {
    assert_eq!(double_if_slow(vec![]), vec![]);
}

#[test]
fn windows_are_cut_across_pushes() {
    let mut w = SampleWindow::new();
    let first: Vec<i16> = (0..1000).map(|i| i as i16).collect();
    assert!(w.push(&first).is_empty());
    let second: Vec<i16> = (1000..1100).map(|i| i as i16).collect();
    let windows = w.push(&second);
    assert_eq!(windows.len(), 1);
    let expected: Vec<i16> = (0..1024).map(|i| i as i16).collect();
    assert_eq!(windows[0], expected);
    // 76 samples wait; 2048 more make two windows and leave 76 again
    let third: Vec<i16> = (1100..3148).map(|i| i as i16).collect();
    let windows = w.push(&third);
    assert_eq!(windows.len(), 2);
    let expected: Vec<i16> = (1024..2048).map(|i| i as i16).collect();
    assert_eq!(windows[0], expected);
    let expected: Vec<i16> = (2048..3072).map(|i| i as i16).collect();
    assert_eq!(windows[1], expected);
    let rest: Vec<i16> = (0..948).map(|_| 0).collect();
    let windows = w.push(&rest);
    assert_eq!(windows.len(), 1);
    assert_eq!(windows[0][0], 3072);
    assert_eq!(windows[0][75], 3147);
    assert_eq!(windows[0][76], 0);
}

#[test]
fn analysis_takes_the_first_mono_or_stereo_stream() {
    let streams = vec![
        StreamInfo { has_codec: false, channels: Some(2), frames: Some(1), sample_rate: Some(1) },
        StreamInfo { has_codec: true, channels: Some(6), frames: Some(1), sample_rate: Some(1) },
        StreamInfo { has_codec: true, channels: None, frames: Some(1), sample_rate: Some(1) },
        StreamInfo {
            has_codec: true,
            channels: Some(2),
            frames: Some(1_000_000),
            sample_rate: Some(44_100),
        },
        StreamInfo { has_codec: true, channels: Some(1), frames: Some(5), sample_rate: Some(8000) },
    ];
    assert_eq!(
        plan_analysis(&streams),
        Ok(AnalysisPlan { stream: 3, channels: 2, frames: 1_000_000, sample_rate: 44_100 })
    );
}

#[test]
fn analysis_fails_without_a_suitable_stream() {
    assert_eq!(plan_analysis(&vec![]), Err(AnalysisError::NoSuitableTrack));
    let streams = vec![
        StreamInfo { has_codec: true, channels: Some(0), frames: Some(1), sample_rate: Some(1) },
        StreamInfo { has_codec: true, channels: Some(3), frames: Some(1), sample_rate: Some(1) },
    ];
    assert_eq!(plan_analysis(&streams), Err(AnalysisError::NoSuitableTrack));
}

#[test]
fn analysis_fails_without_frames_or_sample_rate() {
    let no_frames = vec![StreamInfo {
        has_codec: true,
        channels: Some(1),
        frames: None,
        sample_rate: None,
    }];
    assert_eq!(plan_analysis(&no_frames), Err(AnalysisError::NoFrames));
    let no_rate = vec![
        StreamInfo { has_codec: true, channels: Some(1), frames: Some(9), sample_rate: None },
        StreamInfo { has_codec: true, channels: Some(1), frames: Some(9), sample_rate: Some(1) },
    ];
    assert_eq!(plan_analysis(&no_rate), Err(AnalysisError::NoSampleRate));
}

#[test]
fn processed_audio_holds_both_results() {
    let p = ProcessedAudio { mp3_data: vec![0xff, 0xfb], beat_data: vec![event(0, 1)] };
    assert_eq!(p.mp3_data.len(), 2);
    assert_eq!(p.beat_data, vec![event(0, 1)]);
    assert_ne!(AnalysisError::DecodeFailure, AnalysisError::NoFrames);
}

#[test]
fn timeline_is_ordered_by_time() {
    let mut t = BeatTracker::new();
    let bpms = [100_000, 130_000, 101_000, 160_000, 131_000, 99_000, 190_000];
    for (i, bpm) in bpms.iter().enumerate() {
        t.observe(sure(*bpm, 700 + 450 * i as u64));
    }
    let timeline = t.timeline();
    assert_eq!(timeline.len(), 7);
    for pair in timeline.windows(2) {
        assert!(pair[0].time_ms <= pair[1].time_ms);
    }
    // the first event is moved back, never forward
    assert!(timeline[0].time_ms <= 700);
    assert_eq!(timeline[0].time_ms, first_beat_ms(700, 100_000));
    assert_eq!(timeline[0].time_ms, 100);
}
