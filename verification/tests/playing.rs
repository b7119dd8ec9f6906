use eqvis::audio::{SharedState, NO_SEEK};
use eqvis::playback::{
    measure_total_ms, reported_length, scan_cap, BandStep, EqSource, Rate,
};
use eqvis::stream::{
    capture, chain_index, check_format, find_device, find_output, live_steps, louder, next_sample,
    open_ring, sample_or_silence, DeviceFormat, Direction,
};

fn rate(hz: u32) -> Rate {
    Rate::from_hz(hz)
}

#[test]
fn rates_round_as_the_machine_does() {
    for n in [
        1u32, 2, 3, 8000, 44_100, 48_000, 96_000, 192_000, 16_777_215, 16_777_216, 16_777_217,
        16_777_218, 16_777_219, 33_554_431, 33_554_433, 33_554_434, 33_554_438, 123_456_789,
        2_147_483_647, 2_147_483_648, 2_147_483_649, 4_294_967_040, 4_294_967_167, 4_294_967_168,
        4_294_967_295,
    ] {
        let r = rate(n);
        assert_eq!(r.bits, (n as f32).to_bits(), "{n}");
        assert_eq!(r.hz, n as f32 as u64, "{n}");
    }
}

#[test]
fn filters_are_set_up_once_and_after_every_change() {
    let mut state = SharedState::new();
    let mut src = EqSource::new(rate(44_100), 1);
    let mut steps = Vec::new();
    src.plan_chain(&state, &mut steps);
    assert_eq!(steps, vec![BandStep::SetUp; 6]);
    src.plan_chain(&state, &mut steps);
    assert_eq!(steps, vec![BandStep::Process; 6]);
    state.bands[2].set_gain(3.0f32.to_bits());
    state.bands[4].set_enabled(false);
    src.plan_chain(&state, &mut steps);
    assert_eq!(
        steps,
        vec![
            BandStep::Process,
            BandStep::Process,
            BandStep::SetUp,
            BandStep::Process,
            BandStep::Bypass,
            BandStep::Process,
        ]
    );
    state.bands[4].set_enabled(true);
    src.plan_chain(&state, &mut steps);
    assert_eq!(steps, vec![BandStep::Process; 6]);
}

#[test]
fn every_channel_gets_its_filters() {
    let mut state = SharedState::new();
    let mut src = EqSource::new(rate(44_100), 2);
    let mut steps = Vec::new();
    for turn in 0..4 {
        src.plan_chain(&state, &mut steps);
        let want = if turn < 2 { BandStep::SetUp } else { BandStep::Process };
        assert_eq!(steps, vec![want; 6], "turn {turn}");
        src.finish_sample(0, &mut state);
    }
}

#[test]
fn a_new_layout_starts_over() {
    let mut state = SharedState::new();
    let mut src = EqSource::new(rate(44_100), 1);
    let mut steps = Vec::new();
    src.plan_chain(&state, &mut steps);
    src.finish_sample(0, &mut state);
    assert!(!src.ensure_config(rate(44_100), 1, &mut state));
    assert_eq!(f32::from_bits(state.sample_rate), 44_100.0);
    assert!(src.ensure_config(rate(48_000), 2, &mut state));
    assert_eq!(f32::from_bits(state.sample_rate), 48_000.0);
    assert_eq!((src.channels, src.frame_pos, src.frame_n), (2, 0, 1));
    src.plan_chain(&state, &mut steps);
    assert_eq!(steps[0], BandStep::SetUp);
}

#[test]
fn seeks_go_forwards() {
    let mut state = SharedState::new();
    let mut src = EqSource::new(rate(48_000), 1);
    assert_eq!(src.begin_seek(rate(48_000), 1, &mut state), None);
    state.seek_to_ms(500);
    assert_eq!(src.begin_seek(rate(48_000), 1, &mut state), Some((500, false, 24_000, false)));
    assert_eq!(state.seek_ms, NO_SEEK);
    src.end_seek(500, 24_000, &mut state);
    assert_eq!((src.frame_n, state.play_ms), (24_000, 500));
    state.seek_to_ms(500);
    assert_eq!(src.begin_seek(rate(48_000), 1, &mut state), Some((500, false, 0, false)));
}

#[test]
fn seeks_go_backwards() {
    let samples = [0.125f32, 0.25, 0.5, 0.75];
    let mut state = SharedState::new();
    let mut src = EqSource::new(rate(1000), 1);
    let mut at = 0;
    for _ in 0..3 {
        src.finish_sample(samples[at].to_bits(), &mut state);
        at += 1;
    }
    state.seek_to_ms(1);
    let (seek, rewind, skip, rebuilt) = src.begin_seek(rate(1000), 1, &mut state).unwrap();
    assert_eq!((seek, rewind, skip, rebuilt), (1, true, 1, false));
    if rewind {
        at = 0;
    }
    at += skip as usize;
    src.end_seek(seek, skip, &mut state);
    assert_eq!(samples[at], 0.25);
    assert_eq!((src.frame_n, state.play_ms), (1, 1));
}

#[test]
fn a_seek_in_the_middle_of_a_frame_keeps_the_channels_apart() {
    // Sample i of the file belongs to channel i % 2.
    let mut state = SharedState::new();
    let mut src = EqSource::new(rate(1000), 2);
    src.finish_sample(0, &mut state);
    state.seek_to_ms(1);
    let (_, rewind, skip, _) = src.begin_seek(rate(1000), 2, &mut state).unwrap();
    assert_eq!((rewind, skip), (false, 2));
    src.end_seek(1, skip, &mut state);
    assert_eq!((src.frame_n % 2, src.frame_pos % 2), (1, 1));
    for _ in 0..10 {
        src.finish_sample(0, &mut state);
    }
    state.seek_to_ms(2);
    let (_, rewind, skip, _) = src.begin_seek(rate(1000), 2, &mut state).unwrap();
    assert_eq!((rewind, skip), (true, 5));
    src.end_seek(2, skip, &mut state);
    assert_eq!((src.frame_n % 2, src.frame_pos % 2), (1, 1));
}

#[test]
fn positions_are_reported_again_after_a_seek_backwards() {
    let mut state = SharedState::new();
    let mut src = EqSource::new(rate(1000), 1);
    for _ in 0..5000 {
        src.finish_sample(0, &mut state);
    }
    state.seek_to_ms(10);
    assert_eq!(src.begin_seek(rate(1000), 2, &mut state), Some((10, true, 20, true)));
    src.end_seek(10, 20, &mut state);
    assert_eq!((src.frame_n, src.last_report, src.channels), (20, 0, 2));
    for _ in 0..4076 {
        assert_eq!(state.play_ms, 10);
        src.finish_sample(0, &mut state);
    }
    assert_eq!(state.play_ms, 2048);
}

#[test]
fn positions_are_reported_every_4096_samples() {
    let mut state = SharedState::new();
    let mut src = EqSource::new(rate(1000), 1);
    for _ in 0..4095 {
        src.finish_sample(0, &mut state);
    }
    assert_eq!(state.play_ms, 0);
    src.finish_sample(0, &mut state);
    assert_eq!(state.play_ms, 4096);
    state.total_ms = 5000;
    for _ in 0..4096 {
        src.finish_sample(0, &mut state);
    }
    assert_eq!(state.play_ms, 5000);
}

#[test]
fn positions_count_the_frames_of_a_stereo_file() {
    let mut state = SharedState::new();
    let mut src = EqSource::new(rate(1000), 2);
    for _ in 0..4096 {
        src.finish_sample(0, &mut state);
    }
    assert_eq!(state.play_ms, 2048);
    assert_eq!(measure_total_ms(4096, 2, 1000), 2048);
    state.seek_to_ms(5001);
    assert_eq!(src.begin_seek(rate(1000), 2, &mut state), Some((5001, false, 10_002 - 4096, false)));
}

#[test]
fn the_meter_shows_the_loudest_of_200_samples() {
    let mut state = SharedState::new();
    let mut src = EqSource::new(rate(1000), 1);
    for i in 0..200 {
        assert_eq!(state.output_peak, 0);
        let x = if i == 17 { -0.75f32 } else { 0.5 };
        src.finish_sample(x.to_bits(), &mut state);
    }
    assert_eq!(f32::from_bits(state.output_peak), 0.75);
    assert_eq!((src.peak_acc, src.peak_counter), (0, 0));
    for _ in 0..200 {
        src.finish_sample(0.25f32.to_bits(), &mut state);
    }
    assert_eq!(f32::from_bits(state.output_peak), 0.25);
}

#[test]
fn durations() {
    assert_eq!(measure_total_ms(96_000, 2, 48_000), 1000);
    assert_eq!(measure_total_ms(5, 0, 48_000), 0);
    assert_eq!(measure_total_ms(5, 2, 0), 0);
    assert_eq!(measure_total_ms(1, 1, 3), 333);
    assert_eq!(measure_total_ms(u64::MAX, 1, 1000), 4 * 3600 * 1000);
    assert_eq!(measure_total_ms(48_000 * 3600 * 3 * 2, 2, 48_000), 10_800_000);
    assert_eq!(measure_total_ms(48_000 * 3600 * 5 * 2, 2, 48_000), 14_400_000);
    assert_eq!(measure_total_ms(u64::MAX, u16::MAX, u32::MAX), 14_400_000);
    assert_eq!(scan_cap(1, 44_100), 635_040_000);
    assert_eq!(scan_cap(2, 44_100), 1_270_080_000);
    assert_eq!(reported_length(Some(7)), Some(7));
    assert_eq!(reported_length(Some(0)), None);
    assert_eq!(reported_length(None), None);
}

#[test]
fn captured_samples_come_out_in_order() {
    let (mut p, mut c) = open_ring(4);
    let block: Vec<u32> = (1..=12).map(|i| (i as f32).to_bits()).collect();
    let peak = capture(&mut p, &block, 1, &block);
    assert_eq!(f32::from_bits(peak), 12.0);
    for want in &block[..8] {
        assert_eq!(next_sample(&mut c), *want);
    }
    assert_eq!(next_sample(&mut c), 0);
    capture(&mut p, &vec![5], 1, &vec![5]);
    assert_eq!(next_sample(&mut c), 5);
    assert_eq!(next_sample(&mut c), 0);
}

#[test]
fn a_stereo_frame_goes_in_as_one_mix() {
    let (mut p, mut c) = open_ring(100);
    let block: Vec<u32> = [0.25f32, 0.5, -0.75, 0.25].iter().map(|v| v.to_bits()).collect();
    let mixes: Vec<u32> = [0.75f32, -0.5].iter().map(|v| v.to_bits()).collect();
    assert_eq!(f32::from_bits(capture(&mut p, &block, 2, &mixes)), 0.75);
    assert_eq!(f32::from_bits(next_sample(&mut c)), 0.75);
    assert_eq!(f32::from_bits(next_sample(&mut c)), -0.5);
    assert_eq!(next_sample(&mut c), 0);
}

#[test]
fn mixes_are_offered_again_once_there_is_room() {
    let (mut p, mut c) = open_ring(1);
    capture(&mut p, &vec![1, 2, 3], 1, &vec![1, 2, 3]);
    assert_eq!(next_sample(&mut c), 1);
    capture(&mut p, &vec![4, 5], 1, &vec![4, 5]);
    assert_eq!((next_sample(&mut c), next_sample(&mut c), next_sample(&mut c)), (2, 4, 0));
}

#[test]
fn the_output_runs_through_the_enabled_active_bands() {
    let mut state = SharedState::new();
    state.bands[2].set_enabled(false);
    state.bands[6].set_enabled(true);
    let mut steps = vec![true; 99];
    live_steps(&state, &mut steps);
    assert_eq!(steps, vec![true, true, false, true, true, true]);
}

#[test]
fn the_queue_keeps_its_order_when_it_wraps() {
    let (mut p, mut c) = open_ring(4);
    let mut next = 1u32;
    let mut seen = 0u32;
    for _ in 0..50 {
        let block = vec![next, next + 1, next + 2];
        capture(&mut p, &block, 1, &block);
        next += 3;
        for _ in 0..3 {
            seen += 1;
            assert_eq!(next_sample(&mut c), seen);
        }
    }
    assert_eq!(next_sample(&mut c), 0);
}

#[test]
fn peaks_pass_over_what_is_no_number() {
    let (mut p, _c) = open_ring(100);
    let block: Vec<u32> =
        [0.5f32, -2.0, f32::NAN, 1.0].iter().map(|v| v.to_bits()).collect();
    assert_eq!(f32::from_bits(capture(&mut p, &block, 1, &block)), 2.0);
    assert_eq!(capture(&mut p, &vec![], 2, &vec![]), 0);
    assert_eq!(louder(1.0f32.to_bits(), (-3.0f32).to_bits()), 3.0f32.to_bits());
}

#[test]
fn silence_on_underrun() {
    assert_eq!(sample_or_silence(None), 0);
    assert_eq!(sample_or_silence(Some(9)), 9);
}

#[test]
fn chains_of_channels() {
    assert_eq!(chain_index(0, 2), 0);
    assert_eq!(chain_index(1, 2), 1);
    assert_eq!(chain_index(5, 2), 1);
    assert_eq!(chain_index(5, 0), 0);
}

#[test]
fn formats_that_cannot_be_converted_are_refused() {
    for f in [
        DeviceFormat::F32,
        DeviceFormat::I16,
        DeviceFormat::U16,
        DeviceFormat::I32,
        DeviceFormat::U32,
        DeviceFormat::F64,
    ] {
        assert_eq!(check_format(Direction::Input, &f), Ok(()));
        assert_eq!(check_format(Direction::Output, &f), Ok(()));
    }
    let odd = DeviceFormat::Other("I8".to_string());
    assert_eq!(
        check_format(Direction::Input, &odd),
        Err("unsupported input sample format: I8".to_string())
    );
    assert_eq!(
        check_format(Direction::Output, &odd),
        Err("unsupported output sample format: I8".to_string())
    );
}

#[test]
fn devices_are_found_by_name() {
    let names = vec![None, Some("a".to_string()), Some("b".to_string()), Some("a".to_string())];
    assert_eq!(find_device(&names, &"a".to_string()), Some(1));
    assert_eq!(find_device(&names, &"c".to_string()), None);
    assert_eq!(find_output(&names, &"b".to_string()), Ok(2));
    assert_eq!(
        find_output(&names, &"c".to_string()),
        Err("specified output device not found: c".to_string())
    );
}
