use eqvis::audio::{default_bands, SharedState, NO_SEEK};
use eqvis::config::{ConfigValues, Settings, CONSOLE_DB_MAX, CONSOLE_DB_MIN};
use eqvis::controls::{
    knob, meter_is_silent, nearest_node, BandKnob, CONSOLE_Q_MAX, CONSOLE_Q_MIN, IDLE_LEVEL, MAX_FREQ,
    METER_FLOOR, MIN_FREQ, Q_MAX, Q_MIN, SHORTEST_SCRUB,
};
use eqvis::devices::{comes_before, endpoint_names, sorted_names};
use eqvis::display::{
    band_heading, band_number, grid_step, gridlines, window_control, GridLine, Rgba, StripStyle,
    WindowCommand, MEDIUM_RANGE, WIDE_RANGE,
};
use eqvis::filter::FilterKind;
use eqvis::gui::{EngineKind, EqApp, SettingsChange};

fn b(v: f32) -> u32 {
    v.to_bits()
}

fn f(v: u32) -> f32 {
    f32::from_bits(v)
}

fn app() -> EqApp {
    EqApp::new(SharedState::new(), None, "audio: disabled".to_string())
}

fn slots(n: usize) -> Vec<u32> {
    (0..n).map(|i| b(100.0 * (i as f32 + 1.0))).collect()
}

fn nothing() -> ConfigValues {
    ConfigValues {
        theme_dark: None,
        idle_anim: None,
        peak_hold: None,
        console_mode: None,
        knob_ui: None,
        db_min: None,
        db_max: None,
        vol_min: None,
        vol_max: None,
        num_bands: None,
    }
}

#[test]
fn a_new_interface() {
    let a = app();
    assert_eq!(a.settings, Settings::new());
    assert_eq!((a.selected, a.paused, a.show_settings), (None, false, false));
    assert_eq!((f(a.volume_gain), a.seek_drag), (1.0, false));
    assert_eq!((f(a.saved_db_min), f(a.saved_db_max)), (-60.0, 60.0));
    assert_eq!((a.vis_levels.len(), a.vis_peaks.len()), (32, 32));
    assert_eq!(a.audio_status, "audio: disabled");
}

#[test]
fn console_mode_remembers_the_range() {
    let mut a = app();
    a.set_floor(b(-30.0));
    a.set_roof(b(24.0));
    a.select(Some(5));
    assert!(a.set_console_mode(true));
    assert!(!a.set_console_mode(true));
    assert_eq!((a.settings.db_min, a.settings.db_max), (CONSOLE_DB_MIN, CONSOLE_DB_MAX));
    assert_eq!((a.state.num_bands(), a.selected), (5, None));
    a.select(Some(2));
    assert!(a.set_console_mode(false));
    assert_eq!((f(a.settings.db_min), f(a.settings.db_max)), (-30.0, 24.0));
    assert_eq!((a.state.num_bands(), a.selected), (6, None));
    assert_eq!(a.state.bands, default_bands());
}

#[test]
fn console_mode_keeps_a_selection_on_the_desk() {
    let mut a = app();
    a.select(Some(4));
    a.set_console_mode(true);
    assert_eq!(a.selected, Some(4));
}

#[test]
fn loading_console_mode_sets_up_the_desk() {
    let mut a = app();
    a.load_settings(&ConfigValues {
        console_mode: Some(true),
        num_bands: Some(40),
        db_min: Some(b(-20.0)),
        ..nothing()
    });
    assert_eq!(a.state.num_bands(), 40);
    a.finish_load(b(0.4));
    assert_eq!(a.state.num_bands(), 5);
    assert_eq!((a.settings.db_min, a.settings.db_max), (CONSOLE_DB_MIN, CONSOLE_DB_MAX));
    assert_eq!((f(a.saved_db_min), f(a.saved_db_max)), (-60.0, 60.0));
}

#[test]
fn loading_moves_gains_into_the_graph() {
    let mut a = app();
    a.state.bands[0].set_gain(b(50.0));
    a.load_settings(&ConfigValues { db_max: Some(b(12.0)), num_bands: Some(0), ..nothing() });
    a.finish_load(b(0.4));
    assert_eq!(f(a.state.bands[0].gain()), 12.0);
    assert_eq!(a.state.num_bands(), 1);
}

#[test]
fn what_was_saved_comes_back() {
    let mut a = app();
    a.apply_change(&SettingsChange::Theme { dark: false });
    a.apply_change(&SettingsChange::Floor { db: b(-42.0) });
    a.apply_change(&SettingsChange::AddBand { slots: slots(7) });
    let s = a.settings;
    let mut next = app();
    next.load_settings(&ConfigValues {
        theme_dark: Some(s.theme_dark),
        idle_anim: Some(s.idle_anim),
        peak_hold: Some(s.peak_hold),
        console_mode: Some(s.console_mode),
        knob_ui: Some(s.knob_ui),
        db_min: Some(s.db_min),
        db_max: Some(s.db_max),
        vol_min: Some(s.vol_min),
        vol_max: Some(s.vol_max),
        num_bands: Some(a.state.num_bands() as u32),
    });
    next.finish_load(b(0.39));
    assert_eq!(next.settings, s);
    assert_eq!(next.state.num_bands(), 7);
}

#[test]
fn changes_in_the_settings_window() {
    let mut a = app();
    assert!(a.apply_change(&SettingsChange::IdleAnimation { on: false }));
    assert!(a.apply_change(&SettingsChange::PeakHold { on: false }));
    assert!(a.apply_change(&SettingsChange::KnobTiles { on: true }));
    assert!(!a.settings.idle_anim && !a.settings.peak_hold && a.settings.knob_ui);
    assert!(a.apply_change(&SettingsChange::Console { on: true }));
    assert!(!a.apply_change(&SettingsChange::Console { on: true }));
    assert!(a.apply_change(&SettingsChange::VolumeMin { volume: b(1.0), floor: b(1.05) }));
    assert_eq!((f(a.settings.vol_min), f(a.settings.vol_max)), (1.0, 3.0));
    assert!(a.apply_change(&SettingsChange::VolumeMax { volume: b(1.0), floor: b(1.05) }));
    assert_eq!(f(a.settings.vol_max), 1.05);
    assert!(a.apply_change(&SettingsChange::Reset));
    assert_eq!(
        a.settings,
        Settings {
            console_mode: true,
            knob_ui: true,
            db_min: CONSOLE_DB_MIN,
            db_max: CONSOLE_DB_MAX,
            ..Settings::new()
        }
    );
    assert!(a.apply_change(&SettingsChange::Console { on: false }));
    assert!(a.apply_change(&SettingsChange::Roof { db: b(6.0) }));
    assert_eq!(f(a.settings.db_max), 6.0);
}

#[test]
fn a_lower_roof_takes_the_gains_along() {
    let mut a = app();
    a.set_band_number(1, BandKnob::Gain, b(20.0));
    a.set_band_number(2, BandKnob::Gain, b(-20.0));
    a.set_roof(b(6.0));
    a.set_floor(b(-10.0));
    assert_eq!(f(a.state.bands[1].gain()), 6.0);
    assert_eq!(f(a.state.bands[2].gain()), -10.0);
}

#[test]
fn adding_and_removing_bands_spreads_them() {
    let mut a = app();
    assert_eq!((a.slots_after_removal(), a.slots_after_addition()), (5, 7));
    a.select(Some(5));
    a.add_band(&slots(7));
    assert_eq!((a.state.num_bands(), a.selected), (7, Some(5)));
    assert_eq!(f(a.state.bands[0].freq()), 100.0);
    assert_eq!(f(a.state.bands[6].freq()), 300.0);
    a.remove_band(&slots(6));
    a.remove_band(&slots(5));
    assert_eq!((a.state.num_bands(), a.selected), (5, None));
    while a.state.num_bands() > 1 {
        let n = a.slots_after_removal();
        a.remove_band(&slots(n));
    }
    assert_eq!(a.slots_after_removal(), 1);
    a.remove_band(&slots(1));
    assert_eq!(a.state.num_bands(), 1);
}

#[test]
fn buttons_for_bands() {
    let mut a = app();
    assert!(a.can_remove_band() && a.can_add_band() && a.can_edit_strip());
    a.state.set_band_count(2);
    assert!(!a.can_remove_band());
    a.state.set_band_count(256);
    assert!(!a.can_add_band());
    a.set_console_mode(true);
    assert!(!a.can_remove_band() && !a.can_add_band() && !a.can_edit_strip());
}

#[test]
fn flatten_button() {
    let mut a = app();
    a.set_band_number(0, BandKnob::Gain, b(3.0));
    a.flatten();
    assert_eq!(a.state.bands, default_bands());
    a.set_console_mode(true);
    a.set_band_number(0, BandKnob::Gain, b(3.0));
    a.flatten();
    assert_eq!((a.state.num_bands(), f(a.state.bands[0].gain())), (5, 0.0));
}

#[test]
fn pause_and_stop() {
    let mut a = app();
    a.file_started("/x/y.mp3");
    assert_eq!(a.audio_status, "playing: /x/y.mp3");
    assert!(a.is_file());
    assert!(a.toggle_pause());
    assert!(!a.toggle_pause());
    a.toggle_pause();
    a.state.start_transport(5000);
    assert!(a.has_progress());
    a.scrub_started();
    a.stop_audio();
    assert_eq!((a.paused, a.engine, a.seek_drag), (false, None, false));
    assert_eq!((a.state.play_ms, a.state.total_ms, a.state.seek_ms), (0, 0, NO_SEEK));
    assert_eq!(a.audio_status, "audio: disabled");
    assert!(!a.is_file() && !a.has_progress());
    a.file_refused("no such file");
    assert_eq!(a.audio_status, "file error: no such file");
}

#[test]
fn settings_window_opens_and_closes() {
    let mut a = app();
    a.toggle_settings();
    assert!(a.show_settings);
    a.close_settings();
    assert!(!a.show_settings);
}

#[test]
fn device_window() {
    let mut a = app();
    assert!(!a.device_window_open());
    let outs = vec!["b".to_string(), "a".to_string(), "b".to_string()];
    a.start_audio(&outs, &vec!["m".to_string()]);
    assert!(a.device_window_open());
    assert_eq!(a.available_outputs, vec!["a", "b"]);
    a.pick_output(1);
    a.pick_input(Some(0));
    assert_eq!(a.selected_output.as_deref(), Some("b"));
    assert_eq!(a.selected_input.as_deref(), Some("m"));
    a.pick_input(None);
    assert_eq!(a.selected_input, None);
    a.engine_refused("busy");
    assert_eq!(a.device_message.as_deref(), Some("audio: unavailable (busy)"));
    assert!(a.device_window_open());
    a.engine_started();
    assert_eq!((a.engine, a.show_device_selection), (Some(EngineKind::Live), false));
    assert_eq!(a.audio_status, "audio: running");
    a.show_device_selection = true;
    assert!(!a.device_window_open());
    assert!(!a.show_device_selection);
    a.start_audio(&outs, &outs);
    a.leave_device_window();
    assert!(!a.device_window_open());
}

#[test]
fn scrubbing() {
    let mut a = app();
    assert_eq!(f(a.scrub_position(b(5.0), b(60.0))), 5.0);
    assert_eq!(f(a.scrub_position(b(70.0), b(60.0))), 60.0);
    assert_eq!(f(a.scrub_position(b(5.0), b(0.0))), 0.001);
    a.scrub_started();
    a.scrubbed(b(12.5), 12_500, 60);
    assert_eq!(f(a.scrub_position(b(5.0), b(60.0))), 12.5);
    assert_eq!((a.state.seek_ms, a.state.play_ms), (12_500, 12_500));
    a.scrubbed(b(60.4), 60_400, 60);
    assert_eq!((a.state.seek_ms, a.state.play_ms), (60_400, 60_000));
    a.scrub_released();
    assert_eq!(f(a.scrub_position(b(5.0), b(60.0))), 5.0);
}

#[test]
fn volume() {
    let mut a = app();
    let (lo, hi, v) = a.fader(b(0.4));
    assert_eq!((lo, hi, f(v)), (a.settings.vol_min, a.settings.vol_max, 1.0));
    a.set_volume(b(2.5));
    assert_eq!((f(a.volume_gain), f(a.state.master_gain)), (2.5, 2.5));
    a.settings.vol_max = b(1.0);
    let (_, hi, v) = a.fader(b(1.05));
    assert_eq!((f(hi), f(v)), (1.05, 1.05));
}

#[test]
fn dots_follow_the_pointer() {
    let mut a = app();
    a.drag_dot(b(500.0), b(3.0));
    assert_eq!(a.state.bands, default_bands());
    a.select(Some(3));
    a.drag_dot(b(500.0), b(90.0));
    assert_eq!(f(a.state.bands[3].freq()), 500.0);
    assert_eq!(f(a.state.bands[3].gain()), 60.0);
}

#[test]
fn the_wheel_turns_one_number() {
    let mut a = app();
    assert_eq!(EqApp::wheel_knob(false, false), BandKnob::Gain);
    assert_eq!(EqApp::wheel_knob(true, true), BandKnob::Frequency);
    assert_eq!(EqApp::wheel_knob(false, true), BandKnob::Bandwidth);
    a.set_roof(b(24.0));
    assert_eq!(f(a.turn_wheel(2, false, false, b(30.0))), 24.0);
    assert_eq!(f(a.state.bands[2].gain()), 24.0);
    assert_eq!(f(a.turn_wheel(2, true, false, b(30_000.0))), 20_000.0);
    assert_eq!(f(a.state.bands[2].freq()), 20_000.0);
    assert_eq!(f(a.turn_wheel(2, false, true, b(11.0))), 10.0);
    assert_eq!(f(a.turn_wheel(2, false, true, b(0.01))), 0.1);
    assert_eq!(f(a.state.bands[2].q()), 0.1);
    assert_eq!(a.selected, None);
}

#[test]
fn resting_bars_wobble() {
    let mut a = app();
    assert!(a.bars_rest());
    assert_eq!(f(a.bar_shown(3, b(0.05))), 0.05);
    a.settings.idle_anim = false;
    assert_eq!(a.bar_shown(3, b(0.05)), 0);
    a.settings.idle_anim = true;
    a.move_bar(31, b(0.02), 0);
    assert!(!a.bars_rest());
    assert_eq!(a.bar_shown(3, b(0.05)), 0);
    a.move_bar(31, b(0.019), 0);
    assert!(a.bars_rest());
    assert_eq!(f(a.bar_shown(31, b(0.01))), 0.019);
}

#[test]
fn the_wheel_on_the_desk() {
    let mut a = app();
    a.set_console_mode(true);
    assert_eq!(f(a.turn_wheel(1, false, false, b(20.0))), 15.0);
    assert_eq!(f(a.state.bands[1].gain()), 15.0);
    assert_eq!(f(a.turn_wheel(2, true, true, b(1.0))), 20.0);
    assert_eq!(f(a.state.bands[2].freq()), 20.0);
    assert_eq!(f(a.turn_wheel(3, false, true, b(9.0))), 5.0);
    assert_eq!(f(a.turn_wheel(3, false, true, b(0.2))), 0.5);
    assert_eq!(a.selected, Some(3));
}

#[test]
fn a_desk_stays_a_desk() {
    let mut a = app();
    a.set_console_mode(true);
    let kinds: Vec<FilterKind> = a.state.bands.iter().take(5).map(|x| x.kind()).collect();
    for n in 0..5 {
        a.turn_wheel(n, false, false, b(-99.0));
        a.turn_wheel(n, false, true, b(99.0));
        a.turn_wheel(n, true, false, b(5.0));
        a.drag_dot(b(700.0), b(99.0));
    }
    a.set_band_enabled(2, false);
    a.apply_change(&SettingsChange::Theme { dark: false });
    a.apply_change(&SettingsChange::VolumeMin { volume: b(0.5), floor: b(0.55) });
    assert_eq!(a.state.num_bands(), 5);
    assert!(!a.can_remove_band() && !a.can_add_band());
    for i in 0..5 {
        let x = a.state.bands[i];
        assert_eq!(x.kind(), kinds[i]);
        assert!((-15.0..=15.0).contains(&f(x.gain())));
        assert!((0.5..=5.0).contains(&f(x.q())));
    }
    a.flatten();
    assert_eq!(f(a.state.bands[0].gain()), 0.0);
}

#[test]
fn knobs_stay_in_their_range() {
    assert_eq!(f(knob(b(50.0), None, None, b(0.0), b(1.0))), 50.0);
    assert_eq!(f(knob(b(0.5), Some(b(0.7)), None, b(0.0), b(1.0))), 0.7);
    assert_eq!(f(knob(b(0.5), Some(b(0.7)), Some(b(7.0)), b(0.0), b(1.0))), 1.0);
    assert_eq!(f(knob(b(0.5), Some(b(-7.0)), None, b(0.0), b(1.0))), 0.0);
    let mut a = app();
    assert_eq!(a.q_range(), (Q_MIN, Q_MAX));
    a.set_console_mode(true);
    assert_eq!(a.q_range(), (CONSOLE_Q_MIN, CONSOLE_Q_MAX));
}

#[test]
fn knobs_write_only_new_numbers() {
    let mut a = app();
    a.turn_knob(0, BandKnob::Gain, b(-0.0));
    assert_eq!(a.state.bands[0].gain(), 0);
    a.turn_knob(0, BandKnob::Gain, b(2.0));
    a.turn_knob(0, BandKnob::Frequency, b(99.0));
    a.turn_knob(0, BandKnob::Bandwidth, b(4.0));
    let band = a.state.bands[0];
    assert_eq!((f(band.gain()), f(band.freq()), f(band.q())), (2.0, 99.0, 4.0));
}

#[test]
fn band_tiles() {
    let mut a = app();
    a.set_band_enabled(0, false);
    a.set_band_kind(0, FilterKind::LowPass);
    assert!(!a.state.bands[0].enabled());
    assert_eq!(a.state.bands[0].kind(), FilterKind::LowPass);
    assert_eq!((band_heading(0), band_number(255)), ("BAND 1".to_string(), "256".to_string()));
}

#[test]
fn the_nearest_dot_wins() {
    let d: Vec<u32> = [30.0f32, 9.0, f32::NAN, 4.0, 4.0, 5.0].iter().map(|v| b(*v)).collect();
    assert_eq!(nearest_node(&d, b(24.0)), Some(3));
    assert_eq!(nearest_node(&d, b(4.0)), None);
    assert_eq!(nearest_node(&vec![], b(24.0)), None);
    assert_eq!(nearest_node(&vec![b(10.0), b(10.0)], b(24.0)), Some(0));
}

#[test]
fn bars_bounce_and_glide() {
    let mut a = app();
    a.state.set_bar(3, b(0.8));
    assert_eq!(a.bar_target(3), 0);
    a.settings.idle_anim = false;
    assert_eq!(f(a.bar_target(3)), 0.8);
    a.settings.idle_anim = true;
    a.engine = Some(EngineKind::Live);
    assert_eq!(f(a.bar_target(3)), 0.8);
    assert!(a.bar_rises(3, b(0.8)));
    a.move_bar(3, b(0.36), b(0.0));
    assert_eq!((f(a.vis_levels[3]), f(a.vis_peaks[3])), (0.36, 0.36));
    assert!(!a.bar_rises(3, b(0.1)));
    a.move_bar(3, b(0.2), b(0.34));
    assert_eq!((f(a.vis_levels[3]), f(a.vis_peaks[3])), (0.2, 0.34));
}

#[test]
fn meters() {
    let mut a = app();
    assert!(!a.input_is_live());
    a.state.input_peak = b(0.001);
    assert!(a.input_is_live());
    assert!(meter_is_silent(b(0.0001)) && meter_is_silent(0));
    assert!(!meter_is_silent(b(0.0002)));
}

#[test]
fn grid_lines_adapt() {
    assert_eq!(grid_step(b(120.0)), 12);
    assert_eq!(grid_step(b(72.0)), 12);
    assert_eq!(grid_step(b(71.9)), 6);
    assert_eq!(grid_step(b(36.0)), 6);
    assert_eq!(grid_step(b(30.0)), 3);
    let at = |v: Vec<i32>| v.into_iter().map(GridLine::At).collect::<Vec<_>>();
    assert_eq!(gridlines(-5, 12, 60), at(vec![-60, -48, -36, -24, -12, 0, 12, 24, 36, 48, 60]));
    assert_eq!(gridlines(-1, 3, 5), at(vec![-3, 0, 3]));
    assert_eq!(gridlines(1, 3, 2), vec![GridLine::Floor, GridLine::Roof]);
}

#[test]
fn colors_follow_the_theme() {
    let mut a = app();
    let c = |r, g, b, a| Rgba { r, g, b, a };
    assert_eq!(a.graph_bg(), c(24, 24, 28, 255));
    assert_eq!(a.plot_overlay(), c(0, 0, 0, 90));
    assert_eq!(a.pin_ring(), c(255, 255, 255, 255));
    assert_eq!(a.titlebar().fill, c(34, 36, 41, 255));
    a.settings.theme_dark = false;
    assert_eq!(a.graph_bg(), c(226, 228, 236, 255));
    assert_eq!(a.grid_line(), c(180, 180, 180, 255));
    assert_eq!(a.grid_label(), c(95, 95, 95, 255));
    assert_eq!(a.zero_line(), c(150, 150, 150, 255));
    assert_eq!(a.tile_bg(), c(244, 245, 250, 255));
    assert_eq!(a.tile_stroke(), c(195, 195, 195, 255));
    assert_eq!(a.zero_band(), c(0, 0, 0, 40));
    assert_eq!(a.slot_band(), c(0, 0, 0, 10));
    assert_eq!(a.peak_cap(), c(55, 58, 68, 255));
    assert_eq!(a.titlebar().hover_fill, c(202, 202, 204, 255));
    assert_eq!(EqApp::band_color(1), c(255, 190, 90, 255));
    assert_eq!(EqApp::band_color(11), EqApp::band_color(5));
}

#[test]
fn strip_styles() {
    let mut a = app();
    assert_eq!(a.strip_style(), StripStyle::Sliders);
    a.settings.knob_ui = true;
    assert_eq!(a.strip_style(), StripStyle::ScrollingKnobs);
    a.set_console_mode(true);
    assert_eq!(a.strip_style(), StripStyle::FixedKnobs);
}

#[test]
fn window_controls() {
    assert_eq!(window_control(0, true), WindowCommand::Close);
    assert_eq!(window_control(1, true), WindowCommand::Maximize(false));
    assert_eq!(window_control(1, false), WindowCommand::Maximize(true));
    assert_eq!(window_control(2, false), WindowCommand::Minimize);
}

#[test]
fn device_names_are_sorted_and_unique() {
    let names: Vec<String> = ["Mic", "Zeta", "alpha", "Mic", "", "Mi", "é", "z", "\u{10000}", "\u{ffff}"]
        .iter()
        .map(|s| s.to_string())
        .collect();
    let mut want = names.clone();
    want.sort();
    want.dedup();
    assert_eq!(sorted_names(&names), want);
    assert!(comes_before(&"a".to_string(), &"ab".to_string()));
    assert!(!comes_before(&"ab".to_string(), &"a".to_string()));
}

#[test]
fn unreadable_and_blank_endpoints_are_left_out() {
    let raw = vec![
        Some("Mic".to_string()),
        None,
        Some("  \t".to_string()),
        Some("".to_string()),
        Some("Line".to_string()),
        Some("Mic".to_string()),
        Some(" Mic ".to_string()),
    ];
    assert_eq!(endpoint_names(&raw), vec![" Mic ", "Line", "Mic"]);
}

#[test]
fn named_limits_stand_for_their_numbers() {
    assert_eq!((f(MIN_FREQ), f(MAX_FREQ)), (20.0, 20_000.0));
    assert_eq!((f(Q_MIN), f(Q_MAX)), (0.1, 10.0));
    assert_eq!((f(CONSOLE_Q_MIN), f(CONSOLE_Q_MAX)), (0.5, 5.0));
    assert_eq!(f(IDLE_LEVEL), 0.02);
    assert_eq!((f(METER_FLOOR), f(SHORTEST_SCRUB)), (0.0001, 0.001));
    assert_eq!((f(WIDE_RANGE), f(MEDIUM_RANGE)), (72.0, 36.0));
}
