use eqvis::audio::{
    band_spot, console_layout, default_bands, BandParams, SharedState, CONSOLE_BANDS, MAX_BANDS,
    NO_SEEK, NUM_BANDS, NUM_BARS,
};
use eqvis::filter::{clear_chains, idx_to_kind, kind_to_idx, Biquad, Coeffs, FilterKind};

fn slots(n: usize) -> Vec<u32> {
    let lo = 20.0f32.ln();
    let hi = 20_000.0f32.ln();
    (0..n)
        .map(|rank| (lo + (hi - lo) * ((rank as f32 + 0.5) / n as f32)).exp().to_bits())
        .collect()
}

fn hz(b: &BandParams) -> f32 {
    f32::from_bits(b.freq())
}

#[test]
fn starting_strip() {
    let s = SharedState::new();
    assert_eq!(s.num_bands(), 6);
    assert_eq!(s.bands.len(), 256);
    let spots: Vec<(f32, FilterKind)> =
        s.bands.iter().take(6).map(|b| (hz(b), b.kind())).collect();
    assert_eq!(
        spots,
        vec![
            (80.0, FilterKind::HighPass),
            (250.0, FilterKind::Peak),
            (1000.0, FilterKind::Peak),
            (2500.0, FilterKind::Peak),
            (6000.0, FilterKind::Peak),
            (12000.0, FilterKind::HighShelf),
        ]
    );
    for b in &s.bands {
        assert_eq!(f32::from_bits(b.gain()), 0.0);
        assert_eq!(f32::from_bits(b.q()), 1.0);
    }
    assert_eq!(f32::from_bits(s.sample_rate()), 48000.0);
    assert_eq!(f32::from_bits(s.master_gain), 1.0);
    assert_eq!(s.spectrum, [0; NUM_BARS]);
    assert_eq!((s.play_ms, s.total_ms, s.seek_ms), (0, 0, NO_SEEK));
    assert_eq!((s.input_peak, s.output_peak), (0, 0));
}

#[test]
fn slots_past_the_first_six_start_disabled() {
    let bands = default_bands();
    assert_eq!(bands.len(), MAX_BANDS);
    for (i, b) in bands.iter().enumerate() {
        assert_eq!(b.enabled(), i < NUM_BANDS, "slot {i}");
    }
}

#[test]
fn extra_spots_repeat() {
    let at = |i: usize| {
        let (f, k) = band_spot(i);
        (f32::from_bits(f), k)
    };
    assert_eq!(at(6), (400.0, FilterKind::Peak));
    assert_eq!(at(7), (3000.0, FilterKind::Peak));
    assert_eq!(at(8), (8000.0, FilterKind::Peak));
    assert_eq!(at(9), (16000.0, FilterKind::HighShelf));
    assert_eq!(at(10), at(6));
    assert_eq!(at(255), at(7));
}

#[test]
fn console_spots() {
    let at = |i: usize| {
        let (f, k) = console_layout(i);
        (f32::from_bits(f), k)
    };
    assert_eq!(at(0), (80.0, FilterKind::LowShelf));
    assert_eq!(at(1), (400.0, FilterKind::Peak));
    assert_eq!(at(2), (1000.0, FilterKind::Peak));
    assert_eq!(at(3), (3000.0, FilterKind::Peak));
    assert_eq!(at(4), (12000.0, FilterKind::HighShelf));
}

#[test]
fn every_slot_can_be_used() {
    let mut s = SharedState::new();
    for n in 7..=MAX_BANDS {
        s.add_band();
        assert_eq!(s.num_bands(), n);
        assert!(s.bands[n - 1].enabled());
    }
    s.add_band();
    assert_eq!(s.num_bands(), MAX_BANDS);
}

#[test]
fn an_added_band_is_fresh() {
    let mut s = SharedState::new();
    s.bands[6].set_gain(9.0f32.to_bits());
    s.bands[6].set_kind(FilterKind::LowPass);
    s.add_band();
    assert_eq!(hz(&s.bands[6]), 400.0);
    assert_eq!(f32::from_bits(s.bands[6].gain()), 0.0);
    assert_eq!(s.bands[6].kind(), FilterKind::Peak);
    assert!(s.bands[6].enabled());
}

#[test]
fn the_last_band_stays() {
    let mut s = SharedState::new();
    for _ in 0..20 {
        s.remove_band();
    }
    assert_eq!(s.num_bands(), 1);
}

#[test]
fn removing_undoes_adding() {
    let mut s = SharedState::new();
    s.bands[2].set_gain(4.0f32.to_bits());
    let before = s.bands.clone();
    s.add_band();
    s.remove_band();
    assert_eq!(s.num_bands(), 6);
    assert_eq!(&s.bands[..6], &before[..6]);
}

#[test]
fn restored_band_counts() {
    for (n, want) in [(0, 1), (1, 1), (9, 9), (256, 256), (1000, 256)] {
        let mut s = SharedState::new();
        s.set_band_count(n);
        assert_eq!(s.num_bands(), want);
        for (i, b) in s.bands.iter().enumerate() {
            assert_eq!(b.enabled(), i < want);
        }
    }
}

#[test]
fn spreading_keeps_the_order_and_the_rest_of_a_band() {
    let mut s = SharedState::new();
    let freqs = [900.0f32, 100.0, 5000.0, 100.0, 30.0, 12000.0];
    for (i, f) in freqs.iter().enumerate() {
        s.bands[i].set_freq(f.to_bits());
        s.bands[i].set_gain((i as f32).to_bits());
    }
    let want = slots(6);
    s.evenly_spread_bands(&want);
    let got: Vec<u32> = s.bands.iter().take(6).map(|b| b.freq()).collect();
    assert_eq!(got, vec![want[3], want[1], want[4], want[2], want[0], want[5]]);
    for i in 0..6 {
        assert_eq!(f32::from_bits(s.bands[i].gain()), i as f32);
    }
    assert_eq!(hz(&s.bands[6]), 400.0);
    let again = s.bands.clone();
    s.evenly_spread_bands(&want);
    assert_eq!(s.bands, again);
}

#[test]
fn flattening_gives_the_starting_strip() {
    let mut s = SharedState::new();
    s.set_band_count(20);
    for b in s.bands.iter_mut() {
        b.set_gain(3.0f32.to_bits());
        b.set_q(7.0f32.to_bits());
        b.set_freq(55.0f32.to_bits());
        b.set_kind(FilterKind::LowPass);
    }
    s.flatten();
    assert_eq!(s.num_bands(), 6);
    assert_eq!(s.bands, default_bands());
}

#[test]
fn console_mode_and_back() {
    let mut s = SharedState::new();
    s.bands[1].set_gain(3.0f32.to_bits());
    s.bands[7].set_enabled(true);
    s.apply_console_mode(true);
    assert_eq!(s.num_bands(), CONSOLE_BANDS);
    let freqs: Vec<f32> = s.bands.iter().take(5).map(hz).collect();
    assert_eq!(freqs, vec![80.0, 400.0, 1000.0, 3000.0, 12000.0]);
    for (i, b) in s.bands.iter().enumerate() {
        assert_eq!(b.enabled(), i < 5);
    }
    assert_eq!(f32::from_bits(s.bands[1].gain()), 0.0);
    s.apply_console_mode(false);
    assert_eq!(s.num_bands(), 6);
    assert_eq!(s.bands, default_bands());
}

#[test]
fn gains_move_into_a_range() {
    let mut s = SharedState::new();
    s.bands[0].set_gain(40.0f32.to_bits());
    s.bands[1].set_gain((-40.0f32).to_bits());
    s.bands[2].set_gain(1.5f32.to_bits());
    s.bands[6].set_gain(40.0f32.to_bits());
    s.clamp_gains((-15.0f32).to_bits(), 15.0f32.to_bits());
    let g: Vec<f32> = s.bands.iter().take(7).map(|b| f32::from_bits(b.gain())).collect();
    assert_eq!(g, vec![15.0, -15.0, 1.5, 0.0, 0.0, 0.0, 40.0]);
}

#[test]
fn transport_of_a_file() {
    let mut s = SharedState::new();
    s.start_transport(90_000);
    assert_eq!((s.play_ms, s.total_ms, s.seek_ms), (0, 90_000, NO_SEEK));
    s.seek_to_ms(1234);
    assert_eq!(s.seek_ms, 1234);
    s.reset_transport();
    assert_eq!((s.play_ms, s.total_ms, s.seek_ms), (0, 0, NO_SEEK));
}

#[test]
fn spectrum_bars_are_set_one_by_one() {
    let mut s = SharedState::new();
    s.set_bar(31, 7);
    assert_eq!(s.spectrum[31], 7);
    assert_eq!(s.spectrum[..31], [0; 31]);
}

#[test]
fn shapes_and_indices() {
    for (i, k) in FilterKind::ALL.iter().enumerate() {
        assert_eq!(kind_to_idx(*k) as usize, i);
        assert_eq!(idx_to_kind(i as u8), *k);
        assert_eq!(idx_to_kind(i as u8 + 5), *k);
    }
    assert_eq!(idx_to_kind(255), FilterKind::Peak);
    let labels: Vec<&str> = FilterKind::ALL.iter().map(|k| k.label()).collect();
    assert_eq!(labels, vec!["Peak", "Low Shelf", "High Shelf", "Low Pass", "High Pass"]);
}

#[test]
fn band_setters() {
    let mut b = default_bands()[0];
    b.set_freq(1);
    b.set_gain(2);
    b.set_q(3);
    b.set_kind(FilterKind::HighShelf);
    b.set_enabled(false);
    assert_eq!((b.freq(), b.gain(), b.q()), (1, 2, 3));
    assert_eq!((b.kind(), b.enabled()), (FilterKind::HighShelf, false));
}

#[test]
fn filter_memory() {
    let mut f = Biquad::default();
    assert_eq!((f.x1, f.x2, f.y1, f.y2), (0, 0, 0, 0));
    let c = Coeffs { b0: 1, b1: 2, b2: 3, a1: 4, a2: 5 };
    f.load(c);
    f.shift(10, 20);
    f.shift(11, 21);
    f.shift(12, 22);
    assert_eq!((f.x1, f.x2, f.y1, f.y2), (12, 11, 22, 21));
    f.reset();
    assert_eq!((f.x1, f.x2, f.y1, f.y2), (0, 0, 0, 0));
    assert_eq!(f.coeffs, c);
}

#[test]
fn every_chain_forgets_its_signal() {
    let c = Coeffs { b0: 1, b1: 2, b2: 3, a1: 4, a2: 5 };
    let mut f = Biquad::default();
    f.load(c);
    f.shift(10, 20);
    f.shift(11, 21);
    let mut chains = vec![vec![f; 3], vec![], vec![f, Biquad::default()]];
    clear_chains(&mut chains);
    let mut clear = Biquad::default();
    clear.load(c);
    assert_eq!(chains, vec![vec![clear; 3], vec![], vec![clear, Biquad::default()]]);
}
