use eqvis::spectrum::{
    bar_bins, loudest, permute, reversal_table, transform_plan, SpectrumAnalyzer, FFT_PAIRS,
    FFT_SIZE, FFT_STAGES, PEAK_FLOOR, SHOW_FLOOR,
};

#[test]
fn reversal_mirrors_eleven_bits() {
    let t = reversal_table();
    assert_eq!(t.len(), 2048);
    assert_eq!((t[0], t[1], t[2], t[3]), (0, 1024, 512, 1536));
    assert_eq!(t[2047], 2047);
    for (i, &j) in t.iter().enumerate() {
        assert_eq!(t[j], i);
        assert_eq!(j, ((i as u32).reverse_bits() >> 21) as usize);
    }
}

#[test]
fn permuting_twice_gives_the_frame_back() {
    let t = reversal_table();
    let frame: Vec<u32> = (0..2048).collect();
    let mut re = frame.clone();
    let mut im: Vec<u32> = frame.iter().map(|x| x + 5000).collect();
    permute(&mut re, &mut im, &t);
    assert_eq!(re[1], 1024);
    assert_eq!(im[3], 6536);
    let other = im.clone();
    permute(&mut re, &mut im, &t);
    assert_eq!(re, frame);
    assert_ne!(im, other);
}

#[test]
fn plan_follows_the_nested_loops() {
    let plan = transform_plan();
    assert_eq!(plan.len(), FFT_STAGES * FFT_PAIRS);
    let mut at = 0;
    let mut len = 2usize;
    while len <= FFT_SIZE {
        let half = len / 2;
        let step = FFT_SIZE / len;
        for start in (0..FFT_SIZE).step_by(len) {
            for k in 0..half {
                let b = plan[at];
                assert_eq!((b.top, b.bottom, b.twiddle), (start + k, start + k + half, k * step));
                at += 1;
            }
        }
        len <<= 1;
    }
    assert_eq!(at, plan.len());
}

#[test]
fn plan_transforms_a_tone_into_one_bin() {
    let n = FFT_SIZE;
    let mut re: Vec<u32> = (0..n)
        .map(|i| ((2.0 * std::f64::consts::PI * 37.0 * i as f64 / n as f64).cos() as f32).to_bits())
        .collect();
    let mut im: Vec<u32> = vec![0; n];
    permute(&mut re, &mut im, &reversal_table());
    let mut re: Vec<f64> = re.iter().map(|b| f32::from_bits(*b) as f64).collect();
    let mut im: Vec<f64> = im.iter().map(|b| f32::from_bits(*b) as f64).collect();
    for b in transform_plan() {
        let a = -2.0 * std::f64::consts::PI * b.twiddle as f64 / n as f64;
        let (w, wi) = (a.cos(), a.sin());
        let tr = w * re[b.bottom] - wi * im[b.bottom];
        let ti = w * im[b.bottom] + wi * re[b.bottom];
        re[b.bottom] = re[b.top] - tr;
        im[b.bottom] = im[b.top] - ti;
        re[b.top] += tr;
        im[b.top] += ti;
    }
    for k in 0..n / 2 {
        let m = (re[k] * re[k] + im[k] * im[k]).sqrt();
        let want = if k == 37 { n as f64 / 2.0 } else { 0.0 };
        assert!((m - want).abs() < 1e-2, "bin {k}: {m}");
    }
}

#[test]
fn every_sample_reaches_every_output_once_turned_by_the_product() {
    let table = reversal_table();
    let plan = transform_plan();
    for n in [0usize, 1, 2, 3, 37, 1000, 1024, 2047] {
        let mut entry: Vec<Option<usize>> = vec![None; FFT_SIZE];
        entry[table[n]] = Some(0);
        for p in &plan {
            let (top, bottom) = (entry[p.top], entry[p.bottom]);
            assert!(top.is_none() || bottom.is_none());
            entry[p.top] = top.or(bottom.map(|e| e + p.twiddle));
            entry[p.bottom] = top.or(bottom.map(|e| e + p.twiddle + FFT_SIZE / 2));
        }
        for (k, e) in entry.iter().enumerate() {
            assert_eq!(e.map(|e| e % FFT_SIZE), Some(k * n % FFT_SIZE), "{n} {k}");
        }
    }
}

#[test]
fn a_frame_fills_up_in_order() {
    let mut a = SpectrumAnalyzer::new();
    for i in 0..FFT_SIZE {
        assert_eq!(a.push(i as u32 + 1), i + 1 == FFT_SIZE);
    }
    assert_eq!(a.pos, 0);
    assert_eq!(a.frame, (1..=2048).collect::<Vec<u32>>());
    assert!(!a.push(9));
    assert_eq!((a.frame[0], a.frame[1], a.pos), (9, 2, 1));
    a.peak_lin = 5;
    a.reset();
    assert_eq!((a.pos, a.peak_lin), (0, 5));
    assert_eq!(a.frame, vec![0; 2048]);
}

#[test]
fn bins_of_a_bar() {
    assert_eq!(bar_bins(0, 3), Some((1, 3)));
    assert_eq!(bar_bins(5, 9), Some((5, 9)));
    assert_eq!(bar_bins(5, 5), None);
    assert_eq!(bar_bins(0, 1), None);
    assert_eq!(bar_bins(900, 4000), Some((900, 1024)));
    assert_eq!(bar_bins(1024, 4000), None);
}

#[test]
fn the_loudest_bar() {
    let bits = |v: Vec<f32>| v.into_iter().map(f32::to_bits).collect::<Vec<u32>>();
    assert_eq!(loudest(&bits(vec![0.25, 3.0, 0.5, f32::NAN])), 3.0f32.to_bits());
    assert_eq!(loudest(&bits(vec![-2.0, f32::NAN])), 0);
    assert_eq!(loudest(&vec![]), 0);
}

#[test]
fn peaks_attack_at_once_and_release_slowly() {
    let mut a = SpectrumAnalyzer::new();
    a.settle_peak(2.0f32.to_bits(), 0);
    assert_eq!(f32::from_bits(a.peak_lin), 2.0);
    a.settle_peak(1.0f32.to_bits(), 1.98f32.to_bits());
    assert_eq!(f32::from_bits(a.peak_lin), 1.98);
    a.settle_peak(0, 5e-7f32.to_bits());
    assert_eq!(a.peak_lin, 0);
}

#[test]
fn bar_heights() {
    let mut a = SpectrumAnalyzer::new();
    assert_eq!(a.bar_height(0.5f32.to_bits()), 0);
    a.peak_lin = 1.0f32.to_bits();
    assert_eq!(f32::from_bits(a.bar_height(0.5f32.to_bits())), 0.5);
    assert_eq!(f32::from_bits(a.bar_height(1.2f32.to_bits())), 1.0);
    assert_eq!(f32::from_bits(a.bar_height(f32::NAN.to_bits())), 1.0);
}

#[test]
fn thresholds_of_the_analyzer() {
    assert_eq!(f32::from_bits(PEAK_FLOOR), 1e-6);
    assert_eq!(f32::from_bits(SHOW_FLOOR), 1e-9);
}
