use eqvis::config::{
    find_value, read_config, write_config, ConfigValues, Settings, CONSOLE_DB_MAX, CONSOLE_DB_MIN,
    DB_HIGHEST, DB_LOWEST, DEFAULT_VOL_MAX, DEFAULT_VOL_MIN, VOL_HIGHEST, VOL_LOWEST,
};
use eqvis::paths::{config_path, per_os_config_dir, BaseDir, Environment, Platform};
use eqvis::text::{find, fmt_time, is_whitespace, parse_number, push_decimal, to_chars, to_text, trim};

const EXAMPLE: &str = "theme_dark=1\nidle_anim=1\npeak_hold=1\nconsole_mode=0\nknob_ui=0\n\
db_min=-60\ndb_max=60\nvol_min=0.33333334\nvol_max=3\nnum_bands=6\n";

fn show(bits: u32) -> String {
    format!("{}", f32::from_bits(bits))
}

fn written(s: &Settings, num_bands: usize) -> String {
    write_config(
        s,
        &show(s.db_min),
        &show(s.db_max),
        &show(s.vol_min),
        &show(s.vol_max),
        num_bands,
    )
}

fn values(text: &str) -> ConfigValues {
    let c = read_config(text);
    let level = |s: &Option<String>| {
        s.as_ref().and_then(|v| v.parse::<f32>().ok()).map(f32::to_bits)
    };
    c.values(level(&c.db_min), level(&c.db_max), level(&c.vol_min), level(&c.vol_max))
}

fn reference_lookup(text: &str, key: &str) -> Option<String> {
    text.lines().find_map(|l| {
        let (k, v) = l.split_once('=')?;
        if k.trim() == key {
            Some(v.trim().to_string())
        } else {
            None
        }
    })
}

#[test]
fn a_first_run_writes_the_documented_example() {
    assert_eq!(written(&Settings::new(), 6), EXAMPLE);
}

#[test]
fn the_documented_example_reads_as_the_defaults() {
    let v = values(EXAMPLE);
    assert_eq!(v.num_bands, Some(6));
    let mut s = Settings::new();
    s.theme_dark = false;
    s.console_mode = true;
    s.db_min = 0;
    s.apply_values(&v);
    s.settle((f32::from_bits(s.vol_min) + 0.05).to_bits());
    assert_eq!(s, Settings::new());
}

#[test]
fn settings_read_back() {
    let s = Settings {
        theme_dark: false,
        idle_anim: true,
        peak_hold: false,
        console_mode: false,
        knob_ui: true,
        db_min: (-31.25f32).to_bits(),
        db_max: 17.7f32.to_bits(),
        vol_min: 0.1f32.to_bits(),
        vol_max: 4.9f32.to_bits(),
    };
    let v = values(&written(&s, 123));
    assert_eq!(v.num_bands, Some(123));
    let mut got = Settings::new();
    got.apply_values(&v);
    got.settle(0.15f32.to_bits());
    assert_eq!(got, s);
}

#[test]
fn missing_keys_keep_the_settings() {
    let mut s = Settings::new();
    s.apply_values(&values("knob_ui=7\n# a comment\nunknown=3\n"));
    assert_eq!(s, Settings { knob_ui: true, ..Settings::new() });
    s.apply_values(&values(""));
    assert!(s.knob_ui);
}

#[test]
fn values_are_held_in_their_limits() {
    let mut s = Settings::new();
    s.apply_values(&values("db_min=-900\ndb_max=900\nvol_min=0\nvol_max=99"));
    assert_eq!((s.db_min, s.db_max), (DB_LOWEST, DB_HIGHEST));
    assert_eq!((s.vol_min, s.vol_max), (VOL_LOWEST, VOL_HIGHEST));
    s.apply_values(&values("db_min=5\ndb_max=-5\nvol_min=3\nvol_max=0.5"));
    assert_eq!((show(s.db_min), show(s.db_max)), ("0".to_string(), "0".to_string()));
    assert_eq!((show(s.vol_min), show(s.vol_max)), ("1".to_string(), "1".to_string()));
    s.settle(1.05f32.to_bits());
    assert_eq!(f32::from_bits(s.vol_max), 1.05);
}

#[test]
fn settling_orders_floor_and_roof() {
    let mut s = Settings::new();
    s.db_min = 3.0f32.to_bits();
    s.db_max = 2.0f32.to_bits();
    s.settle(0.5f32.to_bits());
    assert_eq!(s.db_min, s.db_max);
    s.console_mode = true;
    s.settle(0.5f32.to_bits());
    assert_eq!((s.db_min, s.db_max), (CONSOLE_DB_MIN, CONSOLE_DB_MAX));
    s.vol_max = 1.0f32.to_bits();
    s.settle(7.0f32.to_bits());
    assert_eq!(s.vol_max, VOL_HIGHEST);
}

#[test]
fn named_levels_stand_for_their_numbers() {
    assert_eq!(f32::from_bits(DB_LOWEST), -60.0);
    assert_eq!(f32::from_bits(DB_HIGHEST), 60.0);
    assert_eq!(f32::from_bits(DEFAULT_VOL_MIN), 1.0 / 3.0);
    assert_eq!(f32::from_bits(DEFAULT_VOL_MAX), 3.0);
    assert_eq!(f32::from_bits(VOL_LOWEST), 0.05);
    assert_eq!(f32::from_bits(VOL_HIGHEST), 5.0);
    assert_eq!(f32::from_bits(CONSOLE_DB_MIN), -15.0);
    assert_eq!(f32::from_bits(CONSOLE_DB_MAX), 15.0);
}

#[test]
fn lookups_agree_with_the_line_iterator() {
    let texts = [
        EXAMPLE,
        "",
        "\n\n",
        "a",
        "a=",
        "=b",
        " a = b c \r\nb==c\r\n",
        "a=1\na=2",
        "x\ny=\u{2003}z\u{a0}\n\u{3000}k\u{85}=\tv",
        "a=b\r",
        "b = a = c\n",
    ];
    for t in texts {
        for k in ["a", "b", "", "x", "y", "k", "theme_dark", "num_bands", "zz"] {
            assert_eq!(find_value(t, k), reference_lookup(t, k), "{t:?} {k:?}");
        }
    }
}

#[test]
fn switches_are_bytes() {
    let on = |v: &str| read_config(&format!("theme_dark={v}\n")).theme_dark;
    assert_eq!(on("0"), Some(false));
    assert_eq!(on("1"), Some(true));
    assert_eq!(on("255"), Some(true));
    assert_eq!(on("256"), None);
    assert_eq!(on("true"), None);
    assert_eq!(on("-1"), None);
    assert_eq!(on(""), None);
}

#[test]
fn numbers_parse_as_the_machine_does() {
    for t in [
        "", "+", "-", "0", "+0", "-0", "00012", "255", "256", "+255", "4294967295", "4294967296",
        "99999999999999999999", "12a", "a12", "1 2", "++1", "\u{0663}",
    ] {
        assert_eq!(parse_number(t, u32::MAX), t.parse::<u32>().ok(), "{t:?}");
        assert_eq!(parse_number(t, 255), t.parse::<u8>().ok().map(u32::from), "{t:?}");
    }
}

#[test]
fn white_space_is_unicode_white_space() {
    for n in 0..=0x10ffffu32 {
        if let Some(c) = char::from_u32(n) {
            assert_eq!(is_whitespace(c), c.is_whitespace(), "{n:x}");
        }
    }
}

#[test]
fn trimming_and_finding() {
    let v = to_chars(" \t a=b\u{3000}c \n");
    let (a, b) = trim(&v, 0, v.len());
    assert_eq!(to_text(&v, a, b), "a=b\u{3000}c");
    assert_eq!(find(&v, a, b, '='), 4);
    assert_eq!(find(&v, a, b, 'x'), b);
    assert_eq!(trim(&v, 0, 3), (3, 3));
}

#[test]
fn decimals() {
    for n in [0u64, 7, 10, 256, 1_000_000, u64::MAX] {
        let mut out = "x".to_string();
        push_decimal(&mut out, n);
        assert_eq!(out, format!("x{n}"));
    }
}

#[test]
fn times_read_as_minutes_and_hours() {
    assert_eq!(fmt_time(0), "00:00");
    assert_eq!(fmt_time(9), "00:09");
    assert_eq!(fmt_time(75), "01:15");
    assert_eq!(fmt_time(3599), "59:59");
    assert_eq!(fmt_time(3600), "01:00:00");
    assert_eq!(fmt_time(36_000 * 11 + 61), "110:01:01");
    for s in [1u32, 599, 600, 7325, 86_399, u32::MAX] {
        let want = if s >= 3600 {
            format!("{:02}:{:02}:{:02}", s / 3600, (s % 3600) / 60, s % 60)
        } else {
            format!("{:02}:{:02}", s / 60, s % 60)
        };
        assert_eq!(fmt_time(s), want);
    }
}

#[test]
fn settings_paths() {
    let all = Environment { appdata: true, home: true, xdg_config_home: true };
    let none = Environment { appdata: false, home: false, xdg_config_home: false };
    let home = Environment { home: true, ..none };
    let at = |p, e| {
        let path = config_path(p, e);
        (path.base, path.names.join("/"))
    };
    assert_eq!(at(Platform::Windows, all), (BaseDir::AppData, "eqvis/config.txt".to_string()));
    assert_eq!(at(Platform::Windows, home), (BaseDir::Temp, "eqvis/config.txt".to_string()));
    assert_eq!(
        at(Platform::MacOs, all),
        (BaseDir::Home, "Library/Application Support/eqvis/config.txt".to_string())
    );
    assert_eq!(at(Platform::Unix, all), (BaseDir::XdgConfigHome, "eqvis/config.txt".to_string()));
    assert_eq!(at(Platform::Unix, home), (BaseDir::Home, ".config/eqvis/config.txt".to_string()));
    assert_eq!(at(Platform::Unix, none), (BaseDir::Temp, "eqvis/config.txt".to_string()));
    assert_eq!(at(Platform::Other, all), (BaseDir::Temp, "eqvis/config.txt".to_string()));
    assert_eq!(per_os_config_dir(Platform::Unix, home).names, vec![".config"]);
}
