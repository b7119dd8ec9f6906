//! The settings file: one `key=value` line per setting.

use crate::bits;
use crate::text::{find, parse_number, push_decimal, to_chars, to_text, trim};
use crate::text;
use vstd::prelude::*;

verus! {

/// Default and lowest floor of the graph (-60 dB).
pub const DB_LOWEST: u32 = 0xc270_0000;

/// Default and highest roof of the graph (60 dB).
pub const DB_HIGHEST: u32 = 0x4270_0000;

/// Default lower bound of the master volume fader (a third).
pub const DEFAULT_VOL_MIN: u32 = 0x3eaa_aaab;

/// Default upper bound of the master volume fader (3).
pub const DEFAULT_VOL_MAX: u32 = 0x4040_0000;

/// The lower bound of the fader is at least this (0.05).
pub const VOL_LOWEST: u32 = 0x3d4c_cccd;

/// The upper bound of the fader is at most this (5).
pub const VOL_HIGHEST: u32 = 0x40a0_0000;

/// The floor of the graph in console mode (-15 dB).
pub const CONSOLE_DB_MIN: u32 = 0xc170_0000;

/// The roof of the graph in console mode (15 dB).
pub const CONSOLE_DB_MAX: u32 = 0x4170_0000;

/// The settings that are kept between two runs, without the band count. Decibels
/// and volumes are bit patterns.
#[derive(Clone, Copy, PartialEq, Eq, Structural, Debug)]
pub struct Settings {
    pub theme_dark: bool,
    /// Animate the bars on stop.
    pub idle_anim: bool,
    /// Draw peak-hold caps.
    pub peak_hold: bool,
    /// Training mode: fixed 5-band strip, knob-style controls.
    pub console_mode: bool,
    /// Tile style: analog knobs instead of sliders.
    pub knob_ui: bool,
    pub db_min: u32,
    pub db_max: u32,
    /// Fader lower bound.
    pub vol_min: u32,
    /// Fader upper bound.
    pub vol_max: u32,
}

/// The values of a settings file, once its texts were read as numbers. A value
/// is missing where the file does not have it.
#[derive(Clone, Copy, PartialEq, Eq, Debug)]
pub struct ConfigValues {
    pub theme_dark: Option<bool>,
    pub idle_anim: Option<bool>,
    pub peak_hold: Option<bool>,
    pub console_mode: Option<bool>,
    pub knob_ui: Option<bool>,
    pub db_min: Option<u32>,
    pub db_max: Option<u32>,
    pub vol_min: Option<u32>,
    pub vol_max: Option<u32>,
    pub num_bands: Option<u32>,
}

/// The stored value, or the present one where none is stored.
pub open spec fn stored_or<T>(stored: Option<T>, present: T) -> T {
    match stored {
        Some(v) => v,
        None => present,
    }
}

/// The stored level moved into a range, or the present one where none is stored.
pub open spec fn stored_level(stored: Option<u32>, lo: u32, hi: u32, present: u32) -> u32 {
    match stored {
        Some(v) => bits::clamped(v, lo, hi),
        None => present,
    }
}

impl Settings {
    /// The settings of a first run.
    pub open spec fn initial() -> Settings {
        Settings {
            theme_dark: true,
            idle_anim: true,
            peak_hold: true,
            console_mode: false,
            knob_ui: false,
            db_min: DB_LOWEST,
            db_max: DB_HIGHEST,
            vol_min: DEFAULT_VOL_MIN,
            vol_max: DEFAULT_VOL_MAX,
        }
    }

    /// The settings with the stored values taken over, each within its limits.
    pub open spec fn with_values(self, v: ConfigValues) -> Settings {
        Settings {
            theme_dark: stored_or(v.theme_dark, self.theme_dark),
            idle_anim: stored_or(v.idle_anim, self.idle_anim),
            peak_hold: stored_or(v.peak_hold, self.peak_hold),
            console_mode: stored_or(v.console_mode, self.console_mode),
            knob_ui: stored_or(v.knob_ui, self.knob_ui),
            db_min: stored_level(v.db_min, DB_LOWEST, bits::ZERO, self.db_min),
            db_max: stored_level(v.db_max, bits::ZERO, DB_HIGHEST, self.db_max),
            vol_min: stored_level(v.vol_min, VOL_LOWEST, bits::ONE, self.vol_min),
            vol_max: stored_level(v.vol_max, bits::ONE, VOL_HIGHEST, self.vol_max),
        }
    }

    /// The settings brought in line with each other: the fader ends at `vol_floor`
    /// or above (but within its limit), the floor of the graph is not above its
    /// roof, and console mode has its own range.
    pub open spec fn settled(self, vol_floor: u32) -> Settings {
        Settings {
            vol_max: if bits::lt(self.vol_max, vol_floor) {
                bits::smaller(vol_floor, VOL_HIGHEST)
            } else {
                self.vol_max
            },
            db_min: if self.console_mode {
                CONSOLE_DB_MIN
            } else if bits::lt(self.db_max, self.db_min) {
                self.db_max
            } else {
                self.db_min
            },
            db_max: if self.console_mode {
                CONSOLE_DB_MAX
            } else {
                self.db_max
            },
            ..self
        }
    }

    /// Every level and volume lies within its limits.
    pub open spec fn in_limits(self) -> bool {
        &&& bits::le(DB_LOWEST, self.db_min)
        &&& bits::le(self.db_min, bits::ZERO)
        &&& bits::le(bits::ZERO, self.db_max)
        &&& bits::le(self.db_max, DB_HIGHEST)
        &&& bits::le(VOL_LOWEST, self.vol_min)
        &&& bits::le(self.vol_min, bits::ONE)
        &&& bits::le(bits::ONE, self.vol_max)
        &&& bits::le(self.vol_max, VOL_HIGHEST)
    }

    /// The values that a file with these settings holds.
    pub open spec fn as_values(self, num_bands: u32) -> ConfigValues {
        ConfigValues {
            theme_dark: Some(self.theme_dark),
            idle_anim: Some(self.idle_anim),
            peak_hold: Some(self.peak_hold),
            console_mode: Some(self.console_mode),
            knob_ui: Some(self.knob_ui),
            db_min: Some(self.db_min),
            db_max: Some(self.db_max),
            vol_min: Some(self.vol_min),
            vol_max: Some(self.vol_max),
            num_bands: Some(num_bands),
        }
    }

    /// The settings of a first run.
    pub fn new() -> (r: Self)
        ensures
            r == Settings::initial(),
    {
        Settings {
            theme_dark: true,
            idle_anim: true,
            peak_hold: true,
            console_mode: false,
            knob_ui: false,
            db_min: DB_LOWEST,
            db_max: DB_HIGHEST,
            vol_min: DEFAULT_VOL_MIN,
            vol_max: DEFAULT_VOL_MAX,
        }
    }

    /// Takes the stored values over.
    pub fn apply_values(&mut self, v: &ConfigValues)
        ensures
            *final(self) == old(self).with_values(*v),
    {
        proof {
            lemma_limits();
        }
        if let Some(b) = v.theme_dark {
            self.theme_dark = b;
        }
        if let Some(b) = v.idle_anim {
            self.idle_anim = b;
        }
        if let Some(b) = v.peak_hold {
            self.peak_hold = b;
        }
        if let Some(b) = v.console_mode {
            self.console_mode = b;
        }
        if let Some(b) = v.knob_ui {
            self.knob_ui = b;
        }
        if let Some(x) = v.db_min {
            self.db_min = bits::clamp(x, DB_LOWEST, bits::ZERO);
        }
        if let Some(x) = v.db_max {
            self.db_max = bits::clamp(x, bits::ZERO, DB_HIGHEST);
        }
        if let Some(x) = v.vol_min {
            self.vol_min = bits::clamp(x, VOL_LOWEST, bits::ONE);
        }
        if let Some(x) = v.vol_max {
            self.vol_max = bits::clamp(x, bits::ONE, VOL_HIGHEST);
        }
    }

    /// Brings the settings in line with each other. `vol_floor` is the lowest end
    /// that the fader may have above its start.
    pub fn settle(&mut self, vol_floor: u32)
        ensures
            *final(self) == old(self).settled(vol_floor),
    {
        if bits::less(self.vol_max, vol_floor) {
            self.vol_max = bits::min_of(vol_floor, VOL_HIGHEST);
        }
        if bits::less(self.db_max, self.db_min) {
            self.db_min = self.db_max;
        }
        if self.console_mode {
            self.db_min = CONSOLE_DB_MIN;
            self.db_max = CONSOLE_DB_MAX;
        }
    }
}

/// The limits of the levels and volumes, one below the other.
pub proof fn lemma_limits()
    ensures
        bits::le(DB_LOWEST, CONSOLE_DB_MIN),
        bits::le(CONSOLE_DB_MIN, bits::ZERO),
        bits::le(DB_LOWEST, bits::ZERO),
        bits::le(bits::ZERO, CONSOLE_DB_MAX),
        bits::le(CONSOLE_DB_MAX, DB_HIGHEST),
        bits::le(bits::ZERO, DB_HIGHEST),
        bits::le(CONSOLE_DB_MIN, CONSOLE_DB_MAX),
        bits::le(VOL_LOWEST, DEFAULT_VOL_MIN),
        bits::le(DEFAULT_VOL_MIN, bits::ONE),
        bits::le(VOL_LOWEST, bits::ONE),
        bits::le(bits::ONE, DEFAULT_VOL_MAX),
        bits::le(DEFAULT_VOL_MAX, VOL_HIGHEST),
        bits::le(bits::ONE, VOL_HIGHEST),
{
    bits::lemma_order_of_patterns(bits::ZERO, CONSOLE_DB_MAX);
    bits::lemma_order_of_patterns(CONSOLE_DB_MAX, DB_HIGHEST);
    bits::lemma_order_of_patterns(DB_HIGHEST, CONSOLE_DB_MAX);
    bits::lemma_order_of_patterns(VOL_LOWEST, DEFAULT_VOL_MIN);
    bits::lemma_order_of_patterns(DEFAULT_VOL_MIN, bits::ONE);
    bits::lemma_order_of_patterns(bits::ONE, DEFAULT_VOL_MAX);
    bits::lemma_order_of_patterns(DEFAULT_VOL_MAX, VOL_HIGHEST);
    assert(bits::magnitude(DB_LOWEST) == DB_HIGHEST);
    assert(bits::magnitude(CONSOLE_DB_MIN) == CONSOLE_DB_MAX);
}

/// Settings that a file leaves out keep the values they have.
pub proof fn law_missing_keys_keep_the_settings(s: Settings, v: ConfigValues)
    ensures
        v.theme_dark is None ==> s.with_values(v).theme_dark == s.theme_dark,
        v.idle_anim is None ==> s.with_values(v).idle_anim == s.idle_anim,
        v.peak_hold is None ==> s.with_values(v).peak_hold == s.peak_hold,
        v.console_mode is None ==> s.with_values(v).console_mode == s.console_mode,
        v.knob_ui is None ==> s.with_values(v).knob_ui == s.knob_ui,
        v.db_min is None ==> s.with_values(v).db_min == s.db_min,
        v.db_max is None ==> s.with_values(v).db_max == s.db_max,
        v.vol_min is None ==> s.with_values(v).vol_min == s.vol_min,
        v.vol_max is None ==> s.with_values(v).vol_max == s.vol_max,
{
}

/// Whatever numbers a file holds, the settings come out within their limits.
pub proof fn law_loaded_settings_are_in_limits(s: Settings, v: ConfigValues, vol_floor: u32)
    requires
        s.in_limits(),
        v.db_min matches Some(x) ==> !bits::nan(x),
        v.db_max matches Some(x) ==> !bits::nan(x),
        v.vol_min matches Some(x) ==> !bits::nan(x),
        v.vol_max matches Some(x) ==> !bits::nan(x),
    ensures
        Settings::initial().in_limits(),
        s.with_values(v).in_limits(),
        s.with_values(v).settled(vol_floor).in_limits(),
        bits::le(
            s.with_values(v).settled(vol_floor).db_min,
            s.with_values(v).settled(vol_floor).db_max,
        ),
{
    lemma_limits();
}

/// Settings within their limits that were saved and are loaded again, over
/// whatever settings there were, come out as they were. The fader must span at
/// least its shortest range, and in console mode the range is the console's.
pub proof fn law_saved_settings_load_back(
    s: Settings,
    present: Settings,
    num_bands: u32,
    vol_floor: u32,
)
    requires
        s.in_limits(),
        !bits::lt(s.vol_max, vol_floor),
        s.console_mode ==> s.db_min == CONSOLE_DB_MIN && s.db_max == CONSOLE_DB_MAX,
    ensures
        present.with_values(s.as_values(num_bands)).settled(vol_floor) == s,
{
}

/// What a settings file holds. A setting is missing where the file has no line
/// for it or where the value of a switch or of the band count makes no sense.
/// Decibels and volumes are still text.
pub struct StoredConfig {
    pub theme_dark: Option<bool>,
    pub idle_anim: Option<bool>,
    pub peak_hold: Option<bool>,
    pub console_mode: Option<bool>,
    pub knob_ui: Option<bool>,
    pub db_min: Option<String>,
    pub db_max: Option<String>,
    pub vol_min: Option<String>,
    pub vol_max: Option<String>,
    pub num_bands: Option<u32>,
}

/// What a settings file holds, as a mathematical value.
#[verifier::ext_equal]
pub struct StoredView {
    pub theme_dark: Option<bool>,
    pub idle_anim: Option<bool>,
    pub peak_hold: Option<bool>,
    pub console_mode: Option<bool>,
    pub knob_ui: Option<bool>,
    pub db_min: Option<Seq<char>>,
    pub db_max: Option<Seq<char>>,
    pub vol_min: Option<Seq<char>>,
    pub vol_max: Option<Seq<char>>,
    pub num_bands: Option<int>,
}

/// The view of an optional text.
pub open spec fn text_view(s: Option<String>) -> Option<Seq<char>> {
    match s {
        Some(t) => Some(t@),
        None => None,
    }
}

impl View for StoredConfig {
    type V = StoredView;

    open spec fn view(&self) -> StoredView {
        StoredView {
            theme_dark: self.theme_dark,
            idle_anim: self.idle_anim,
            peak_hold: self.peak_hold,
            console_mode: self.console_mode,
            knob_ui: self.knob_ui,
            db_min: text_view(self.db_min),
            db_max: text_view(self.db_max),
            vol_min: text_view(self.vol_min),
            vol_max: text_view(self.vol_max),
            num_bands: match self.num_bands {
                Some(n) => Some(n as int),
                None => None,
            },
        }
    }
}

impl StoredView {
    /// The values of the file, where `read` reads a level from its text. A level whose
    /// text makes no sense is missing too.
    pub open spec fn values(self, read: spec_fn(Seq<char>) -> Option<u32>) -> ConfigValues {
        ConfigValues {
            theme_dark: self.theme_dark,
            idle_anim: self.idle_anim,
            peak_hold: self.peak_hold,
            console_mode: self.console_mode,
            knob_ui: self.knob_ui,
            db_min: level_in(self.db_min, read),
            db_max: level_in(self.db_max, read),
            vol_min: level_in(self.vol_min, read),
            vol_max: level_in(self.vol_max, read),
            num_bands: match self.num_bands {
                Some(n) => Some(n as u32),
                None => None,
            },
        }
    }
}

/// The level that an optional text stands for, where `read` reads it.
pub open spec fn level_in(
    t: Option<Seq<char>>,
    read: spec_fn(Seq<char>) -> Option<u32>,
) -> Option<u32> {
    match t {
        Some(s) => read(s),
        None => None,
    }
}

impl StoredConfig {
    /// The values of the file, with the levels that were read from their texts.
    pub fn values(
        &self,
        db_min: Option<u32>,
        db_max: Option<u32>,
        vol_min: Option<u32>,
        vol_max: Option<u32>,
    ) -> (r: ConfigValues)
        ensures
            r == (ConfigValues {
                theme_dark: self.theme_dark,
                idle_anim: self.idle_anim,
                peak_hold: self.peak_hold,
                console_mode: self.console_mode,
                knob_ui: self.knob_ui,
                db_min,
                db_max,
                vol_min,
                vol_max,
                num_bands: self.num_bands,
            }),
            forall|read: spec_fn(Seq<char>) -> Option<u32>|
                db_min == level_in(self@.db_min, read) && db_max == level_in(self@.db_max, read)
                    && vol_min == level_in(self@.vol_min, read) && vol_max == level_in(
                    self@.vol_max,
                    read,
                ) ==> r == #[trigger] self@.values(read),
    {
        ConfigValues {
            theme_dark: self.theme_dark,
            idle_anim: self.idle_anim,
            peak_hold: self.peak_hold,
            console_mode: self.console_mode,
            knob_ui: self.knob_ui,
            db_min,
            db_max,
            vol_min,
            vol_max,
            num_bands: self.num_bands,
        }
    }
}

/// The key and the value of a line, each without white space around it. A line
/// without an equals sign has none.
pub open spec fn entry(line: Seq<char>) -> Option<(Seq<char>, Seq<char>)> {
    let p = text::first(line, '=');
    if p < line.len() {
        Some((text::trimmed(line.take(p as int)), text::trimmed(line.skip(p as int + 1))))
    } else {
        None
    }
}

/// The value of the first line with the given key.
pub open spec fn lookup(t: Seq<char>, key: Seq<char>) -> Option<Seq<char>>
    decreases t.len(),
{
    if t.len() == 0 {
        None
    } else {
        let e = text::first(t, '\n');
        let line = if e < t.len() {
            t.take(e as int)
        } else {
            t
        };
        let rest = if e < t.len() {
            t.skip(e as int + 1)
        } else {
            Seq::empty()
        };
        match entry(line) {
            Some((k, v)) => if k == key {
                Some(v)
            } else {
                lookup(rest, key)
            },
            None => lookup(rest, key),
        }
    }
}

/// A switch: any number from 0 to 255, on unless it is 0.
pub open spec fn switch(value: Option<Seq<char>>) -> Option<bool> {
    match value {
        Some(v) => match text::number(v, 255) {
            Some(n) => Some(n != 0),
            None => None,
        },
        None => None,
    }
}

/// A count: any number that fits in 32 bits.
pub open spec fn count(value: Option<Seq<char>>) -> Option<int> {
    match value {
        Some(v) => text::number(v, u32::MAX as int),
        None => None,
    }
}

/// What a settings file with the text `t` holds.
pub open spec fn stored(t: Seq<char>) -> StoredView {
    StoredView {
        theme_dark: switch(lookup(t, "theme_dark"@)),
        idle_anim: switch(lookup(t, "idle_anim"@)),
        peak_hold: switch(lookup(t, "peak_hold"@)),
        console_mode: switch(lookup(t, "console_mode"@)),
        knob_ui: switch(lookup(t, "knob_ui"@)),
        db_min: lookup(t, "db_min"@),
        db_max: lookup(t, "db_max"@),
        vol_min: lookup(t, "vol_min"@),
        vol_max: lookup(t, "vol_max"@),
        num_bands: count(lookup(t, "num_bands"@)),
    }
}

/// One line of the file.
pub open spec fn line(key: Seq<char>, value: Seq<char>) -> Seq<char> {
    key + seq!['='] + value + seq!['\n']
}

/// The value of a switch.
pub open spec fn switch_text(on: bool) -> Seq<char> {
    if on {
        seq!['1']
    } else {
        seq!['0']
    }
}

/// The text of a settings file.
pub open spec fn file_text(
    s: Settings,
    db_min: Seq<char>,
    db_max: Seq<char>,
    vol_min: Seq<char>,
    vol_max: Seq<char>,
    num_bands: nat,
) -> Seq<char> {
    line("theme_dark"@, switch_text(s.theme_dark)) + (line(
        "idle_anim"@,
        switch_text(s.idle_anim),
    ) + (line("peak_hold"@, switch_text(s.peak_hold)) + (line(
        "console_mode"@,
        switch_text(s.console_mode),
    ) + (line("knob_ui"@, switch_text(s.knob_ui)) + (line("db_min"@, db_min) + (line(
        "db_max"@,
        db_max,
    ) + (line("vol_min"@, vol_min) + (line("vol_max"@, vol_max) + (line(
        "num_bands"@,
        text::decimal(num_bands),
    ) + Seq::empty())))))))))
}

/// The value of the first line with the given key.
pub fn find_value(t: &str, key: &str) -> (r: Option<String>)
    ensures
        text_view(r) == lookup(t@, key@),
{
    let v = to_chars(t);
    let k = to_chars(key);
    let n: usize = v.len();
    let mut at: usize = 0;
    assert(v@.skip(0) =~= t@);
    while at < n
        invariant
            at <= n,
            n == v@.len(),
            v@ == t@,
            k@ == key@,
            lookup(v@.skip(at as int), k@) == lookup(t@, key@),
        decreases n - at,
    {
        let end: usize = find(&v, at, n, '\n');
        let eq: usize = find(&v, at, end, '=');
        let ghost rest = v@.skip(at as int);
        let ghost e = text::first(rest, '\n');
        assert(rest =~= v@.subrange(at as int, n as int));
        assert(e == end - at);
        let ghost ln = v@.subrange(at as int, end as int);
        assert(end < n ==> rest.take(e as int) =~= ln);
        assert(end == n ==> rest =~= ln);
        assert(end < n ==> rest.skip(e as int + 1) =~= v@.skip(end + 1));
        assert(end == n ==> v@.skip(end as int) =~= Seq::<char>::empty());
        if eq < end {
            let (a, b) = trim(&v, at, eq);
            let (c, d) = trim(&v, eq + 1, end);
            assert(ln.take(eq - at) =~= v@.subrange(at as int, eq as int));
            assert(ln.skip(eq - at + 1) =~= v@.subrange(eq + 1, end as int));
            if same(&v, a, b, &k) {
                return Some(to_text(&v, c, d));
            }
        }
        at = if end < n {
            end + 1
        } else {
            n
        };
    }
    None
}

/// Whether the characters of `v` from `a` up to `b` are those of `k`.
fn same(v: &Vec<char>, a: usize, b: usize, k: &Vec<char>) -> (r: bool)
    requires
        a <= b <= v@.len(),
    ensures
        r == (v@.subrange(a as int, b as int) == k@),
{
    if b - a != k.len() {
        return false;
    }
    let mut i: usize = 0;
    while i < k.len()
        invariant
            a <= b <= v@.len(),
            b - a == k@.len(),
            i <= k@.len(),
            forall|j: int| 0 <= j < i ==> v@[a + j] == #[trigger] k@[j],
        decreases k@.len() - i,
    {
        if v[a + i] != k[i] {
            assert(v@.subrange(a as int, b as int)[i as int] != k@[i as int]);
            return false;
        }
        i = i + 1;
    }
    assert(v@.subrange(a as int, b as int) =~= k@);
    true
}

fn find_switch(t: &str, key: &str) -> (r: Option<bool>)
    ensures
        r == switch(lookup(t@, key@)),
{
    match find_value(t, key) {
        Some(v) => match parse_number(v.as_str(), 255) {
            Some(n) => Some(n != 0),
            None => None,
        },
        None => None,
    }
}

fn find_count(t: &str, key: &str) -> (r: Option<u32>)
    ensures
        match r {
            Some(n) => count(lookup(t@, key@)) == Some(n as int),
            None => count(lookup(t@, key@)) is None,
        },
{
    match find_value(t, key) {
        Some(v) => parse_number(v.as_str(), u32::MAX),
        None => None,
    }
}

/// Reads a settings file.
pub fn read_config(t: &str) -> (r: StoredConfig)
    ensures
        r@ == stored(t@),
{
    StoredConfig {
        theme_dark: find_switch(t, "theme_dark"),
        idle_anim: find_switch(t, "idle_anim"),
        peak_hold: find_switch(t, "peak_hold"),
        console_mode: find_switch(t, "console_mode"),
        knob_ui: find_switch(t, "knob_ui"),
        db_min: find_value(t, "db_min"),
        db_max: find_value(t, "db_max"),
        vol_min: find_value(t, "vol_min"),
        vol_max: find_value(t, "vol_max"),
        num_bands: find_count(t, "num_bands"),
    }
}

fn push_line(out: &mut String, key: &str, value: &str)
    ensures
        final(out)@ == old(out)@ + line(key@, value@),
{
    out.append(key);
    out.push('=');
    out.append(value);
    out.push('\n');
    proof {
        assert(out@ =~= old(out)@ + line(key@, value@));
    }
}

fn push_switch(out: &mut String, key: &str, on: bool)
    ensures
        final(out)@ == old(out)@ + line(key@, switch_text(on)),
{
    out.append(key);
    out.push('=');
    out.push(if on {
        '1'
    } else {
        '0'
    });
    out.push('\n');
    proof {
        assert(out@ =~= old(out)@ + line(key@, switch_text(on)));
    }
}

fn push_count(out: &mut String, key: &str, n: usize)
    ensures
        final(out)@ == old(out)@ + line(key@, text::decimal(n as nat)),
{
    out.append(key);
    out.push('=');
    push_decimal(out, n as u64);
    out.push('\n');
    proof {
        assert(out@ =~= old(out)@ + line(key@, text::decimal(n as nat)));
    }
}

/// Writes a settings file. Decibels and volumes come as text.
pub fn write_config(
    s: &Settings,
    db_min: &str,
    db_max: &str,
    vol_min: &str,
    vol_max: &str,
    num_bands: usize,
) -> (r: String)
    ensures
        r@ == file_text(*s, db_min@, db_max@, vol_min@, vol_max@, num_bands as nat),
{
    let mut out = String::new();
    push_switch(&mut out, "theme_dark", s.theme_dark);
    push_switch(&mut out, "idle_anim", s.idle_anim);
    push_switch(&mut out, "peak_hold", s.peak_hold);
    push_switch(&mut out, "console_mode", s.console_mode);
    push_switch(&mut out, "knob_ui", s.knob_ui);
    push_line(&mut out, "db_min", db_min);
    push_line(&mut out, "db_max", db_max);
    push_line(&mut out, "vol_min", vol_min);
    push_line(&mut out, "vol_max", vol_max);
    push_count(&mut out, "num_bands", num_bands);
    proof {
        lemma_ten_lines(
            line("theme_dark"@, switch_text(s.theme_dark)),
            line("idle_anim"@, switch_text(s.idle_anim)),
            line("peak_hold"@, switch_text(s.peak_hold)),
            line("console_mode"@, switch_text(s.console_mode)),
            line("knob_ui"@, switch_text(s.knob_ui)),
            line("db_min"@, db_min@),
            line("db_max"@, db_max@),
            line("vol_min"@, vol_min@),
            line("vol_max"@, vol_max@),
            line("num_bands"@, text::decimal(num_bands as nat)),
        );
    }
    out
}

proof fn lemma_regroup(a: Seq<char>, b: Seq<char>, c: Seq<char>)
    ensures
        a + (b + c) == (a + b) + c,
{
    assert(a + (b + c) =~= (a + b) + c);
}

/// Lines that were appended one by one to an empty text.
proof fn lemma_ten_lines(
    a: Seq<char>,
    b: Seq<char>,
    c: Seq<char>,
    d: Seq<char>,
    e: Seq<char>,
    f: Seq<char>,
    g: Seq<char>,
    h: Seq<char>,
    i: Seq<char>,
    j: Seq<char>,
)
    ensures
        Seq::<char>::empty() + a + b + c + d + e + f + g + h + i + j == a + (b + (c + (d + (e + (f
            + (g + (h + (i + (j + Seq::<char>::empty()))))))))),
{
    let nil = Seq::<char>::empty();
    let r9 = j + nil;
    let r8 = i + r9;
    let r7 = h + r8;
    let r6 = g + r7;
    let r5 = f + r6;
    let r4 = e + r5;
    let r3 = d + r4;
    let r2 = c + r3;
    let r1 = b + r2;
    assert(nil + (a + r1) =~= a + r1);
    lemma_regroup(nil, a, r1);
    lemma_regroup(nil + a, b, r2);
    lemma_regroup(nil + a + b, c, r3);
    lemma_regroup(nil + a + b + c, d, r4);
    lemma_regroup(nil + a + b + c + d, e, r5);
    lemma_regroup(nil + a + b + c + d + e, f, r6);
    lemma_regroup(nil + a + b + c + d + e + f, g, r7);
    lemma_regroup(nil + a + b + c + d + e + f + g, h, r8);
    lemma_regroup(nil + a + b + c + d + e + f + g + h, i, r9);
    assert(j + nil =~= j);
}

/// Whether a key can stand in front of an equals sign and be found again.
pub open spec fn plain_key(k: Seq<char>) -> bool {
    !k.contains('=') && !k.contains('\n') && text::trimmed(k) == k
}

/// Whether a value can stand on a line and be found again: it has no line break
/// and no white space at its ends.
pub open spec fn plain_value(v: Seq<char>) -> bool {
    !v.contains('\n') && text::trimmed(v) == v
}

/// A text that starts with a line for a key holds the value of that line under
/// the key, and under any other key what the rest of the text holds.
pub proof fn law_line_is_found(k: Seq<char>, v: Seq<char>, rest: Seq<char>, key: Seq<char>)
    requires
        plain_key(k),
        plain_value(v),
    ensures
        lookup(line(k, v) + rest, key) == if k == key {
            Some(v)
        } else {
            lookup(rest, key)
        },
{
    let body = k + seq!['='] + v;
    let t = line(k, v) + rest;
    assert(t =~= body + (seq!['\n'] + rest));
    assert forall|i: int| 0 <= i < body.len() implies #[trigger] body[i] != '\n' by {
        if i < k.len() {
            assert(k.contains(k[i]));
        } else if i > k.len() {
            assert(v.contains(v[i - k.len() - 1]));
        }
    }
    lemma_first_after(body, seq!['\n'] + rest, '\n');
    assert((seq!['\n'] + rest).first() == '\n');
    assert(text::first(t, '\n') == body.len());
    assert(t.take(body.len() as int) =~= body);
    assert(t.skip(body.len() as int + 1) =~= rest);
    assert forall|i: int| 0 <= i < k.len() implies #[trigger] k[i] != '=' by {
        assert(k.contains(k[i]));
    }
    lemma_first_after(k, seq!['='] + v, '=');
    assert(body =~= k + (seq!['='] + v));
    assert((seq!['='] + v).first() == '=');
    assert(text::first(body, '=') == k.len());
    assert(body.take(k.len() as int) =~= k);
    assert(body.skip(k.len() as int + 1) =~= v);
}

proof fn lemma_first_after(a: Seq<char>, b: Seq<char>, c: char)
    requires
        forall|i: int| 0 <= i < a.len() ==> #[trigger] a[i] != c,
    ensures
        text::first(a + b, c) == a.len() + text::first(b, c),
    decreases a.len(),
{
    if a.len() == 0 {
        assert(a + b =~= b);
    } else {
        assert((a + b).drop_first() =~= a.drop_first() + b);
        lemma_first_after(a.drop_first(), b, c);
    }
}

/// A text without white space at its ends is left as it is by trimming.
proof fn lemma_clean_text_stays(s: Seq<char>)
    requires
        s.len() > 0,
        !text::whitespace(s.first()),
        !text::whitespace(s.last()),
    ensures
        text::trimmed(s) == s,
{
}

proof fn lemma_keys_are_plain()
    ensures
        plain_key("theme_dark"@),
        plain_key("idle_anim"@),
        plain_key("peak_hold"@),
        plain_key("console_mode"@),
        plain_key("knob_ui"@),
        plain_key("db_min"@),
        plain_key("db_max"@),
        plain_key("vol_min"@),
        plain_key("vol_max"@),
        plain_key("num_bands"@),
{
    reveal_strlit("theme_dark");
    lemma_clean_text_stays("theme_dark"@);
    reveal_strlit("idle_anim");
    lemma_clean_text_stays("idle_anim"@);
    reveal_strlit("peak_hold");
    lemma_clean_text_stays("peak_hold"@);
    reveal_strlit("console_mode");
    lemma_clean_text_stays("console_mode"@);
    reveal_strlit("knob_ui");
    lemma_clean_text_stays("knob_ui"@);
    reveal_strlit("db_min");
    lemma_clean_text_stays("db_min"@);
    reveal_strlit("db_max");
    lemma_clean_text_stays("db_max"@);
    reveal_strlit("vol_min");
    lemma_clean_text_stays("vol_min"@);
    reveal_strlit("vol_max");
    lemma_clean_text_stays("vol_max"@);
    reveal_strlit("num_bands");
    lemma_clean_text_stays("num_bands"@);
}

proof fn lemma_keys_differ()
    ensures
        "theme_dark"@ != "idle_anim"@,
        "theme_dark"@ != "peak_hold"@,
        "theme_dark"@ != "console_mode"@,
        "theme_dark"@ != "knob_ui"@,
        "theme_dark"@ != "db_min"@,
        "theme_dark"@ != "db_max"@,
        "theme_dark"@ != "vol_min"@,
        "theme_dark"@ != "vol_max"@,
        "theme_dark"@ != "num_bands"@,
        "idle_anim"@ != "peak_hold"@,
        "idle_anim"@ != "console_mode"@,
        "idle_anim"@ != "knob_ui"@,
        "idle_anim"@ != "db_min"@,
        "idle_anim"@ != "db_max"@,
        "idle_anim"@ != "vol_min"@,
        "idle_anim"@ != "vol_max"@,
        "idle_anim"@ != "num_bands"@,
        "peak_hold"@ != "console_mode"@,
        "peak_hold"@ != "knob_ui"@,
        "peak_hold"@ != "db_min"@,
        "peak_hold"@ != "db_max"@,
        "peak_hold"@ != "vol_min"@,
        "peak_hold"@ != "vol_max"@,
        "peak_hold"@ != "num_bands"@,
        "console_mode"@ != "knob_ui"@,
        "console_mode"@ != "db_min"@,
        "console_mode"@ != "db_max"@,
        "console_mode"@ != "vol_min"@,
        "console_mode"@ != "vol_max"@,
        "console_mode"@ != "num_bands"@,
        "knob_ui"@ != "db_min"@,
        "knob_ui"@ != "db_max"@,
        "knob_ui"@ != "vol_min"@,
        "knob_ui"@ != "vol_max"@,
        "knob_ui"@ != "num_bands"@,
        "db_min"@ != "db_max"@,
        "db_min"@ != "vol_min"@,
        "db_min"@ != "vol_max"@,
        "db_min"@ != "num_bands"@,
        "db_max"@ != "vol_min"@,
        "db_max"@ != "vol_max"@,
        "db_max"@ != "num_bands"@,
        "vol_min"@ != "vol_max"@,
        "vol_min"@ != "num_bands"@,
        "vol_max"@ != "num_bands"@,
{
    reveal_strlit("theme_dark");
    reveal_strlit("idle_anim");
    reveal_strlit("peak_hold");
    reveal_strlit("console_mode");
    reveal_strlit("knob_ui");
    reveal_strlit("db_min");
    reveal_strlit("db_max");
    reveal_strlit("vol_min");
    reveal_strlit("vol_max");
    reveal_strlit("num_bands");
    assert("theme_dark"@.len() != "idle_anim"@.len());
    assert("theme_dark"@.len() != "peak_hold"@.len());
    assert("theme_dark"@.len() != "console_mode"@.len());
    assert("theme_dark"@.len() != "knob_ui"@.len());
    assert("theme_dark"@.len() != "db_min"@.len());
    assert("theme_dark"@.len() != "db_max"@.len());
    assert("theme_dark"@.len() != "vol_min"@.len());
    assert("theme_dark"@.len() != "vol_max"@.len());
    assert("theme_dark"@.len() != "num_bands"@.len());
    assert("idle_anim"@[0] != "peak_hold"@[0]);
    assert("idle_anim"@.len() != "console_mode"@.len());
    assert("idle_anim"@.len() != "knob_ui"@.len());
    assert("idle_anim"@.len() != "db_min"@.len());
    assert("idle_anim"@.len() != "db_max"@.len());
    assert("idle_anim"@.len() != "vol_min"@.len());
    assert("idle_anim"@.len() != "vol_max"@.len());
    assert("idle_anim"@[0] != "num_bands"@[0]);
    assert("peak_hold"@.len() != "console_mode"@.len());
    assert("peak_hold"@.len() != "knob_ui"@.len());
    assert("peak_hold"@.len() != "db_min"@.len());
    assert("peak_hold"@.len() != "db_max"@.len());
    assert("peak_hold"@.len() != "vol_min"@.len());
    assert("peak_hold"@.len() != "vol_max"@.len());
    assert("peak_hold"@[0] != "num_bands"@[0]);
    assert("console_mode"@.len() != "knob_ui"@.len());
    assert("console_mode"@.len() != "db_min"@.len());
    assert("console_mode"@.len() != "db_max"@.len());
    assert("console_mode"@.len() != "vol_min"@.len());
    assert("console_mode"@.len() != "vol_max"@.len());
    assert("console_mode"@.len() != "num_bands"@.len());
    assert("knob_ui"@.len() != "db_min"@.len());
    assert("knob_ui"@.len() != "db_max"@.len());
    assert("knob_ui"@[0] != "vol_min"@[0]);
    assert("knob_ui"@[0] != "vol_max"@[0]);
    assert("knob_ui"@.len() != "num_bands"@.len());
    assert("db_min"@[4] != "db_max"@[4]);
    assert("db_min"@.len() != "vol_min"@.len());
    assert("db_min"@.len() != "vol_max"@.len());
    assert("db_min"@.len() != "num_bands"@.len());
    assert("db_max"@.len() != "vol_min"@.len());
    assert("db_max"@.len() != "vol_max"@.len());
    assert("db_max"@.len() != "num_bands"@.len());
    assert("vol_min"@[5] != "vol_max"@[5]);
    assert("vol_min"@.len() != "num_bands"@.len());
    assert("vol_max"@.len() != "num_bands"@.len());
}

/// What a written file holds under a key.
proof fn lemma_written_value(
    s: Settings,
    db_min: Seq<char>,
    db_max: Seq<char>,
    vol_min: Seq<char>,
    vol_max: Seq<char>,
    num_bands: nat,
    key: Seq<char>,
)
    requires
        plain_value(db_min),
        plain_value(db_max),
        plain_value(vol_min),
        plain_value(vol_max),
    ensures
        lookup(file_text(s, db_min, db_max, vol_min, vol_max, num_bands), key) == if "theme_dark"@ == key {
            Some(switch_text(s.theme_dark))
        } else if "idle_anim"@ == key {
            Some(switch_text(s.idle_anim))
        } else if "peak_hold"@ == key {
            Some(switch_text(s.peak_hold))
        } else if "console_mode"@ == key {
            Some(switch_text(s.console_mode))
        } else if "knob_ui"@ == key {
            Some(switch_text(s.knob_ui))
        } else if "db_min"@ == key {
            Some(db_min)
        } else if "db_max"@ == key {
            Some(db_max)
        } else if "vol_min"@ == key {
            Some(vol_min)
        } else if "vol_max"@ == key {
            Some(vol_max)
        } else if "num_bands"@ == key {
            Some(text::decimal(num_bands))
        } else {
            None::<Seq<char>>
        },
{
    lemma_keys_are_plain();
    lemma_switch_is_read(s.theme_dark);
    lemma_switch_is_read(s.idle_anim);
    lemma_switch_is_read(s.peak_hold);
    lemma_switch_is_read(s.console_mode);
    lemma_switch_is_read(s.knob_ui);
    lemma_decimal_is_plain(num_bands);
    let r10 = Seq::<char>::empty();
    let r9 = line("num_bands"@, text::decimal(num_bands)) + r10;
    let r8 = line("vol_max"@, vol_max) + r9;
    let r7 = line("vol_min"@, vol_min) + r8;
    let r6 = line("db_max"@, db_max) + r7;
    let r5 = line("db_min"@, db_min) + r6;
    let r4 = line("knob_ui"@, switch_text(s.knob_ui)) + r5;
    let r3 = line("console_mode"@, switch_text(s.console_mode)) + r4;
    let r2 = line("peak_hold"@, switch_text(s.peak_hold)) + r3;
    let r1 = line("idle_anim"@, switch_text(s.idle_anim)) + r2;
    let r0 = line("theme_dark"@, switch_text(s.theme_dark)) + r1;
    assert(r0 == file_text(s, db_min, db_max, vol_min, vol_max, num_bands));
    law_line_is_found("theme_dark"@, switch_text(s.theme_dark), r1, key);
    law_line_is_found("idle_anim"@, switch_text(s.idle_anim), r2, key);
    law_line_is_found("peak_hold"@, switch_text(s.peak_hold), r3, key);
    law_line_is_found("console_mode"@, switch_text(s.console_mode), r4, key);
    law_line_is_found("knob_ui"@, switch_text(s.knob_ui), r5, key);
    law_line_is_found("db_min"@, db_min, r6, key);
    law_line_is_found("db_max"@, db_max, r7, key);
    law_line_is_found("vol_min"@, vol_min, r8, key);
    law_line_is_found("vol_max"@, vol_max, r9, key);
    law_line_is_found("num_bands"@, text::decimal(num_bands), r10, key);
    assert(lookup(r10, key) is None);
}

/// A switch that was written reads back.
proof fn lemma_switch_is_read(on: bool)
    ensures
        plain_value(switch_text(on)),
        switch(Some(switch_text(on))) == Some(on),
{
    let t = switch_text(on);
    lemma_clean_text_stays(t);
    assert(t.drop_last() =~= Seq::<char>::empty());
    assert(text::digits_value(Seq::<char>::empty()) == 0);
    assert(text::after_plus(t) == t);
    assert(text::all_digits(t));
}

proof fn lemma_decimal_is_plain(n: nat)
    ensures
        plain_value(text::decimal(n)),
{
    let t = text::decimal(n);
    text::law_decimal_reads_back(n, n as int);
    assert(text::is_digit(t[0]));
    assert(text::is_digit(t[t.len() - 1]));
    lemma_clean_text_stays(t);
    assert forall|i: int| 0 <= i < t.len() implies #[trigger] t[i] != '\n' by {
        assert(text::is_digit(t[i]));
    }
}

/// A settings file gives back what was written to it: every switch, the text of
/// every level and volume, and the band count. The texts must be free of line
/// breaks and of white space at their ends.
pub proof fn law_config_reads_back(
    s: Settings,
    db_min: Seq<char>,
    db_max: Seq<char>,
    vol_min: Seq<char>,
    vol_max: Seq<char>,
    num_bands: nat,
)
    requires
        plain_value(db_min),
        plain_value(db_max),
        plain_value(vol_min),
        plain_value(vol_max),
        num_bands <= u32::MAX,
    ensures
        stored(file_text(s, db_min, db_max, vol_min, vol_max, num_bands)) == (StoredView {
            theme_dark: Some(s.theme_dark),
            idle_anim: Some(s.idle_anim),
            peak_hold: Some(s.peak_hold),
            console_mode: Some(s.console_mode),
            knob_ui: Some(s.knob_ui),
            db_min: Some(db_min),
            db_max: Some(db_max),
            vol_min: Some(vol_min),
            vol_max: Some(vol_max),
            num_bands: Some(num_bands as int),
        }),
{
    lemma_keys_differ();
    lemma_written_value(s, db_min, db_max, vol_min, vol_max, num_bands, "theme_dark"@);
    lemma_written_value(s, db_min, db_max, vol_min, vol_max, num_bands, "idle_anim"@);
    lemma_written_value(s, db_min, db_max, vol_min, vol_max, num_bands, "peak_hold"@);
    lemma_written_value(s, db_min, db_max, vol_min, vol_max, num_bands, "console_mode"@);
    lemma_written_value(s, db_min, db_max, vol_min, vol_max, num_bands, "knob_ui"@);
    lemma_written_value(s, db_min, db_max, vol_min, vol_max, num_bands, "db_min"@);
    lemma_written_value(s, db_min, db_max, vol_min, vol_max, num_bands, "db_max"@);
    lemma_written_value(s, db_min, db_max, vol_min, vol_max, num_bands, "vol_min"@);
    lemma_written_value(s, db_min, db_max, vol_min, vol_max, num_bands, "vol_max"@);
    lemma_written_value(s, db_min, db_max, vol_min, vol_max, num_bands, "num_bands"@);
    lemma_switch_is_read(s.theme_dark);
    lemma_switch_is_read(s.idle_anim);
    lemma_switch_is_read(s.peak_hold);
    lemma_switch_is_read(s.console_mode);
    lemma_switch_is_read(s.knob_ui);
    text::law_decimal_reads_back(num_bands, u32::MAX as int);
}

/// The graph goes from -60 dB to 60 dB at most and on the desk from -15 dB to 15 dB; the
/// fader goes up to 3 at first and to 5 at most. Its start is the first number from a
/// third on at first, and from 0.05 on at least.
pub proof fn law_levels_and_volumes()
    ensures
        bits::value(DB_LOWEST) == -bits::units(60),
        bits::value(DB_HIGHEST) == bits::units(60),
        bits::value(CONSOLE_DB_MIN) == -bits::units(15),
        bits::value(CONSOLE_DB_MAX) == bits::units(15),
        bits::value(DEFAULT_VOL_MAX) == bits::units(3),
        bits::value(VOL_HIGHEST) == bits::units(5),
        bits::value((DEFAULT_VOL_MIN - 1) as u32) * 3 < bits::units(1) <= bits::value(
            DEFAULT_VOL_MIN,
        ) * 3,
        bits::value((VOL_LOWEST - 1) as u32) * 20 < bits::units(1) <= bits::value(VOL_LOWEST) * 20,
{
    vstd::arithmetic::power2::lemma2_to64();
    bits::lemma_whole_number(DB_HIGHEST, 60, 132, 0x70_0000, 5);
    bits::lemma_whole_number(CONSOLE_DB_MAX, 15, 130, 0x70_0000, 3);
    bits::lemma_whole_number(DEFAULT_VOL_MAX, 3, 128, 0x40_0000, 1);
    bits::lemma_whole_number(VOL_HIGHEST, 5, 129, 0x20_0000, 2);
    assert(bits::magnitude(DB_LOWEST) == DB_HIGHEST);
    assert(bits::magnitude(CONSOLE_DB_MIN) == CONSOLE_DB_MAX);
    vstd::arithmetic::power2::lemma_pow2_adds(25, 124);
    vstd::arithmetic::power2::lemma_pow2_adds(28, 121);
    vstd::arithmetic::power2::lemma_pow2_pos(124);
    vstd::arithmetic::power2::lemma_pow2_pos(121);
    let third = vstd::arithmetic::power2::pow2(124) as int;
    let low = vstd::arithmetic::power2::pow2(121) as int;
    assert(bits::magnitude(DEFAULT_VOL_MIN) == 125 * 0x80_0000 + 0x2a_aaab);
    assert(bits::value(DEFAULT_VOL_MIN) == 0xaa_aaab * third);
    assert(bits::value((DEFAULT_VOL_MIN - 1) as u32) == 0xaa_aaaa * third);
    assert(bits::units(1) == 0x200_0000 * third);
    assert(bits::magnitude(VOL_LOWEST) == 122 * 0x80_0000 + 0x4c_cccd);
    assert(bits::value(VOL_LOWEST) == 0xcc_cccd * low);
    assert(bits::value((VOL_LOWEST - 1) as u32) == 0xcc_cccc * low);
    assert(bits::units(1) == 0x1000_0000 * low);
}

/// A first run is dark, animates, holds peaks, has the strip of sliders outside console mode
/// and the widest graph.
pub proof fn law_first_run()
    ensures
        Settings::initial().theme_dark,
        Settings::initial().idle_anim,
        Settings::initial().peak_hold,
        !Settings::initial().console_mode,
        !Settings::initial().knob_ui,
        bits::value(Settings::initial().db_min) == -bits::units(60),
        bits::value(Settings::initial().db_max) == bits::units(60),
        bits::value(Settings::initial().vol_max) == bits::units(3),
        Settings::initial().vol_min == DEFAULT_VOL_MIN,
{
    law_levels_and_volumes();
}

/// What a file holds is taken over: a switch as it is, and a level bit for bit where it lies
/// within its limits; past a limit it is taken to that limit. Floors lie from -60 dB to
/// 0 dB, roofs from 0 dB to 60 dB, the start of the fader from 0.05 to 1 and its end from
/// 1 to 5. What is no number is taken over as it is.
pub proof fn law_stored_values_are_taken_over(s: Settings, v: ConfigValues, on: bool, x: u32)
    ensures
        ({
            let t = s.with_values(v);
            let level = bits::value(x);
            &&& v.theme_dark == Some(on) ==> t.theme_dark == on
            &&& v.idle_anim == Some(on) ==> t.idle_anim == on
            &&& v.peak_hold == Some(on) ==> t.peak_hold == on
            &&& v.console_mode == Some(on) ==> t.console_mode == on
            &&& v.knob_ui == Some(on) ==> t.knob_ui == on
            &&& v.db_min == Some(x) && bits::nan(x) ==> t.db_min == x
            &&& v.db_min == Some(x) && !bits::nan(x) ==> {
                &&& -bits::units(60) <= level <= 0 ==> t.db_min == x
                &&& level < -bits::units(60) ==> bits::value(t.db_min) == -bits::units(60)
                &&& level > 0 ==> t.db_min == 0
            }
            &&& v.db_max == Some(x) && bits::nan(x) ==> t.db_max == x
            &&& v.db_max == Some(x) && !bits::nan(x) ==> {
                &&& 0 <= level <= bits::units(60) ==> t.db_max == x
                &&& level < 0 ==> t.db_max == 0
                &&& level > bits::units(60) ==> bits::value(t.db_max) == bits::units(60)
            }
            &&& v.vol_min == Some(x) && bits::nan(x) ==> t.vol_min == x
            &&& v.vol_min == Some(x) && !bits::nan(x) ==> {
                &&& bits::value(VOL_LOWEST) <= level <= bits::units(1) ==> t.vol_min == x
                &&& level < bits::value(VOL_LOWEST) ==> t.vol_min == VOL_LOWEST
                &&& level > bits::units(1) ==> bits::value(t.vol_min) == bits::units(1)
            }
            &&& v.vol_max == Some(x) && bits::nan(x) ==> t.vol_max == x
            &&& v.vol_max == Some(x) && !bits::nan(x) ==> {
                &&& bits::units(1) <= level <= bits::units(5) ==> t.vol_max == x
                &&& level < bits::units(1) ==> bits::value(t.vol_max) == bits::units(1)
                &&& level > bits::units(5) ==> bits::value(t.vol_max) == bits::units(5)
            }
        }),
{
    law_levels_and_volumes();
    lemma_limits();
    vstd::arithmetic::power2::lemma2_to64();
    bits::lemma_whole_number(bits::ONE, 1, 127, 0, 0);
}

/// Settling leaves settings as they are that are in line already. A fader that ends below
/// the floor it may end at is drawn out to it, up to 5; a floor of the graph above the roof
/// comes down to the roof; console mode has its own range. Nothing else changes, and what is
/// no number is in line with everything.
pub proof fn law_settling_mends_what_is_out_of_line(s: Settings, vol_floor: u32)
    ensures
        ({
            let t = s.settled(vol_floor);
            let wanted = bits::value(vol_floor);
            let short = bits::lt(s.vol_max, vol_floor);
            &&& t == (Settings { vol_max: t.vol_max, db_min: t.db_min, db_max: t.db_max, ..s })
            &&& !short ==> t.vol_max == s.vol_max
            &&& short && wanted <= bits::units(5) ==> t.vol_max == vol_floor
            &&& short && wanted > bits::units(5) ==> bits::value(t.vol_max) == bits::units(5)
            &&& s.console_mode ==> bits::value(t.db_min) == -bits::units(15) && bits::value(
                t.db_max,
            ) == bits::units(15)
            &&& !s.console_mode ==> {
                &&& t.db_max == s.db_max
                &&& bits::lt(s.db_max, s.db_min) ==> t.db_min == s.db_max
                &&& !bits::lt(s.db_max, s.db_min) ==> t.db_min == s.db_min
            }
        }),
{
    law_levels_and_volumes();
    lemma_limits();
}

/// A line splits at its first equals sign: what is before it, without white space around it,
/// is the key and what is behind it the value, further equals signs included. A line without
/// one has neither.
pub proof fn law_lines_split_at_the_first_equals_sign(before: Seq<char>, after: Seq<char>)
    requires
        !before.contains('='),
    ensures
        entry(before + seq!['='] + after) == Some((text::trimmed(before), text::trimmed(after))),
        entry(before) is None,
{
    let line = before + seq!['='] + after;
    text::law_first_place(before, '=', 0);
    text::law_first_place(line, '=', before.len() as int);
    let p = text::first(line, '=') as int;
    assert(line[before.len() as int] == '=');
    assert(line.contains('='));
    if p < before.len() {
        assert(line[p] == before[p]);
        assert(before.contains(before[p]));
    }
    assert(p == before.len());
    assert(line.take(p) =~= before);
    assert(line.skip(p + 1) =~= after);
}

/// A text is searched line by line: the first line decides where its key is the one that is
/// looked for, and otherwise the lines behind it do. The last line needs no line break, and
/// an empty text holds nothing.
pub proof fn law_lines_are_searched_in_order(
    line: Seq<char>,
    rest: Seq<char>,
    key: Seq<char>,
    value: Seq<char>,
)
    requires
        !line.contains('\n'),
    ensures
        ({
            let t = line + seq!['\n'] + rest;
            &&& entry(line) == Some((key, value)) ==> lookup(t, key) == Some(value)
            &&& entry(line) is None ==> lookup(t, key) == lookup(rest, key)
            &&& entry(line) matches Some((k, _)) ==> k != key ==> lookup(t, key) == lookup(rest, key)
            &&& lookup(line, key) == lookup(line + seq!['\n'], key)
        }),
        lookup(Seq::empty(), key) is None,
{
    let t = line + seq!['\n'] + rest;
    let u = line + seq!['\n'];
    text::law_first_place(line, '\n', 0);
    text::law_first_place(t, '\n', line.len() as int);
    text::law_first_place(u, '\n', line.len() as int);
    assert(t[line.len() as int] == '\n');
    assert(u[line.len() as int] == '\n');
    let p = text::first(t, '\n') as int;
    let q = text::first(u, '\n') as int;
    if p < line.len() {
        assert(t[p] == line[p]);
        assert(line.contains(line[p]));
    }
    if q < line.len() {
        assert(u[q] == line[q]);
        assert(line.contains(line[q]));
    }
    assert(t.contains('\n'));
    assert(u.contains('\n'));
    assert(p == line.len() && q == line.len());
    assert(t.take(p) =~= line);
    assert(t.skip(p + 1) =~= rest);
    assert(u.take(q) =~= line);
    assert(u.skip(q + 1) =~= Seq::<char>::empty());
    assert(lookup(Seq::<char>::empty(), key) is None);
    if line.len() == 0 {
        assert(text::first(line, '=') == 0);
        assert(entry(line) is None);
    }
}

/// A switch is off at 0 and on at every other number up to 255; a larger number and a text
/// that is no number are no switch. A count is any number of 32 bits. What is missing is
/// neither.
pub proof fn law_switches_and_counts(n: nat, v: Seq<char>)
    ensures
        switch(Some(text::decimal(0))) == Some(false),
        1 <= n <= 255 ==> switch(Some(text::decimal(n))) == Some(true),
        n > 255 ==> switch(Some(text::decimal(n))) is None,
        n <= 0xffff_ffff ==> count(Some(text::decimal(n))) == Some(n as int),
        n > 0xffff_ffff ==> count(Some(text::decimal(n))) is None,
        text::number(v, u32::MAX as int) is None ==> switch(Some(v)) is None && count(
            Some(v),
        ) is None,
        switch(None) is None,
        count(None) is None,
{
    text::law_decimal_reads_back(0, 255);
    text::law_decimal_reads_back(n, n as int);
}

/// A level is what is read from its text, and none where there is no text; the switches and
/// the count are those of the file.
pub proof fn law_levels_are_read_from_their_texts(
    s: StoredView,
    read: spec_fn(Seq<char>) -> Option<u32>,
)
    ensures
        ({
            let v = s.values(read);
            &&& v.theme_dark == s.theme_dark
            &&& v.idle_anim == s.idle_anim
            &&& v.peak_hold == s.peak_hold
            &&& v.console_mode == s.console_mode
            &&& v.knob_ui == s.knob_ui
            &&& s.db_min is None ==> v.db_min is None
            &&& s.db_max is None ==> v.db_max is None
            &&& s.vol_min is None ==> v.vol_min is None
            &&& s.vol_max is None ==> v.vol_max is None
            &&& s.db_min matches Some(t) ==> v.db_min == read(t)
            &&& s.db_max matches Some(t) ==> v.db_max == read(t)
            &&& s.vol_min matches Some(t) ==> v.vol_min == read(t)
            &&& s.vol_max matches Some(t) ==> v.vol_max == read(t)
            &&& s.num_bands is None ==> v.num_bands is None
            &&& s.num_bands is Some && 0 <= s.num_bands->0 <= u32::MAX ==> v.num_bands == Some(
                s.num_bands->0 as u32,
            )
        }),
{
}

/// Each setting is looked up under its own key.
pub proof fn law_settings_have_their_keys(t: Seq<char>)
    ensures
        stored(t).theme_dark == switch(lookup(t, "theme_dark"@)),
        stored(t).idle_anim == switch(lookup(t, "idle_anim"@)),
        stored(t).peak_hold == switch(lookup(t, "peak_hold"@)),
        stored(t).console_mode == switch(lookup(t, "console_mode"@)),
        stored(t).knob_ui == switch(lookup(t, "knob_ui"@)),
        stored(t).db_min == lookup(t, "db_min"@),
        stored(t).db_max == lookup(t, "db_max"@),
        stored(t).vol_min == lookup(t, "vol_min"@),
        stored(t).vol_max == lookup(t, "vol_max"@),
        stored(t).num_bands == count(lookup(t, "num_bands"@)),
{
}

/// A line is the key, an equals sign, the value and a line break, with nothing between them.
/// A switch is written as one digit.
pub proof fn law_lines_are_written_plainly(key: Seq<char>, value: Seq<char>, on: bool)
    ensures
        line(key, value).len() == key.len() + value.len() + 2,
        line(key, value).take(key.len() as int) == key,
        line(key, value)[key.len() as int] == '=',
        line(key, value).subrange(key.len() as int + 1, (key.len() + value.len() + 1) as int)
            == value,
        line(key, value).last() == '\n',
        switch_text(on).len() == 1,
        switch_text(on)[0] == if on {
            '1'
        } else {
            '0'
        },
{
    let l = line(key, value);
    assert(l.take(key.len() as int) =~= key);
    assert(l.subrange(key.len() as int + 1, (key.len() + value.len() + 1) as int) =~= value);
}

/// A file has its ten lines and nothing else.
pub proof fn law_file_has_ten_lines(
    s: Settings,
    db_min: Seq<char>,
    db_max: Seq<char>,
    vol_min: Seq<char>,
    vol_max: Seq<char>,
    num_bands: nat,
)
    ensures
        ({
            let t = file_text(s, db_min, db_max, vol_min, vol_max, num_bands);
            let switches = line("theme_dark"@, switch_text(s.theme_dark)) + line(
                "idle_anim"@,
                switch_text(s.idle_anim),
            ) + line("peak_hold"@, switch_text(s.peak_hold)) + line(
                "console_mode"@,
                switch_text(s.console_mode),
            ) + line("knob_ui"@, switch_text(s.knob_ui));
            let levels = line("db_min"@, db_min) + line("db_max"@, db_max) + line(
                "vol_min"@,
                vol_min,
            ) + line("vol_max"@, vol_max);
            let count = line("num_bands"@, text::decimal(num_bands));
            &&& switches.is_prefix_of(t)
            &&& count.is_suffix_of(t)
            &&& t.skip(switches.len() as int).take(levels.len() as int) == levels
            &&& t.len() == switches.len() + levels.len() + count.len()
        }),
{
    let t = file_text(s, db_min, db_max, vol_min, vol_max, num_bands);
    let switches = line("theme_dark"@, switch_text(s.theme_dark)) + line(
        "idle_anim"@,
        switch_text(s.idle_anim),
    ) + line("peak_hold"@, switch_text(s.peak_hold)) + line(
        "console_mode"@,
        switch_text(s.console_mode),
    ) + line("knob_ui"@, switch_text(s.knob_ui));
    let levels = line("db_min"@, db_min) + line("db_max"@, db_max) + line("vol_min"@, vol_min)
        + line("vol_max"@, vol_max);
    let count = line("num_bands"@, text::decimal(num_bands));
    assert(t =~= switches + levels + count);
    assert(t.take(switches.len() as int) =~= switches);
    assert(t.skip(t.len() - count.len()) =~= count);
    assert(t.skip(switches.len() as int).take(levels.len() as int) =~= levels);
}

} // verus!
