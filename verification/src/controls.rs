//! The controls of a band, the graph, the transport and the volume fader.

use crate::audio;
use crate::audio::BandParams;
use crate::audio::StateView;
use crate::audio::{CONSOLE_BANDS, MAX_BANDS, NUM_BARS};
use crate::bits;
use crate::config::{CONSOLE_DB_MAX, CONSOLE_DB_MIN};
use crate::config;
use crate::filter::FilterKind;
use crate::gui::{EngineKind, EqApp};
use crate::gui::{AppView, SettingsChange};
use vstd::prelude::*;

verus! {

/// Lowest frequency of the graph (20 Hz).
pub const MIN_FREQ: u32 = 0x41a0_0000;

/// Highest frequency of the graph (20 kHz).
pub const MAX_FREQ: u32 = 0x469c_4000;

/// Widest bandwidth (Q 0.1).
pub const Q_MIN: u32 = 0x3dcc_cccd;

/// Narrowest bandwidth (Q 10).
pub const Q_MAX: u32 = 0x4120_0000;

/// Widest bandwidth in console mode (Q 0.5).
pub const CONSOLE_Q_MIN: u32 = 0x3f00_0000;

/// Narrowest bandwidth in console mode (Q 5).
pub const CONSOLE_Q_MAX: u32 = 0x40a0_0000;

/// A meter at or below this (0.0001) counts as silent.
pub const METER_FLOOR: u32 = 0x38d1_b717;

/// Below this level (0.02) the bars of the display rest.
pub const IDLE_LEVEL: u32 = 0x3ca3_d70a;

/// The shortest range of the scrubber in seconds (0.001).
pub const SHORTEST_SCRUB: u32 = 0x3a83_126f;

/// The three numbers of a band that a knob can turn.
#[derive(Clone, Copy, PartialEq, Eq, Structural, Debug)]
pub enum BandKnob {
    Gain,
    Frequency,
    Bandwidth,
}

/// The band with one of its numbers replaced.
pub open spec fn turned(band: BandParams, knob: BandKnob, v: u32) -> BandParams {
    match knob {
        BandKnob::Gain => BandParams { gain_db: v, ..band },
        BandKnob::Frequency => BandParams { freq_hz: v, ..band },
        BandKnob::Bandwidth => BandParams { q: v, ..band },
    }
}

/// The number of a band that a knob shows.
pub open spec fn knob_number(band: BandParams, knob: BandKnob) -> u32 {
    match knob {
        BandKnob::Gain => band.gain_db,
        BandKnob::Frequency => band.freq_hz,
        BandKnob::Bandwidth => band.q,
    }
}

/// Whether two patterns stand for different numbers. What is no number differs
/// from everything.
pub open spec fn differ(a: u32, b: u32) -> bool {
    bits::nan(a) || bits::nan(b) || bits::value(a) != bits::value(b)
}

impl AppView {
    /// The user interface with another band in slot `i`.
    pub open spec fn with_band(self, i: int, band: BandParams) -> AppView {
        AppView {
            state: StateView { bands: self.state.bands.update(i, band), ..self.state },
            ..self
        }
    }

    /// The bandwidths that a knob can reach.
    pub open spec fn q_low(self) -> u32 {
        if self.settings.console_mode {
            CONSOLE_Q_MIN
        } else {
            Q_MIN
        }
    }

    pub open spec fn q_high(self) -> u32 {
        if self.settings.console_mode {
            CONSOLE_Q_MAX
        } else {
            Q_MAX
        }
    }
}

/// The limits of frequencies and bandwidths, one below the other.
pub proof fn lemma_knob_limits()
    ensures
        bits::le(MIN_FREQ, MAX_FREQ),
        bits::le(Q_MIN, CONSOLE_Q_MIN),
        bits::le(CONSOLE_Q_MIN, CONSOLE_Q_MAX),
        bits::le(CONSOLE_Q_MAX, Q_MAX),
        bits::le(Q_MIN, Q_MAX),
        bits::le(CONSOLE_DB_MIN, CONSOLE_DB_MAX),
        bits::lt(bits::ZERO, SHORTEST_SCRUB),
{
    bits::lemma_order_of_patterns(MIN_FREQ, MAX_FREQ);
    bits::lemma_order_of_patterns(Q_MIN, CONSOLE_Q_MIN);
    bits::lemma_order_of_patterns(CONSOLE_Q_MIN, CONSOLE_Q_MAX);
    bits::lemma_order_of_patterns(CONSOLE_Q_MAX, Q_MAX);
    bits::lemma_order_of_patterns(bits::ZERO, SHORTEST_SCRUB);
    config::lemma_limits();
}

/// The number that a knob stands at after one frame: where it was dragged to, else
/// where it was scrolled to, within its range; untouched it stays as it is.
pub open spec fn knob_after(
    v: u32,
    scrolled: Option<u32>,
    dragged: Option<u32>,
    lo: u32,
    hi: u32,
) -> u32 {
    match dragged {
        Some(d) => bits::clamped(d, lo, hi),
        None => match scrolled {
            Some(s) => bits::clamped(s, lo, hi),
            None => v,
        },
    }
}

/// Turns a knob.
pub fn knob(v: u32, scrolled: Option<u32>, dragged: Option<u32>, lo: u32, hi: u32) -> (r: u32)
    requires
        scrolled is Some || dragged is Some ==> bits::le(lo, hi),
    ensures
        r == knob_after(v, scrolled, dragged, lo, hi),
{
    match dragged {
        Some(d) => bits::clamp(d, lo, hi),
        None => match scrolled {
            Some(s) => bits::clamp(s, lo, hi),
            None => v,
        },
    }
}

/// Whether two patterns stand for different numbers.
fn differs(a: u32, b: u32) -> (r: bool)
    ensures
        r == differ(a, b),
{
    bits::is_nan(a) || bits::is_nan(b) || bits::less(a, b) || bits::less(b, a)
}

/// What the scroll wheel turns at a dot.
pub open spec fn wheel_target(shift: bool, ctrl: bool) -> BandKnob {
    if shift {
        BandKnob::Frequency
    } else if ctrl {
        BandKnob::Bandwidth
    } else {
        BandKnob::Gain
    }
}

impl AppView {
    /// The gains that the wheel can reach: the desk's in console mode.
    pub open spec fn wheel_low(self) -> u32 {
        if self.settings.console_mode {
            CONSOLE_DB_MIN
        } else {
            self.settings.db_min
        }
    }

    pub open spec fn wheel_high(self) -> u32 {
        if self.settings.console_mode {
            CONSOLE_DB_MAX
        } else {
            self.settings.db_max
        }
    }

    /// The number that the wheel sets, within the limits of the mode.
    pub open spec fn wheel_value(self, shift: bool, ctrl: bool, proposed: u32) -> u32 {
        match wheel_target(shift, ctrl) {
            BandKnob::Frequency => bits::clamped(proposed, MIN_FREQ, MAX_FREQ),
            BandKnob::Gain => bits::clamped(proposed, self.wheel_low(), self.wheel_high()),
            BandKnob::Bandwidth => bits::clamped(proposed, self.q_low(), self.q_high()),
        }
    }

    /// The user interface once the wheel was turned over the dot of band `n`.
    pub open spec fn wheel_turned(
        self,
        n: usize,
        shift: bool,
        ctrl: bool,
        proposed: u32,
    ) -> AppView {
        AppView {
            selected: if self.settings.console_mode {
                Some(n)
            } else {
                self.selected
            },
            ..self.with_band(
                n as int,
                turned(
                    self.state.bands[n as int],
                    wheel_target(shift, ctrl),
                    self.wheel_value(shift, ctrl, proposed),
                ),
            )
        }
    }

    /// Whether band `i` is one of the desk's: of the fixed shape, with a gain and a
    /// bandwidth that the desk has.
    pub open spec fn desk_band(self, i: int) -> bool {
        let band = self.state.bands[i];
        &&& band.kind == audio::console_spot(i).1.index()
        &&& bits::le(CONSOLE_DB_MIN, band.gain_db) && bits::le(band.gain_db, CONSOLE_DB_MAX)
        &&& bits::le(CONSOLE_Q_MIN, band.q) && bits::le(band.q, CONSOLE_Q_MAX)
    }

    /// Whether the strip is a desk's: five bands, the graph of the console, and every
    /// band within what the desk has.
    pub open spec fn is_desk(self) -> bool {
        &&& self.settings.console_mode
        &&& self.settings.db_min == CONSOLE_DB_MIN
        &&& self.settings.db_max == CONSOLE_DB_MAX
        &&& self.state.band_count == CONSOLE_BANDS
        &&& forall|i: int| 0 <= i < CONSOLE_BANDS ==> #[trigger] self.desk_band(i)
    }

    /// Whether every bar of the display is below the level at which it shows a sound.
    pub open spec fn bars_at_rest(self) -> bool {
        forall|i: int|
            0 <= i < self.vis_levels.len() ==> !bits::le(IDLE_LEVEL, #[trigger] self.vis_levels[i])
    }

    /// The user interface once the selected dot was dragged.
    pub open spec fn dot_dragged(self, freq: u32, gain: u32) -> AppView {
        match self.selected {
            Some(i) => self.with_band(
                i as int,
                BandParams {
                    freq_hz: freq,
                    gain_db: bits::clamped(gain, self.settings.db_min, self.settings.db_max),
                    ..self.state.bands[i as int]
                },
            ),
            None => self,
        }
    }
}

/// Whether dot `i` is near enough and no dot is nearer; of dots equally near, the
/// first one counts.
pub open spec fn is_nearest(distances: Seq<u32>, max_dist: u32, i: int) -> bool {
    &&& 0 <= i < distances.len()
    &&& bits::lt(distances[i], max_dist)
    &&& forall|j: int| 0 <= j < distances.len() ==> !bits::lt(#[trigger] distances[j], distances[i])
    &&& forall|j: int|
        0 <= j < i && bits::lt(#[trigger] distances[j], max_dist) ==> bits::lt(
            distances[i],
            distances[j],
        )
}

/// Picks the dot that is nearest, within `max_dist`, from the distances of all of
/// them.
pub fn nearest_node(distances: &Vec<u32>, max_dist: u32) -> (r: Option<usize>)
    ensures
        match r {
            Some(i) => is_nearest(distances@, max_dist, i as int),
            None => forall|j: int|
                0 <= j < distances@.len() ==> !bits::lt(#[trigger] distances@[j], max_dist),
        },
{
    let mut best: Option<usize> = None;
    let mut i: usize = 0;
    while i < distances.len()
        invariant
            i <= distances@.len(),
            match best {
                Some(b) => b < i && is_nearest(distances@.take(i as int), max_dist, b as int),
                None => forall|j: int|
                    0 <= j < i ==> !bits::lt(#[trigger] distances@[j], max_dist),
            },
        decreases distances@.len() - i,
    {
        let d: u32 = distances[i];
        let ghost done = distances@.take(i as int);
        let ghost more = distances@.take(i + 1);
        assert(forall|j: int| 0 <= j < i ==> #[trigger] more[j] == done[j]);
        assert(forall|j: int| 0 <= j < i ==> #[trigger] done[j] == distances@[j]);
        assert(more[i as int] == d);
        if bits::less(d, max_dist) {
            match best {
                Some(b) => {
                    assert(done[b as int] == distances@[b as int]);
                    if bits::less(d, distances[b]) {
                        proof {
                            assert forall|j: int| 0 <= j < more.len() implies !bits::lt(
                                #[trigger] more[j],
                                d,
                            ) by {
                                if j < i {
                                    assert(!bits::lt(done[j], done[b as int]));
                                }
                            }
                            assert forall|j: int|
                                0 <= j < i && bits::lt(#[trigger] more[j], max_dist) implies bits::lt(
                                d,
                                more[j],
                            ) by {
                                assert(!bits::lt(done[j], done[b as int]));
                            }
                        }
                        best = Some(i);
                    } else {
                        proof {
                            assert(is_nearest(more, max_dist, b as int));
                        }
                    }
                },
                None => {
                    best = Some(i);
                },
            }
        } else {
            proof {
                if best is Some {
                    assert(is_nearest(more, max_dist, best->0 as int));
                }
            }
        }
        i = i + 1;
    }
    assert(distances@.take(distances@.len() as int) =~= distances@);
    best
}

impl EqApp {
    /// Selects a band.
    pub fn select(&mut self, i: Option<usize>)
        requires
            old(self).wf(),
            i matches Some(k) ==> k < MAX_BANDS,
        ensures
            final(self)@ == (AppView { selected: i, ..old(self)@ }),
            final(self).wf(),
    {
        self.selected = i;
    }

    /// Enables a band or bypasses it.
    pub fn set_band_enabled(&mut self, i: usize, on: bool)
        requires
            old(self).wf(),
            i < MAX_BANDS,
        ensures
            final(self)@ == old(self)@.with_band(
                i as int,
                (BandParams { enabled: on, ..old(self)@.state.bands[i as int] }),
            ),
            final(self).wf(),
    {
        let mut band = self.state.bands[i];
        band.set_enabled(on);
        self.state.bands.set(i, band);
    }

    /// Gives a band another shape. In console mode the shapes are fixed.
    pub fn set_band_kind(&mut self, i: usize, k: FilterKind)
        requires
            old(self).wf(),
            i < MAX_BANDS,
            !old(self)@.settings.console_mode,
        ensures
            final(self)@ == old(self)@.with_band(
                i as int,
                (BandParams { kind: k.index(), ..old(self)@.state.bands[i as int] }),
            ),
            final(self).wf(),
    {
        let mut band = self.state.bands[i];
        band.set_kind(k);
        self.state.bands.set(i, band);
    }

    /// Sets one of the numbers of a band, as a slider does.
    pub fn set_band_number(&mut self, i: usize, which: BandKnob, v: u32)
        requires
            old(self).wf(),
            i < MAX_BANDS,
        ensures
            final(self)@ == old(self)@.with_band(
                i as int,
                turned(old(self)@.state.bands[i as int], which, v),
            ),
            final(self).wf(),
    {
        let mut band = self.state.bands[i];
        match which {
            BandKnob::Gain => band.set_gain(v),
            BandKnob::Frequency => band.set_freq(v),
            BandKnob::Bandwidth => band.set_q(v),
        }
        self.state.bands.set(i, band);
    }

    /// Sets one of the numbers of a band from its knob, where the knob shows
    /// another number now.
    pub fn turn_knob(&mut self, i: usize, which: BandKnob, v: u32)
        requires
            old(self).wf(),
            i < MAX_BANDS,
        ensures
            final(self)@ == if differ(
                v,
                knob_number(old(self)@.state.bands[i as int], which),
            ) {
                old(self)@.with_band(
                    i as int,
                    turned(old(self)@.state.bands[i as int], which, v),
                )
            } else {
                old(self)@
            },
            final(self).wf(),
    {
        let band = self.state.bands[i];
        let present: u32 = match which {
            BandKnob::Gain => band.gain(),
            BandKnob::Frequency => band.freq(),
            BandKnob::Bandwidth => band.q(),
        };
        if differs(v, present) {
            self.set_band_number(i, which, v);
        }
    }

    /// The bandwidths that a knob can reach: the desk's in console mode.
    pub fn q_range(&self) -> (r: (u32, u32))
        ensures
            r == (self@.q_low(), self@.q_high()),
            bits::le(r.0, r.1),
    {
        proof {
            lemma_knob_limits();
        }
        if self.settings.console_mode {
            (CONSOLE_Q_MIN, CONSOLE_Q_MAX)
        } else {
            (Q_MIN, Q_MAX)
        }
    }

    /// Moves the selected dot to a frequency and a gain; the gain stays on the graph.
    pub fn drag_dot(&mut self, freq: u32, gain: u32)
        requires
            old(self).wf(),
            old(self)@.selected is Some ==> bits::le(
                old(self)@.settings.db_min,
                old(self)@.settings.db_max,
            ),
        ensures
            final(self)@ == old(self)@.dot_dragged(freq, gain),
            final(self).wf(),
    {
        if let Some(i) = self.selected {
            let mut band = self.state.bands[i];
            band.set_freq(freq);
            let g: u32 = bits::clamp(gain, self.settings.db_min, self.settings.db_max);
            band.set_gain(g);
            self.state.bands.set(i, band);
        }
    }

    /// What the scroll wheel turns at a dot: the gain, with shift the frequency, with
    /// ctrl the bandwidth.
    pub fn wheel_knob(shift: bool, ctrl: bool) -> (r: BandKnob)
        ensures
            r == wheel_target(shift, ctrl),
    {
        if shift {
            BandKnob::Frequency
        } else if ctrl {
            BandKnob::Bandwidth
        } else {
            BandKnob::Gain
        }
    }

    /// Turns the number of band `n` that the wheel turns to `proposed`, within its
    /// limits. In console mode the band is selected too. Gives the number that was
    /// set.
    pub fn turn_wheel(&mut self, n: usize, shift: bool, ctrl: bool, proposed: u32) -> (r: u32)
        requires
            old(self).wf(),
            n < MAX_BANDS,
            wheel_target(shift, ctrl) is Gain ==> bits::le(
                old(self)@.wheel_low(),
                old(self)@.wheel_high(),
            ),
        ensures
            r == old(self)@.wheel_value(shift, ctrl, proposed),
            final(self)@ == old(self)@.wheel_turned(n, shift, ctrl, proposed),
            final(self).wf(),
    {
        proof {
            lemma_knob_limits();
        }
        let which = Self::wheel_knob(shift, ctrl);
        let v: u32 = match which {
            BandKnob::Frequency => bits::clamp(proposed, MIN_FREQ, MAX_FREQ),
            BandKnob::Gain => if self.settings.console_mode {
                bits::clamp(proposed, CONSOLE_DB_MIN, CONSOLE_DB_MAX)
            } else {
                bits::clamp(proposed, self.settings.db_min, self.settings.db_max)
            },
            BandKnob::Bandwidth => {
                let (lo, hi) = self.q_range();
                bits::clamp(proposed, lo, hi)
            },
        };
        if self.settings.console_mode {
            self.selected = Some(n);
        }
        self.set_band_number(n, which, v);
        v
    }

    /// Whether a file plays.
    pub fn is_file(&self) -> (r: bool)
        ensures
            r == (self@.engine == Some(EngineKind::File)),
    {
        match self.engine {
            Some(EngineKind::File) => true,
            _ => false,
        }
    }

    /// Whether the scrubber can be used: a file of known length plays.
    pub fn has_progress(&self) -> (r: bool)
        ensures
            r == (self@.engine == Some(EngineKind::File) && self@.state.total_ms > 0),
    {
        self.is_file() && self.state.total_ms > 0
    }

    /// Where the scrubber stands, in seconds: at the hand-picked value while it is
    /// dragged, otherwise at the playback position, and always on its rail.
    pub fn scrub_position(&self, play_s: u32, total_s: u32) -> (r: u32)
        ensures
            r == bits::clamped(
                if self@.seek_drag {
                    self@.seek_pos
                } else {
                    play_s
                },
                bits::ZERO,
                bits::larger(total_s, SHORTEST_SCRUB),
            ),
            self@.seek_drag && bits::le(bits::ZERO, self@.seek_pos) && bits::le(
                self@.seek_pos,
                total_s,
            ) ==> r == self@.seek_pos,
            !self@.seek_drag && bits::le(bits::ZERO, play_s) && bits::le(play_s, total_s) ==> r
                == play_s,
            !self@.seek_drag && bits::lt(total_s, play_s) && bits::le(SHORTEST_SCRUB, total_s)
                ==> r == total_s,
    {
        proof {
            lemma_knob_limits();
        }
        let pos: u32 = if self.seek_drag {
            self.seek_pos
        } else {
            play_s
        };
        let end: u32 = bits::max_of(total_s, SHORTEST_SCRUB);
        bits::clamp(pos, bits::ZERO, end)
    }

    /// The user takes hold of the scrubber.
    pub fn scrub_started(&mut self)
        ensures
            final(self)@ == (AppView { seek_drag: true, ..old(self)@ }),
    {
        self.seek_drag = true;
    }

    /// The user drags the scrubber to `pos` seconds, which is `target` milliseconds,
    /// in a file of `whole_seconds` full seconds: the jump is asked for, and the
    /// display follows at once.
    pub fn scrubbed(&mut self, pos: u32, target: u64, whole_seconds: u64)
        requires
            whole_seconds * 1000 <= u64::MAX,
        ensures
            final(self)@ == (AppView {
                seek_pos: pos,
                state: StateView {
                    seek_ms: target,
                    play_ms: if target < whole_seconds * 1000 {
                        target
                    } else {
                        (whole_seconds * 1000) as u64
                    },
                    ..old(self)@.state
                },
                ..old(self)@
            }),
            final(self)@.state.play_ms <= target,
            final(self)@.state.play_ms <= whole_seconds * 1000,
            target <= whole_seconds * 1000 ==> final(self)@.state.play_ms == target,
            target >= whole_seconds * 1000 ==> final(self)@.state.play_ms == whole_seconds * 1000,
    {
        self.seek_pos = pos;
        self.state.seek_to_ms(target);
        let end: u64 = whole_seconds * 1000;
        self.state.play_ms = if target < end {
            target
        } else {
            end
        };
    }

    /// The user lets go of the scrubber.
    pub fn scrub_released(&mut self)
        ensures
            final(self)@ == (AppView { seek_drag: false, ..old(self)@ }),
    {
        self.seek_drag = false;
    }

    /// The ends of the volume fader and the volume it shows. `floor` is the lowest
    /// end it may have.
    pub fn fader(&self, floor: u32) -> (r: (u32, u32, u32))
        requires
            bits::le(self@.settings.vol_min, floor),
        ensures
            r.0 == self@.settings.vol_min,
            r.1 == bits::larger(self@.settings.vol_max, floor),
            r.2 == bits::clamped(self@.volume_gain, r.0, r.1),
            bits::le(r.0, r.1),
            bits::le(floor, self@.settings.vol_max) ==> r.1 == self@.settings.vol_max,
            bits::lt(self@.settings.vol_max, floor) ==> r.1 == floor,
            bits::le(r.0, self@.volume_gain) && bits::le(self@.volume_gain, r.1) ==> r.2
                == self@.volume_gain,
            bits::lt(self@.volume_gain, r.0) ==> r.2 == r.0,
            bits::lt(r.1, self@.volume_gain) ==> r.2 == r.1,
    {
        let lo: u32 = self.settings.vol_min;
        let hi: u32 = bits::max_of(self.settings.vol_max, floor);
        (lo, hi, bits::clamp(self.volume_gain, lo, hi))
    }

    /// Sets the master volume.
    pub fn set_volume(&mut self, v: u32)
        ensures
            final(self)@ == (AppView {
                volume_gain: v,
                state: StateView { master_gain: v, ..old(self)@.state },
                ..old(self)@
            }),
    {
        self.volume_gain = v;
        self.state.master_gain = v;
    }

    /// Whether the input meter shows a signal.
    pub fn input_is_live(&self) -> (r: bool)
        ensures
            r == bits::lt(METER_FLOOR, self@.state.input_peak),
    {
        bits::less(METER_FLOOR, self.state.input_peak)
    }

    /// The level that bar `i` of the display moves to: silence while no engine runs
    /// and the idle animation is on, otherwise what the analyzer shows.
    pub fn bar_target(&self, i: usize) -> (r: u32)
        requires
            self.wf(),
            i < NUM_BARS,
        ensures
            r == if self@.engine is None && self@.settings.idle_anim {
                bits::ZERO
            } else {
                self@.state.spectrum[i as int]
            },
    {
        if self.engine.is_none() && self.settings.idle_anim {
            bits::ZERO
        } else {
            self.state.spectrum[i]
        }
    }

    /// Whether bar `i` rises towards its target, which it does fast, or falls, which
    /// it does slowly.
    pub fn bar_rises(&self, i: usize, target: u32) -> (r: bool)
        requires
            self.wf(),
            i < NUM_BARS,
        ensures
            r == bits::le(self@.vis_levels[i as int], target),
    {
        let cur: u32 = self.vis_levels[i];
        !bits::is_nan(cur) && !bits::is_nan(target) && !bits::less(target, cur)
    }

    /// Whether no bar of the display reaches the level below which they rest.
    pub fn bars_rest(&self) -> (r: bool)
        ensures
            r == self@.bars_at_rest(),
    {
        let mut i: usize = 0;
        while i < self.vis_levels.len()
            invariant
                i <= self.vis_levels@.len(),
                forall|k: int| 0 <= k < i ==> !bits::le(IDLE_LEVEL, #[trigger] self.vis_levels@[k]),
            decreases self.vis_levels@.len() - i,
        {
            let level: u32 = self.vis_levels[i];
            if !bits::is_nan(level) && !bits::less(level, IDLE_LEVEL) {
                assert(bits::le(IDLE_LEVEL, self@.vis_levels[i as int]));
                return false;
            }
            i = i + 1;
        }
        true
    }

    /// The level that bar `i` is drawn at: at least `wobble` while the bars rest and
    /// the idle animation is on.
    pub fn bar_shown(&self, i: usize, wobble: u32) -> (r: u32)
        requires
            self.wf(),
            i < NUM_BARS,
        ensures
            r == if self@.settings.idle_anim && self@.bars_at_rest() {
                bits::larger(self@.vis_levels[i as int], wobble)
            } else {
                self@.vis_levels[i as int]
            },
    {
        let level: u32 = self.vis_levels[i];
        if self.settings.idle_anim && self.bars_rest() {
            bits::max_of(level, wobble)
        } else {
            level
        }
    }

    /// Moves bar `i` to `next`. Its peak-hold line jumps up with the bar and drops
    /// to `dropped` where the bar is below it.
    pub fn move_bar(&mut self, i: usize, next: u32, dropped: u32)
        requires
            old(self).wf(),
            i < NUM_BARS,
        ensures
            final(self)@ == (AppView {
                vis_levels: old(self)@.vis_levels.update(i as int, next),
                vis_peaks: old(self)@.vis_peaks.update(
                    i as int,
                    if bits::le(old(self)@.vis_peaks[i as int], next) {
                        next
                    } else {
                        dropped
                    },
                ),
                ..old(self)@
            }),
            final(self).wf(),
            final(self)@.vis_levels[i as int] == next,
            bits::le(old(self)@.vis_peaks[i as int], next) ==> final(self)@.vis_peaks[i as int]
                == next,
            bits::lt(next, old(self)@.vis_peaks[i as int]) ==> final(self)@.vis_peaks[i as int]
                == dropped,
            forall|k: int|
                0 <= k < NUM_BARS && k != i ==> #[trigger] final(self)@.vis_levels[k] == old(
                    self,
                )@.vis_levels[k] && final(self)@.vis_peaks[k] == old(self)@.vis_peaks[k],
    {
        self.vis_levels.set(i, next);
        let p: u32 = self.vis_peaks[i];
        let held: u32 = if !bits::is_nan(p) && !bits::is_nan(next) && !bits::less(next, p) {
            next
        } else {
            dropped
        };
        self.vis_peaks.set(i, held);
    }
}

/// Whether a meter reading is shown as silence.
pub fn meter_is_silent(level: u32) -> (r: bool)
    ensures
        r == bits::le(level, METER_FLOOR),
{
    !bits::is_nan(level) && !bits::less(METER_FLOOR, level)
}

/// The dot that a click picks is the only one that is picked: no two dots are both
/// nearest.
pub proof fn law_one_dot_is_nearest(distances: Seq<u32>, max_dist: u32, i: int, j: int)
    requires
        is_nearest(distances, max_dist, i),
        is_nearest(distances, max_dist, j),
    ensures
        i == j,
{
    assert(!bits::lt(distances[i], distances[j]) && !bits::lt(distances[j], distances[i]));
}

/// The wheel turns one number of one band and keeps it within its limits: a
/// frequency on the graph, a gain on the graph, in console mode on the desk, and a
/// bandwidth from 0.1 to 10, in console mode from 0.5 to 5.
pub proof fn law_wheel_stays_in_limits(
    a: AppView,
    n: usize,
    shift: bool,
    ctrl: bool,
    proposed: u32,
    i: int,
)
    requires
        a.state.wf(),
        n < MAX_BANDS,
        0 <= i < MAX_BANDS,
        !bits::nan(proposed),
        wheel_target(shift, ctrl) is Gain ==> bits::le(a.wheel_low(), a.wheel_high()),
    ensures
        i != n ==> a.wheel_turned(n, shift, ctrl, proposed).state.bands[i] == a.state.bands[i],
        a.wheel_turned(n, shift, ctrl, proposed).settings == a.settings,
        ({
            let band = a.wheel_turned(n, shift, ctrl, proposed).state.bands[n as int];
            match wheel_target(shift, ctrl) {
                BandKnob::Frequency => bits::le(MIN_FREQ, band.freq_hz) && bits::le(
                    band.freq_hz,
                    MAX_FREQ,
                ),
                BandKnob::Gain => bits::le(a.wheel_low(), band.gain_db) && bits::le(
                    band.gain_db,
                    a.wheel_high(),
                ),
                BandKnob::Bandwidth => bits::le(a.q_low(), band.q) && bits::le(band.q, a.q_high()),
            }
        }),
{
    lemma_knob_limits();
}

proof fn lemma_flat_desk(a: AppView, i: int)
    requires
        0 <= i < CONSOLE_BANDS,
        a.state.bands[i] == audio::flat_band(audio::console_spot(i), true),
    ensures
        a.desk_band(i),
{
    lemma_knob_limits();
    config::lemma_limits();
    bits::lemma_order_of_patterns(CONSOLE_Q_MIN, bits::ONE);
    bits::lemma_order_of_patterns(bits::ONE, CONSOLE_Q_MAX);
}

/// Console mode is a desk from the start: after it is switched on, after settings
/// with it were loaded, after the settings were reset and after flattening.
pub proof fn law_console_mode_is_a_desk(a: AppView, vol_floor: u32)
    requires
        a.wf(),
    ensures
        !a.settings.console_mode ==> a.with_console_mode(true).is_desk(),
        a.settings.console_mode ==> a.with_settings_in_effect(vol_floor).is_desk(),
        a.settings.console_mode ==> a.with_settings_reset().is_desk(),
        a.is_desk() ==> a.flattened().is_desk(),
{
    config::lemma_limits();
    let x = a.with_console_mode(true);
    let y = a.with_settings_in_effect(vol_floor);
    let z = a.with_settings_reset();
    let w = a.flattened();
    assert forall|i: int| 0 <= i < CONSOLE_BANDS && !a.settings.console_mode implies #[trigger]
        x.desk_band(i) by {
        lemma_flat_desk(x, i);
    }
    assert forall|i: int| 0 <= i < CONSOLE_BANDS && a.settings.console_mode implies #[trigger]
        y.desk_band(i) by {
        lemma_flat_desk(y, i);
    }
    assert forall|i: int| 0 <= i < CONSOLE_BANDS && a.settings.console_mode implies #[trigger]
        z.desk_band(i) by {
        lemma_flat_desk(z, i);
    }
    assert forall|i: int| 0 <= i < CONSOLE_BANDS && a.settings.console_mode implies #[trigger]
        w.desk_band(i) by {
        lemma_flat_desk(w, i);
    }
}

/// The strip stays a desk whatever is turned on it: the wheel over a dot, a dot that
/// is dragged, a knob of a tile or the switch of a band.
pub proof fn law_turning_keeps_the_desk(
    a: AppView,
    n: usize,
    shift: bool,
    ctrl: bool,
    proposed: u32,
    freq: u32,
    gain: u32,
    on: bool,
)
    requires
        a.wf(),
        a.is_desk(),
        n < CONSOLE_BANDS,
        !bits::nan(proposed),
        !bits::nan(gain),
    ensures
        a.wheel_turned(n, shift, ctrl, proposed).is_desk(),
        a.dot_dragged(freq, gain).is_desk(),
        a.with_band(
            n as int,
            turned(
                a.state.bands[n as int],
                BandKnob::Gain,
                bits::clamped(proposed, a.settings.db_min, a.settings.db_max),
            ),
        ).is_desk(),
        a.with_band(
            n as int,
            turned(
                a.state.bands[n as int],
                BandKnob::Bandwidth,
                bits::clamped(proposed, a.q_low(), a.q_high()),
            ),
        ).is_desk(),
        a.with_band(n as int, turned(a.state.bands[n as int], BandKnob::Frequency, freq)).is_desk(),
        a.with_band(
            n as int,
            BandParams { enabled: on, ..a.state.bands[n as int] },
        ).is_desk(),
{
    lemma_knob_limits();
    assert(a.desk_band(n as int));
    let band = a.state.bands[n as int];
    let v = a.wheel_value(shift, ctrl, proposed);
    lemma_desk_with_band(a, n as int, turned(band, wheel_target(shift, ctrl), v));
    assert(a.wheel_turned(n, shift, ctrl, proposed).state == a.with_band(
        n as int,
        turned(band, wheel_target(shift, ctrl), v),
    ).state);
    assert forall|i: int| 0 <= i < CONSOLE_BANDS implies #[trigger] a.wheel_turned(
        n,
        shift,
        ctrl,
        proposed,
    ).desk_band(i) by {
        assert(a.with_band(n as int, turned(band, wheel_target(shift, ctrl), v)).desk_band(i));
    }
    let g = bits::clamped(proposed, a.settings.db_min, a.settings.db_max);
    lemma_desk_with_band(a, n as int, turned(band, BandKnob::Gain, g));
    let q = bits::clamped(proposed, a.q_low(), a.q_high());
    lemma_desk_with_band(a, n as int, turned(band, BandKnob::Bandwidth, q));
    lemma_desk_with_band(a, n as int, turned(band, BandKnob::Frequency, freq));
    lemma_desk_with_band(a, n as int, BandParams { enabled: on, ..band });
    if let Some(k) = a.selected {
        assert(k < CONSOLE_BANDS ==> a.desk_band(k as int));
        let dragged = BandParams {
            freq_hz: freq,
            gain_db: bits::clamped(gain, a.settings.db_min, a.settings.db_max),
            ..a.state.bands[k as int]
        };
        lemma_desk_with_band(a, k as int, dragged);
    }
}

/// A desk with another band in slot `n` is a desk where that band fits, or where the
/// slot is past the desk's bands.
proof fn lemma_desk_with_band(a: AppView, n: int, band: BandParams)
    requires
        a.wf(),
        a.is_desk(),
        0 <= n < MAX_BANDS,
        n < CONSOLE_BANDS ==> {
            &&& band.kind == a.state.bands[n].kind
            &&& bits::le(CONSOLE_DB_MIN, band.gain_db) && bits::le(band.gain_db, CONSOLE_DB_MAX)
            &&& bits::le(CONSOLE_Q_MIN, band.q) && bits::le(band.q, CONSOLE_Q_MAX)
        },
    ensures
        a.with_band(n, band).is_desk(),
{
    let b = a.with_band(n, band);
    assert forall|i: int| 0 <= i < CONSOLE_BANDS implies #[trigger] b.desk_band(i) by {
        assert(a.desk_band(i));
    }
}

/// Whatever the settings window can change in console mode keeps the desk, unless it
/// leaves the mode; the buttons for bands are locked.
pub proof fn law_settings_window_keeps_the_desk(a: AppView, change: SettingsChange)
    requires
        a.wf(),
        a.is_desk(),
        a.allows(change),
        change matches SettingsChange::Console { on } ==> on,
    ensures
        a.after(change).is_desk(),
        !a.removes_in_window(),
        !a.adds_in_window(),
{
    law_console_mode_is_a_desk(a, bits::ZERO);
    let b = a.after(change);
    if !(change is Reset) {
        assert forall|i: int| 0 <= i < CONSOLE_BANDS implies #[trigger] b.desk_band(i) by {
            assert(a.desk_band(i));
        }
    }
}

/// A knob that was turned stands within its range, whatever it was turned by.
pub proof fn law_knob_stays_in_range(
    v: u32,
    scrolled: Option<u32>,
    dragged: Option<u32>,
    lo: u32,
    hi: u32,
)
    requires
        bits::le(lo, hi),
        scrolled matches Some(s) ==> !bits::nan(s),
        dragged matches Some(d) ==> !bits::nan(d),
        scrolled is Some || dragged is Some,
    ensures
        bits::le(lo, knob_after(v, scrolled, dragged, lo, hi)),
        bits::le(knob_after(v, scrolled, dragged, lo, hi), hi),
{
}

/// Dragging moves the selected dot only, and keeps it on the graph.
pub proof fn law_dragged_dot_stays_on_the_graph(a: AppView, freq: u32, gain: u32, i: int)
    requires
        a.state.wf(),
        0 <= i < MAX_BANDS,
        a.selected matches Some(n) ==> n < MAX_BANDS,
        !bits::nan(gain),
        bits::le(a.settings.db_min, a.settings.db_max),
    ensures
        a.selected != Some(i as usize) ==> a.dot_dragged(freq, gain).state.bands[i]
            == a.state.bands[i],
        a.selected == Some(i as usize) ==> {
            let band = a.dot_dragged(freq, gain).state.bands[i];
            &&& band.freq_hz == freq
            &&& bits::le(a.settings.db_min, band.gain_db)
            &&& bits::le(band.gain_db, a.settings.db_max)
        },
{
}

/// A dragged dot goes where it is dragged: to the frequency, and to the gain bit for bit
/// where it lies between the floor and the roof of the graph, to the floor where it is
/// below and to the roof where it is above. The bandwidth, the shape and the switch of the
/// band stay, and so does everything else; with nothing selected nothing moves.
pub proof fn law_dragged_dot_goes_where_it_is_dragged(a: AppView, freq: u32, gain: u32, i: int)
    requires
        a.wf(),
        bits::le(a.settings.db_min, a.settings.db_max),
        0 <= i < MAX_BANDS,
    ensures
        ({
            let b = a.dot_dragged(freq, gain);
            let was = a.state.bands[i];
            let is = b.state.bands[i];
            let g = bits::value(gain);
            let floor = bits::value(a.settings.db_min);
            let roof = bits::value(a.settings.db_max);
            &&& a.selected is None ==> b == a
            &&& b == (AppView {
                state: StateView { bands: b.state.bands, ..a.state },
                ..a
            })
            &&& b.state.bands.len() == a.state.bands.len()
            &&& a.selected != Some(i as usize) ==> is == was
            &&& a.selected == Some(i as usize) ==> {
                &&& is.freq_hz == freq
                &&& is.q == was.q
                &&& is.kind == was.kind
                &&& is.enabled == was.enabled
                &&& bits::nan(gain) ==> is.gain_db == gain
                &&& !bits::nan(gain) && floor <= g <= roof ==> is.gain_db == gain
                &&& !bits::nan(gain) && g < floor ==> is.gain_db == a.settings.db_min
                &&& !bits::nan(gain) && g > roof ==> is.gain_db == a.settings.db_max
            }
        }),
{
    bits::law_clamp_moves_only_what_is_outside(gain, a.settings.db_min, a.settings.db_max);
}

/// A knob shows the number that it was turned to, and turning it leaves what the other
/// knobs show, the shape and the switch as they are. The gain knob shows the gain, the
/// frequency knob the frequency and the bandwidth knob the Q.
pub proof fn law_knobs_turn_one_number(band: BandParams, k: BandKnob, other: BandKnob, v: u32)
    ensures
        knob_number(turned(band, k, v), k) == v,
        other != k ==> knob_number(turned(band, k, v), other) == knob_number(band, other),
        turned(band, k, v).kind == band.kind,
        turned(band, k, v).enabled == band.enabled,
        knob_number(band, BandKnob::Gain) == band.gain_db,
        knob_number(band, BandKnob::Frequency) == band.freq_hz,
        knob_number(band, BandKnob::Bandwidth) == band.q,
        turned(band, k, knob_number(band, k)) == band,
{
}

/// Two numbers are the same exactly if neither is below the other; a pattern that is no
/// number is the same as nothing, itself included.
pub proof fn law_same_numbers_do_not_differ(a: u32, b: u32)
    ensures
        !differ(a, b) <==> bits::le(a, b) && bits::le(b, a),
        bits::nan(a) ==> differ(a, a),
        !bits::nan(a) ==> !differ(a, a),
        differ(a, b) <==> differ(b, a),
{
}

/// Another band in one slot leaves the other slots and everything else as they are.
pub proof fn law_one_slot_is_replaced(a: AppView, n: int, band: BandParams, i: int)
    requires
        a.state.wf(),
        0 <= n < MAX_BANDS,
        0 <= i < MAX_BANDS,
    ensures
        ({
            let b = a.with_band(n, band);
            &&& b.state.bands.len() == a.state.bands.len()
            &&& b.state.bands[n] == band
            &&& i != n ==> b.state.bands[i] == a.state.bands[i]
            &&& b == (AppView {
                state: StateView { bands: b.state.bands, ..a.state },
                ..a
            })
        }),
{
}

/// The graph goes from 20 Hz to 20 kHz. A bandwidth goes up to Q 10, on the desk from
/// Q 0.5 up to Q 5; the desk's graph goes from -15 dB to 15 dB.
pub proof fn law_control_limits(a: AppView)
    ensures
        bits::value(MIN_FREQ) == bits::units(20),
        bits::value(MAX_FREQ) == bits::units(20000),
        a.settings.console_mode ==> 2 * bits::value(a.q_low()) == bits::units(1),
        a.settings.console_mode ==> bits::value(a.q_high()) == bits::units(5),
        !a.settings.console_mode ==> bits::value(a.q_high()) == bits::units(10),
        !a.settings.console_mode ==> a.q_low() == Q_MIN,
        a.settings.console_mode ==> bits::value(a.wheel_low()) == -bits::units(15),
        a.settings.console_mode ==> bits::value(a.wheel_high()) == bits::units(15),
        !a.settings.console_mode ==> a.wheel_low() == a.settings.db_min,
        !a.settings.console_mode ==> a.wheel_high() == a.settings.db_max,
{
    vstd::arithmetic::power2::lemma2_to64();
    bits::lemma_whole_number(MIN_FREQ, 20, 131, 0x20_0000, 4);
    bits::lemma_whole_number(MAX_FREQ, 20000, 141, 0x1c_4000, 14);
    bits::lemma_whole_number(Q_MAX, 10, 130, 0x20_0000, 3);
    bits::lemma_whole_number(CONSOLE_Q_MAX, 5, 129, 0x20_0000, 2);
    bits::lemma_whole_number(CONSOLE_DB_MAX, 15, 130, 0x70_0000, 3);
    assert(bits::magnitude(CONSOLE_DB_MIN) == CONSOLE_DB_MAX);
    vstd::arithmetic::power2::lemma_pow2_adds(24, 125);
    assert(bits::magnitude(CONSOLE_Q_MIN) == 126 * 0x80_0000);
    assert(bits::value(CONSOLE_Q_MIN) == 0x80_0000 * vstd::arithmetic::power2::pow2(125));
}

/// A knob that is dragged goes where it is dragged, whatever the wheel does; one that is
/// only scrolled goes where it is scrolled; one that is left alone stays, even outside its
/// range. Within the range it stands where it was taken, bit for bit, and past an end of the
/// range at that end.
pub proof fn law_knob_goes_where_it_is_turned(
    v: u32,
    scrolled: Option<u32>,
    dragged: Option<u32>,
    lo: u32,
    hi: u32,
    to: u32,
)
    requires
        bits::le(lo, hi),
        dragged == Some(to) || (dragged is None && scrolled == Some(to)),
    ensures
        ({
            let r = knob_after(v, scrolled, dragged, lo, hi);
            &&& bits::nan(to) ==> r == to
            &&& !bits::nan(to) && bits::value(lo) <= bits::value(to) <= bits::value(hi) ==> r == to
            &&& !bits::nan(to) && bits::value(to) < bits::value(lo) ==> r == lo
            &&& !bits::nan(to) && bits::value(to) > bits::value(hi) ==> r == hi
        }),
        knob_after(v, None, None, lo, hi) == v,
{
    bits::law_clamp_moves_only_what_is_outside(to, lo, hi);
}

/// The wheel sets the gain of the band under it, with shift its frequency, with ctrl alone
/// its bandwidth: to the number that was proposed, bit for bit, where that lies within the
/// limits, and otherwise to the nearer limit. Nothing else of the band moves. In console
/// mode the band is selected; otherwise the selection stays.
pub proof fn law_wheel_sets_what_is_proposed(
    a: AppView,
    n: usize,
    shift: bool,
    ctrl: bool,
    proposed: u32,
    lo: u32,
    hi: u32,
)
    requires
        a.wf(),
        n < MAX_BANDS,
        bits::le(lo, hi),
        shift ==> lo == MIN_FREQ && hi == MAX_FREQ,
        !shift && ctrl && a.settings.console_mode ==> lo == CONSOLE_Q_MIN && hi == CONSOLE_Q_MAX,
        !shift && ctrl && !a.settings.console_mode ==> lo == Q_MIN && hi == Q_MAX,
        !shift && !ctrl && a.settings.console_mode ==> lo == CONSOLE_DB_MIN && hi
            == CONSOLE_DB_MAX,
        !shift && !ctrl && !a.settings.console_mode ==> lo == a.settings.db_min && hi
            == a.settings.db_max,
    ensures
        ({
            let b = a.wheel_turned(n, shift, ctrl, proposed);
            let was = a.state.bands[n as int];
            let is = b.state.bands[n as int];
            let set = a.wheel_value(shift, ctrl, proposed);
            &&& bits::nan(proposed) ==> set == proposed
            &&& !bits::nan(proposed) && bits::value(lo) <= bits::value(proposed) <= bits::value(hi)
                ==> set == proposed
            &&& !bits::nan(proposed) && bits::value(proposed) < bits::value(lo) ==> set == lo
            &&& !bits::nan(proposed) && bits::value(proposed) > bits::value(hi) ==> set == hi
            &&& is.freq_hz == if shift {
                set
            } else {
                was.freq_hz
            }
            &&& is.q == if !shift && ctrl {
                set
            } else {
                was.q
            }
            &&& is.gain_db == if !shift && !ctrl {
                set
            } else {
                was.gain_db
            }
            &&& is.kind == was.kind
            &&& is.enabled == was.enabled
            &&& a.settings.console_mode ==> b.selected == Some(n)
            &&& !a.settings.console_mode ==> b.selected == a.selected
            &&& b.state.bands.len() == a.state.bands.len()
            &&& forall|i: int|
                0 <= i < MAX_BANDS && i != n ==> #[trigger] b.state.bands[i] == a.state.bands[i]
            &&& b == (AppView {
                state: StateView { bands: b.state.bands, ..a.state },
                selected: b.selected,
                ..a
            })
        }),
{
    bits::law_clamp_moves_only_what_is_outside(proposed, lo, hi);
}

/// One bar at the level or above wakes the display, and it rests where there is none. The
/// level is the last number up to 0.02.
pub proof fn law_one_loud_bar_wakes_the_display(a: AppView, i: int)
    ensures
        0 <= i < a.vis_levels.len() && !bits::nan(a.vis_levels[i]) && bits::value(a.vis_levels[i])
            >= bits::value(IDLE_LEVEL) ==> !a.bars_at_rest(),
        !a.bars_at_rest() ==> exists|k: int|
            0 <= k < a.vis_levels.len() && !bits::nan(#[trigger] a.vis_levels[k]) && bits::value(
                a.vis_levels[k],
            ) >= bits::value(IDLE_LEVEL),
        bits::value(IDLE_LEVEL) * 50 <= bits::units(1) < bits::value((IDLE_LEVEL + 1) as u32) * 50,
{
    assert(bits::magnitude(IDLE_LEVEL) == 121 * 0x80_0000 + 0x23_d70a);
    vstd::arithmetic::power2::lemma2_to64();
    vstd::arithmetic::power2::lemma_pow2_adds(29, 120);
    vstd::arithmetic::power2::lemma_pow2_pos(120);
    assert(!bits::nan(IDLE_LEVEL));
    let p = vstd::arithmetic::power2::pow2(120) as int;
    assert(bits::value(IDLE_LEVEL) == 0xa3_d70a * p);
    assert(bits::value((IDLE_LEVEL + 1) as u32) == 0xa3_d70b * p);
    assert(bits::units(1) == 0x2000_0000 * p);
}

/// No dot is nearer than the one that is picked, it is within reach, and of dots equally
/// near it is the first.
pub proof fn law_nearest_dot_is_nearest(distances: Seq<u32>, max_dist: u32, i: int, j: int)
    requires
        is_nearest(distances, max_dist, i),
        0 <= j < distances.len(),
        !bits::nan(distances[j]),
    ensures
        0 <= i < distances.len(),
        !bits::nan(distances[i]) && !bits::nan(max_dist),
        bits::value(distances[i]) < bits::value(max_dist),
        bits::value(distances[i]) <= bits::value(distances[j]),
        bits::value(distances[i]) == bits::value(distances[j]) ==> i <= j,
{
    assert(!bits::lt(distances[j], distances[i]));
}

/// The limits that are no whole numbers: the widest bandwidth is the first number from
/// 0.1 on, a meter is silent up to the last number below 0.0001, and the shortest scrubber
/// is the first number from 0.001 on.
pub proof fn law_fractional_limits()
    ensures
        bits::value((Q_MIN - 1) as u32) * 10 < bits::units(1) <= bits::value(Q_MIN) * 10,
        bits::value(METER_FLOOR) * 10000 <= bits::units(1) < bits::value((METER_FLOOR + 1) as u32)
            * 10000,
        bits::value((SHORTEST_SCRUB - 1) as u32) * 1000 < bits::units(1) <= bits::value(
            SHORTEST_SCRUB,
        ) * 1000,
{
    vstd::arithmetic::power2::lemma2_to64();
    vstd::arithmetic::power2::lemma2_to64_rest();
    vstd::arithmetic::power2::lemma_pow2_adds(27, 122);
    vstd::arithmetic::power2::lemma_pow2_adds(37, 112);
    vstd::arithmetic::power2::lemma_pow2_adds(33, 116);
    vstd::arithmetic::power2::lemma_pow2_pos(122);
    vstd::arithmetic::power2::lemma_pow2_pos(112);
    vstd::arithmetic::power2::lemma_pow2_pos(116);
    let q = vstd::arithmetic::power2::pow2(122) as int;
    let m = vstd::arithmetic::power2::pow2(112) as int;
    let t = vstd::arithmetic::power2::pow2(116) as int;
    assert(bits::magnitude(Q_MIN) == 123 * 0x80_0000 + 0x4c_cccd);
    assert(bits::value(Q_MIN) == 0xcc_cccd * q);
    assert(bits::value((Q_MIN - 1) as u32) == 0xcc_cccc * q);
    assert(bits::units(1) == 0x800_0000 * q);
    assert(bits::magnitude(METER_FLOOR) == 113 * 0x80_0000 + 0x51_b717);
    assert(bits::value(METER_FLOOR) == 0xd1_b717 * m);
    assert(bits::value((METER_FLOOR + 1) as u32) == 0xd1_b718 * m);
    assert(bits::units(1) == 0x20_0000_0000 * m);
    assert(bits::magnitude(SHORTEST_SCRUB) == 117 * 0x80_0000 + 0x03_126f);
    assert(bits::value(SHORTEST_SCRUB) == 0x83_126f * t);
    assert(bits::value((SHORTEST_SCRUB - 1) as u32) == 0x83_126e * t);
    assert(bits::units(1) == 0x2_0000_0000 * t);
}

} // verus!
