//! The band strip and the state that the user interface and the audio
//! callbacks share.

use crate::bits;
use crate::filter::{idx_to_kind, kind_to_idx, FilterKind};
use vstd::prelude::*;

verus! {

/// A band strip always shows the active bands; the strips themselves are
/// preallocated up to this cap so that the audio thread never reallocates.
pub const MAX_BANDS: usize = 256;

/// Default number of active bands shown when the app starts.
pub const NUM_BANDS: usize = 6;

/// Console (training) mode locks the strip to this many bands, like the EQ
/// section of a real mixing desk.
pub const CONSOLE_BANDS: usize = 5;

/// Bars of the spectrum display.
pub const NUM_BARS: usize = 32;

/// Stands for "no seek is pending".
pub const NO_SEEK: u64 = u64::MAX;

pub const HZ_80: u32 = 0x42a0_0000;

pub const HZ_250: u32 = 0x437a_0000;

pub const HZ_400: u32 = 0x43c8_0000;

pub const HZ_1000: u32 = 0x447a_0000;

pub const HZ_2500: u32 = 0x451c_4000;

pub const HZ_3000: u32 = 0x453b_8000;

pub const HZ_6000: u32 = 0x45bb_8000;

pub const HZ_8000: u32 = 0x45fa_0000;

pub const HZ_12000: u32 = 0x463b_8000;

pub const HZ_16000: u32 = 0x467a_0000;

pub const HZ_48000: u32 = 0x473b_8000;

/// One EQ band's parameters. Frequency (Hz), gain (dB) and Q are bit patterns,
/// the shape is an index into the list of shapes.
#[derive(Clone, Copy, PartialEq, Eq, Structural, Debug)]
pub struct BandParams {
    pub freq_hz: u32,
    pub gain_db: u32,
    pub q: u32,
    pub kind: u8,
    pub enabled: bool,
}

impl BandParams {
    fn new(freq_hz: u32, gain_db: u32, q: u32, kind: FilterKind) -> (r: Self)
        ensures
            r == (BandParams { freq_hz, gain_db, q, kind: kind.index(), enabled: true }),
    {
        BandParams { freq_hz, gain_db, q, kind: kind_to_idx(kind), enabled: true }
    }

    pub fn freq(&self) -> (r: u32)
        ensures
            r == self.freq_hz,
    {
        self.freq_hz
    }

    pub fn set_freq(&mut self, v: u32)
        ensures
            *final(self) == (BandParams { freq_hz: v, ..*old(self) }),
    {
        self.freq_hz = v;
    }

    pub fn gain(&self) -> (r: u32)
        ensures
            r == self.gain_db,
    {
        self.gain_db
    }

    pub fn set_gain(&mut self, v: u32)
        ensures
            *final(self) == (BandParams { gain_db: v, ..*old(self) }),
    {
        self.gain_db = v;
    }

    pub fn q(&self) -> (r: u32)
        ensures
            r == self.q,
    {
        self.q
    }

    pub fn set_q(&mut self, v: u32)
        ensures
            *final(self) == (BandParams { q: v, ..*old(self) }),
    {
        self.q = v;
    }

    pub fn kind(&self) -> (r: FilterKind)
        ensures
            r == FilterKind::at(self.kind),
    {
        idx_to_kind(self.kind)
    }

    pub fn set_kind(&mut self, k: FilterKind)
        ensures
            *final(self) == (BandParams { kind: k.index(), ..*old(self) }),
            FilterKind::at(final(self).kind) == k,
    {
        self.kind = kind_to_idx(k);
    }

    pub fn enabled(&self) -> (r: bool)
        ensures
            r == self.enabled,
    {
        self.enabled
    }

    pub fn set_enabled(&mut self, on: bool)
        ensures
            *final(self) == (BandParams { enabled: on, ..*old(self) }),
    {
        self.enabled = on;
    }
}

/// The default frequency and shape of each band slot. The first six are the
/// classic starting layout; extra slots repeat four more spots.
pub open spec fn spot(i: int) -> (u32, FilterKind) {
    if i == 0 {
        (HZ_80, FilterKind::HighPass)
    } else if i == 1 {
        (HZ_250, FilterKind::Peak)
    } else if i == 2 {
        (HZ_1000, FilterKind::Peak)
    } else if i == 3 {
        (HZ_2500, FilterKind::Peak)
    } else if i == 4 {
        (HZ_6000, FilterKind::Peak)
    } else if i == 5 {
        (HZ_12000, FilterKind::HighShelf)
    } else if (i - 6) % 4 == 0 {
        (HZ_400, FilterKind::Peak)
    } else if (i - 6) % 4 == 1 {
        (HZ_3000, FilterKind::Peak)
    } else if (i - 6) % 4 == 2 {
        (HZ_8000, FilterKind::Peak)
    } else {
        (HZ_16000, FilterKind::HighShelf)
    }
}

/// The frequency and shape of each band of the console strip.
pub open spec fn console_spot(i: int) -> (u32, FilterKind) {
    if i == 0 {
        (HZ_80, FilterKind::LowShelf)
    } else if i == 1 {
        (HZ_400, FilterKind::Peak)
    } else if i == 2 {
        (HZ_1000, FilterKind::Peak)
    } else if i == 3 {
        (HZ_3000, FilterKind::Peak)
    } else {
        (HZ_12000, FilterKind::HighShelf)
    }
}

/// A band at a spot, at 0 dB and Q 1.
pub open spec fn flat_band(at: (u32, FilterKind), enabled: bool) -> BandParams {
    BandParams {
        freq_hz: at.0,
        gain_db: bits::ZERO,
        q: bits::ONE,
        kind: at.1.index(),
        enabled,
    }
}

/// The strip as the app starts: every slot at its default spot, the first
/// `NUM_BANDS` of them enabled.
pub open spec fn default_strip() -> Seq<BandParams> {
    Seq::new(MAX_BANDS as nat, |i: int| flat_band(spot(i), i < NUM_BANDS))
}

/// The frequencies of the layouts, in Hz.
pub proof fn law_layout_frequencies()
    ensures
        bits::value(HZ_80) == bits::units(80),
        bits::value(HZ_250) == bits::units(250),
        bits::value(HZ_400) == bits::units(400),
        bits::value(HZ_1000) == bits::units(1000),
        bits::value(HZ_2500) == bits::units(2500),
        bits::value(HZ_3000) == bits::units(3000),
        bits::value(HZ_6000) == bits::units(6000),
        bits::value(HZ_8000) == bits::units(8000),
        bits::value(HZ_12000) == bits::units(12000),
        bits::value(HZ_16000) == bits::units(16000),
        bits::value(HZ_48000) == bits::units(48000),
        bits::value(bits::ZERO) == 0,
        bits::value(bits::ONE) == bits::units(1),
{
    vstd::arithmetic::power2::lemma2_to64();
    bits::lemma_whole_number(HZ_80, 80, 133, 0x20_0000, 6);
    bits::lemma_whole_number(HZ_250, 250, 134, 0x7a_0000, 7);
    bits::lemma_whole_number(HZ_400, 400, 135, 0x48_0000, 8);
    bits::lemma_whole_number(HZ_1000, 1000, 136, 0x7a_0000, 9);
    bits::lemma_whole_number(HZ_2500, 2500, 138, 0x1c_4000, 11);
    bits::lemma_whole_number(HZ_3000, 3000, 138, 0x3b_8000, 11);
    bits::lemma_whole_number(HZ_6000, 6000, 139, 0x3b_8000, 12);
    bits::lemma_whole_number(HZ_8000, 8000, 139, 0x7a_0000, 12);
    bits::lemma_whole_number(HZ_12000, 12000, 140, 0x3b_8000, 13);
    bits::lemma_whole_number(HZ_16000, 16000, 140, 0x7a_0000, 13);
    bits::lemma_whole_number(HZ_48000, 48000, 142, 0x3b_8000, 15);
    bits::lemma_whole_number(bits::ONE, 1, 127, 0, 0);
}

/// Default frequency and shape of band slot `i`.
pub fn band_spot(i: usize) -> (r: (u32, FilterKind))
    ensures
        r == spot(i as int),
{
    if i < 6 {
        match i {
            0 => (HZ_80, FilterKind::HighPass),
            1 => (HZ_250, FilterKind::Peak),
            2 => (HZ_1000, FilterKind::Peak),
            3 => (HZ_2500, FilterKind::Peak),
            4 => (HZ_6000, FilterKind::Peak),
            _ => (HZ_12000, FilterKind::HighShelf),
        }
    } else {
        match (i - 6) % 4 {
            0 => (HZ_400, FilterKind::Peak),
            1 => (HZ_3000, FilterKind::Peak),
            2 => (HZ_8000, FilterKind::Peak),
            _ => (HZ_16000, FilterKind::HighShelf),
        }
    }
}

/// Frequency and shape of band `i` of the console strip: low shelf, three
/// peaking bells, high shelf, like the EQ section of a real desk.
pub fn console_layout(i: usize) -> (r: (u32, FilterKind))
    requires
        i < CONSOLE_BANDS,
    ensures
        r == console_spot(i as int),
{
    match i {
        0 => (HZ_80, FilterKind::LowShelf),
        1 => (HZ_400, FilterKind::Peak),
        2 => (HZ_1000, FilterKind::Peak),
        3 => (HZ_3000, FilterKind::Peak),
        _ => (HZ_12000, FilterKind::HighShelf),
    }
}

/// Default starting layout: a spread across the audible spectrum, one band per
/// slot up to `MAX_BANDS`; beyond the first `NUM_BANDS` they start disabled.
pub fn default_bands() -> (r: Vec<BandParams>)
    ensures
        r@ == default_strip(),
{
    let mut bands: Vec<BandParams> = Vec::new();
    let mut i: usize = 0;
    while i < MAX_BANDS
        invariant
            i <= MAX_BANDS,
            bands@.len() == i,
            forall|j: int| 0 <= j < i ==> #[trigger] bands@[j] == default_strip()[j],
        decreases MAX_BANDS - i,
    {
        let (f, k) = band_spot(i);
        let mut band = BandParams::new(f, bits::ZERO, bits::ONE, k);
        band.set_enabled(i < NUM_BANDS);
        bands.push(band);
        i = i + 1;
    }
    bands
}

/// Whether slot frequencies are given from low to high, no two of them the same.
pub open spec fn rising(slots: Seq<u32>) -> bool {
    forall|a: int, b: int|
        0 <= a < b < slots.len() ==> bits::lt(#[trigger] slots[a], #[trigger] slots[b])
}

/// The shared state as a mathematical value.
#[verifier::ext_equal]
pub struct StateView {
    pub bands: Seq<BandParams>,
    pub band_count: int,
    pub sample_rate: u32,
    pub input_peak: u32,
    pub output_peak: u32,
    pub master_gain: u32,
    pub spectrum: Seq<u32>,
    pub play_ms: u64,
    pub total_ms: u64,
    pub seek_ms: u64,
}

impl StateView {
    /// Every slot is there, and no more bands are active than there are slots.
    pub open spec fn wf(self) -> bool {
        &&& self.bands.len() == MAX_BANDS
        &&& 0 <= self.band_count <= MAX_BANDS
        &&& self.spectrum.len() == NUM_BARS
    }

    /// The state as the app starts.
    pub open spec fn initial() -> StateView {
        StateView {
            bands: default_strip(),
            band_count: NUM_BANDS as int,
            sample_rate: HZ_48000,
            input_peak: bits::ZERO,
            output_peak: bits::ZERO,
            master_gain: bits::ONE,
            spectrum: Seq::new(NUM_BARS as nat, |i: int| bits::ZERO),
            play_ms: 0,
            total_ms: 0,
            seek_ms: NO_SEEK,
        }
    }

    /// One more band at its default spot, unless every slot is in use.
    pub open spec fn with_band_added(self) -> StateView {
        if self.band_count < MAX_BANDS {
            StateView {
                bands: self.bands.update(
                    self.band_count,
                    flat_band(spot(self.band_count), true),
                ),
                band_count: self.band_count + 1,
                ..self
            }
        } else {
            self
        }
    }

    /// One band less, but never none.
    pub open spec fn with_band_removed(self) -> StateView {
        if self.band_count > 1 {
            StateView { band_count: self.band_count - 1, ..self }
        } else {
            self
        }
    }

    /// `n` bands, at least one and at most `MAX_BANDS`; exactly these are enabled.
    pub open spec fn with_band_count(self, n: int) -> StateView {
        let count = if n < 1 {
            1
        } else if n > MAX_BANDS {
            MAX_BANDS as int
        } else {
            n
        };
        StateView {
            bands: Seq::new(
                self.bands.len(),
                |i: int| BandParams { enabled: i < count, ..self.bands[i] },
            ),
            band_count: count,
            ..self
        }
    }

    /// Whether band `j` stands left of band `i`: its frequency is lower, or
    /// the same and its slot comes first.
    pub open spec fn left_of(self, j: int, i: int) -> bool {
        let a = bits::value(self.bands[j].freq_hz);
        let b = bits::value(self.bands[i].freq_hz);
        a < b || (a == b && j < i)
    }

    /// How many of the first `n` bands stand left of band `i`.
    pub open spec fn bands_left_of(self, i: int, n: nat) -> nat
        decreases n,
    {
        if n == 0 {
            0
        } else {
            let before = self.bands_left_of(i, (n - 1) as nat);
            if self.left_of(n - 1, i) {
                before + 1
            } else {
                before
            }
        }
    }

    /// The place of an active band, counted from the lowest frequency.
    pub open spec fn rank(self, i: int) -> nat {
        self.bands_left_of(i, self.band_count as nat)
    }

    /// The active bands can be put in order: the frequencies of two or more of them
    /// are all numbers.
    pub open spec fn sortable(self) -> bool {
        self.band_count > 1 ==> forall|j: int|
            0 <= j < self.band_count ==> !bits::nan(#[trigger] self.bands[j].freq_hz)
    }

    /// Every active band moved to the slot frequency of its rank.
    pub open spec fn spread_over(self, slots: Seq<u32>) -> StateView {
        StateView {
            bands: Seq::new(
                self.bands.len(),
                |i: int|
                    if i < self.band_count {
                        BandParams { freq_hz: slots[self.rank(i) as int], ..self.bands[i] }
                    } else {
                        self.bands[i]
                    },
            ),
            ..self
        }
    }

    /// A jump to `ms` is asked for.
    pub open spec fn with_seek(self, ms: u64) -> StateView {
        StateView { seek_ms: ms, ..self }
    }

    /// Playback stands at the start of a file of `total_ms`, with no seek pending.
    pub open spec fn with_transport(self, total_ms: u64) -> StateView {
        StateView { play_ms: 0, total_ms, seek_ms: NO_SEEK, ..self }
    }

    /// Every band at its default spot, in the classic strip.
    pub open spec fn flat(self) -> StateView {
        StateView { bands: default_strip(), band_count: NUM_BANDS as int, ..self }
    }

    /// The fixed console strip, or the classic one.
    pub open spec fn in_console_mode(self, on: bool) -> StateView {
        if on {
            StateView {
                bands: Seq::new(
                    self.bands.len(),
                    |i: int|
                        if i < CONSOLE_BANDS {
                            flat_band(console_spot(i), true)
                        } else {
                            BandParams { enabled: false, ..self.bands[i] }
                        },
                ),
                band_count: CONSOLE_BANDS as int,
                ..self
            }
        } else {
            self.flat()
        }
    }

    /// The gain of every active band moved into the range from `lo` to `hi`.
    pub open spec fn with_gains_in(self, lo: u32, hi: u32) -> StateView {
        StateView {
            bands: Seq::new(
                self.bands.len(),
                |i: int|
                    if i < self.band_count {
                        BandParams {
                            gain_db: bits::clamped(self.bands[i].gain_db, lo, hi),
                            ..self.bands[i]
                        }
                    } else {
                        self.bands[i]
                    },
            ),
            ..self
        }
    }
}

impl StateView {
    /// A band is not left of itself, so its rank is below the number of bands.
    pub proof fn lemma_rank_below_count(self, i: int, n: nat)
        requires
            0 <= i,
        ensures
            self.bands_left_of(i, n) <= n,
            i < n ==> self.bands_left_of(i, n) < n,
        decreases n,
    {
        if n > 0 {
            self.lemma_rank_below_count(i, (n - 1) as nat);
        }
    }

    /// Whatever stands left of `a` stands left of `b`, where `a` is left of `b`.
    proof fn lemma_rank_increases(self, a: int, b: int, n: nat)
        requires
            self.left_of(a, b),
            0 <= a,
        ensures
            self.bands_left_of(a, n) <= self.bands_left_of(b, n),
            a < n ==> self.bands_left_of(a, n) < self.bands_left_of(b, n),
        decreases n,
    {
        if n > 0 {
            self.lemma_rank_increases(a, b, (n - 1) as nat);
        }
    }
}

/// What the user interface and the audio callbacks share. Sample rate, peaks,
/// master gain and spectrum are bit patterns.
pub struct SharedState {
    pub bands: Vec<BandParams>,
    /// Number of active bands, at most `MAX_BANDS`.
    pub band_count: u16,
    /// Updated once the stream opens.
    pub sample_rate: u32,
    /// For a level meter.
    pub input_peak: u32,
    pub output_peak: u32,
    /// Overall volume (1.0 = unity).
    pub master_gain: u32,
    /// 0 to 1 per visualizer bar.
    pub spectrum: [u32; 32],
    /// File playback position in milliseconds.
    pub play_ms: u64,
    /// File duration in milliseconds (0 = unknown).
    pub total_ms: u64,
    /// Pending seek target in milliseconds, or `NO_SEEK`.
    pub seek_ms: u64,
}

impl View for SharedState {
    type V = StateView;

    open spec fn view(&self) -> StateView {
        StateView {
            bands: self.bands@,
            band_count: self.band_count as int,
            sample_rate: self.sample_rate,
            input_peak: self.input_peak,
            output_peak: self.output_peak,
            master_gain: self.master_gain,
            spectrum: self.spectrum@,
            play_ms: self.play_ms,
            total_ms: self.total_ms,
            seek_ms: self.seek_ms,
        }
    }
}

impl SharedState {
    pub open spec fn wf(&self) -> bool {
        self@.wf()
    }

    pub fn new() -> (r: Self)
        ensures
            r@ == StateView::initial(),
            r.wf(),
    {
        SharedState {
            bands: default_bands(),
            band_count: 6,
            sample_rate: HZ_48000,
            input_peak: bits::ZERO,
            output_peak: bits::ZERO,
            master_gain: bits::ONE,
            spectrum: [0u32;32],
            play_ms: 0,
            total_ms: 0,
            seek_ms: NO_SEEK,
        }
    }

    pub fn sample_rate(&self) -> (r: u32)
        ensures
            r == self@.sample_rate,
    {
        self.sample_rate
    }

    /// Shows bar `b` of the spectrum at a level.
    pub fn set_bar(&mut self, b: usize, level: u32)
        requires
            b < NUM_BARS,
        ensures
            final(self)@ == (StateView {
                spectrum: old(self)@.spectrum.update(b as int, level),
                ..old(self)@
            }),
    {
        self.spectrum[b] = level;
    }

    /// How many bands are currently active in the strip.
    pub fn num_bands(&self) -> (r: usize)
        ensures
            r == self@.band_count,
    {
        self.band_count as usize
    }

    /// Adds one more band (at most `MAX_BANDS` total). Its slot was
    /// preallocated, so nothing is allocated while a stream is live.
    pub fn add_band(&mut self)
        requires
            old(self).wf(),
        ensures
            final(self)@ == old(self)@.with_band_added(),
            final(self).wf(),
    {
        let cur: usize = self.num_bands();
        if cur < MAX_BANDS {
            let (f, k) = band_spot(cur);
            let mut band = self.bands[cur];
            band.set_freq(f);
            band.set_gain(bits::ZERO);
            band.set_q(bits::ONE);
            band.set_kind(k);
            band.set_enabled(true);
            self.bands.set(cur, band);
            self.band_count = self.band_count + 1;
        }
    }

    /// Drops the last active band (minimum 1).
    pub fn remove_band(&mut self)
        requires
            old(self).wf(),
        ensures
            final(self)@ == old(self)@.with_band_removed(),
            final(self).wf(),
    {
        if self.band_count > 1 {
            self.band_count = self.band_count - 1;
        }
    }

    /// Restores a previously persisted band count, enabling exactly the first
    /// `n` slots so that the strip matches the saved strip size.
    pub fn set_band_count(&mut self, n: usize)
        requires
            old(self).wf(),
        ensures
            final(self)@ == old(self)@.with_band_count(n as int),
            final(self).wf(),
    {
        let count: usize = if n < 1 {
            1
        } else if n > MAX_BANDS {
            MAX_BANDS
        } else {
            n
        };
        self.band_count = count as u16;
        let ghost before = self@;
        let mut i: usize = 0;
        while i < MAX_BANDS
            invariant
                i <= MAX_BANDS,
                before.bands.len() == MAX_BANDS,
                self@ == (StateView { bands: self.bands@, ..before }),
                self.bands@.len() == MAX_BANDS,
                forall|j: int|
                    0 <= j < i ==> #[trigger] self.bands@[j] == (BandParams {
                        enabled: j < count,
                        ..before.bands[j]
                    }),
                forall|j: int| i <= j < MAX_BANDS ==> #[trigger] self.bands@[j] == before.bands[j],
            decreases MAX_BANDS - i,
        {
            let mut band = self.bands[i];
            band.set_enabled(i < count);
            self.bands.set(i, band);
            i = i + 1;
        }
    }

    /// How many active bands stand left of band `i` in the spectrum.
    fn frequency_rank(&self, i: usize) -> (r: usize)
        requires
            self.wf(),
            i < self@.band_count,
            self@.sortable(),
        ensures
            r == self@.rank(i as int),
            r < self@.band_count,
    {
        let n: usize = self.num_bands();
        let here: u32 = self.bands[i].freq();
        let mut rank: usize = 0;
        let mut j: usize = 0;
        while j < n
            invariant
                self.wf(),
                n == self@.band_count,
                i < n,
                j <= n,
                here == self@.bands[i as int].freq_hz,
                self@.sortable(),
                rank == self@.bands_left_of(i as int, j as nat),
                rank <= j,
            decreases n - j,
        {
            let there: u32 = self.bands[j].freq();
            if bits::less(there, here) || (!bits::less(here, there) && j < i) {
                rank = rank + 1;
            }
            j = j + 1;
        }
        proof {
            self@.lemma_rank_below_count(i as int, n as nat);
        }
        rank
    }

    /// Repositions every active band onto the slot frequencies, given from low
    /// to high, one for each active band. Each band keeps its gain, Q and
    /// shape; the order of the bands by frequency stays, and spreading once more
    /// changes nothing.
    pub fn evenly_spread_bands(&mut self, slots: &Vec<u32>)
        requires
            old(self).wf(),
            slots@.len() == old(self)@.band_count,
            old(self)@.sortable(),
        ensures
            final(self)@ == old(self)@.spread_over(slots@),
            final(self).wf(),
            rising(slots@) ==> final(self)@.spread_over(slots@) == final(self)@,
    {
        let n: usize = self.num_bands();
        let mut ranks: Vec<usize> = Vec::new();
        let mut i: usize = 0;
        while i < n
            invariant
                self.wf(),
                *self == *old(self),
                n == self@.band_count,
                i <= n,
                self@.sortable(),
                ranks@.len() == i,
                forall|k: int|
                    0 <= k < i ==> #[trigger] ranks@[k] == self@.rank(k) && ranks@[k] < n,
            decreases n - i,
        {
            let rank: usize = self.frequency_rank(i);
            ranks.push(rank);
            i = i + 1;
        }
        let mut i: usize = 0;
        while i < n
            invariant
                self.wf(),
                old(self).wf(),
                self@ == (StateView { bands: self.bands@, ..old(self)@ }),
                n == old(self)@.band_count,
                slots@.len() == n,
                i <= n,
                ranks@.len() == n,
                forall|k: int|
                    0 <= k < n ==> #[trigger] ranks@[k] == old(self)@.rank(k) && ranks@[k] < n,
                forall|k: int|
                    0 <= k < i ==> #[trigger] self.bands@[k] == (BandParams {
                        freq_hz: slots@[old(self)@.rank(k) as int],
                        ..old(self)@.bands[k]
                    }),
                forall|k: int|
                    i <= k < MAX_BANDS ==> #[trigger] self.bands@[k] == old(self)@.bands[k],
            decreases n - i,
        {
            let mut band = self.bands[i];
            band.set_freq(slots[ranks[i]]);
            self.bands.set(i, band);
            i = i + 1;
        }
        proof {
            assert(self@ == old(self)@.spread_over(slots@));
            if rising(slots@) {
                law_spread_is_stable(old(self)@, slots@);
            }
        }
    }

    /// Requests the file player to jump to `ms` from the start.
    pub fn seek_to_ms(&mut self, ms: u64)
        ensures
            final(self)@ == old(self)@.with_seek(ms),
    {
        self.seek_ms = ms;
    }

    /// Starts the transport of a file that lasts `total_ms`.
    pub fn start_transport(&mut self, total_ms: u64)
        ensures
            final(self)@ == old(self)@.with_transport(total_ms),
    {
        self.play_ms = 0;
        self.total_ms = total_ms;
        self.seek_ms = NO_SEEK;
    }

    /// Resets file playback position and duration back to the start.
    pub fn reset_transport(&mut self)
        ensures
            final(self)@ == old(self)@.with_transport(0),
    {
        self.play_ms = 0;
        self.total_ms = 0;
        self.seek_ms = NO_SEEK;
    }

    /// Restores every band to its default spot (frequency, 0 dB, Q, shape) and
    /// shrinks back to the classic 6-band starting layout.
    pub fn flatten(&mut self)
        requires
            old(self).wf(),
        ensures
            final(self)@ == old(self)@.flat(),
            final(self).wf(),
    {
        self.band_count = NUM_BANDS as u16;
        let def = default_bands();
        let mut i: usize = 0;
        while i < MAX_BANDS
            invariant
                i <= MAX_BANDS,
                def@ == default_strip(),
                self@ == (StateView {
                    bands: self.bands@,
                    band_count: NUM_BANDS as int,
                    ..old(self)@
                }),
                self.wf(),
                forall|j: int| 0 <= j < i ==> #[trigger] self.bands@[j] == def@[j],
            decreases MAX_BANDS - i,
        {
            let mut band = self.bands[i];
            band.set_freq(def[i].freq());
            band.set_gain(def[i].gain());
            band.set_q(def[i].q());
            band.set_kind(def[i].kind());
            band.set_enabled(i < NUM_BANDS);
            self.bands.set(i, band);
            i = i + 1;
        }
    }

    /// Console (training) mode: a fixed 5-band strip with the classic channel
    /// EQ shapes, every band at 0 dB and Q 1. Enables the console layout, or
    /// returns the strip to the classic 6-band starting layout.
    pub fn apply_console_mode(&mut self, on: bool)
        requires
            old(self).wf(),
        ensures
            final(self)@ == old(self)@.in_console_mode(on),
            final(self).wf(),
    {
        if on {
            self.band_count = CONSOLE_BANDS as u16;
            let mut i: usize = 0;
            while i < MAX_BANDS
                invariant
                    i <= MAX_BANDS,
                    old(self).wf(),
                    self@ == (StateView {
                        bands: self.bands@,
                        band_count: CONSOLE_BANDS as int,
                        ..old(self)@
                    }),
                    self.wf(),
                    forall|j: int|
                        0 <= j < i ==> #[trigger] self.bands@[j] == old(self)@.in_console_mode(
                            true,
                        ).bands[j],
                    forall|j: int|
                        i <= j < MAX_BANDS ==> #[trigger] self.bands@[j] == old(self)@.bands[j],
                decreases MAX_BANDS - i,
            {
                let mut band = self.bands[i];
                if i < CONSOLE_BANDS {
                    let (f, k) = console_layout(i);
                    band.set_freq(f);
                    band.set_gain(bits::ZERO);
                    band.set_q(bits::ONE);
                    band.set_kind(k);
                    band.set_enabled(true);
                } else {
                    band.set_enabled(false);
                }
                self.bands.set(i, band);
                i = i + 1;
            }
        } else {
            self.flatten();
        }
    }

    /// Moves the gain of every active band into a range.
    pub fn clamp_gains(&mut self, lo: u32, hi: u32)
        requires
            old(self).wf(),
            bits::le(lo, hi),
        ensures
            final(self)@ == old(self)@.with_gains_in(lo, hi),
            final(self).wf(),
    {
        let n: usize = self.num_bands();
        let mut i: usize = 0;
        while i < n
            invariant
                i <= n,
                n == old(self)@.band_count,
                bits::le(lo, hi),
                old(self).wf(),
                self.wf(),
                self@ == (StateView { bands: self.bands@, ..old(self)@ }),
                forall|j: int|
                    0 <= j < i ==> #[trigger] self.bands@[j] == old(self)@.with_gains_in(
                        lo,
                        hi,
                    ).bands[j],
                forall|j: int|
                    i <= j < MAX_BANDS ==> #[trigger] self.bands@[j] == old(self)@.bands[j],
            decreases n - i,
        {
            let mut band = self.bands[i];
            let g: u32 = bits::clamp(band.gain(), lo, hi);
            band.set_gain(g);
            self.bands.set(i, band);
            i = i + 1;
        }
    }
}

/// Spreading gives every active band a slot of its own.
pub proof fn law_spread_slots_are_distinct(s: StateView, i: int, j: int)
    requires
        s.wf(),
        0 <= i < s.band_count,
        0 <= j < s.band_count,
        i != j,
    ensures
        s.rank(i) < s.band_count,
        s.rank(i) != s.rank(j),
{
    s.lemma_rank_below_count(i, s.band_count as nat);
    if s.left_of(i, j) {
        s.lemma_rank_increases(i, j, s.band_count as nat);
    } else {
        s.lemma_rank_increases(j, i, s.band_count as nat);
    }
}

/// Spreading over rising slot frequencies keeps the order of the active bands,
/// and nothing of a band but its frequency moves.
pub proof fn law_spread_keeps_order(s: StateView, slots: Seq<u32>, i: int, j: int)
    requires
        s.wf(),
        slots.len() == s.band_count,
        rising(slots),
        0 <= i < s.band_count,
        0 <= j < s.band_count,
    ensures
        s.left_of(i, j) ==> bits::lt(
            s.spread_over(slots).bands[i].freq_hz,
            s.spread_over(slots).bands[j].freq_hz,
        ),
        s.spread_over(slots).left_of(i, j) <==> s.left_of(i, j),
        s.spread_over(slots).bands[i] == (BandParams {
            freq_hz: s.spread_over(slots).bands[i].freq_hz,
            ..s.bands[i]
        }),
        s.spread_over(slots).band_count == s.band_count,
        forall|k: int|
            s.band_count <= k < MAX_BANDS ==> #[trigger] s.spread_over(slots).bands[k]
                == s.bands[k],
{
    let n = s.band_count as nat;
    s.lemma_rank_below_count(i, n);
    s.lemma_rank_below_count(j, n);
    if s.left_of(i, j) {
        s.lemma_rank_increases(i, j, n);
        assert(bits::lt(slots[s.rank(i) as int], slots[s.rank(j) as int]));
    } else if i != j {
        s.lemma_rank_increases(j, i, n);
        assert(bits::lt(slots[s.rank(j) as int], slots[s.rank(i) as int]));
    }
}

/// Spreading a strip that was spread over the same rising slots changes nothing.
pub proof fn law_spread_is_stable(s: StateView, slots: Seq<u32>)
    requires
        s.wf(),
        slots.len() == s.band_count,
        rising(slots),
    ensures
        s.spread_over(slots).spread_over(slots) == s.spread_over(slots),
{
    let t = s.spread_over(slots);
    assert forall|i: int| 0 <= i < s.band_count implies #[trigger] t.rank(i) == s.rank(i) by {
        lemma_same_ranks(s, t, slots, i, s.band_count as nat);
    }
    assert(t.spread_over(slots).bands =~= t.bands);
}

proof fn lemma_same_ranks(s: StateView, t: StateView, slots: Seq<u32>, i: int, n: nat)
    requires
        s.wf(),
        slots.len() == s.band_count,
        rising(slots),
        t == s.spread_over(slots),
        0 <= i < s.band_count,
        n <= s.band_count,
    ensures
        t.bands_left_of(i, n) == s.bands_left_of(i, n),
    decreases n,
{
    if n > 0 {
        lemma_same_ranks(s, t, slots, i, (n - 1) as nat);
        law_spread_keeps_order(s, slots, n - 1, i);
    }
}

/// Whatever is done to a strip of at least one band, it keeps at least one band
/// and at most `MAX_BANDS`, and every slot stays.
pub proof fn law_strip_is_never_empty(
    s: StateView,
    n: int,
    slots: Seq<u32>,
    on: bool,
    lo: u32,
    hi: u32,
)
    requires
        s.wf(),
        s.band_count >= 1,
    ensures
        StateView::initial().wf() && StateView::initial().band_count >= 1,
        s.with_band_added().wf() && s.with_band_added().band_count >= 1,
        s.with_band_removed().wf() && s.with_band_removed().band_count >= 1,
        s.with_band_count(n).wf() && s.with_band_count(n).band_count >= 1,
        s.spread_over(slots).wf() && s.spread_over(slots).band_count >= 1,
        s.flat().wf() && s.flat().band_count >= 1,
        s.in_console_mode(on).wf() && s.in_console_mode(on).band_count >= 1,
        s.with_gains_in(lo, hi).wf() && s.with_gains_in(lo, hi).band_count >= 1,
{
}

/// Removing a band that was just added gives the old strip back: as many bands
/// as before, each of them as it was.
pub proof fn law_remove_undoes_add(s: StateView, i: int)
    requires
        s.wf(),
        1 <= s.band_count < MAX_BANDS,
        0 <= i < s.band_count,
    ensures
        s.with_band_added().with_band_removed().band_count == s.band_count,
        s.with_band_added().with_band_removed().bands[i] == s.bands[i],
{
}

/// A band that is added comes up enabled at its default spot, whatever stood in
/// its slot before; the other bands stay.
pub proof fn law_added_band_is_fresh(s: StateView, i: int)
    requires
        s.wf(),
        s.band_count < MAX_BANDS,
        0 <= i < MAX_BANDS,
    ensures
        s.with_band_added().band_count == s.band_count + 1,
        s.with_band_added().bands[i] == if i == s.band_count {
            flat_band(spot(i), true)
        } else {
            s.bands[i]
        },
{
}

/// At the start, after a restored band count, after flattening and in console
/// mode the enabled slots are exactly the active ones.
pub proof fn law_enabled_slots_are_the_active_ones(s: StateView, n: int, i: int)
    requires
        s.wf(),
        0 <= i < MAX_BANDS,
    ensures
        StateView::initial().bands[i].enabled <==> i < StateView::initial().band_count,
        s.with_band_count(n).bands[i].enabled <==> i < s.with_band_count(n).band_count,
        s.flat().bands[i].enabled <==> i < s.flat().band_count,
        s.in_console_mode(true).bands[i].enabled <==> i < s.in_console_mode(true).band_count,
{
}

/// Restoring the band count that a strip has already changes no count, and a
/// count out of range comes out as the nearest one in range.
pub proof fn law_band_count_is_restored(s: StateView, n: int)
    requires
        s.wf(),
    ensures
        1 <= n <= MAX_BANDS ==> s.with_band_count(n).band_count == n,
        n < 1 ==> s.with_band_count(n).band_count == 1,
        n > MAX_BANDS ==> s.with_band_count(n).band_count == MAX_BANDS,
        s.with_band_count(n).with_band_count(n) == s.with_band_count(n),
{
    assert(s.with_band_count(n).with_band_count(n).bands =~= s.with_band_count(n).bands);
}

/// Flattening gives the starting strip, whatever the strip was; leaving console
/// mode does the same; doing it again changes nothing.
pub proof fn law_flat_strip_is_the_starting_strip(s: StateView)
    ensures
        s.flat().bands == StateView::initial().bands,
        s.flat().band_count == StateView::initial().band_count,
        s.in_console_mode(false) == s.flat(),
        s.flat().flat() == s.flat(),
        s.in_console_mode(true).in_console_mode(false) == s.flat(),
{
}

/// The console strip is the same whatever the strip was, and entering console
/// mode again changes nothing.
pub proof fn law_console_strip_is_fixed(s: StateView, i: int)
    requires
        s.wf(),
        0 <= i < CONSOLE_BANDS,
    ensures
        s.in_console_mode(true).band_count == CONSOLE_BANDS,
        s.in_console_mode(true).bands[i] == flat_band(console_spot(i), true),
        s.in_console_mode(true).in_console_mode(true) == s.in_console_mode(true),
{
    assert(s.in_console_mode(true).in_console_mode(true).bands =~= s.in_console_mode(true).bands);
}

/// Once gains were moved into a range, every active band's gain lies in it
/// unless it is no number, and moving them again changes nothing.
pub proof fn law_gains_stay_in_range(s: StateView, lo: u32, hi: u32, i: int)
    requires
        s.wf(),
        bits::le(lo, hi),
        0 <= i < s.band_count,
    ensures
        bits::nan(s.bands[i].gain_db) || {
            &&& bits::le(lo, s.with_gains_in(lo, hi).bands[i].gain_db)
            &&& bits::le(s.with_gains_in(lo, hi).bands[i].gain_db, hi)
        },
        s.with_gains_in(lo, hi).with_gains_in(lo, hi) == s.with_gains_in(lo, hi),
{
    assert(s.with_gains_in(lo, hi).with_gains_in(lo, hi).bands =~= s.with_gains_in(lo, hi).bands);
}

/// A seek that was asked for is pending, unless it asks for the one position
/// that stands for no seek; starting or resetting the transport drops it.
pub proof fn law_seek_is_pending_until_reset(s: StateView, ms: u64, total_ms: u64)
    ensures
        s.with_seek(ms).seek_ms == ms,
        s.with_seek(ms).with_transport(total_ms) == s.with_transport(total_ms),
        s.with_transport(total_ms).seek_ms == NO_SEEK,
        s.with_transport(total_ms).play_ms == 0,
{
}

/// The spots of the slots: the classic six, then 400 Hz, 3 kHz, 8 kHz and 16 kHz over and
/// over. The first is a high pass, those at 12 kHz and 16 kHz are high shelves, all others
/// are peaks.
pub proof fn law_default_spots(i: int)
    requires
        i >= 0,
    ensures
        bits::value(spot(i).0) == bits::units(
            if i < 6 {
                seq![80int, 250, 1000, 2500, 6000, 12000][i]
            } else {
                seq![400int, 3000, 8000, 16000][(i - 6) % 4]
            },
        ),
        !bits::nan(spot(i).0),
        spot(i).1 == if i == 0 {
            FilterKind::HighPass
        } else if i == 5 || (i > 5 && (i - 6) % 4 == 3) {
            FilterKind::HighShelf
        } else {
            FilterKind::Peak
        },
        i >= 6 ==> spot(i + 4) == spot(i),
{
    law_layout_frequencies();
}

/// The spots of the console: a low shelf at 80 Hz, peaks at 400 Hz, 1 kHz and 3 kHz, and a
/// high shelf at 12 kHz.
pub proof fn law_console_spots(i: int)
    requires
        0 <= i < CONSOLE_BANDS,
    ensures
        bits::value(console_spot(i).0) == bits::units(seq![80int, 400, 1000, 3000, 12000][i]),
        console_spot(i).1 == if i == 0 {
            FilterKind::LowShelf
        } else if i == 4 {
            FilterKind::HighShelf
        } else {
            FilterKind::Peak
        },
{
    law_layout_frequencies();
}

/// A flat band stands at its spot with its shape, at 0 dB and Q 1.
pub proof fn law_flat_band_is_flat(at: (u32, FilterKind), enabled: bool)
    ensures
        flat_band(at, enabled).freq_hz == at.0,
        flat_band(at, enabled).gain_db == 0,
        bits::value(flat_band(at, enabled).gain_db) == 0,
        bits::value(flat_band(at, enabled).q) == bits::units(1),
        !bits::nan(flat_band(at, enabled).q),
        FilterKind::at(flat_band(at, enabled).kind) == at.1,
        flat_band(at, enabled).enabled == enabled,
{
    law_layout_frequencies();
}

/// The app starts with every slot at its default spot, flat, the first six enabled, at
/// 48 kHz and unity volume, with nothing heard, shown, played or asked for.
pub proof fn law_starting_state(i: int, b: int)
    requires
        0 <= i < MAX_BANDS,
        0 <= b < NUM_BARS,
    ensures
        default_strip().len() == MAX_BANDS,
        default_strip()[i].freq_hz == spot(i).0,
        FilterKind::at(default_strip()[i].kind) == spot(i).1,
        default_strip()[i].kind == spot(i).1.index(),
        bits::value(default_strip()[i].gain_db) == 0,
        bits::value(default_strip()[i].q) == bits::units(1),
        default_strip()[i].enabled <==> i < 6,
        StateView::initial().bands == default_strip(),
        StateView::initial().band_count == 6,
        bits::value(StateView::initial().sample_rate) == bits::units(48000),
        bits::value(StateView::initial().master_gain) == bits::units(1),
        StateView::initial().input_peak == 0 && StateView::initial().output_peak == 0,
        StateView::initial().spectrum.len() == NUM_BARS,
        StateView::initial().spectrum[b] == 0,
        StateView::initial().play_ms == 0 && StateView::initial().total_ms == 0,
        StateView::initial().seek_ms == u64::MAX,
{
    law_layout_frequencies();
}

/// Adding a band touches one slot and the count, and nothing where every slot is in use;
/// removing one touches the count alone, and nothing where one band is left.
pub proof fn law_adding_and_removing_touch_one_band(s: StateView, i: int)
    requires
        s.wf(),
        0 <= i < MAX_BANDS,
    ensures
        ({
            let t = s.with_band_added();
            &&& t == (StateView { bands: t.bands, band_count: t.band_count, ..s })
            &&& t.bands.len() == s.bands.len()
            &&& i != s.band_count ==> t.bands[i] == s.bands[i]
            &&& s.band_count < MAX_BANDS ==> t.band_count == s.band_count + 1
            &&& s.band_count == MAX_BANDS ==> t == s
            &&& i == s.band_count ==> {
                &&& t.bands[i].freq_hz == spot(i).0
                &&& FilterKind::at(t.bands[i].kind) == spot(i).1
                &&& bits::value(t.bands[i].gain_db) == 0
                &&& bits::value(t.bands[i].q) == bits::units(1)
                &&& t.bands[i].enabled
            }
        }),
        ({
            let t = s.with_band_removed();
            &&& t == (StateView { band_count: t.band_count, ..s })
            &&& s.band_count > 1 ==> t.band_count == s.band_count - 1
            &&& s.band_count <= 1 ==> t.band_count == s.band_count
        }),
{
    law_layout_frequencies();
}

/// Restoring a band count sets the count and the switches and nothing else: the frequency,
/// the gain, the Q and the shape of every slot stay as they were. On the starting strip
/// every slot stays at its default spot, flat.
pub proof fn law_restored_count_keeps_the_bands(s: StateView, n: int, i: int)
    requires
        s.wf(),
        0 <= i < MAX_BANDS,
    ensures
        ({
            let t = s.with_band_count(n);
            &&& t.bands.len() == s.bands.len()
            &&& t.bands[i].freq_hz == s.bands[i].freq_hz
            &&& t.bands[i].gain_db == s.bands[i].gain_db
            &&& t.bands[i].q == s.bands[i].q
            &&& t.bands[i].kind == s.bands[i].kind
            &&& t.bands[i].enabled <==> i < t.band_count
            &&& t == (StateView { bands: t.bands, band_count: t.band_count, ..s })
        }),
        ({
            let t = StateView::initial().with_band_count(n);
            &&& t.bands[i].freq_hz == spot(i).0
            &&& FilterKind::at(t.bands[i].kind) == spot(i).1
            &&& bits::value(t.bands[i].gain_db) == 0
            &&& bits::value(t.bands[i].q) == bits::units(1)
        }),
{
    law_layout_frequencies();
}

/// Spreading moves every active band to one of the slot frequencies, lower bands to lower
/// ones and of two at the same frequency the earlier one to the lower; rising slots are so
/// handed out one by one. Nothing but the frequencies of active bands moves.
pub proof fn law_spread_hands_out_the_slots(s: StateView, slots: Seq<u32>, i: int, j: int)
    requires
        s.wf(),
        slots.len() == s.band_count,
        0 <= i < s.band_count,
        0 <= j < s.band_count,
    ensures
        ({
            let t = s.spread_over(slots);
            let here = bits::value(s.bands[i].freq_hz);
            let there = bits::value(s.bands[j].freq_hz);
            &&& slots.contains(t.bands[i].freq_hz)
            &&& rising(slots) && (here < there || (here == there && i < j)) ==> bits::value(
                t.bands[i].freq_hz,
            ) < bits::value(t.bands[j].freq_hz)
            &&& t.bands[i].gain_db == s.bands[i].gain_db
            &&& t.bands[i].q == s.bands[i].q
            &&& t.bands[i].kind == s.bands[i].kind
            &&& t.bands[i].enabled == s.bands[i].enabled
            &&& t.bands.len() == s.bands.len()
            &&& t == (StateView { bands: t.bands, ..s })
            &&& forall|k: int|
                s.band_count <= k < MAX_BANDS ==> #[trigger] t.bands[k] == s.bands[k]
        }),
{
    s.lemma_rank_below_count(i, s.band_count as nat);
    assert(slots[s.rank(i) as int] == s.spread_over(slots).bands[i].freq_hz);
    if rising(slots) {
        law_spread_keeps_order(s, slots, i, j);
    }
}

/// Asking for a seek touches the pending seek alone, and starting the transport of a file
/// its position, its duration and the pending seek.
pub proof fn law_transport_touches_nothing_else(s: StateView, ms: u64, total_ms: u64)
    ensures
        s.with_seek(ms).seek_ms == ms,
        s.with_seek(ms) == (StateView { seek_ms: s.with_seek(ms).seek_ms, ..s }),
        s.with_transport(total_ms).play_ms == 0,
        s.with_transport(total_ms).total_ms == total_ms,
        s.with_transport(total_ms).seek_ms == u64::MAX,
        s.with_transport(total_ms) == (StateView {
            play_ms: s.with_transport(total_ms).play_ms,
            total_ms: s.with_transport(total_ms).total_ms,
            seek_ms: s.with_transport(total_ms).seek_ms,
            ..s
        }),
{
}

/// Flattening and console mode touch the strip alone. In console mode the five bands
/// stand at their spots, flat and enabled; the slots past them keep their frequency, gain,
/// Q and shape and are switched off. Flat, every slot stands at its default spot.
pub proof fn law_flat_and_console_strips(s: StateView, i: int)
    requires
        s.wf(),
        0 <= i < MAX_BANDS,
    ensures
        ({
            let t = s.in_console_mode(true);
            &&& t == (StateView { bands: t.bands, band_count: t.band_count, ..s })
            &&& t.band_count == 5
            &&& t.bands.len() == s.bands.len()
            &&& i < 5 ==> {
                &&& t.bands[i].freq_hz == console_spot(i).0
                &&& FilterKind::at(t.bands[i].kind) == console_spot(i).1
                &&& bits::value(t.bands[i].gain_db) == 0
                &&& bits::value(t.bands[i].q) == bits::units(1)
                &&& t.bands[i].enabled
            }
            &&& i >= 5 ==> {
                &&& t.bands[i].freq_hz == s.bands[i].freq_hz
                &&& t.bands[i].gain_db == s.bands[i].gain_db
                &&& t.bands[i].q == s.bands[i].q
                &&& t.bands[i].kind == s.bands[i].kind
                &&& !t.bands[i].enabled
            }
        }),
        ({
            let t = s.flat();
            &&& t == (StateView { bands: t.bands, band_count: t.band_count, ..s })
            &&& t.band_count == 6
            &&& t.bands.len() == MAX_BANDS
            &&& t.bands[i].freq_hz == spot(i).0
            &&& FilterKind::at(t.bands[i].kind) == spot(i).1
            &&& bits::value(t.bands[i].gain_db) == 0
            &&& bits::value(t.bands[i].q) == bits::units(1)
            &&& t.bands[i].enabled <==> i < 6
            &&& s.in_console_mode(false) == t
        }),
{
    law_layout_frequencies();
}

/// Moving gains into a range leaves a gain that lies in it as it is, bit for bit, takes one
/// below it to its lower end and one above it to its upper end. Only gains of active bands
/// move.
pub proof fn law_gains_move_only_into_range(s: StateView, lo: u32, hi: u32, i: int)
    requires
        s.wf(),
        bits::le(lo, hi),
        0 <= i < MAX_BANDS,
    ensures
        ({
            let t = s.with_gains_in(lo, hi);
            let g = s.bands[i].gain_db;
            &&& t == (StateView { bands: t.bands, ..s })
            &&& t.bands.len() == s.bands.len()
            &&& t.bands[i] == (BandParams { gain_db: t.bands[i].gain_db, ..s.bands[i] })
            &&& i >= s.band_count || bits::nan(g) ==> t.bands[i] == s.bands[i]
            &&& bits::value(lo) <= bits::value(g) <= bits::value(hi) ==> t.bands[i] == s.bands[i]
            &&& i < s.band_count && !bits::nan(g) && bits::value(g) < bits::value(lo)
                ==> t.bands[i].gain_db == lo
            &&& i < s.band_count && !bits::nan(g) && bits::value(g) > bits::value(hi)
                ==> t.bands[i].gain_db == hi
        }),
{
}

/// A band is spread to the slot whose place is the number of bands left of it: of two bands
/// the one with the lower frequency has the lower place, at the same frequency the earlier
/// one, no two bands have the same place, and every place is one of a slot.
pub proof fn law_slots_go_by_rank(s: StateView, slots: Seq<u32>, i: int, j: int)
    requires
        s.wf(),
        slots.len() == s.band_count,
        0 <= i < s.band_count,
        0 <= j < s.band_count,
    ensures
        ({
            let here = bits::value(s.bands[i].freq_hz);
            let there = bits::value(s.bands[j].freq_hz);
            &&& 0 <= s.rank(i) < s.band_count
            &&& here < there || (here == there && i < j) <==> s.rank(i) < s.rank(j)
            &&& s.rank(i) == s.rank(j) <==> i == j
            &&& s.spread_over(slots).bands[i].freq_hz == slots[s.rank(i) as int]
        }),
{
    let n = s.band_count as nat;
    s.lemma_rank_below_count(i, n);
    if s.left_of(i, j) {
        s.lemma_rank_increases(i, j, n);
    } else if i != j {
        s.lemma_rank_increases(j, i, n);
    }
}

} // verus!
