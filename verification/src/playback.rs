//! File playback: the sample rate, the playback position, seeks, and which
//! filters have to be set up anew before a sample runs through them.

use crate::audio::{BandParams, SharedState, MAX_BANDS, NO_SEEK};
use crate::audio::StateView;
use crate::bits;
use vstd::arithmetic::power2::*;
use vstd::prelude::*;

verus! {

/// The position is reported whenever this many samples went by.
pub const REPORT_EVERY: u64 = 4096;

/// The output meter is updated whenever this many samples went by.
pub const METER_EVERY: u32 = 200;

/// The distance of the numbers next to `n` that single precision can hold.
pub open spec fn spacing(n: int) -> int {
    if n < 0x100_0000 {
        1
    } else if n < 0x200_0000 {
        2
    } else if n < 0x400_0000 {
        4
    } else if n < 0x800_0000 {
        8
    } else if n < 0x1000_0000 {
        16
    } else if n < 0x2000_0000 {
        32
    } else if n < 0x4000_0000 {
        64
    } else if n < 0x8000_0000 {
        128
    } else {
        256
    }
}

/// The whole number that single precision holds for `n`: the nearest one, and of
/// two that are equally near the one with the even significand.
pub open spec fn rounded(n: int) -> int {
    let u = spacing(n);
    let q = n / u;
    let r = n % u;
    if 2 * r < u || (2 * r == u && q % 2 == 0) {
        q * u
    } else {
        (q + 1) * u
    }
}

/// A sample rate in single precision: the bit pattern and the whole number it
/// stands for.
#[derive(Clone, Copy, PartialEq, Eq, Structural, Debug)]
pub struct Rate {
    pub bits: u32,
    pub hz: u64,
}

impl Rate {
    /// The pattern stands for the whole number, which is above zero and small
    /// enough to come from a 32-bit rate.
    pub open spec fn wf(self) -> bool {
        &&& 0 < self.hz <= 0x1_0000_0000
        &&& !bits::nan(self.bits)
        &&& bits::value(self.bits) == bits::units(self.hz as int)
    }

    /// A rate in Hz, rounded to single precision.
    pub fn from_hz(n: u32) -> (r: Self)
        requires
            n > 0,
        ensures
            r.hz == rounded(n as int),
            r.wf(),
    {
        let (s, u): (u32, u32) = if n < 0x100_0000 {
            (0, 1)
        } else if n < 0x200_0000 {
            (1, 2)
        } else if n < 0x400_0000 {
            (2, 4)
        } else if n < 0x800_0000 {
            (3, 8)
        } else if n < 0x1000_0000 {
            (4, 16)
        } else if n < 0x2000_0000 {
            (5, 32)
        } else if n < 0x4000_0000 {
            (6, 64)
        } else if n < 0x8000_0000 {
            (7, 128)
        } else {
            (8, 256)
        };
        let q: u32 = n / u;
        let rem: u32 = n % u;
        let m0: u32 = if 2 * rem < u || (2 * rem == u && q % 2 == 0) {
            q
        } else {
            q + 1
        };
        proof {
            lemma_significand_bounds(n as int);
            assert(u == spacing(n as int));
            assert(m0 * u == rounded(n as int)) by (nonlinear_arith)
                requires
                    m0 == q || m0 == q + 1,
                    m0 == q ==> rounded(n as int) == q * u,
                    m0 == q + 1 ==> rounded(n as int) == (q + 1) * u,
            ;
            assert(0 < m0 * u <= 0x1_0000_0000) by (nonlinear_arith)
                requires
                    0 < m0 <= 0x100_0000,
                    0 < u <= 256,
            ;
        }
        let hz: u64 = (m0 as u64) * (u as u64);
        let mut m: u32 = m0;
        let mut e: u32 = 150 + s;
        proof {
            lemma2_to64();
            assert(u == pow2(s as nat));
            lemma_pow2_adds(s as nat, 149);
            assert(e - 1 == s + 149);
            assert(m * pow2((e - 1) as nat) == bits::units(hz as int)) by (nonlinear_arith)
                requires
                    pow2((e - 1) as nat) == u * pow2(149),
                    hz == m * u,
                    bits::units(hz as int) == hz * pow2(149),
            ;
        }
        if m == 0x100_0000 {
            proof {
                lemma_pow2_unfold(e as nat);
                assert(0x80_0000 * pow2(e as nat) == 0x100_0000 * pow2((e - 1) as nat))
                    by (nonlinear_arith)
                    requires
                        pow2(e as nat) == 2 * pow2((e - 1) as nat),
                ;
            }
            m = 0x80_0000;
            e = e + 1;
        }
        while m < 0x80_0000
            invariant
                0 < m < 0x100_0000,
                127 <= e <= 159,
                m < 0x80_0000 ==> e <= 150,
                e <= 150 ==> m >= pow2((150 - e) as nat),
                m * pow2((e - 1) as nat) == bits::units(hz as int),
            decreases e,
        {
            proof {
                lemma2_to64();
                if e == 127 {
                    assert(pow2((150 - e) as nat) == 0x80_0000);
                }
                lemma_pow2_unfold((e - 1) as nat);
                lemma_pow2_unfold((151 - e) as nat);
                assert((2 * m) * pow2((e - 2) as nat) == m * pow2((e - 1) as nat))
                    by (nonlinear_arith)
                    requires
                        pow2((e - 1) as nat) == 2 * pow2((e - 2) as nat),
                ;
            }
            m = m * 2;
            e = e - 1;
        }
        let pattern: u32 = e * 0x80_0000 + (m - 0x80_0000);
        proof {
            assert(pattern as int / 0x80_0000 == e);
            assert(pattern as int % 0x80_0000 == m - 0x80_0000);
            assert(bits::magnitude(pattern) == pattern);
            assert(bits::value(pattern) == m * pow2((e - 1) as nat));
        }
        Rate { bits: pattern, hz }
    }
}

proof fn lemma_significand_bounds(n: int)
    requires
        0 < n <= u32::MAX,
    ensures
        0 < n / spacing(n) < 0x100_0000,
        n >= 0x100_0000 ==> n / spacing(n) >= 0x80_0000,
{
}

/// The parameters that a filter was last set up with.
#[derive(Clone, Copy, PartialEq, Eq, Structural, Debug)]
pub struct CoeffKey {
    pub freq_hz: u32,
    pub gain_db: u32,
    pub q: u32,
    pub kind: u8,
}

/// The parameters of a band.
pub open spec fn key_of(band: BandParams) -> CoeffKey {
    CoeffKey {
        freq_hz: band.freq_hz,
        gain_db: band.gain_db,
        q: band.q,
        kind: band.kind,
    }
}

/// Marks a filter that was never set up.
pub open spec fn no_key() -> CoeffKey {
    CoeffKey { freq_hz: u32::MAX, gain_db: u32::MAX, q: u32::MAX, kind: u8::MAX }
}

/// What to do with a sample at one band of the chain.
#[derive(Clone, Copy, PartialEq, Eq, Structural, Debug)]
pub enum BandStep {
    /// The band is off: the sample passes.
    Bypass,
    /// The sample runs through the filter as it is.
    Process,
    /// The filter is reset and set up from the band, then the sample runs through.
    SetUp,
}

/// What a band asks for, where its filter was last set up with `cached`.
pub open spec fn step_of(band: BandParams, cached: CoeffKey) -> BandStep {
    if !band.enabled {
        BandStep::Bypass
    } else if cached != key_of(band) {
        BandStep::SetUp
    } else {
        BandStep::Process
    }
}

/// What the filter is set up with afterwards.
pub open spec fn key_after(band: BandParams, cached: CoeffKey) -> CoeffKey {
    if band.enabled {
        key_of(band)
    } else {
        cached
    }
}

/// The playback of one file as a mathematical value.
#[verifier::ext_equal]
pub struct SourceView {
    pub rate: Rate,
    pub channels: int,
    pub frame_pos: int,
    pub frame_n: int,
    pub last_report: int,
    pub caches: Seq<Seq<CoeffKey>>,
    pub peak_acc: u32,
    pub peak_counter: int,
}

/// Filters that were never set up, a chain for each of `channels` channels.
pub open spec fn blank_caches(channels: int) -> Seq<Seq<CoeffKey>> {
    Seq::new(channels as nat, |c: int| Seq::new(MAX_BANDS as nat, |i: int| no_key()))
}

impl SourceView {
    pub open spec fn wf(self) -> bool {
        &&& self.rate.wf()
        &&& self.channels >= 1
        &&& 0 <= self.frame_pos
        &&& 0 <= self.last_report <= self.frame_n
        &&& self.caches.len() == self.channels
        &&& forall|c: int| 0 <= c < self.channels ==> (#[trigger] self.caches[c]).len() == MAX_BANDS
        &&& 0 <= self.peak_counter < METER_EVERY
    }

    /// A file at its start.
    pub open spec fn starting(rate: Rate, channels: int) -> SourceView {
        SourceView {
            rate,
            channels,
            frame_pos: 0,
            frame_n: 0,
            last_report: 0,
            caches: blank_caches(channels),
            peak_acc: bits::ZERO,
            peak_counter: 0,
        }
    }

    /// Whether the decoder changed its rate or its channels.
    pub open spec fn differs_from(self, rate: Rate, channels: int) -> bool {
        channels != self.channels || rate.hz != self.rate.hz
    }

    /// The playback with filter chains for the decoder's present layout.
    pub open spec fn configured(self, rate: Rate, channels: int) -> SourceView {
        if self.differs_from(rate, channels) {
            SourceView { rate, channels, caches: blank_caches(channels), frame_pos: 0, ..self }
        } else {
            self
        }
    }

    /// The channel of the next sample.
    pub open spec fn channel(self) -> int {
        self.frame_pos % self.channels
    }

    /// The steps of the chain for the next sample, one for each active band.
    pub open spec fn steps(self, s: StateView) -> Seq<BandStep> {
        Seq::new(
            s.band_count as nat,
            |i: int| step_of(s.bands[i], self.caches[self.channel()][i]),
        )
    }

    /// The playback once the steps of the chain were taken.
    pub open spec fn set_up(self, s: StateView) -> SourceView {
        let c = self.channel();
        SourceView {
            caches: self.caches.update(
                c,
                Seq::new(
                    MAX_BANDS as nat,
                    |i: int|
                        if i < s.band_count {
                            key_after(s.bands[i], self.caches[c][i])
                        } else {
                            self.caches[c][i]
                        },
                ),
            ),
            ..self
        }
    }

    /// How many samples of all channels come before the position `ms`.
    pub open spec fn sample_at(self, ms: int) -> int {
        (ms * self.rate.hz / 1000) * self.channels
    }

    /// The position in milliseconds once `n` samples of all channels are consumed.
    pub open spec fn position_at(self, n: int) -> int {
        (n / self.channels) * 1000 / self.rate.hz as int
    }

    /// How many samples of all channels come before the one that a seek to `ms` goes
    /// to: in the frame at `ms`, the sample of the channel whose turn it is.
    pub open spec fn seek_target(self, ms: int) -> int {
        self.sample_at(ms) + self.channel()
    }

    /// Whether the sample that is pulled next, counted from the start of the file,
    /// belongs to the channel whose turn it is.
    pub open spec fn aligned(self) -> bool {
        self.frame_n % self.channels == self.channel()
    }

    /// Whether the position `ms` lies behind, so that the file has to be read from its
    /// start again.
    pub open spec fn rewinds(self, ms: int) -> bool {
        self.seek_target(ms) < self.frame_n
    }

    /// The playback from which samples are dropped to stand at `ms`: the present one,
    /// or the file read from its start again.
    pub open spec fn sought(self, ms: int) -> SourceView {
        if self.rewinds(ms) {
            SourceView { frame_n: 0, last_report: 0, ..self }
        } else {
            self
        }
    }

    /// Whether the position is reported with the next sample.
    pub open spec fn reports(self) -> bool {
        self.frame_n + 1 - self.last_report >= REPORT_EVERY
    }

    /// The position in milliseconds after the next sample.
    pub open spec fn position_ms(self) -> int {
        self.position_at(self.frame_n + 1)
    }

    /// The loudest sample since the last meter update, with `x`.
    pub open spec fn peak_with(self, x: u32) -> u32 {
        if bits::lt(self.peak_acc, bits::absolute(x)) {
            bits::absolute(x)
        } else {
            self.peak_acc
        }
    }

    /// Whether the meter is updated with the next sample.
    pub open spec fn meters(self) -> bool {
        self.peak_counter + 1 >= METER_EVERY
    }

    /// The playback after the output `x`.
    pub open spec fn advanced(self, x: u32) -> SourceView {
        SourceView {
            frame_n: self.frame_n + 1,
            last_report: if self.reports() {
                self.frame_n + 1
            } else {
                self.last_report
            },
            peak_acc: if self.meters() {
                bits::ZERO
            } else {
                self.peak_with(x)
            },
            peak_counter: if self.meters() {
                0
            } else {
                self.peak_counter + 1
            },
            frame_pos: self.frame_pos + 1,
            ..self
        }
    }

    /// The shared state after the output `x`: position and meter, when due.
    pub open spec fn reported(self, s: StateView, x: u32) -> StateView {
        StateView {
            play_ms: if !self.reports() {
                s.play_ms
            } else if s.total_ms > 0 && self.position_ms() > s.total_ms {
                s.total_ms
            } else {
                self.position_ms() as u64
            },
            output_peak: if self.meters() {
                self.peak_with(x)
            } else {
                s.output_peak
            },
            ..s
        }
    }
}

/// The playback of one file. Every sample runs through the same chain of bands
/// as on the live path; every channel has filters of its own, and each of them
/// is set up again whenever its band has changed.
pub struct EqSource {
    pub rate: Rate,
    pub channels: usize,
    /// Samples handed out since the layout changed.
    pub frame_pos: usize,
    /// Samples consumed so far of this file, of all channels together.
    pub frame_n: u64,
    /// Sample count at the last position report.
    pub last_report: u64,
    pub coeff_state: Vec<Vec<CoeffKey>>,
    pub peak_acc: u32,
    pub peak_counter: u32,
}

impl View for EqSource {
    type V = SourceView;

    open spec fn view(&self) -> SourceView {
        SourceView {
            rate: self.rate,
            channels: self.channels as int,
            frame_pos: self.frame_pos as int,
            frame_n: self.frame_n as int,
            last_report: self.last_report as int,
            caches: self.coeff_state@.map_values(|v: Vec<CoeffKey>| v@),
            peak_acc: self.peak_acc,
            peak_counter: self.peak_counter as int,
        }
    }
}

/// Filter chains that were never set up.
fn new_caches(channels: usize) -> (r: Vec<Vec<CoeffKey>>)
    ensures
        r@.map_values(|v: Vec<CoeffKey>| v@) == blank_caches(channels as int),
{
    let mut caches: Vec<Vec<CoeffKey>> = Vec::new();
    let mut c: usize = 0;
    while c < channels
        invariant
            c <= channels,
            caches@.len() == c,
            forall|k: int|
                0 <= k < c ==> (#[trigger] caches@[k])@ == Seq::new(
                    MAX_BANDS as nat,
                    |i: int| no_key(),
                ),
        decreases channels - c,
    {
        let mut chain: Vec<CoeffKey> = Vec::new();
        let mut i: usize = 0;
        while i < MAX_BANDS
            invariant
                i <= MAX_BANDS,
                chain@.len() == i,
                forall|k: int| 0 <= k < i ==> #[trigger] chain@[k] == no_key(),
            decreases MAX_BANDS - i,
        {
            chain.push(
                CoeffKey { freq_hz: u32::MAX, gain_db: u32::MAX, q: u32::MAX, kind: u8::MAX },
            );
            i = i + 1;
        }
        assert(chain@ =~= Seq::new(MAX_BANDS as nat, |i: int| no_key()));
        caches.push(chain);
        c = c + 1;
    }
    assert(caches@.map_values(|v: Vec<CoeffKey>| v@) =~= blank_caches(channels as int));
    caches
}

impl EqSource {
    pub open spec fn wf(&self) -> bool {
        self@.wf()
    }

    pub fn new(rate: Rate, channels: usize) -> (r: Self)
        requires
            rate.wf(),
            channels >= 1,
        ensures
            r@ == SourceView::starting(rate, channels as int),
            r.wf(),
    {
        EqSource {
            rate,
            channels,
            frame_pos: 0,
            frame_n: 0,
            last_report: 0,
            coeff_state: new_caches(channels),
            peak_acc: 0,
            peak_counter: 0,
        }
    }

    /// Some decoders can change rate or channel layout mid-stream. Makes new
    /// filter chains whenever that happened, and says so. The shared state gets
    /// the rate in any case.
    pub fn ensure_config(&mut self, rate: Rate, channels: usize, state: &mut SharedState) -> (rebuilt:
        bool)
        requires
            old(self).wf(),
            rate.wf(),
            channels >= 1,
        ensures
            rebuilt == old(self)@.differs_from(rate, channels as int),
            final(self)@ == old(self)@.configured(rate, channels as int),
            final(self).wf(),
            final(state)@ == (StateView { sample_rate: final(self)@.rate.bits, ..old(state)@ }),
    {
        let rebuilt = channels != self.channels || rate.hz != self.rate.hz;
        if rebuilt {
            self.channels = channels;
            self.rate = rate;
            self.coeff_state = new_caches(channels);
            self.frame_pos = 0;
        }
        state.sample_rate = self.rate.bits;
        rebuilt
    }

    /// Services a pending seek before anything else is pulled. Gives the position
    /// asked for, whether the file has to be read from its start again, how many
    /// samples have to be dropped then to get there, and whether the filter chains
    /// are new. The channels go on taking turns: the seek goes to the sample of the
    /// channel whose turn it is.
    pub fn begin_seek(&mut self, rate: Rate, channels: usize, state: &mut SharedState) -> (r: Option<
        (u64, bool, u64, bool),
    >)
        requires
            old(self).wf(),
            rate.wf(),
            channels >= 1,
            old(state)@.seek_ms != NO_SEEK ==> old(state)@.seek_ms * rate.hz <= u64::MAX && (old(
                state,
            )@.seek_ms * rate.hz / 1000) * channels + channels <= u64::MAX,
        ensures
            final(self).wf(),
            match r {
                None => {
                    &&& old(state)@.seek_ms == NO_SEEK
                    &&& final(self)@ == old(self)@
                    &&& final(state)@ == old(state)@
                },
                Some((seek, rewind, skip, rebuilt)) => {
                    let configured = old(self)@.configured(rate, channels as int);
                    &&& old(state)@.seek_ms != NO_SEEK
                    &&& seek == old(state)@.seek_ms
                    &&& rebuilt == old(self)@.differs_from(rate, channels as int)
                    &&& rewind == configured.rewinds(seek as int)
                    &&& final(self)@ == configured.sought(seek as int)
                    &&& skip == final(self)@.seek_target(seek as int) - final(self)@.frame_n
                    &&& final(state)@ == (StateView {
                        seek_ms: NO_SEEK,
                        sample_rate: final(self)@.rate.bits,
                        ..old(state)@
                    })
                },
            },
    {
        let seek: u64 = state.seek_ms;
        if seek == NO_SEEK {
            return None;
        }
        state.seek_ms = NO_SEEK;
        let rebuilt = self.ensure_config(rate, channels, state);
        let frames: u64 = seek * self.rate.hz / 1000;
        let channel: usize = self.frame_pos % self.channels;
        let target: u64 = frames * self.channels as u64 + channel as u64;
        let rewind = target < self.frame_n;
        if rewind {
            self.frame_n = 0;
            self.last_report = 0;
        }
        Some((seek, rewind, target - self.frame_n, rebuilt))
    }

    /// Finishes a seek to `seek` milliseconds, for which `dropped` samples were
    /// dropped.
    pub fn end_seek(&mut self, seek: u64, dropped: u64, state: &mut SharedState)
        requires
            old(self).wf(),
            old(self)@.frame_n + dropped <= u64::MAX,
        ensures
            final(self)@ == (SourceView { frame_n: old(self)@.frame_n + dropped, ..old(self)@ }),
            final(self).wf(),
            final(state)@ == (StateView { play_ms: seek, ..old(state)@ }),
    {
        self.frame_n = self.frame_n + dropped;
        state.play_ms = seek;
    }

    /// Puts the steps of the chain for the next sample into `steps`, and keeps in
    /// mind which filters are set up.
    pub fn plan_chain(&mut self, state: &SharedState, steps: &mut Vec<BandStep>)
        requires
            old(self).wf(),
            state.wf(),
        ensures
            final(steps)@ == old(self)@.steps(state@),
            final(self)@ == old(self)@.set_up(state@),
            final(self).wf(),
    {
        let n: usize = state.num_bands();
        let c: usize = self.frame_pos % self.channels;
        let ghost before = self@;
        assert(before.caches[c as int] == self.coeff_state@[c as int]@);
        steps.clear();
        let mut chain: Vec<CoeffKey> = Vec::new();
        std::mem::swap(&mut chain, &mut self.coeff_state[c]);
        let mut i: usize = 0;
        while i < n
            invariant
                i <= n,
                n == state@.band_count,
                state.wf(),
                before.wf(),
                0 <= c < before.channels,
                c == before.channel(),
                chain@.len() == MAX_BANDS,
                steps@.len() == i,
                forall|k: int|
                    0 <= k < i ==> #[trigger] steps@[k] == step_of(
                        state@.bands[k],
                        before.caches[c as int][k],
                    ),
                forall|k: int|
                    0 <= k < i ==> #[trigger] chain@[k] == key_after(
                        state@.bands[k],
                        before.caches[c as int][k],
                    ),
                forall|k: int|
                    i <= k < MAX_BANDS ==> #[trigger] chain@[k] == before.caches[c as int][k],
            decreases n - i,
        {
            let band = state.bands[i];
            if band.enabled() {
                let key = CoeffKey {
                    freq_hz: band.freq(),
                    gain_db: band.gain(),
                    q: band.q(),
                    kind: band.kind,
                };
                if chain[i] == key {
                    steps.push(BandStep::Process);
                } else {
                    steps.push(BandStep::SetUp);
                    chain.set(i, key);
                }
            } else {
                steps.push(BandStep::Bypass);
            }
            i = i + 1;
        }
        proof {
            assert(steps@ =~= before.steps(state@));
        }
        let ghost done = chain@;
        std::mem::swap(&mut chain, &mut self.coeff_state[c]);
        proof {
            assert(self.coeff_state@[c as int]@ == done);
            assert(done =~= before.set_up(state@).caches[c as int]);
            assert(self@.caches =~= before.set_up(state@).caches);
        }
    }

    /// Moves on by one sample, whose output is `x`: reports the position and
    /// updates the meter when they are due.
    pub fn finish_sample(&mut self, x: u32, state: &mut SharedState)
        requires
            old(self).wf(),
            (old(self)@.frame_n + 1) * 1000 <= u64::MAX,
            old(self)@.frame_pos < usize::MAX,
        ensures
            final(self)@ == old(self)@.advanced(x),
            final(self).wf(),
            final(state)@ == old(self)@.reported(old(state)@, x),
    {
        self.frame_n = self.frame_n + 1;
        if self.frame_n - self.last_report >= REPORT_EVERY {
            self.last_report = self.frame_n;
            let frames: u64 = self.frame_n / self.channels as u64;
            proof {
                vstd::arithmetic::div_mod::lemma_div_is_ordered_by_denominator(
                    self.frame_n as int,
                    1,
                    self.channels as int,
                );
            }
            let ms: u64 = frames * 1000 / self.rate.hz;
            let total: u64 = state.total_ms;
            state.play_ms = if total > 0 && ms > total {
                total
            } else {
                ms
            };
        }
        let level: u32 = bits::abs(x);
        if bits::less(self.peak_acc, level) {
            self.peak_acc = level;
        }
        self.peak_counter = self.peak_counter + 1;
        if self.peak_counter >= METER_EVERY {
            self.peak_counter = 0;
            state.output_peak = self.peak_acc;
            self.peak_acc = bits::ZERO;
        }
        self.frame_pos = self.frame_pos + 1;
    }
}

/// The longest stretch of a file that is scanned, in seconds: about four hours.
pub const SCAN_SECONDS: u64 = 14400;

/// How many samples of all channels are counted at most to measure a file.
pub open spec fn scan_limit(channels: int, rate: int) -> int {
    rate * channels * SCAN_SECONDS
}

/// A file is never scanned beyond this many samples of all its channels.
pub fn scan_cap(channels: u16, rate: u32) -> (r: u64)
    ensures
        r == scan_limit(channels as int, rate as int),
{
    proof {
        assert(rate * channels <= 0xffff_ffff * 0xffff) by (nonlinear_arith)
            requires
                0 <= rate <= 0xffff_ffff,
                0 <= channels <= 0xffff,
        ;
    }
    rate as u64 * channels as u64 * SCAN_SECONDS
}

/// The duration of a file with `samples` samples in all its channels, as far as
/// the scan goes; 0 where rate or channels are unknown.
pub open spec fn duration_ms(samples: int, channels: int, rate: int) -> int {
    let limit = scan_limit(channels, rate);
    let n = if samples < limit {
        samples
    } else {
        limit
    };
    if rate == 0 || channels == 0 {
        0
    } else {
        (n / channels) * 1000 / rate
    }
}

/// The duration of a file in milliseconds, from its sample count. Used when the
/// decoder cannot report a length up front.
pub fn measure_total_ms(samples: u64, channels: u16, rate: u32) -> (r: u64)
    ensures
        r == duration_ms(samples as int, channels as int, rate as int),
{
    if rate == 0 || channels == 0 {
        return 0;
    }
    let cap: u64 = scan_cap(channels, rate);
    let n: u64 = if samples < cap {
        samples
    } else {
        cap
    };
    let frames: u64 = n / channels as u64;
    proof {
        lemma_frames_in_scan(n as int, channels as int, rate as int);
    }
    frames * 1000 / rate as u64
}

/// A scan counts at most as many frames as its seconds hold.
proof fn lemma_frames_in_scan(n: int, channels: int, rate: int)
    requires
        channels > 0,
        0 <= n <= scan_limit(channels, rate),
    ensures
        0 <= n / channels <= rate * SCAN_SECONDS,
{
    let longest = rate * SCAN_SECONDS;
    assert(scan_limit(channels, rate) == channels * longest) by (nonlinear_arith)
        requires
            scan_limit(channels, rate) == rate * channels * SCAN_SECONDS,
            longest == rate * SCAN_SECONDS,
    ;
    vstd::arithmetic::div_mod::lemma_div_multiples_vanish(longest, channels);
    vstd::arithmetic::div_mod::lemma_div_is_ordered(n, channels * longest, channels);
    vstd::arithmetic::div_mod::lemma_div_pos_is_pos(n, channels);
}

/// The length that the decoder reports, unless it reports none or zero.
pub fn reported_length(reported: Option<u64>) -> (r: Option<u64>)
    ensures
        r == if reported matches Some(ms) && ms > 0 {
            reported
        } else {
            None
        },
{
    match reported {
        Some(ms) => if ms > 0 {
            Some(ms)
        } else {
            None
        },
        None => None,
    }
}

/// The playback position never passes the end of a file whose length is known.
pub proof fn law_position_stays_in_the_file(v: SourceView, s: StateView, x: u32)
    requires
        s.total_ms > 0,
        s.play_ms <= s.total_ms,
        v.wf(),
    ensures
        v.reported(s, x).play_ms <= s.total_ms,
        v.reported(s, x).total_ms == s.total_ms,
{
    vstd::arithmetic::div_mod::lemma_div_pos_is_pos(v.frame_n + 1, v.channels);
    let frames = (v.frame_n + 1) / v.channels;
    vstd::arithmetic::div_mod::lemma_div_pos_is_pos(frames * 1000, v.rate.hz as int);
}

/// A seek goes to the position asked for, forwards and backwards: once the samples
/// before it were dropped, from the start of the file where the position lies behind,
/// playback stands there. A second seek to the same position neither rewinds nor drops
/// anything.
pub proof fn law_seek_reaches_its_position(v: SourceView, ms: int)
    requires
        v.wf(),
        ms >= 0,
    ensures
        v.sought(ms).wf(),
        v.sought(ms).seek_target(ms) == v.seek_target(ms),
        0 <= v.sought(ms).frame_n <= v.seek_target(ms),
        ({
            let skip = v.seek_target(ms) - v.sought(ms).frame_n;
            let there = SourceView { frame_n: v.sought(ms).frame_n + skip, ..v.sought(ms) };
            &&& there.frame_n == v.seek_target(ms)
            &&& there.sought(ms) == there
            &&& there.seek_target(ms) - there.frame_n == 0
        }),
        v.rewinds(ms) <==> v.seek_target(ms) < v.frame_n,
{
    lemma_sample_at_is_positive(v, ms);
}

proof fn lemma_sample_at_is_positive(v: SourceView, ms: int)
    requires
        v.wf(),
        ms >= 0,
    ensures
        v.sample_at(ms) >= 0,
        0 <= v.channel() < v.channels,
{
    let hz = v.rate.hz as int;
    assert(ms * hz >= 0) by (nonlinear_arith)
        requires
            ms >= 0,
            hz >= 0,
    ;
    let f = ms * hz / 1000;
    assert(f * v.channels >= 0) by (nonlinear_arith)
        requires
            f >= 0,
            v.channels >= 1,
    ;
    vstd::arithmetic::div_mod::lemma_mod_bound(v.frame_pos, v.channels);
}

/// A seek goes to the frame of the position asked for, at most a millisecond before
/// it.
pub proof fn law_seek_lands_on_its_millisecond(v: SourceView, ms: int)
    requires
        v.wf(),
        v.rate.hz >= 1000,
        ms >= 0,
    ensures
        v.sample_at(ms) % v.channels == 0,
        v.seek_target(ms) / v.channels == v.sample_at(ms) / v.channels,
        ms - 1 <= v.position_at(v.seek_target(ms)) <= ms,
{
    let c = v.channels;
    let hz = v.rate.hz as int;
    let f = ms * hz / 1000;
    lemma_sample_at_is_positive(v, ms);
    vstd::arithmetic::div_mod::lemma_fundamental_div_mod_converse(f * c, c, f, 0);
    vstd::arithmetic::div_mod::lemma_fundamental_div_mod_converse(
        f * c + v.channel(),
        c,
        f,
        v.channel(),
    );
    let p = f * 1000 / hz;
    vstd::arithmetic::div_mod::lemma_fundamental_div_mod(f * 1000, hz);
    vstd::arithmetic::div_mod::lemma_mod_bound(f * 1000, hz);
    assert(ms - 1 <= p <= ms) by (nonlinear_arith)
        requires
            hz >= 1000,
            hz * p <= f * 1000 < hz * p + hz,
            f * 1000 <= ms * hz < f * 1000 + 1000,
    ;
}

/// The sample that is pulled next belongs to the channel whose turn it is: at the
/// start of a file, after every sample if it was so before, and after every seek,
/// wherever in a frame it came.
pub proof fn law_samples_meet_their_channels(
    v: SourceView,
    x: u32,
    ms: int,
    rate: Rate,
    channels: int,
)
    requires
        v.wf(),
        ms >= 0,
        channels >= 1,
    ensures
        SourceView::starting(rate, channels).aligned(),
        v.aligned() ==> v.advanced(x).aligned(),
        (SourceView { frame_n: v.seek_target(ms), ..v.sought(ms) }).aligned(),
        v.sought(ms).channel() == v.channel(),
{
    let c = v.channels;
    let f = ms * v.rate.hz / 1000;
    lemma_sample_at_is_positive(v, ms);
    vstd::arithmetic::div_mod::lemma_fundamental_div_mod_converse(
        f * c + v.channel(),
        c,
        f,
        v.channel(),
    );
    if v.aligned() {
        vstd::arithmetic::div_mod::lemma_add_mod_noop(v.frame_n, 1, c);
        vstd::arithmetic::div_mod::lemma_add_mod_noop(v.frame_pos, 1, c);
    }
}

/// The position at the end of a file is the duration that was measured for it, for
/// files that are scanned to their end.
pub proof fn law_last_position_is_the_duration(v: SourceView, samples: int)
    requires
        v.wf(),
        0 <= samples <= scan_limit(v.channels, v.rate.hz as int),
    ensures
        v.position_at(samples) == duration_ms(samples, v.channels, v.rate.hz as int),
{
}

/// Once the steps of the chain were taken, every enabled active band runs through
/// a filter that is set up with the band's present parameters, on the channel
/// whose turn it is; taking the steps again sets nothing up.
pub proof fn law_filters_follow_the_bands(v: SourceView, s: StateView, i: int)
    requires
        v.wf(),
        s.wf(),
        0 <= i < s.band_count,
    ensures
        s.bands[i].enabled ==> v.set_up(s).caches[v.channel()][i] == key_of(s.bands[i]),
        !s.bands[i].enabled ==> v.steps(s)[i] == BandStep::Bypass && v.set_up(
            s,
        ).caches[v.channel()][i] == v.caches[v.channel()][i],
        v.set_up(s).steps(s)[i] != BandStep::SetUp,
        v.set_up(s).set_up(s) == v.set_up(s),
{
    vstd::arithmetic::div_mod::lemma_mod_bound(v.frame_pos, v.channels);
    let c = v.channel();
    assert(v.set_up(s).set_up(s).caches[c] =~= v.set_up(s).caches[c]);
    assert(v.set_up(s).set_up(s).caches =~= v.set_up(s).caches);
}

/// The filters of the other channels are left alone.
pub proof fn law_channels_are_independent(v: SourceView, s: StateView, c: int)
    requires
        v.wf(),
        0 <= c < v.channels,
        c != v.channel(),
    ensures
        v.set_up(s).caches[c] == v.caches[c],
{
}

/// The channels take turns, one sample each, in order.
pub proof fn law_channels_take_turns(v: SourceView, x: u32)
    requires
        v.wf(),
    ensures
        0 <= v.channel() < v.channels,
        v.advanced(x).channel() == if v.channel() + 1 == v.channels {
            0
        } else {
            v.channel() + 1
        },
{
    let m = v.channels;
    let p = v.frame_pos;
    vstd::arithmetic::div_mod::lemma_mod_bound(p, m);
    vstd::arithmetic::div_mod::lemma_fundamental_div_mod(p, m);
    let q = p / m;
    let r = p % m;
    if r + 1 == m {
        assert(p + 1 == (q + 1) * m) by (nonlinear_arith)
            requires
                p == m * q + r,
                r + 1 == m,
        ;
        vstd::arithmetic::div_mod::lemma_fundamental_div_mod_converse(p + 1, m, q + 1, 0);
    } else {
        assert(p + 1 == q * m + (r + 1)) by (nonlinear_arith)
            requires
                p == m * q + r,
        ;
        vstd::arithmetic::div_mod::lemma_fundamental_div_mod_converse(p + 1, m, q, r + 1);
    }
}

/// A rate that needs no more than 24 bits is held exactly, and every rate is off
/// by at most half the distance of its neighbours.
pub proof fn law_rates_are_rounded_to_nearest(n: int)
    requires
        0 <= n <= u32::MAX,
    ensures
        n < 0x100_0000 ==> rounded(n) == n,
        -spacing(n) <= 2 * (rounded(n) - n) <= spacing(n),
{
    let u = spacing(n);
    vstd::arithmetic::div_mod::lemma_fundamental_div_mod(n, u);
    let q = n / u;
    assert((q + 1) * u == u * q + u && q * u == u * q) by (nonlinear_arith);
}

/// A filter is set up again exactly when its band is enabled and the frequency, the gain,
/// the Q or the shape differs from what the filter of this channel was last set up with;
/// it goes on as it is exactly when the band is enabled and all four are the same; a band
/// that is off is passed by. What a filter was last set up with changes by setting it up
/// and by nothing else, and is all of the band's four parameters then.
pub proof fn law_every_change_of_a_band_is_heard(v: SourceView, s: StateView, i: int)
    requires
        v.wf(),
        s.wf(),
        0 <= i < s.band_count,
    ensures
        ({
            let band = s.bands[i];
            let last = v.caches[v.channel()][i];
            let now = v.set_up(s).caches[v.channel()][i];
            let step = v.steps(s)[i];
            &&& v.steps(s).len() == s.band_count
            &&& step == BandStep::SetUp <==> band.enabled && (last.freq_hz != band.freq_hz
                || last.gain_db != band.gain_db || last.q != band.q || last.kind != band.kind)
            &&& step == BandStep::Process <==> band.enabled && last.freq_hz == band.freq_hz
                && last.gain_db == band.gain_db && last.q == band.q && last.kind == band.kind
            &&& step == BandStep::Bypass <==> !band.enabled
            &&& step == BandStep::SetUp ==> now.freq_hz == band.freq_hz && now.gain_db
                == band.gain_db && now.q == band.q && now.kind == band.kind
            &&& step != BandStep::SetUp ==> now == last
            &&& band.enabled ==> now.freq_hz == band.freq_hz && now.gain_db == band.gain_db
                && now.q == band.q && now.kind == band.kind
        }),
{
    vstd::arithmetic::div_mod::lemma_mod_bound(v.frame_pos, v.channels);
}

/// Two strips that agree in what an enabled band is, or that both have it off, ask for the
/// same step; a band that is moved and moved back before the next sample is not set up
/// again.
pub proof fn law_steps_depend_on_the_band_alone(
    v: SourceView,
    s: StateView,
    t: StateView,
    i: int,
)
    requires
        v.wf(),
        s.wf(),
        t.wf(),
        0 <= i < s.band_count,
        i < t.band_count,
    ensures
        s.bands[i] == t.bands[i] ==> v.steps(s)[i] == v.steps(t)[i],
        s.bands[i] == t.bands[i] && s.bands[i].enabled ==> v.set_up(s).steps(t)[i]
            == BandStep::Process,
        t.bands[i].enabled && s.bands[i].enabled && (s.bands[i].freq_hz != t.bands[i].freq_hz
            || s.bands[i].gain_db != t.bands[i].gain_db || s.bands[i].q != t.bands[i].q
            || s.bands[i].kind != t.bands[i].kind) ==> v.set_up(s).steps(t)[i] == BandStep::SetUp,
{
    law_every_change_of_a_band_is_heard(v, s, i);
    law_every_change_of_a_band_is_heard(v, t, i);
    vstd::arithmetic::div_mod::lemma_mod_bound(v.frame_pos, v.channels);
}

/// Taking the steps of a sample touches nothing but what the filters of its channel are set
/// up with, and of those only the active bands'.
pub proof fn law_steps_touch_one_channel(v: SourceView, s: StateView, c: int, i: int)
    requires
        v.wf(),
        s.wf(),
        0 <= c < v.channels,
        0 <= i < MAX_BANDS,
    ensures
        v.set_up(s) == (SourceView { caches: v.set_up(s).caches, ..v }),
        v.set_up(s).caches.len() == v.caches.len(),
        v.set_up(s).caches[c].len() == v.caches[c].len(),
        c != v.channel() || i >= s.band_count ==> v.set_up(s).caches[c][i] == v.caches[c][i],
{
    vstd::arithmetic::div_mod::lemma_mod_bound(v.frame_pos, v.channels);
}

/// A file starts at its beginning with every filter unset, and so does every channel after
/// a change of rate or channels: an enabled band with a shape is set up before its first
/// sample. The samples consumed and the meter go on. While the layout stays nothing changes.
pub proof fn law_new_layout_sets_everything_up(
    v: SourceView,
    s: StateView,
    rate: Rate,
    channels: int,
    c: int,
    i: int,
)
    requires
        v.wf(),
        s.wf(),
        rate.wf(),
        channels >= 1,
        0 <= c < channels,
        0 <= i < s.band_count,
        s.bands[i].enabled,
        s.bands[i].kind < 5,
    ensures
        ({
            let f = SourceView::starting(rate, channels);
            &&& f.rate == rate && f.channels == channels
            &&& f.frame_pos == 0 && f.frame_n == 0 && f.last_report == 0
            &&& f.peak_acc == 0 && f.peak_counter == 0
            &&& f.wf()
            &&& (SourceView { frame_pos: c, ..f }).steps(s)[i] == BandStep::SetUp
        }),
        ({
            let w = v.configured(rate, channels);
            let changed = channels != v.channels || rate.hz != v.rate.hz;
            &&& v.differs_from(rate, channels) <==> changed
            &&& !changed ==> w == v
            &&& changed ==> {
                &&& w.rate == rate && w.channels == channels && w.frame_pos == 0
                &&& (SourceView { frame_pos: c, ..w }).steps(s)[i] == BandStep::SetUp
            }
            &&& w.wf()
            &&& w == (SourceView {
                rate: w.rate,
                channels: w.channels,
                frame_pos: w.frame_pos,
                caches: w.caches,
                ..v
            })
        }),
{
    vstd::arithmetic::div_mod::lemma_small_mod(c as nat, channels as nat);
}

/// The position after `n` samples of all channels is the last whole millisecond that the
/// full frames among them reach, and a seek goes to the last frame that starts at its
/// millisecond or before it. A second of frames is a thousand milliseconds.
pub proof fn law_positions_are_milliseconds(v: SourceView, n: int, ms: int, seconds: int)
    requires
        v.wf(),
        n >= 0,
        ms >= 0,
        seconds >= 0,
    ensures
        v.position_at(n) * v.rate.hz <= (n / v.channels) * 1000 < (v.position_at(n) + 1)
            * v.rate.hz,
        v.sample_at(ms) % v.channels == 0,
        (v.sample_at(ms) / v.channels) * 1000 <= ms * v.rate.hz < (v.sample_at(ms) / v.channels + 1)
            * 1000,
        v.position_at(seconds * v.rate.hz * v.channels) == seconds * 1000,
        v.sample_at(seconds * 1000) == seconds * v.rate.hz * v.channels,
{
    let c = v.channels;
    let hz = v.rate.hz as int;
    let frames = n / c;
    let p = frames * 1000 / hz;
    vstd::arithmetic::div_mod::lemma_fundamental_div_mod(frames * 1000, hz);
    vstd::arithmetic::div_mod::lemma_mod_bound(frames * 1000, hz);
    assert(p * hz <= frames * 1000 < (p + 1) * hz) by (nonlinear_arith)
        requires
            hz * p <= frames * 1000 < hz * p + hz,
    ;
    let f = ms * hz / 1000;
    assert(ms * hz >= 0) by (nonlinear_arith)
        requires
            ms >= 0,
            hz >= 0,
    ;
    vstd::arithmetic::div_mod::lemma_fundamental_div_mod_converse(f * c, c, f, 0);
    let whole = seconds * hz;
    vstd::arithmetic::div_mod::lemma_fundamental_div_mod_converse(whole * c, c, whole, 0);
    assert(whole * 1000 == (seconds * 1000) * hz) by (nonlinear_arith)
        requires
            whole == seconds * hz,
    ;
    vstd::arithmetic::div_mod::lemma_fundamental_div_mod_converse(
        whole * 1000,
        hz,
        seconds * 1000,
        0,
    );
}

/// When 4096 samples went by since the last report, the position of all samples consumed is
/// reported as it is, unless the length of the file is known and lies before it: then the
/// length is. Between reports the position shown stays. No other part of the shared state
/// is touched but the meter.
pub proof fn law_reported_position_is_the_position(v: SourceView, s: StateView, x: u32)
    requires
        v.wf(),
        (v.frame_n + 1) * 1000 <= u64::MAX,
    ensures
        ({
            let n = v.frame_n + 1;
            let t = v.reported(s, x);
            let due = n - v.last_report >= 4096;
            let position = v.position_at(n);
            &&& !due ==> t.play_ms == s.play_ms && v.advanced(x).last_report == v.last_report
            &&& due ==> v.advanced(x).last_report == n
            &&& due && (s.total_ms == 0 || position <= s.total_ms) ==> t.play_ms == position
            &&& due && s.total_ms > 0 && position > s.total_ms ==> t.play_ms == s.total_ms
            &&& t == (StateView { play_ms: t.play_ms, output_peak: t.output_peak, ..s })
        }),
{
    let c = v.channels;
    let hz = v.rate.hz as int;
    let n = v.frame_n + 1;
    let frames = n / c;
    vstd::arithmetic::div_mod::lemma_div_pos_is_pos(n, c);
    vstd::arithmetic::div_mod::lemma_div_is_ordered_by_denominator(n, 1, c);
    vstd::arithmetic::div_mod::lemma_div_pos_is_pos(frames * 1000, hz);
    vstd::arithmetic::div_mod::lemma_div_is_ordered_by_denominator(frames * 1000, 1, hz);
}

/// Every sample counts once and leaves rate, channels and filters alone. The meter collects
/// the loudest of 200 samples, shows it with the last of them and starts over; until then
/// it shows what it showed.
pub proof fn law_samples_are_counted_and_metered(v: SourceView, s: StateView, x: u32)
    requires
        v.wf(),
    ensures
        ({
            let w = v.advanced(x);
            let t = v.reported(s, x);
            let due = v.peak_counter == 199;
            let loudest = if due {
                t.output_peak
            } else {
                w.peak_acc
            };
            &&& w.frame_n == v.frame_n + 1
            &&& w.frame_pos == v.frame_pos + 1
            &&& w.rate == v.rate && w.channels == v.channels && w.caches == v.caches
            &&& w.wf()
            &&& loudest == v.peak_acc || loudest == bits::absolute(x)
            &&& !bits::lt(loudest, v.peak_acc)
            &&& !bits::lt(loudest, bits::absolute(x))
            &&& bits::nan(x) ==> loudest == v.peak_acc
            &&& due ==> w.peak_acc == 0 && w.peak_counter == 0
            &&& !due ==> w.peak_counter == v.peak_counter + 1 && t.output_peak == s.output_peak
        }),
{
}

/// A seek touches the counts alone, and nothing where it goes forwards.
pub proof fn law_seek_touches_the_counts(v: SourceView, ms: int)
    requires
        v.wf(),
    ensures
        v.channel() == v.frame_pos % v.channels,
        v.sought(ms) == (SourceView {
            frame_n: v.sought(ms).frame_n,
            last_report: v.sought(ms).last_report,
            ..v
        }),
        v.sample_at(ms) + v.frame_pos % v.channels >= v.frame_n ==> v.sought(ms) == v,
        v.sample_at(ms) + v.frame_pos % v.channels < v.frame_n ==> v.sought(ms).frame_n == 0
            && v.sought(ms).last_report == 0,
{
}

/// A measured duration is the last whole millisecond that the full frames of the file reach;
/// a file of four hours or more counts as four hours, and one without rate or channels as
/// nothing.
pub proof fn law_durations_are_milliseconds(samples: int, channels: int, rate: int)
    requires
        samples >= 0,
        channels >= 0,
        rate >= 0,
    ensures
        ({
            let d = duration_ms(samples, channels, rate);
            &&& rate == 0 || channels == 0 ==> d == 0
            &&& rate > 0 && channels > 0 && samples < rate * channels * 14400 ==> d * rate <= (
            samples / channels) * 1000 < (d + 1) * rate
            &&& rate > 0 && channels > 0 && samples >= rate * channels * 14400 ==> d == 14_400_000
        }),
{
    if rate > 0 && channels > 0 {
        let limit = scan_limit(channels, rate);
        if samples < limit {
            let f = samples / channels;
            let d = f * 1000 / rate;
            vstd::arithmetic::div_mod::lemma_fundamental_div_mod(f * 1000, rate);
            vstd::arithmetic::div_mod::lemma_mod_bound(f * 1000, rate);
            assert(d * rate <= f * 1000 < (d + 1) * rate) by (nonlinear_arith)
                requires
                    rate * d <= f * 1000 < rate * d + rate,
            ;
        } else {
            let f = rate * 14400;
            assert(limit == f * channels) by (nonlinear_arith)
                requires
                    limit == rate * channels * 14400,
                    f == rate * 14400,
            ;
            vstd::arithmetic::div_mod::lemma_fundamental_div_mod_converse(limit, channels, f, 0);
            assert(f * 1000 == 14_400_000 * rate) by (nonlinear_arith)
                requires
                    f == rate * 14400,
            ;
            vstd::arithmetic::div_mod::lemma_fundamental_div_mod_converse(
                f * 1000,
                rate,
                14_400_000,
                0,
            );
        }
    }
}

/// The number that stands for a rate has a significand of at most 24 bits and is the
/// nearest such number; of two that are equally near it is the one with the even
/// significand.
pub proof fn law_ties_go_to_even(n: int)
    requires
        0 < n <= u32::MAX,
    ensures
        rounded(n) % spacing(n) == 0,
        n / spacing(n) < 0x100_0000,
        n >= 0x100_0000 ==> n / spacing(n) >= 0x80_0000,
        2 * (rounded(n) - n) == spacing(n) || 2 * (n - rounded(n)) == spacing(n) ==> (rounded(n)
            / spacing(n)) % 2 == 0,
{
    let u = spacing(n);
    let q = n / u;
    vstd::arithmetic::div_mod::lemma_fundamental_div_mod(n, u);
    vstd::arithmetic::div_mod::lemma_fundamental_div_mod_converse(q * u, u, q, 0);
    vstd::arithmetic::div_mod::lemma_fundamental_div_mod_converse((q + 1) * u, u, q + 1, 0);
    assert((q + 1) * u == u * q + u && q * u == u * q) by (nonlinear_arith);
}

/// The pattern of a rate stands for the whole number of Hz beside it.
pub proof fn law_rate_is_its_pattern(r: Rate)
    requires
        r.wf(),
    ensures
        r.hz > 0,
        !bits::nan(r.bits),
        bits::value(r.bits) == bits::units(r.hz as int),
{
}

/// A scan counts the samples of all channels of four hours: 14400 seconds.
pub proof fn law_scan_takes_four_hours(channels: int, rate: int)
    ensures
        scan_limit(channels, rate) == (4 * 60 * 60) * (rate * channels),
{
    assert(rate * channels * 14400 == 14400 * (rate * channels)) by (nonlinear_arith);
}

} // verus!
