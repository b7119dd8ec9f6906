//! The live path: captured samples go through a queue to the output callback.

use crate::audio::SharedState;
use crate::bits;
use vstd::prelude::*;

verus! {

/// The writing end of the queue between the capture and the output callback: the
/// producer half of a heap-allocated ring buffer of the `ringbuf` crate.
#[verifier::external_body]
pub struct SampleProducer {
    inner: ringbuf::HeapProducer<u32>,
}

/// The reading end of the queue between the capture and the output callback: the
/// consumer half of a heap-allocated ring buffer of the `ringbuf` crate.
#[verifier::external_body]
pub struct SampleConsumer {
    inner: ringbuf::HeapConsumer<u32>,
}

/// The samples that were handed to the writing end so far, whether they found room
/// or not.
pub uninterp spec fn offered(p: SampleProducer) -> Seq<u32>;

/// The samples that the writing end has put into the queue so far.
pub uninterp spec fn written(p: SampleProducer) -> Seq<u32>;

/// The samples that are put into the queue over its whole life, in order.
pub uninterp spec fn line(p: SampleProducer) -> Seq<u32>;

/// How many samples the queue can hold at a time.
pub uninterp spec fn room(p: SampleProducer) -> nat;

/// The samples that the reading end has taken out of the queue so far.
pub uninterp spec fn taken(c: SampleConsumer) -> Seq<u32>;

/// The samples that are put into the queue at the other end over its whole life, in
/// order.
pub uninterp spec fn line_from(c: SampleConsumer) -> Seq<u32>;

/// Calls `ringbuf::HeapRb::new` and then `split` on its result. The two ends belong
/// to one queue that holds `capacity` samples at a time; both start with nothing
/// offered, nothing written and nothing taken. A capacity of zero makes `new` panic, and so does one
/// whose bytes exceed the address space.
#[verifier::external_body]
fn new_ring(capacity: usize) -> (r: (SampleProducer, SampleConsumer))
    requires
        0 < capacity <= isize::MAX as usize / 4,
    ensures
        offered(r.0) == Seq::<u32>::empty(),
        written(r.0) == Seq::<u32>::empty(),
        taken(r.1) == Seq::<u32>::empty(),
        room(r.0) == capacity,
        line(r.0) == line_from(r.1),
{
    let (producer, consumer) = ringbuf::HeapRb::<u32>::new(capacity).split();
    (SampleProducer { inner: producer }, SampleConsumer { inner: consumer })
}

/// Calls `ringbuf::Producer::push`: the sample is appended to the queue, or handed
/// back where the queue is full; either way it was offered. Whether the queue is full
/// depends on the reading thread, but a queue into which fewer samples than its capacity were ever written is not.
/// What was written so far is the beginning of all that is ever written.
#[verifier::external_body]
fn ring_push(p: &mut SampleProducer, sample: u32) -> (r: Result<(), u32>)
    ensures
        match r {
            Ok(_) => written(*final(p)) == written(*old(p)).push(sample),
            Err(back) => {
                &&& back == sample
                &&& written(*final(p)) == written(*old(p))
                &&& written(*old(p)).len() >= room(*old(p))
            },
        },
        offered(*final(p)) == offered(*old(p)).push(sample),
        room(*final(p)) == room(*old(p)),
        line(*final(p)) == line(*old(p)),
        written(*final(p)).is_prefix_of(line(*final(p))),
{
    p.inner.push(sample)
}

/// Calls `ringbuf::Consumer::pop`: the oldest sample is taken out of the queue, or
/// nothing where the queue is empty. Which of the two it is depends on the writing
/// thread. Samples come out in the order in which they were written, so what was
/// taken so far is the beginning of all that is ever written.
#[verifier::external_body]
fn ring_pop(c: &mut SampleConsumer) -> (r: Option<u32>)
    ensures
        match r {
            Some(sample) => taken(*final(c)) == taken(*old(c)).push(sample),
            None => taken(*final(c)) == taken(*old(c)),
        },
        line_from(*final(c)) == line_from(*old(c)),
        taken(*final(c)).is_prefix_of(line_from(*final(c))),
{
    c.inner.pop()
}

/// The samples of a block of which `kept` says that they found room in the queue.
pub open spec fn kept_samples(block: Seq<u32>, kept: Seq<bool>) -> Seq<u32>
    decreases block.len(),
{
    if block.len() == 0 || block.len() != kept.len() {
        Seq::empty()
    } else if kept.last() {
        kept_samples(block.drop_last(), kept.drop_last()).push(block.last())
    } else {
        kept_samples(block.drop_last(), kept.drop_last())
    }
}

/// The loudest of some samples, at least `start`. What is no number is passed over.
pub open spec fn peak_of(start: u32, samples: Seq<u32>) -> u32
    decreases samples.len(),
{
    if samples.len() == 0 {
        start
    } else {
        bits::larger(
            peak_of(start, samples.drop_last()),
            bits::absolute(samples.last()),
        )
    }
}

/// The sample that is played where the queue gave `popped`: silence where it gave
/// none.
pub open spec fn played(popped: Option<u32>) -> u32 {
    match popped {
        Some(sample) => sample,
        None => bits::ZERO,
    }
}

/// How many samples the queue can hold: two seconds of them.
pub open spec fn ring_capacity(rate_hz: int) -> int {
    rate_hz * 2
}

/// Opens the queue for a stream of the given rate: room for two seconds of samples,
/// and both ends at its beginning.
pub fn open_ring(rate_hz: u64) -> (r: (SampleProducer, SampleConsumer))
    requires
        0 < ring_capacity(rate_hz as int) <= isize::MAX as usize / 4,
    ensures
        offered(r.0) == Seq::<u32>::empty(),
        written(r.0) == Seq::<u32>::empty(),
        taken(r.1) == Seq::<u32>::empty(),
        room(r.0) == ring_capacity(rate_hz as int),
        line(r.0) == line_from(r.1),
{
    new_ring(rate_hz as usize * 2)
}

/// The louder of a peak and a sample.
pub fn louder(peak: u32, sample: u32) -> (r: u32)
    ensures
        r == bits::larger(peak, bits::absolute(sample)),
{
    bits::max_of(peak, bits::abs(sample))
}

/// The loudest sample of a block.
fn peak_in(block: &Vec<u32>) -> (peak: u32)
    ensures
        peak == peak_of(bits::ZERO, block@),
{
    let mut peak: u32 = bits::ZERO;
    let mut i: usize = 0;
    assert(block@.take(0) =~= Seq::<u32>::empty());
    while i < block.len()
        invariant
            i <= block@.len(),
            peak == peak_of(bits::ZERO, block@.take(i as int)),
        decreases block@.len() - i,
    {
        peak = louder(peak, block[i]);
        i = i + 1;
        assert(block@.take(i as int).drop_last() =~= block@.take(i - 1));
    }
    assert(block@.take(block@.len() as int) =~= block@);
    peak
}

/// Takes a block of captured samples with `channels` interleaved channels. `mixes`
/// holds one sample for each frame of the block: its channels summed to mono. Every
/// mix is offered to the queue, in order, and those that find no room are dropped;
/// where there is room for all of them in any case, none is. Gives the peak of the
/// whole block.
pub fn capture(
    p: &mut SampleProducer,
    block: &Vec<u32>,
    channels: usize,
    mixes: &Vec<u32>,
) -> (peak: u32)
    requires
        channels >= 1,
        mixes@.len() * channels == block@.len(),
    ensures
        peak == peak_of(bits::ZERO, block@),
        offered(*final(p)) == offered(*old(p)) + mixes@,
        exists|kept: Seq<bool>|
            kept.len() == mixes@.len() && written(*final(p)) == written(*old(p))
                + #[trigger] kept_samples(mixes@, kept),
        written(*old(p)).len() + mixes@.len() <= room(*old(p)) ==> written(*final(p)) == written(
            *old(p),
        ) + mixes@,
        room(*final(p)) == room(*old(p)),
        line(*final(p)) == line(*old(p)),
        written(*old(p)).is_prefix_of(line(*old(p))) ==> written(*final(p)).is_prefix_of(
            line(*final(p)),
        ),
{
    let ghost mut kept: Seq<bool> = Seq::empty();
    let mut i: usize = 0;
    assert(mixes@.take(0) =~= Seq::<u32>::empty());
    assert(offered(*p) + mixes@.take(0) =~= offered(*p));
    assert(written(*p) + kept_samples(mixes@.take(0), kept) =~= written(*p));
    assert(written(*p) + mixes@.take(0) =~= written(*p));
    while i < mixes.len()
        invariant
            i <= mixes@.len(),
            kept.len() == i,
            offered(*p) == offered(*old(p)) + mixes@.take(i as int),
            written(*p) == written(*old(p)) + kept_samples(mixes@.take(i as int), kept),
            written(*old(p)).len() + mixes@.len() <= room(*old(p)) ==> written(*p) == written(
                *old(p),
            ) + mixes@.take(i as int),
            room(*p) == room(*old(p)),
            line(*p) == line(*old(p)),
            written(*old(p)).is_prefix_of(line(*old(p))) ==> written(*p).is_prefix_of(line(*p)),
        decreases mixes@.len() - i,
    {
        let done = ring_push(p, mixes[i]);
        i = i + 1;
        proof {
            let before = kept;
            kept = kept.push(done is Ok);
            let now = mixes@.take(i as int);
            assert(now.drop_last() =~= mixes@.take(i - 1));
            assert(kept.drop_last() =~= before);
            assert(offered(*p) =~= offered(*old(p)) + now);
            assert(written(*p) =~= written(*old(p)) + kept_samples(now, kept));
            if written(*old(p)).len() + mixes@.len() <= room(*old(p)) {
                assert(written(*p) =~= written(*old(p)) + now);
            }
        }
    }
    assert(mixes@.take(mixes@.len() as int) =~= mixes@);
    peak_in(block)
}

/// Which of the active bands the output runs through: those that are enabled.
pub fn live_steps(state: &SharedState, steps: &mut Vec<bool>)
    requires
        state.wf(),
    ensures
        final(steps)@ == Seq::new(
            state@.band_count as nat,
            |i: int| state@.bands[i].enabled,
        ),
{
    let n: usize = state.num_bands();
    steps.clear();
    let mut i: usize = 0;
    while i < n
        invariant
            i <= n,
            n == state@.band_count,
            state.wf(),
            steps@.len() == i,
            forall|k: int| 0 <= k < i ==> #[trigger] steps@[k] == state@.bands[k].enabled,
        decreases n - i,
    {
        steps.push(state.bands[i].enabled());
        i = i + 1;
    }
}

/// The next sample to play: the oldest one in the queue, or silence.
pub fn next_sample(c: &mut SampleConsumer) -> (r: u32)
    ensures
        (taken(*final(c)) == taken(*old(c)).push(r)) || (r == bits::ZERO && taken(*final(c)) == taken(
            *old(c),
        )),
        line_from(*final(c)) == line_from(*old(c)),
        taken(*final(c)).is_prefix_of(line_from(*final(c))),
{
    let popped = ring_pop(c);
    sample_or_silence(popped)
}

/// The sample, or silence where there is none.
pub fn sample_or_silence(popped: Option<u32>) -> (r: u32)
    ensures
        r == played(popped),
{
    match popped {
        Some(sample) => sample,
        None => bits::ZERO,
    }
}

/// The filter chain for channel `ch`, where there are `chains` of them: its own, or
/// the last one where it has none.
pub fn chain_index(ch: usize, chains: usize) -> (r: usize)
    ensures
        r == if ch < chains {
            ch as int
        } else if chains > 0 {
            chains - 1
        } else {
            0
        },
        chains > 0 ==> r < chains,
{
    if ch < chains {
        ch
    } else if chains > 0 {
        chains - 1
    } else {
        0
    }
}

/// The sample formats of an audio device. Those that the streams can convert have
/// a variant of their own; the others carry their name.
pub enum DeviceFormat {
    F32,
    I16,
    U16,
    I32,
    U32,
    F64,
    Other(String),
}

/// The two directions of a stream.
#[derive(Clone, Copy, PartialEq, Eq, Structural, Debug)]
pub enum Direction {
    Input,
    Output,
}

/// What is said of a format that the streams cannot convert.
pub open spec fn format_refusal(direction: Direction, name: Seq<char>) -> Seq<char> {
    match direction {
        Direction::Input => "unsupported input sample format: "@ + name,
        Direction::Output => "unsupported output sample format: "@ + name,
    }
}

/// Accepts the formats that the streams can convert and refuses every other one.
pub fn check_format(direction: Direction, format: &DeviceFormat) -> (r: Result<(), String>)
    ensures
        match r {
            Ok(_) => !(format is Other),
            Err(message) => format matches DeviceFormat::Other(name) && message@ == format_refusal(
                direction,
                name@,
            ),
        },
{
    match format {
        DeviceFormat::Other(name) => {
            let mut message = match direction {
                Direction::Input => "unsupported input sample format: ".to_owned(),
                Direction::Output => "unsupported output sample format: ".to_owned(),
            };
            message.append(name.as_str());
            Err(message)
        },
        _ => Ok(()),
    }
}

/// Whether the name of a device is known and is the one asked for.
pub open spec fn is_named(name: Option<String>, wanted: Seq<char>) -> bool {
    name matches Some(n) && n@ == wanted
}

/// The first device with the name asked for. A device may not tell its name.
pub fn find_device(names: &Vec<Option<String>>, wanted: &String) -> (r: Option<usize>)
    ensures
        match r {
            Some(i) => {
                &&& i < names@.len()
                &&& is_named(names@[i as int], wanted@)
                &&& forall|j: int| 0 <= j < i ==> !is_named(#[trigger] names@[j], wanted@)
            },
            None => forall|j: int|
                0 <= j < names@.len() ==> !is_named(#[trigger] names@[j], wanted@),
        },
{
    let mut i: usize = 0;
    while i < names.len()
        invariant
            i <= names@.len(),
            forall|j: int| 0 <= j < i ==> !is_named(#[trigger] names@[j], wanted@),
        decreases names@.len() - i,
    {
        if let Some(name) = &names[i] {
            if *name == *wanted {
                return Some(i);
            }
        }
        i = i + 1;
    }
    None
}

/// The output device with the name asked for, or what is said where there is none.
pub fn find_output(names: &Vec<Option<String>>, wanted: &String) -> (r: Result<usize, String>)
    ensures
        match r {
            Ok(i) => {
                &&& i < names@.len()
                &&& is_named(names@[i as int], wanted@)
                &&& forall|j: int| 0 <= j < i ==> !is_named(#[trigger] names@[j], wanted@)
            },
            Err(message) => {
                &&& forall|j: int|
                    0 <= j < names@.len() ==> !is_named(#[trigger] names@[j], wanted@)
                &&& message@ == "specified output device not found: "@ + wanted@
            },
        },
{
    match find_device(names, wanted) {
        Some(i) => Ok(i),
        None => {
            let mut message = "specified output device not found: ".to_owned();
            message.append(wanted.as_str());
            Err(message)
        },
    }
}

/// A peak is at least as loud as every sample that is a number, and it is one of
/// them or where it started.
pub proof fn law_peak_is_the_loudest(start: u32, samples: Seq<u32>, i: int)
    requires
        !bits::nan(start),
        0 <= i < samples.len(),
    ensures
        !bits::nan(peak_of(start, samples)),
        !bits::lt(peak_of(start, samples), bits::absolute(samples[i])),
        !bits::lt(peak_of(start, samples), start),
        peak_of(start, samples) == start || exists|k: int|
            0 <= k < samples.len() && peak_of(start, samples) == bits::absolute(
                #[trigger] samples[k],
            ),
    decreases samples.len(),
{
    let before = samples.drop_last();
    if before.len() > 0 {
        let k = if i < before.len() {
            i
        } else {
            0
        };
        law_peak_is_the_loudest(start, before, k);
        if exists|k: int|
            0 <= k < before.len() && peak_of(start, before) == bits::absolute(#[trigger] before[k]) {
            let k = choose|k: int|
                0 <= k < before.len() && peak_of(start, before) == bits::absolute(
                    #[trigger] before[k],
                );
            assert(samples[k] == before[k]);
        }
    } else {
        assert(peak_of(start, before) == start);
    }
    assert(samples.last() == samples[samples.len() - 1]);
}

/// A block of which everything found room went through the queue unchanged, and
/// no more samples go in than were captured.
pub proof fn law_nothing_is_made_up(block: Seq<u32>, kept: Seq<bool>)
    requires
        block.len() == kept.len(),
    ensures
        kept_samples(block, kept).len() <= block.len(),
        (forall|i: int| 0 <= i < kept.len() ==> #[trigger] kept[i]) ==> kept_samples(block, kept)
            == block,
        (forall|i: int| 0 <= i < kept.len() ==> !#[trigger] kept[i]) ==> kept_samples(block, kept)
            == Seq::<u32>::empty(),
    decreases block.len(),
{
    if block.len() > 0 {
        law_nothing_is_made_up(block.drop_last(), kept.drop_last());
        assert(block.drop_last().push(block.last()) =~= block);
        assert(kept.last() == kept[kept.len() - 1]);
        assert(forall|i: int|
            0 <= i < kept.len() - 1 ==> #[trigger] kept.drop_last()[i] == kept[i]);
    } else {
        assert(block =~= Seq::<u32>::empty());
    }
}

/// Samples come out as they went in and in that order: at any moment, sample `i` that
/// was taken out at one end of a queue is sample `i` that was put in at the other.
pub proof fn law_queue_keeps_its_order(p: SampleProducer, c: SampleConsumer, i: int)
    requires
        line(p) == line_from(c),
        written(p).is_prefix_of(line(p)),
        taken(c).is_prefix_of(line_from(c)),
        0 <= i < written(p).len(),
        i < taken(c).len(),
    ensures
        taken(c)[i] == written(p)[i],
{
    assert(line(p).subrange(0, written(p).len() as int)[i] == line(p)[i]);
    assert(line(p).subrange(0, taken(c).len() as int)[i] == line(p)[i]);
}

/// What finds room of two stretches of samples is what finds room of the one and then of
/// the other; a sample alone is there or is not.
pub proof fn law_kept_samples_stay_in_order(
    a: Seq<u32>,
    b: Seq<u32>,
    kept_a: Seq<bool>,
    kept_b: Seq<bool>,
    x: u32,
)
    requires
        a.len() == kept_a.len(),
        b.len() == kept_b.len(),
    ensures
        kept_samples(a + b, kept_a + kept_b) == kept_samples(a, kept_a) + kept_samples(b, kept_b),
        kept_samples(seq![x], seq![true]) == seq![x],
        kept_samples(seq![x], seq![false]) == Seq::<u32>::empty(),
    decreases b.len(),
{
    let nil = Seq::<u32>::empty();
    assert(seq![x].drop_last() =~= nil);
    assert(kept_samples(seq![x].drop_last(), seq![true].drop_last()) =~= nil);
    assert(kept_samples(seq![x].drop_last(), seq![false].drop_last()) =~= nil);
    assert(nil.push(x) =~= seq![x]);
    if b.len() == 0 {
        assert(a + b =~= a);
        assert(kept_a + kept_b =~= kept_a);
        assert(kept_samples(a, kept_a) + nil =~= kept_samples(a, kept_a));
    } else {
        law_kept_samples_stay_in_order(a, b.drop_last(), kept_a, kept_b.drop_last(), x);
        assert((a + b).drop_last() =~= a + b.drop_last());
        assert((kept_a + kept_b).drop_last() =~= kept_a + kept_b.drop_last());
        let whole = kept_samples(a, kept_a) + kept_samples(b, kept_b);
        assert(kept_samples(a + b, kept_a + kept_b) =~= whole);
    }
}

/// The peak of two stretches of samples is that of the second from the peak of the first;
/// of no samples it is where it started. What is no number is passed over.
pub proof fn law_peaks_go_on(start: u32, a: Seq<u32>, b: Seq<u32>, x: u32)
    ensures
        peak_of(start, Seq::empty()) == start,
        peak_of(start, a + b) == peak_of(peak_of(start, a), b),
        bits::nan(x) && !bits::nan(start) ==> peak_of(start, seq![x]) == start,
    decreases b.len(),
{
    assert(seq![x].drop_last() =~= Seq::<u32>::empty());
    if b.len() == 0 {
        assert(a + b =~= a);
    } else {
        law_peaks_go_on(start, a, b.drop_last(), x);
        assert((a + b).drop_last() =~= a + b.drop_last());
        assert((a + b).last() == b.last());
    }
}

/// A sample that the queue gave is played as it is, and silence where it gave none. The
/// queue holds the samples of one second and of one second more.
pub proof fn law_samples_are_played_as_they_are(sample: u32, rate_hz: int)
    ensures
        played(Some(sample)) == sample,
        played(None) == 0,
        ring_capacity(rate_hz) == rate_hz + rate_hz,
{
}

/// What is said of a format names the direction and ends in the name of the format. A device
/// is found by its whole name, and never by a name that it does not tell.
pub proof fn law_refusals_and_names(direction: Direction, name: Seq<char>, device: Option<String>)
    ensures
        direction == Direction::Input ==> format_refusal(direction, name)
            == "unsupported input sample format: "@ + name,
        direction == Direction::Output ==> format_refusal(direction, name)
            == "unsupported output sample format: "@ + name,
        is_named(device, name) <==> device is Some && device->0@ == name,
{
}

} // verus!
