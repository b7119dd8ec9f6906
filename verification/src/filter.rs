//! Filter shapes and the state of one second-order filter section.

use crate::bits;
use vstd::prelude::*;

verus! {

/// Filter shapes available for each band, the set of a theatre console's
/// channel EQ strip.
#[derive(Clone, Copy, PartialEq, Eq, Structural, Debug)]
pub enum FilterKind {
    Peak,
    LowShelf,
    HighShelf,
    LowPass,
    HighPass,
}

impl FilterKind {
    /// Every shape, in the order of their indices.
    pub const ALL: [FilterKind; 5] = [
        FilterKind::Peak,
        FilterKind::LowShelf,
        FilterKind::HighShelf,
        FilterKind::LowPass,
        FilterKind::HighPass,
    ];

    /// The place of the shape in the list of all shapes.
    pub open spec fn index(self) -> u8 {
        match self {
            FilterKind::Peak => 0,
            FilterKind::LowShelf => 1,
            FilterKind::HighShelf => 2,
            FilterKind::LowPass => 3,
            FilterKind::HighPass => 4,
        }
    }

    /// The shape at a place in the list of all shapes, counted round and round.
    pub open spec fn at(i: u8) -> FilterKind {
        if i % 5 == 0 {
            FilterKind::Peak
        } else if i % 5 == 1 {
            FilterKind::LowShelf
        } else if i % 5 == 2 {
            FilterKind::HighShelf
        } else if i % 5 == 3 {
            FilterKind::LowPass
        } else {
            FilterKind::HighPass
        }
    }

    /// The name shown to the user.
    pub fn label(&self) -> (r: &'static str)
        ensures
            r@ == match *self {
                FilterKind::Peak => "Peak"@,
                FilterKind::LowShelf => "Low Shelf"@,
                FilterKind::HighShelf => "High Shelf"@,
                FilterKind::LowPass => "Low Pass"@,
                FilterKind::HighPass => "High Pass"@,
            },
    {
        match self {
            FilterKind::Peak => "Peak",
            FilterKind::LowShelf => "Low Shelf",
            FilterKind::HighShelf => "High Shelf",
            FilterKind::LowPass => "Low Pass",
            FilterKind::HighPass => "High Pass",
        }
    }
}

/// The index under which a shape is stored.
pub fn kind_to_idx(k: FilterKind) -> (r: u8)
    ensures
        r == k.index(),
{
    match k {
        FilterKind::Peak => 0,
        FilterKind::LowShelf => 1,
        FilterKind::HighShelf => 2,
        FilterKind::LowPass => 3,
        FilterKind::HighPass => 4,
    }
}

/// The shape stored under an index. Indices past the last shape count round.
pub fn idx_to_kind(i: u8) -> (r: FilterKind)
    ensures
        r == FilterKind::at(i),
{
    match i % 5 {
        0 => FilterKind::Peak,
        1 => FilterKind::LowShelf,
        2 => FilterKind::HighShelf,
        3 => FilterKind::LowPass,
        _ => FilterKind::HighPass,
    }
}

/// A shape is found again under its index, and every index names the shape
/// whose index it is modulo the number of shapes.
pub proof fn law_kind_index_round_trip(k: FilterKind, i: u8)
    ensures
        FilterKind::at(k.index()) == k,
        FilterKind::at(i).index() == i % 5,
        k.index() < FilterKind::ALL.len(),
        FilterKind::ALL[k.index() as int] == k,
{
}

/// The five coefficients of a second-order section, divided by the sixth.
#[derive(Clone, Copy, PartialEq, Eq, Structural, Debug)]
pub struct Coeffs {
    pub b0: u32,
    pub b1: u32,
    pub b2: u32,
    pub a1: u32,
    pub a2: u32,
}

/// Direct Form I biquad. One instance per channel per band. Numbers are held
/// as bit patterns.
#[derive(Clone, Copy, PartialEq, Eq, Structural, Debug)]
pub struct Biquad {
    pub coeffs: Coeffs,
    pub x1: u32,
    pub x2: u32,
    pub y1: u32,
    pub y2: u32,
}

impl Default for Biquad {
    /// A section that was not set up yet: every number is zero.
    fn default() -> (r: Self)
        ensures
            r == (Biquad {
                coeffs: Coeffs {
                    b0: bits::ZERO,
                    b1: bits::ZERO,
                    b2: bits::ZERO,
                    a1: bits::ZERO,
                    a2: bits::ZERO,
                },
                x1: bits::ZERO,
                x2: bits::ZERO,
                y1: bits::ZERO,
                y2: bits::ZERO,
            }),
    {
        Biquad {
            coeffs: Coeffs { b0: 0, b1: 0, b2: 0, a1: 0, a2: 0 },
            x1: 0,
            x2: 0,
            y1: 0,
            y2: 0,
        }
    }
}

impl Biquad {
    /// The section after the input `x0` was answered by the output `y0`.
    pub open spec fn stepped(self, x0: u32, y0: u32) -> Biquad {
        Biquad { coeffs: self.coeffs, x1: x0, x2: self.x1, y1: y0, y2: self.y1 }
    }

    /// The section with its signal forgotten and its coefficients kept.
    pub open spec fn cleared(self) -> Biquad {
        Biquad {
            coeffs: self.coeffs,
            x1: bits::ZERO,
            x2: bits::ZERO,
            y1: bits::ZERO,
            y2: bits::ZERO,
        }
    }

    /// The section after a run of inputs and their outputs.
    pub open spec fn stepped_through(self, xs: Seq<u32>, ys: Seq<u32>) -> Biquad
        recommends
            xs.len() == ys.len(),
        decreases xs.len(),
    {
        if xs.len() == 0 {
            self
        } else {
            self.stepped_through(xs.drop_last(), ys.drop_last()).stepped(xs.last(), ys.last())
        }
    }

    /// Forgets the signal and keeps the coefficients.
    pub fn reset(&mut self)
        ensures
            *final(self) == old(self).cleared(),
    {
        self.x1 = 0;
        self.x2 = 0;
        self.y1 = 0;
        self.y2 = 0;
    }

    /// Takes new coefficients and keeps the signal.
    pub fn load(&mut self, coeffs: Coeffs)
        ensures
            *final(self) == (Biquad { coeffs, ..*old(self) }),
    {
        self.coeffs = coeffs;
    }

    /// Moves the delay lines on by one sample: `x0` went in and `y0` came out.
    pub fn shift(&mut self, x0: u32, y0: u32)
        ensures
            *final(self) == old(self).stepped(x0, y0),
    {
        self.x2 = self.x1;
        self.x1 = x0;
        self.y2 = self.y1;
        self.y1 = y0;
    }
}

/// Forgets the signal in every section of a chain and keeps the coefficients.
fn clear_chain(chain: &mut Vec<Biquad>)
    ensures
        final(chain)@ == old(chain)@.map_values(|b: Biquad| b.cleared()),
{
    let mut i: usize = 0;
    while i < chain.len()
        invariant
            i <= chain@.len(),
            chain@.len() == old(chain)@.len(),
            forall|k: int| 0 <= k < i ==> #[trigger] chain@[k] == old(chain)@[k].cleared(),
            forall|k: int| i <= k < chain@.len() ==> #[trigger] chain@[k] == old(chain)@[k],
        decreases chain@.len() - i,
    {
        let mut b: Biquad = chain[i];
        b.reset();
        chain.set(i, b);
        i = i + 1;
    }
    assert(chain@ =~= old(chain)@.map_values(|b: Biquad| b.cleared()));
}

/// Forgets the signal in every section of every channel's chain and keeps the
/// coefficients, so that a jump in the signal does not click.
pub fn clear_chains(chains: &mut Vec<Vec<Biquad>>)
    ensures
        final(chains)@.len() == old(chains)@.len(),
        forall|c: int|
            0 <= c < old(chains)@.len() ==> (#[trigger] final(chains)@[c])@ == old(
                chains,
            )@[c]@.map_values(|b: Biquad| b.cleared()),
        forall|c: int, i: int|
            0 <= c < old(chains)@.len() && 0 <= i < old(chains)@[c]@.len()
                ==> #[trigger] final(chains)@[c]@[i] == old(chains)@[c]@[i].cleared(),
{
    let mut c: usize = 0;
    while c < chains.len()
        invariant
            c <= chains@.len(),
            chains@.len() == old(chains)@.len(),
            forall|k: int|
                0 <= k < c ==> (#[trigger] chains@[k])@ == old(chains)@[k]@.map_values(
                    |b: Biquad| b.cleared(),
                ),
            forall|k: int| c <= k < chains@.len() ==> #[trigger] chains@[k] == old(chains)@[k],
        decreases chains@.len() - c,
    {
        let mut chain: Vec<Biquad> = Vec::new();
        std::mem::swap(&mut chain, &mut chains[c]);
        clear_chain(&mut chain);
        std::mem::swap(&mut chain, &mut chains[c]);
        c = c + 1;
    }
}

/// After two samples or more the delay lines hold the last two inputs and the
/// last two outputs, whatever stood in them before.
pub proof fn law_delay_lines_hold_last_two(s: Biquad, xs: Seq<u32>, ys: Seq<u32>)
    requires
        xs.len() == ys.len(),
        xs.len() >= 2,
    ensures
        s.stepped_through(xs, ys) == (Biquad {
            coeffs: s.coeffs,
            x1: xs[xs.len() - 1],
            x2: xs[xs.len() - 2],
            y1: ys[ys.len() - 1],
            y2: ys[ys.len() - 2],
        }),
    decreases xs.len(),
{
    reveal_with_fuel(Biquad::stepped_through, 3);
    if xs.len() > 2 {
        law_delay_lines_hold_last_two(s, xs.drop_last(), ys.drop_last());
    }
}

/// Forgetting the signal keeps every coefficient and zeroes every sample in memory; a step
/// keeps the coefficients and takes the sample that went in and the one that came out.
pub proof fn law_memory_is_separate_from_coefficients(b: Biquad, x0: u32, y0: u32)
    ensures
        b.cleared().coeffs == b.coeffs,
        bits::value(b.cleared().x1) == 0 && bits::value(b.cleared().x2) == 0,
        bits::value(b.cleared().y1) == 0 && bits::value(b.cleared().y2) == 0,
        !bits::nan(b.cleared().x1) && !bits::negative(b.cleared().x1),
        b.cleared().x2 == b.cleared().x1,
        b.cleared().y1 == b.cleared().x1,
        b.cleared().y2 == b.cleared().x1,
        b.stepped(x0, y0).coeffs == b.coeffs,
        b.stepped(x0, y0).x1 == x0 && b.stepped(x0, y0).y1 == y0,
        b.stepped(x0, y0).x2 == b.x1 && b.stepped(x0, y0).y2 == b.y1,
{
}

/// The places of the shapes: peak, low shelf, high shelf, low pass, high pass.
pub proof fn law_shapes_keep_their_places(k: FilterKind, i: u8)
    ensures
        ({
            let places = seq![
                FilterKind::Peak,
                FilterKind::LowShelf,
                FilterKind::HighShelf,
                FilterKind::LowPass,
                FilterKind::HighPass,
            ];
            &&& places[k.index() as int] == k
            &&& places[i as int % 5] == FilterKind::at(i)
            &&& FilterKind::ALL@ == places
        }),
{
}

} // verus!
