//! What the user interface looks like: colors, grid lines, labels and the window
//! controls.

use crate::bits;
use crate::gui::EqApp;
use crate::text;
use crate::text::push_decimal;
use vstd::prelude::*;

verus! {

/// A color with its opacity; the channels are not multiplied by it.
#[derive(Clone, Copy, PartialEq, Eq, Structural, Debug)]
pub struct Rgba {
    pub r: u8,
    pub g: u8,
    pub b: u8,
    pub a: u8,
}

/// An opaque color.
pub open spec fn rgb(r: u8, g: u8, b: u8) -> Rgba {
    Rgba { r, g, b, a: 255 }
}

/// An opaque gray.
pub open spec fn gray(l: u8) -> Rgba {
    rgb(l, l, l)
}

/// A translucent color.
pub open spec fn translucent(r: u8, g: u8, b: u8, a: u8) -> Rgba {
    Rgba { r, g, b, a }
}

fn make_rgb(r: u8, g: u8, b: u8) -> (c: Rgba)
    ensures
        c == rgb(r, g, b),
{
    Rgba { r, g, b, a: 255 }
}

fn make_gray(l: u8) -> (c: Rgba)
    ensures
        c == gray(l),
{
    make_rgb(l, l, l)
}

/// The colors of the bands, one after the other.
pub open spec fn band_hue(i: int) -> Rgba {
    if i == 0 {
        rgb(255, 107, 107)
    } else if i == 1 {
        rgb(255, 190, 90)
    } else if i == 2 {
        rgb(120, 220, 120)
    } else if i == 3 {
        rgb(90, 200, 220)
    } else if i == 4 {
        rgb(130, 150, 255)
    } else {
        rgb(220, 130, 240)
    }
}

/// Which tiles the band panel shows.
#[derive(Clone, Copy, PartialEq, Eq, Structural, Debug)]
pub enum StripStyle {
    /// Rows of sliders that scroll sideways.
    Sliders,
    /// Rotary knobs that scroll sideways.
    ScrollingKnobs,
    /// The rotary knobs of the console strip.
    FixedKnobs,
}

/// A horizontal line of the graph's grid.
#[derive(Clone, Copy, PartialEq, Eq, Structural, Debug)]
pub enum GridLine {
    /// At a whole number of decibels.
    At(i32),
    /// At the floor of the graph.
    Floor,
    /// At the roof of the graph.
    Roof,
}

/// The range of the graph is wide from this on (72 dB).
pub const WIDE_RANGE: u32 = 0x4290_0000;

/// The range of the graph is medium from this on (36 dB).
pub const MEDIUM_RANGE: u32 = 0x4210_0000;

/// The distance of the grid lines in decibels for a graph that spans `range`.
pub open spec fn step_for(range: u32) -> i32 {
    if bits::le(WIDE_RANGE, range) {
        12
    } else if bits::le(MEDIUM_RANGE, range) {
        6
    } else {
        3
    }
}

/// The multiples of `step` from `first * step` up to `top`.
pub open spec fn multiples(first: int, step: int, top: int) -> Seq<GridLine> {
    if first * step > top || step <= 0 {
        Seq::empty()
    } else {
        Seq::new(
            ((top - first * step) / step + 1) as nat,
            |i: int| GridLine::At(((first + i) * step) as i32),
        )
    }
}

/// The grid lines of the graph: the multiples of the step, or its two ends where it
/// holds none.
pub open spec fn grid(first: int, step: int, top: int) -> Seq<GridLine> {
    if multiples(first, step, top).len() == 0 {
        seq![GridLine::Floor, GridLine::Roof]
    } else {
        multiples(first, step, top)
    }
}

/// What a window control does.
#[derive(Clone, Copy, PartialEq, Eq, Structural, Debug)]
pub enum WindowCommand {
    Close,
    Maximize(bool),
    Minimize,
}

/// The colors of the titlebar.
#[derive(Clone, Copy, PartialEq, Eq, Structural, Debug)]
pub struct TitlebarColors {
    pub fill: Rgba,
    pub text: Rgba,
    pub hover_fill: Rgba,
}

/// The distance of the grid lines in decibels.
pub fn grid_step(range: u32) -> (r: i32)
    ensures
        r == step_for(range),
        r > 0,
{
    if bits::is_nan(range) {
        3
    } else if !bits::less(range, WIDE_RANGE) {
        12
    } else if !bits::less(range, MEDIUM_RANGE) {
        6
    } else {
        3
    }
}

/// Horizontal grid lines that adapt to the range of the graph. `first` is the floor
/// of the graph in steps, rounded up, and `top` is its roof in decibels, rounded
/// down.
pub fn gridlines(first: i32, step: i32, top: i32) -> (r: Vec<GridLine>)
    requires
        0 < step,
        i32::MIN <= first * step <= i32::MAX,
        top + step <= i32::MAX,
    ensures
        r@ == grid(first as int, step as int, top as int),
{
    let mut lines: Vec<GridLine> = Vec::new();
    let mut db: i32 = first * step;
    let ghost start = db as int;
    let ghost mut n: int = 0;
    while db <= top
        invariant
            0 < step,
            start == first * step,
            i32::MIN <= start <= i32::MAX,
            top + step <= i32::MAX,
            n == lines@.len(),
            db == start + n * step,
            n > 0 ==> start + (n - 1) * step <= top,
            forall|i: int|
                0 <= i < n ==> #[trigger] lines@[i] == GridLine::At(((first + i) * step) as i32),
        decreases top - db + step,
    {
        proof {
            assert((first + n) * step == first * step + n * step) by (nonlinear_arith);
            assert((n + 1) * step == n * step + step) by (nonlinear_arith);
        }
        lines.push(GridLine::At(db));
        db = db + step;
        proof {
            n = n + 1;
        }
    }
    proof {
        if n > 0 {
            let span = top - start;
            assert((n - 1) * step == n * step - step) by (nonlinear_arith);
            let rem = span - (n - 1) * step;
            assert(0 <= rem < step);
            vstd::arithmetic::div_mod::lemma_fundamental_div_mod_converse(
                span,
                step as int,
                n - 1,
                rem,
            );
            assert(lines@ =~= multiples(first as int, step as int, top as int));
        } else {
            assert(lines@ =~= multiples(first as int, step as int, top as int));
        }
    }
    if lines.len() == 0 {
        lines.push(GridLine::Floor);
        lines.push(GridLine::Roof);
        assert(lines@ =~= seq![GridLine::Floor, GridLine::Roof]);
    }
    lines
}

/// What the window controls of the titlebar do, counted from the right.
pub fn window_control(i: usize, maximized: bool) -> (r: WindowCommand)
    ensures
        r == if i == 0 {
            WindowCommand::Close
        } else if i == 1 {
            WindowCommand::Maximize(!maximized)
        } else {
            WindowCommand::Minimize
        },
{
    match i {
        0 => WindowCommand::Close,
        1 => WindowCommand::Maximize(!maximized),
        _ => WindowCommand::Minimize,
    }
}

/// The number of band slot `i` as the user counts.
pub fn band_number(i: usize) -> (r: String)
    requires
        i < usize::MAX,
    ensures
        r@ == text::decimal((i + 1) as nat),
{
    let mut out = String::new();
    push_decimal(&mut out, (i + 1) as u64);
    proof {
        assert(out@ =~= text::decimal((i + 1) as nat));
    }
    out
}

/// The heading of a band's tile.
pub fn band_heading(i: usize) -> (r: String)
    requires
        i < usize::MAX,
    ensures
        r@ == "BAND "@ + text::decimal((i + 1) as nat),
{
    let mut out = "BAND ".to_owned();
    push_decimal(&mut out, (i + 1) as u64);
    out
}

impl EqApp {
    /// The color of a band. Bands past the last color start over.
    pub fn band_color(i: usize) -> (r: Rgba)
        ensures
            r == band_hue(i as int % 6),
    {
        match i % 6 {
            0 => make_rgb(255, 107, 107),
            1 => make_rgb(255, 190, 90),
            2 => make_rgb(120, 220, 120),
            3 => make_rgb(90, 200, 220),
            4 => make_rgb(130, 150, 255),
            _ => make_rgb(220, 130, 240),
        }
    }

    /// The background of the graph.
    pub fn graph_bg(&self) -> (r: Rgba)
        ensures
            r == if self@.settings.theme_dark {
                rgb(24, 24, 28)
            } else {
                rgb(226, 228, 236)
            },
    {
        if self.settings.theme_dark {
            make_rgb(24, 24, 28)
        } else {
            make_rgb(226, 228, 236)
        }
    }

    /// The lines of the grid.
    pub fn grid_line(&self) -> (r: Rgba)
        ensures
            r == if self@.settings.theme_dark {
                gray(50)
            } else {
                gray(180)
            },
    {
        if self.settings.theme_dark {
            make_gray(50)
        } else {
            make_gray(180)
        }
    }

    /// The labels of the grid.
    pub fn grid_label(&self) -> (r: Rgba)
        ensures
            r == if self@.settings.theme_dark {
                gray(120)
            } else {
                gray(95)
            },
    {
        if self.settings.theme_dark {
            make_gray(120)
        } else {
            make_gray(95)
        }
    }

    /// The line at 0 dB.
    pub fn zero_line(&self) -> (r: Rgba)
        ensures
            r == if self@.settings.theme_dark {
                gray(90)
            } else {
                gray(150)
            },
    {
        if self.settings.theme_dark {
            make_gray(90)
        } else {
            make_gray(150)
        }
    }

    /// The background of a band tile.
    pub fn tile_bg(&self) -> (r: Rgba)
        ensures
            r == if self@.settings.theme_dark {
                rgb(28, 28, 34)
            } else {
                rgb(244, 245, 250)
            },
    {
        if self.settings.theme_dark {
            make_rgb(28, 28, 34)
        } else {
            make_rgb(244, 245, 250)
        }
    }

    /// The border of a band tile.
    pub fn tile_stroke(&self) -> (r: Rgba)
        ensures
            r == if self@.settings.theme_dark {
                gray(48)
            } else {
                gray(195)
            },
    {
        if self.settings.theme_dark {
            make_gray(48)
        } else {
            make_gray(195)
        }
    }

    /// The shade behind the analyzer.
    pub fn plot_overlay(&self) -> (r: Rgba)
        ensures
            r == if self@.settings.theme_dark {
                translucent(0, 0, 0, 90)
            } else {
                translucent(0, 0, 0, 22)
            },
    {
        if self.settings.theme_dark {
            Rgba { r: 0, g: 0, b: 0, a: 90 }
        } else {
            Rgba { r: 0, g: 0, b: 0, a: 22 }
        }
    }

    /// The upper edge of the analyzer.
    pub fn zero_band(&self) -> (r: Rgba)
        ensures
            r == if self@.settings.theme_dark {
                translucent(255, 255, 255, 26)
            } else {
                translucent(0, 0, 0, 40)
            },
    {
        if self.settings.theme_dark {
            Rgba { r: 255, g: 255, b: 255, a: 26 }
        } else {
            Rgba { r: 0, g: 0, b: 0, a: 40 }
        }
    }

    /// The slot behind an analyzer bar.
    pub fn slot_band(&self) -> (r: Rgba)
        ensures
            r == if self@.settings.theme_dark {
                translucent(255, 255, 255, 7)
            } else {
                translucent(0, 0, 0, 10)
            },
    {
        if self.settings.theme_dark {
            Rgba { r: 255, g: 255, b: 255, a: 7 }
        } else {
            Rgba { r: 0, g: 0, b: 0, a: 10 }
        }
    }

    /// The peak-hold caps.
    pub fn peak_cap(&self) -> (r: Rgba)
        ensures
            r == if self@.settings.theme_dark {
                rgb(255, 255, 235)
            } else {
                rgb(55, 58, 68)
            },
    {
        if self.settings.theme_dark {
            make_rgb(255, 255, 235)
        } else {
            make_rgb(55, 58, 68)
        }
    }

    /// The ring around a dot.
    pub fn pin_ring(&self) -> (r: Rgba)
        ensures
            r == if self@.settings.theme_dark {
                rgb(255, 255, 255)
            } else {
                rgb(45, 48, 58)
            },
    {
        if self.settings.theme_dark {
            make_rgb(255, 255, 255)
        } else {
            make_rgb(45, 48, 58)
        }
    }

    /// The colors of the titlebar.
    pub fn titlebar(&self) -> (r: TitlebarColors)
        ensures
            r == if self@.settings.theme_dark {
                TitlebarColors {
                    fill: rgb(34, 36, 41),
                    text: rgb(208, 212, 218),
                    hover_fill: rgb(70, 74, 82),
                }
            } else {
                TitlebarColors {
                    fill: rgb(245, 245, 246),
                    text: rgb(48, 52, 58),
                    hover_fill: rgb(202, 202, 204),
                }
            },
    {
        if self.settings.theme_dark {
            TitlebarColors {
                fill: make_rgb(34, 36, 41),
                text: make_rgb(208, 212, 218),
                hover_fill: make_rgb(70, 74, 82),
            }
        } else {
            TitlebarColors {
                fill: make_rgb(245, 245, 246),
                text: make_rgb(48, 52, 58),
                hover_fill: make_rgb(202, 202, 204),
            }
        }
    }

    /// The tiles of the band panel: knobs in console mode and where the user asked
    /// for them, else sliders.
    pub fn strip_style(&self) -> (r: StripStyle)
        ensures
            r == if self@.settings.console_mode {
                StripStyle::FixedKnobs
            } else if self@.settings.knob_ui {
                StripStyle::ScrollingKnobs
            } else {
                StripStyle::Sliders
            },
    {
        if self.settings.console_mode {
            StripStyle::FixedKnobs
        } else if self.settings.knob_ui {
            StripStyle::ScrollingKnobs
        } else {
            StripStyle::Sliders
        }
    }
}

/// Every line of the grid lies between its ends, a step above the line before it.
pub proof fn law_grid_is_regular(first: int, step: int, top: int, i: int)
    requires
        step > 0,
        first * step <= top,
        0 <= i < multiples(first, step, top).len(),
        i32::MIN <= first * step,
        top <= i32::MAX,
    ensures
        grid(first, step, top) == multiples(first, step, top),
        grid(first, step, top)[i] matches GridLine::At(db) && db == (first + i) * step && first
            * step <= db <= top,
        (first + multiples(first, step, top).len()) * step > top,
{
    let span = top - first * step;
    let n = span / step + 1;
    vstd::arithmetic::div_mod::lemma_fundamental_div_mod(span, step);
    vstd::arithmetic::div_mod::lemma_mod_bound(span, step);
    vstd::arithmetic::div_mod::lemma_div_pos_is_pos(span, step);
    assert(first * step <= (first + i) * step <= top) by (nonlinear_arith)
        requires
            0 <= i <= n - 1,
            step > 0,
            step * (n - 1) <= span,
            span == top - first * step,
    ;
    assert((first + n) * step > top) by (nonlinear_arith)
        requires
            step > 0,
            span < step * (n - 1) + step,
            span == top - first * step,
    ;
}

/// Colors hold their channels as they are given, opaque unless they say otherwise.
pub proof fn law_colors_keep_their_channels(r: u8, g: u8, b: u8, a: u8)
    ensures
        rgb(r, g, b) == (Rgba { r, g, b, a: 255 }),
        gray(r) == (Rgba { r, g: r, b: r, a: 255 }),
        translucent(r, g, b, a) == (Rgba { r, g, b, a }),
{
}

/// The six band colors, red, orange, green, cyan, blue and violet, no two of them the same.
pub proof fn law_band_colors_differ(i: int, j: int)
    requires
        0 <= i < 6,
        0 <= j < 6,
    ensures
        band_hue(i).r == seq![255u8, 255, 120, 90, 130, 220][i],
        band_hue(i).g == seq![107u8, 190, 220, 200, 150, 130][i],
        band_hue(i).b == seq![107u8, 90, 120, 220, 255, 240][i],
        band_hue(i).a == 255,
        i != j ==> band_hue(i) != band_hue(j),
{
}

/// The grid is twice as wide for a graph of 36 dB and four times as wide for one of 72 dB as
/// for a small one, where it is 3 dB.
pub proof fn law_grid_steps(range: u32)
    ensures
        !bits::nan(range) && bits::value(range) >= bits::units(72) ==> step_for(range) == 12,
        !bits::nan(range) && bits::units(36) <= bits::value(range) < bits::units(72) ==> step_for(
            range,
        ) == 6,
        bits::nan(range) || bits::value(range) < bits::units(36) ==> step_for(range) == 3,
{
    vstd::arithmetic::power2::lemma2_to64();
    bits::lemma_whole_number(WIDE_RANGE, 72, 133, 0x10_0000, 6);
    bits::lemma_whole_number(MEDIUM_RANGE, 36, 132, 0x10_0000, 5);
}

/// Where the graph holds no multiple of the step, its floor and its roof are the grid.
pub proof fn law_small_graph_shows_its_ends(first: int, step: int, top: int)
    requires
        step > 0,
        first * step > top,
    ensures
        grid(first, step, top).len() == 2,
        grid(first, step, top)[0] == GridLine::Floor,
        grid(first, step, top)[1] == GridLine::Roof,
{
}

/// The grid has a line at every multiple of the step from the first one up to the roof.
pub proof fn law_grid_has_every_multiple(first: int, step: int, top: int, m: int)
    requires
        step > 0,
        first <= m,
        m * step <= top,
        i32::MIN <= first * step,
        top <= i32::MAX,
    ensures
        grid(first, step, top).len() > m - first,
        grid(first, step, top)[m - first] matches GridLine::At(db) && db == m * step,
{
    assert(first * step <= m * step) by (nonlinear_arith)
        requires
            first <= m,
            step > 0,
    ;
    let span = top - first * step;
    vstd::arithmetic::div_mod::lemma_fundamental_div_mod(span, step);
    vstd::arithmetic::div_mod::lemma_mod_bound(span, step);
    vstd::arithmetic::div_mod::lemma_div_pos_is_pos(span, step);
    let q = span / step;
    assert(m - first <= q) by (nonlinear_arith)
        requires
            span == step * q + span % step,
            0 <= span % step < step,
            m * step <= top,
            span == top - first * step,
            step > 0,
    ;
    law_grid_is_regular(first, step, top, m - first);
}

} // verus!
