//! From progress to background colour: a fixed colour at rest, and while the
//! countdown runs a three-segment gradient from green over yellow and red to
//! black.
//!
//! The gradient reads the eased progress as a whole number of millionths, so
//! that every channel is an exact rounded quotient.

use vstd::prelude::*;
use crate::timer::{PomodoroApp, Progress, TimerState};

verus! {

/// The eased progress that stands for one: a million millionths.
pub const EASED_ONE: u32 = 1_000_000;

/// End of the first segment, green to yellow: one half.
pub const YELLOW_AT: u32 = 500_000;

/// End of the second segment, yellow to red: 0.833.
pub const RED_AT: u32 = 833_000;

/// A colour by its red, green and blue channels.
#[derive(Clone, Copy, Debug, PartialEq, Eq, Structural)]
pub struct Rgb {
    pub r: u8,
    pub g: u8,
    pub b: u8,
}

/// Packs an opaque colour with `egui::Color32::from_rgb` and reads the packed
/// bytes back with `Color32::to_array`. Trusted, not proved: the toolkit
/// stores the three channels as given, in the order red, green, blue, and
/// adds an alpha byte of 255.
#[verifier::external_body]
fn pack_opaque(r: u8, g: u8, b: u8) -> (bytes: [u8; 4])
    ensures
        bytes@ == seq![r, g, b, 255u8],
{
    eframe::egui::Color32::from_rgb(r, g, b).to_array()
}

impl Rgb {
    /// The colour as the drawing toolkit stores it: premultiplied RGBA,
    /// fully opaque.
    pub fn to_rgba(&self) -> (bytes: [u8; 4])
        ensures
            bytes@ == seq![self.r, self.g, self.b, 255u8],
    {
        pack_opaque(self.r, self.g, self.b)
    }
}

/// The channel value `from * (1 - t) + to * t` for `t = step / span`, rounded
/// to the nearest whole number, a half going up.
pub open spec fn blend_of(from: int, to: int, step: int, span: int) -> int {
    (2 * (from * (span - step) + to * step) + span) / (2 * span)
}

/// A blend of two channel values lies between them, so it is a channel value
/// itself.
pub proof fn lemma_blend_in_range(from: int, to: int, step: int, span: int)
    requires
        0 <= from <= 255,
        0 <= to <= 255,
        0 <= step <= span,
        span > 0,
    ensures
        0 <= blend_of(from, to, step, span) <= 255,
        from <= to ==> from <= blend_of(from, to, step, span) <= to,
        to <= from ==> to <= blend_of(from, to, step, span) <= from,
{
    let mix = from * (span - step) + to * step;
    let lo = if from <= to { from } else { to };
    let hi = if from <= to { to } else { from };
    assert(lo * span <= mix <= hi * span) by (nonlinear_arith)
        requires
            mix == from * (span - step) + to * step,
            lo <= from <= hi,
            lo <= to <= hi,
            0 <= step <= span,
    ;
    assert(lo <= (2 * mix + span) / (2 * span) <= hi) by (nonlinear_arith)
        requires
            lo * span <= mix <= hi * span,
            span > 0,
    ;
}

/// A blend begins at `from` and ends at `to`.
pub proof fn lemma_blend_ends(from: int, to: int, span: int)
    requires
        0 <= from,
        0 <= to,
        span > 0,
    ensures
        blend_of(from, to, 0, span) == from,
        blend_of(from, to, span, span) == to,
{
    assert((2 * (from * (span - 0) + to * 0) + span) / (2 * span) == from) by (nonlinear_arith)
        requires
            0 <= from,
            span > 0,
    ;
    assert((2 * (from * (span - span) + to * span) + span) / (2 * span) == to) by (nonlinear_arith)
        requires
            0 <= to,
            span > 0,
    ;
}

/// Two steps of one blend that lie close together give channel values that
/// differ by at most one.
pub proof fn lemma_blend_near(from: int, to: int, step_a: int, step_b: int, span: int)
    requires
        0 <= from <= 255,
        0 <= to <= 255,
        0 <= step_a <= step_b <= span,
        255 * (step_b - step_a) <= span,
    ensures
        -1 <= blend_of(from, to, step_b, span) - blend_of(from, to, step_a, span) <= 1,
{
    let mix_a = from * (span - step_a) + to * step_a;
    let mix_b = from * (span - step_b) + to * step_b;
    if step_a == step_b {
        assert(mix_a == mix_b);
    } else {
        assert(-span <= mix_b - mix_a <= span) by (nonlinear_arith)
            requires
                mix_a == from * (span - step_a) + to * step_a,
                mix_b == from * (span - step_b) + to * step_b,
                -255 <= to - from <= 255,
                0 <= step_b - step_a,
                255 * (step_b - step_a) <= span,
        ;
        assert(-1 <= (2 * mix_b + span) / (2 * span) - (2 * mix_a + span) / (2 * span) <= 1)
            by (nonlinear_arith)
            requires
                -span <= mix_b - mix_a <= span,
                span > 0,
        ;
    }
}

/// Close enough to its start, a blend still rounds to `from`.
pub proof fn lemma_blend_holds_start(from: int, to: int, step: int, span: int)
    requires
        0 <= from <= 255,
        0 <= to <= 255,
        0 <= step <= span,
        510 * step < span,
    ensures
        blend_of(from, to, step, span) == from,
{
    let mix = from * (span - step) + to * step;
    assert(2 * from * span - span < 2 * mix < 2 * from * span + span) by (nonlinear_arith)
        requires
            mix == from * (span - step) + to * step,
            -255 <= to - from <= 255,
            0 <= step,
            510 * step < span,
    ;
    assert((2 * mix + span) / (2 * span) == from) by (nonlinear_arith)
        requires
            2 * from * span - span < 2 * mix < 2 * from * span + span,
            span > 0,
    ;
}

/// Close enough to its end, a blend already rounds to `to`.
pub proof fn lemma_blend_holds_end(from: int, to: int, step: int, span: int)
    requires
        0 <= from <= 255,
        0 <= to <= 255,
        0 <= step <= span,
        510 * (span - step) < span,
    ensures
        blend_of(from, to, step, span) == to,
{
    let mix = from * (span - step) + to * step;
    assert(2 * to * span - span < 2 * mix < 2 * to * span + span) by (nonlinear_arith)
        requires
            mix == from * (span - step) + to * step,
            -255 <= from - to <= 255,
            0 <= span - step,
            510 * (span - step) < span,
    ;
    assert((2 * mix + span) / (2 * span) == to) by (nonlinear_arith)
        requires
            2 * to * span - span < 2 * mix < 2 * to * span + span,
            span > 0,
    ;
}

/// One channel of a gradient segment: the blend of `from` and `to` at `step`
/// out of `span`.
pub fn blend(from: u8, to: u8, step: u32, span: u32) -> (channel: u8)
    requires
        step <= span,
        span > 0,
    ensures
        channel == blend_of(from as int, to as int, step as int, span as int),
{
    proof {
        lemma_blend_in_range(from as int, to as int, step as int, span as int);
        assert(from * (span - step) <= 255 * 0xffff_ffff) by (nonlinear_arith)
            requires
                0 <= from <= 255,
                0 <= span - step <= 0xffff_ffff,
        ;
        assert(to * step <= 255 * 0xffff_ffff) by (nonlinear_arith)
            requires
                0 <= to <= 255,
                0 <= step <= 0xffff_ffff,
        ;
    }
    let mix: u64 = (from as u64) * ((span - step) as u64) + (to as u64) * (step as u64);
    let rounded: u64 = (2 * mix + span as u64) / (2 * (span as u64));
    rounded as u8
}

/// The colour at rest: turquoise.
pub open spec fn rest_color() -> Rgb {
    Rgb { r: 64, g: 224, b: 208 }
}

/// Start of the gradient: forest green.
pub open spec fn forest_green() -> Rgb {
    Rgb { r: 34, g: 139, b: 34 }
}

/// Where the first segment ends and the second begins: vivid yellow.
pub open spec fn vivid_yellow() -> Rgb {
    Rgb { r: 255, g: 255, b: 0 }
}

/// Where the second segment ends and the third begins: pure red.
pub open spec fn pure_red() -> Rgb {
    Rgb { r: 255, g: 0, b: 0 }
}

/// End of the gradient: black.
pub open spec fn black() -> Rgb {
    Rgb { r: 0, g: 0, b: 0 }
}

/// The colour part-way from `from` to `to`, channel by channel.
pub open spec fn mix_of(from: Rgb, to: Rgb, step: int, span: int) -> Rgb {
    Rgb {
        r: blend_of(from.r as int, to.r as int, step, span) as u8,
        g: blend_of(from.g as int, to.g as int, step, span) as u8,
        b: blend_of(from.b as int, to.b as int, step, span) as u8,
    }
}

/// The gradient at `eased` millionths. Up to one half it runs from forest
/// green to vivid yellow, from there to 0.833 on to pure red, and from there
/// to one on to black. Anything above one counts as one.
pub open spec fn gradient_of(eased: u32) -> Rgb {
    if eased <= YELLOW_AT {
        mix_of(forest_green(), vivid_yellow(), eased as int, YELLOW_AT as int)
    } else if eased <= RED_AT {
        mix_of(vivid_yellow(), pure_red(), eased - YELLOW_AT, RED_AT - YELLOW_AT)
    } else if eased <= EASED_ONE {
        mix_of(pure_red(), black(), eased - RED_AT, EASED_ONE - RED_AT)
    } else {
        black()
    }
}

/// The background colour for a state, the progress made and that progress
/// after easing: the colour at rest unless the countdown is running and not
/// yet complete, and the gradient at the eased progress otherwise.
pub open spec fn color_of(state: TimerState, progress: Progress, eased: u32) -> Rgb {
    if state != TimerState::Running || progress.is_full() {
        rest_color()
    } else {
        gradient_of(eased)
    }
}

/// The colour part-way from `from` to `to`.
pub fn mix(from: Rgb, to: Rgb, step: u32, span: u32) -> (rgb: Rgb)
    requires
        step <= span,
        span > 0,
    ensures
        rgb == mix_of(from, to, step as int, span as int),
{
    Rgb {
        r: blend(from.r, to.r, step, span),
        g: blend(from.g, to.g, step, span),
        b: blend(from.b, to.b, step, span),
    }
}

/// The gradient colour at `eased` millionths.
pub fn gradient(eased: u32) -> (rgb: Rgb)
    ensures
        rgb == gradient_of(eased),
{
    let green = Rgb { r: 34, g: 139, b: 34 };
    let yellow = Rgb { r: 255, g: 255, b: 0 };
    let red = Rgb { r: 255, g: 0, b: 0 };
    let dark = Rgb { r: 0, g: 0, b: 0 };
    if eased <= YELLOW_AT {
        mix(green, yellow, eased, YELLOW_AT)
    } else if eased <= RED_AT {
        mix(yellow, red, eased - YELLOW_AT, RED_AT - YELLOW_AT)
    } else if eased <= EASED_ONE {
        mix(red, dark, eased - RED_AT, EASED_ONE - RED_AT)
    } else {
        dark
    }
}

/// The background colour for `state`, `progress` and the eased progress in
/// millionths. `eased` is read only while the countdown runs and is not yet
/// complete.
pub fn color(state: TimerState, progress: Progress, eased: u32) -> (rgb: Rgb)
    ensures
        rgb == color_of(state, progress, eased),
{
    if state != TimerState::Running || progress.is_complete() {
        Rgb { r: 64, g: 224, b: 208 }
    } else {
        gradient(eased)
    }
}

impl PomodoroApp {
    /// The background colour of the session at `now`, given its progress
    /// after easing, in millionths.
    pub fn get_color(&self, now: u64, eased: u32) -> (rgb: Rgb)
        ensures
            rgb == color_of(self@.state, self@.progress_at(now), eased),
            self@.state != TimerState::Running ==> rgb == rest_color(),
            self@.complete_at(now) ==> rgb == rest_color(),
    {
        color(self.state(), self.get_progress(now), eased)
    }
}

/// The difference between two channel values.
pub open spec fn channel_gap(a: u8, b: u8) -> int {
    if a >= b {
        a - b
    } else {
        b - a
    }
}

/// Two colours differ by at most one in every channel.
pub open spec fn adjacent(a: Rgb, b: Rgb) -> bool {
    &&& channel_gap(a.r, b.r) <= 1
    &&& channel_gap(a.g, b.g) <= 1
    &&& channel_gap(a.b, b.b) <= 1
}

/// A mix begins at `from` and ends at `to`.
pub proof fn lemma_mix_ends(from: Rgb, to: Rgb, span: int)
    requires
        span > 0,
    ensures
        mix_of(from, to, 0, span) == from,
        mix_of(from, to, span, span) == to,
{
    lemma_blend_ends(from.r as int, to.r as int, span);
    lemma_blend_ends(from.g as int, to.g as int, span);
    lemma_blend_ends(from.b as int, to.b as int, span);
}

/// Two steps of one mix that lie close together give adjacent colours.
pub proof fn lemma_mix_near(from: Rgb, to: Rgb, step_a: int, step_b: int, span: int)
    requires
        0 <= step_a <= step_b <= span,
        255 * (step_b - step_a) <= span,
        span > 0,
    ensures
        adjacent(mix_of(from, to, step_a, span), mix_of(from, to, step_b, span)),
{
    lemma_blend_near(from.r as int, to.r as int, step_a, step_b, span);
    lemma_blend_near(from.g as int, to.g as int, step_a, step_b, span);
    lemma_blend_near(from.b as int, to.b as int, step_a, step_b, span);
    lemma_blend_in_range(from.r as int, to.r as int, step_a, span);
    lemma_blend_in_range(from.g as int, to.g as int, step_a, span);
    lemma_blend_in_range(from.b as int, to.b as int, step_a, span);
    lemma_blend_in_range(from.r as int, to.r as int, step_b, span);
    lemma_blend_in_range(from.g as int, to.g as int, step_b, span);
    lemma_blend_in_range(from.b as int, to.b as int, step_b, span);
}

/// Close enough to its start, a mix still shows `from`.
pub proof fn lemma_mix_holds_start(from: Rgb, to: Rgb, step: int, span: int)
    requires
        0 <= step <= span,
        510 * step < span,
    ensures
        mix_of(from, to, step, span) == from,
{
    lemma_blend_holds_start(from.r as int, to.r as int, step, span);
    lemma_blend_holds_start(from.g as int, to.g as int, step, span);
    lemma_blend_holds_start(from.b as int, to.b as int, step, span);
}

/// Close enough to its end, a mix already shows `to`.
pub proof fn lemma_mix_holds_end(from: Rgb, to: Rgb, step: int, span: int)
    requires
        0 <= step <= span,
        510 * (span - step) < span,
    ensures
        mix_of(from, to, step, span) == to,
{
    lemma_blend_holds_end(from.r as int, to.r as int, step, span);
    lemma_blend_holds_end(from.g as int, to.g as int, step, span);
    lemma_blend_holds_end(from.b as int, to.b as int, step, span);
}

/// Idle and paused sessions show the colour at rest, whatever the progress.
pub proof fn law_rest_color_unless_running(state: TimerState, progress: Progress, eased: u32)
    requires
        state == TimerState::Idle || state == TimerState::Paused,
    ensures
        color_of(state, progress, eased) == rest_color(),
{
}

/// A running session whose progress has reached one shows the colour at rest
/// again.
pub proof fn law_rest_color_when_complete(progress: Progress, eased: u32)
    requires
        progress.is_full(),
    ensures
        color_of(TimerState::Running, progress, eased) == rest_color(),
{
}

/// The colour is decided by the state, the progress and the eased progress
/// alone, and by the eased progress only while the countdown is under way.
pub proof fn law_eased_read_only_under_way(
    state: TimerState,
    progress: Progress,
    eased_a: u32,
    eased_b: u32,
)
    requires
        state != TimerState::Running || progress.is_full(),
    ensures
        color_of(state, progress, eased_a) == color_of(state, progress, eased_b),
{
}

/// The gradient starts at forest green, passes through vivid yellow and pure
/// red exactly at the two segment boundaries, and ends at black.
pub proof fn law_gradient_anchors()
    ensures
        gradient_of(0) == forest_green(),
        gradient_of(YELLOW_AT) == vivid_yellow(),
        gradient_of(RED_AT) == pure_red(),
        gradient_of(EASED_ONE) == black(),
{
    lemma_mix_ends(forest_green(), vivid_yellow(), YELLOW_AT as int);
    lemma_mix_ends(vivid_yellow(), pure_red(), RED_AT - YELLOW_AT);
    lemma_mix_ends(pure_red(), black(), EASED_ONE - RED_AT);
}

/// Neighbouring segments meet: at each boundary the segment that ends there
/// and the segment that begins there give the same colour.
pub proof fn law_segments_meet()
    ensures
        mix_of(forest_green(), vivid_yellow(), YELLOW_AT as int, YELLOW_AT as int) == mix_of(
            vivid_yellow(),
            pure_red(),
            0,
            RED_AT - YELLOW_AT,
        ),
        mix_of(vivid_yellow(), pure_red(), RED_AT - YELLOW_AT, RED_AT - YELLOW_AT) == mix_of(
            pure_red(),
            black(),
            0,
            EASED_ONE - RED_AT,
        ),
{
    lemma_mix_ends(forest_green(), vivid_yellow(), YELLOW_AT as int);
    lemma_mix_ends(vivid_yellow(), pure_red(), RED_AT - YELLOW_AT);
    lemma_mix_ends(pure_red(), black(), EASED_ONE - RED_AT);
}

/// Close to a segment boundary the gradient shows the boundary colour on
/// both sides: within 300 millionths below and above one half it is vivid
/// yellow, and within 300 millionths below and above 0.833 it is pure red.
pub proof fn law_boundaries_settle(delta: u32)
    requires
        delta <= 300,
    ensures
        gradient_of((YELLOW_AT - delta) as u32) == vivid_yellow(),
        gradient_of((YELLOW_AT + delta) as u32) == vivid_yellow(),
        gradient_of((RED_AT - delta) as u32) == pure_red(),
        gradient_of((RED_AT + delta) as u32) == pure_red(),
{
    let first = YELLOW_AT as int;
    let second = RED_AT - YELLOW_AT;
    let third = EASED_ONE - RED_AT;
    lemma_mix_holds_end(forest_green(), vivid_yellow(), YELLOW_AT - delta, first);
    lemma_mix_holds_end(vivid_yellow(), pure_red(), second - delta, second);
    if delta > 0 {
        lemma_mix_holds_start(vivid_yellow(), pure_red(), delta as int, second);
        lemma_mix_holds_start(pure_red(), black(), delta as int, third);
    }
}

/// The gradient has no jump, at the segment boundaries or anywhere else: two
/// eased values no more than 500 millionths apart give colours that differ by
/// at most one in every channel.
pub proof fn law_gradient_continuous(eased_a: u32, eased_b: u32)
    requires
        eased_a <= eased_b,
        eased_b - eased_a <= 500,
    ensures
        adjacent(gradient_of(eased_a), gradient_of(eased_b)),
{
    let green = forest_green();
    let yellow = vivid_yellow();
    let red = pure_red();
    let first = YELLOW_AT as int;
    let second = RED_AT - YELLOW_AT;
    let third = EASED_ONE - RED_AT;
    lemma_mix_ends(green, yellow, first);
    lemma_mix_ends(yellow, red, second);
    lemma_mix_ends(red, black(), third);
    if eased_b <= YELLOW_AT {
        lemma_mix_near(green, yellow, eased_a as int, eased_b as int, first);
    } else if eased_a <= YELLOW_AT {
        // One side of the pair is within 250 of the boundary and so shows
        // the boundary colour itself.
        if YELLOW_AT - eased_a <= 250 {
            lemma_mix_holds_end(green, yellow, eased_a as int, first);
            lemma_mix_near(yellow, red, 0, eased_b - YELLOW_AT, second);
        } else {
            lemma_mix_holds_start(yellow, red, eased_b - YELLOW_AT, second);
            lemma_mix_near(green, yellow, eased_a as int, first, first);
        }
    } else if eased_b <= RED_AT {
        lemma_mix_near(yellow, red, eased_a - YELLOW_AT, eased_b - YELLOW_AT, second);
    } else if eased_a <= RED_AT {
        if RED_AT - eased_a <= 250 {
            lemma_mix_holds_end(yellow, red, eased_a - YELLOW_AT, second);
            lemma_mix_near(red, black(), 0, eased_b - RED_AT, third);
        } else {
            lemma_mix_holds_start(red, black(), eased_b - RED_AT, third);
            lemma_mix_near(yellow, red, eased_a - YELLOW_AT, second, second);
        }
    } else if eased_b <= EASED_ONE {
        lemma_mix_near(red, black(), eased_a - RED_AT, eased_b - RED_AT, third);
    } else if eased_a <= EASED_ONE {
        lemma_mix_near(red, black(), eased_a - RED_AT, third, third);
    }
}

} // verus!
