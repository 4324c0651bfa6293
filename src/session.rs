//! What the session shows: the gradient built from the palette, and the
//! background color of the moment.
use vstd::prelude::*;
use crate::color::NormalColorsRgb;
use crate::gradient::{color_at, gradient_color, valid_stops, GradientStops};
use crate::timer::FocusTime;

verus! {

/// The denominator of the stop positions: stops sit at 0, 1/2, 5/6 and 1.
pub const STOP_SCALE: u32 = 6;

/// The progress gradient of a palette: green at the start, yellow halfway,
/// red at five sixths, black at the end.
pub open spec fn stops_of(p: NormalColorsRgb) -> Seq<(u32, (u8, u8, u8))> {
    seq![(0u32, p.green), (3u32, p.yellow), (5u32, p.red), (6u32, p.black)]
}

/// Builds the progress gradient of a palette.
pub fn stops_from_palette(p: &NormalColorsRgb) -> (g: GradientStops)
    ensures
        g.scale == STOP_SCALE,
        g.stops@ == stops_of(*p),
        valid_stops(g.scale, g.stops@),
{
    let g = GradientStops {
        scale: STOP_SCALE,
        stops: vec![(0, p.green), (3, p.yellow), (5, p.red), (6, p.black)],
    };
    assert(g.stops@ =~= stops_of(*p));
    g
}

/// The background color at clock reading `now`: the palette's cyan while
/// paused, else the gradient's color for the elapsed share of the duration.
pub fn display_color(app: &FocusTime, now: u64, p: &NormalColorsRgb, g: &GradientStops) -> (r: (
    u8,
    u8,
    u8,
))
    requires
        g.stops@.len() > 0,
    ensures
        r == if app.paused {
            p.cyan
        } else {
            color_at(app.elapsed_spec(now), app.duration, *g)
        },
{
    if app.paused {
        p.cyan
    } else {
        gradient_color(app.elapsed(now), app.duration, g)
    }
}

} // verus!
