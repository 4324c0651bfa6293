//! The gradient engine: the color at a point of progress, interpolated
//! between ordered color stops.
//!
//! Progress is the exact ratio `elapsed / total`, clamped to `[0, 1]`. A stop's
//! position is `at / scale`, for the gradient's common `scale`. Each channel is
//! interpolated linearly and truncated toward zero.
use vstd::prelude::*;

verus! {

/// Ordered color stops; stop `i` sits at `stops[i].0 / scale` of the way.
pub struct GradientStops {
    pub scale: u32,
    pub stops: Vec<(u32, (u8, u8, u8))>,
}

/// Stops that cover `[0, 1]` in increasing order, each at a distinct position.
pub open spec fn valid_stops(scale: u32, s: Seq<(u32, (u8, u8, u8))>) -> bool {
    &&& scale > 0
    &&& s.len() >= 2
    &&& s[0].0 == 0
    &&& s.last().0 == scale
    &&& forall|i: int, j: int| 0 <= i < j < s.len() ==> s[i].0 < s[j].0
}

/// The clamped ratio `elapsed / total` as a numerator over a positive
/// denominator; a zero total counts as complete.
pub open spec fn clamped(elapsed: u64, total: u64) -> (u64, u64) {
    if total == 0 {
        (1, 1)
    } else if elapsed >= total {
        (total, total)
    } else {
        (elapsed, total)
    }
}

/// `c0` moved toward `c1` by `x / y` of the way, truncated; `c0` when `y` is zero.
pub open spec fn lerp(c0: u8, c1: u8, x: int, y: int) -> int {
    if y == 0 {
        c0 as int
    } else {
        (c0 * y + (c1 - c0) * x) / y
    }
}

pub open spec fn lerp_rgb_spec(c0: (u8, u8, u8), c1: (u8, u8, u8), x: int, y: int) -> (u8, u8, u8) {
    (lerp(c0.0, c1.0, x, y) as u8, lerp(c0.1, c1.1, x, y) as u8, lerp(c0.2, c1.2, x, y) as u8)
}

/// Whether the ratio `num / den` lies in the interval from stop `i` to stop `i + 1`.
pub open spec fn in_segment(
    num: u64,
    den: u64,
    scale: u32,
    s: Seq<(u32, (u8, u8, u8))>,
    i: int,
) -> bool {
    s[i].0 * den <= num * scale <= s[i + 1].0 * den
}

/// The color at ratio `num / den`, scanning the segments from `i` on; the first
/// segment that holds the ratio decides, and the last stop's color is the
/// fallback.
pub open spec fn color_from(
    num: u64,
    den: u64,
    scale: u32,
    s: Seq<(u32, (u8, u8, u8))>,
    i: int,
) -> (u8, u8, u8)
    decreases s.len() - i,
{
    if i < 0 || i + 1 >= s.len() {
        s.last().1
    } else if in_segment(num, den, scale, s, i) {
        lerp_rgb_spec(
            s[i].1,
            s[i + 1].1,
            num * scale - s[i].0 * den,
            (s[i + 1].0 - s[i].0) * den,
        )
    } else {
        color_from(num, den, scale, s, i + 1)
    }
}

/// The gradient's color after `elapsed` of `total`.
pub open spec fn color_at(elapsed: u64, total: u64, g: GradientStops) -> (u8, u8, u8) {
    color_from(clamped(elapsed, total).0, clamped(elapsed, total).1, g.scale, g.stops@, 0)
}

proof fn lemma_lerp_bounds(c0: u8, c1: u8, x: int, y: int)
    requires
        0 <= x <= y,
    ensures
        0 <= lerp(c0, c1, x, y) <= 255,
        c0 <= c1 ==> c0 <= lerp(c0, c1, x, y) <= c1,
        c1 <= c0 ==> c1 <= lerp(c0, c1, x, y) <= c0,
{
    if y > 0 {
        let n = c0 * y + (c1 - c0) * x;
        if c0 <= c1 {
            assert(c0 * y <= n <= c1 * y) by (nonlinear_arith)
                requires
                    n == c0 * y + (c1 - c0) * x,
                    0 <= x <= y,
                    c0 <= c1,
            ;
        } else {
            assert(c1 * y <= n <= c0 * y) by (nonlinear_arith)
                requires
                    n == c0 * y + (c1 - c0) * x,
                    0 <= x <= y,
                    c1 < c0,
            ;
        }
        assert(c0 as int * y / y == c0) by (nonlinear_arith)
            requires
                y > 0,
        ;
        assert(c1 as int * y / y == c1) by (nonlinear_arith)
            requires
                y > 0,
        ;
        vstd::arithmetic::div_mod::lemma_div_is_ordered(
            if c0 <= c1 { c0 * y } else { c1 * y },
            n,
            y,
        );
        vstd::arithmetic::div_mod::lemma_div_is_ordered(
            n,
            if c0 <= c1 { c1 * y } else { c0 * y },
            y,
        );
    }
}

proof fn lemma_product_fits(a: u64, b: u32)
    ensures
        a * b < 0x1_0000_0000_0000_0000_0000_0000,
        b * a < 0x1_0000_0000_0000_0000_0000_0000,
{
    vstd::arithmetic::mul::lemma_mul_is_commutative(a as int, b as int);
    assert(a * b < 0x1_0000_0000_0000_0000_0000_0000) by (nonlinear_arith)
        requires
            a < 0x1_0000_0000_0000_0000,
            b < 0x1_0000_0000,
    ;
}

/// One channel moved from `c0` toward `c1` by `x / y` of the way.
fn lerp_channel(c0: u8, c1: u8, x: u128, y: u128) -> (r: u8)
    requires
        x <= y,
        y < 0x1_0000_0000_0000_0000_0000_0000,
    ensures
        r as int == lerp(c0, c1, x as int, y as int),
{
    proof {
        lemma_lerp_bounds(c0, c1, x as int, y as int);
    }
    if y == 0 {
        return c0;
    }
    let a = c0 as u128;
    let b = c1 as u128;
    assert(a * y <= 255 * 0x1_0000_0000_0000_0000_0000_0000) by (nonlinear_arith)
        requires
            a <= 255,
            y < 0x1_0000_0000_0000_0000_0000_0000,
    ;
    assert(b * x <= 255 * 0x1_0000_0000_0000_0000_0000_0000) by (nonlinear_arith)
        requires
            b <= 255,
            x < 0x1_0000_0000_0000_0000_0000_0000,
    ;
    assert(a * x <= a * y) by (nonlinear_arith)
        requires
            x <= y,
    ;
    assert(b >= a ==> (b - a) * x <= b * x) by (nonlinear_arith)
        requires
            x >= 0,
    ;
    assert(b < a ==> (a - b) * x <= a * x) by (nonlinear_arith)
        requires
            x >= 0,
    ;
    let n: u128 = if b >= a {
        a * y + (b - a) * x
    } else {
        a * y - (a - b) * x
    };
    assert(n as int == c0 * y + (c1 - c0) * x) by (nonlinear_arith)
        requires
            a == c0,
            b == c1,
            b >= a ==> n == a * y + (b - a) * x,
            b < a ==> n == a * y - (a - b) * x,
    ;
    (n / y) as u8
}

/// The color `x / y` of the way from `start` to `end`, each channel truncated
/// toward zero; `start` when `y` is zero.
pub fn lerp_rgb(start: (u8, u8, u8), end: (u8, u8, u8), x: u128, y: u128) -> (r: (u8, u8, u8))
    requires
        x <= y,
        y < 0x1_0000_0000_0000_0000_0000_0000,
    ensures
        r == lerp_rgb_spec(start, end, x as int, y as int),
{
    (
        lerp_channel(start.0, end.0, x, y),
        lerp_channel(start.1, end.1, x, y),
        lerp_channel(start.2, end.2, x, y),
    )
}

/// The gradient's color after `elapsed` of `total`: the ratio is clamped to
/// `[0, 1]`, the first segment that holds it (both ends included) is
/// interpolated, and the last stop's color is the fallback when none does.
pub fn gradient_color(elapsed: u64, total: u64, g: &GradientStops) -> (r: (u8, u8, u8))
    requires
        g.stops@.len() > 0,
    ensures
        r == color_at(elapsed, total, *g),
{
    let (num, den): (u64, u64) = if total == 0 {
        (1, 1)
    } else if elapsed >= total {
        (total, total)
    } else {
        (elapsed, total)
    };
    let ghost s = g.stops@;
    let scale = g.scale;
    let n = g.stops.len();
    proof {
        lemma_product_fits(num, scale);
    }
    let pos = num as u128 * scale as u128;
    let mut i: usize = 0;
    while i + 1 < n
        invariant
            n == s.len(),
            n > 0,
            i < n,
            s == g.stops@,
            scale == g.scale,
            pos == num * scale,
            (num, den) == clamped(elapsed, total),
            color_from(num, den, scale, s, 0) == color_from(num, den, scale, s, i as int),
        decreases n - i,
    {
        let (p0, c0) = g.stops[i];
        let (p1, c1) = g.stops[i + 1];
        proof {
            lemma_product_fits(den, p0);
            lemma_product_fits(den, p1);
        }
        let lo = p0 as u128 * den as u128;
        let hi = p1 as u128 * den as u128;
        if lo <= pos && pos <= hi {
            let x = pos - lo;
            let y = hi - lo;
            assert(y < 0x1_0000_0000_0000_0000_0000_0000) by (nonlinear_arith)
                requires
                    y <= p1 * den,
                    p1 < 0x1_0000_0000,
                    den < 0x1_0000_0000_0000_0000,
            ;
            assert(y == (p1 - p0) * den) by (nonlinear_arith)
                requires
                    y == p1 * den - p0 * den,
            ;
            return lerp_rgb(c0, c1, x, y);
        }
        i = i + 1;
    }
    g.stops[n - 1].1
}

proof fn lemma_lerp_ends(c0: u8, c1: u8, y: int)
    requires
        y > 0,
    ensures
        lerp(c0, c1, 0, y) == c0,
        lerp(c0, c1, y, y) == c1,
{
    assert((c0 * y + (c1 - c0) * 0) / y == c0) by (nonlinear_arith)
        requires
            y > 0,
    ;
    assert((c0 * y + (c1 - c0) * y) / y == c1) by (nonlinear_arith)
        requires
            y > 0,
    ;
}

/// Segments that do not hold the ratio are passed over.
proof fn lemma_skip_segments(
    num: u64,
    den: u64,
    scale: u32,
    s: Seq<(u32, (u8, u8, u8))>,
    i: int,
    k: int,
)
    requires
        0 <= i <= k,
        k + 1 < s.len(),
        forall|j: int| i <= j < k ==> !in_segment(num, den, scale, s, j),
    ensures
        color_from(num, den, scale, s, i) == color_from(num, den, scale, s, k),
    decreases k - i,
{
    if i < k {
        lemma_skip_segments(num, den, scale, s, i + 1, k);
    }
}

/// The color at stop `k`'s own position, reached from the segment that ends
/// there (or, for the first stop, the one that starts there), is stop `k`'s
/// color.
proof fn lemma_color_at_stop_ratio(num: u64, den: u64, scale: u32, s: Seq<(u32, (u8, u8, u8))>, k: int)
    requires
        valid_stops(scale, s),
        0 <= k < s.len(),
        den > 0,
        num * scale == s[k].0 * den,
    ensures
        color_from(num, den, scale, s, 0) == s[k].1,
{
    if k == 0 {
        assert(s[0].0 < s[1].0);
        assert(s[1].0 * den > 0) by (nonlinear_arith)
            requires
                s[1].0 > 0,
                den > 0,
        ;
        assert(in_segment(num, den, scale, s, 0));
        lemma_lerp_ends(s[0].1.0, s[1].1.0, (s[1].0 - s[0].0) * den);
        lemma_lerp_ends(s[0].1.1, s[1].1.1, (s[1].0 - s[0].0) * den);
        lemma_lerp_ends(s[0].1.2, s[1].1.2, (s[1].0 - s[0].0) * den);
    } else {
        assert forall|j: int| 0 <= j < k - 1 implies !in_segment(num, den, scale, s, j) by {
            assert(s[j + 1].0 < s[k].0);
            assert(s[j + 1].0 * den < s[k].0 * den) by (nonlinear_arith)
                requires
                    s[j + 1].0 < s[k].0,
                    den > 0,
            ;
        }
        lemma_skip_segments(num, den, scale, s, 0, k - 1);
        assert(s[k - 1].0 < s[k].0);
        assert(s[k - 1].0 * den <= s[k].0 * den) by (nonlinear_arith)
            requires
                s[k - 1].0 < s[k].0,
                den > 0,
        ;
        assert(in_segment(num, den, scale, s, k - 1));
        let y = (s[k].0 - s[k - 1].0) * den;
        assert(y > 0 && num * scale - s[k - 1].0 * den == y) by (nonlinear_arith)
            requires
                y == (s[k].0 - s[k - 1].0) * den,
                num * scale == s[k].0 * den,
                s[k - 1].0 < s[k].0,
                den > 0,
        ;
        lemma_lerp_ends(s[k - 1].1.0, s[k].1.0, y);
        lemma_lerp_ends(s[k - 1].1.1, s[k].1.1, y);
        lemma_lerp_ends(s[k - 1].1.2, s[k].1.2, y);
    }
}

/// The gradient starts at the first stop's color and ends at the last
/// stop's color: progress zero gives the first, complete progress (or more)
/// gives the last.
pub proof fn lemma_gradient_endpoints(g: GradientStops, elapsed: u64, total: u64)
    requires
        valid_stops(g.scale, g.stops@),
        total > 0,
    ensures
        color_at(0, total, g) == g.stops@[0].1,
        elapsed >= total ==> color_at(elapsed, total, g) == g.stops@.last().1,
{
    let s = g.stops@;
    let scale = g.scale;
    lemma_color_at_stop_ratio(0, total, scale, s, 0);
    if elapsed >= total {
        assert(total * scale == s[s.len() - 1].0 * total) by (nonlinear_arith)
            requires
                s[s.len() - 1].0 == scale,
        ;
        lemma_color_at_stop_ratio(total, total, scale, s, s.len() - 1);
    }
}

/// No jump at the stops: at the position of each stop the gradient shows
/// exactly that stop's color, so the segments on either side of it meet there.
pub proof fn lemma_gradient_meets_stops(g: GradientStops, k: int)
    requires
        valid_stops(g.scale, g.stops@),
        0 <= k < g.stops@.len(),
    ensures
        color_at(g.stops@[k].0 as u64, g.scale as u64, g) == g.stops@[k].1,
{
    let s = g.stops@;
    let scale = g.scale;
    let p = s[k].0 as u64;
    if k < s.len() - 1 {
        assert(s[k].0 < s[s.len() - 1].0);
    }
    let (num, den) = clamped(p, scale as u64);
    assert(num * scale == s[k].0 * den) by (nonlinear_arith)
        requires
            (num == p && den == scale) || (num == scale && den == scale && p == scale),
            p == s[k].0,
    ;
    lemma_color_at_stop_ratio(num, den, scale, s, k);
}

/// Channel `k` (0 red, 1 green, 2 blue) of a color.
pub open spec fn channel(c: (u8, u8, u8), k: int) -> int {
    if k == 0 {
        c.0 as int
    } else if k == 1 {
        c.1 as int
    } else {
        c.2 as int
    }
}

/// Truncation moves an interpolated channel by less than one unit from the
/// exact straight line between the two colors.
proof fn lemma_lerp_steps(c0: u8, c1: u8, x1: int, x2: int, y: int)
    requires
        0 <= x1 <= x2 <= y,
        y > 0,
    ensures
        (lerp(c0, c1, x2, y) - lerp(c0, c1, x1, y)) * y < (c1 - c0) * (x2 - x1) + y,
        (lerp(c0, c1, x2, y) - lerp(c0, c1, x1, y)) * y > (c1 - c0) * (x2 - x1) - y,
{
    let a1 = c0 * y + (c1 - c0) * x1;
    let a2 = c0 * y + (c1 - c0) * x2;
    vstd::arithmetic::div_mod::lemma_fundamental_div_mod(a1, y);
    vstd::arithmetic::div_mod::lemma_fundamental_div_mod(a2, y);
    vstd::arithmetic::div_mod::lemma_mod_bound(a1, y);
    vstd::arithmetic::div_mod::lemma_mod_bound(a2, y);
    let l1 = a1 / y;
    let l2 = a2 / y;
    assert(a2 - a1 == (c1 - c0) * (x2 - x1)) by (nonlinear_arith)
        requires
            a1 == c0 * y + (c1 - c0) * x1,
            a2 == c0 * y + (c1 - c0) * x2,
    ;
    assert((l2 - l1) * y == y * l2 - y * l1) by (nonlinear_arith);
}

/// Every ratio in the closed segment from stop `i` to stop `i + 1` gets that
/// segment's interpolation, also at its start, where the previous segment
/// ends on the same color.
proof fn lemma_color_in_segment(
    num: u64,
    den: u64,
    scale: u32,
    s: Seq<(u32, (u8, u8, u8))>,
    i: int,
)
    requires
        valid_stops(scale, s),
        den > 0,
        0 <= i < s.len() - 1,
        in_segment(num, den, scale, s, i),
    ensures
        color_from(num, den, scale, s, 0) == lerp_rgb_spec(
            s[i].1,
            s[i + 1].1,
            num * scale - s[i].0 * den,
            (s[i + 1].0 - s[i].0) * den,
        ),
{
    assert(s[i].0 < s[i + 1].0);
    let y = (s[i + 1].0 - s[i].0) * den;
    assert(y > 0) by (nonlinear_arith)
        requires
            y == (s[i + 1].0 - s[i].0) * den,
            s[i].0 < s[i + 1].0,
            den > 0,
    ;
    if i > 0 && num * scale == s[i].0 * den {
        lemma_color_at_stop_ratio(num, den, scale, s, i);
        lemma_lerp_ends(s[i].1.0, s[i + 1].1.0, y);
        lemma_lerp_ends(s[i].1.1, s[i + 1].1.1, y);
        lemma_lerp_ends(s[i].1.2, s[i + 1].1.2, y);
    } else {
        assert forall|j: int| 0 <= j < i implies !in_segment(num, den, scale, s, j) by {
            assert(s[j + 1].0 <= s[i].0);
            assert(s[j + 1].0 * den <= s[i].0 * den) by (nonlinear_arith)
                requires
                    s[j + 1].0 <= s[i].0,
                    den > 0,
            ;
        }
        lemma_skip_segments(num, den, scale, s, 0, i);
    }
}

/// The gradient is continuous: between two progress points `e1 <= e2` (of the
/// same `total`) within one segment, each channel moves by the segment's color
/// difference times the share of the segment between them, give or take less
/// than one unit of truncation; small steps in progress make small steps in
/// color.
pub proof fn lemma_gradient_continuous(
    g: GradientStops,
    e1: u64,
    e2: u64,
    total: u64,
    i: int,
    k: int,
)
    requires
        valid_stops(g.scale, g.stops@),
        total > 0,
        0 <= i < g.stops@.len() - 1,
        0 <= k < 3,
        e1 <= e2 <= total,
        g.stops@[i].0 * total <= e1 * g.scale,
        e2 * g.scale <= g.stops@[i + 1].0 * total,
    ensures
        ({
            let s = g.stops@;
            let y = (s[i + 1].0 - s[i].0) * total;
            let d = channel(s[i + 1].1, k) - channel(s[i].1, k);
            let step = channel(color_at(e2, total, g), k) - channel(color_at(e1, total, g), k);
            &&& step * y < d * ((e2 - e1) * g.scale) + y
            &&& step * y > d * ((e2 - e1) * g.scale) - y
        }),
{
    let s = g.stops@;
    let scale = g.scale;
    assert(clamped(e1, total) == (e1, total));
    assert(clamped(e2, total) == (e2, total));
    assert(e1 * scale <= e2 * scale) by (nonlinear_arith)
        requires
            e1 <= e2,
    ;
    lemma_color_in_segment(e1, total, scale, s, i);
    lemma_color_in_segment(e2, total, scale, s, i);
    assert(s[i].0 < s[i + 1].0);
    let y = (s[i + 1].0 - s[i].0) * total;
    let x1 = e1 * scale - s[i].0 * total;
    let x2 = e2 * scale - s[i].0 * total;
    assert(y > 0 && x2 <= y && x2 - x1 == (e2 - e1) * scale) by (nonlinear_arith)
        requires
            y == (s[i + 1].0 - s[i].0) * total,
            x1 == e1 * scale - s[i].0 * total,
            x2 == e2 * scale - s[i].0 * total,
            e2 * scale <= s[i + 1].0 * total,
            s[i].0 < s[i + 1].0,
            total > 0,
    ;
    let c0 = s[i].1;
    let c1 = s[i + 1].1;
    lemma_lerp_bounds(c0.0, c1.0, x1, y);
    lemma_lerp_bounds(c0.1, c1.1, x1, y);
    lemma_lerp_bounds(c0.2, c1.2, x1, y);
    lemma_lerp_bounds(c0.0, c1.0, x2, y);
    lemma_lerp_bounds(c0.1, c1.1, x2, y);
    lemma_lerp_bounds(c0.2, c1.2, x2, y);
    if k == 0 {
        lemma_lerp_steps(c0.0, c1.0, x1, x2, y);
    } else if k == 1 {
        lemma_lerp_steps(c0.1, c1.1, x1, x2, y);
    } else {
        lemma_lerp_steps(c0.2, c1.2, x1, x2, y);
    }
}

} // verus!
