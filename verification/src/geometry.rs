//! Pure PiP geometry: corner parking, drag zones, aspect-locked resize, move
//! translation, media-adapted boxes and the minimal-look region plan.
use vstd::prelude::*;

use crate::text::chars_of;

verus! {

/// Plain screen rectangle (left/top inclusive, right/bottom exclusive).
#[derive(Debug, Clone, Copy, PartialEq, Eq, Structural, Default)]
pub struct Rect {
    pub left: i32,
    pub top: i32,
    pub right: i32,
    pub bottom: i32,
}

/// The four PiP corners. Unknown input falls back to `Br`.
#[derive(Debug, Clone, Copy, PartialEq, Eq, Structural, Default)]
pub enum Corner {
    Tl,
    Tr,
    Bl,
    #[default]
    Br,
}

/// The token a corner is written as.
pub open spec fn corner_str(c: Corner) -> Seq<char> {
    match c {
        Corner::Tl => seq!['t', 'l'],
        Corner::Tr => seq!['t', 'r'],
        Corner::Bl => seq!['b', 'l'],
        Corner::Br => seq!['b', 'r'],
    }
}

/// The corner a token names: exactly `tl`, `tr` or `bl`, anything else is `Br`.
pub open spec fn corner_of(s: Seq<char>) -> Corner {
    if s == seq!['t', 'l'] {
        Corner::Tl
    } else if s == seq!['t', 'r'] {
        Corner::Tr
    } else if s == seq!['b', 'l'] {
        Corner::Bl
    } else {
        Corner::Br
    }
}

/// Reading back a written corner gives the same corner.
pub proof fn lemma_corner_round_trip(c: Corner)
    ensures
        corner_of(corner_str(c)) == c,
        corner_str(c).len() == 2,
        crate::text::no_ws(corner_str(c)),
{
    let s = corner_str(c);
    assert(s.len() == 2);
    if s == seq!['t', 'l'] {
        assert(s[1] == 'l');
    }
    if s == seq!['t', 'r'] {
        assert(s[1] == 'r' && s[0] == 't');
    }
    if s == seq!['b', 'l'] {
        assert(s[1] == 'l' && s[0] == 'b');
    }
}

/// Corner named by `v[lo..hi]`.
pub fn corner_from_range(v: &Vec<char>, lo: usize, hi: usize) -> (c: Corner)
    requires
        lo <= hi <= v@.len(),
    ensures
        c == corner_of(v@.subrange(lo as int, hi as int)),
{
    let ghost s = v@.subrange(lo as int, hi as int);
    if hi - lo != 2 {
        proof {
            assert(s.len() != 2);
            assert(seq!['t', 'l'].len() == 2 && seq!['t', 'r'].len() == 2 && seq!['b', 'l'].len()
                == 2);
        }
        return Corner::Br;
    }
    let (a, b) = (v[lo], v[lo + 1]);
    proof {
        assert(s[0] == a && s[1] == b);
        assert(seq!['t', 'l'][0] == 't' && seq!['t', 'l'][1] == 'l');
        assert(seq!['t', 'r'][0] == 't' && seq!['t', 'r'][1] == 'r');
        assert(seq!['b', 'l'][0] == 'b' && seq!['b', 'l'][1] == 'l');
    }
    if a == 't' && b == 'l' {
        assert(s =~= seq!['t', 'l']);
        Corner::Tl
    } else if a == 't' && b == 'r' {
        assert(s =~= seq!['t', 'r']);
        Corner::Tr
    } else if a == 'b' && b == 'l' {
        assert(s =~= seq!['b', 'l']);
        Corner::Bl
    } else {
        Corner::Br
    }
}

impl Corner {
    /// Parses a corner token; anything but `tl`, `tr`, `bl` is `Br`.
    pub fn parse(s: &str) -> (c: Corner)
        ensures
            c == corner_of(s@),
    {
        let v = chars_of(s);
        let c = corner_from_range(&v, 0, v.len());
        assert(v@.subrange(0, v@.len() as int) =~= v@);
        c
    }

    pub fn as_str(self) -> (s: &'static str)
        ensures
            s@ == corner_str(self),
            Corner::parse_spec(s@) == self,
    {
        proof {
            reveal_strlit("tl");
            reveal_strlit("tr");
            reveal_strlit("bl");
            reveal_strlit("br");
            lemma_corner_round_trip(self);
        }
        let s = match self {
            Corner::Tl => "tl",
            Corner::Tr => "tr",
            Corner::Bl => "bl",
            Corner::Br => "br",
        };
        assert(s@ =~= corner_str(self));
        s
    }

    pub open spec fn parse_spec(s: Seq<char>) -> Corner {
        corner_of(s)
    }
}

/// Where within the visible PiP a drag started, as per-axis signs: -1 is the low edge,
/// 1 the high edge, and 0 neither. `(0, 0)` is the move interior.
pub type DragZone = (i32, i32);

/// Division truncating toward zero (Rust's `/` on signed integers), for a positive divisor.
pub open spec fn tdiv(a: int, b: int) -> int {
    if a >= 0 {
        a / b
    } else {
        -((-a) / b)
    }
}

fn tdiv_exec(a: i128, b: i128) -> (r: i128)
    requires
        b > 0,
        a > i128::MIN,
    ensures
        r == tdiv(a as int, b as int),
{
    if a >= 0 {
        a / b
    } else {
        -((-a) / b)
    }
}

pub open spec fn fits_i32(x: int) -> bool {
    i32::MIN <= x <= i32::MAX
}

pub open spec fn imin(a: int, b: int) -> int {
    if a <= b {
        a
    } else {
        b
    }
}

pub open spec fn imax(a: int, b: int) -> int {
    if a >= b {
        a
    } else {
        b
    }
}

pub open spec fn iclamp(x: int, lo: int, hi: int) -> int {
    if x < lo {
        lo
    } else if x > hi {
        hi
    } else {
        x
    }
}

pub open spec fn iabs(x: int) -> int {
    if x < 0 {
        -x
    } else {
        x
    }
}

/// Middle of a span, as `lo + (hi - lo) / 2` with Rust's truncating division.
pub open spec fn mid(lo: int, hi: int) -> int {
    lo + tdiv(hi - lo, 2)
}

/// Work-area quadrant of the window center; ties go to the right/bottom half.
pub open spec fn nearest_corner_spec(win: Rect, work: Rect) -> Corner {
    let left_half = mid(win.left as int, win.right as int) < mid(work.left as int, work.right as int);
    let top_half = mid(win.top as int, win.bottom as int) < mid(work.top as int, work.bottom as int);
    if left_half && top_half {
        Corner::Tl
    } else if !left_half && top_half {
        Corner::Tr
    } else if left_half && !top_half {
        Corner::Bl
    } else {
        Corner::Br
    }
}

fn mid_exec(lo: i32, hi: i32) -> (r: i128)
    ensures
        r == mid(lo as int, hi as int),
{
    lo as i128 + tdiv_exec(hi as i128 - lo as i128, 2)
}

/// Work-area quadrant of the window center. Ties resolve toward Br.
pub fn nearest_corner(win: &Rect, work: &Rect) -> (c: Corner)
    ensures
        c == nearest_corner_spec(*win, *work),
{
    let left_half = mid_exec(win.left, win.right) < mid_exec(work.left, work.right);
    let top_half = mid_exec(win.top, win.bottom) < mid_exec(work.top, work.bottom);
    if left_half && top_half {
        Corner::Tl
    } else if !left_half && top_half {
        Corner::Tr
    } else if left_half && !top_half {
        Corner::Bl
    } else {
        Corner::Br
    }
}

/// Per-axis sign of a coordinate against the outer `band` of `[lo, hi)`: the low band
/// wins where the two bands overlap.
pub open spec fn band_sign(p: int, lo: int, hi: int, band: int) -> i32 {
    if p < lo + band {
        -1i32
    } else if p >= hi - band {
        1i32
    } else {
        0i32
    }
}

pub open spec fn classify_zone_spec(x: int, y: int, vis: Rect, band: int) -> DragZone {
    (band_sign(x, vis.left as int, vis.right as int, band), band_sign(y, vis.top as int, vis.bottom as int, band))
}

fn band_sign_exec(p: i32, lo: i32, hi: i32, band: i32) -> (r: i32)
    ensures
        r == band_sign(p as int, lo as int, hi as int, band as int),
{
    if (p as i64) < lo as i64 + band as i64 {
        -1
    } else if (p as i64) >= hi as i64 - band as i64 {
        1
    } else {
        0
    }
}

/// Zone of a point in the visible rect: outer `band` px = resize, else move. Axes are
/// independent, and the low edge wins where opposite bands overlap.
pub fn classify_zone(x: i32, y: i32, vis: &Rect, band: i32) -> (z: DragZone)
    ensures
        z == classify_zone_spec(x as int, y as int, *vis, band as int),
        -1 <= z.0 <= 1,
        -1 <= z.1 <= 1,
{
    (band_sign_exec(x, vis.left, vis.right, band), band_sign_exec(y, vis.top, vis.bottom, band))
}

// Real chrome (menu + controller + borders) is well under this. Enter's measurement and
// the converger share the bound so they accept the same geometry.
pub const MAX_CHROME: i32 = 300;

/// The chrome the visible box implies inside `outer`, per axis.
pub open spec fn implied_chrome(outer: Rect, vis: Rect) -> (int, int) {
    (
        (outer.right - outer.left) - (vis.right - vis.left),
        (outer.bottom - outer.top) - (vis.bottom - vis.top),
    )
}

/// True when the visible box's implied chrome lies in `0..=MAX_CHROME` on both axes.
pub open spec fn credible_vis_spec(outer: Rect, vis: Rect) -> bool {
    let (cw, ch) = implied_chrome(outer, vis);
    0 <= cw <= MAX_CHROME && 0 <= ch <= MAX_CHROME
}

/// True when the visible box's implied chrome is credible for `outer`. A stale region
/// mid-relayout implies impossible chrome; a gesture must then treat it as no region.
pub fn credible_vis(outer: &Rect, vis: &Rect) -> (b: bool)
    ensures
        b == credible_vis_spec(*outer, *vis),
{
    let cw = (outer.right as i64 - outer.left as i64) - (vis.right as i64 - vis.left as i64);
    let ch = (outer.bottom as i64 - outer.top as i64) - (vis.bottom as i64 - vis.top as i64);
    0 <= cw && cw <= MAX_CHROME as i64 && 0 <= ch && ch <= MAX_CHROME as i64
}

/// Smallest visible width a resize drag produces.
pub const MIN_W: i32 = 256;

/// `i64::saturating_mul`.
pub open spec fn sat_mul_i64(a: int, b: int) -> int {
    iclamp(a * b, i64::MIN as int, i64::MAX as int)
}

/// Signed pointer delta along one axis for a zone sign: the low edge grows against the
/// pointer, the high edge with it, an interior axis not at all.
pub open spec fn axis_delta(sign: i32, d: int) -> int {
    if sign == -1 {
        -d
    } else if sign == 1 {
        d
    } else {
        0
    }
}

/// Largest visible width a resize may reach: 80% of the work width and, through the
/// aspect, 80% of the work height, both net of chrome; never below `MIN_W`.
pub open spec fn resize_max_w(w0: int, h0: int, cw: int, ch: int, work: Rect) -> int {
    imax(
        imin(
            tdiv((work.right - work.left) * 4, 5) - cw,
            (tdiv((tdiv((work.bottom - work.top) * 4, 5) - ch) * w0, h0) as i32) as int,
        ),
        MIN_W as int,
    )
}

/// Visible size of a resize from the visible start size `w0 x h0` by edge growth `dw`,
/// `dh`: width-driven when the relative width change dominates, else height-driven; the
/// width is clamped to `MIN_W..=max_w` and the height follows the start aspect (at least 1).
pub open spec fn resize_vis_size(w0: int, h0: int, dw: int, dh: int, max_w: int) -> (int, int) {
    let width_driven = iabs(dw) * h0 >= iabs(dh) * w0;
    let raw_w = if width_driven {
        w0 + dw
    } else {
        tdiv(sat_mul_i64(h0 + dh, w0), h0)
    };
    let vw = iclamp(raw_w, MIN_W as int, max_w);
    (vw, imax(((vw * h0 / w0) as i32) as int, 1))
}

/// Span of length `size` on one axis: anchored at `hi` when the low edge is dragged, at
/// `lo` when the high edge is, else centered on the old span.
pub open spec fn anchored_span(lo: int, hi: int, size: int, sign: i32) -> (int, int) {
    if sign == -1 {
        (hi - size, hi)
    } else if sign == 1 {
        (lo, lo + size)
    } else {
        let l = lo + tdiv((hi - lo) - size, 2);
        (l, l + size)
    }
}

/// Chrome used by a resize plan: the implied chrome when credible, else none.
pub open spec fn plan_chrome(start: Rect, vis: Rect) -> (int, int) {
    if credible_vis_spec(start, vis) {
        implied_chrome(start, vis)
    } else {
        (0int, 0int)
    }
}

/// The resize plan before the representability check: `None` for a garbage measurement
/// (visible start size below 1), else the target rect as unbounded integers.
pub open spec fn resize_target(
    start: Rect,
    vis: Rect,
    zone: DragZone,
    dx: int,
    dy: int,
    work: Rect,
) -> Option<(int, int, int, int)> {
    let (cw, ch) = plan_chrome(start, vis);
    let w0 = (start.right - start.left) - cw;
    let h0 = (start.bottom - start.top) - ch;
    if w0 < 1 || h0 < 1 {
        None
    } else {
        let limit = u32::MAX as int;
        let dw = axis_delta(zone.0, iclamp(dx, -limit, limit));
        let dh = axis_delta(zone.1, iclamp(dy, -limit, limit));
        let (vw, vh) = resize_vis_size(w0, h0, dw, dh, resize_max_w(w0, h0, cw, ch, work));
        let (left, right) = anchored_span(start.left as int, start.right as int, vw + cw, zone.0);
        let (top, bottom) = anchored_span(start.top as int, start.bottom as int, vh + ch, zone.1);
        Some((left, top, right, bottom))
    }
}

/// A resize keeps the visible width between `MIN_W` and 80% of the work width (net of
/// chrome; the floor wins on a tiny work area), keeps the window grown by exactly the start
/// chrome, locks the visible aspect of the drag start (the height is the width scaled by it,
/// rounded down), and anchors the side opposite the dragged edge (a pure edge keeps the
/// perpendicular center).
pub proof fn lemma_resize_clamped_and_anchored(
    start: Rect,
    vis: Rect,
    zone: DragZone,
    dx: int,
    dy: int,
    work: Rect,
)
    requires
        resize_target(start, vis, zone, dx, dy, work) is Some,
    ensures
        ({
            let (l, t, r, b) = resize_target(start, vis, zone, dx, dy, work).unwrap();
            let (cw, ch) = plan_chrome(start, vis);
            let vw = (r - l) - cw;
            let vh = (b - t) - ch;
            let w0 = (start.right - start.left) - cw;
            let h0 = (start.bottom - start.top) - ch;
            &&& MIN_W <= vw
            &&& vw <= imax(tdiv((work.right - work.left) * 4, 5) - cw, MIN_W as int)
            &&& vh >= 1
            &&& 1 <= vw * h0 / w0 <= i32::MAX ==> vh * w0 <= vw * h0 < (vh + 1) * w0
            &&& zone.0 == 1 ==> l == start.left
            &&& zone.0 == -1 ==> r == start.right
            &&& zone.0 == 0 ==> l == start.left + tdiv((start.right - start.left) - (r - l), 2)
            &&& zone.1 == 1 ==> t == start.top
            &&& zone.1 == -1 ==> b == start.bottom
            &&& zone.1 == 0 ==> t == start.top + tdiv((start.bottom - start.top) - (b - t), 2)
        }),
{
    let (l, t, r, b) = resize_target(start, vis, zone, dx, dy, work).unwrap();
    let (cw, ch) = plan_chrome(start, vis);
    let vw = (r - l) - cw;
    let vh = (b - t) - ch;
    let w0 = (start.right - start.left) - cw;
    let h0 = (start.bottom - start.top) - ch;
    if 1 <= vw * h0 / w0 <= i32::MAX {
        assert(vh == vw * h0 / w0);
        lemma_floor_div_bounds(vw * h0, w0);
    }
}

/// The dominant RELATIVE change drives a resize: with the pointer delta taken along the
/// grabbed edges (growing away from the anchored side, at most the i32 span per axis), the
/// drag is width-driven exactly when `|dw| / w0 >= |dh| / h0` for the visible start size
/// `w0 x h0`, and the visible width before the clamp is then `w0 + dw`; otherwise it is
/// the width that keeps the start aspect at height `h0 + dh`. The planned window has that
/// visible width plus the start chrome.
pub proof fn lemma_resize_dominant_delta_drives(
    start: Rect,
    vis: Rect,
    zone: DragZone,
    dx: int,
    dy: int,
    work: Rect,
)
    requires
        resize_target(start, vis, zone, dx, dy, work) is Some,
    ensures
        ({
            let (l, t, r, b) = resize_target(start, vis, zone, dx, dy, work).unwrap();
            let (cw, ch) = plan_chrome(start, vis);
            let w0 = (start.right - start.left) - cw;
            let h0 = (start.bottom - start.top) - ch;
            let span = u32::MAX as int;
            let dxc = if dx < -span {
                -span
            } else if dx > span {
                span
            } else {
                dx
            };
            let dyc = if dy < -span {
                -span
            } else if dy > span {
                span
            } else {
                dy
            };
            let dw = if zone.0 == 1 {
                dxc
            } else if zone.0 == -1 {
                -dxc
            } else {
                0
            };
            let dh = if zone.1 == 1 {
                dyc
            } else if zone.1 == -1 {
                -dyc
            } else {
                0
            };
            let adw = if dw >= 0 {
                dw
            } else {
                -dw
            };
            let adh = if dh >= 0 {
                dh
            } else {
                -dh
            };
            let max_w = resize_max_w(w0, h0, cw, ch, work);
            let vw = (r - l) - cw;
            &&& w0 >= 1 && h0 >= 1
            &&& adw * h0 >= adh * w0 ==> vw == iclamp(w0 + dw, MIN_W as int, max_w)
            &&& adw * h0 < adh * w0 ==> vw == iclamp(
                tdiv(sat_mul_i64(h0 + dh, w0), h0),
                MIN_W as int,
                max_w,
            )
            &&& fits_i32(l) && fits_i32(t) && fits_i32(r) && fits_i32(b) ==> {
                let pr = plan_resize_spec(start, vis, zone, dx, dy, work);
                pr == Rect { left: l as i32, top: t as i32, right: r as i32, bottom: b as i32 }
            }
        }),
{
}

/// `q = n / d` for a positive `d` brackets `n` between `q * d` and `(q + 1) * d`.
proof fn lemma_floor_div_bounds(n: int, d: int)
    requires
        d > 0,
    ensures
        (n / d) * d <= n < (n / d + 1) * d,
{
    vstd::arithmetic::div_mod::lemma_fundamental_div_mod(n, d);
    assert((n / d + 1) * d == (n / d) * d + d) by (nonlinear_arith);
    assert(d * (n / d) == (n / d) * d) by (nonlinear_arith);
}

/// New window rect for a live resize drag: the dominant relative delta drives the scale,
/// the other dimension follows the visible box's aspect at drag start, the visible width
/// is clamped to `MIN_W..=` 80% of the work area (height also capped at 80%), and the
/// edge opposite the dragged one stays anchored (a pure edge keeps the perpendicular
/// center). A garbage measurement or an unrepresentable target leaves `start` unchanged.
pub open spec fn plan_resize_spec(
    start: Rect,
    vis: Rect,
    zone: DragZone,
    dx: int,
    dy: int,
    work: Rect,
) -> Rect {
    match resize_target(start, vis, zone, dx, dy, work) {
        Some((l, t, r, b)) => if fits_i32(l) && fits_i32(t) && fits_i32(r) && fits_i32(b) {
            Rect { left: l as i32, top: t as i32, right: r as i32, bottom: b as i32 }
        } else {
            start
        },
        None => start,
    }
}

const BND: i128 = 0x100_0000_0000i128;

/// Exact product of two operands bounded by 2^40.
fn mul40(a: i128, b: i128) -> (r: i128)
    requires
        -BND <= a <= BND,
        -BND <= b <= BND,
    ensures
        r == a * b,
{
    assert(-BND * BND <= a * b <= BND * BND) by (nonlinear_arith)
        requires
            -BND <= a <= BND,
            -BND <= b <= BND,
    ;
    a * b
}

fn iclamp_exec(x: i128, lo: i128, hi: i128) -> (r: i128)
    ensures
        r == iclamp(x as int, lo as int, hi as int),
{
    if x < lo {
        lo
    } else if x > hi {
        hi
    } else {
        x
    }
}

fn to_rect(l: i128, t: i128, r: i128, b: i128, fallback: &Rect) -> (out: Rect)
    ensures
        out == (if fits_i32(l as int) && fits_i32(t as int) && fits_i32(r as int) && fits_i32(
            b as int,
        ) {
            Rect { left: l as i32, top: t as i32, right: r as i32, bottom: b as i32 }
        } else {
            *fallback
        }),
{
    if i32::MIN as i128 <= l && l <= i32::MAX as i128 && i32::MIN as i128 <= t && t
        <= i32::MAX as i128 && i32::MIN as i128 <= r && r <= i32::MAX as i128 && i32::MIN as i128
        <= b && b <= i32::MAX as i128 {
        Rect { left: l as i32, top: t as i32, right: r as i32, bottom: b as i32 }
    } else {
        *fallback
    }
}

fn axis_delta_exec(sign: i32, d: i128) -> (r: i128)
    requires
        -BND <= d <= BND,
    ensures
        r == axis_delta(sign, d as int),
        -BND <= r <= BND,
{
    if sign == -1 {
        -d
    } else if sign == 1 {
        d
    } else {
        0
    }
}

fn resize_max_w_exec(w0: i128, h0: i128, cw: i128, ch: i128, work: &Rect) -> (r: i128)
    requires
        1 <= w0 <= 0x2_0000_0000,
        1 <= h0 <= 0x2_0000_0000,
        0 <= cw <= MAX_CHROME,
        0 <= ch <= MAX_CHROME,
    ensures
        r == resize_max_w(w0 as int, h0 as int, cw as int, ch as int, *work),
        MIN_W <= r <= 0x10_0000_0000,
{
    let cap_w = tdiv_exec(mul40(work.right as i128 - work.left as i128, 4), 5) - cw;
    let cap_h = tdiv_exec(mul40(work.bottom as i128 - work.top as i128, 4), 5) - ch;
    let p = mul40(cap_h, w0);
    assert(p > i128::MIN) by (nonlinear_arith)
        requires
            p == cap_h * w0,
            -BND <= cap_h <= BND,
            1 <= w0 <= 0x2_0000_0000,
    ;
    let cap_from_h = (tdiv_exec(p, h0) as i32) as i128;
    let m = if cap_w <= cap_from_h {
        cap_w
    } else {
        cap_from_h
    };
    if m >= MIN_W as i128 {
        m
    } else {
        MIN_W as i128
    }
}

fn resize_vis_size_exec(w0: i128, h0: i128, dw: i128, dh: i128, max_w: i128) -> (r: (i128, i128))
    requires
        1 <= w0 <= 0x2_0000_0000,
        1 <= h0 <= 0x2_0000_0000,
        -0x1_0000_0000 <= dw <= 0x1_0000_0000,
        -0x1_0000_0000 <= dh <= 0x1_0000_0000,
        MIN_W <= max_w <= 0x10_0000_0000,
    ensures
        (r.0 as int, r.1 as int) == resize_vis_size(w0 as int, h0 as int, dw as int, dh as int, max_w as int),
        MIN_W <= r.0 <= max_w,
        1 <= r.1 <= i32::MAX,
{
    let adw = if dw < 0 {
        -dw
    } else {
        dw
    };
    let adh = if dh < 0 {
        -dh
    } else {
        dh
    };
    let width_driven = mul40(adw, h0) >= mul40(adh, w0);
    let raw_w = if width_driven {
        w0 + dw
    } else {
        let p = mul40(h0 + dh, w0);
        let sat = iclamp_exec(p, i64::MIN as i128, i64::MAX as i128);
        tdiv_exec(sat, h0)
    };
    let vw = iclamp_exec(raw_w, MIN_W as i128, max_w);
    let q = mul40(vw, h0);
    assert(q >= 0) by (nonlinear_arith)
        requires
            q == vw * h0,
            vw >= 0,
            h0 >= 0,
    ;
    let vh0 = (q / w0) as i32;
    let vh = if vh0 >= 1 {
        vh0 as i128
    } else {
        1i128
    };
    (vw, vh)
}

fn anchored_span_exec(lo: i32, hi: i32, size: i128, sign: i32) -> (r: (i128, i128))
    requires
        0 <= size <= 0x20_0000_0000,
    ensures
        (r.0 as int, r.1 as int) == anchored_span(lo as int, hi as int, size as int, sign),
{
    if sign == -1 {
        (hi as i128 - size, hi as i128)
    } else if sign == 1 {
        (lo as i128, lo as i128 + size)
    } else {
        let l = lo as i128 + tdiv_exec((hi as i128 - lo as i128) - size, 2);
        (l, l + size)
    }
}

/// New window rect for a live resize drag (see `plan_resize_spec`). The dominant relative
/// delta drives the scale (edges have one axis by construction); the other dimension
/// follows the VISIBLE box's aspect at drag start, since chrome is a constant band. Chrome
/// outside the 0..=MAX_CHROME sanity range plans chrome-free from the outer rect.
pub fn plan_resize(start: &Rect, vis: &Rect, zone: DragZone, dx: i64, dy: i64, work: &Rect) -> (r:
    Rect)
    ensures
        r == plan_resize_spec(*start, *vis, zone, dx as int, dy as int, *work),
{
    let (cw, ch) = if credible_vis(start, vis) {
        (
            (start.right as i128 - start.left as i128) - (vis.right as i128 - vis.left as i128),
            (start.bottom as i128 - start.top as i128) - (vis.bottom as i128 - vis.top as i128),
        )
    } else {
        (0i128, 0i128)
    };
    let w0 = (start.right as i128 - start.left as i128) - cw;
    let h0 = (start.bottom as i128 - start.top as i128) - ch;
    if w0 < 1 || h0 < 1 {
        return *start;
    }
    let limit = u32::MAX as i128;
    let dw = axis_delta_exec(zone.0, iclamp_exec(dx as i128, -limit, limit));
    let dh = axis_delta_exec(zone.1, iclamp_exec(dy as i128, -limit, limit));
    let max_w = resize_max_w_exec(w0, h0, cw, ch, work);
    let (vw, vh) = resize_vis_size_exec(w0, h0, dw, dh, max_w);
    let (left, right) = anchored_span_exec(start.left, start.right, vw + cw, zone.0);
    let (top, bottom) = anchored_span_exec(start.top, start.bottom, vh + ch, zone.1);
    to_rect(left, top, right, bottom, start)
}

// ---- move ---------------------------------------------------------------------------------

/// Translate a move drag without letting a full-width pointer delta wrap screen
/// coordinates. `None` means the target cannot be represented by an i32 rect.
pub fn plan_move(start: &Rect, dx: i64, dy: i64) -> (r: Option<Rect>)
    ensures
        ({
            let l = start.left + dx;
            let t = start.top + dy;
            let rr = start.right + dx;
            let b = start.bottom + dy;
            if fits_i32(l) && fits_i32(t) && fits_i32(rr) && fits_i32(b) {
                r == Some(Rect { left: l as i32, top: t as i32, right: rr as i32, bottom: b as i32 })
            } else {
                r is None
            }
        }),
{
    let l = start.left as i128 + dx as i128;
    let t = start.top as i128 + dy as i128;
    let rr = start.right as i128 + dx as i128;
    let b = start.bottom as i128 + dy as i128;
    if i32::MIN as i128 <= l && l <= i32::MAX as i128 && i32::MIN as i128 <= t && t
        <= i32::MAX as i128 && i32::MIN as i128 <= rr && rr <= i32::MAX as i128 && i32::MIN as i128
        <= b && b <= i32::MAX as i128 {
        Some(Rect { left: l as i32, top: t as i32, right: rr as i32, bottom: b as i32 })
    } else {
        None
    }
}

/// A move keeps the window's size and shifts it by exactly the pointer delta.
pub proof fn lemma_move_is_translation(start: Rect, dx: i64, dy: i64, r: Rect)
    requires
        fits_i32(start.left + dx) && fits_i32(start.top + dy) && fits_i32(start.right + dx)
            && fits_i32(start.bottom + dy),
        r == (Rect {
            left: (start.left + dx) as i32,
            top: (start.top + dy) as i32,
            right: (start.right + dx) as i32,
            bottom: (start.bottom + dy) as i32,
        }),
    ensures
        r.right - r.left == start.right - start.left,
        r.bottom - r.top == start.bottom - start.top,
        r.left - start.left == dx,
        r.top - start.top == dy,
{
}

// ---- media-adapted enter box ----------------------------------------------------------------

/// The media-adapted box before the representability check.
pub open spec fn adapt_target(o_w: int, mw: int, mh: int, work: Rect) -> (int, int) {
    let h = imax(o_w * mh / mw, 1);
    let max_h = tdiv((work.bottom - work.top) * 4, 5);
    if h > max_h {
        let h2 = imax(max_h, 1);
        let w2 = imax(h2 * mw / mh, 1);
        if w2 < MIN_W {
            (MIN_W as int, imax(MIN_W * mh / mw, 1))
        } else {
            (w2, h2)
        }
    } else {
        (o_w, h)
    }
}

/// Media-adapted PiP box for enter: keep the configured width and follow the video's
/// aspect, shrinking at that aspect when the height would exceed 80% of the work area;
/// the 256px floor wins over the cap. No media, degenerate dimensions or an
/// unrepresentable result fall back to the configured box.
pub open spec fn adapt_box_spec(o_w: i32, o_h: i32, media: Option<(i32, i32)>, work: Rect) -> (
    i32,
    i32,
) {
    match media {
        None => (o_w, o_h),
        Some((mw, mh)) => if o_w < 1 || mw < 1 || mh < 1 {
            (o_w, o_h)
        } else {
            let (w, h) = adapt_target(o_w as int, mw as int, mh as int, work);
            if fits_i32(w) && fits_i32(h) {
                (w as i32, h as i32)
            } else {
                (o_w, o_h)
            }
        },
    }
}

fn pos_div(a: i128, b: i128) -> (r: i128)
    requires
        a >= 0,
        b > 0,
    ensures
        r == a / b,
        0 <= r <= a,
{
    a / b
}

pub fn adapt_box(o_w: i32, o_h: i32, media: Option<(i32, i32)>, work: &Rect) -> (r: (i32, i32))
    ensures
        r == adapt_box_spec(o_w, o_h, media, *work),
{
    let (mw, mh) = match media {
        None => {
            return (o_w, o_h);
        },
        Some(m) => m,
    };
    if o_w < 1 || mw < 1 || mh < 1 {
        return (o_w, o_h);
    }
    let (mw, mh) = (mw as i128, mh as i128);
    let mut w = o_w as i128;
    let h1 = pos_div(mul40(w, mh), mw);
    let mut h = if h1 >= 1 {
        h1
    } else {
        1
    };
    let max_h = tdiv_exec(mul40(work.bottom as i128 - work.top as i128, 4), 5);
    if h > max_h {
        h = if max_h >= 1 {
            max_h
        } else {
            1
        };
        assert(h <= BND);
        let w1 = pos_div(mul40(h, mw), mh);
        w = if w1 >= 1 {
            w1
        } else {
            1
        };
        if w < MIN_W as i128 {
            w = MIN_W as i128;
            let h2 = pos_div(mul40(w, mh), mw);
            h = if h2 >= 1 {
                h2
            } else {
                1
            };
        }
    }
    if i32::MIN as i128 <= w && w <= i32::MAX as i128 && i32::MIN as i128 <= h && h
        <= i32::MAX as i128 {
        (w as i32, h as i32)
    } else {
        (o_w, o_h)
    }
}

// ---- minimal look through a resize drag ------------------------------------------------------

/// Window-relative clip box that keeps the per-side chrome measured at drag start applied
/// to the target size.
pub open spec fn clip_box(start: Rect, vis: Rect, target: Rect) -> (int, int, int, int) {
    (
        vis.left - start.left,
        vis.top - start.top,
        (target.right - target.left) - (start.right - vis.right),
        (target.bottom - target.top) - (start.bottom - vis.bottom),
    )
}

pub open spec fn clip_box_fits(start: Rect, vis: Rect, target: Rect) -> bool {
    let (l, t, r, b) = clip_box(start, vis, target);
    fits_i32(l) && fits_i32(t) && fits_i32(r) && fits_i32(b)
}

/// Whether `resize_clip` can represent its box.
pub fn clip_box_fits_exec(start: &Rect, vis: &Rect, target: &Rect) -> (b: bool)
    ensures
        b == clip_box_fits(*start, *vis, *target),
{
    let l = vis.left as i128 - start.left as i128;
    let t = vis.top as i128 - start.top as i128;
    let r = (target.right as i128 - target.left as i128) - (start.right as i128 - vis.right as i128);
    let bt = (target.bottom as i128 - target.top as i128) - (start.bottom as i128
        - vis.bottom as i128);
    i32::MIN as i128 <= l && l <= i32::MAX as i128 && i32::MIN as i128 <= t && t
        <= i32::MAX as i128 && i32::MIN as i128 <= r && r <= i32::MAX as i128 && i32::MIN as i128
        <= bt && bt <= i32::MAX as i128
}

/// Window-relative region that keeps the minimal look live through a resize drag. `None`
/// when the target has shrunk below the chrome (an inverted box must not clip).
pub fn resize_clip(start: &Rect, vis: &Rect, target: &Rect) -> (r: Option<Rect>)
    requires
        clip_box_fits(*start, *vis, *target),
    ensures
        ({
            let (l, t, rr, b) = clip_box(*start, *vis, *target);
            if rr > l && b > t {
                r == Some(Rect { left: l as i32, top: t as i32, right: rr as i32, bottom: b as i32 })
            } else {
                r is None
            }
        }),
{
    let l = (vis.left as i128 - start.left as i128) as i32;
    let t = (vis.top as i128 - start.top as i128) as i32;
    let r = ((target.right as i128 - target.left as i128) - (start.right as i128
        - vis.right as i128)) as i32;
    let b = ((target.bottom as i128 - target.top as i128) - (start.bottom as i128
        - vis.bottom as i128)) as i32;
    if r > l && b > t {
        Some(Rect { left: l, top: t, right: r, bottom: b })
    } else {
        None
    }
}

// ---- corner parking --------------------------------------------------------------------------

/// Top-left of a `w x h` box parked in `corner` of the work area, `margin` px inside.
pub open spec fn corner_pos(work: Rect, w: int, h: int, corner: Corner, margin: int) -> (int, int) {
    let left = work.left + margin;
    let top = work.top + margin;
    let right = work.right - w - margin;
    let bottom = work.bottom - h - margin;
    match corner {
        Corner::Tl => (left, top),
        Corner::Tr => (right, top),
        Corner::Bl => (left, bottom),
        Corner::Br => (right, bottom),
    }
}

pub open spec fn compute_corner_spec(work: Rect, w: int, h: int, corner: Corner, margin: int) -> Option<(i32, i32)> {
    if w <= 0 || h <= 0 {
        None
    } else {
        let (x, y) = corner_pos(work, w, h, corner, margin);
        if fits_i32(x) && fits_i32(y) {
            Some((x as i32, y as i32))
        } else {
            None
        }
    }
}

/// Where a `w x h` PiP box lands: `None` for a non-positive size or an unrepresentable
/// coordinate.
pub fn compute_corner(work: &Rect, w: i32, h: i32, corner: Corner, margin: i32) -> (r: Option<
    (i32, i32),
>)
    ensures
        r == compute_corner_spec(*work, w as int, h as int, corner, margin as int),
{
    if w <= 0 || h <= 0 {
        return None;
    }
    let left = work.left as i128 + margin as i128;
    let top = work.top as i128 + margin as i128;
    let right = work.right as i128 - w as i128 - margin as i128;
    let bottom = work.bottom as i128 - h as i128 - margin as i128;
    let (x, y) = match corner {
        Corner::Tl => (left, top),
        Corner::Tr => (right, top),
        Corner::Bl => (left, bottom),
        Corner::Br => (right, bottom),
    };
    if i32::MIN as i128 <= x && x <= i32::MAX as i128 && i32::MIN as i128 <= y && y
        <= i32::MAX as i128 {
        Some((x as i32, y as i32))
    } else {
        None
    }
}

/// A parked box lies inside the work area, `margin` px from the two edges of its corner,
/// whenever it fits there with that margin on every side.
pub proof fn lemma_corner_inside_work_area(work: Rect, w: int, h: int, corner: Corner, margin: int)
    requires
        w > 0,
        h > 0,
        margin >= 0,
        w + 2 * margin <= work.right - work.left,
        h + 2 * margin <= work.bottom - work.top,
    ensures
        ({
            let (x, y) = corner_pos(work, w, h, corner, margin);
            &&& work.left + margin <= x
            &&& x + w + margin <= work.right
            &&& work.top + margin <= y
            &&& y + h + margin <= work.bottom
            &&& (corner == Corner::Tl || corner == Corner::Bl) ==> x == work.left + margin
            &&& (corner == Corner::Tr || corner == Corner::Br) ==> x + w + margin == work.right
            &&& (corner == Corner::Tl || corner == Corner::Tr) ==> y == work.top + margin
            &&& (corner == Corner::Bl || corner == Corner::Br) ==> y + h + margin == work.bottom
        }),
{
}

// ---- minimal-look convergence plan ------------------------------------------------------------

#[derive(Debug, PartialEq, Eq, Structural)]
pub enum RegionPlan {
    Skip,
    Resize { x: i32, y: i32, w: i32, h: i32 },
    Clip { left: i32, top: i32, right: i32, bottom: i32 },
}

/// The converger clips only a video child that is on target: a clip means both child
/// dimensions are within 2 px of the target, and a resize means one is not. For a credible
/// measurement (child inside a representable window, positive sizes, chrome per axis within
/// `0..=MAX_CHROME`) and a positive target, an on-target child is always clipped, and an
/// off-target one is always resized when its corner landing is representable.
pub proof fn lemma_region_clips_only_on_target(
    wr: Rect,
    cr: Rect,
    target_w: int,
    target_h: int,
    corner: Corner,
    margin: int,
    work: Rect,
)
    ensures
        ({
            let p = plan_region_spec(wr, cr, target_w, target_h, corner, margin, work);
            let cw = cr.right - cr.left;
            let ch = cr.bottom - cr.top;
            let ww = wr.right - wr.left;
            let wh = wr.bottom - wr.top;
            let ew = if cw >= target_w {
                cw - target_w
            } else {
                target_w - cw
            };
            let eh = if ch >= target_h {
                ch - target_h
            } else {
                target_h - ch
            };
            let off = ew > 2 || eh > 2;
            let credible = target_w > 0 && target_h > 0 && fits_i32(ww) && fits_i32(wh) && wr.left
                <= cr.left && wr.top <= cr.top && cr.right <= wr.right && cr.bottom <= wr.bottom
                && cw > 0 && ch > 0 && ww - cw <= MAX_CHROME && wh - ch <= MAX_CHROME;
            &&& p is Clip ==> !off
            &&& p is Resize ==> off
            &&& credible && !off ==> p is Clip
            &&& credible && off ==> (compute_corner_spec(work, target_w, target_h, corner, margin) matches Some((vx, vy))
                && fits_i32(target_w + ww - cw) && fits_i32(target_h + wh - ch)
                && fits_i32(vx - (cr.left - wr.left)) && fits_i32(vy - (cr.top - wr.top))
                ==> p is Resize)
        }),
{
}

/// Pure planning math for the minimal-look convergence: when the video child is off the
/// target size by more than 2 px, resize the window by the chrome so the video is exactly
/// `target_w x target_h` with the child landing at the corner; when it is on target, clip
/// to the child area. Any stale measurement (child outside the window, non-positive sizes,
/// chrome outside `0..=MAX_CHROME`), non-positive target or unrepresentable value skips.
pub open spec fn plan_region_spec(
    wr: Rect,
    cr: Rect,
    target_w: int,
    target_h: int,
    corner: Corner,
    margin: int,
    work: Rect,
) -> RegionPlan {
    let rel_l = cr.left - wr.left;
    let rel_t = cr.top - wr.top;
    let rel_r = wr.right - cr.right;
    let rel_b = wr.bottom - cr.bottom;
    let cw = cr.right - cr.left;
    let ch = cr.bottom - cr.top;
    let ww = wr.right - wr.left;
    let wh = wr.bottom - wr.top;
    let chrome_w = ww - cw;
    let chrome_h = wh - ch;
    if target_w <= 0 || target_h <= 0 {
        RegionPlan::Skip
    } else if !(fits_i32(rel_l) && fits_i32(rel_t) && fits_i32(rel_r) && fits_i32(rel_b)) {
        RegionPlan::Skip
    } else if rel_l < 0 || rel_t < 0 || rel_r < 0 || rel_b < 0 {
        RegionPlan::Skip
    } else if !(fits_i32(cw) && fits_i32(ch) && fits_i32(ww) && fits_i32(wh)) {
        RegionPlan::Skip
    } else if cw <= 0 || ch <= 0 || ww <= 0 || wh <= 0 {
        RegionPlan::Skip
    } else if !(0 <= chrome_w <= MAX_CHROME && 0 <= chrome_h <= MAX_CHROME) {
        RegionPlan::Skip
    } else if iabs(cw - target_w) > 2 || iabs(ch - target_h) > 2 {
        match compute_corner_spec(work, target_w, target_h, corner, margin) {
            None => RegionPlan::Skip,
            Some((vx, vy)) => {
                let w = target_w + chrome_w;
                let h = target_h + chrome_h;
                let x = vx - rel_l;
                let y = vy - rel_t;
                if fits_i32(w) && fits_i32(h) && fits_i32(x) && fits_i32(y) {
                    RegionPlan::Resize { x: x as i32, y: y as i32, w: w as i32, h: h as i32 }
                } else {
                    RegionPlan::Skip
                }
            },
        }
    } else {
        let right = rel_l + cw;
        let bottom = rel_t + ch;
        if fits_i32(right) && fits_i32(bottom) {
            RegionPlan::Clip {
                left: rel_l as i32,
                top: rel_t as i32,
                right: right as i32,
                bottom: bottom as i32,
            }
        } else {
            RegionPlan::Skip
        }
    }
}

fn fits_exec(x: i128) -> (b: bool)
    ensures
        b == fits_i32(x as int),
{
    i32::MIN as i128 <= x && x <= i32::MAX as i128
}

pub fn plan_region(
    wr: &Rect,
    cr: &Rect,
    target_w: i32,
    target_h: i32,
    corner: Corner,
    margin: i32,
    work: &Rect,
) -> (r: RegionPlan)
    ensures
        r == plan_region_spec(*wr, *cr, target_w as int, target_h as int, corner, margin as int, *work),
        // a resize lands the video child exactly on its parked corner, at the target size
        r matches RegionPlan::Resize { x, y, w, h } ==> {
            &&& compute_corner_spec(*work, target_w as int, target_h as int, corner, margin as int)
                == Some(((x + cr.left - wr.left) as i32, (y + cr.top - wr.top) as i32))
            &&& w == target_w + (wr.right - wr.left) - (cr.right - cr.left)
            &&& h == target_h + (wr.bottom - wr.top) - (cr.bottom - cr.top)
        },
        // a clip is the child rect relative to the window
        r matches RegionPlan::Clip { left, top, right, bottom } ==> {
            &&& left == cr.left - wr.left
            &&& top == cr.top - wr.top
            &&& right - left == cr.right - cr.left
            &&& bottom - top == cr.bottom - cr.top
        },
{
    if target_w <= 0 || target_h <= 0 {
        return RegionPlan::Skip;
    }
    let rel_l = cr.left as i128 - wr.left as i128;
    let rel_t = cr.top as i128 - wr.top as i128;
    let rel_r = wr.right as i128 - cr.right as i128;
    let rel_b = wr.bottom as i128 - cr.bottom as i128;
    if !(fits_exec(rel_l) && fits_exec(rel_t) && fits_exec(rel_r) && fits_exec(rel_b)) {
        return RegionPlan::Skip;
    }
    if rel_l < 0 || rel_t < 0 || rel_r < 0 || rel_b < 0 {
        return RegionPlan::Skip;
    }
    let cw = cr.right as i128 - cr.left as i128;
    let ch = cr.bottom as i128 - cr.top as i128;
    let ww = wr.right as i128 - wr.left as i128;
    let wh = wr.bottom as i128 - wr.top as i128;
    if !(fits_exec(cw) && fits_exec(ch) && fits_exec(ww) && fits_exec(wh)) {
        return RegionPlan::Skip;
    }
    if cw <= 0 || ch <= 0 || ww <= 0 || wh <= 0 {
        return RegionPlan::Skip;
    }
    let chrome_w = ww - cw;
    let chrome_h = wh - ch;
    if !(0 <= chrome_w && chrome_w <= MAX_CHROME as i128 && 0 <= chrome_h && chrome_h
        <= MAX_CHROME as i128) {
        return RegionPlan::Skip;
    }
    let dw = cw - target_w as i128;
    let dh = ch - target_h as i128;
    if dw > 2 || dw < -2 || dh > 2 || dh < -2 {
        match compute_corner(work, target_w, target_h, corner, margin) {
            None => RegionPlan::Skip,
            Some((vx, vy)) => {
                let w = target_w as i128 + chrome_w;
                let h = target_h as i128 + chrome_h;
                let x = vx as i128 - rel_l;
                let y = vy as i128 - rel_t;
                if fits_exec(w) && fits_exec(h) && fits_exec(x) && fits_exec(y) {
                    RegionPlan::Resize { x: x as i32, y: y as i32, w: w as i32, h: h as i32 }
                } else {
                    RegionPlan::Skip
                }
            },
        }
    } else {
        let right = rel_l + cw;
        let bottom = rel_t + ch;
        if fits_exec(right) && fits_exec(bottom) {
            RegionPlan::Clip {
                left: rel_l as i32,
                top: rel_t as i32,
                right: right as i32,
                bottom: bottom as i32,
            }
        } else {
            RegionPlan::Skip
        }
    }
}

} // verus!
