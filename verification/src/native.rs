//! The PiP session decisions over what Win32 reports of the VLC windows: which window is
//! the player, whether a state record is owned, how enter reshapes and exit restores, how
//! the minimal look converges, and how a closed-in-PiP VLC is healed on reopen. The Win32
//! calls themselves are made by the caller, who hands the results in.
use vstd::prelude::*;

use crate::geometry::{
    compute_corner, compute_corner_spec, fits_i32, Corner, nearest_corner, nearest_corner_spec, plan_region,
    plan_region_spec, Rect, RegionPlan, MAX_CHROME,
};
use crate::options::PipOptions;
use crate::state::{PipState, StatusInfo};
use crate::text::{
    chars_of, contains_ignore_ascii_case, contains_ignore_ascii_case_exec, eq_ignore_ascii_case,
    eq_ignore_ascii_case_range, starts_with, starts_with_exec,
};
use crate::win32::{ws_caption, ws_ex_topmost, ws_maximize, ws_thickframe};

verus! {

// ---- window styles ---------------------------------------------------------------------------

pub open spec fn caption_mask() -> isize {
    0x00C0_0000isize
}

/// Was this PiP taken from a fullscreen VLC? The saved pre-PiP style tells: the complete
/// two-bit caption mask is not present.
pub open spec fn fs_origin_spec(style: isize) -> bool {
    style & caption_mask() != caption_mask()
}

pub fn fs_origin(style: isize) -> (r: bool)
    ensures
        r == fs_origin_spec(style),
{
    let cap = ws_caption() as isize;
    style & cap != cap
}

/// The style a PiP runs with: caption, sizing border and maximize bit stripped (a zoomed
/// window keeps IsZoomed, and Aero snap would bounce the PiP back otherwise).
pub open spec fn pip_style_spec(style: isize) -> isize {
    style & !0x01C4_0000isize
}

pub fn pip_style(style: isize) -> (r: isize)
    ensures
        r == pip_style_spec(style),
{
    let (a, b, c) = (ws_caption(), ws_thickframe(), ws_maximize());
    let strip = (a | b | c) as isize;
    assert(strip == 0x01C4_0000isize) by (bit_vector)
        requires
            a == 0x00C0_0000u32,
            b == 0x0004_0000u32,
            c == 0x0100_0000u32,
            strip == (a | b | c) as isize,
    ;
    style & !strip
}

/// The style a fullscreen-origin session dissolves to: the saved style with the caption and
/// sizing border added back (Qt already left fullscreen underneath).
pub fn dissolve_style(style: isize) -> (r: isize)
    ensures
        r == style | 0x00C4_0000isize,
{
    let (a, b) = (ws_caption(), ws_thickframe());
    let add = (a | b) as isize;
    assert(add == 0x00C4_0000isize) by (bit_vector)
        requires
            a == 0x00C0_0000u32,
            b == 0x0004_0000u32,
            add == (a | b) as isize,
    ;
    style | add
}

/// Exit restores with HWND_TOPMOST exactly when the saved extended style had the user's own
/// always-on-top; else HWND_NOTOPMOST.
pub fn restore_topmost(ex_style: isize) -> (r: bool)
    ensures
        r == (ex_style & 8isize != 0),
{
    ex_style & (ws_ex_topmost() as isize) != 0
}

/// What the `status` mode reports: `caption` needs BOTH caption bits, `topmost` the
/// always-on-top extended bit; sizes are the rect's extents (wrapping as the release
/// build's i32 arithmetic does).
pub fn status_info(hwnd: isize, r: Option<Rect>, style: isize, ex_style: isize, in_pip: bool, minimal: bool) -> (s: StatusInfo)
    ensures
        ({
            let rr = match r {
                Some(x) => x,
                None => Rect { left: 0, top: 0, right: 0, bottom: 0 },
            };
            &&& s.hwnd == hwnd as i64
            &&& s.x == rr.left
            &&& s.y == rr.top
            &&& s.w == rr.right.wrapping_sub(rr.left)
            &&& s.h == rr.bottom.wrapping_sub(rr.top)
            &&& s.caption == (style & caption_mask() == caption_mask())
            &&& s.topmost == (ex_style & 8isize != 0)
            &&& s.in_pip == in_pip
            &&& s.minimal == minimal
        }),
{
    let rr = match r {
        Some(x) => x,
        None => Rect { left: 0, top: 0, right: 0, bottom: 0 },
    };
    let cap = ws_caption() as isize;
    StatusInfo {
        hwnd: hwnd as i64,
        x: rr.left,
        y: rr.top,
        w: rr.right.wrapping_sub(rr.left),
        h: rr.bottom.wrapping_sub(rr.top),
        caption: style & cap == cap,
        topmost: ex_style & (ws_ex_topmost() as isize) != 0,
        in_pip,
        minimal,
    }
}

// ---- state ownership -------------------------------------------------------------------------

/// Windows recycles HWND values: after VLC dies the saved handle can belong to another app.
/// A record is owned only when its recorded PID is nonzero and still owns the handle
/// (`owner` is the process that owns `s.hwnd` now, 0 for a destroyed window).
pub open spec fn owns_state_spec(s: PipState, owner: u32) -> bool {
    s.pid != 0 && owner == s.pid
}

pub fn owns_state(s: &PipState, owner: u32) -> (r: bool)
    ensures
        r == owns_state_spec(*s, owner),
{
    s.pid != 0 && owner == s.pid
}

/// In PiP exactly when a state record exists and is owned. Read-only: a stale record may be
/// a pending reopen-heal record.
pub open spec fn in_pip_spec(s: Option<PipState>, owner: u32) -> bool {
    match s {
        Some(st) => owns_state_spec(st, owner),
        None => false,
    }
}

pub fn in_pip(s: Option<PipState>, owner: u32) -> (r: bool)
    ensures
        r == in_pip_spec(s, owner),
{
    match s {
        Some(st) => owns_state(&st, owner),
        None => false,
    }
}

#[derive(Debug, Clone, Copy, PartialEq, Eq, Structural)]
pub enum ToggleAction {
    Exit,
    Enter,
}

/// Toggle = in PiP ? exit : enter. Menu, hotkey and request all go through here.
pub fn toggle(in_pip: bool) -> (a: ToggleAction)
    ensures
        a == (if in_pip {
            ToggleAction::Exit
        } else {
            ToggleAction::Enter
        }),
{
    if in_pip {
        ToggleAction::Exit
    } else {
        ToggleAction::Enter
    }
}

// ---- finding the player ------------------------------------------------------------------------

/// One process of a process snapshot.
pub struct ProcessEntry {
    pub pid: u32,
    pub exe: String,
}

pub open spec fn vlc_exe() -> Seq<char> {
    seq!['v', 'l', 'c', '.', 'e', 'x', 'e']
}

pub open spec fn is_vlc_entry(p: ProcessEntry) -> bool {
    eq_ignore_ascii_case(p.exe@, vlc_exe())
}

/// PIDs of the processes whose executable name is `vlc.exe` (ASCII case-insensitive), in
/// snapshot order.
pub open spec fn vlc_pid_list(ps: Seq<ProcessEntry>) -> Seq<u32>
    decreases ps.len(),
{
    if ps.len() == 0 {
        Seq::empty()
    } else if is_vlc_entry(ps[0]) {
        seq![ps[0].pid] + vlc_pid_list(ps.drop_first())
    } else {
        vlc_pid_list(ps.drop_first())
    }
}

fn vlc_exe_chars() -> (v: Vec<char>)
    ensures
        v@ == vlc_exe(),
{
    let v = vec!['v', 'l', 'c', '.', 'e', 'x', 'e'];
    assert(v@ =~= vlc_exe());
    v
}

pub fn vlc_pids(ps: &[ProcessEntry]) -> (r: Vec<u32>)
    ensures
        r@ == vlc_pid_list(ps@),
{
    let pat = vlc_exe_chars();
    let mut r: Vec<u32> = Vec::new();
    let mut i: usize = 0;
    proof {
        assert(ps@.skip(0) =~= ps@);
    }
    while i < ps.len()
        invariant
            pat@ == vlc_exe(),
            i <= ps@.len(),
            r@ + vlc_pid_list(ps@.skip(i as int)) == vlc_pid_list(ps@),
        decreases ps@.len() - i,
    {
        let e = chars_of(ps[i].exe.as_str());
        let is_vlc = eq_ignore_ascii_case_range(&e, 0, e.len(), &pat);
        proof {
            assert(e@.subrange(0, e@.len() as int) =~= e@);
            let rest = ps@.skip(i as int);
            assert(rest[0] == ps@[i as int]);
            assert(rest.drop_first() =~= ps@.skip(i + 1));
        }
        if is_vlc {
            let ghost old_r = r@;
            r.push(ps[i].pid);
            assert(old_r + (seq![ps@[i as int].pid] + vlc_pid_list(ps@.skip(i + 1))) =~= r@
                + vlc_pid_list(ps@.skip(i + 1)));
        }
        i = i + 1;
    }
    proof {
        assert(ps@.skip(ps@.len() as int) =~= Seq::<ProcessEntry>::empty());
        assert(r@ + Seq::<u32>::empty() =~= r@);
    }
    r
}

/// What window enumeration reports of one top-level window.
pub struct WindowInfo {
    pub hwnd: isize,
    pub visible: bool,
    pub pid: u32,
    pub title: String,
    pub rect: Option<Rect>,
}

pub open spec fn player_title() -> Seq<char> {
    "vlc media player"@
}

/// A candidate: visible, owned by a VLC process, with a nonempty title (VLC's hidden and
/// extension windows have none).
pub open spec fn eligible(w: WindowInfo, pids: Seq<u32>) -> bool {
    w.visible && pids.contains(w.pid) && w.title@.len() > 0
}

pub open spec fn window_area(w: WindowInfo) -> int {
    match w.rect {
        Some(r) => (r.right - r.left) * (r.bottom - r.top),
        None => 0,
    }
}

/// Scan in enumeration order: the first candidate whose title contains
/// "VLC media player" (case-insensitively) ends the scan and wins; otherwise the candidate
/// with the strictly largest area seen first.
pub open spec fn pick_player(ws: Seq<WindowInfo>, pids: Seq<u32>, biggest: isize, biggest_area: int) -> isize
    decreases ws.len(),
{
    if ws.len() == 0 {
        biggest
    } else {
        let w = ws[0];
        if !eligible(w, pids) {
            pick_player(ws.drop_first(), pids, biggest, biggest_area)
        } else if contains_ignore_ascii_case(w.title@, player_title()) {
            // the scan stops here; a zero handle falls back to the largest so far
            if w.hwnd != 0 {
                w.hwnd
            } else {
                biggest
            }
        } else if window_area(w) > biggest_area {
            pick_player(ws.drop_first(), pids, w.hwnd, window_area(w))
        } else {
            pick_player(ws.drop_first(), pids, biggest, biggest_area)
        }
    }
}

/// The VLC player window among the enumerated top-level windows, 0 for none.
pub open spec fn find_player_spec(ws: Seq<WindowInfo>, pids: Seq<u32>) -> isize {
    if pids.len() == 0 {
        0
    } else {
        pick_player(ws, pids, 0, 0)
    }
}

fn player_title_chars() -> (v: Vec<char>)
    ensures
        v@ == player_title(),
{
    chars_of("vlc media player")
}

fn contains_pid(pids: &[u32], p: u32) -> (r: bool)
    ensures
        r == pids@.contains(p),
{
    let mut i: usize = 0;
    while i < pids.len()
        invariant
            i <= pids@.len(),
            forall|k: int| 0 <= k < i ==> pids@[k] != p,
        decreases pids@.len() - i,
    {
        if pids[i] == p {
            assert(pids@[i as int] == p);
            return true;
        }
        i = i + 1;
    }
    false
}

fn window_area_exec(r: Option<Rect>) -> (a: i128)
    ensures
        a == (match r {
            Some(x) => (x.right - x.left) * (x.bottom - x.top),
            None => 0,
        }),
{
    match r {
        Some(x) => {
            let w = x.right as i128 - x.left as i128;
            let h = x.bottom as i128 - x.top as i128;
            assert(-0x1_0000_0000_0000_0000 <= w * h <= 0x1_0000_0000_0000_0000) by (nonlinear_arith)
                requires
                    -0x1_0000_0000 <= w <= 0x1_0000_0000,
                    -0x1_0000_0000 <= h <= 0x1_0000_0000,
            ;
            w * h
        },
        None => 0,
    }
}

/// The VLC player window: among visible windows of the given VLC processes with nonempty
/// titles, the first titled "... VLC media player ..." (ASCII case-insensitive), else the
/// largest; 0 when there is none.
pub fn find_player(ws: &[WindowInfo], pids: &[u32]) -> (h: isize)
    ensures
        h == find_player_spec(ws@, pids@),
{
    if pids.len() == 0 {
        return 0;
    }
    let pat = player_title_chars();
    let mut biggest: isize = 0;
    let mut biggest_area: i128 = 0;
    let mut i: usize = 0;
    proof {
        assert(ws@.skip(0) =~= ws@);
    }
    while i < ws.len()
        invariant
            pat@ == player_title(),
            pids@.len() > 0,
            i <= ws@.len(),
            pick_player(ws@.skip(i as int), pids@, biggest, biggest_area as int) == find_player_spec(
                ws@,
                pids@,
            ),
        decreases ws@.len() - i,
    {
        let w = &ws[i];
        proof {
            let rest = ws@.skip(i as int);
            assert(rest[0] == ws@[i as int]);
            assert(rest.drop_first() =~= ws@.skip(i + 1));
        }
        let t = chars_of(w.title.as_str());
        if w.visible && contains_pid(pids, w.pid) && t.len() > 0 {
            if contains_ignore_ascii_case_exec(&t, &pat) {
                return if w.hwnd != 0 {
                    w.hwnd
                } else {
                    biggest
                };
            }
            let area = window_area_exec(w.rect);
            if area > biggest_area {
                biggest = w.hwnd;
                biggest_area = area;
            }
        }
        i = i + 1;
    }
    proof {
        assert(ws@.skip(ws@.len() as int) =~= Seq::<WindowInfo>::empty());
    }
    biggest
}

pub open spec fn video_class_prefix() -> Seq<char> {
    "VLC video main"@
}

pub open spec fn controller_class_prefix() -> Seq<char> {
    "Qt5QWindowToolSaveBits"@
}

/// VLC 3.x hosts the video in a native child whose class starts with "VLC video main".
pub fn is_video_class(class: &str) -> (r: bool)
    ensures
        r == starts_with(class@, video_class_prefix()),
{
    let c = chars_of(class);
    let p = chars_of("VLC video main");
    starts_with_exec(&c, &p)
}

/// The fullscreen controller strip's window class starts with "Qt5QWindowToolSaveBits".
pub fn is_controller_class(class: &str) -> (r: bool)
    ensures
        r == starts_with(class@, controller_class_prefix()),
{
    let c = chars_of(class);
    let p = chars_of("Qt5QWindowToolSaveBits");
    starts_with_exec(&c, &p)
}

// ---- enter ---------------------------------------------------------------------------------------

/// Client-relative chrome around the video child (menu above, controller below), from the
/// child's screen rect, the client area's size and its screen origin: `(left, top, right,
/// bottom)`. `None` for a child outside the client area, an unrepresentable offset, or
/// per-axis chrome outside `0..=MAX_CHROME` (a stale measurement mid-relayout).
pub open spec fn client_chrome_spec(child: Rect, client_w: int, client_h: int, ox: int, oy: int) -> Option<(i32, i32, i32, i32)> {
    let l = child.left - ox;
    let t = child.top - oy;
    let r = (ox + client_w) - child.right;
    let b = (oy + client_h) - child.bottom;
    if fits_i32(l) && fits_i32(t) && fits_i32(ox + client_w) && fits_i32(r) && fits_i32(oy
        + client_h) && fits_i32(b) && fits_i32(l + r) && fits_i32(t + b) && l >= 0 && t >= 0 && r
        >= 0 && b >= 0 && 0 <= l + r <= MAX_CHROME && 0 <= t + b <= MAX_CHROME {
        Some((l as i32, t as i32, r as i32, b as i32))
    } else {
        None
    }
}

pub fn client_chrome(child: &Rect, client_w: i32, client_h: i32, ox: i32, oy: i32) -> (r: Option<(i32, i32, i32, i32)>)
    ensures
        r == client_chrome_spec(*child, client_w as int, client_h as int, ox as int, oy as int),
{
    let l = child.left as i64 - ox as i64;
    let t = child.top as i64 - oy as i64;
    let rx = ox as i64 + client_w as i64;
    let r = rx - child.right as i64;
    let by = oy as i64 + client_h as i64;
    let b = by - child.bottom as i64;
    let lo = i32::MIN as i64;
    let hi = i32::MAX as i64;
    if lo <= l && l <= hi && lo <= t && t <= hi && lo <= rx && rx <= hi && lo <= r && r <= hi && lo
        <= by && by <= hi && lo <= b && b <= hi && lo <= l + r && l + r <= hi && lo <= t + b && t + b
        <= hi && l >= 0 && t >= 0 && r >= 0 && b >= 0 && l + r <= MAX_CHROME as i64 && t + b
        <= MAX_CHROME as i64 {
        Some((l as i32, t as i32, r as i32, b as i32))
    } else {
        None
    }
}

/// Enter's guards before touching the window: a player was found, no owned PiP exists and
/// the box is positive.
pub open spec fn enter_allowed_spec(h: isize, previous_owned: bool, o: PipOptions) -> bool {
    h != 0 && !previous_owned && o.w > 0 && o.h > 0
}

pub fn enter_allowed(h: isize, previous_owned: bool, o: &PipOptions) -> (r: bool)
    ensures
        r == enter_allowed_spec(h, previous_owned, *o),
{
    h != 0 && !previous_owned && o.w > 0 && o.h > 0
}

/// The reshape enter performs: the record saved first (before any mutation), the style the
/// PiP runs with, the topmost placement and, with measured chrome, the clip that shows just
/// the video from the start.
#[derive(Debug, Clone, Copy, PartialEq, Eq, Structural)]
pub struct EnterPlan {
    pub state: PipState,
    pub style: isize,
    pub x: i32,
    pub y: i32,
    pub w: i32,
    pub h: i32,
    pub clip: Option<Rect>,
}

/// The landing of an enter: the video box parked at the corner; with chrome the window is
/// grown by it and offset so the child lands at the corner, and the clip is the child's
/// client-relative box. `None` when the box cannot be parked or a value is unrepresentable.
pub open spec fn enter_landing(o: PipOptions, work: Rect, chrome: Option<(i32, i32, i32, i32)>) -> Option<(i32, i32, i32, i32, Option<Rect>)> {
    match compute_corner_spec(work, o.w as int, o.h as int, o.corner, o.margin as int) {
        None => None,
        Some((vx, vy)) => match chrome {
            None => Some((vx, vy, o.w, o.h, None)),
            Some((cl, ct, cr, cb)) => {
                let x = vx - cl;
                let y = vy - ct;
                let cw = cl + cr;
                let chh = ct + cb;
                let tw = o.w + cw;
                let th = o.h + chh;
                let right = cl + o.w;
                let bottom = ct + o.h;
                if fits_i32(x) && fits_i32(y) && fits_i32(cw) && fits_i32(chh) && fits_i32(tw)
                    && fits_i32(th) && fits_i32(right) && fits_i32(bottom) {
                    Some(
                        (
                            x as i32,
                            y as i32,
                            tw as i32,
                            th as i32,
                            Some(
                                Rect {
                                    left: cl,
                                    top: ct,
                                    right: right as i32,
                                    bottom: bottom as i32,
                                },
                            ),
                        ),
                    )
                } else {
                    None
                }
            },
        },
    }
}

pub open spec fn plan_enter_spec(
    h: isize,
    o: PipOptions,
    work: Rect,
    chrome: Option<(i32, i32, i32, i32)>,
    r: Option<Rect>,
    style: isize,
    ex_style: isize,
    pid: u32,
) -> Option<EnterPlan> {
    match (enter_landing(o, work, chrome), r) {
        (Some((x, y, w, hh, clip)), Some(rr)) => {
            let rw = rr.right - rr.left;
            let rh = rr.bottom - rr.top;
            if fits_i32(rw) && fits_i32(rh) && rw > 0 && rh > 0 {
                Some(
                    EnterPlan {
                        state: PipState {
                            hwnd: h,
                            x: rr.left,
                            y: rr.top,
                            w: rw as i32,
                            h: rh as i32,
                            style,
                            ex_style,
                            target_w: o.w,
                            target_h: o.h,
                            corner: o.corner,
                            margin: o.margin,
                            min: o.min,
                            pid,
                        },
                        style: pip_style_spec(style),
                        x,
                        y,
                        w,
                        h: hh,
                        clip,
                    },
                )
            } else {
                None
            }
        },
        _ => None,
    }
}

/// Enter's plan from what the restored window reports (its rect `r`, styles and owner pid,
/// its monitor's work area, and the chrome measured when the minimal look is on). `None`
/// fails the enter cleanly: nothing is saved and nothing mutated.
pub fn plan_enter(
    h: isize,
    o: &PipOptions,
    work: &Rect,
    chrome: Option<(i32, i32, i32, i32)>,
    r: Option<Rect>,
    style: isize,
    ex_style: isize,
    pid: u32,
) -> (p: Option<EnterPlan>)
    ensures
        p == plan_enter_spec(h, *o, *work, chrome, r, style, ex_style, pid),
        // the saved record restores the window exactly and carries the options in effect
        p matches Some(pl) ==> {
            &&& pl.state.hwnd == h && pl.state.pid == pid
            &&& pl.state.style == style && pl.state.ex_style == ex_style
            &&& r matches Some(rr) && pl.state.x == rr.left && pl.state.y == rr.top
                && pl.state.x + pl.state.w == rr.right && pl.state.y + pl.state.h == rr.bottom
            &&& pl.state.target_w == o.w && pl.state.target_h == o.h
            &&& pl.state.corner == o.corner && pl.state.margin == o.margin && pl.state.min == o.min
        },
{
    let (vx, vy) = match compute_corner(work, o.w, o.h, o.corner, o.margin) {
        None => return None,
        Some(p) => p,
    };
    let (x, y, tw, th, clip) = match chrome {
        None => (vx, vy, o.w, o.h, None),
        Some((cl, ct, cr, cb)) => {
            let x = vx as i64 - cl as i64;
            let y = vy as i64 - ct as i64;
            let cw = cl as i64 + cr as i64;
            let chh = ct as i64 + cb as i64;
            let tw = o.w as i64 + cw;
            let th = o.h as i64 + chh;
            let right = cl as i64 + o.w as i64;
            let bottom = ct as i64 + o.h as i64;
            let lo = i32::MIN as i64;
            let hi = i32::MAX as i64;
            if lo <= x && x <= hi && lo <= y && y <= hi && lo <= cw && cw <= hi && lo <= chh && chh
                <= hi && lo <= tw && tw <= hi && lo <= th && th <= hi && lo <= right && right <= hi
                && lo <= bottom && bottom <= hi {
                (
                    x as i32,
                    y as i32,
                    tw as i32,
                    th as i32,
                    Some(Rect { left: cl, top: ct, right: right as i32, bottom: bottom as i32 }),
                )
            } else {
                return None;
            }
        },
    };
    let rr = match r {
        None => return None,
        Some(rr) => rr,
    };
    let rw = rr.right as i64 - rr.left as i64;
    let rh = rr.bottom as i64 - rr.top as i64;
    if !(rw <= i32::MAX as i64 && rh <= i32::MAX as i64 && rw > 0 && rh > 0) {
        return None;
    }
    Some(
        EnterPlan {
            state: PipState {
                hwnd: h,
                x: rr.left,
                y: rr.top,
                w: rw as i32,
                h: rh as i32,
                style,
                ex_style,
                target_w: o.w,
                target_h: o.h,
                corner: o.corner,
                margin: o.margin,
                min: o.min,
                pid,
            },
            style: pip_style(style),
            x,
            y,
            w: tw,
            h: th,
            clip,
        },
    )
}

/// Enter parks the video box (the window minus the measured chrome) at the corner the
/// options name, `margin` px from that corner's two work-area edges; the window is the
/// video size grown by the chrome, and with chrome the clip is exactly the video box.
pub proof fn lemma_enter_parks_video_at_corner(
    h: isize,
    o: PipOptions,
    work: Rect,
    chrome: Option<(i32, i32, i32, i32)>,
    r: Option<Rect>,
    style: isize,
    ex_style: isize,
    pid: u32,
)
    requires
        plan_enter_spec(h, o, work, chrome, r, style, ex_style, pid) is Some,
    ensures
        ({
            let pl = plan_enter_spec(h, o, work, chrome, r, style, ex_style, pid).unwrap();
            let (cl, ct, cr, cb) = match chrome {
                Some(c) => c,
                None => (0i32, 0i32, 0i32, 0i32),
            };
            let vx = pl.x + cl;
            let vy = pl.y + ct;
            &&& pl.w == o.w + cl + cr
            &&& pl.h == o.h + ct + cb
            &&& (o.corner == Corner::Tl || o.corner == Corner::Bl) ==> vx == work.left + o.margin
            &&& (o.corner == Corner::Tr || o.corner == Corner::Br) ==> vx + o.w + o.margin
                == work.right
            &&& (o.corner == Corner::Tl || o.corner == Corner::Tr) ==> vy == work.top + o.margin
            &&& (o.corner == Corner::Bl || o.corner == Corner::Br) ==> vy + o.h + o.margin
                == work.bottom
            &&& chrome is None ==> pl.clip is None
            &&& chrome is Some ==> pl.clip == Some(
                Rect { left: cl, top: ct, right: (cl + o.w) as i32, bottom: (ct + o.h) as i32 },
            )
            &&& pl.style == pip_style_spec(style)
        }),
{
}

// ---- exit / restore ------------------------------------------------------------------------------

#[derive(Debug, Clone, Copy, PartialEq, Eq, Structural)]
pub enum ExitStep {
    /// No record: not in PiP, exit fails.
    NoState,
    /// A stale record (VLC gone or handle recycled): delete it, exit fails.
    DropStale(PipState),
    /// An owned record: clear the region, restore both styles and the rect.
    Restore(PipState),
}

pub open spec fn exit_step_spec(s: Option<PipState>, owner: u32) -> ExitStep {
    match s {
        None => ExitStep::NoState,
        Some(st) => if owns_state_spec(st, owner) {
            ExitStep::Restore(st)
        } else {
            ExitStep::DropStale(st)
        },
    }
}

/// The exit decision for the loaded record and the current owner of its handle.
pub fn exit_pip(s: Option<PipState>, owner: u32) -> (e: ExitStep)
    ensures
        e == exit_step_spec(s, owner),
{
    match s {
        None => ExitStep::NoState,
        Some(st) => if owns_state(&st, owner) {
            ExitStep::Restore(st)
        } else {
            ExitStep::DropStale(st)
        },
    }
}

/// After the restoring SetWindowPos: the record is deleted when the restore landed, or
/// (when `drop_gone`) when the window no longer exists; a failed restore on a live window
/// keeps it so the next toggle retries.
pub fn restore_drop(pos_ok: bool, window_alive: bool, drop_gone: bool) -> (d: bool)
    ensures
        d == (pos_ok || (drop_gone && !window_alive)),
{
    pos_ok || (drop_gone && !window_alive)
}

#[derive(Debug, Clone, Copy, PartialEq, Eq, Structural)]
pub enum RestoreResult {
    Restored,
    Failed,
    Pending,
}

impl RestoreResult {
    /// Exit code of the installer's restore: 0 restored, 1 failed, 4 pending heal.
    pub fn code(self) -> (c: i32)
        ensures
            c == (match self {
                RestoreResult::Restored => 0i32,
                RestoreResult::Failed => 1i32,
                RestoreResult::Pending => 4i32,
            }),
    {
        match self {
            RestoreResult::Restored => 0,
            RestoreResult::Failed => 1,
            RestoreResult::Pending => 4,
        }
    }
}

#[derive(Debug, Clone, Copy, PartialEq, Eq, Structural)]
pub enum MaintenanceStep {
    /// Finished with this result, nothing to do.
    Done(RestoreResult),
    /// Restore this owned record (never deleting it for a vanished window).
    Restore(PipState),
}

/// Installer/uninstaller restore: no record fails, an unowned record is a pending heal
/// (never stale cleanup), an owned record is restored.
pub fn maintenance_restore(s: Option<PipState>, owner: u32) -> (m: MaintenanceStep)
    ensures
        m == (match s {
            None => MaintenanceStep::Done(RestoreResult::Failed),
            Some(st) => if owns_state_spec(st, owner) {
                MaintenanceStep::Restore(st)
            } else {
                MaintenanceStep::Done(RestoreResult::Pending)
            },
        }),
{
    match s {
        None => MaintenanceStep::Done(RestoreResult::Failed),
        Some(st) => if owns_state(&st, owner) {
            MaintenanceStep::Restore(st)
        } else {
            MaintenanceStep::Done(RestoreResult::Pending)
        },
    }
}

/// The result of a maintenance restore attempt: restored only when the restore landed and
/// the record was deleted.
pub fn maintenance_result(restored_and_dropped: bool) -> (r: RestoreResult)
    ensures
        r == (if restored_and_dropped {
            RestoreResult::Restored
        } else {
            RestoreResult::Failed
        }),
{
    if restored_and_dropped {
        RestoreResult::Restored
    } else {
        RestoreResult::Failed
    }
}

// ---- minimal-look convergence ----------------------------------------------------------------------

/// Cross-tick converger memory. `prev` holds last tick's (window, child) rects for the
/// stability debounce; `fs_prev` is the fullscreen-origin dissolve watch's baseline (the
/// window rect last seen WITH a live video child); `heal_tries` bounds the reopen heal;
/// `heal_wait` throttles process snapshots while VLC is absent.
#[derive(Debug, Clone, Copy)]
pub struct RegionTracker {
    pub prev: Option<(Rect, Rect)>,
    pub fs_prev: Option<Rect>,
    pub heal_tries: u32,
    pub heal_wait: u8,
}

pub open spec fn fresh_tracker() -> RegionTracker {
    RegionTracker { prev: None, fs_prev: None, heal_tries: 0, heal_wait: 0 }
}

impl Default for RegionTracker {
    fn default() -> (t: Self)
        ensures
            t == fresh_tracker(),
    {
        RegionTracker { prev: None, fs_prev: None, heal_tries: 0, heal_wait: 0 }
    }
}

impl RegionTracker {
    /// Forget the debounce measurement only (a gesture or our own resize moved the window).
    pub fn reset_debounce(&mut self)
        ensures
            final(self).prev is None,
            final(self).fs_prev == old(self).fs_prev,
            final(self).heal_tries == old(self).heal_tries,
            final(self).heal_wait == old(self).heal_wait,
    {
        self.prev = None;
    }

    /// After a terminal transition tried to delete the record: a successful deletion ends
    /// the session and resets all tracking; a failed one keeps it so the next tick retries.
    pub fn finish_state_drop(&mut self, dropped: bool) -> (r: bool)
        ensures
            r == dropped,
            dropped ==> *final(self) == fresh_tracker(),
            !dropped ==> *final(self) == *old(self),
    {
        if dropped {
            *self = RegionTracker::default();
        }
        dropped
    }
}

/// What the caller reads of an owned PiP window each tick: whether a visible video child
/// exists, the window and child rects (zero rects when unreadable), the window's region
/// box if it has one, and its monitor's work area.
#[derive(Debug, Clone, Copy, PartialEq, Eq, Structural)]
pub struct WindowView {
    pub child: bool,
    pub wr: Rect,
    pub cr: Rect,
    pub region: Option<Rect>,
    pub work: Rect,
}

#[derive(Debug, Clone, Copy, PartialEq, Eq, Structural)]
pub enum MaintainStep {
    /// Nothing to do this tick.
    Idle,
    /// The record is not owned: run the reopen heal.
    Heal(PipState),
    /// Qt left fullscreen underneath a fullscreen-origin PiP: restore the frame (caption and
    /// sizing border added to the saved style) at Qt's rect, then delete the record.
    Dissolve(PipState),
    /// Playback stopped: drop the clip so the full mini UI shows.
    ClearRegion,
    /// Resize the window (topmost, frame changed) so the child reaches the target size.
    Resize { x: i32, y: i32, w: i32, h: i32 },
    /// Clip the window to the video child.
    SetClip(Rect),
}

/// One converger tick: a missing record resets everything; an unowned one is handed to
/// the reopen heal; an owned one clears the heal counters, runs the fullscreen-origin
/// dissolve watch, and with the minimal look on converges on STABLE frames only (window
/// and child rects unchanged since the previous tick): resize to the target plus chrome,
/// or clip to the child when it is on target and the region box differs.
pub open spec fn maintain_spec(t: RegionTracker, s: Option<PipState>, owner: u32, v: WindowView) -> (RegionTracker, MaintainStep) {
    match s {
        None => (fresh_tracker(), MaintainStep::Idle),
        Some(st) => if !owns_state_spec(st, owner) {
            (RegionTracker { prev: None, ..t }, MaintainStep::Heal(st))
        } else {
            let t1 = RegionTracker { heal_tries: 0, heal_wait: 0, ..t };
            if fs_origin_spec(st.style) && !v.child && t1.fs_prev is Some && t1.fs_prev != Some(
                v.wr,
            ) {
                (t1, MaintainStep::Dissolve(st))
            } else {
                let t2 = if fs_origin_spec(st.style) {
                    if v.child {
                        RegionTracker { fs_prev: Some(v.wr), ..t1 }
                    } else {
                        t1
                    }
                } else {
                    RegionTracker { fs_prev: None, ..t1 }
                };
                if !st.min {
                    (t2, MaintainStep::Idle)
                } else if !v.child {
                    (
                        RegionTracker { prev: None, ..t2 },
                        if v.region is Some {
                            MaintainStep::ClearRegion
                        } else {
                            MaintainStep::Idle
                        },
                    )
                } else if t2.prev != Some((v.wr, v.cr)) {
                    (RegionTracker { prev: Some((v.wr, v.cr)), ..t2 }, MaintainStep::Idle)
                } else {
                    let t3 = RegionTracker { prev: Some((v.wr, v.cr)), ..t2 };
                    match plan_region_spec(
                        v.wr,
                        v.cr,
                        st.target_w as int,
                        st.target_h as int,
                        st.corner,
                        st.margin as int,
                        v.work,
                    ) {
                        RegionPlan::Skip => (t3, MaintainStep::Idle),
                        RegionPlan::Resize { x, y, w, h } => (
                            RegionTracker { prev: None, ..t3 },
                            MaintainStep::Resize { x, y, w, h },
                        ),
                        RegionPlan::Clip { left, top, right, bottom } => {
                            let c = Rect { left, top, right, bottom };
                            (t3, if v.region == Some(c) {
                                MaintainStep::Idle
                            } else {
                                MaintainStep::SetClip(c)
                            })
                        },
                    }
                }
            }
        },
    }
}

/// Converging per-tick maintenance of the minimal look (see `maintain_spec`).
pub fn maintain_region(t: &mut RegionTracker, s: Option<PipState>, owner: u32, v: &WindowView) -> (m: MaintainStep)
    ensures
        (*final(t), m) == maintain_spec(*old(t), s, owner, *v),
{
    let st = match s {
        None => {
            *t = RegionTracker::default();
            return MaintainStep::Idle;
        },
        Some(st) => st,
    };
    if !owns_state(&st, owner) {
        t.prev = None;
        return MaintainStep::Heal(st);
    }
    t.heal_tries = 0;
    t.heal_wait = 0;
    let fs = fs_origin(st.style);
    if fs {
        if v.child {
            t.fs_prev = Some(v.wr);
        } else {
            match t.fs_prev {
                Some(p) => {
                    if p != v.wr {
                        return MaintainStep::Dissolve(st);
                    }
                },
                None => {},
            }
        }
    } else {
        t.fs_prev = None;
    }
    if !st.min {
        return MaintainStep::Idle;
    }
    if !v.child {
        t.prev = None;
        return if v.region.is_some() {
            MaintainStep::ClearRegion
        } else {
            MaintainStep::Idle
        };
    }
    let stable = match t.prev {
        Some((pw, pc)) => pw == v.wr && pc == v.cr,
        None => false,
    };
    t.prev = Some((v.wr, v.cr));
    if !stable {
        return MaintainStep::Idle;
    }
    match plan_region(&v.wr, &v.cr, st.target_w, st.target_h, st.corner, st.margin, &v.work) {
        RegionPlan::Skip => MaintainStep::Idle,
        RegionPlan::Resize { x, y, w, h } => {
            t.prev = None;
            MaintainStep::Resize { x, y, w, h }
        },
        RegionPlan::Clip { left, top, right, bottom } => {
            let c = Rect { left, top, right, bottom };
            let same = match v.region {
                Some(b) => b == c,
                None => false,
            };
            if same {
                MaintainStep::Idle
            } else {
                MaintainStep::SetClip(c)
            }
        },
    }
}

// ---- reopen heal -----------------------------------------------------------------------------------

/// A snapshot is due when the wait counter has run out; otherwise it counts down.
pub fn heal_snapshot_due(wait: &mut u8) -> (due: bool)
    ensures
        due == (*old(wait) == 0),
        *final(wait) == (if *old(wait) == 0 {
            0
        } else {
            (*old(wait) - 1) as u8
        }),
{
    if *wait == 0 {
        true
    } else {
        *wait = *wait - 1;
        false
    }
}

/// The pre-PiP rect a heal applies; `None` when its edges are unrepresentable.
pub fn heal_target(s: &PipState) -> (r: Option<Rect>)
    ensures
        r == (if fits_i32(s.x + s.w) && fits_i32(s.y + s.h) {
            Some(
                Rect {
                    left: s.x,
                    top: s.y,
                    right: (s.x + s.w) as i32,
                    bottom: (s.y + s.h) as i32,
                },
            )
        } else {
            None::<Rect>
        }),
{
    let r = s.x as i64 + s.w as i64;
    let b = s.y as i64 + s.h as i64;
    if i32::MIN as i64 <= r && r <= i32::MAX as i64 && i32::MIN as i64 <= b && b
        <= i32::MAX as i64 {
        Some(Rect { left: s.x, top: s.y, right: r as i32, bottom: b as i32 })
    } else {
        None
    }
}

/// After a heal deleted (or failed to delete) its record: a deletion resets the heal
/// counters.
pub fn finish_heal(tries: &mut u32, wait: &mut u8, dropped: bool) -> (r: bool)
    ensures
        r == dropped,
        dropped ==> *final(tries) == 0 && *final(wait) == 0,
        !dropped ==> *final(tries) == *old(tries) && *final(wait) == *old(wait),
{
    if dropped {
        *tries = 0;
        *wait = 0;
    }
    dropped
}

/// The recorded VLC process is gone and another VLC is running.
pub fn reopen_replacement_ready(recorded_pid: u32, pids: &[u32]) -> (r: bool)
    ensures
        r == (pids@.len() > 0 && !pids@.contains(recorded_pid)),
{
    pids.len() > 0 && !contains_pid(pids, recorded_pid)
}

#[derive(Debug, Clone, Copy, PartialEq, Eq, Structural)]
pub enum HealStep {
    /// Delete the record (healed, unhealable or given up).
    Finish,
    /// Nothing this tick.
    Wait,
    /// Take a process snapshot and look for the reopened player; heal it to this rect.
    Probe(Rect),
}

/// First heal stage, before any snapshot: garbage records (non-positive size, legacy
/// `Pid=0`), fullscreen-origin records (their rect is the fullscreen one) and
/// unrepresentable rects are dropped; otherwise the snapshot throttle decides.
pub fn heal_precheck(wait: &mut u8, s: &PipState) -> (h: HealStep)
    ensures
        ({
            let target = if fits_i32(s.x + s.w) && fits_i32(s.y + s.h) {
                Some(
                    Rect {
                        left: s.x,
                        top: s.y,
                        right: (s.x + s.w) as i32,
                        bottom: (s.y + s.h) as i32,
                    },
                )
            } else {
                None::<Rect>
            };
            if s.w <= 0 || s.h <= 0 || s.pid == 0 || fs_origin_spec(s.style) || target is None {
                h == HealStep::Finish && *final(wait) == *old(wait)
            } else if *old(wait) != 0 {
                h == HealStep::Wait && *final(wait) == *old(wait) - 1
            } else {
                h == HealStep::Probe(target.unwrap()) && *final(wait) == 0
            }
        }),
{
    if s.w <= 0 || s.h <= 0 || s.pid == 0 {
        return HealStep::Finish;
    }
    if fs_origin(s.style) {
        return HealStep::Finish;
    }
    let target = match heal_target(s) {
        None => return HealStep::Finish,
        Some(t) => t,
    };
    if !heal_snapshot_due(wait) {
        return HealStep::Wait;
    }
    HealStep::Probe(target)
}

/// Second heal stage, after the process snapshot: until the recorded process is gone and
/// another VLC runs, wait 6 ticks between snapshots; once it is, check every tick.
pub fn heal_after_snapshot(wait: &mut u8, recorded_pid: u32, pids: &[u32]) -> (ready: bool)
    ensures
        ready == (pids@.len() > 0 && !pids@.contains(recorded_pid)),
        *final(wait) == (if ready {
            0u8
        } else {
            6u8
        }),
{
    if reopen_replacement_ready(recorded_pid, pids) {
        *wait = 0;
        true
    } else {
        *wait = 6;
        false
    }
}

#[derive(Debug, Clone, Copy, PartialEq, Eq, Structural)]
pub enum HealAction {
    /// Delete the record.
    Finish,
    /// Nothing this tick.
    Idle,
    /// Move the player window (no z-order change, no activation) to the pre-PiP rect.
    Apply(Rect),
}

/// Last heal stage, on the reopened player: skip while it is iconic or absent; give the
/// heal up when the target is on no monitor; done once the rect stuck; past 40 attempts
/// stop fighting the window (e.g. an elevated VLC); otherwise apply the rect again.
pub fn heal_on_player(tries: &mut u32, target: Rect, found: bool, iconic: bool, on_monitor: bool, current: Option<Rect>) -> (a: HealAction)
    ensures
        ({
            if !found || iconic {
                a == HealAction::Idle && *final(tries) == *old(tries)
            } else if !on_monitor || current == Some(target) {
                a == HealAction::Finish && *final(tries) == *old(tries)
            } else {
                let t1 = if *old(tries) < u32::MAX {
                    (*old(tries) + 1) as u32
                } else {
                    *old(tries)
                };
                &&& *final(tries) == t1
                &&& a == (if t1 > 40 {
                    HealAction::Finish
                } else {
                    HealAction::Apply(target)
                })
            }
        }),
{
    if !found || iconic {
        return HealAction::Idle;
    }
    if !on_monitor {
        return HealAction::Finish;
    }
    let same = match current {
        Some(c) => c == target,
        None => false,
    };
    if same {
        return HealAction::Finish;
    }
    if *tries < u32::MAX {
        *tries = *tries + 1;
    }
    if *tries > 40 {
        HealAction::Finish
    } else {
        HealAction::Apply(target)
    }
}

// ---- drag gesture support ---------------------------------------------------------------------------

/// The gesture surface: the minimal-look region clips painting AND hit-testing, so it is
/// the region box offset by the window origin (the window rect without a region), paired
/// with the window rect. `None` when the window rect is unreadable or the offset box is
/// unrepresentable.
pub fn gesture_rects(wr: Option<Rect>, region: Option<Rect>) -> (r: Option<(Rect, Rect)>)
    ensures
        r == (match wr {
            None => None,
            Some(w) => match region {
                None => Some((w, w)),
                Some(b) => if fits_i32(w.left + b.left) && fits_i32(w.top + b.top) && fits_i32(
                    w.left + b.right,
                ) && fits_i32(w.top + b.bottom) {
                    Some(
                        (
                            Rect {
                                left: (w.left + b.left) as i32,
                                top: (w.top + b.top) as i32,
                                right: (w.left + b.right) as i32,
                                bottom: (w.top + b.bottom) as i32,
                            },
                            w,
                        ),
                    )
                } else {
                    None
                },
            },
        }),
{
    let w = match wr {
        None => return None,
        Some(w) => w,
    };
    match region {
        None => Some((w, w)),
        Some(b) => {
            let l = w.left as i64 + b.left as i64;
            let t = w.top as i64 + b.top as i64;
            let r = w.left as i64 + b.right as i64;
            let bt = w.top as i64 + b.bottom as i64;
            let lo = i32::MIN as i64;
            let hi = i32::MAX as i64;
            if lo <= l && l <= hi && lo <= t && t <= hi && lo <= r && r <= hi && lo <= bt && bt
                <= hi {
                Some((Rect { left: l as i32, top: t as i32, right: r as i32, bottom: bt as i32 }, w))
            } else {
                None
            }
        },
    }
}

/// The resize band: 16 px at 96 DPI, scaled by the window's DPI (16 when it is unknown).
pub fn drag_band(dpi: u32) -> (b: i32)
    ensures
        b == (if dpi == 0 {
            16
        } else {
            16 * dpi / 96
        }),
{
    if dpi == 0 {
        16
    } else {
        (16 * (dpi as u64) / 96) as i32
    }
}

/// Adopt a drag result into the record: the corner becomes the work-area quadrant of the
/// final rect; a resize also adopts the new video size (final size minus the chrome
/// measured at drag start) when it is positive and representable. Works from the caller's
/// computed rect, since the final async move may not have landed yet. `None` when there is
/// no owned record (VLC died mid-drag).
pub fn finish_drag(s: Option<PipState>, owner: u32, fin: &Rect, resized: bool, chrome_w: i64, chrome_h: i64, work: &Rect) -> (r: Option<PipState>)
    ensures
        match s {
            Some(st) if owns_state_spec(st, owner) => {
                let tw = (fin.right - fin.left) - chrome_w;
                let th = (fin.bottom - fin.top) - chrome_h;
                let adopt = resized && 0 < tw <= i32::MAX && 0 < th <= i32::MAX;
                r == Some(
                    PipState {
                        corner: nearest_corner_spec(*fin, *work),
                        target_w: if adopt {
                            tw as i32
                        } else {
                            st.target_w
                        },
                        target_h: if adopt {
                            th as i32
                        } else {
                            st.target_h
                        },
                        ..st
                    },
                )
            },
            _ => r is None,
        },
{
    let mut st = match s {
        None => return None,
        Some(st) => st,
    };
    if !owns_state(&st, owner) {
        return None;
    }
    st.corner = nearest_corner(fin, work);
    if resized {
        let tw = (fin.right as i128 - fin.left as i128) - chrome_w as i128;
        let th = (fin.bottom as i128 - fin.top as i128) - chrome_h as i128;
        if 0 < tw && tw <= i32::MAX as i128 && 0 < th && th <= i32::MAX as i128 {
            st.target_w = tw as i32;
            st.target_h = th as i32;
        }
    }
    Some(st)
}

} // verus!
