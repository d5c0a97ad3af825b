//! The daemon's decisions: the hook cache, the F/Esc swallow, the double-click rate limit,
//! the drag-gesture state machine and the request words. The message pump, the hooks and
//! the Win32 calls are the caller's; it hands each event in and performs what comes back.
use vstd::prelude::*;

use crate::geometry::{
    classify_zone, classify_zone_spec, clip_box, clip_box_fits, clip_box_fits_exec, credible_vis,
    credible_vis_spec, fits_i32, iabs, plan_chrome, plan_move, plan_resize, plan_resize_spec,
    resize_clip, DragZone, Rect,
};
use crate::native::{fs_origin, fs_origin_spec, owns_state, owns_state_spec};
use crate::state::PipState;
use crate::text::chars_of;
use crate::win32::{vk_escape, vk_f};

verus! {

// ---- hook cache ---------------------------------------------------------------------------------

/// The current PiP as the hooks see it (hwnd 0 = none); `fs` = taken from fullscreen;
/// `pid` is the verified owner, never re-derived from a recyclable handle.
#[derive(Debug, Clone, Copy, PartialEq, Eq, Structural)]
pub struct Pip {
    pub hwnd: isize,
    pub fs: bool,
    pub pid: u32,
}

pub open spec fn no_pip() -> Pip {
    Pip { hwnd: 0, fs: false, pid: 0 }
}

/// The hook cache for the loaded record: armed only for an owned record (a heal record or
/// a recycled handle must never re-arm the guards on a foreign window).
pub open spec fn hook_cache_spec(s: Option<PipState>, owner: u32) -> Pip {
    match s {
        Some(st) => if owns_state_spec(st, owner) {
            Pip { hwnd: st.hwnd, fs: fs_origin_spec(st.style), pid: st.pid }
        } else {
            no_pip()
        },
        None => no_pip(),
    }
}

pub fn refresh_hook_cache(s: Option<PipState>, owner: u32) -> (p: Pip)
    ensures
        p == hook_cache_spec(s, owner),
{
    match s {
        Some(st) => if owns_state(&st, owner) {
            Pip { hwnd: st.hwnd, fs: fs_origin(st.style), pid: st.pid }
        } else {
            Pip { hwnd: 0, fs: false, pid: 0 }
        },
        None => Pip { hwnd: 0, fs: false, pid: 0 },
    }
}

// ---- keyboard ----------------------------------------------------------------------------------

/// Swallow a key-down of F (fullscreen) while the PiP is the foreground window, and of a
/// bare Esc (no Ctrl, Alt or Win held) for a fullscreen-origin PiP; everything else passes,
/// key-ups included. Like every suppression it first revalidates the cache: `owner`, the
/// process that owns the cached window now, must still be the cached process.
pub open spec fn key_swallow_spec(code: i32, key_down: bool, vk: u32, pip: Pip, foreground: isize, modifiers_up: bool, owner: u32) -> bool {
    code >= 0 && key_down && pip.hwnd != 0 && owner == pip.pid && foreground == pip.hwnd && (vk
        == 0x46 || (vk == 0x1B && pip.fs && modifiers_up))
}

pub fn key_swallow(code: i32, key_down: bool, vk: u32, pip: &Pip, foreground: isize, modifiers_up: bool, owner: u32) -> (r: bool)
    ensures
        r == key_swallow_spec(code, key_down, vk, *pip, foreground, modifiers_up, owner),
{
    code >= 0 && key_down && pip.hwnd != 0 && owner == pip.pid && foreground == pip.hwnd && (vk
        == vk_f() as u32 || (vk == vk_escape() as u32 && pip.fs && modifiers_up))
}

// ---- clicks --------------------------------------------------------------------------------------

/// The last ALLOWED button-down (time in wrapping u32 hook milliseconds) for the click
/// rate limit, and whether the matching button-up is to be swallowed.
#[derive(Debug, Clone, Copy, PartialEq, Eq, Structural)]
pub struct Click {
    pub time: u32,
    pub x: i32,
    pub y: i32,
    pub swallow_next_up: bool,
}

impl Default for Click {
    fn default() -> (c: Self)
        ensures
            c == (Click { time: 0, x: 0, y: 0, swallow_next_up: false }),
    {
        Click { time: 0, x: 0, y: 0, swallow_next_up: false }
    }
}

/// A button-down over the PiP as the mouse hook sees it, with the live double-click limits.
#[derive(Debug, Clone, Copy, PartialEq, Eq, Structural)]
pub struct Down {
    pub time: u32,
    pub x: i32,
    pub y: i32,
    pub dbl_time: u32,
    pub dbl_cx: i32,
    pub dbl_cy: i32,
}

/// Within double-click time and rect of the reference down.
pub open spec fn burst(c: Click, d: Down) -> bool {
    (if d.time >= c.time {
        d.time - c.time
    } else {
        d.time - c.time + 0x1_0000_0000
    }) <= d.dbl_time && iabs(d.x - c.x) <= d.dbl_cx && iabs(d.y - c.y) <= d.dbl_cy
}

/// The rate limit: a down within double-click time and rect of the last ALLOWED down is
/// swallowed (and its up too); any other down is allowed and becomes the new reference.
pub open spec fn down_step(c: Click, d: Down) -> (Click, bool) {
    if burst(c, d) {
        (Click { swallow_next_up: true, ..c }, true)
    } else {
        (Click { time: d.time, x: d.x, y: d.y, ..c }, false)
    }
}

fn iabs_exec(x: i64) -> (r: i64)
    requires
        x > i64::MIN,
    ensures
        r == iabs(x as int),
{
    if x < 0 {
        -x
    } else {
        x
    }
}

/// A left button-down is over the PiP when its root window is the cached PiP and that
/// window still belongs to the cached process (`owner`, its owner now); only such downs
/// are rate-limited or arm a gesture.
pub fn down_over_pip(pip: &Pip, root: isize, owner: u32) -> (r: bool)
    ensures
        r == (pip.hwnd != 0 && root == pip.hwnd && owner == pip.pid),
{
    pip.hwnd != 0 && root == pip.hwnd && owner == pip.pid
}

/// A left button-down over the PiP: `(new click record, swallow)`.
pub fn on_pip_down(c: Click, d: &Down) -> (r: (Click, bool))
    ensures
        r == down_step(c, *d),
{
    // u32 hook timestamps wrap: the elapsed time is the wrapping difference
    let elapsed: u64 = if d.time >= c.time {
        (d.time - c.time) as u64
    } else {
        d.time as u64 + 0x1_0000_0000u64 - c.time as u64
    };
    let is_burst = elapsed <= d.dbl_time as u64 && iabs_exec(d.x as i64 - c.x as i64) <= d.dbl_cx as i64
        && iabs_exec(d.y as i64 - c.y as i64) <= d.dbl_cy as i64;
    if is_burst {
        (Click { swallow_next_up: true, ..c }, true)
    } else {
        (Click { time: d.time, x: d.x, y: d.y, ..c }, false)
    }
}

pub open spec fn ref_of(c: Click) -> (u32, i32, i32) {
    (c.time, c.x, c.y)
}

/// The reference after a run of downs over the PiP.
pub open spec fn after_downs(c: Click, ds: Seq<Down>) -> Click
    decreases ds.len(),
{
    if ds.len() == 0 {
        c
    } else {
        down_step(after_downs(c, ds.drop_last()), ds.last()).0
    }
}

/// Down `k` of the run was allowed.
pub open spec fn allowed_at(c: Click, ds: Seq<Down>, k: int) -> bool {
    !down_step(after_downs(c, ds.take(k)), ds[k]).1
}

pub proof fn lemma_after_downs_step(c: Click, ds: Seq<Down>, k: int)
    requires
        0 <= k < ds.len(),
    ensures
        after_downs(c, ds.take(k + 1)) == down_step(after_downs(c, ds.take(k)), ds[k]).0,
{
    assert(ds.take(k + 1).drop_last() =~= ds.take(k));
    assert(ds.take(k + 1).last() == ds[k]);
}

/// Between two allowed downs, the swallowed ones leave the reference on the earlier one.
proof fn lemma_reference_holds(c: Click, ds: Seq<Down>, i: int, j: int)
    requires
        0 <= i < j <= ds.len(),
        allowed_at(c, ds, i),
        forall|k: int| i < k < j ==> !allowed_at(c, ds, k),
    ensures
        ref_of(after_downs(c, ds.take(j))) == (ds[i].time, ds[i].x, ds[i].y),
    decreases j - i,
{
    lemma_after_downs_step(c, ds, j - 1);
    if j - 1 > i {
        lemma_reference_holds(c, ds, i, j - 1);
        assert(!allowed_at(c, ds, j - 1));
    }
}

/// No two clicks the OS actually delivers over the PiP can pair into a double-click: of
/// two consecutive allowed downs, the later one is never within double-click time and rect
/// of the earlier one (every down inside that window is swallowed, so the reference stays
/// on the last ALLOWED down and triple clicks cannot pair clicks 1 and 3).
pub proof fn lemma_allowed_downs_never_pair(c: Click, ds: Seq<Down>, i: int, j: int)
    requires
        0 <= i < j < ds.len(),
        allowed_at(c, ds, i),
        allowed_at(c, ds, j),
        forall|k: int| i < k < j ==> !allowed_at(c, ds, k),
    ensures
        !burst(
            Click { time: ds[i].time, x: ds[i].x, y: ds[i].y, swallow_next_up: false },
            ds[j],
        ),
{
    lemma_reference_holds(c, ds, i, j);
}

/// A button-up: a swallowed down's up is swallowed too, keeping the input stream paired.
pub fn on_up_click(c: Click) -> (r: (Click, bool))
    ensures
        r == (if c.swallow_next_up {
            (Click { swallow_next_up: false, ..c }, true)
        } else {
            (c, false)
        }),
{
    if c.swallow_next_up {
        (Click { swallow_next_up: false, ..c }, true)
    } else {
        (c, false)
    }
}

// ---- drag gestures --------------------------------------------------------------------------------

#[derive(Debug, Clone, Copy, PartialEq, Eq, Structural)]
pub enum DragState {
    Idle,
    Armed,
    Moving,
    Resizing,
}

impl DragState {
    /// A gesture that owns the window (past the arm threshold, button still down).
    pub fn active(self) -> (r: bool)
        ensures
            r == (self == DragState::Moving || self == DragState::Resizing),
    {
        match self {
            DragState::Moving | DragState::Resizing => true,
            _ => false,
        }
    }
}

/// A gesture in progress. The pump validates `generation` against each message, so a
/// reset or rapid re-arm can never apply a stale delta.
#[derive(Debug, Clone, Copy)]
pub struct Drag {
    pub state: DragState,
    pub zone: DragZone,
    pub generation: u32,
    pub hwnd: isize,
    pub origin: (i32, i32),
    pub start: Rect,
    pub vis: Rect,
    pub had_rgn: bool,
    pub latest: (i32, i32),
    pub move_pending: bool,
}

pub open spec fn zero_rect() -> Rect {
    Rect { left: 0, top: 0, right: 0, bottom: 0 }
}

pub open spec fn idle_drag(generation: u32) -> Drag {
    Drag {
        state: DragState::Idle,
        zone: (0, 0),
        generation,
        hwnd: 0,
        origin: (0, 0),
        start: zero_rect(),
        vis: zero_rect(),
        had_rgn: false,
        latest: (0, 0),
        move_pending: false,
    }
}

impl Default for Drag {
    fn default() -> (d: Self)
        ensures
            d == idle_drag(0),
    {
        Drag {
            state: DragState::Idle,
            zone: (0, 0),
            generation: 0,
            hwnd: 0,
            origin: (0, 0),
            start: Rect { left: 0, top: 0, right: 0, bottom: 0 },
            vis: Rect { left: 0, top: 0, right: 0, bottom: 0 },
            had_rgn: false,
            latest: (0, 0),
            move_pending: false,
        }
    }
}

pub open spec fn next_gen(g: u32) -> u32 {
    if g == u32::MAX {
        0
    } else {
        (g + 1) as u32
    }
}

/// An allowed down over the PiP arms a potential drag under a new generation: the zone of
/// the press in the visible box decides move (interior) or resize (band). Without the
/// gesture rects (the window vanished under the click) the drag stays idle.
pub open spec fn arm_spec(generation: u32, h: isize, x: i32, y: i32, rects: Option<(Rect, Rect)>, band: i32) -> Drag {
    match rects {
        None => idle_drag(next_gen(generation)),
        Some((vis, wr)) => Drag {
            state: DragState::Armed,
            zone: classify_zone_spec(x as int, y as int, vis, band as int),
            generation: next_gen(generation),
            hwnd: h,
            origin: (x, y),
            start: wr,
            vis,
            had_rgn: vis != wr,
            latest: (0, 0),
            move_pending: false,
        },
    }
}

pub fn arm_drag(generation: u32, h: isize, x: i32, y: i32, rects: Option<(Rect, Rect)>, band: i32) -> (d: Drag)
    ensures
        d == arm_spec(generation, h, x, y, rects, band),
{
    let g = if generation == u32::MAX {
        0
    } else {
        generation + 1
    };
    let mut d = Drag { generation: g, ..Drag::default() };
    match rects {
        None => {},
        Some((vis, wr)) => {
            d.zone = classify_zone(x, y, &vis, band);
            d.vis = vis;
            d.had_rgn = vis != wr;
            d.start = wr;
            d.origin = (x, y);
            d.hwnd = h;
            d.state = DragState::Armed;
        },
    }
    d
}

/// A posted drag message: the gesture kind and its generation.
pub type DragPost = Option<(DragState, u32)>;

/// Mouse move: an armed drag activates past the system drag threshold (move for the
/// interior zone, resize for a band); an active drag records the cursor and posts one
/// coalesced message until the pump consumes it.
pub open spec fn move_spec(d: Drag, x: i32, y: i32, cx_drag: i32, cy_drag: i32) -> (Drag, DragPost) {
    if d.state == DragState::Idle {
        (d, None)
    } else {
        let st = if d.state == DragState::Armed && (iabs(x - d.origin.0) > cx_drag || iabs(
            y - d.origin.1,
        ) > cy_drag) {
            if d.zone == (0i32, 0i32) {
                DragState::Moving
            } else {
                DragState::Resizing
            }
        } else {
            d.state
        };
        if st == DragState::Moving || st == DragState::Resizing {
            if !d.move_pending {
                (Drag { state: st, latest: (x, y), move_pending: true, ..d }, Some((st, d.generation)))
            } else {
                (Drag { state: st, latest: (x, y), ..d }, None)
            }
        } else {
            (Drag { state: st, ..d }, None)
        }
    }
}

pub fn on_mouse_move(d: Drag, x: i32, y: i32, cx_drag: i32, cy_drag: i32) -> (r: (Drag, DragPost))
    ensures
        r == move_spec(d, x, y, cx_drag, cy_drag),
{
    if d.state == DragState::Idle {
        return (d, None);
    }
    let mut d = d;
    if d.state == DragState::Armed && (iabs_exec(x as i64 - d.origin.0 as i64) > cx_drag as i64
        || iabs_exec(y as i64 - d.origin.1 as i64) > cy_drag as i64) {
        d.state = if d.zone.0 == 0 && d.zone.1 == 0 {
            DragState::Moving
        } else {
            DragState::Resizing
        };
    }
    if d.state.active() {
        d.latest = (x, y);
        if !d.move_pending {
            d.move_pending = true;
            return (d, Some((d.state, d.generation)));
        }
    }
    (d, None)
}

/// An armed press starts its gesture as soon as the pointer has left the drag threshold on
/// EITHER axis (more than `cx_drag` px across or `cy_drag` px down/up): the interior zone
/// moves, a band resizes; the drag then records the pointer and posts one message unless
/// one is already pending. Inside the threshold on both axes nothing changes. An active
/// gesture keeps its kind and tracks the pointer; an idle one ignores the pointer.
pub proof fn lemma_drag_starts_past_threshold(d: Drag, x: i32, y: i32, cx_drag: i32, cy_drag: i32)
    ensures
        ({
            let (d2, post) = move_spec(d, x, y, cx_drag, cy_drag);
            let ax = if x >= d.origin.0 {
                x - d.origin.0
            } else {
                d.origin.0 - x
            };
            let ay = if y >= d.origin.1 {
                y - d.origin.1
            } else {
                d.origin.1 - y
            };
            let past = ax > cx_drag || ay > cy_drag;
            let kind = if d.zone.0 == 0 && d.zone.1 == 0 {
                DragState::Moving
            } else {
                DragState::Resizing
            };
            &&& d.state == DragState::Armed && past ==> {
                &&& d2 == (Drag { state: kind, latest: (x, y), move_pending: true, ..d })
                &&& post == (if d.move_pending {
                    None
                } else {
                    Some((kind, d.generation))
                })
            }
            &&& d.state == DragState::Armed && !past ==> d2 == d && post is None
            &&& (d.state == DragState::Moving || d.state == DragState::Resizing) ==> {
                &&& d2 == (Drag { latest: (x, y), move_pending: true, ..d })
                &&& post == (if d.move_pending {
                    None
                } else {
                    Some((d.state, d.generation))
                })
            }
            &&& d.state == DragState::Idle ==> d2 == d && post is None
        }),
{
}

/// Button up: the drag goes idle and, if it was active, posts its end message.
pub fn on_up_drag(d: Drag) -> (r: (Drag, DragPost))
    ensures
        r == ((
            Drag { state: DragState::Idle, ..d },
            if d.state == DragState::Moving || d.state == DragState::Resizing {
                Some((d.state, d.generation))
            } else {
                None
            },
        )),
{
    let st = d.state;
    let d2 = Drag { state: DragState::Idle, ..d };
    if st.active() {
        (d2, Some((st, d.generation)))
    } else {
        (d2, None)
    }
}

/// When a session ends (hooks removed): a gesture must not outlive its hooks, and the
/// click record keeps its last allowed down so clicks cannot pair across sessions.
pub fn end_session(c: Click) -> (r: (Drag, Click))
    ensures
        r == (idle_drag(0), Click { swallow_next_up: false, ..c }),
{
    (Drag::default(), Click { swallow_next_up: false, ..c })
}

/// What the pump does with a drag message.
#[derive(Debug, Clone, Copy)]
pub struct DragApply {
    /// The window to move or resize.
    pub hwnd: isize,
    /// The computed target rect.
    pub target: Rect,
    pub resizing: bool,
    /// For a resize of a clipped window: the clip to apply first (`None` clears the region
    /// so the whole window shows). Unused for a move.
    pub clip: Option<Rect>,
    /// On the end message: finalize from the computed rect with this start chrome.
    pub finish: Option<(i64, i64)>,
}

/// A drag message for the current drag: stale generations and foreign windows are
/// dropped, and so is a message for a window that no longer belongs to the cached process
/// (`owner` is its owner now). The pointer delta is taken in full width; a move target that does not fit the
/// i32 rect range is dropped; a resize is planned against the visible box with the live
/// clip carrying the start chrome (none if the target shrank below it or its box does not
/// fit). A visible box whose implied chrome is not credible (a stale region mid-relayout)
/// counts as no region: no clip, and the release finalizes with no chrome.
pub open spec fn drag_msg_spec(d: Drag, pip: Pip, owner: u32, lparam: isize, resizing: bool, end: bool, work: Rect) -> Option<DragApply> {
    if d.hwnd != pip.hwnd || owner != pip.pid || lparam != d.generation as isize {
        None
    } else {
        let dx = d.latest.0 - d.origin.0;
        let dy = d.latest.1 - d.origin.1;
        let target = if resizing {
            Some(plan_resize_spec(d.start, d.vis, d.zone, dx, dy, work))
        } else {
            let l = d.start.left + dx;
            let t = d.start.top + dy;
            let r = d.start.right + dx;
            let b = d.start.bottom + dy;
            if fits_i32(l) && fits_i32(t) && fits_i32(r) && fits_i32(b) {
                Some(Rect { left: l as i32, top: t as i32, right: r as i32, bottom: b as i32 })
            } else {
                None
            }
        };
        match target {
            None => None,
            Some(tg) => {
                let (cl, ct, cr, cb) = clip_box(d.start, d.vis, tg);
                let clip = if resizing && d.had_rgn && credible_vis_spec(d.start, d.vis)
                    && clip_box_fits(d.start, d.vis, tg) && cr > cl && cb > ct {
                    Some(Rect { left: cl as i32, top: ct as i32, right: cr as i32, bottom: cb as i32 })
                } else {
                    None
                };
                Some(
                    DragApply {
                        hwnd: d.hwnd,
                        target: tg,
                        resizing,
                        clip,
                        finish: if end {
                            let (cw, ch) = plan_chrome(d.start, d.vis);
                            Some((cw as i64, ch as i64))
                        } else {
                            None
                        },
                    },
                )
            },
        }
    }
}

/// A drag message (`resizing` and `lparam` as posted, `end` for the release message): the
/// pending flag is cleared first, then the step to apply, if any.
pub fn on_drag_msg(d: &mut Drag, pip: &Pip, owner: u32, lparam: isize, resizing: bool, end: bool, work: &Rect) -> (r: Option<DragApply>)
    ensures
        *final(d) == (Drag { move_pending: false, ..*old(d) }),
        r == drag_msg_spec(*old(d), *pip, owner, lparam, resizing, end, *work),
{
    d.move_pending = false;
    let dd = *d;
    if dd.hwnd != pip.hwnd || owner != pip.pid || lparam != dd.generation as isize {
        return None;
    }
    let dx = dd.latest.0 as i64 - dd.origin.0 as i64;
    let dy = dd.latest.1 as i64 - dd.origin.1 as i64;
    let target = if resizing {
        plan_resize(&dd.start, &dd.vis, dd.zone, dx, dy, work)
    } else {
        match plan_move(&dd.start, dx, dy) {
            Some(t) => t,
            None => return None,
        }
    };
    let credible = credible_vis(&dd.start, &dd.vis);
    let clip = if resizing && dd.had_rgn && credible && clip_box_fits_exec(
        &dd.start,
        &dd.vis,
        &target,
    ) {
        resize_clip(&dd.start, &dd.vis, &target)
    } else {
        None
    };
    let finish = if !end {
        None
    } else if credible {
        Some(
            (
                (dd.start.right as i64 - dd.start.left as i64) - (dd.vis.right as i64
                    - dd.vis.left as i64),
                (dd.start.bottom as i64 - dd.start.top as i64) - (dd.vis.bottom as i64
                    - dd.vis.top as i64),
            ),
        )
    } else {
        Some((0i64, 0i64))
    };
    Some(DragApply { hwnd: dd.hwnd, target, resizing, clip, finish })
}

// ---- requests --------------------------------------------------------------------------------------

#[derive(Debug, Clone, Copy, PartialEq, Eq, Structural)]
pub enum RequestAction {
    Toggle,
    Enter,
    Exit,
    Stop,
    Nothing,
}

/// The request words (case-sensitive): `toggle`, `enter` and `exit` act, `stop` ends the
/// daemon; anything else is ignored.
pub open spec fn request_action_spec(cmd: Option<Seq<char>>) -> RequestAction {
    match cmd {
        Some(c) => if c == "toggle"@ {
            RequestAction::Toggle
        } else if c == "enter"@ {
            RequestAction::Enter
        } else if c == "exit"@ {
            RequestAction::Exit
        } else if c == "stop"@ {
            RequestAction::Stop
        } else {
            RequestAction::Nothing
        },
        None => RequestAction::Nothing,
    }
}

fn same_chars(a: &Vec<char>, b: &Vec<char>) -> (r: bool)
    ensures
        r == (a@ == b@),
{
    if a.len() != b.len() {
        return false;
    }
    let mut i: usize = 0;
    while i < a.len()
        invariant
            a@.len() == b@.len(),
            i <= a@.len(),
            forall|k: int| 0 <= k < i ==> a@[k] == b@[k],
        decreases a@.len() - i,
    {
        if a[i] != b[i] {
            return false;
        }
        i = i + 1;
    }
    assert(a@ =~= b@);
    true
}

pub fn request_action(cmd: Option<&str>) -> (a: RequestAction)
    ensures
        a == request_action_spec(
            match cmd {
                Some(c) => Some(c@),
                None => None,
            },
        ),
{
    let c = match cmd {
        None => return RequestAction::Nothing,
        Some(c) => chars_of(c),
    };
    if same_chars(&c, &chars_of("toggle")) {
        RequestAction::Toggle
    } else if same_chars(&c, &chars_of("enter")) {
        RequestAction::Enter
    } else if same_chars(&c, &chars_of("exit")) {
        RequestAction::Exit
    } else if same_chars(&c, &chars_of("stop")) {
        RequestAction::Stop
    } else {
        RequestAction::Nothing
    }
}

/// The stale-`stop` discard at daemon start: a pre-existing request is dropped only if it
/// is `stop` (a queued user toggle survives).
pub fn discard_at_start(cmd: Option<&str>) -> (r: bool)
    ensures
        r == (request_action_spec(
            match cmd {
                Some(c) => Some(c@),
                None => None,
            },
        ) == RequestAction::Stop),
{
    match request_action(cmd) {
        RequestAction::Stop => true,
        _ => false,
    }
}

// ---- pump ticks -------------------------------------------------------------------------------------

/// The heartbeat is rewritten once more than 3 s have passed since the last beat
/// (`elapsed_ns` in nanoseconds).
pub fn beat_due(elapsed_ns: u128) -> (b: bool)
    ensures
        b == (elapsed_ns > 3_000_000_000),
{
    elapsed_ns > 3_000_000_000
}

/// What bringing the hooks in line with the session takes.
#[derive(Debug, Clone, Copy, PartialEq, Eq, Structural)]
pub struct HookSync {
    pub install_keyboard: bool,
    pub install_mouse: bool,
    pub unhook_keyboard: bool,
    pub unhook_mouse: bool,
    /// The session's gesture ends (see `end_session`); each slot is then cleared only if its
    /// removal succeeded (see `slot_after`).
    pub end_session: bool,
}

/// Hooks exist only while a session is live: with a cached PiP each empty slot installs
/// (a failed install stays empty and retries next time, a live handle is never replaced);
/// without one, any installed hook is removed (a failed removal retries next time) and the
/// session ends. `keyboard` and `mouse`
/// say whether each slot holds a hook now.
pub open spec fn hook_sync_spec(pip_hwnd: isize, keyboard: bool, mouse: bool) -> HookSync {
    if pip_hwnd != 0 {
        HookSync {
            install_keyboard: !keyboard,
            install_mouse: !mouse,
            unhook_keyboard: false,
            unhook_mouse: false,
            end_session: false,
        }
    } else {
        HookSync {
            install_keyboard: false,
            install_mouse: false,
            unhook_keyboard: keyboard,
            unhook_mouse: mouse,
            end_session: keyboard || mouse,
        }
    }
}

pub fn hook_sync(pip_hwnd: isize, keyboard: bool, mouse: bool) -> (h: HookSync)
    ensures
        h == hook_sync_spec(pip_hwnd, keyboard, mouse),
{
    if pip_hwnd != 0 {
        HookSync {
            install_keyboard: !keyboard,
            install_mouse: !mouse,
            unhook_keyboard: false,
            unhook_mouse: false,
            end_session: false,
        }
    } else {
        HookSync {
            install_keyboard: false,
            install_mouse: false,
            unhook_keyboard: keyboard,
            unhook_mouse: mouse,
            end_session: keyboard || mouse,
        }
    }
}

/// Whether a hook slot holds a hook after a sync step: an install holds it when it
/// succeeded (`ok`); a removal that failed keeps the hook in the slot so the next sync
/// retries it; a slot the step leaves alone keeps what it `held`.
pub open spec fn slot_after_spec(held: bool, install: bool, unhook: bool, ok: bool) -> bool {
    if install {
        ok
    } else if unhook {
        !ok
    } else {
        held
    }
}

pub fn slot_after(held: bool, install: bool, unhook: bool, ok: bool) -> (r: bool)
    ensures
        r == slot_after_spec(held, install, unhook, ok),
{
    if install {
        ok
    } else if unhook {
        !ok
    } else {
        held
    }
}

/// Hooks follow the session: while one is live, a held hook stays and an empty slot ends
/// up empty only after a failed install (which the next sync retries); once it is over,
/// a slot keeps a hook only after a failed removal, and the next sync removes it again.
pub proof fn lemma_hooks_only_while_live(
    pip_hwnd: isize,
    keyboard: bool,
    mouse: bool,
    ok_keyboard: bool,
    ok_mouse: bool,
)
    ensures
        ({
            let h = hook_sync_spec(pip_hwnd, keyboard, mouse);
            let kb = slot_after_spec(keyboard, h.install_keyboard, h.unhook_keyboard, ok_keyboard);
            let ms = slot_after_spec(mouse, h.install_mouse, h.unhook_mouse, ok_mouse);
            &&& pip_hwnd != 0 && keyboard ==> kb
            &&& pip_hwnd != 0 && mouse ==> ms
            &&& pip_hwnd != 0 ==> (kb || !ok_keyboard) && (ms || !ok_mouse)
            &&& pip_hwnd != 0 && !kb ==> hook_sync_spec(pip_hwnd, kb, ms).install_keyboard
            &&& pip_hwnd != 0 && !ms ==> hook_sync_spec(pip_hwnd, kb, ms).install_mouse
            &&& pip_hwnd == 0 ==> (kb <==> keyboard && !ok_keyboard) && (ms <==> mouse && !ok_mouse)
            &&& pip_hwnd == 0 && kb ==> hook_sync_spec(pip_hwnd, kb, ms).unhook_keyboard
            &&& pip_hwnd == 0 && ms ==> hook_sync_spec(pip_hwnd, kb, ms).unhook_mouse
        }),
{
}

/// The rest of a timer tick once the cache and hooks are current.
#[derive(Debug, Clone, Copy, PartialEq, Eq, Structural)]
pub struct TickWork {
    /// Keep this VLC's fullscreen controller strip unrenderable (a fullscreen-origin PiP:
    /// VLC still believes it is fullscreen underneath).
    pub veil: Option<u32>,
    /// Run the minimal-look maintenance; otherwise a gesture owns the window and only the
    /// debounce is forgotten.
    pub maintain: bool,
}

pub fn tick_work(pip: &Pip, drag: DragState) -> (w: TickWork)
    ensures
        w == (TickWork {
            veil: if pip.fs {
                Some(pip.pid)
            } else {
                None
            },
            maintain: !(drag == DragState::Moving || drag == DragState::Resizing),
        }),
{
    TickWork {
        veil: if pip.fs {
            Some(pip.pid)
        } else {
            None
        },
        maintain: !drag.active(),
    }
}

// ---- restore repair ---------------------------------------------------------------------------------

/// The restore snapshot kept beside the hook cache: the owned record the cache was last
/// armed from (`owner` owns its window now), none otherwise.
pub open spec fn snapshot_spec(s: Option<PipState>, owner: u32) -> Option<PipState> {
    match s {
        Some(st) => if owns_state_spec(st, owner) {
            Some(st)
        } else {
            None
        },
        None => None,
    }
}

pub fn cache_snapshot(s: Option<PipState>, owner: u32) -> (r: Option<PipState>)
    ensures
        r == snapshot_spec(s, owner),
{
    match s {
        Some(st) => if owns_state(&st, owner) {
            Some(st)
        } else {
            None
        },
        None => None,
    }
}

/// When the cache is next refreshed: an outside exit may have raced a tick that still held
/// the old record and reshaped the restored window, so the cached snapshot is reapplied
/// (frame, styles and rect) once the state file is confirmed absent (`state_absent`),
/// provided the daemon itself did not end the session since the snapshot was taken
/// (`daemon_ended`: its own exits and terminal transitions skip the repair) and the window
/// still belongs to the recorded process (`owner` owns it now). The result is the record to
/// reapply.
pub open spec fn repair_spec(snapshot: Option<PipState>, state_absent: bool, daemon_ended: bool, owner: u32) -> Option<PipState> {
    match snapshot {
        Some(st) => if state_absent && !daemon_ended && owns_state_spec(st, owner) {
            Some(st)
        } else {
            None
        },
        None => None,
    }
}

pub fn restore_repair(snapshot: Option<PipState>, state_absent: bool, daemon_ended: bool, owner: u32) -> (r: Option<PipState>)
    ensures
        r == repair_spec(snapshot, state_absent, daemon_ended, owner),
{
    match snapshot {
        Some(st) => if state_absent && !daemon_ended && owns_state(&st, owner) {
            Some(st)
        } else {
            None
        },
        None => None,
    }
}

} // verus!
