use pip_helper::geometry::{Corner, Rect};
use pip_helper::native::{
    client_chrome, drag_band, enter_allowed, exit_pip, find_player, finish_drag, fs_origin,
    gesture_rects, heal_after_snapshot, heal_on_player, heal_precheck, heal_snapshot_due,
    heal_target, in_pip, is_controller_class, is_video_class, maintain_region,
    maintenance_restore, maintenance_result, owns_state, pip_style, plan_enter,
    reopen_replacement_ready, restore_drop, restore_topmost, status_info, toggle, vlc_pids,
    ExitStep, HealAction, HealStep, MaintainStep, MaintenanceStep, ProcessEntry, RegionTracker,
    RestoreResult, ToggleAction, WindowInfo, WindowView,
};
use pip_helper::options::parse_options;
use pip_helper::state::PipState;
use windows_sys::Win32::UI::WindowsAndMessaging::{
    WS_BORDER, WS_CAPTION, WS_EX_TOPMOST, WS_MAXIMIZE, WS_THICKFRAME, WS_VISIBLE,
};

const WORK: Rect = Rect {
    left: 0,
    top: 0,
    right: 1920,
    bottom: 1040,
};

fn rect(left: i32, top: i32, right: i32, bottom: i32) -> Rect {
    Rect {
        left,
        top,
        right,
        bottom,
    }
}

fn state() -> PipState {
    PipState {
        hwnd: 1,
        x: 100,
        y: 200,
        w: 1000,
        h: 640,
        style: 1,
        ex_style: 2,
        target_w: 480,
        target_h: 270,
        corner: Corner::Br,
        margin: 16,
        min: true,
        pid: 3,
    }
}

fn windowed(pid: u32) -> PipState {
    PipState {
        style: WS_CAPTION as isize,
        ex_style: 0,
        pid,
        ..state()
    }
}

fn view(child: bool, wr: Rect, cr: Rect, region: Option<Rect>) -> WindowView {
    WindowView {
        child,
        wr,
        cr,
        region,
        work: WORK,
    }
}

#[test]
fn fs_origin_requires_both_caption_bits_absent() {
    assert!(!fs_origin((WS_CAPTION | WS_THICKFRAME) as isize)); // ordinary windowed VLC
    assert!(fs_origin(0)); // fullscreen: caption fully absent
    // WS_CAPTION is two bits (WS_BORDER|WS_DLGFRAME): one bit alone is NOT a caption
    assert!(fs_origin(WS_BORDER as isize));
}

#[test]
fn absent_vlc_snapshot_wait_is_bounded_to_six_ticks() {
    let mut wait = 6;
    for expected in [false, false, false, false, false, false, true] {
        assert_eq!(heal_snapshot_due(&mut wait), expected);
        assert!(wait <= 6);
    }
}

#[test]
fn heal_target_rejects_unrepresentable_edges() {
    let mut s = state();
    assert_eq!(
        heal_target(&s),
        Some(Rect {
            left: 100,
            top: 200,
            right: 1100,
            bottom: 840,
        })
    );

    s.x = i32::MAX;
    assert_eq!(heal_target(&s), None);
    s.x = 100;
    s.y = i32::MAX;
    assert_eq!(heal_target(&s), None);
}

#[test]
fn reopen_heal_waits_for_the_recorded_process_to_exit() {
    assert!(!reopen_replacement_ready(42, &[]));
    assert!(!reopen_replacement_ready(42, &[42]));
    assert!(!reopen_replacement_ready(42, &[7, 42]));
    assert!(reopen_replacement_ready(42, &[7]));
}

#[test]
fn maintenance_restore_has_distinct_terminal_codes() {
    assert_eq!(RestoreResult::Restored.code(), 0);
    assert_eq!(RestoreResult::Failed.code(), 1);
    assert_eq!(RestoreResult::Pending.code(), 4);
}

#[test]
fn reset_debounce_preserves_dissolve_and_heal_tracking() {
    let previous = rect(1, 2, 3, 4);
    let baseline = rect(5, 6, 7, 8);
    let mut tracker = RegionTracker {
        prev: Some((previous, previous)),
        fs_prev: Some(baseline),
        heal_tries: 9,
        heal_wait: 6,
    };

    tracker.reset_debounce();

    assert_eq!(tracker.prev, None);
    assert_eq!(tracker.fs_prev, Some(baseline));
    assert_eq!(tracker.heal_tries, 9);
    assert_eq!(tracker.heal_wait, 6);
}

#[test]
fn absent_state_resets_all_session_tracking() {
    let previous = rect(1, 2, 3, 4);
    let baseline = rect(5, 6, 7, 8);
    let mut tracker = RegionTracker {
        prev: Some((previous, previous)),
        fs_prev: Some(baseline),
        heal_tries: 9,
        heal_wait: 6,
    };

    assert_eq!(
        maintain_region(&mut tracker, None, 0, &view(false, previous, previous, None)),
        MaintainStep::Idle
    );

    assert_eq!(tracker.prev, None);
    assert_eq!(tracker.fs_prev, None);
    assert_eq!(tracker.heal_tries, 0);
    assert_eq!(tracker.heal_wait, 0);
}

#[test]
fn failed_state_drop_preserves_dissolve_baseline() {
    let baseline = rect(1, 2, 3, 4);
    let mut tracker = RegionTracker {
        fs_prev: Some(baseline),
        ..RegionTracker::default()
    };
    assert!(!tracker.finish_state_drop(false));
    assert_eq!(tracker.fs_prev, Some(baseline));
    assert!(tracker.finish_state_drop(true));
    assert_eq!(tracker.fs_prev, None);
}

#[test]
fn ownership_needs_the_recorded_nonzero_pid() {
    let s = state();
    assert!(owns_state(&s, 3));
    assert!(!owns_state(&s, 4)); // handle recycled by another process
    assert!(!owns_state(&s, 0)); // window destroyed
    assert!(!owns_state(&PipState { pid: 0, ..s }, 0)); // legacy record: always stale
    assert!(in_pip(Some(s), 3));
    assert!(!in_pip(Some(s), 0));
    assert!(!in_pip(None, 3));
}

#[test]
fn toggle_exits_in_pip_and_enters_otherwise() {
    assert_eq!(toggle(in_pip(Some(state()), 3)), ToggleAction::Exit);
    assert_eq!(toggle(in_pip(Some(state()), 9)), ToggleAction::Enter);
    assert_eq!(toggle(in_pip(None, 3)), ToggleAction::Enter);
}

#[test]
fn exit_restores_owned_drops_stale_and_fails_without_state() {
    let s = state();
    assert_eq!(exit_pip(None, 3), ExitStep::NoState);
    assert_eq!(exit_pip(Some(s), 7), ExitStep::DropStale(s));
    assert_eq!(exit_pip(Some(s), 3), ExitStep::Restore(s));
    // a failed restore on a live window keeps the record; a vanished window drops it
    assert!(restore_drop(true, true, true));
    assert!(!restore_drop(false, true, true));
    assert!(restore_drop(false, false, true));
    assert!(!restore_drop(false, false, false));
}

#[test]
fn maintenance_restore_never_cleans_up_a_pending_heal() {
    let s = state();
    assert_eq!(maintenance_restore(None, 3), MaintenanceStep::Done(RestoreResult::Failed));
    assert_eq!(maintenance_restore(Some(s), 9), MaintenanceStep::Done(RestoreResult::Pending));
    assert_eq!(maintenance_restore(Some(s), 3), MaintenanceStep::Restore(s));
    assert_eq!(maintenance_result(true), RestoreResult::Restored);
    assert_eq!(maintenance_result(false).code(), 1);
}

#[test]
fn restore_honors_the_users_own_always_on_top() {
    assert!(restore_topmost(WS_EX_TOPMOST as isize | 0x100));
    assert!(!restore_topmost(0x100));
}

#[test]
fn pip_style_strips_caption_frame_and_maximize_only() {
    let style = (WS_CAPTION | WS_THICKFRAME | WS_MAXIMIZE | WS_VISIBLE) as isize;
    assert_eq!(pip_style(style), WS_VISIBLE as isize);
    assert_eq!(pip_style(349110272), 349110272 & !0x01C4_0000);
}

#[test]
fn status_reports_both_caption_bits_and_topmost() {
    let r = Some(rect(1424, 754, 1904, 1024));
    let s = status_info(66112, r, WS_CAPTION as isize, WS_EX_TOPMOST as isize, true, false);
    assert_eq!((s.hwnd, s.x, s.y, s.w, s.h), (66112, 1424, 754, 480, 270));
    assert!(s.caption && s.topmost && s.in_pip && !s.minimal);
    let s = status_info(5, None, WS_BORDER as isize, 0, false, true);
    assert_eq!((s.x, s.y, s.w, s.h), (0, 0, 0, 0));
    assert!(!s.caption && !s.topmost && s.minimal);
}

#[test]
fn vlc_processes_match_exe_name_case_insensitively() {
    let procs = [
        ProcessEntry { pid: 4, exe: "System".to_string() },
        ProcessEntry { pid: 10, exe: "vlc.exe".to_string() },
        ProcessEntry { pid: 11, exe: "VLC.EXE".to_string() },
        ProcessEntry { pid: 12, exe: "vlc.exe.bak".to_string() },
        ProcessEntry { pid: 13, exe: "Vlc.Exe".to_string() },
    ];
    assert_eq!(vlc_pids(&procs), vec![10, 11, 13]);
}

fn win(hwnd: isize, visible: bool, pid: u32, title: &str, r: Rect) -> WindowInfo {
    WindowInfo {
        hwnd,
        visible,
        pid,
        title: title.to_string(),
        rect: Some(r),
    }
}

#[test]
fn player_is_first_titled_window_else_biggest() {
    let ws = [
        win(1, true, 99, "Foo - VLC media player", rect(0, 0, 800, 600)), // not VLC's process
        win(2, false, 10, "bar - VLC media player", rect(0, 0, 800, 600)), // invisible
        win(3, true, 10, "", rect(0, 0, 1900, 1000)),                     // untitled
        win(4, true, 10, "Playlist", rect(0, 0, 300, 300)),
        win(5, true, 10, "Big dialog", rect(0, 0, 900, 900)),
        win(6, true, 10, "movie.mkv - vlc MEDIA player", rect(0, 0, 10, 10)),
        win(7, true, 10, "other - VLC media player", rect(0, 0, 800, 600)),
    ];
    assert_eq!(find_player(&ws, &[10]), 6);
    assert_eq!(find_player(&ws[..6 - 1], &[10]), 5); // no titled one: the biggest
    assert_eq!(find_player(&ws, &[]), 0); // no VLC running
    assert_eq!(find_player(&ws[..3], &[10]), 0);
}

#[test]
fn window_classes_are_matched_by_prefix() {
    assert!(is_video_class("VLC video main"));
    assert!(is_video_class("VLC video main 123"));
    assert!(!is_video_class("VLC video"));
    assert!(!is_video_class("vlc video main"));
    assert!(is_controller_class("Qt5QWindowToolSaveBits"));
    assert!(!is_controller_class("Qt5QWindowIcon"));
}

#[test]
fn client_chrome_measures_menu_and_controller_bands() {
    // client area at screen (100, 100), 640x480; the child sits below a 20px menu and
    // above a 40px controller
    let child = rect(100, 120, 740, 540);
    assert_eq!(client_chrome(&child, 640, 480, 100, 100), Some((0, 20, 0, 40)));
    // a child poking out of the client area, or chrome beyond 300px, is stale
    assert_eq!(client_chrome(&rect(90, 120, 740, 540), 640, 480, 100, 100), None);
    assert_eq!(client_chrome(&rect(100, 120, 740, 200), 640, 480, 100, 100), None);
}

#[test]
fn enter_saves_restore_data_and_parks_at_the_corner() {
    let o = parse_options(&[]);
    assert!(enter_allowed(66112, false, &o));
    assert!(!enter_allowed(0, false, &o));
    assert!(!enter_allowed(66112, true, &o));
    let r = Some(rect(100, 200, 1100, 840));
    let p = plan_enter(66112, &o, &WORK, None, r, 349110272, 256, 12345).unwrap();
    assert_eq!((p.state.x, p.state.y, p.state.w, p.state.h), (100, 200, 1000, 640));
    assert_eq!((p.state.style, p.state.ex_style, p.state.pid), (349110272, 256, 12345));
    assert_eq!((p.state.target_w, p.state.target_h, p.state.corner), (480, 270, Corner::Br));
    assert_eq!((p.x, p.y, p.w, p.h, p.clip), (1424, 754, 480, 270, None));
    assert_eq!(p.style, 349110272 & !0x01C4_0000);
    // with measured chrome the window grows by it and the child lands at the corner
    let p = plan_enter(66112, &o, &WORK, Some((0, 20, 0, 40)), r, 349110272, 256, 12345).unwrap();
    assert_eq!((p.x, p.y, p.w, p.h), (1424, 734, 480, 330));
    assert_eq!(p.clip, Some(rect(0, 20, 480, 290)));
    // an unreadable or empty window rect fails the enter before anything is saved
    assert!(plan_enter(66112, &o, &WORK, None, None, 0, 0, 1).is_none());
    assert!(plan_enter(66112, &o, &WORK, None, Some(rect(5, 5, 5, 9)), 0, 0, 1).is_none());
}

#[test]
fn converger_waits_for_two_stable_ticks_then_resizes_then_clips() {
    let s = windowed(3);
    let mut t = RegionTracker::default();
    // window 420x360, child 400x225 (chrome 20x135): first tick only records
    let v = view(true, rect(100, 100, 520, 460), rect(110, 130, 510, 355), None);
    assert_eq!(maintain_region(&mut t, Some(s), 3, &v), MaintainStep::Idle);
    assert_eq!(
        maintain_region(&mut t, Some(s), 3, &v),
        MaintainStep::Resize { x: 1414, y: 724, w: 500, h: 405 }
    );
    assert_eq!(t.prev, None); // our own resize invalidates the measurement
    // after the resize settles, the child is on target: clip once, then stay idle
    let v = view(true, rect(1414, 724, 1914, 1129), rect(1424, 754, 1904, 1024), None);
    assert_eq!(maintain_region(&mut t, Some(s), 3, &v), MaintainStep::Idle);
    assert_eq!(maintain_region(&mut t, Some(s), 3, &v), MaintainStep::SetClip(rect(10, 30, 490, 300)));
    let clipped = view(true, v.wr, v.cr, Some(rect(10, 30, 490, 300)));
    assert_eq!(maintain_region(&mut t, Some(s), 3, &clipped), MaintainStep::Idle);
    // playback stopped: the clip goes so the mini UI shows
    let stopped = view(false, v.wr, v.cr, Some(rect(10, 30, 490, 300)));
    assert_eq!(maintain_region(&mut t, Some(s), 3, &stopped), MaintainStep::ClearRegion);
}

#[test]
fn converger_hands_unowned_records_to_the_heal_and_respects_min_off() {
    let s = windowed(3);
    let mut t = RegionTracker { heal_tries: 5, ..RegionTracker::default() };
    let v = view(true, rect(0, 0, 10, 10), rect(0, 0, 10, 10), None);
    assert_eq!(maintain_region(&mut t, Some(s), 0, &v), MaintainStep::Heal(s));
    assert_eq!(t.heal_tries, 5);
    let off = PipState { min: false, ..s };
    assert_eq!(maintain_region(&mut t, Some(off), 3, &v), MaintainStep::Idle);
    assert_eq!(t.heal_tries, 0);
}

#[test]
fn fullscreen_origin_session_dissolves_when_qt_relayouts() {
    let s = PipState { style: 0, ..state() };
    let mut t = RegionTracker::default();
    let small = rect(1424, 754, 1904, 1024);
    // video playing: the baseline follows the window
    assert_eq!(maintain_region(&mut t, Some(s), 3, &view(true, small, small, None)), MaintainStep::Idle);
    assert_eq!(t.fs_prev, Some(small));
    // video gone with the window unchanged: nothing yet
    assert_eq!(maintain_region(&mut t, Some(s), 3, &view(false, small, small, None)), MaintainStep::Idle);
    // video gone and Qt ballooned the window: dissolve
    let big = rect(0, 0, 1280, 720);
    assert_eq!(
        maintain_region(&mut t, Some(s), 3, &view(false, big, big, None)),
        MaintainStep::Dissolve(s)
    );
}

#[test]
fn heal_stages_drop_garbage_throttle_and_give_up() {
    let mut wait = 0;
    assert_eq!(heal_precheck(&mut wait, &PipState { pid: 0, ..windowed(3) }), HealStep::Finish);
    assert_eq!(heal_precheck(&mut wait, &PipState { style: 0, ..windowed(3) }), HealStep::Finish);
    assert_eq!(heal_precheck(&mut wait, &windowed(3)), HealStep::Probe(rect(100, 200, 1100, 840)));
    assert!(!heal_after_snapshot(&mut wait, 3, &[3]));
    assert_eq!(wait, 6);
    assert_eq!(heal_precheck(&mut wait, &windowed(3)), HealStep::Wait);
    assert_eq!(wait, 5);
    let mut ready_wait = 4;
    assert!(heal_after_snapshot(&mut ready_wait, 3, &[8]));
    assert_eq!(ready_wait, 0);

    let target = rect(100, 200, 1100, 840);
    let mut tries = 0;
    assert_eq!(heal_on_player(&mut tries, target, false, false, true, None), HealAction::Idle);
    assert_eq!(heal_on_player(&mut tries, target, true, true, true, None), HealAction::Idle);
    assert_eq!(heal_on_player(&mut tries, target, true, false, false, None), HealAction::Finish);
    assert_eq!(heal_on_player(&mut tries, target, true, false, true, Some(target)), HealAction::Finish);
    assert_eq!(heal_on_player(&mut tries, target, true, false, true, Some(rect(0, 0, 1, 1))), HealAction::Apply(target));
    assert_eq!(tries, 1);
    let mut tries = 40;
    assert_eq!(heal_on_player(&mut tries, target, true, false, true, None), HealAction::Finish);
}

#[test]
fn gesture_surface_is_the_region_box_on_screen() {
    let wr = rect(1414, 724, 1914, 1129);
    assert_eq!(gesture_rects(Some(wr), None), Some((wr, wr)));
    assert_eq!(gesture_rects(Some(wr), Some(rect(10, 30, 490, 300))), Some((rect(1424, 754, 1904, 1024), wr)));
    assert_eq!(gesture_rects(None, None), None);
    assert_eq!(drag_band(0), 16);
    assert_eq!(drag_band(96), 16);
    assert_eq!(drag_band(144), 24);
}

#[test]
fn drag_release_adopts_corner_and_size() {
    let s = windowed(3);
    // a resize to 548x432 with 20x135 chrome near the top-left: 528x297 at Tl
    let fin = rect(10, 10, 558, 442);
    let r = finish_drag(Some(s), 3, &fin, true, 20, 135, &WORK).unwrap();
    assert_eq!((r.target_w, r.target_h, r.corner), (528, 297, Corner::Tl));
    assert_eq!((r.x, r.y, r.w, r.h), (s.x, s.y, s.w, s.h));
    // a move keeps the size and only adopts the corner
    let r = finish_drag(Some(s), 3, &rect(1400, 10, 1880, 280), false, 0, 0, &WORK).unwrap();
    assert_eq!((r.target_w, r.target_h, r.corner), (480, 270, Corner::Tr));
    // VLC died mid-drag: nothing to adopt
    assert!(finish_drag(Some(s), 0, &fin, true, 20, 135, &WORK).is_none());
}
