use pip_helper::geometry::{
    adapt_box, classify_zone, compute_corner, credible_vis, nearest_corner, plan_move,
    plan_region, plan_resize, resize_clip, Corner, Rect, RegionPlan,
};

const WORK: Rect = Rect {
    left: 0,
    top: 0,
    right: 1920,
    bottom: 1040,
};

fn rc(l: i32, t: i32, r: i32, b: i32) -> Rect {
    Rect {
        left: l,
        top: t,
        right: r,
        bottom: b,
    }
}

/// A resize without a region: the visible box is the window itself.
fn resize(start: Rect, zone: (i32, i32), dx: i64, dy: i64, work: &Rect) -> Rect {
    plan_resize(&start, &start, zone, dx, dy, work)
}

// The drag zones by name, as per-axis signs.
const INTERIOR: (i32, i32) = (0, 0);
const LEFT: (i32, i32) = (-1, 0);
const RIGHT: (i32, i32) = (1, 0);
const TOP: (i32, i32) = (0, -1);
const BOTTOM: (i32, i32) = (0, 1);
const TOP_LEFT: (i32, i32) = (-1, -1);
const TOP_RIGHT: (i32, i32) = (1, -1);
const BOTTOM_LEFT: (i32, i32) = (-1, 1);
const BOTTOM_RIGHT: (i32, i32) = (1, 1);

// ---- corner parking (work area 0,0..1920x1040, 480x270, margin 16) ----

#[test]
fn compute_corner_places_window_inside_work_area() {
    for (corner, ex, ey) in [("br", 1424, 754), ("bl", 16, 754), ("tr", 1424, 16), ("tl", 16, 16)] {
        assert_eq!(
            compute_corner(&rc(0, 0, 1920, 1040), 480, 270, Corner::parse(corner), 16),
            Some((ex, ey)),
            "corner {corner}"
        );
    }
}

#[test]
fn tests_compute_corner_places_window_inside_work_area() {
    for (corner, ex, ey) in [
        (Corner::Br, 1424, 754),
        (Corner::Bl, 16, 754),
        (Corner::Tr, 1424, 16),
        (Corner::Tl, 16, 16),
    ] {
        assert_eq!(
            compute_corner(&WORK, 480, 270, corner, 16),
            Some((ex, ey)),
            "corner {corner:?}"
        );
    }
}

#[test]
fn compute_corner_unknown_corner_falls_back_to_br() {
    assert_eq!(
        compute_corner(&rc(0, 0, 1920, 1040), 480, 270, Corner::parse("zz"), 16),
        Some((1424, 754))
    );
}

#[test]
fn compute_corner_rejects_nonpositive_size() {
    assert_eq!(compute_corner(&WORK, 0, 270, Corner::Br, 16), None);
    assert_eq!(compute_corner(&WORK, 480, -1, Corner::Br, 16), None);
}

#[test]
fn compute_corner_rejects_unrepresentable_coordinate() {
    let work = rc(1, 0, 100, 100);
    assert_eq!(compute_corner(&work, 1, 1, Corner::Tl, i32::MAX), None);
}

#[test]
fn corner_parse_unknown_falls_back_to_br() {
    assert_eq!(Corner::parse("zz"), Corner::Br);
    for c in [Corner::Tl, Corner::Tr, Corner::Bl, Corner::Br] {
        assert_eq!(Corner::parse(c.as_str()), c);
    }
}

#[test]
fn corner_parse_is_exact_and_case_sensitive() {
    assert_eq!(Corner::parse("TL"), Corner::Br);
    assert_eq!(Corner::parse(" tl"), Corner::Br);
    assert_eq!(Corner::parse("tlx"), Corner::Br);
    assert_eq!(Corner::parse(""), Corner::Br);
    assert_eq!(Corner::Tr.as_str(), "tr");
}

// ---- nearest corner ----

#[test]
fn nearest_corner_quadrants() {
    let work = rc(0, 0, 1920, 1040);
    let win = |l: i32, t: i32| rc(l, t, l + 480, t + 270);
    assert_eq!(nearest_corner(&win(10, 10), &work).as_str(), "tl");
    assert_eq!(nearest_corner(&win(1400, 10), &work).as_str(), "tr");
    assert_eq!(nearest_corner(&win(10, 700), &work).as_str(), "bl");
    assert_eq!(nearest_corner(&win(1400, 700), &work).as_str(), "br");
}

#[test]
fn tests_nearest_corner_quadrants() {
    let work = rc(0, 0, 1920, 1040);
    let win = |l: i32, t: i32| rc(l, t, l + 480, t + 270);
    assert_eq!(nearest_corner(&win(10, 10), &work), Corner::Tl);
    assert_eq!(nearest_corner(&win(1400, 10), &work), Corner::Tr);
    assert_eq!(nearest_corner(&win(10, 700), &work), Corner::Bl);
    assert_eq!(nearest_corner(&win(1400, 700), &work), Corner::Br);
}

#[test]
fn nearest_corner_center_tie_is_br() {
    let work = rc(0, 0, 1000, 1000);
    let win = rc(400, 400, 600, 600);
    assert_eq!(nearest_corner(&win, &work).as_str(), "br");
}

#[test]
fn tests_nearest_corner_center_tie_is_br() {
    let work = rc(0, 0, 1000, 1000);
    let win = rc(400, 400, 600, 600);
    assert_eq!(nearest_corner(&win, &work), Corner::Br);
}

#[test]
fn nearest_corner_truncates_negative_spans_toward_zero() {
    // a degenerate window with right < left: the center is left + (-3)/2 = left - 1
    let work = rc(0, 0, 100, 100);
    assert_eq!(nearest_corner(&rc(50, 0, 47, 10), &work), Corner::Tl);
    assert_eq!(nearest_corner(&rc(51, 0, 48, 10), &work), Corner::Tr);
    assert_eq!(nearest_corner(&rc(49, 0, 52, 10), &work), Corner::Tr);
    assert_eq!(nearest_corner(&rc(48, 0, 51, 10), &work), Corner::Tl);
}

// ---- drag zones ----

#[test]
fn classify_zone_all_nine() {
    let vis = rc(100, 100, 580, 370);
    let cases = [
        (300, 200, INTERIOR),
        (105, 200, LEFT),
        (575, 200, RIGHT),
        (300, 105, TOP),
        (300, 365, BOTTOM),
        (105, 105, TOP_LEFT),
        (575, 105, TOP_RIGHT),
        (105, 365, BOTTOM_LEFT),
        (575, 365, BOTTOM_RIGHT),
    ];
    for (x, y, z) in cases {
        assert_eq!(classify_zone(x, y, &vis, 16), z, "at ({x},{y})");
    }
}

#[test]
fn tests_classify_zone_all_nine() {
    let vis = rc(100, 100, 580, 370);
    let cases = [
        (300, 200, (0, 0)),
        (105, 200, (-1, 0)),
        (575, 200, (1, 0)),
        (300, 105, (0, -1)),
        (300, 365, (0, 1)),
        (105, 105, (-1, -1)),
        (575, 105, (1, -1)),
        (105, 365, (-1, 1)),
        (575, 365, (1, 1)),
    ];
    for (x, y, z) in cases {
        assert_eq!(classify_zone(x, y, &vis, 16), z, "at ({x},{y})");
    }
}

#[test]
fn classify_zone_band_boundaries() {
    let vis = rc(0, 0, 480, 270);
    assert_eq!(classify_zone(15, 135, &vis, 16), LEFT); // x < left+band
    assert_eq!(classify_zone(16, 135, &vis, 16), INTERIOR);
    assert_eq!(classify_zone(464, 135, &vis, 16), RIGHT); // x >= right-band
    assert_eq!(classify_zone(463, 135, &vis, 16), INTERIOR);
}

#[test]
fn tests_classify_zone_band_boundaries() {
    let vis = rc(0, 0, 480, 270);
    assert_eq!(classify_zone(15, 135, &vis, 16), (-1, 0));
    assert_eq!(classify_zone(16, 135, &vis, 16), (0, 0));
    assert_eq!(classify_zone(464, 135, &vis, 16), (1, 0));
    assert_eq!(classify_zone(463, 135, &vis, 16), (0, 0));
}

#[test]
fn classify_zone_low_edge_wins_when_opposite_bands_overlap() {
    let vis = rc(100, 100, 120, 120);
    assert_eq!(classify_zone(110, 110, &vis, 16), (-1, -1));
}

// ---- resize ----

#[test]
fn resize_br_grows_anchored_tl() {
    // 480x270 at (100,100); +48/+27 is width-driven (48*270 >= 27*480): 528x297
    assert_eq!(resize(rc(100, 100, 580, 370), BOTTOM_RIGHT, 48, 27, &WORK), rc(100, 100, 628, 397));
}

#[test]
fn tests_resize_br_grows_anchored_tl() {
    assert_eq!(resize(rc(100, 100, 580, 370), (1, 1), 48, 27, &WORK), rc(100, 100, 628, 397));
}

#[test]
fn resize_tl_anchors_br() {
    // dw = -dx = 48: 528x297 anchored at (right,bottom)
    assert_eq!(resize(rc(100, 100, 580, 370), TOP_LEFT, -48, 0, &WORK), rc(52, 73, 580, 370));
}

#[test]
fn tests_resize_tl_anchors_br() {
    assert_eq!(resize(rc(100, 100, 580, 370), (-1, -1), -48, 0, &WORK), rc(52, 73, 580, 370));
}

#[test]
fn resize_right_edge_keeps_vertical_center() {
    // edge zone: dy ignored; 576x324, v-center 235 fixed
    assert_eq!(resize(rc(100, 100, 580, 370), RIGHT, 96, 500, &WORK), rc(100, 73, 676, 397));
}

#[test]
fn tests_resize_right_edge_keeps_vertical_center() {
    assert_eq!(resize(rc(100, 100, 580, 370), (1, 0), 96, 500, &WORK), rc(100, 73, 676, 397));
}

#[test]
fn resize_top_edge_keeps_horizontal_center() {
    // dh = -dy = 54 -> h-driven: 576x324, anchored bottom, h-center 340 fixed
    assert_eq!(resize(rc(100, 100, 580, 370), TOP, 500, -54, &WORK), rc(52, 46, 628, 370));
}

#[test]
fn tests_resize_top_edge_keeps_horizontal_center() {
    assert_eq!(resize(rc(100, 100, 580, 370), (0, -1), 500, -54, &WORK), rc(52, 46, 628, 370));
}

#[test]
fn resize_corner_height_driven_when_dy_dominates() {
    // 100*480 > 30*270: h = 370 -> w = 370*480/270 = 657 -> h = 657*270/480 = 369
    assert_eq!(resize(rc(0, 0, 480, 270), BOTTOM_RIGHT, 30, 100, &WORK), rc(0, 0, 657, 369));
}

#[test]
fn tests_resize_corner_height_driven_when_dy_dominates() {
    assert_eq!(resize(rc(0, 0, 480, 270), (1, 1), 30, 100, &WORK), rc(0, 0, 657, 369));
}

#[test]
fn resize_clamps_min_256() {
    assert_eq!(resize(rc(0, 0, 480, 270), BOTTOM_RIGHT, -400, -400, &WORK), rc(0, 0, 256, 144));
}

#[test]
fn tests_resize_clamps_min_256() {
    assert_eq!(resize(rc(0, 0, 480, 270), (1, 1), -400, -400, &WORK), rc(0, 0, 256, 144));
}

#[test]
fn resize_clamps_max_80pct_work() {
    // max_w = min(1536, 832*480/270 = 1479) = 1479; h = 1479*270/480 = 831
    assert_eq!(resize(rc(0, 0, 480, 270), BOTTOM_RIGHT, 5000, 0, &WORK), rc(0, 0, 1479, 831));
}

#[test]
fn tests_resize_clamps_max_80pct_work() {
    assert_eq!(resize(rc(0, 0, 480, 270), (1, 1), 5000, 0, &WORK), rc(0, 0, 1479, 831));
}

#[test]
fn resize_degenerate_start_is_noop() {
    assert_eq!(resize(rc(0, 0, 0, 270), BOTTOM_RIGHT, 50, 50, &WORK), rc(0, 0, 0, 270));
}

#[test]
fn tests_resize_degenerate_start_is_noop() {
    assert_eq!(resize(rc(0, 0, 0, 270), (1, 1), 50, 50, &WORK), rc(0, 0, 0, 270));
}

#[test]
fn resize_tiny_work_area_clamp_does_not_panic() {
    // 80% of 200 < 256: max floors to min - clamp() must not see min > max
    let tiny = rc(0, 0, 200, 200);
    assert_eq!(resize(rc(0, 0, 480, 270), BOTTOM_RIGHT, -400, 0, &tiny), rc(0, 0, 256, 144));
}

#[test]
fn tests_resize_tiny_work_area_clamp_does_not_panic() {
    let tiny = rc(0, 0, 200, 200);
    assert_eq!(resize(rc(0, 0, 480, 270), (1, 1), -400, 0, &tiny), rc(0, 0, 256, 144));
}

#[test]
fn resize_low_edge_handles_min_pointer_delta() {
    assert_eq!(
        resize(rc(0, 0, 480, 270), (-1, 0), i64::from(i32::MIN), 0, &WORK),
        rc(-999, -280, 480, 551)
    );
}

#[test]
fn resize_accepts_full_pointer_delta_width() {
    let full_delta = i64::from(i32::MAX) - i64::from(i32::MIN);
    assert_eq!(
        resize(rc(0, 0, 480, 270), (1, 0), full_delta, 0, &WORK),
        rc(0, -280, 1479, 551)
    );
}

#[test]
fn resize_high_edge_overflow_is_noop() {
    let start = rc(i32::MAX - 480, 0, i32::MAX, 270);
    assert_eq!(resize(start, (1, 0), 1000, 0, &WORK), start);
}

#[test]
fn resize_low_edge_overflow_is_noop() {
    let start = rc(i32::MIN, 0, i32::MIN + 480, 270);
    assert_eq!(resize(start, (-1, 0), -1000, 0, &WORK), start);
}

#[test]
fn resize_follows_visible_aspect_and_keeps_chrome() {
    // window 500x405 with a 480x270 visible box (chrome 20x135): a +48 width drag grows
    // the VIDEO to 528x297 and the window by the same chrome
    let start = rc(0, 0, 500, 405);
    let vis = rc(10, 30, 490, 300);
    assert_eq!(plan_resize(&start, &vis, (1, 1), 48, 0, &WORK), rc(0, 0, 548, 432));
}

#[test]
fn resize_ignores_incredible_visible_box() {
    // implied chrome of 400px is stale: plan on the outer rect alone
    let start = rc(0, 0, 880, 270);
    let vis = rc(0, 0, 480, 270);
    assert!(!credible_vis(&start, &vis));
    assert_eq!(
        plan_resize(&start, &vis, (1, 0), 0, 0, &WORK),
        resize(start, (1, 0), 0, 0, &WORK)
    );
}

// ---- move ----

#[test]
fn move_translation_preserves_normal_behavior() {
    assert_eq!(plan_move(&rc(100, 100, 580, 370), 20, -30), Some(rc(120, 70, 600, 340)));
}

#[test]
fn move_translation_rejects_unrepresentable_coordinates() {
    let start = rc(i32::MAX - 480, 0, i32::MAX, 270);
    assert_eq!(plan_move(&start, 1, 0), None);
    let full_delta = i64::from(i32::MAX) - i64::from(i32::MIN);
    assert_eq!(plan_move(&rc(0, 0, 480, 270), full_delta, 0), None);
}

// ---- media-adapted box ----

#[test]
fn adapt_box_follows_media_aspect() {
    // 4:3 media at the configured width 480: 480x360
    assert_eq!(adapt_box(480, 270, Some((640, 480)), &WORK), (480, 360));
    // no media or degenerate media keep the configured box
    assert_eq!(adapt_box(480, 270, None, &WORK), (480, 270));
    assert_eq!(adapt_box(480, 270, Some((0, 480)), &WORK), (480, 270));
}

#[test]
fn adapt_box_caps_height_at_80pct_then_floors_width() {
    // 1:4 portrait media: 480 wide would be 1920 tall; cap 832 -> 208 wide -> floor 256 -> 1024
    assert_eq!(adapt_box(480, 270, Some((100, 400)), &WORK), (256, 1024));
    // 1:2 portrait: 960 tall > 832 -> 832 tall, 416 wide
    assert_eq!(adapt_box(480, 270, Some((100, 200)), &WORK), (416, 832));
}

// ---- resize clip ----

#[test]
fn resize_clip_preserves_per_side_chrome() {
    // vis inset 10/30/10/5 in a 480x270 window; target grown to 580x370
    let clip = resize_clip(&rc(100, 100, 580, 370), &rc(110, 130, 570, 365), &rc(100, 100, 680, 470));
    assert_eq!(clip, Some(rc(10, 30, 570, 365)));
}

#[test]
fn resize_clip_target_below_chrome_is_none() {
    // 200px left chrome + 200px right chrome > 210px target width: inverted box
    let clip = resize_clip(&rc(0, 0, 480, 270), &rc(200, 100, 280, 170), &rc(0, 0, 210, 110));
    assert_eq!(clip, None);
}

// ---- region plan ----

#[test]
fn chrome_clamp_boundary_300_ok_301_stale() {
    // child at target, chrome_h exactly 300 -> clip; 301 -> stale
    let br = Corner::parse("br");
    let cr = rc(0, 0, 480, 270);
    let ok = plan_region(&rc(0, 0, 480, 570), &cr, 480, 270, br, 16, &WORK);
    assert_eq!(
        ok,
        RegionPlan::Clip {
            left: 0,
            top: 0,
            right: 480,
            bottom: 270
        }
    );
    let stale = plan_region(&rc(0, 0, 480, 571), &cr, 480, 270, br, 16, &WORK);
    assert_eq!(stale, RegionPlan::Skip);
}

#[test]
fn tests_chrome_clamp_boundary_300_ok_301_stale() {
    let cr = rc(0, 0, 480, 270);
    let ok = plan_region(&rc(0, 0, 480, 570), &cr, 480, 270, Corner::Br, 16, &WORK);
    assert_eq!(
        ok,
        RegionPlan::Clip {
            left: 0,
            top: 0,
            right: 480,
            bottom: 270
        }
    );
    let stale = plan_region(&rc(0, 0, 480, 571), &cr, 480, 270, Corner::Br, 16, &WORK);
    assert_eq!(stale, RegionPlan::Skip);
}

#[test]
fn two_px_tolerance_clips_three_resizes() {
    // 482 wide child (diff 2) counts as converged; 483 (diff 3) does not
    let br = Corner::parse("br");
    let at_2 = plan_region(&rc(0, 0, 482, 270), &rc(0, 0, 482, 270), 480, 270, br, 16, &WORK);
    assert!(matches!(at_2, RegionPlan::Clip { .. }));
    let at_3 = plan_region(&rc(0, 0, 483, 270), &rc(0, 0, 483, 270), 480, 270, br, 16, &WORK);
    assert!(matches!(at_3, RegionPlan::Resize { .. }));
}

#[test]
fn tests_two_px_tolerance_clips_three_resizes() {
    let at_2 = plan_region(&rc(0, 0, 482, 270), &rc(0, 0, 482, 270), 480, 270, Corner::Br, 16, &WORK);
    assert!(matches!(at_2, RegionPlan::Clip { .. }));
    let at_3 = plan_region(&rc(0, 0, 483, 270), &rc(0, 0, 483, 270), 480, 270, Corner::Br, 16, &WORK);
    assert!(matches!(at_3, RegionPlan::Resize { .. }));
}

#[test]
fn resize_grows_by_chrome_and_lands_child_at_corner() {
    // window 420x360 at (100,100); child 400x225 at rel (10,30) => chrome 20x135
    let plan = plan_region(
        &rc(100, 100, 520, 460),
        &rc(110, 130, 510, 355),
        480,
        270,
        Corner::parse("br"),
        16,
        &WORK,
    );
    // target 480x270 + chrome => 500x405, positioned so the CHILD hits (1424,754)
    assert_eq!(plan, RegionPlan::Resize { x: 1414, y: 724, w: 500, h: 405 });
}

#[test]
fn tests_resize_grows_by_chrome_and_lands_child_at_corner() {
    let plan = plan_region(&rc(100, 100, 520, 460), &rc(110, 130, 510, 355), 480, 270, Corner::Br, 16, &WORK);
    assert_eq!(plan, RegionPlan::Resize { x: 1414, y: 724, w: 500, h: 405 });
}

#[test]
fn clip_is_child_rect_relative_to_window() {
    let plan = plan_region(
        &rc(1424, 700, 1904, 1024),
        &rc(1424, 754, 1904, 1024),
        480,
        270,
        Corner::parse("br"),
        16,
        &WORK,
    );
    assert_eq!(plan, RegionPlan::Clip { left: 0, top: 54, right: 480, bottom: 324 });
}

#[test]
fn tests_clip_is_child_rect_relative_to_window() {
    let plan = plan_region(&rc(1424, 700, 1904, 1024), &rc(1424, 754, 1904, 1024), 480, 270, Corner::Br, 16, &WORK);
    assert_eq!(plan, RegionPlan::Clip { left: 0, top: 54, right: 480, bottom: 324 });
}

#[test]
fn negative_chrome_is_stale_measurement() {
    // child wider than its own window = mid-relayout garbage
    let plan = plan_region(&rc(0, 0, 480, 270), &rc(0, 0, 481, 270), 480, 270, Corner::parse("br"), 16, &WORK);
    assert_eq!(plan, RegionPlan::Skip);
}

#[test]
fn hostile_negative_target_skips() {
    // a hand-crafted state file with TargetW=-500 must not produce a resize
    let plan = plan_region(&rc(0, 0, 480, 300), &rc(0, 20, 480, 290), -500, 270, Corner::parse("br"), 16, &WORK);
    assert_eq!(plan, RegionPlan::Skip);
}

#[test]
fn invalid_region_inputs_skip() {
    let cases = [
        ("negative chrome", rc(0, 0, 480, 270), rc(0, 0, 481, 270), 480, 270, Corner::Br, 16, WORK),
        ("child outside window", rc(0, 0, 2, 1), rc(-1, 0, 0, 1), 1, 1, Corner::Br, 0, WORK),
        ("negative target", rc(0, 0, 480, 300), rc(0, 20, 480, 290), -500, 270, Corner::Br, 16, WORK),
        (
            "nonpositive target with positive window",
            rc(0, 0, 780, 270),
            rc(0, 0, 480, 270),
            -1,
            270,
            Corner::Br,
            16,
            WORK,
        ),
        (
            "rect difference overflow",
            rc(i32::MIN, 0, i32::MAX, 270),
            rc(0, 0, 480, 270),
            480,
            270,
            Corner::Br,
            16,
            WORK,
        ),
        (
            "target plus chrome overflow",
            rc(0, 0, 481, 270),
            rc(0, 0, 480, 270),
            i32::MAX,
            270,
            Corner::Br,
            16,
            WORK,
        ),
        (
            "coordinate offset overflow",
            rc(0, 0, 780, 270),
            rc(300, 0, 780, 270),
            476,
            270,
            Corner::Tl,
            0,
            rc(i32::MIN, 0, i32::MAX, 1040),
        ),
        ("nonpositive rect size", rc(100, 0, 99, 270), rc(100, 0, 99, 270), 480, 270, Corner::Br, 16, WORK),
    ];
    for (name, wr, cr, target_w, target_h, corner, margin, work) in cases {
        assert_eq!(
            plan_region(&wr, &cr, target_w, target_h, corner, margin, &work),
            RegionPlan::Skip,
            "{name}"
        );
    }
}
