use pip_helper::geometry::Corner;
use pip_helper::state::{
    alive_path, crash_path, parse_state, request_command, request_path,
    state_path, status_json, status_path, write_state, PipState, StatusInfo,
};

const FULL: &str = "66112 100 200 1000 640 349110272 256 480 270 br 16 1 12345\n";
// the retired JSON line format and its legacy 7-field variant
const JSON_FULL: &str = r#"{"Hwnd":66112,"X":100,"Y":200,"W":1000,"H":640,"Style":349110272,"ExStyle":256,"TargetW":480,"TargetH":270,"Corner":"br","Margin":16,"Min":true,"Pid":12345}"#;

#[test]
fn tests_full_sample_round_trips_byte_identical() {
    let s = parse_state(FULL).unwrap();
    let _: (isize, isize, isize) = (s.hwnd, s.style, s.ex_style);
    assert_eq!(s.hwnd, 66112);
    assert_eq!((s.x, s.y, s.w, s.h), (100, 200, 1000, 640));
    assert_eq!((s.style, s.ex_style), (349110272, 256));
    assert_eq!((s.target_w, s.target_h, s.margin), (480, 270, 16));
    assert_eq!(s.corner, Corner::Br);
    assert!(s.min);
    assert_eq!(s.pid, 12345);
    assert_eq!(write_state(&s), FULL);
}

#[test]
fn invalid_geometry_fields_preserve_restore_metadata() {
    let raw = "66112 100 200 1000 640 349110272 256 -2147483648 2147483647 br 2147483647 1 12345\n";
    let s = parse_state(raw).unwrap();
    assert_eq!((s.x, s.y, s.w, s.h, s.style, s.ex_style), (100, 200, 1000, 640, 349110272, 256));
    assert_eq!((s.target_w, s.target_h, s.margin), (i32::MIN, i32::MAX, i32::MAX));
    assert_eq!(write_state(&s), raw);
}

#[test]
fn native_fields_round_trip_signed_i64_wire_values() {
    let raw = "-1 100 200 1000 640 -2 -3 480 270 br 16 1 12345\n";
    let s = parse_state(raw).unwrap();
    let _: (isize, isize, isize) = (s.hwnd, s.style, s.ex_style);
    assert_eq!((s.hwnd, s.style, s.ex_style), (-1, -2, -3));
    assert_eq!(write_state(&s), raw);
}

#[test]
fn tests_corrupt_input_reads_as_none() {
    let torn_pid = &FULL[..FULL.len() - 3]; // "...123", no newline: torn write
    let short = FULL.replace(" 12345\n", "\n"); // 12 tokens
    let extra = FULL.replace("12345\n", "12345 7\n"); // 14 tokens
    let bad_num = FULL.replace("349110272", "wide");
    let bad_min = FULL.replace(" 1 12345", " yes 12345");
    for bad in ["", "not a state\n", torn_pid, &short, &extra, &bad_num, &bad_min] {
        assert!(parse_state(bad).is_none(), "should reject: {bad:?}");
    }
}

#[test]
fn corrupt_input_reads_as_none() {
    for bad in ["{", "", "not json", &format!("{JSON_FULL}x"), r#"{"Hwnd":1}"#] {
        assert!(parse_state(bad).is_none(), "should reject: {bad}");
    }
}

#[test]
fn unknown_corner_token_in_full_line_falls_back_to_br() {
    let s = parse_state(&FULL.replace(" br ", " zz ")).unwrap();
    assert_eq!(s.corner, Corner::Br);
}

#[test]
fn out_of_range_and_unsigned_fields_are_rejected() {
    // pid is unsigned: no minus sign, and u32 range only
    assert!(parse_state(&FULL.replace(" 12345\n", " -1\n")).is_none());
    assert!(parse_state(&FULL.replace(" 12345\n", " 4294967296\n")).is_none());
    assert_eq!(parse_state(&FULL.replace(" 12345\n", " 4294967295\n")).unwrap().pid, u32::MAX);
    // i32 fields reject values past i32
    assert!(parse_state(&FULL.replace(" 100 200 ", " 2147483648 200 ")).is_none());
    // '+' is accepted, and any whitespace separates
    let s = parse_state("+5\t1 2 3 4 5 6 7 8 tl 9 0 10\n").unwrap();
    assert_eq!((s.hwnd, s.corner, s.min, s.pid), (5, Corner::Tl, false, 10));
    assert_eq!(write_state(&s), "5 1 2 3 4 5 6 7 8 tl 9 0 10\n");
}

#[test]
fn every_record_round_trips() {
    let s = PipState {
        hwnd: isize::MIN,
        x: i32::MIN,
        y: i32::MAX,
        w: 0,
        h: -1,
        style: isize::MAX,
        ex_style: 0,
        target_w: 1,
        target_h: -270,
        corner: Corner::Tr,
        margin: -16,
        min: false,
        pid: 0,
    };
    assert_eq!(parse_state(&write_state(&s)), Some(s));
}

#[test]
fn tests_status_json_shapes() {
    assert_eq!(status_json(None), r#"{"found":false}"#);
    let s = StatusInfo {
        hwnd: 66112,
        x: 1424,
        y: 754,
        w: 480,
        h: 270,
        caption: false,
        topmost: true,
        in_pip: true,
        minimal: true,
    };
    assert_eq!(
        status_json(Some(&s)),
        r#"{"found":true,"hwnd":66112,"x":1424,"y":754,"w":480,"h":270,"caption":false,"topmost":true,"inPip":true,"minimal":true}"#
    );
}

#[test]
fn status_json_shapes() {
    assert_eq!(status_json(None), r#"{"found":false}"#);
    let s = StatusInfo {
        hwnd: 66112,
        x: 1424,
        y: 754,
        w: 480,
        h: 270,
        caption: false,
        topmost: true,
        in_pip: true,
        minimal: true,
    };
    assert_eq!(
        status_json(Some(&s)),
        r#"{"found":true,"hwnd":66112,"x":1424,"y":754,"w":480,"h":270,"caption":false,"topmost":true,"inPip":true,"minimal":true}"#
    );
}

#[test]
fn status_json_negative_and_true_values() {
    let s = StatusInfo {
        hwnd: -7,
        x: -1,
        y: 0,
        w: 1,
        h: 2,
        caption: true,
        topmost: false,
        in_pip: false,
        minimal: false,
    };
    assert_eq!(
        status_json(Some(&s)),
        r#"{"found":true,"hwnd":-7,"x":-1,"y":0,"w":1,"h":2,"caption":true,"topmost":false,"inPip":false,"minimal":false}"#
    );
}

#[test]
fn daemon_runtime_paths_keep_frozen_names() {
    let alive = alive_path("/tmp/");
    let crash = crash_path("/tmp/");
    assert_eq!(std::path::Path::new(&alive).file_name().unwrap(), "vlc-pip-daemon.alive");
    assert_eq!(std::path::Path::new(&crash).file_name().unwrap(), "vlc-pip-crash.txt");
}

#[test]
fn runtime_paths_join_like_windows_paths() {
    assert_eq!(state_path(r"C:\Temp"), r"C:\Temp\vlc-pip.state");
    assert_eq!(state_path(r"C:\Temp\"), r"C:\Temp\vlc-pip.state");
    assert_eq!(request_path("C:/Temp/"), "C:/Temp/vlc-pip-request.txt");
    assert_eq!(status_path(""), "vlc-pip-status.json");
    // a bare drive joins drive-relative; anything longer gets the separator
    assert_eq!(state_path("C:"), "C:vlc-pip.state");
    assert_eq!(state_path("d:"), "d:vlc-pip.state");
    assert_eq!(state_path("C:x"), r"C:x\vlc-pip.state");
    assert_eq!(state_path("1:"), r"1:\vlc-pip.state");
}

#[test]
fn request_word_is_trimmed_and_empty_is_nothing() {
    assert_eq!(request_command("toggle\r\n").as_deref(), Some("toggle"));
    assert_eq!(request_command("  \r\n"), None);
    assert_eq!(request_command(""), None);
    assert_eq!(request_command(" en ter "), Some("en ter".to_string()));
}
