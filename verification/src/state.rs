//! The PiP state record and the other runtime file formats: the one-line state file,
//! the status JSON, the heartbeat line, the request word and the runtime file names.
use vstd::prelude::*;

use crate::geometry::{corner_from_range, corner_of, corner_str, lemma_corner_round_trip, Corner};
use crate::text::{
    good_tokens, lemma_sep_join_step, lemma_sep_join_tokens, lemma_ws_tokens_split, sep_join,
    chars_of, int_str, lemma_parse_int_str, no_ws, parse_i32, parse_i32_range, parse_isize, parse_isize_range, parse_u32,
    parse_u32_range, push_int, trim, trim_range, ws_token_ranges, ws_tokens,
};

verus! {

// The PiP state: x..ex_style restore the window; target_w..min are the options in effect
// at Enter (daemon and one-shot CLI converge on the same geometry); pid guards against
// HWND recycling. A VALID file on disk == "in PiP".
#[derive(Debug, Clone, Copy, PartialEq, Eq, Structural)]
pub struct PipState {
    pub hwnd: isize,
    pub x: i32,
    pub y: i32,
    pub w: i32,
    pub h: i32,
    pub style: isize,
    pub ex_style: isize,
    pub target_w: i32,
    pub target_h: i32,
    pub corner: Corner,
    pub margin: i32,
    pub min: bool,
    pub pid: u32,
}

pub open spec fn min_str(b: bool) -> Seq<char> {
    if b {
        seq!['1']
    } else {
        seq!['0']
    }
}

/// The thirteen fields of a state record, as written.
pub open spec fn state_tokens(s: PipState) -> Seq<Seq<char>> {
    seq![
        int_str(s.hwnd as int),
        int_str(s.x as int),
        int_str(s.y as int),
        int_str(s.w as int),
        int_str(s.h as int),
        int_str(s.style as int),
        int_str(s.ex_style as int),
        int_str(s.target_w as int),
        int_str(s.target_h as int),
        corner_str(s.corner),
        int_str(s.margin as int),
        min_str(s.min),
        int_str(s.pid as int),
    ]
}

/// The state file line: the 13 tokens separated by single spaces, ended by a newline
/// (the torn-write sentinel).
pub open spec fn state_line(s: PipState) -> Seq<char> {
    sep_join(state_tokens(s)) + seq!['\n']
}

/// What the state file reads as: `None` unless the text ends in a newline and holds
/// exactly 13 whitespace-separated tokens, each numeric field parses as its type and the
/// min flag is `1` or `0`. The corner token alone accepts anything (unknown reads as `br`).
pub open spec fn parse_state_spec(s: Seq<char>) -> Option<PipState> {
    let t = ws_tokens(s);
    if !(s.len() > 0 && s.last() == '\n') || t.len() != 13 {
        None
    } else if parse_isize(t[0]) is None || parse_i32(t[1]) is None || parse_i32(t[2]) is None
        || parse_i32(t[3]) is None || parse_i32(t[4]) is None || parse_isize(t[5]) is None
        || parse_isize(t[6]) is None || parse_i32(t[7]) is None || parse_i32(t[8]) is None
        || parse_i32(t[10]) is None || !(t[11] == seq!['1'] || t[11] == seq!['0'])
        || parse_u32(t[12]) is None {
        None
    } else {
        Some(
            PipState {
                hwnd: parse_isize(t[0]).unwrap(),
                x: parse_i32(t[1]).unwrap(),
                y: parse_i32(t[2]).unwrap(),
                w: parse_i32(t[3]).unwrap(),
                h: parse_i32(t[4]).unwrap(),
                style: parse_isize(t[5]).unwrap(),
                ex_style: parse_isize(t[6]).unwrap(),
                target_w: parse_i32(t[7]).unwrap(),
                target_h: parse_i32(t[8]).unwrap(),
                corner: corner_of(t[9]),
                margin: parse_i32(t[10]).unwrap(),
                min: t[11] == seq!['1'],
                pid: parse_u32(t[12]).unwrap(),
            },
        )
    }
}

/// Parses a state line; any deviation from the written shape reads as `None`
/// ("not in PiP").
pub fn parse_state(s: &str) -> (r: Option<PipState>)
    ensures
        r == parse_state_spec(s@),
{
    let v = chars_of(s);
    let n = v.len();
    if n == 0 || v[n - 1] != '\n' {
        return None;
    }
    let t = ws_token_ranges(&v);
    if t.len() != 13 {
        return None;
    }
    let ghost tk = ws_tokens(v@);
    assert forall|k: int| 0 <= k < 13 implies v@.subrange(t@[k].0 as int, t@[k].1 as int) == tk[k]
        && t@[k].0 <= t@[k].1 <= v@.len() by {
        assert(t@[k].0 < t@[k].1 <= v@.len());
    }
    let hwnd = match parse_isize_range(&v, t[0].0, t[0].1) {
        Some(x) => x,
        None => return None,
    };
    let x = match parse_i32_range(&v, t[1].0, t[1].1) {
        Some(x) => x,
        None => return None,
    };
    let y = match parse_i32_range(&v, t[2].0, t[2].1) {
        Some(x) => x,
        None => return None,
    };
    let w = match parse_i32_range(&v, t[3].0, t[3].1) {
        Some(x) => x,
        None => return None,
    };
    let h = match parse_i32_range(&v, t[4].0, t[4].1) {
        Some(x) => x,
        None => return None,
    };
    let style = match parse_isize_range(&v, t[5].0, t[5].1) {
        Some(x) => x,
        None => return None,
    };
    let ex_style = match parse_isize_range(&v, t[6].0, t[6].1) {
        Some(x) => x,
        None => return None,
    };
    let target_w = match parse_i32_range(&v, t[7].0, t[7].1) {
        Some(x) => x,
        None => return None,
    };
    let target_h = match parse_i32_range(&v, t[8].0, t[8].1) {
        Some(x) => x,
        None => return None,
    };
    let corner = corner_from_range(&v, t[9].0, t[9].1);
    let margin = match parse_i32_range(&v, t[10].0, t[10].1) {
        Some(x) => x,
        None => return None,
    };
    let (a, b) = t[11];
    let min = if b - a == 1 && v[a] == '1' {
        true
    } else if b - a == 1 && v[a] == '0' {
        false
    } else {
        proof {
            let m = tk[11];
            assert(seq!['1'].len() == 1 && seq!['1'][0] == '1');
            assert(seq!['0'].len() == 1 && seq!['0'][0] == '0');
            if m.len() == 1 {
                assert(m[0] == v@[a as int]);
            }
        }
        return None;
    };
    proof {
        let m = tk[11];
        assert(m[0] == v@[a as int]);
        if min {
            assert(m =~= seq!['1']);
        } else {
            assert(m =~= seq!['0']);
            assert(seq!['0'][0] != seq!['1'][0]);
        }
    }
    let pid = match parse_u32_range(&v, t[12].0, t[12].1) {
        Some(x) => x,
        None => return None,
    };
    Some(
        PipState {
            hwnd,
            x,
            y,
            w,
            h,
            style,
            ex_style,
            target_w,
            target_h,
            corner,
            margin,
            min,
            pid,
        },
    )
}

fn push_token_int(out: &mut String, n: i128, Ghost(toks): Ghost<Seq<Seq<char>>>, Ghost(k): Ghost<int>)
    requires
        n > i128::MIN,
        0 <= k,
        k + 1 < toks.len(),
        toks[k + 1] == int_str(n as int),
        old(out)@ == sep_join(toks.take(k + 1)),
    ensures
        final(out)@ == sep_join(toks.take(k + 2)),
{
    proof {
        reveal_strlit(" ");
        lemma_sep_join_step(toks, k);
    }
    out.append(" ");
    push_int(out, n);
    assert(final(out)@ =~= sep_join(toks.take(k + 2)));
}

fn push_token_str(out: &mut String, t: &str, Ghost(toks): Ghost<Seq<Seq<char>>>, Ghost(k): Ghost<int>)
    requires
        0 <= k,
        k + 1 < toks.len(),
        toks[k + 1] == t@,
        old(out)@ == sep_join(toks.take(k + 1)),
    ensures
        final(out)@ == sep_join(toks.take(k + 2)),
{
    proof {
        reveal_strlit(" ");
        lemma_sep_join_step(toks, k);
    }
    out.append(" ");
    out.append(t);
    assert(final(out)@ =~= sep_join(toks.take(k + 2)));
}

/// The state file line for a record.
pub fn write_state(s: &PipState) -> (r: String)
    ensures
        r@ == state_line(*s),
{
    let ghost t = state_tokens(*s);
    let mut out = String::new();
    push_int(&mut out, s.hwnd as i128);
    proof {
        assert(t.take(1).drop_last() =~= Seq::<Seq<char>>::empty());
        assert(out@ =~= sep_join(t.take(1)));
    }
    push_token_int(&mut out, s.x as i128, Ghost(t), Ghost(0));
    push_token_int(&mut out, s.y as i128, Ghost(t), Ghost(1));
    push_token_int(&mut out, s.w as i128, Ghost(t), Ghost(2));
    push_token_int(&mut out, s.h as i128, Ghost(t), Ghost(3));
    push_token_int(&mut out, s.style as i128, Ghost(t), Ghost(4));
    push_token_int(&mut out, s.ex_style as i128, Ghost(t), Ghost(5));
    push_token_int(&mut out, s.target_w as i128, Ghost(t), Ghost(6));
    push_token_int(&mut out, s.target_h as i128, Ghost(t), Ghost(7));
    push_token_str(&mut out, s.corner.as_str(), Ghost(t), Ghost(8));
    push_token_int(&mut out, s.margin as i128, Ghost(t), Ghost(9));
    proof {
        reveal_strlit("1");
        reveal_strlit("0");
    }
    let m = if s.min {
        "1"
    } else {
        "0"
    };
    assert(m@ =~= min_str(s.min));
    push_token_str(&mut out, m, Ghost(t), Ghost(10));
    push_token_int(&mut out, s.pid as i128, Ghost(t), Ghost(11));
    proof {
        reveal_strlit("\n");
        assert(t.take(13) =~= t);
    }
    out.append("\n");
    out
}

/// Reading back a written record gives the same record: the state file round-trips.
pub proof fn lemma_state_round_trip(s: PipState)
    ensures
        parse_state_spec(state_line(s)) == Some(s),
{
    let t = state_tokens(s);
    lemma_parse_int_str(s.hwnd as int, true);
    lemma_parse_int_str(s.x as int, true);
    lemma_parse_int_str(s.y as int, true);
    lemma_parse_int_str(s.w as int, true);
    lemma_parse_int_str(s.h as int, true);
    lemma_parse_int_str(s.style as int, true);
    lemma_parse_int_str(s.ex_style as int, true);
    lemma_parse_int_str(s.target_w as int, true);
    lemma_parse_int_str(s.target_h as int, true);
    lemma_parse_int_str(s.margin as int, true);
    lemma_parse_int_str(s.pid as int, false);
    lemma_corner_round_trip(s.corner);
    assert(no_ws(min_str(s.min))) by {
        assert(min_str(s.min).len() == 1);
    }
    assert(good_tokens(t)) by {
        assert forall|k: int| 0 <= k < t.len() implies (#[trigger] t[k]).len() > 0 && no_ws(t[k]) by {
        }
    }
    lemma_sep_join_tokens(t);
    let line = state_line(s);
    lemma_ws_tokens_split(sep_join(t), '\n', Seq::empty());
    assert(sep_join(t) + seq!['\n'] + Seq::<char>::empty() =~= line);
    assert(ws_tokens(Seq::<char>::empty()) =~= Seq::<Seq<char>>::empty());
    assert(ws_tokens(line) =~= t);
    assert(line.last() == '\n');
    assert(seq!['0'] != seq!['1']) by {
        assert(seq!['0'][0] != seq!['1'][0]);
    }
}

// ---- status JSON -----------------------------------------------------------------------------

/// What the `status` mode reports of the player window.
#[derive(Debug, Clone, Copy, PartialEq, Eq, Structural)]
pub struct StatusInfo {
    pub hwnd: i64,
    pub x: i32,
    pub y: i32,
    pub w: i32,
    pub h: i32,
    pub caption: bool,
    pub topmost: bool,
    pub in_pip: bool,
    pub minimal: bool,
}

pub open spec fn bool_str(b: bool) -> Seq<char> {
    if b {
        "true"@
    } else {
        "false"@
    }
}

/// The status JSON: exact key order, compact, lowercase booleans.
pub open spec fn status_json_spec(info: Option<StatusInfo>) -> Seq<char> {
    match info {
        None => "{\"found\":false}"@,
        Some(i) => "{\"found\":true,\"hwnd\":"@ + int_str(i.hwnd as int) + ",\"x\":"@ + int_str(
            i.x as int,
        ) + ",\"y\":"@ + int_str(i.y as int) + ",\"w\":"@ + int_str(i.w as int) + ",\"h\":"@
            + int_str(i.h as int) + ",\"caption\":"@ + bool_str(i.caption) + ",\"topmost\":"@
            + bool_str(i.topmost) + ",\"inPip\":"@ + bool_str(i.in_pip) + ",\"minimal\":"@
            + bool_str(i.minimal) + "}"@,
    }
}

fn push_bool(out: &mut String, b: bool)
    ensures
        final(out)@ == old(out)@ + bool_str(b),
{
    if b {
        out.append("true");
    } else {
        out.append("false");
    }
}

pub fn status_json(info: Option<&StatusInfo>) -> (r: String)
    ensures
        r@ == status_json_spec(
            match info {
                Some(i) => Some(*i),
                None => None,
            },
        ),
{
    match info {
        None => String::from_str("{\"found\":false}"),
        Some(i) => {
            let mut out = String::from_str("{\"found\":true,\"hwnd\":");
            push_int(&mut out, i.hwnd as i128);
            out.append(",\"x\":");
            push_int(&mut out, i.x as i128);
            out.append(",\"y\":");
            push_int(&mut out, i.y as i128);
            out.append(",\"w\":");
            push_int(&mut out, i.w as i128);
            out.append(",\"h\":");
            push_int(&mut out, i.h as i128);
            out.append(",\"caption\":");
            push_bool(&mut out, i.caption);
            out.append(",\"topmost\":");
            push_bool(&mut out, i.topmost);
            out.append(",\"inPip\":");
            push_bool(&mut out, i.in_pip);
            out.append(",\"minimal\":");
            push_bool(&mut out, i.minimal);
            out.append("}");
            out
        },
    }
}

// ---- heartbeat -------------------------------------------------------------------------------

pub open spec fn flag_str(b: bool) -> Seq<char> {
    if b {
        seq!['1']
    } else {
        seq!['0']
    }
}

/// `{unix_seconds} pid={pid} hotkey={0|1} timer={0|1} kb={0|1} mouse={0|1}`: the line
/// starts with the epoch number, which is what liveness consumers read.
pub open spec fn heartbeat_spec(epoch: u64, pid: u32, hotkey: bool, timer: bool, kb: bool, mouse: bool) -> Seq<char> {
    int_str(epoch as int) + " pid="@ + int_str(pid as int) + " hotkey="@ + flag_str(hotkey)
        + " timer="@ + flag_str(timer) + " kb="@ + flag_str(kb) + " mouse="@ + flag_str(mouse)
}

fn push_flag(out: &mut String, b: bool)
    ensures
        final(out)@ == old(out)@ + flag_str(b),
{
    proof {
        reveal_strlit("1");
        reveal_strlit("0");
    }
    if b {
        out.append("1");
    } else {
        out.append("0");
    }
}

pub fn heartbeat_line(epoch: u64, pid: u32, hotkey: bool, timer: bool, kb: bool, mouse: bool) -> (r: String)
    ensures
        r@ == heartbeat_spec(epoch, pid, hotkey, timer, kb, mouse),
{
    let mut out = String::new();
    push_int(&mut out, epoch as i128);
    out.append(" pid=");
    push_int(&mut out, pid as i128);
    out.append(" hotkey=");
    push_flag(&mut out, hotkey);
    out.append(" timer=");
    push_flag(&mut out, timer);
    out.append(" kb=");
    push_flag(&mut out, kb);
    out.append(" mouse=");
    push_flag(&mut out, mouse);
    assert(out@ =~= heartbeat_spec(epoch, pid, hotkey, timer, kb, mouse));
    out
}

// ---- request word ------------------------------------------------------------------------------

/// The command a request file holds: its content trimmed, or nothing when that is empty.
pub open spec fn request_command_spec(content: Seq<char>) -> Option<Seq<char>> {
    if trim(content).len() == 0 {
        None
    } else {
        Some(trim(content))
    }
}

pub fn request_command(content: &str) -> (r: Option<String>)
    ensures
        match r {
            Some(c) => request_command_spec(content@) == Some(c@),
            None => request_command_spec(content@) is None,
        },
{
    let v = chars_of(content);
    let (a, b) = trim_range(&v, 0, v.len());
    proof {
        assert(v@.subrange(0, v@.len() as int) =~= content@);
    }
    if a == b {
        return None;
    }
    let piece = content.substring_char(a, b);
    Some(String::from_str(piece))
}

// ---- runtime file names ------------------------------------------------------------------------

/// A bare drive prefix such as `C:`: an ASCII letter and a colon, nothing else.
pub open spec fn bare_drive(dir: Seq<char>) -> bool {
    dir.len() == 2 && dir[1] == ':' && (('a' <= dir[0] && dir[0] <= 'z') || ('A' <= dir[0]
        && dir[0] <= 'Z'))
}

/// `dir` joined with a relative file name as Windows paths join (for paths without the
/// verbatim `\\?\` prefix): a backslash goes between them unless `dir` is empty, already
/// ends in a separator, or is a bare drive (`C:` joins drive-relative, to `C:name`).
pub open spec fn join_path(dir: Seq<char>, name: Seq<char>) -> Seq<char> {
    if dir.len() == 0 || bare_drive(dir) {
        dir + name
    } else if dir.last() == '\\' || dir.last() == '/' {
        dir + name
    } else {
        dir + seq!['\\'] + name
    }
}

fn join_path_exec(dir: &str, name: &str) -> (r: String)
    ensures
        r@ == join_path(dir@, name@),
{
    let n = dir.unicode_len();
    let mut out = String::from_str(dir);
    if n > 0 {
        let last = dir.get_char(n - 1);
        let drive = n == 2 && last == ':' && {
            let d = dir.get_char(0);
            ('a' <= d && d <= 'z') || ('A' <= d && d <= 'Z')
        };
        if !drive && last != '\\' && last != '/' {
            proof {
                reveal_strlit("\\");
            }
            out.append("\\");
        }
    }
    out.append(name);
    out
}

/// `%TEMP%\vlc-pip.state`: the PiP state record.
pub fn state_path(temp_dir: &str) -> (r: String)
    ensures
        r@ == join_path(temp_dir@, "vlc-pip.state"@),
{
    join_path_exec(temp_dir, "vlc-pip.state")
}

/// `%TEMP%\vlc-pip-daemon.alive`: the daemon heartbeat.
pub fn alive_path(temp_dir: &str) -> (r: String)
    ensures
        r@ == join_path(temp_dir@, "vlc-pip-daemon.alive"@),
{
    join_path_exec(temp_dir, "vlc-pip-daemon.alive")
}

/// `%TEMP%\vlc-pip-crash.txt`: the crash report.
pub fn crash_path(temp_dir: &str) -> (r: String)
    ensures
        r@ == join_path(temp_dir@, "vlc-pip-crash.txt"@),
{
    join_path_exec(temp_dir, "vlc-pip-crash.txt")
}

/// `%TEMP%\vlc-pip-request.txt`: the command channel into the daemon.
pub fn request_path(temp_dir: &str) -> (r: String)
    ensures
        r@ == join_path(temp_dir@, "vlc-pip-request.txt"@),
{
    join_path_exec(temp_dir, "vlc-pip-request.txt")
}

/// `%TEMP%\vlc-pip-status.json`: the `status` mode output.
pub fn status_path(temp_dir: &str) -> (r: String)
    ensures
        r@ == join_path(temp_dir@, "vlc-pip-status.json"@),
{
    join_path_exec(temp_dir, "vlc-pip-status.json")
}

} // verus!
