//! PiP options (`w= h= c= m= min=` tokens): defaults < config file < argv.
use vstd::prelude::*;

use crate::geometry::{corner_from_range, corner_of, corner_str, lemma_corner_round_trip, Corner};
use crate::text::{
    lemma_parse_int_str, lemma_trim_no_ws, lemma_ws_tokens_cons, lemma_ws_tokens_single, no_ws,
    chars_of, eq_ignore_ascii_case, eq_ignore_ascii_case_range, int_str, parse_i32, parse_i32_range,
    push_int, trim, trim_range, ws_token_ranges, ws_tokens,
};

verus! {

#[derive(Debug, Clone, Copy, PartialEq, Eq, Structural)]
pub struct PipOptions {
    pub w: i32,
    pub h: i32,
    pub corner: Corner,
    pub margin: i32,
    pub min: bool,
}

pub open spec fn default_options() -> PipOptions {
    PipOptions { w: 480, h: 270, corner: Corner::Br, margin: 16, min: true }
}

impl Default for PipOptions {
    fn default() -> (o: Self)
        ensures
            o == default_options(),
    {
        PipOptions { w: 480, h: 270, corner: Corner::Br, margin: 16, min: true }
    }
}

/// Index of the first `=` in a token.
pub open spec fn first_eq(t: Seq<char>) -> Option<int>
    decreases t.len(),
{
    if t.len() == 0 {
        None
    } else if t[0] == '=' {
        Some(0)
    } else {
        match first_eq(t.drop_first()) {
            Some(i) => Some(i + 1),
            None => None,
        }
    }
}

/// A positive size value: `v.trim().parse::<i32>()` when it is above zero.
pub open spec fn positive_val(v: Seq<char>) -> Option<i32> {
    match parse_i32(trim(v)) {
        Some(n) => if n > 0 {
            Some(n)
        } else {
            None
        },
        None => None,
    }
}

/// `min=` is off only for `0` and (ASCII-case-insensitive) `false`.
pub open spec fn min_flag(v: Seq<char>) -> bool {
    !(v == seq!['0']) && !eq_ignore_ascii_case(v, seq!['f', 'a', 'l', 's', 'e'])
}

/// One `key=value` token applied to the options. Tokens without `=`, unknown keys and
/// unparsable or non-positive sizes leave the options unchanged.
pub open spec fn apply_token(o: PipOptions, t: Seq<char>) -> PipOptions {
    match first_eq(t) {
        None => o,
        Some(i) => {
            let k = t.take(i);
            let v = t.skip(i + 1);
            if k == seq!['w'] {
                match positive_val(v) {
                    Some(n) => PipOptions { w: n, ..o },
                    None => o,
                }
            } else if k == seq!['h'] {
                match positive_val(v) {
                    Some(n) => PipOptions { h: n, ..o },
                    None => o,
                }
            } else if k == seq!['c'] {
                PipOptions { corner: corner_of(v), ..o }
            } else if k == seq!['m'] {
                match parse_i32(trim(v)) {
                    Some(n) => PipOptions { margin: n, ..o },
                    None => o,
                }
            } else if k == seq!['m', 'i', 'n'] {
                PipOptions { min: min_flag(v), ..o }
            } else {
                o
            }
        },
    }
}

/// Tokens applied in order, so a later token overrides an earlier one.
pub open spec fn apply_all(o: PipOptions, toks: Seq<Seq<char>>) -> PipOptions
    decreases toks.len(),
{
    if toks.len() == 0 {
        o
    } else {
        apply_all(apply_token(o, toks[0]), toks.drop_first())
    }
}

pub open spec fn str_views(args: Seq<&str>) -> Seq<Seq<char>> {
    args.map_values(|a: &str| a@)
}

pub open spec fn string_views(args: Seq<String>) -> Seq<Seq<char>> {
    args.map_values(|a: String| a@)
}

/// The options in effect for a config line and argv: defaults, then the config's
/// whitespace-separated tokens, then argv.
pub open spec fn merge_spec(cfg: Seq<char>, argv: Seq<Seq<char>>) -> PipOptions {
    apply_all(apply_all(default_options(), ws_tokens(cfg)), argv)
}

proof fn lemma_first_eq_at(t: Seq<char>, k: int)
    requires
        0 <= k <= t.len(),
        forall|j: int| 0 <= j < k ==> #[trigger] t[j] != '=',
        k == t.len() || t[k] == '=',
    ensures
        first_eq(t) == (if k < t.len() {
            Some(k)
        } else {
            None::<int>
        }),
    decreases k,
{
    if k > 0 {
        let u = t.drop_first();
        assert forall|j: int| 0 <= j < k - 1 implies #[trigger] u[j] != '=' by {
            assert(u[j] == t[j + 1]);
        }
        if k < t.len() {
            assert(u[k - 1] == t[k]);
        }
        lemma_first_eq_at(u, k - 1);
    }
}

fn positive_val_range(v: &Vec<char>, lo: usize, hi: usize) -> (r: Option<i32>)
    requires
        lo <= hi <= v@.len(),
    ensures
        r == positive_val(v@.subrange(lo as int, hi as int)),
{
    let (a, b) = trim_range(v, lo, hi);
    match parse_i32_range(v, a, b) {
        Some(n) => if n > 0 {
            Some(n)
        } else {
            None
        },
        None => None,
    }
}

fn false_word() -> (v: Vec<char>)
    ensures
        v@ == seq!['f', 'a', 'l', 's', 'e'],
{
    let v = vec!['f', 'a', 'l', 's', 'e'];
    assert(v@ =~= seq!['f', 'a', 'l', 's', 'e']);
    v
}

/// The token `v[lo..hi]` applied to `o`.
pub fn apply_token_range(o: PipOptions, v: &Vec<char>, lo: usize, hi: usize) -> (r: PipOptions)
    requires
        lo <= hi <= v@.len(),
    ensures
        r == apply_token(o, v@.subrange(lo as int, hi as int)),
{
    let ghost t = v@.subrange(lo as int, hi as int);
    let mut i = lo;
    while i < hi && v[i] != '='
        invariant
            lo <= i <= hi <= v@.len(),
            forall|j: int| lo <= j < i ==> #[trigger] v@[j] != '=',
        decreases hi - i,
    {
        i = i + 1;
    }
    proof {
        assert forall|j: int| 0 <= j < i - lo implies #[trigger] t[j] != '=' by {
            assert(t[j] == v@[lo + j]);
        }
        if i < hi {
            assert(t[i - lo] == v@[i as int]);
        }
        lemma_first_eq_at(t, i - lo);
    }
    if i == hi {
        return o;
    }
    let ghost k = t.take(i - lo);
    let ghost val = t.skip(i - lo + 1);
    proof {
        assert(k =~= v@.subrange(lo as int, i as int));
        assert(val =~= v@.subrange(i + 1, hi as int));
    }
    let klen = i - lo;
    if klen == 1 && v[lo] == 'w' {
        assert(k =~= seq!['w']);
        match positive_val_range(v, i + 1, hi) {
            Some(n) => PipOptions { w: n, ..o },
            None => o,
        }
    } else if klen == 1 && v[lo] == 'h' {
        assert(k =~= seq!['h']);
        match positive_val_range(v, i + 1, hi) {
            Some(n) => PipOptions { h: n, ..o },
            None => o,
        }
    } else if klen == 1 && v[lo] == 'c' {
        assert(k =~= seq!['c']);
        PipOptions { corner: corner_from_range(v, i + 1, hi), ..o }
    } else if klen == 1 && v[lo] == 'm' {
        assert(k =~= seq!['m']);
        let (a, b) = trim_range(v, i + 1, hi);
        match parse_i32_range(v, a, b) {
            Some(n) => PipOptions { margin: n, ..o },
            None => o,
        }
    } else if klen == 3 && v[lo] == 'm' && v[lo + 1] == 'i' && v[lo + 2] == 'n' {
        assert(k =~= seq!['m', 'i', 'n']);
        let zero = hi - (i + 1) == 1 && v[i + 1] == '0';
        proof {
            if hi - (i + 1) == 1 {
                assert(val[0] == v@[i + 1]);
            }
            if val == seq!['0'] {
                assert(val.len() == 1 && val[0] == '0');
            }
            if zero {
                assert(val =~= seq!['0']);
            }
        }
        let fw = false_word();
        let is_false = eq_ignore_ascii_case_range(v, i + 1, hi, &fw);
        PipOptions { min: !zero && !is_false, ..o }
    } else {
        proof {
            assert(seq!['w'].len() == 1 && seq!['w'][0] == 'w');
            assert(seq!['h'].len() == 1 && seq!['h'][0] == 'h');
            assert(seq!['c'].len() == 1 && seq!['c'][0] == 'c');
            assert(seq!['m'].len() == 1 && seq!['m'][0] == 'm');
            let mn = seq!['m', 'i', 'n'];
            assert(mn.len() == 3 && mn[0] == 'm' && mn[1] == 'i' && mn[2] == 'n');
            if k.len() >= 1 {
                assert(k[0] == v@[lo as int]);
            }
            if k.len() == 3 {
                assert(k[1] == v@[lo + 1] && k[2] == v@[lo + 2]);
            }
        }
        o
    }
}

pub proof fn lemma_apply_all_append(o: PipOptions, a: Seq<Seq<char>>, b: Seq<Seq<char>>)
    ensures
        apply_all(o, a + b) == apply_all(apply_all(o, a), b),
    decreases a.len(),
{
    if a.len() == 0 {
        assert(a + b =~= b);
    } else {
        assert((a + b).drop_first() =~= a.drop_first() + b);
        assert((a + b)[0] == a[0]);
        lemma_apply_all_append(apply_token(o, a[0]), a.drop_first(), b);
    }
}

/// The last token is applied last: it overrides whatever the earlier tokens set.
pub proof fn lemma_last_token_wins(o: PipOptions, toks: Seq<Seq<char>>, t: Seq<char>)
    ensures
        apply_all(o, toks.push(t)) == apply_token(apply_all(o, toks), t),
{
    lemma_apply_all_append(o, toks, seq![t]);
    assert(toks.push(t) =~= toks + seq![t]);
    let p = apply_all(o, toks);
    assert(seq![t].drop_first() =~= Seq::<Seq<char>>::empty());
    assert(seq![t][0] == t);
    assert(apply_all(p, seq![t]) == apply_all(apply_token(p, t), Seq::<Seq<char>>::empty()));
}

/// Sizes stay positive whatever tokens are applied: `w=`/`h=` accept only positive values.
pub proof fn lemma_sizes_stay_positive(o: PipOptions, toks: Seq<Seq<char>>)
    requires
        o.w > 0,
        o.h > 0,
    ensures
        apply_all(o, toks).w > 0,
        apply_all(o, toks).h > 0,
    decreases toks.len(),
{
    if toks.len() > 0 {
        lemma_sizes_stay_positive(apply_token(o, toks[0]), toks.drop_first());
    }
}

/// Options parsed from `key=value` tokens over the defaults; later duplicates win.
pub fn parse_options(args: &[&str]) -> (o: PipOptions)
    ensures
        o == apply_all(default_options(), str_views(args@)),
        o.w > 0 && o.h > 0,
{
    let mut o = PipOptions::default();
    let mut i: usize = 0;
    proof {
        assert(str_views(args@).skip(0) =~= str_views(args@));
    }
    while i < args.len()
        invariant
            i <= args@.len(),
            apply_all(o, str_views(args@).skip(i as int)) == apply_all(
                default_options(),
                str_views(args@),
            ),
        decreases args@.len() - i,
    {
        let v = chars_of(args[i]);
        let ghost rest = str_views(args@).skip(i as int);
        proof {
            assert(rest[0] == args@[i as int]@);
            assert(rest.drop_first() =~= str_views(args@).skip(i + 1));
            assert(v@.subrange(0, v@.len() as int) =~= v@);
        }
        o = apply_token_range(o, &v, 0, v.len());
        i = i + 1;
    }
    proof {
        assert(str_views(args@).skip(args@.len() as int) =~= Seq::<Seq<char>>::empty());
        lemma_sizes_stay_positive(default_options(), str_views(args@));
    }
    o
}

/// defaults < config tokens < argv.
pub fn merge(cfg: &str, argv: &[String]) -> (o: PipOptions)
    ensures
        o == merge_spec(cfg@, string_views(argv@)),
        o.w > 0 && o.h > 0,
{
    let v = chars_of(cfg);
    let ranges = ws_token_ranges(&v);
    let mut o = PipOptions::default();
    let mut i: usize = 0;
    let ghost toks = ws_tokens(cfg@);
    proof {
        assert(toks.skip(0) =~= toks);
    }
    while i < ranges.len()
        invariant
            v@ == cfg@,
            toks == ws_tokens(cfg@),
            ranges@.len() == toks.len(),
            forall|k: int|
                0 <= k < ranges@.len() ==> {
                    &&& (#[trigger] ranges@[k]).0 < ranges@[k].1 <= v@.len()
                    &&& v@.subrange(ranges@[k].0 as int, ranges@[k].1 as int) == toks[k]
                },
            i <= ranges@.len(),
            apply_all(o, toks.skip(i as int)) == apply_all(default_options(), toks),
        decreases ranges@.len() - i,
    {
        let (a, b) = ranges[i];
        proof {
            let rest = toks.skip(i as int);
            assert(rest[0] == toks[i as int]);
            assert(rest.drop_first() =~= toks.skip(i + 1));
        }
        o = apply_token_range(o, &v, a, b);
        i = i + 1;
    }
    let ghost mid = o;
    proof {
        assert(toks.skip(ranges@.len() as int) =~= Seq::<Seq<char>>::empty());
    }
    let mut j: usize = 0;
    proof {
        assert(string_views(argv@).skip(0) =~= string_views(argv@));
    }
    while j < argv.len()
        invariant
            j <= argv@.len(),
            apply_all(o, string_views(argv@).skip(j as int)) == apply_all(
                mid,
                string_views(argv@),
            ),
        decreases argv@.len() - j,
    {
        let w = chars_of(argv[j].as_str());
        proof {
            let rest = string_views(argv@).skip(j as int);
            assert(rest[0] == argv@[j as int]@);
            assert(rest.drop_first() =~= string_views(argv@).skip(j + 1));
            assert(w@.subrange(0, w@.len() as int) =~= w@);
        }
        o = apply_token_range(o, &w, 0, w.len());
        j = j + 1;
    }
    proof {
        assert(string_views(argv@).skip(argv@.len() as int) =~= Seq::<Seq<char>>::empty());
        lemma_sizes_stay_positive(default_options(), toks);
        lemma_sizes_stay_positive(mid, string_views(argv@));
    }
    o
}

// ---- persisted config line ----------------------------------------------------------------

/// The line written to the config file on a drag release: `w={w} h={h} c={corner}`.
pub open spec fn config_line_spec(w: int, h: int, corner: Corner) -> Seq<char> {
    seq!['w', '='] + int_str(w) + seq![' ', 'h', '='] + int_str(h) + seq![' ', 'c', '=']
        + corner_str(corner)
}

/// The config line persisting a size and corner.
pub fn config_line(w: i32, h: i32, corner: Corner) -> (s: String)
    ensures
        s@ == config_line_spec(w as int, h as int, corner),
{
    proof {
        reveal_strlit("w=");
        reveal_strlit(" h=");
        reveal_strlit(" c=");
    }
    let mut s = String::new();
    s.append("w=");
    push_int(&mut s, w as i128);
    s.append(" h=");
    push_int(&mut s, h as i128);
    s.append(" c=");
    s.append(corner.as_str());
    assert(s@ =~= config_line_spec(w as int, h as int, corner));
    s
}

proof fn lemma_key_value_token(k: char, val: Seq<char>)
    requires
        k != '=',
    ensures
        first_eq(seq![k, '='] + val) == Some(1int),
        (seq![k, '='] + val).take(1) == seq![k],
        (seq![k, '='] + val).skip(2) == val,
{
    let t = seq![k, '='] + val;
    assert(t[0] == k && t[1] == '=');
    lemma_first_eq_at(t, 1);
    assert(t.take(1) =~= seq![k]);
    assert(t.skip(2) =~= val);
}

proof fn lemma_token_no_ws(k: char, val: Seq<char>)
    requires
        !is_ws_spec_char(k),
        no_ws(val),
    ensures
        no_ws(seq![k, '='] + val),
        (seq![k, '='] + val).len() > 0,
{
    let t = seq![k, '='] + val;
    assert forall|j: int| 0 <= j < t.len() implies !crate::text::is_ws(#[trigger] t[j]) by {
        if j >= 2 {
            assert(t[j] == val[j - 2]);
        }
    }
}

pub open spec fn is_ws_spec_char(c: char) -> bool {
    crate::text::is_ws(c)
}

proof fn lemma_apply_three(o: PipOptions, t1: Seq<char>, t2: Seq<char>, t3: Seq<char>)
    ensures
        apply_all(o, seq![t1, t2, t3]) == apply_token(apply_token(apply_token(o, t1), t2), t3),
{
    let s3 = seq![t1, t2, t3];
    let s2 = seq![t2, t3];
    let s1 = seq![t3];
    let e = Seq::<Seq<char>>::empty();
    assert(s3[0] == t1);
    assert(s3.drop_first() =~= s2);
    assert(s2[0] == t2);
    assert(s2.drop_first() =~= s1);
    assert(s1[0] == t3);
    assert(s1.drop_first() =~= e);
    let o1 = apply_token(o, t1);
    let o2 = apply_token(o1, t2);
    let o3 = apply_token(o2, t3);
    assert(apply_all(o3, e) == o3);
    assert(apply_all(o2, s1) == apply_all(o3, e));
    assert(apply_all(o1, s2) == apply_all(o2, s1));
    assert(apply_all(o, s3) == apply_all(o1, s2));
}

proof fn lemma_config_tokens(w: i32, h: i32, c: Corner)
    requires
        w > 0,
        h > 0,
    ensures
        ws_tokens(config_line_spec(w as int, h as int, c)) == seq![
            seq!['w', '='] + int_str(w as int),
            seq!['h', '='] + int_str(h as int),
            seq!['c', '='] + corner_str(c),
        ],
{
    let sw = int_str(w as int);
    let sh = int_str(h as int);
    let sc = corner_str(c);
    lemma_parse_int_str(w as int, true);
    lemma_parse_int_str(h as int, true);
    lemma_corner_round_trip(c);
    let t1 = seq!['w', '='] + sw;
    let t2 = seq!['h', '='] + sh;
    let t3 = seq!['c', '='] + sc;
    lemma_token_no_ws('w', sw);
    lemma_token_no_ws('h', sh);
    lemma_token_no_ws('c', sc);
    let line = config_line_spec(w as int, h as int, c);
    assert(line =~= t1 + seq![' '] + (t2 + seq![' '] + t3));
    lemma_ws_tokens_cons(t1, ' ', t2 + seq![' '] + t3);
    lemma_ws_tokens_cons(t2, ' ', t3);
    lemma_ws_tokens_single(t3);
    assert(ws_tokens(line) =~= seq![t1, t2, t3]);
}

/// What a drag release writes to the config file reads back as that size and corner
/// (over the defaults for the other options).
pub proof fn lemma_config_round_trip(w: i32, h: i32, c: Corner)
    requires
        w > 0,
        h > 0,
    ensures
        merge_spec(config_line_spec(w as int, h as int, c), Seq::empty()) == (PipOptions {
            w,
            h,
            corner: c,
            margin: 16,
            min: true,
        }),
{
    let sw = int_str(w as int);
    let sh = int_str(h as int);
    let sc = corner_str(c);
    lemma_parse_int_str(w as int, true);
    lemma_parse_int_str(h as int, true);
    lemma_corner_round_trip(c);
    let t1 = seq!['w', '='] + sw;
    let t2 = seq!['h', '='] + sh;
    let t3 = seq!['c', '='] + sc;
    lemma_config_tokens(w, h, c);
    lemma_key_value_token('w', sw);
    lemma_key_value_token('h', sh);
    lemma_key_value_token('c', sc);
    lemma_trim_no_ws(sw);
    lemma_trim_no_ws(sh);
    assert(seq!['h'] != seq!['w']) by {
        assert(seq!['h'][0] != seq!['w'][0]);
    }
    assert(seq!['c'] != seq!['w'] && seq!['c'] != seq!['h']) by {
        assert(seq!['c'][0] != seq!['w'][0]);
        assert(seq!['c'][0] != seq!['h'][0]);
    }
    let d = default_options();
    let o1 = apply_token(d, t1);
    assert(o1 == PipOptions { w, ..d });
    let o2 = apply_token(o1, t2);
    assert(o2 == PipOptions { w, h, ..d });
    let o3 = apply_token(o2, t3);
    assert(o3 == PipOptions { w, h, corner: c, ..d });
    lemma_apply_three(d, t1, t2, t3);
    assert(apply_all(o3, Seq::<Seq<char>>::empty()) == o3);
}

/// An `m=` token whose value (trimmed) is a decimal i32 sets the margin to exactly that
/// number, zero and negatives included, and leaves every other option as it was; an `m=`
/// value that does not parse changes nothing.
pub proof fn lemma_margin_token(o: PipOptions, v: Seq<char>)
    ensures
        parse_i32(trim(v)) matches Some(n) ==> apply_token(o, seq!['m', '='] + v) == (PipOptions {
            margin: n,
            ..o
        }),
        parse_i32(trim(v)) is None ==> apply_token(o, seq!['m', '='] + v) == o,
{
    lemma_key_value_token('m', v);
    assert(seq!['m'] != seq!['w'] && seq!['m'] != seq!['h'] && seq!['m'] != seq!['c']) by {
        assert(seq!['m'][0] != seq!['w'][0]);
        assert(seq!['m'][0] != seq!['h'][0]);
        assert(seq!['m'][0] != seq!['c'][0]);
    }
}

/// Every i32 margin written as `m=<n>` reads back as `n` (so `m=0` parks the PiP flush in
/// its corner), whatever came before it on the command line.
pub proof fn lemma_margin_written_reads_back(o: PipOptions, earlier: Seq<Seq<char>>, n: i32)
    ensures
        apply_all(o, earlier.push(seq!['m', '='] + int_str(n as int))) == (PipOptions {
            margin: n,
            ..apply_all(o, earlier)
        }),
{
    let s = int_str(n as int);
    lemma_parse_int_str(n as int, true);
    lemma_trim_no_ws(s);
    lemma_margin_token(apply_all(o, earlier), s);
    lemma_last_token_wins(o, earlier, seq!['m', '='] + s);
}

/// A size token `w=<n>` / `h=<n>` sets that size to `n` when `n` is positive and leaves the
/// options unchanged otherwise; the other options are untouched either way.
pub proof fn lemma_size_tokens(o: PipOptions, n: i32)
    ensures
        apply_token(o, seq!['w', '='] + int_str(n as int)) == (if n > 0 {
            PipOptions { w: n, ..o }
        } else {
            o
        }),
        apply_token(o, seq!['h', '='] + int_str(n as int)) == (if n > 0 {
            PipOptions { h: n, ..o }
        } else {
            o
        }),
{
    let s = int_str(n as int);
    lemma_parse_int_str(n as int, true);
    lemma_trim_no_ws(s);
    lemma_key_value_token('w', s);
    lemma_key_value_token('h', s);
    assert(seq!['h'] != seq!['w']) by {
        assert(seq!['h'][0] != seq!['w'][0]);
    }
}

/// `min=` turns the minimal look off for exactly `0` and `false` (any ASCII case) and on
/// for every other value; nothing else changes.
pub proof fn lemma_min_token(o: PipOptions, v: Seq<char>)
    ensures
        apply_token(o, seq!['m', 'i', 'n', '='] + v) == (PipOptions {
            min: !(v == seq!['0'] || eq_ignore_ascii_case(v, seq!['f', 'a', 'l', 's', 'e'])),
            ..o
        }),
{
    let t = seq!['m', 'i', 'n', '='] + v;
    assert(t[0] == 'm' && t[1] == 'i' && t[2] == 'n' && t[3] == '=');
    lemma_first_eq_at(t, 3);
    assert(t.take(3) =~= seq!['m', 'i', 'n']);
    assert(t.skip(4) =~= v);
    let k = seq!['m', 'i', 'n'];
    assert(k != seq!['w'] && k != seq!['h'] && k != seq!['c'] && k != seq!['m']) by {
        assert(k.len() == 3);
    }
}

} // verus!
