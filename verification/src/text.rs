//! Character-level text handling shared by the option, state and status formats:
//! whitespace, tokenizing, trimming, decimal integers and ASCII case folding.
use vstd::prelude::*;

verus! {

/// Unicode White_Space, the set that `char::is_whitespace`, `str::trim` and
/// `str::split_whitespace` use.
pub open spec fn is_ws(c: char) -> bool {
    let u = c as u32;
    ||| 0x09 <= u <= 0x0D
    ||| u == 0x20
    ||| u == 0x85
    ||| u == 0xA0
    ||| u == 0x1680
    ||| 0x2000 <= u <= 0x200A
    ||| u == 0x2028
    ||| u == 0x2029
    ||| u == 0x202F
    ||| u == 0x205F
    ||| u == 0x3000
}

pub fn is_ws_char(c: char) -> (r: bool)
    ensures
        r == is_ws(c),
{
    let u = c as u32;
    (0x09 <= u && u <= 0x0D) || u == 0x20 || u == 0x85 || u == 0xA0 || u == 0x1680 || (0x2000
        <= u && u <= 0x200A) || u == 0x2028 || u == 0x2029 || u == 0x202F || u == 0x205F || u
        == 0x3000
}

/// Length of the leading run of non-whitespace characters.
pub open spec fn token_len(s: Seq<char>) -> nat
    decreases s.len(),
{
    if s.len() == 0 || is_ws(s[0]) {
        0
    } else {
        1 + token_len(s.drop_first())
    }
}

/// The maximal runs of non-whitespace characters, in order (`str::split_whitespace`).
pub open spec fn ws_tokens(s: Seq<char>) -> Seq<Seq<char>>
    decreases s.len(),
{
    if s.len() == 0 {
        Seq::empty()
    } else if is_ws(s[0]) {
        ws_tokens(s.drop_first())
    } else {
        let n = token_len(s);
        proof {
            lemma_token_len_le(s);
        }
        if n == 0 {
            Seq::empty()
        } else {
            seq![s.take(n as int)] + ws_tokens(s.skip(n as int))
        }
    }
}

pub proof fn lemma_token_len_le(s: Seq<char>)
    ensures
        token_len(s) <= s.len(),
        s.len() > 0 && !is_ws(s[0]) ==> token_len(s) >= 1,
    decreases s.len(),
{
    if s.len() > 0 && !is_ws(s[0]) {
        lemma_token_len_le(s.drop_first());
    }
}

/// A run that ends at the end of `s` or at a whitespace character has exactly its length.
pub proof fn lemma_token_len_run(s: Seq<char>, n: int)
    requires
        0 <= n <= s.len(),
        forall|k: int| 0 <= k < n ==> !is_ws(#[trigger] s[k]),
        n == s.len() || is_ws(s[n]),
    ensures
        token_len(s) == n,
    decreases n,
{
    if n > 0 {
        let t = s.drop_first();
        assert forall|k: int| 0 <= k < n - 1 implies !is_ws(#[trigger] t[k]) by {
            assert(t[k] == s[k + 1]);
        }
        if n - 1 < t.len() {
            assert(t[n - 1] == s[n]);
        }
        lemma_token_len_run(t, n - 1);
    }
}

pub open spec fn no_ws(t: Seq<char>) -> bool {
    forall|k: int| 0 <= k < t.len() ==> !is_ws(#[trigger] t[k])
}

/// Whitespace in front of the rest is skipped.
pub proof fn lemma_ws_tokens_skip_ws(s: Seq<char>)
    requires
        s.len() > 0,
        is_ws(s[0]),
    ensures
        ws_tokens(s) == ws_tokens(s.drop_first()),
{
}

/// A token followed by a whitespace character and the rest.
pub proof fn lemma_ws_tokens_cons(t: Seq<char>, c: char, rest: Seq<char>)
    requires
        t.len() > 0,
        no_ws(t),
        is_ws(c),
    ensures
        ws_tokens(t + seq![c] + rest) == seq![t] + ws_tokens(rest),
{
    let s = t + seq![c] + rest;
    assert forall|k: int| 0 <= k < t.len() implies !is_ws(#[trigger] s[k]) by {
        assert(s[k] == t[k]);
    }
    assert(s[t.len() as int] == c);
    lemma_token_len_run(s, t.len() as int);
    assert(s.take(t.len() as int) =~= t);
    let after = s.skip(t.len() as int);
    assert(after =~= seq![c] + rest);
    assert(after[0] == c);
    assert(after.drop_first() =~= rest);
    lemma_ws_tokens_skip_ws(after);
}

/// The leading run of `a + [c] + b`, for a whitespace `c`, is the leading run of `a`.
proof fn lemma_token_len_concat(a: Seq<char>, c: char, b: Seq<char>)
    requires
        is_ws(c),
    ensures
        token_len(a + seq![c] + b) == token_len(a),
    decreases a.len(),
{
    let s = a + seq![c] + b;
    if a.len() == 0 {
        assert(s[0] == c);
    } else {
        assert(s[0] == a[0]);
        if !is_ws(a[0]) {
            assert(s.drop_first() =~= a.drop_first() + seq![c] + b);
            lemma_token_len_concat(a.drop_first(), c, b);
        }
    }
}

/// A whitespace character splits the tokens: those of `a`, then those of `b`.
pub proof fn lemma_ws_tokens_split(a: Seq<char>, c: char, b: Seq<char>)
    requires
        is_ws(c),
    ensures
        ws_tokens(a + seq![c] + b) == ws_tokens(a) + ws_tokens(b),
    decreases a.len(),
{
    let s = a + seq![c] + b;
    if a.len() == 0 {
        assert(s[0] == c);
        assert(s.drop_first() =~= b);
        assert(ws_tokens(a) =~= Seq::<Seq<char>>::empty());
        assert(ws_tokens(a) + ws_tokens(b) =~= ws_tokens(b));
    } else if is_ws(a[0]) {
        assert(s[0] == a[0]);
        assert(s.drop_first() =~= a.drop_first() + seq![c] + b);
        lemma_ws_tokens_split(a.drop_first(), c, b);
    } else {
        assert(s[0] == a[0]);
        lemma_token_len_concat(a, c, b);
        lemma_token_len_le(a);
        let n = token_len(a) as int;
        assert(s.take(n) =~= a.take(n));
        assert(s.skip(n) =~= a.skip(n) + seq![c] + b);
        lemma_ws_tokens_split(a.skip(n), c, b);
        assert(seq![a.take(n)] + (ws_tokens(a.skip(n)) + ws_tokens(b)) =~= (seq![a.take(n)]
            + ws_tokens(a.skip(n))) + ws_tokens(b));
    }
}

/// Tokens joined by single spaces.
pub open spec fn sep_join(toks: Seq<Seq<char>>) -> Seq<char>
    decreases toks.len(),
{
    if toks.len() == 0 {
        Seq::empty()
    } else if toks.len() == 1 {
        toks[0]
    } else {
        sep_join(toks.drop_last()) + seq![' '] + toks.last()
    }
}

pub open spec fn good_tokens(toks: Seq<Seq<char>>) -> bool {
    forall|k: int| 0 <= k < toks.len() ==> (#[trigger] toks[k]).len() > 0 && no_ws(toks[k])
}

/// Space-joined tokens split back into the same tokens.
pub proof fn lemma_sep_join_tokens(toks: Seq<Seq<char>>)
    requires
        good_tokens(toks),
    ensures
        ws_tokens(sep_join(toks)) == toks,
    decreases toks.len(),
{
    if toks.len() == 0 {
        assert(ws_tokens(Seq::<char>::empty()) =~= toks);
    } else if toks.len() == 1 {
        lemma_ws_tokens_single(toks[0]);
        assert(seq![toks[0]] =~= toks);
    } else {
        let init = toks.drop_last();
        assert forall|k: int| 0 <= k < init.len() implies (#[trigger] init[k]).len() > 0 && no_ws(
            init[k],
        ) by {
            assert(init[k] == toks[k]);
        }
        lemma_sep_join_tokens(init);
        lemma_ws_tokens_split(sep_join(init), ' ', toks.last());
        assert(toks.last() == toks[toks.len() - 1]);
        lemma_ws_tokens_single(toks.last());
        assert(init + seq![toks.last()] =~= toks);
    }
}

/// One more token extends the joined prefix by a space and that token.
pub proof fn lemma_sep_join_step(toks: Seq<Seq<char>>, k: int)
    requires
        0 <= k,
        k + 1 < toks.len(),
    ensures
        sep_join(toks.take(k + 2)) == sep_join(toks.take(k + 1)) + seq![' '] + toks[k + 1],
{
    assert(toks.take(k + 2).drop_last() =~= toks.take(k + 1));
    assert(toks.take(k + 2).last() == toks[k + 1]);
}

/// A lone token is its own only token.
pub proof fn lemma_ws_tokens_single(t: Seq<char>)
    requires
        t.len() > 0,
        no_ws(t),
    ensures
        ws_tokens(t) == seq![t],
{
    lemma_token_len_run(t, t.len() as int);
    assert(t.take(t.len() as int) =~= t);
    assert(t.skip(t.len() as int) =~= Seq::<char>::empty());
    assert(ws_tokens(Seq::<char>::empty()) =~= Seq::<Seq<char>>::empty());
    assert(seq![t] + Seq::<Seq<char>>::empty() =~= seq![t]);
}

/// Trimming leaves a string without whitespace untouched.
pub proof fn lemma_trim_no_ws(t: Seq<char>)
    requires
        no_ws(t),
    ensures
        trim(t) == t,
{
    if t.len() > 0 {
        assert(!is_ws(t[0]));
        assert(!is_ws(t.last()));
    }
}

/// The characters of a string slice, as a vector.
pub fn chars_of(s: &str) -> (v: Vec<char>)
    ensures
        v@ == s@,
{
    let n = s.unicode_len();
    let mut v: Vec<char> = Vec::new();
    let mut i: usize = 0;
    while i < n
        invariant
            n == s@.len(),
            i <= n,
            v@ == s@.subrange(0, i as int),
        decreases n - i,
    {
        let c = s.get_char(i);
        v.push(c);
        i = i + 1;
        assert(v@ =~= s@.subrange(0, i as int));
    }
    assert(v@ =~= s@);
    v
}

/// Half-open ranges of the whitespace-separated tokens of `v`, in order.
pub fn ws_token_ranges(v: &Vec<char>) -> (r: Vec<(usize, usize)>)
    ensures
        r@.len() == ws_tokens(v@).len(),
        forall|k: int|
            0 <= k < r@.len() ==> {
                &&& (#[trigger] r@[k]).0 < r@[k].1 <= v@.len()
                &&& v@.subrange(r@[k].0 as int, r@[k].1 as int) == ws_tokens(v@)[k]
            },
{
    let n = v.len();
    let mut r: Vec<(usize, usize)> = Vec::new();
    let mut i: usize = 0;
    proof {
        assert(v@.skip(0) =~= v@);
        assert(Seq::new(0, |k: int| v@.subrange(r@[k].0 as int, r@[k].1 as int)) + ws_tokens(v@)
            =~= ws_tokens(v@));
    }
    while i < n
        invariant
            n == v@.len(),
            i <= n,
            ws_tokens(v@) == Seq::new(
                r@.len(),
                |k: int| v@.subrange(r@[k].0 as int, r@[k].1 as int),
            ) + ws_tokens(v@.skip(i as int)),
            forall|k: int| 0 <= k < r@.len() ==> (#[trigger] r@[k]).0 < r@[k].1 <= i,
        decreases n - i,
    {
        let ghost old_r = r@;
        let ghost rest = v@.skip(i as int);
        if is_ws_char(v[i]) {
            proof {
                assert(rest[0] == v@[i as int]);
                assert(rest.drop_first() =~= v@.skip(i + 1));
                lemma_ws_tokens_skip_ws(rest);
            }
            i = i + 1;
        } else {
            let start = i;
            while i < n && !is_ws_char(v[i])
                invariant
                    n == v@.len(),
                    start < i <= n || (start == i && i < n && !is_ws(v@[i as int])),
                    start <= i,
                    forall|k: int| start <= k < i ==> !is_ws(#[trigger] v@[k]),
                decreases n - i,
            {
                i = i + 1;
            }
            assert(i > start) by {
                if i == start {
                    assert(!is_ws(v@[i as int]));
                }
            }
            proof {
                assert forall|k: int| 0 <= k < i - start implies !is_ws(#[trigger] rest[k]) by {
                    assert(rest[k] == v@[start + k]);
                }
                if i < n {
                    assert(rest[i - start] == v@[i as int]);
                }
                lemma_token_len_run(rest, i - start);
                assert(rest[0] == v@[start as int]);
                assert(rest.take(i - start) =~= v@.subrange(start as int, i as int));
                assert(rest.skip(i - start) =~= v@.skip(i as int));
            }
            r.push((start, i));
            proof {
                let f = |k: int| v@.subrange(r@[k].0 as int, r@[k].1 as int);
                let g = |k: int| v@.subrange(old_r[k].0 as int, old_r[k].1 as int);
                assert(Seq::new(r@.len(), f) =~= Seq::new(old_r.len(), g) + seq![
                    v@.subrange(start as int, i as int),
                ]);
            }
        }
    }
    proof {
        assert(v@.skip(n as int) =~= Seq::<char>::empty());
        assert(ws_tokens(v@.skip(n as int)) =~= Seq::<Seq<char>>::empty());
    }
    r
}

// ---- trimming ------------------------------------------------------------------------

pub open spec fn trim_start(s: Seq<char>) -> Seq<char>
    decreases s.len(),
{
    if s.len() > 0 && is_ws(s[0]) {
        trim_start(s.drop_first())
    } else {
        s
    }
}

pub open spec fn trim_end(s: Seq<char>) -> Seq<char>
    decreases s.len(),
{
    if s.len() > 0 && is_ws(s.last()) {
        trim_end(s.drop_last())
    } else {
        s
    }
}

/// `str::trim`: both ends stripped of whitespace.
pub open spec fn trim(s: Seq<char>) -> Seq<char> {
    trim_end(trim_start(s))
}

proof fn lemma_trim_start_at(v: Seq<char>, lo: int, i: int, hi: int)
    requires
        0 <= lo <= i <= hi <= v.len(),
        forall|k: int| lo <= k < i ==> is_ws(#[trigger] v[k]),
        i == hi || !is_ws(v[i]),
    ensures
        trim_start(v.subrange(lo, hi)) == v.subrange(i, hi),
    decreases i - lo,
{
    let s = v.subrange(lo, hi);
    if lo < i {
        assert(s[0] == v[lo]);
        assert(s.drop_first() =~= v.subrange(lo + 1, hi));
        lemma_trim_start_at(v, lo + 1, i, hi);
    } else {
        if i < hi {
            assert(s[0] == v[i]);
        }
    }
}

proof fn lemma_trim_end_at(v: Seq<char>, lo: int, j: int, hi: int)
    requires
        0 <= lo <= j <= hi <= v.len(),
        forall|k: int| j <= k < hi ==> is_ws(#[trigger] v[k]),
        j == lo || !is_ws(v[j - 1]),
    ensures
        trim_end(v.subrange(lo, hi)) == v.subrange(lo, j),
    decreases hi - j,
{
    let s = v.subrange(lo, hi);
    if j < hi {
        assert(s.last() == v[hi - 1]);
        assert(s.drop_last() =~= v.subrange(lo, hi - 1));
        lemma_trim_end_at(v, lo, j, hi - 1);
    } else {
        if lo < j {
            assert(s.last() == v[j - 1]);
        }
    }
}

/// The range of `trim(v[lo..hi])` within `v`.
pub fn trim_range(v: &Vec<char>, lo: usize, hi: usize) -> (r: (usize, usize))
    requires
        lo <= hi <= v@.len(),
    ensures
        lo <= r.0 <= r.1 <= hi,
        v@.subrange(r.0 as int, r.1 as int) == trim(v@.subrange(lo as int, hi as int)),
{
    let mut i = lo;
    while i < hi && is_ws_char(v[i])
        invariant
            lo <= i <= hi <= v@.len(),
            forall|k: int| lo <= k < i ==> is_ws(#[trigger] v@[k]),
        decreases hi - i,
    {
        i = i + 1;
    }
    let mut j = hi;
    while j > i && is_ws_char(v[j - 1])
        invariant
            lo <= i <= j <= hi <= v@.len(),
            forall|k: int| j <= k < hi ==> is_ws(#[trigger] v@[k]),
        decreases j - i,
    {
        j = j - 1;
    }
    proof {
        lemma_trim_start_at(v@, lo as int, i as int, hi as int);
        if j == i {
            // everything from i on is whitespace, so the first loop ran to hi
            if i < hi {
                assert(is_ws(v@[i as int]));
            }
        }
        lemma_trim_end_at(v@, i as int, j as int, hi as int);
        assert(v@.subrange(i as int, hi as int) =~= v@.subrange(lo as int, hi as int).subrange(
            i - lo,
            hi - lo,
        ));
    }
    (i, j)
}

// ---- decimal integers ------------------------------------------------------------------

pub open spec fn is_digit(c: char) -> bool {
    '0' <= c <= '9'
}

pub open spec fn digit_val(c: char) -> int {
    c as int - '0' as int
}

pub open spec fn all_digits(s: Seq<char>) -> bool {
    forall|k: int| 0 <= k < s.len() ==> is_digit(#[trigger] s[k])
}

/// Value of a run of decimal digits, most significant first.
pub open spec fn digits_val(s: Seq<char>) -> int
    decreases s.len(),
{
    if s.len() == 0 {
        0
    } else {
        digits_val(s.drop_last()) * 10 + digit_val(s.last())
    }
}

/// What `str::parse` reads from an integer literal: an optional sign (`-` only for a
/// signed type), then one or more ASCII digits; anything else is an error. The range
/// check of the target type is separate.
pub open spec fn parse_int(s: Seq<char>, signed: bool) -> Option<int> {
    if s.len() > 0 && s[0] == '-' && signed {
        let b = s.drop_first();
        if b.len() > 0 && all_digits(b) {
            Some(-digits_val(b))
        } else {
            None
        }
    } else {
        let b = if s.len() > 0 && s[0] == '+' {
            s.drop_first()
        } else {
            s
        };
        if b.len() > 0 && all_digits(b) {
            Some(digits_val(b))
        } else {
            None
        }
    }
}

/// `str::parse::<T>()` for an integer type with range `lo..=hi`.
pub open spec fn parse_in(s: Seq<char>, signed: bool, lo: int, hi: int) -> Option<int> {
    match parse_int(s, signed) {
        Some(n) => if lo <= n <= hi {
            Some(n)
        } else {
            None
        },
        None => None,
    }
}

pub open spec fn parse_i32(s: Seq<char>) -> Option<i32> {
    match parse_in(s, true, i32::MIN as int, i32::MAX as int) {
        Some(n) => Some(n as i32),
        None => None,
    }
}

pub open spec fn parse_isize(s: Seq<char>) -> Option<isize> {
    match parse_in(s, true, isize::MIN as int, isize::MAX as int) {
        Some(n) => Some(n as isize),
        None => None,
    }
}

pub open spec fn parse_u32(s: Seq<char>) -> Option<u32> {
    match parse_in(s, false, 0, u32::MAX as int) {
        Some(n) => Some(n as u32),
        None => None,
    }
}

pub proof fn lemma_digits_val_nonneg(s: Seq<char>)
    requires
        all_digits(s),
    ensures
        digits_val(s) >= 0,
    decreases s.len(),
{
    if s.len() > 0 {
        lemma_digits_val_nonneg(s.drop_last());
    }
}

const BIG: u128 = 0x8000_0000_0000_0000u128;

/// Magnitude of the digit run `v[lo..hi]`, or `None` when it holds a non-digit, is empty,
/// or exceeds 2^63.
fn digits_magnitude(v: &Vec<char>, lo: usize, hi: usize) -> (r: Option<u128>)
    requires
        lo <= hi <= v@.len(),
    ensures
        ({
            let b = v@.subrange(lo as int, hi as int);
            match r {
                Some(m) => b.len() > 0 && all_digits(b) && m == digits_val(b) && m <= BIG,
                None => !(b.len() > 0 && all_digits(b)) || digits_val(b) > BIG,
            }
        }),
{
    if lo == hi {
        return None;
    }
    let mut acc: u128 = 0;
    let mut big = false;
    let mut i = lo;
    while i < hi
        invariant
            lo <= i <= hi <= v@.len(),
            all_digits(v@.subrange(lo as int, i as int)),
            !big ==> acc == digits_val(v@.subrange(lo as int, i as int)) && acc <= BIG,
            big ==> digits_val(v@.subrange(lo as int, i as int)) > BIG,
        decreases hi - i,
    {
        let c = v[i];
        if !('0' <= c && c <= '9') {
            proof {
                let b = v@.subrange(lo as int, hi as int);
                assert(b[i - lo] == c);
            }
            return None;
        }
        let d = (c as u32 - '0' as u32) as u128;
        proof {
            let p = v@.subrange(lo as int, i as int);
            let q = v@.subrange(lo as int, i + 1);
            assert(q.drop_last() =~= p);
            assert(q.last() == c);
            assert(all_digits(q)) by {
                assert forall|k: int| 0 <= k < q.len() implies is_digit(#[trigger] q[k]) by {
                    if k < p.len() {
                        assert(q[k] == p[k]);
                    }
                }
            }
            lemma_digits_val_nonneg(p);
        }
        if !big {
            if acc * 10 + d > BIG {
                big = true;
            } else {
                acc = acc * 10 + d;
            }
        }
        i = i + 1;
    }
    if big {
        None
    } else {
        Some(acc)
    }
}

/// Signed value of the integer literal `v[lo..hi]` when `str::parse` accepts it and its
/// magnitude is at most 2^63 (enough for every 64-bit and narrower type).
fn parse_int_range(v: &Vec<char>, lo: usize, hi: usize, signed: bool) -> (r: Option<i128>)
    requires
        lo <= hi <= v@.len(),
    ensures
        ({
            let p = parse_int(v@.subrange(lo as int, hi as int), signed);
            match r {
                Some(n) => p == Some(n as int),
                None => p is None || p.unwrap() > BIG || p.unwrap() < -BIG,
            }
        }),
{
    let ghost s = v@.subrange(lo as int, hi as int);
    if lo < hi && v[lo] == '-' && signed {
        proof {
            assert(s[0] == v@[lo as int]);
            assert(s.drop_first() =~= v@.subrange(lo + 1, hi as int));
        }
        match digits_magnitude(v, lo + 1, hi) {
            Some(m) => Some(-(m as i128)),
            None => None,
        }
    } else {
        let start = if lo < hi && v[lo] == '+' {
            lo + 1
        } else {
            lo
        };
        proof {
            if lo < hi {
                assert(s[0] == v@[lo as int]);
                assert(s.drop_first() =~= v@.subrange(lo + 1, hi as int));
            }
        }
        match digits_magnitude(v, start, hi) {
            Some(m) => Some(m as i128),
            None => None,
        }
    }
}

/// `v[lo..hi].parse::<i32>()`.
pub fn parse_i32_range(v: &Vec<char>, lo: usize, hi: usize) -> (r: Option<i32>)
    requires
        lo <= hi <= v@.len(),
    ensures
        r == parse_i32(v@.subrange(lo as int, hi as int)),
{
    match parse_int_range(v, lo, hi, true) {
        Some(n) => if i32::MIN as i128 <= n && n <= i32::MAX as i128 {
            Some(n as i32)
        } else {
            None
        },
        None => None,
    }
}

/// `v[lo..hi].parse::<isize>()`.
pub fn parse_isize_range(v: &Vec<char>, lo: usize, hi: usize) -> (r: Option<isize>)
    requires
        lo <= hi <= v@.len(),
    ensures
        r == parse_isize(v@.subrange(lo as int, hi as int)),
{
    match parse_int_range(v, lo, hi, true) {
        Some(n) => if isize::MIN as i128 <= n && n <= isize::MAX as i128 {
            Some(n as isize)
        } else {
            None
        },
        None => None,
    }
}

/// `v[lo..hi].parse::<u32>()`.
pub fn parse_u32_range(v: &Vec<char>, lo: usize, hi: usize) -> (r: Option<u32>)
    requires
        lo <= hi <= v@.len(),
    ensures
        r == parse_u32(v@.subrange(lo as int, hi as int)),
{
    match parse_int_range(v, lo, hi, false) {
        Some(n) => if 0 <= n && n <= u32::MAX as i128 {
            Some(n as u32)
        } else {
            None
        },
        None => None,
    }
}

// ---- decimal output ------------------------------------------------------------------------

pub open spec fn digit_char(d: int) -> char {
    (('0' as int) + d) as char
}

/// Canonical decimal digits of a natural number (no leading zeros; "0" for zero).
pub open spec fn nat_str(n: nat) -> Seq<char>
    decreases n,
{
    if n < 10 {
        seq![digit_char(n as int)]
    } else {
        nat_str(n / 10) + seq![digit_char((n % 10) as int)]
    }
}

/// Decimal form of an integer, as `ToString` writes it.
pub open spec fn int_str(n: int) -> Seq<char> {
    if n < 0 {
        seq!['-'] + nat_str((-n) as nat)
    } else {
        nat_str(n as nat)
    }
}

pub proof fn lemma_nat_str(n: nat)
    ensures
        nat_str(n).len() > 0,
        all_digits(nat_str(n)),
        digits_val(nat_str(n)) == n,
        no_ws(nat_str(n)),
    decreases n,
{
    assert forall|d: int| 0 <= d < 10 implies #[trigger] digit_val(digit_char(d)) == d && is_digit(
        digit_char(d),
    ) && !is_ws(digit_char(d)) by {}
    if n >= 10 {
        lemma_nat_str(n / 10);
        let s = nat_str(n);
        let p = nat_str(n / 10);
        assert(s.drop_last() =~= p);
        assert(s.last() == digit_char((n % 10) as int));
        assert(digit_val(s.last()) == n % 10);
        assert(digits_val(s) == digits_val(p) * 10 + digit_val(s.last()));
        assert(n == (n / 10) * 10 + n % 10);
        assert forall|k: int| 0 <= k < s.len() implies is_digit(#[trigger] s[k]) by {
            if k < p.len() {
                assert(s[k] == p[k]);
            }
        }
        assert forall|k: int| 0 <= k < s.len() implies !is_ws(#[trigger] s[k]) by {
            if k < p.len() {
                assert(s[k] == p[k]);
            }
        }
    } else {
        let s = nat_str(n);
        assert(s.drop_last() =~= Seq::<char>::empty());
        assert(s.last() == digit_char(n as int));
        assert(digit_val(s.last()) == n);
        assert(digits_val(s) == digits_val(s.drop_last()) * 10 + digit_val(s.last()));
    }
}

/// Reading back what was written gives the same integer.
pub proof fn lemma_parse_int_str(n: int, signed: bool)
    requires
        signed || n >= 0,
    ensures
        parse_int(int_str(n), signed) == Some(n),
        int_str(n).len() > 0,
        no_ws(int_str(n)),
{
    if n < 0 {
        let m = (-n) as nat;
        lemma_nat_str(m);
        let s = int_str(n);
        assert(s.drop_first() =~= nat_str(m));
        assert forall|k: int| 0 <= k < s.len() implies !is_ws(#[trigger] s[k]) by {
            if k > 0 {
                assert(s[k] == nat_str(m)[k - 1]);
            }
        }
    } else {
        lemma_nat_str(n as nat);
        assert(is_digit(nat_str(n as nat)[0]));
    }
}

/// A one-digit string literal.
fn digit_str(d: u8) -> (s: &'static str)
    requires
        d < 10,
    ensures
        s@ == seq![digit_char(d as int)],
{
    proof {
        reveal_strlit("0");
        reveal_strlit("1");
        reveal_strlit("2");
        reveal_strlit("3");
        reveal_strlit("4");
        reveal_strlit("5");
        reveal_strlit("6");
        reveal_strlit("7");
        reveal_strlit("8");
        reveal_strlit("9");
    }
    match d {
        0 => "0",
        1 => "1",
        2 => "2",
        3 => "3",
        4 => "4",
        5 => "5",
        6 => "6",
        7 => "7",
        8 => "8",
        _ => "9",
    }
}

fn push_nat(out: &mut String, n: u128)
    ensures
        final(out)@ == old(out)@ + nat_str(n as nat),
    decreases n,
{
    if n >= 10 {
        push_nat(out, n / 10);
    }
    let d = (n % 10) as u8;
    out.append(digit_str(d));
    proof {
        if n < 10 {
            assert(nat_str(n as nat) =~= seq![digit_char(d as int)]);
        }
    }
}

/// Appends the decimal form of `n`.
pub fn push_int(out: &mut String, n: i128)
    requires
        n > i128::MIN,
    ensures
        final(out)@ == old(out)@ + int_str(n as int),
{
    if n < 0 {
        proof {
            reveal_strlit("-");
        }
        out.append("-");
        push_nat(out, (-n) as u128);
        assert(final(out)@ =~= old(out)@ + int_str(n as int));
    } else {
        push_nat(out, n as u128);
    }
}

// ---- ASCII case folding --------------------------------------------------------------------

pub open spec fn ascii_lower(c: char) -> char {
    if 'A' <= c <= 'Z' {
        ((c as int) + 32) as char
    } else {
        c
    }
}

pub fn ascii_lower_char(c: char) -> (r: char)
    ensures
        r == ascii_lower(c),
{
    if 'A' <= c && c <= 'Z' {
        ((c as u32) + 32) as u8 as char
    } else {
        c
    }
}

/// `eq_ignore_ascii_case`.
pub open spec fn eq_ignore_ascii_case(a: Seq<char>, b: Seq<char>) -> bool {
    a.len() == b.len() && forall|k: int|
        0 <= k < a.len() ==> ascii_lower(#[trigger] a[k]) == ascii_lower(b[k])
}

pub fn eq_ignore_ascii_case_range(v: &Vec<char>, lo: usize, hi: usize, b: &Vec<char>) -> (r: bool)
    requires
        lo <= hi <= v@.len(),
    ensures
        r == eq_ignore_ascii_case(v@.subrange(lo as int, hi as int), b@),
{
    let ghost a = v@.subrange(lo as int, hi as int);
    if hi - lo != b.len() {
        return false;
    }
    let mut k: usize = 0;
    while k < b.len()
        invariant
            lo <= hi <= v@.len(),
            hi - lo == b@.len(),
            a == v@.subrange(lo as int, hi as int),
            k <= b@.len(),
            forall|j: int| 0 <= j < k ==> ascii_lower(#[trigger] a[j]) == ascii_lower(b@[j]),
        decreases b@.len() - k,
    {
        if ascii_lower_char(v[lo + k]) != ascii_lower_char(b[k]) {
            assert(a[k as int] == v@[lo + k]);
            return false;
        }
        assert(a[k as int] == v@[lo + k]);
        k = k + 1;
    }
    true
}

/// `s.to_ascii_lowercase().contains(p)` for an all-lowercase pattern `p`.
pub open spec fn contains_ignore_ascii_case(s: Seq<char>, p: Seq<char>) -> bool {
    exists|i: int|
        0 <= i && i + p.len() <= s.len() && #[trigger] eq_ignore_ascii_case(
            s.subrange(i, i + p.len()),
            p,
        )
}

pub fn contains_ignore_ascii_case_exec(v: &Vec<char>, p: &Vec<char>) -> (r: bool)
    ensures
        r == contains_ignore_ascii_case(v@, p@),
{
    if p.len() > v.len() {
        return false;
    }
    let mut i: usize = 0;
    let last = v.len() - p.len();
    while i <= last
        invariant
            v@.len() <= usize::MAX,
            p@.len() <= v@.len(),
            last == v@.len() - p@.len(),
            i <= last + 1,
            last + p@.len() == v@.len(),
            forall|j: int|
                0 <= j < i ==> !#[trigger] eq_ignore_ascii_case(
                    v@.subrange(j, j + p@.len()),
                    p@,
                ),
        decreases last + 1 - i,
    {
        if eq_ignore_ascii_case_range(v, i, i + p.len(), p) {
            return true;
        }
        i = i + 1;
    }
    false
}

/// `s.starts_with(prefix)`.
pub open spec fn starts_with(s: Seq<char>, prefix: Seq<char>) -> bool {
    prefix.len() <= s.len() && s.subrange(0, prefix.len() as int) == prefix
}

pub fn starts_with_exec(v: &Vec<char>, prefix: &Vec<char>) -> (r: bool)
    ensures
        r == starts_with(v@, prefix@),
{
    if prefix.len() > v.len() {
        return false;
    }
    let mut k: usize = 0;
    while k < prefix.len()
        invariant
            prefix@.len() <= v@.len(),
            k <= prefix@.len(),
            forall|j: int| 0 <= j < k ==> v@[j] == prefix@[j],
        decreases prefix@.len() - k,
    {
        if v[k] != prefix[k] {
            assert(v@.subrange(0, prefix@.len() as int)[k as int] == v@[k as int]);
            return false;
        }
        k = k + 1;
    }
    assert(v@.subrange(0, prefix@.len() as int) =~= prefix@);
    true
}

} // verus!
