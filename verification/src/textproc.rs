//! Line splitting, whitespace trimming and number parsing with the
//! behaviour of `str::lines`, `str::trim`, `str::split_whitespace` and
//! `u32`/`u64` parsing.

use vstd::prelude::*;

use crate::text::{push_char, str_eq};

verus! {

/// Unicode `White_Space`, as `char::is_whitespace` tests it.
pub open spec fn is_ws(c: char) -> bool {
    let u = c as u32;
    (9 <= u && u <= 13) || u == 32 || u == 0x85 || u == 0xA0 || u == 0x1680 || (0x2000 <= u && u
        <= 0x200A) || u == 0x2028 || u == 0x2029 || u == 0x202F || u == 0x205F || u == 0x3000
}

/// `c` is white space.
pub fn is_ws_exec(c: char) -> (b: bool)
    ensures
        b == is_ws(c),
{
    let u = c as u32;
    (9 <= u && u <= 13) || u == 32 || u == 0x85 || u == 0xA0 || u == 0x1680 || (0x2000 <= u && u
        <= 0x200A) || u == 0x2028 || u == 0x2029 || u == 0x202F || u == 0x205F || u == 0x3000
}

/// `s` without leading white space.
pub open spec fn trim_start(s: Seq<char>) -> Seq<char>
    decreases s.len(),
{
    if s.len() > 0 && is_ws(s[0]) {
        trim_start(s.drop_first())
    } else {
        s
    }
}

/// `s` without trailing white space.
pub open spec fn trim_end(s: Seq<char>) -> Seq<char>
    decreases s.len(),
{
    if s.len() > 0 && is_ws(s.last()) {
        trim_end(s.drop_last())
    } else {
        s
    }
}

/// `s` without leading or trailing white space.
pub open spec fn trim(s: Seq<char>) -> Seq<char> {
    trim_end(trim_start(s))
}

proof fn lemma_trim_start_at(s: Seq<char>, a: int)
    requires
        0 <= a <= s.len(),
        forall|k: int| 0 <= k < a ==> is_ws(#[trigger] s[k]),
        a == s.len() || !is_ws(s[a]),
    ensures
        trim_start(s) == s.subrange(a, s.len() as int),
    decreases a,
{
    if a == 0 {
        assert(s.subrange(0, s.len() as int) =~= s);
    } else {
        let t = s.drop_first();
        assert forall|k: int| 0 <= k < a - 1 implies is_ws(#[trigger] t[k]) by {
            assert(t[k] == s[k + 1]);
        }
        if a - 1 < t.len() {
            assert(t[a - 1] == s[a]);
        }
        lemma_trim_start_at(t, a - 1);
        assert(t.subrange(a - 1, t.len() as int) =~= s.subrange(a, s.len() as int));
    }
}

proof fn lemma_trim_end_at(s: Seq<char>, b: int)
    requires
        0 <= b <= s.len(),
        forall|k: int| b <= k < s.len() ==> is_ws(#[trigger] s[k]),
        b == 0 || !is_ws(s[b - 1]),
    ensures
        trim_end(s) == s.subrange(0, b),
    decreases s.len() - b,
{
    if b == s.len() {
        assert(s.subrange(0, b) =~= s);
    } else {
        let t = s.drop_last();
        assert forall|k: int| b <= k < t.len() implies is_ws(#[trigger] t[k]) by {
            assert(t[k] == s[k]);
        }
        if b > 0 {
            assert(t[b - 1] == s[b - 1]);
        }
        lemma_trim_end_at(t, b);
        assert(t.subrange(0, b) =~= s.subrange(0, b));
    }
}

/// The characters of `s`.
pub fn chars_of(s: &str) -> (v: Vec<char>)
    ensures
        v@ == s@,
{
    let n = s.unicode_len();
    let mut v: Vec<char> = Vec::new();
    let mut i: usize = 0;
    while i < n
        invariant
            n == s@.len(),
            i <= n,
            v@ == s@.take(i as int),
        decreases n - i,
    {
        v.push(s.get_char(i));
        assert(v@ =~= s@.take(i + 1));
        i += 1;
    }
    assert(s@.take(n as int) =~= s@);
    v
}

/// The string of `v[a..b]`.
pub fn string_of(v: &Vec<char>, a: usize, b: usize) -> (s: String)
    requires
        a <= b <= v@.len(),
    ensures
        s@ == v@.subrange(a as int, b as int),
{
    let mut s = String::new();
    let mut i = a;
    while i < b
        invariant
            a <= i <= b,
            b <= v@.len(),
            s@ == v@.subrange(a as int, i as int),
        decreases b - i,
    {
        push_char(&mut s, v[i]);
        assert(s@ =~= v@.subrange(a as int, i + 1));
        i += 1;
    }
    s
}

/// The bounds of `v[a..b]` without leading and trailing white space.
pub fn trim_bounds(v: &Vec<char>, a: usize, b: usize) -> (r: (usize, usize))
    requires
        a <= b <= v@.len(),
    ensures
        a <= r.0 <= r.1 <= b,
        v@.subrange(r.0 as int, r.1 as int) == trim(v@.subrange(a as int, b as int)),
{
    let ghost s = v@.subrange(a as int, b as int);
    let mut x = a;
    while x < b && is_ws_exec(v[x])
        invariant
            a <= x <= b,
            b <= v@.len(),
            forall|k: int| a <= k < x ==> is_ws(#[trigger] v@[k]),
        decreases b - x,
    {
        x += 1;
    }
    proof {
        assert forall|k: int| 0 <= k < x - a implies is_ws(#[trigger] s[k]) by {
            assert(s[k] == v@[a + k]);
        }
        if x < b {
            assert(s[x - a] == v@[x as int]);
        }
        lemma_trim_start_at(s, x - a);
        assert(s.subrange(x - a, s.len() as int) =~= v@.subrange(x as int, b as int));
    }
    let ghost t = v@.subrange(x as int, b as int);
    let mut y = b;
    while y > x && is_ws_exec(v[y - 1])
        invariant
            a <= x <= y <= b,
            b <= v@.len(),
            forall|k: int| y <= k < b ==> is_ws(#[trigger] v@[k]),
        decreases y - x,
    {
        y -= 1;
    }
    proof {
        assert forall|k: int| y - x <= k < t.len() implies is_ws(#[trigger] t[k]) by {
            assert(t[k] == v@[x + k]);
        }
        if y > x {
            assert(t[y - x - 1] == v@[y - 1]);
        }
        lemma_trim_end_at(t, y - x);
        assert(t.subrange(0, y - x) =~= v@.subrange(x as int, y as int));
    }
    (x, y)
}

/// `s` without leading or trailing white space.
pub fn trim_str(s: &str) -> (r: String)
    ensures
        r@ == trim(s@),
{
    let v = chars_of(s);
    let (x, y) = trim_bounds(&v, 0, v.len());
    assert(v@.subrange(0, v@.len() as int) =~= v@);
    string_of(&v, x, y)
}

// ---------------------------------------------------------------------------
// Lines
// ---------------------------------------------------------------------------

/// The index of the first `c` in `s`, or its length when there is none.
pub open spec fn first_index(s: Seq<char>, c: char) -> int
    decreases s.len(),
{
    if s.len() == 0 {
        0
    } else if s[0] == c {
        0
    } else {
        1 + first_index(s.drop_first(), c)
    }
}

pub proof fn lemma_first_index_bounds(s: Seq<char>, c: char)
    ensures
        0 <= first_index(s, c) <= s.len(),
        first_index(s, c) < s.len() ==> s[first_index(s, c)] == c,
        forall|k: int| 0 <= k < first_index(s, c) ==> s[k] != c,
    decreases s.len(),
{
    if s.len() > 0 && s[0] != c {
        lemma_first_index_bounds(s.drop_first(), c);
        assert forall|k: int| 0 <= k < first_index(s, c) implies s[k] != c by {
            if k > 0 {
                assert(s[k] == s.drop_first()[k - 1]);
            }
        }
    }
}

/// The first index of `c` in `p + t`, when `p` has no `c`.
pub proof fn lemma_first_index_concat(p: Seq<char>, t: Seq<char>, c: char)
    requires
        forall|k: int| 0 <= k < p.len() ==> p[k] != c,
    ensures
        first_index(p + t, c) == p.len() + first_index(t, c),
    decreases p.len(),
{
    if p.len() > 0 {
        assert((p + t).drop_first() =~= p.drop_first() + t);
        lemma_first_index_concat(p.drop_first(), t, c);
    } else {
        assert(p + t =~= t);
    }
}

/// The index of the first `c` in `v` at or after `from`, or the length
/// of `v`.
pub fn find_char(v: &Vec<char>, from: usize, c: char) -> (i: usize)
    requires
        from <= v@.len(),
    ensures
        i == from + first_index(v@.skip(from as int), c),
        from <= i <= v@.len(),
{
    let n = v.len();
    let mut i = from;
    while i < n && v[i] != c
        invariant
            n == v@.len(),
            from <= i <= n,
            forall|k: int| from <= k < i ==> v@[k] != c,
        decreases n - i,
    {
        i += 1;
    }
    proof {
        let p = v@.subrange(from as int, i as int);
        let t = v@.skip(i as int);
        assert(v@.skip(from as int) =~= p + t);
        lemma_first_index_concat(p, t, c);
    }
    i
}

/// `line` without one trailing carriage return.
pub open spec fn strip_cr(line: Seq<char>) -> Seq<char> {
    if line.len() > 0 && line.last() == '\r' {
        line.drop_last()
    } else {
        line
    }
}

/// The lines of `s` as `str::lines` gives them: split at each `\n`, a `\r`
/// just before a `\n` dropped, and no empty last line after a final `\n`.
pub open spec fn split_lines(s: Seq<char>) -> Seq<Seq<char>>
    decreases s.len(),
{
    if s.len() == 0 {
        seq![]
    } else {
        let i = first_index(s, '\n');
        if i >= s.len() {
            seq![s]
        } else {
            proof {
                lemma_first_index_bounds(s, '\n');
            }
            seq![strip_cr(s.take(i))] + split_lines(s.skip(i + 1))
        }
    }
}

/// Text that ends a line splits into its lines followed by those of
/// whatever comes after it.
pub proof fn lemma_split_lines_concat(a: Seq<char>, b: Seq<char>)
    requires
        a.len() == 0 || a.last() == '\n',
    ensures
        split_lines(a + b) == split_lines(a) + split_lines(b),
    decreases a.len(),
{
    if a.len() == 0 {
        assert(a + b =~= b);
        assert(split_lines(a) + split_lines(b) =~= split_lines(b));
    } else {
        lemma_first_index_bounds(a, '\n');
        let i = first_index(a, '\n');
        if i >= a.len() {
            assert(a[a.len() - 1] != '\n');
        }
        let p = a.take(i);
        let t = a.skip(i) + b;
        assert(a + b =~= p + t);
        lemma_first_index_concat(p, t, '\n');
        assert(t[0] == '\n');
        assert(first_index(a + b, '\n') == i);
        assert((a + b).take(i) =~= p);
        assert((a + b).skip(i + 1) =~= a.skip(i + 1) + b);
        lemma_split_lines_concat(a.skip(i + 1), b);
        assert(split_lines(a + b) =~= split_lines(a) + split_lines(b));
    }
}

/// A text of one line and its newline is that one line, less a final
/// carriage return.
pub proof fn lemma_split_one_line(l: Seq<char>)
    requires
        forall|k: int| 0 <= k < l.len() ==> l[k] != '\n',
    ensures
        split_lines(l + seq!['\n']) == seq![strip_cr(l)],
{
    let s = l + seq!['\n'];
    lemma_first_index_concat(l, seq!['\n'], '\n');
    assert(first_index(seq!['\n'], '\n') == 0);
    assert(s.take(l.len() as int) =~= l);
    assert(first_index(s, '\n') == l.len());
    assert(s.skip(l.len() as int + 1) =~= Seq::<char>::empty());
    assert(split_lines(Seq::<char>::empty()) =~= Seq::<Seq<char>>::empty());
    assert(split_lines(s) =~= seq![strip_cr(s.take(l.len() as int))] + split_lines(s.skip(l.len() as int + 1)));
    assert(split_lines(s) =~= seq![strip_cr(l)]);
}

/// The characters of each string.
pub open spec fn string_views(s: Seq<String>) -> Seq<Seq<char>> {
    s.map_values(|x: String| x@)
}

/// The lines of `s`.
pub fn lines_of(s: &str) -> (v: Vec<String>)
    ensures
        string_views(v@) == split_lines(s@),
{
    let chars = chars_of(s);
    let n = chars.len();
    let mut out: Vec<String> = Vec::new();
    let mut start: usize = 0;
    let mut i: usize = 0;
    assert(s@.skip(0) =~= s@);
    while i < n
        invariant
            n == chars@.len(),
            chars@ == s@,
            start <= i <= n,
            forall|k: int| start <= k < i ==> chars@[k] != '\n',
            string_views(out@) + split_lines(chars@.subrange(start as int, i as int) + chars@.skip(i as int))
                == split_lines(s@),
        decreases n - i,
    {
        let ghost cur = chars@.subrange(start as int, i as int);
        if chars[i] == '\n' {
            let ghost whole = cur + chars@.skip(i as int);
            proof {
                assert(chars@.skip(i as int)[0] == '\n');
                lemma_first_index_concat(cur, chars@.skip(i as int), '\n');
                assert(first_index(whole, '\n') == cur.len());
                assert(whole.take(cur.len() as int) =~= cur);
                assert(whole.skip(cur.len() as int + 1) =~= chars@.skip(i + 1));
                assert(split_lines(whole) == seq![strip_cr(cur)] + split_lines(chars@.skip(i + 1)));
            }
            let mut end = i;
            if end > start && chars[end - 1] == '\r' {
                end = end - 1;
            }
            let line = string_of(&chars, start, end);
            proof {
                assert(line@ == strip_cr(cur));
            }
            let ghost before = out@;
            out.push(line);
            proof {
                assert(string_views(out@) =~= string_views(before).push(strip_cr(cur)));
                assert(chars@.subrange(i + 1, i + 1) + chars@.skip(i + 1) =~= chars@.skip(i + 1));
                assert(string_views(out@) + split_lines(chars@.skip(i + 1)) =~= string_views(before) + (
                seq![strip_cr(cur)] + split_lines(chars@.skip(i + 1))));
            }
            start = i + 1;
        } else {
            assert(cur + chars@.skip(i as int) =~= chars@.subrange(start as int, i + 1) + chars@.skip(i + 1));
        }
        i += 1;
    }
    let ghost cur = chars@.subrange(start as int, n as int);
    proof {
        assert(chars@.skip(n as int) =~= Seq::<char>::empty());
        assert(cur + chars@.skip(n as int) =~= cur);
        lemma_first_index_concat(cur, Seq::<char>::empty(), '\n');
    }
    if start < n {
        let line = string_of(&chars, start, n);
        let ghost before = out@;
        out.push(line);
        assert(string_views(out@) =~= string_views(before) + seq![cur]);
    } else {
        assert(string_views(out@) =~= string_views(out@) + split_lines(cur));
    }
    out
}

// ---------------------------------------------------------------------------
// Numbers
// ---------------------------------------------------------------------------

/// The value of the decimal digits `s`.
pub open spec fn digits_value(s: Seq<char>) -> nat
    decreases s.len(),
{
    if s.len() == 0 {
        0
    } else {
        digits_value(s.drop_last()) * 10 + ((s.last() as u32) - ('0' as u32)) as nat
    }
}

/// `s` is one or more decimal digits.
pub open spec fn all_digits(s: Seq<char>) -> bool {
    s.len() > 0 && forall|i: int| 0 <= i < s.len() ==> '0' <= #[trigger] s[i] && s[i] <= '9'
}

/// The unsigned number that `s` spells, as `str::parse` reads it: an
/// optional `+`, then one or more decimal digits.
pub open spec fn unsigned_text(s: Seq<char>) -> Option<nat> {
    let d = if s.len() > 0 && s[0] == '+' {
        s.drop_first()
    } else {
        s
    };
    if all_digits(d) {
        Some(digits_value(d))
    } else {
        None
    }
}

/// The `u64` that `s` spells, or `None` when it spells none or one too
/// large.
pub fn parse_u64(s: &str) -> (r: Option<u64>)
    ensures
        match unsigned_text(s@) {
            Some(v) => if v <= u64::MAX {
                r == Some(v as u64)
            } else {
                r is None
            },
            None => r is None,
        },
{
    let chars = chars_of(s);
    let n = chars.len();
    let start: usize = if n > 0 && chars[0] == '+' {
        1
    } else {
        0
    };
    let ghost d = if s@.len() > 0 && s@[0] == '+' {
        s@.drop_first()
    } else {
        s@
    };
    assert(d =~= chars@.subrange(start as int, n as int));
    if start >= n {
        return None;
    }
    let mut value: u64 = 0;
    let mut overflow = false;
    let mut i = start;
    while i < n
        invariant
            start < n,
            n == chars@.len(),
            chars@ == s@,
            d == (if s@.len() > 0 && s@[0] == '+' {
                s@.drop_first()
            } else {
                s@
            }),
            d == chars@.subrange(start as int, n as int),
            start <= i <= n,
            forall|k: int| start <= k < i ==> '0' <= #[trigger] chars@[k] && chars@[k] <= '9',
            !overflow ==> value == digits_value(chars@.subrange(start as int, i as int)),
            overflow ==> digits_value(chars@.subrange(start as int, i as int)) > u64::MAX,
        decreases n - i,
    {
        let c = chars[i];
        if c < '0' || c > '9' {
            assert(d[i - start] == c);
            assert(!('0' <= d[i - start] && d[i - start] <= '9'));
            assert(!all_digits(d));
            return None;
        }
        let digit = (c as u32 - '0' as u32) as u64;
        let ghost prev = chars@.subrange(start as int, i as int);
        let ghost next = chars@.subrange(start as int, i + 1);
        assert(next.drop_last() =~= prev);
        assert(next.last() == c);
        assert(digits_value(next) == digits_value(prev) * 10 + digit);
        if !overflow {
            if value > (u64::MAX - digit) / 10 {
                overflow = true;
                assert(digits_value(next) > u64::MAX) by (nonlinear_arith)
                    requires
                        digits_value(next) == value * 10 + digit,
                        value > (u64::MAX - digit) / 10,
                        digit <= 9,
                ;
            } else {
                assert(value * 10 + digit <= u64::MAX) by (nonlinear_arith)
                    requires
                        value <= (u64::MAX - digit) / 10,
                        digit <= 9,
                ;
                value = value * 10 + digit;
            }
        } else {
            assert(digits_value(next) >= digits_value(prev)) by (nonlinear_arith)
                requires
                    digits_value(next) == digits_value(prev) * 10 + digit,
            ;
        }
        i += 1;
    }
    assert(chars@.subrange(start as int, n as int) =~= d);
    if overflow {
        None
    } else {
        Some(value)
    }
}

/// The `u32` that `s` spells, or `None` when it spells none or one too
/// large.
pub fn parse_u32(s: &str) -> (r: Option<u32>)
    ensures
        match unsigned_text(s@) {
            Some(v) => if v <= u32::MAX {
                r == Some(v as u32)
            } else {
                r is None
            },
            None => r is None,
        },
{
    match parse_u64(s) {
        Some(v) => {
            if v <= u32::MAX as u64 {
                Some(v as u32)
            } else {
                None
            }
        },
        None => {
            proof {
                if unsigned_text(s@) is Some {
                    assert(unsigned_text(s@).unwrap() > u64::MAX);
                }
            }
            None
        },
    }
}

} // verus!

verus! {

/// Trimming the front never lengthens.
pub proof fn lemma_trim_start_len(s: Seq<char>)
    ensures
        trim_start(s).len() <= s.len(),
        trim_start(s).len() > 0 ==> !is_ws(trim_start(s)[0]),
        exists|a: int| 0 <= a <= s.len() && trim_start(s) == s.skip(a),
    decreases s.len(),
{
    if s.len() > 0 && is_ws(s[0]) {
        lemma_trim_start_len(s.drop_first());
        let a = choose|a: int| 0 <= a <= s.drop_first().len() && trim_start(s.drop_first()) == s.drop_first().skip(a);
        assert(s.drop_first().skip(a) =~= s.skip(a + 1));
    } else {
        assert(s.skip(0) =~= s);
    }
}

/// The index of the first white space in `s`, or its length.
pub open spec fn first_ws(s: Seq<char>) -> int
    decreases s.len(),
{
    if s.len() == 0 {
        0
    } else if is_ws(s[0]) {
        0
    } else {
        1 + first_ws(s.drop_first())
    }
}

pub proof fn lemma_first_ws_bounds(s: Seq<char>)
    ensures
        0 <= first_ws(s) <= s.len(),
        first_ws(s) < s.len() ==> is_ws(s[first_ws(s)]),
        forall|k: int| 0 <= k < first_ws(s) ==> !is_ws(#[trigger] s[k]),
    decreases s.len(),
{
    if s.len() > 0 && !is_ws(s[0]) {
        lemma_first_ws_bounds(s.drop_first());
        assert forall|k: int| 0 <= k < first_ws(s) implies !is_ws(#[trigger] s[k]) by {
            if k > 0 {
                assert(s[k] == s.drop_first()[k - 1]);
            }
        }
    }
}

/// The words of `s` as `str::split_whitespace` gives them: the maximal runs
/// of characters that are not white space.
pub open spec fn words(s: Seq<char>) -> Seq<Seq<char>>
    decreases s.len(),
{
    let t = trim_start(s);
    if t.len() == 0 {
        seq![]
    } else {
        proof {
            lemma_trim_start_len(s);
            lemma_first_ws_bounds(t);
        }
        let e = first_ws(t);
        seq![t.take(e)] + words(t.skip(e))
    }
}

/// The `n`-th word of `s`, if it has one.
pub fn nth_word(s: &str, n: usize) -> (r: Option<String>)
    ensures
        match r {
            Some(w) => n < words(s@).len() && w@ == words(s@)[n as int],
            None => n >= words(s@).len(),
        },
{
    let chars = chars_of(s);
    let len = chars.len();
    let mut i: usize = 0;
    let mut k: usize = 0;
    assert(chars@.skip(0) =~= s@);
    while true
        invariant
            len == chars@.len(),
            i <= len,
            chars@ == s@,
            k <= n,
            words(s@).len() >= k,
            words(s@).skip(k as int) == words(chars@.skip(i as int)),
        decreases len - i,
    {
        // Skip white space.
        let ghost rest = chars@.skip(i as int);
        let mut a = i;
        while a < len && is_ws_exec(chars[a])
            invariant
                i <= a <= len,
                len == chars@.len(),
                forall|x: int| i <= x < a ==> is_ws(#[trigger] chars@[x]),
            decreases len - a,
        {
            a += 1;
        }
        proof {
            let t = chars@.skip(i as int);
            assert forall|x: int| 0 <= x < a - i implies is_ws(#[trigger] t[x]) by {
                assert(t[x] == chars@[i + x]);
            }
            if a < len {
                assert(t[a - i] == chars@[a as int]);
            }
            lemma_trim_start_at(t, a - i);
            assert(t.subrange(a - i, t.len() as int) =~= chars@.skip(a as int));
        }
        if a == len {
            proof {
                assert(chars@.skip(a as int).len() == 0);
                assert(words(chars@.skip(i as int)) =~= Seq::<Seq<char>>::empty());
                assert(words(s@).skip(k as int).len() == 0);
            }
            return None;
        }
        let mut b = a;
        while b < len && !is_ws_exec(chars[b])
            invariant
                a <= b <= len,
                len == chars@.len(),
                forall|x: int| a <= x < b ==> !is_ws(#[trigger] chars@[x]),
            decreases len - b,
        {
            b += 1;
        }
        let ghost t = chars@.skip(a as int);
        proof {
            assert(t[0] == chars@[a as int]);
            lemma_first_ws_bounds(t);
            let e = first_ws(t);
            assert forall|x: int| 0 <= x < b - a implies !is_ws(#[trigger] t[x]) by {
                assert(t[x] == chars@[a + x]);
            }
            if b < len {
                assert(t[b - a] == chars@[b as int]);
            }
            if e < b - a {
                assert(!is_ws(t[e]));
            }
            if e > b - a {
                assert(!is_ws(t[b - a]));
            }
            assert(e == b - a);
            assert(words(chars@.skip(i as int)) == seq![t.take(e)] + words(t.skip(e)));
            assert(t.skip(e) =~= chars@.skip(b as int));
            assert(t.take(e) =~= chars@.subrange(a as int, b as int));
            assert(words(s@).skip(k as int)[0] == words(s@)[k as int]);
            assert(words(s@).skip(k + 1) =~= words(s@).skip(k as int).drop_first());
        }
        if k == n {
            let w = string_of(&chars, a, b);
            return Some(w);
        }
        k += 1;
        i = b;
    }
    None
}

} // verus!
