use vstd::prelude::*;
use chrono::Datelike;
use crate::text::{chars_of, string_of, concat, starts_with};

verus! {

// ---------------------------------------------------------------------------
// Digits and decimal numbers
// ---------------------------------------------------------------------------

pub open spec fn is_ascii_digit(c: char) -> bool {
    48 <= (c as u32) <= 57
}

pub open spec fn all_digits(s: Seq<char>) -> bool {
    forall|k: int| 0 <= k < s.len() ==> is_ascii_digit(#[trigger] s[k])
}

pub open spec fn digit_value(c: char) -> int {
    (c as u32) - 48
}

/// The value of a run of decimal digits.
pub open spec fn decimal_value(ds: Seq<char>) -> int
    decreases ds.len(),
{
    if ds.len() == 0 {
        0
    } else {
        decimal_value(ds.drop_last()) * 10 + digit_value(ds.last())
    }
}

pub open spec fn digit_char(d: int) -> char {
    if d == 0 { '0' } else if d == 1 { '1' } else if d == 2 { '2' } else if d == 3 { '3' }
    else if d == 4 { '4' } else if d == 5 { '5' } else if d == 6 { '6' } else if d == 7 { '7' }
    else if d == 8 { '8' } else { '9' }
}

/// The decimal digits of `n`, most significant first, without leading zeros.
pub open spec fn nat_digits(n: nat) -> Seq<char>
    decreases n,
{
    if n < 10 {
        seq![digit_char(n as int)]
    } else {
        nat_digits(n / 10).push(digit_char((n % 10) as int))
    }
}

/// The text of a signed integer, as `{}` formats it.
pub open spec fn spec_int_text(i: int) -> Seq<char> {
    if i < 0 {
        seq!['-'] + nat_digits((-i) as nat)
    } else {
        nat_digits(i as nat)
    }
}

/// `s` without one leading `+` or `-`.
pub open spec fn unsigned_part(s: Seq<char>) -> Seq<char> {
    if s.len() > 0 && (s[0] == '+' || s[0] == '-') {
        s.skip(1)
    } else {
        s
    }
}

pub open spec fn is_negative(s: Seq<char>) -> bool {
    s.len() > 0 && s[0] == '-'
}

/// What `str::parse::<i32>` returns: an optional sign, then one or more ASCII
/// digits whose signed value fits in an `i32`.
pub open spec fn spec_parse_i32(s: Seq<char>) -> Option<i32> {
    let ds = unsigned_part(s);
    if ds.len() == 0 || !all_digits(ds) {
        None
    } else {
        let v = if is_negative(s) { -decimal_value(ds) } else { decimal_value(ds) };
        if i32::MIN <= v <= i32::MAX {
            Some(v as i32)
        } else {
            None
        }
    }
}

pub fn is_digit_char(c: char) -> (r: bool)
    ensures
        r == is_ascii_digit(c),
{
    let u = c as u32;
    48 <= u && u <= 57
}

/// Parses a decimal `i32` as `str::parse::<i32>` does.
pub fn parse_i32(cs: &[char]) -> (r: Option<i32>)
    ensures
        r == spec_parse_i32(cs@),
{
    let ghost s = cs@;
    let mut i: usize = 0;
    let mut neg = false;
    if cs.len() > 0 && (cs[0] == '+' || cs[0] == '-') {
        neg = cs[0] == '-';
        i = 1;
    }
    let start = i;
    let ghost ds = unsigned_part(s);
    assert(ds == cs@.skip(start as int));
    assert(neg == is_negative(s));
    if i == cs.len() {
        return None;
    }
    let mut v: u64 = 0;
    let mut big = false;
    while i < cs.len()
        invariant
            start <= i <= cs.len(),
            s == cs@,
            ds == unsigned_part(s),
            neg == is_negative(s),
            ds == cs@.skip(start as int),
            all_digits(ds.take(i - start)),
            big ==> decimal_value(ds.take(i - start)) > 2147483648,
            !big ==> v == decimal_value(ds.take(i - start)) && v <= 2147483648,
        decreases cs.len() - i,
    {
        let c = cs[i];
        if !is_digit_char(c) {
            assert(ds[i - start] == c);
            assert(!is_ascii_digit(ds[i - start]));
            return None;
        }
        let ghost prev = ds.take(i - start);
        proof {
            assert(ds.take(i - start + 1).drop_last() == prev);
            assert(ds.take(i - start + 1).last() == c);
        }
        if !big {
            let d = (c as u32 - 48) as u64;
            v = v * 10 + d;
            if v > 2147483648 {
                big = true;
            }
        }
        i = i + 1;
    }
    assert(ds.take(i - start) == ds);
    if big {
        None
    } else if neg {
        let m = v as i64;
        Some((-m) as i32)
    } else if v <= 2147483647 {
        Some(v as i32)
    } else {
        None
    }
}

/// The decimal digits of `n`.
pub fn nat_chars(n: u64) -> (v: Vec<char>)
    ensures
        v@ == nat_digits(n as nat),
{
    let ghost n0 = n as nat;
    let mut m: u64 = n;
    let mut rev: Vec<char> = Vec::new();
    while m >= 10
        invariant
            nat_digits(n0) == nat_digits(m as nat) + rev@.reverse(),
        decreases m,
    {
        let d = m % 10;
        let ch = digit_of(d);
        proof {
            assert(nat_digits(m as nat) == nat_digits((m / 10) as nat).push(digit_char((m % 10) as int)));
            assert(rev@.push(ch).reverse() == seq![ch] + rev@.reverse());
            assert(nat_digits((m / 10) as nat).push(ch) + rev@.reverse() == nat_digits((m / 10) as nat) + (seq![ch] + rev@.reverse()));
        }
        rev.push(ch);
        m = m / 10;
    }
    let mut out: Vec<char> = Vec::new();
    out.push(digit_of(m));
    let ghost head = out@;
    let mut k: usize = rev.len();
    while k > 0
        invariant
            k <= rev.len(),
            out@ == head + rev@.subrange(k as int, rev.len() as int).reverse(),
        decreases k,
    {
        k = k - 1;
        proof {
            assert(rev@.subrange(k as int, rev.len() as int) == seq![rev@[k as int]] + rev@.subrange(k + 1, rev.len() as int));
            assert((seq![rev@[k as int]] + rev@.subrange(k + 1, rev.len() as int)).reverse()
                == rev@.subrange(k + 1, rev.len() as int).reverse().push(rev@[k as int]));
        }
        out.push(rev[k]);
    }
    assert(rev@.subrange(0, rev.len() as int) == rev@);
    assert(nat_digits(m as nat) == seq![digit_char(m as int)]);
    out
}

/// Appends the characters of `src` to `dst`.
pub fn push_chars(dst: &mut Vec<char>, src: &Vec<char>)
    ensures
        final(dst)@ == old(dst)@ + src@,
{
    let mut k: usize = 0;
    while k < src.len()
        invariant
            k <= src.len(),
            dst@ == old(dst)@ + src@.take(k as int),
        decreases src.len() - k,
    {
        dst.push(src[k]);
        k = k + 1;
        assert(src@.take(k as int) == src@.take(k - 1).push(src@[k - 1]));
    }
    assert(src@.take(src.len() as int) == src@);
}

/// The decimal text of an `i32`, as `{}` writes it.
pub fn int_text(i: i32) -> (s: String)
    ensures
        s@ == spec_int_text(i as int),
{
    let neg = i < 0;
    let n: u64 = if neg { (-(i as i64)) as u64 } else { i as u64 };
    let digits = nat_chars(n);
    let mut out: Vec<char> = Vec::new();
    if neg {
        out.push('-');
    }
    push_chars(&mut out, &digits);
    proof {
        if neg {
            assert(out@ == seq!['-'] + nat_digits(n as nat));
        } else {
            assert(out@ == nat_digits(n as nat));
        }
    }
    string_of(out.as_slice())
}

fn digit_of(d: u64) -> (c: char)
    requires
        d < 10,
    ensures
        c == digit_char(d as int),
{
    if d == 0 { '0' } else if d == 1 { '1' } else if d == 2 { '2' } else if d == 3 { '3' }
    else if d == 4 { '4' } else if d == 5 { '5' } else if d == 6 { '6' } else if d == 7 { '7' }
    else if d == 8 { '8' } else { '9' }
}

proof fn lemma_digit_char(d: int)
    requires
        0 <= d < 10,
    ensures
        digit_value(digit_char(d)) == d,
        is_ascii_digit(digit_char(d)),
{
    assert('0' as u32 == 48 && '1' as u32 == 49 && '2' as u32 == 50 && '3' as u32 == 51 && '4' as u32 == 52);
    assert('5' as u32 == 53 && '6' as u32 == 54 && '7' as u32 == 55 && '8' as u32 == 56 && '9' as u32 == 57);
}

proof fn lemma_nat_digits(n: nat)
    ensures
        nat_digits(n).len() > 0,
        all_digits(nat_digits(n)),
        decimal_value(nat_digits(n)) == n,
        is_ascii_digit(nat_digits(n)[0]),
    decreases n,
{
    if n < 10 {
        assert(nat_digits(n).drop_last() == Seq::<char>::empty());
        assert(decimal_value(Seq::<char>::empty()) == 0);
        assert(nat_digits(n).last() == digit_char(n as int));
        lemma_digit_char(n as int);
    } else {
        lemma_nat_digits(n / 10);
        lemma_digit_char((n % 10) as int);
        let p = nat_digits(n / 10);
        assert(nat_digits(n).drop_last() == p);
        assert(nat_digits(n).last() == digit_char((n % 10) as int));
        assert(decimal_value(nat_digits(n)) == decimal_value(p) * 10 + digit_value(digit_char((n % 10) as int)));
        assert(n == (n / 10) * 10 + n % 10) by (nonlinear_arith);
        assert forall|k: int| 0 <= k < nat_digits(n).len() implies is_ascii_digit(#[trigger] nat_digits(n)[k]) by {
            if k < p.len() {
                assert(nat_digits(n)[k] == p[k]);
            }
        }
        assert(nat_digits(n)[0] == p[0]);
    }
}

/// Reading back the text of an integer gives the integer.
pub proof fn lemma_int_text_roundtrip(i: i32)
    ensures
        spec_parse_i32(spec_int_text(i as int)) == Some(i),
{
    let t = spec_int_text(i as int);
    if i < 0 {
        let n = (-(i as int)) as nat;
        lemma_nat_digits(n);
        assert(t.skip(1) == nat_digits(n));
        assert(unsigned_part(t) == nat_digits(n));
    } else {
        lemma_nat_digits(i as nat);
        assert(unsigned_part(t) == t);
    }
}

// ---------------------------------------------------------------------------
// Booleans
// ---------------------------------------------------------------------------

/// What `str::parse::<bool>` returns.
pub open spec fn spec_parse_bool(s: Seq<char>) -> Option<bool> {
    if s == "true"@ {
        Some(true)
    } else if s == "false"@ {
        Some(false)
    } else {
        None
    }
}

pub open spec fn spec_bool_text(b: bool) -> Seq<char> {
    if b { "true"@ } else { "false"@ }
}

/// Whether the characters `a` are exactly those of `b`.
pub fn eq_chars(a: &[char], b: &str) -> (r: bool)
    ensures
        r == (a@ == b@),
{
    let bs = chars_of(b);
    if a.len() != bs.len() {
        return false;
    }
    let r = starts_with(a, b);
    assert(a@.take(a@.len() as int) == a@);
    r
}

pub fn parse_bool(cs: &[char]) -> (r: Option<bool>)
    ensures
        r == spec_parse_bool(cs@),
{
    if eq_chars(cs, "true") {
        Some(true)
    } else if eq_chars(cs, "false") {
        Some(false)
    } else {
        None
    }
}

pub fn bool_text(b: bool) -> (s: String)
    ensures
        s@ == spec_bool_text(b),
{
    if b {
        String::from_str("true")
    } else {
        String::from_str("false")
    }
}

// ---------------------------------------------------------------------------
// Floating-point literals
// ---------------------------------------------------------------------------

pub open spec fn is_exp_char(c: char) -> bool {
    c == 'e' || c == 'E'
}

/// `Digit+ | Digit+ '.' Digit* | Digit* '.' Digit+`
pub open spec fn is_mantissa(m: Seq<char>) -> bool {
    ||| (m.len() > 0 && all_digits(m))
    ||| (m.len() >= 2 && exists|d: int|
        0 <= d < m.len() && m[d] == '.' && all_digits(#[trigger] m.take(d)) && all_digits(m.skip(d + 1)))
}

/// `Sign? Digit+`
pub open spec fn is_exponent(x: Seq<char>) -> bool {
    unsigned_part(x).len() > 0 && all_digits(unsigned_part(x))
}

/// `Mantissa ('e' | 'E') Exponent`, or a mantissa alone.
pub open spec fn is_decimal_number(b: Seq<char>) -> bool {
    ||| is_mantissa(b)
    ||| exists|e: int| 0 <= e < b.len() && is_exp_char(b[e]) && is_mantissa(#[trigger] b.take(e)) && is_exponent(b.skip(e + 1))
}

pub open spec fn ascii_lower(c: char) -> char {
    if 65 <= (c as u32) <= 90 { ((c as u32) + 32) as char } else { c }
}

pub open spec fn lower_eq(s: Seq<char>, word: Seq<char>) -> bool {
    s.len() == word.len() && forall|k: int| 0 <= k < s.len() ==> ascii_lower(#[trigger] s[k]) == word[k]
}

/// `inf`, `infinity` or `nan`, in any case.
pub open spec fn is_special_float(b: Seq<char>) -> bool {
    lower_eq(b, seq!['i', 'n', 'f']) || lower_eq(b, seq!['i', 'n', 'f', 'i', 'n', 'i', 't', 'y'])
        || lower_eq(b, seq!['n', 'a', 'n'])
}

/// The strings that `str::parse::<f64>` accepts, following the grammar in its
/// documentation: `Sign? ('inf' | 'infinity' | 'nan' | Number)`, case-insensitive
/// for the words and the exponent letter.
pub open spec fn spec_is_float_literal(s: Seq<char>) -> bool {
    is_special_float(unsigned_part(s)) || is_decimal_number(unsigned_part(s))
}

/// A sign in front of a number changes nothing about whether it reads as a
/// float: `-d` and `+d` read exactly when `d` does, as `str::parse::<f64>`
/// takes one optional sign.
pub proof fn lemma_float_sign(d: Seq<char>)
    requires
        d.len() == 0 || (d[0] != '+' && d[0] != '-'),
    ensures
        spec_is_float_literal(seq!['-'] + d) == spec_is_float_literal(d),
        spec_is_float_literal(seq!['+'] + d) == spec_is_float_literal(d),
{
    assert(unsigned_part(seq!['-'] + d) =~= d);
    assert(unsigned_part(seq!['+'] + d) =~= d);
    assert(unsigned_part(d) == d);
}

/// Whole numbers and numbers with a fractional part read as floats, with a
/// minus sign too.
pub proof fn lemma_decimals_are_floats(a: Seq<char>, b: Seq<char>)
    requires
        a.len() > 0,
        b.len() > 0,
        all_digits(a),
        all_digits(b),
    ensures
        spec_is_float_literal(a),
        spec_is_float_literal(seq!['-'] + a),
        spec_is_float_literal(a + seq!['.'] + b),
        spec_is_float_literal(seq!['-'] + (a + seq!['.'] + b)),
{
    assert(is_ascii_digit(a[0]));
    assert(unsigned_part(a) == a);
    assert(is_mantissa(a));
    let m = a + seq!['.'] + b;
    assert(is_ascii_digit(m[0]));
    assert(unsigned_part(m) == m);
    assert(m.take(a.len() as int) =~= a);
    assert(m.skip(a.len() + 1int) =~= b);
    assert(m[a.len() as int] == '.');
    assert(is_mantissa(m));
    lemma_float_sign(a);
    lemma_float_sign(m);
}

fn all_digits_in(cs: &[char], lo: usize, hi: usize) -> (r: bool)
    requires
        lo <= hi <= cs.len(),
    ensures
        r == all_digits(cs@.subrange(lo as int, hi as int)),
{
    let mut i = lo;
    while i < hi
        invariant
            lo <= i <= hi <= cs.len(),
            forall|k: int| lo <= k < i ==> is_ascii_digit(cs@[k]),
        decreases hi - i,
    {
        if !is_digit_char(cs[i]) {
            assert(cs@.subrange(lo as int, hi as int)[i - lo] == cs@[i as int]);
            return false;
        }
        i = i + 1;
    }
    assert forall|k: int| 0 <= k < hi - lo implies is_ascii_digit(#[trigger] cs@.subrange(lo as int, hi as int)[k]) by {
        assert(cs@.subrange(lo as int, hi as int)[k] == cs@[lo + k]);
    }
    true
}

/// The first position in `lo..hi` holding `c` (or `e`/`E` when `exp`).
fn find_in(cs: &[char], lo: usize, hi: usize, c: char, exp: bool) -> (r: Option<usize>)
    requires
        lo <= hi <= cs.len(),
    ensures
        match r {
            Some(p) => lo <= p < hi && (if exp { is_exp_char(cs@[p as int]) } else { cs@[p as int] == c })
                && forall|k: int| lo <= k < p ==> !(if exp { is_exp_char(#[trigger] cs@[k]) } else { cs@[k] == c }),
            None => forall|k: int| lo <= k < hi ==> !(if exp { is_exp_char(#[trigger] cs@[k]) } else { cs@[k] == c }),
        },
{
    let mut i = lo;
    while i < hi
        invariant
            lo <= i <= hi <= cs.len(),
            forall|k: int| lo <= k < i ==> !(if exp { is_exp_char(#[trigger] cs@[k]) } else { cs@[k] == c }),
        decreases hi - i,
    {
        let x = cs[i];
        let hit = if exp { x == 'e' || x == 'E' } else { x == c };
        if hit {
            return Some(i);
        }
        i = i + 1;
    }
    None
}

fn is_mantissa_in(cs: &[char], lo: usize, hi: usize) -> (r: bool)
    requires
        lo <= hi <= cs.len(),
    ensures
        r == is_mantissa(cs@.subrange(lo as int, hi as int)),
{
    let ghost m = cs@.subrange(lo as int, hi as int);
    match find_in(cs, lo, hi, '.', false) {
        None => {
            let r = hi > lo && all_digits_in(cs, lo, hi);
            proof {
                assert forall|d: int| 0 <= d < m.len() implies m[d] != '.' by {
                    assert(m[d] == cs@[lo + d]);
                }
            }
            r
        },
        Some(p) => {
            let r = hi - lo >= 2 && all_digits_in(cs, lo, p) && all_digits_in(cs, p + 1, hi);
            proof {
                let d = p - lo;
                assert(m[d] == '.');
                assert(m.take(d) == cs@.subrange(lo as int, p as int));
                assert(m.skip(d + 1) == cs@.subrange(p + 1, hi as int));
                if !all_digits(m) {
                } else {
                    assert(!is_ascii_digit(m[d]));
                }
                if exists|d2: int| 0 <= d2 < m.len() && m[d2] == '.' && all_digits(#[trigger] m.take(d2)) && all_digits(m.skip(d2 + 1)) {
                    let d2 = choose|d2: int| 0 <= d2 < m.len() && m[d2] == '.' && all_digits(#[trigger] m.take(d2)) && all_digits(m.skip(d2 + 1));
                    if d2 > d {
                        assert(m.take(d2)[d] == '.');
                    } else if d2 < d {
                        assert(cs@[lo + d2] == '.');
                    }
                }
            }
            r
        },
    }
}

fn is_exponent_in(cs: &[char], lo: usize, hi: usize) -> (r: bool)
    requires
        lo <= hi <= cs.len(),
    ensures
        r == is_exponent(cs@.subrange(lo as int, hi as int)),
{
    let ghost x = cs@.subrange(lo as int, hi as int);
    let mut s = lo;
    if hi > lo && (cs[lo] == '+' || cs[lo] == '-') {
        s = lo + 1;
        assert(x.skip(1) == cs@.subrange(s as int, hi as int));
    } else {
        assert(x == cs@.subrange(s as int, hi as int));
    }
    hi > s && all_digits_in(cs, s, hi)
}

fn lower_eq_in(cs: &[char], lo: usize, hi: usize, word: &str) -> (r: bool)
    requires
        lo <= hi <= cs.len(),
    ensures
        r == lower_eq(cs@.subrange(lo as int, hi as int), word@),
{
    let w = chars_of(word);
    if hi - lo != w.len() {
        return false;
    }
    let mut i: usize = 0;
    while i < w.len()
        invariant
            lo + w.len() == hi <= cs.len(),
            w@ == word@,
            i <= w.len(),
            forall|k: int| 0 <= k < i ==> ascii_lower(cs@[lo + k]) == w@[k],
        decreases w.len() - i,
    {
        let c = cs[lo + i];
        let u = c as u32;
        let l = if 65 <= u && u <= 90 { char_from_lower(u + 32) } else { c };
        if l != w[i] {
            assert(cs@.subrange(lo as int, hi as int)[i as int] == c);
            return false;
        }
        i = i + 1;
    }
    assert forall|k: int| 0 <= k < hi - lo implies ascii_lower(#[trigger] cs@.subrange(lo as int, hi as int)[k]) == word@[k] by {
        assert(cs@.subrange(lo as int, hi as int)[k] == cs@[lo + k]);
    }
    true
}

fn char_from_lower(u: u32) -> (c: char)
    requires
        97 <= u <= 122,
    ensures
        c == (u as char),
        c as u32 == u,
{
    let b = u as u8;
    let c = b as char;
    assert(c == (u as char)) by {
        assert(b as u32 == u);
    }
    c
}

/// Whether `str::parse::<f64>` accepts the text.
pub fn is_float_literal(cs: &[char]) -> (r: bool)
    ensures
        r == spec_is_float_literal(cs@),
{
    let ghost s = cs@;
    let mut lo: usize = 0;
    if cs.len() > 0 && (cs[0] == '+' || cs[0] == '-') {
        lo = 1;
    }
    let hi = cs.len();
    let ghost b = unsigned_part(s);
    assert(b == cs@.subrange(lo as int, hi as int));
    proof {
        reveal_strlit("inf");
        reveal_strlit("infinity");
        reveal_strlit("nan");
    }
    assert("inf"@ == seq!['i', 'n', 'f']);
    assert("infinity"@ == seq!['i', 'n', 'f', 'i', 'n', 'i', 't', 'y']);
    assert("nan"@ == seq!['n', 'a', 'n']);
    if lower_eq_in(cs, lo, hi, "inf") || lower_eq_in(cs, lo, hi, "infinity") || lower_eq_in(cs, lo, hi, "nan") {
        return true;
    }
    match find_in(cs, lo, hi, 'e', true) {
        None => {
            let r = is_mantissa_in(cs, lo, hi);
            proof {
                if exists|e: int| 0 <= e < b.len() && is_exp_char(b[e]) && is_mantissa(#[trigger] b.take(e)) && is_exponent(b.skip(e + 1)) {
                    let e = choose|e: int| 0 <= e < b.len() && is_exp_char(b[e]) && is_mantissa(#[trigger] b.take(e)) && is_exponent(b.skip(e + 1));
                    assert(b[e] == cs@[lo + e]);
                }
            }
            r
        },
        Some(p) => {
            let r = is_mantissa_in(cs, lo, p) && is_exponent_in(cs, p + 1, hi);
            proof {
                let e = p - lo;
                assert(b[e] == cs@[p as int]);
                assert(b.take(e) == cs@.subrange(lo as int, p as int));
                assert(b.skip(e + 1) == cs@.subrange(p + 1, hi as int));
                lemma_mantissa_no_exp(b);
                if exists|e2: int| 0 <= e2 < b.len() && is_exp_char(b[e2]) && is_mantissa(#[trigger] b.take(e2)) && is_exponent(b.skip(e2 + 1)) {
                    let e2 = choose|e2: int| 0 <= e2 < b.len() && is_exp_char(b[e2]) && is_mantissa(#[trigger] b.take(e2)) && is_exponent(b.skip(e2 + 1));
                    if e2 > e {
                        lemma_mantissa_no_exp(b.take(e2));
                        assert(b.take(e2)[e] == b[e]);
                    } else if e2 < e {
                        assert(b[e2] == cs@[lo + e2]);
                    }
                }
            }
            r
        },
    }
}

/// A mantissa holds no exponent letter.
proof fn lemma_mantissa_no_exp(m: Seq<char>)
    ensures
        is_mantissa(m) ==> forall|k: int| 0 <= k < m.len() ==> !is_exp_char(#[trigger] m[k]),
{
    if is_mantissa(m) {
        if m.len() > 0 && all_digits(m) {
        } else {
            let d = choose|d: int|
                0 <= d < m.len() && m[d] == '.' && all_digits(#[trigger] m.take(d)) && all_digits(m.skip(d + 1));
            assert forall|k: int| 0 <= k < m.len() implies !is_exp_char(#[trigger] m[k]) by {
                if k < d {
                    assert(m.take(d)[k] == m[k]);
                } else if k > d {
                    assert(m.skip(d + 1)[k - d - 1] == m[k]);
                }
            }
        }
    }
}


// ---------------------------------------------------------------------------
// Dates
// ---------------------------------------------------------------------------

/// A calendar date, as `chrono::NaiveDate` holds it.
#[derive(Debug, Clone, Copy, PartialEq, Eq, Structural)]
pub struct DateValue {
    pub year: i32,
    pub month: u32,
    pub day: u32,
}

/// The date that `chrono::NaiveDate::parse_from_str` reads from a text with a
/// format, as (year, month, day), or `None` where it reports an error.
pub uninterp spec fn chrono_parse_from_str(s: Seq<char>, fmt: Seq<char>) -> Option<(i32, u32, u32)>;

/// Calls `chrono::NaiveDate::parse_from_str(s, fmt)` and hands back the year,
/// month and day of the date it reads.  Trusted: the result is the name above;
/// besides, a `NaiveDate` has a month in 1..=12 and a day in 1..=31 (what
/// `Datelike::month` and `Datelike::day` document).
#[verifier::external_body]
fn naive_date_parse_from_str(s: &str, fmt: &str) -> (r: Option<(i32, u32, u32)>)
    ensures
        r == chrono_parse_from_str(s@, fmt@),
        r matches Some((y, m, d)) ==> 1 <= m <= 12 && 1 <= d <= 31,
{
    match chrono::NaiveDate::parse_from_str(s, fmt) {
        Ok(date) => Some((date.year(), date.month(), date.day())),
        Err(_) => None,
    }
}

/// The format of dates in the filter language.
pub open spec fn date_format() -> Seq<char> {
    "%Y-%m-%d"@
}

pub open spec fn date_error_msg() -> Seq<char> {
    "invalid date format"@
}

/// The date value of a parse result, or the date error.
pub open spec fn spec_date_from_parsed(r: Option<(i32, u32, u32)>) -> Result<DateValue, Seq<char>> {
    match r {
        Some((y, m, d)) => Ok(DateValue { year: y, month: m, day: d }),
        None => Err(date_error_msg()),
    }
}

impl DateValue {
    /// Turns the result of reading a date into a filter value.
    pub fn from_parsed(r: Option<(i32, u32, u32)>) -> (res: Result<DateValue, String>)
        ensures
            match res {
                Ok(d) => spec_date_from_parsed(r) == Ok::<DateValue, Seq<char>>(d),
                Err(e) => spec_date_from_parsed(r) == Err::<DateValue, Seq<char>>(e@),
            },
    {
        match r {
            Some((y, m, d)) => Ok(DateValue { year: y, month: m, day: d }),
            None => Err(String::from_str("invalid date format")),
        }
    }

    /// Reads a date in the `%Y-%m-%d` format with chrono.
    pub fn parse(x: &str) -> (res: Result<DateValue, String>)
        ensures
            match res {
                Ok(d) => spec_date_from_parsed(chrono_parse_from_str(x@, date_format())) == Ok::<DateValue, Seq<char>>(d)
                    && 1 <= d.month <= 12 && 1 <= d.day <= 31,
                Err(e) => spec_date_from_parsed(chrono_parse_from_str(x@, date_format())) == Err::<DateValue, Seq<char>>(e@),
            },
    {
        let r = naive_date_parse_from_str(x, "%Y-%m-%d");
        DateValue::from_parsed(r)
    }
}

/// `n` written with at least two digits, as `{:02}` writes it.
pub open spec fn pad2(n: nat) -> Seq<char> {
    if n < 10 {
        seq!['0', digit_char(n as int)]
    } else {
        nat_digits(n)
    }
}

pub open spec fn pad4(n: int) -> Seq<char> {
    seq![digit_char(n / 1000), digit_char((n / 100) % 10), digit_char((n / 10) % 10), digit_char(n % 10)]
}

/// The year as chrono writes it: four digits for years 0 to 9999, otherwise a
/// sign and at least four digits.
pub open spec fn spec_year_text(y: int) -> Seq<char> {
    if 0 <= y <= 9999 {
        pad4(y)
    } else {
        let a = if y < 0 { -y } else { y };
        (if y < 0 { seq!['-'] } else { seq!['+'] }) + (if a < 10000 { pad4(a) } else { nat_digits(a as nat) })
    }
}

/// The text of a date, as chrono's `Display` for `NaiveDate` writes it (`%Y-%m-%d`).
pub open spec fn spec_date_text(d: DateValue) -> Seq<char> {
    spec_year_text(d.year as int) + seq!['-'] + pad2(d.month as nat) + seq!['-'] + pad2(d.day as nat)
}

fn push_pad2(out: &mut Vec<char>, n: u64)
    ensures
        final(out)@ == old(out)@ + pad2(n as nat),
{
    if n < 10 {
        out.push('0');
        out.push(digit_of(n));
    } else {
        let digits = nat_chars(n);
        push_chars(out, &digits);
    }
}

fn push_pad4(out: &mut Vec<char>, n: u64)
    requires
        n < 10000,
    ensures
        final(out)@ == old(out)@ + pad4(n as int),
{
    out.push(digit_of(n / 1000));
    out.push(digit_of((n / 100) % 10));
    out.push(digit_of((n / 10) % 10));
    out.push(digit_of(n % 10));
}

impl DateValue {
    /// Writes the date as chrono does, e.g. `2020-01-01`.
    pub fn to_text(&self) -> (s: String)
        ensures
            s@ == spec_date_text(*self),
    {
        let mut out: Vec<char> = Vec::new();
        let y = self.year;
        if 0 <= y && y <= 9999 {
            push_pad4(&mut out, y as u64);
        } else {
            let a: u64 = if y < 0 { (-(y as i64)) as u64 } else { y as u64 };
            if y < 0 {
                out.push('-');
            } else {
                out.push('+');
            }
            if a < 10000 {
                push_pad4(&mut out, a);
            } else {
                let digits = nat_chars(a);
                push_chars(&mut out, &digits);
            }
        }
        assert(out@ == spec_year_text(y as int));
        out.push('-');
        push_pad2(&mut out, self.month as u64);
        out.push('-');
        push_pad2(&mut out, self.day as u64);
        string_of(out.as_slice())
    }
}

// ---------------------------------------------------------------------------
// UUIDs
// ---------------------------------------------------------------------------

/// A UUID, held as the 128-bit big-endian value that `Uuid::as_u128` gives.
#[derive(Debug, Clone, Copy, PartialEq, Eq, Structural)]
pub struct UuidValue(pub u128);

/// The value of the UUID that `uuid::Uuid::parse_str` reads from a text, or
/// `None` where it reports an error.
pub uninterp spec fn uuid_parse_str(s: Seq<char>) -> Option<u128>;

/// Calls `uuid::Uuid::parse_str(s)` and hands back `Uuid::as_u128` of the UUID
/// it reads.  Trusted: the result is the name above.
#[verifier::external_body]
fn uuid_parse(s: &str) -> (r: Option<u128>)
    ensures
        r == uuid_parse_str(s@),
{
    match uuid::Uuid::parse_str(s) {
        Ok(u) => Some(u.as_u128()),
        Err(_) => None,
    }
}

pub open spec fn spec_uuid_from_parsed(r: Option<u128>, text: Seq<char>) -> Result<UuidValue, Seq<char>> {
    match r {
        Some(u) => Ok(UuidValue(u)),
        None => Err("invalid uuid format: "@ + text),
    }
}

impl UuidValue {
    /// Turns the result of reading a UUID from `text` into a filter value.
    pub fn from_parsed(r: Option<u128>, text: &str) -> (res: Result<UuidValue, String>)
        ensures
            match res {
                Ok(u) => spec_uuid_from_parsed(r, text@) == Ok::<UuidValue, Seq<char>>(u),
                Err(e) => spec_uuid_from_parsed(r, text@) == Err::<UuidValue, Seq<char>>(e@),
            },
    {
        match r {
            Some(u) => Ok(UuidValue(u)),
            None => Err(concat("invalid uuid format: ", text)),
        }
    }

    /// Reads a UUID with the uuid crate.
    pub fn parse(x: &str) -> (res: Result<UuidValue, String>)
        ensures
            match res {
                Ok(u) => spec_uuid_from_parsed(uuid_parse_str(x@), x@) == Ok::<UuidValue, Seq<char>>(u),
                Err(e) => spec_uuid_from_parsed(uuid_parse_str(x@), x@) == Err::<UuidValue, Seq<char>>(e@),
            },
    {
        let r = uuid_parse(x);
        UuidValue::from_parsed(r, x)
    }
}

pub open spec fn hex_char(d: int) -> char {
    if d < 10 { digit_char(d) } else if d == 10 { 'a' } else if d == 11 { 'b' } else if d == 12 { 'c' }
    else if d == 13 { 'd' } else if d == 14 { 'e' } else { 'f' }
}

/// The `i`-th hexadecimal digit of `u`, most significant first.
pub open spec fn nibble(u: u128, i: int) -> int {
    ((u >> ((124 - 4 * i) as u32)) & 15u128) as int
}

pub open spec fn is_hyphen_pos(k: int) -> bool {
    k == 8 || k == 13 || k == 18 || k == 23
}

/// The position among the 32 hex digits of the character at `k` of the text.
pub open spec fn hex_pos(k: int) -> int {
    k - (if k > 23 { 4int } else if k > 18 { 3int } else if k > 13 { 2int } else if k > 8 { 1int } else { 0int })
}

/// The hyphenated lower-case text of a UUID (8-4-4-4-12 hex digits), as the
/// uuid crate's `Display` writes it.
pub open spec fn spec_uuid_text(u: u128) -> Seq<char> {
    Seq::new(36, |k: int| if is_hyphen_pos(k) { '-' } else { hex_char(nibble(u, hex_pos(k))) })
}

fn hex_of(d: u128) -> (c: char)
    requires
        d < 16,
    ensures
        c == hex_char(d as int),
{
    if d < 10 {
        digit_of(d as u64)
    } else if d == 10 { 'a' } else if d == 11 { 'b' } else if d == 12 { 'c' }
    else if d == 13 { 'd' } else if d == 14 { 'e' } else { 'f' }
}

impl UuidValue {
    /// Writes the UUID as `xxxxxxxx-xxxx-xxxx-xxxx-xxxxxxxxxxxx`.
    pub fn to_text(&self) -> (s: String)
        ensures
            s@ == spec_uuid_text(self.0),
    {
        let u = self.0;
        let mut out: Vec<char> = Vec::new();
        let mut k: usize = 0;
        let mut i: usize = 0;
        while k < 36
            invariant
                k <= 36,
                0 <= i <= 32,
                i == (if k == 36 { 32 } else { hex_pos(k as int) }),
                out@.len() == k,
                forall|j: int| 0 <= j < k ==> out@[j] == spec_uuid_text(u)[j],
            decreases 36 - k,
        {
            if k == 8 || k == 13 || k == 18 || k == 23 {
                out.push('-');
            } else {
                let d = (u >> ((124 - 4 * i) as u32)) & 15u128;
                assert(d <= 15) by (bit_vector)
                    requires d == (u >> ((124 - 4 * i) as u32)) & 15u128;
                out.push(hex_of(d));
                i = i + 1;
            }
            k = k + 1;
        }
        assert(out@ == spec_uuid_text(u));
        string_of(out.as_slice())
    }
}

} // verus!
