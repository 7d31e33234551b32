use vstd::prelude::*;
use vstd::std_specs::iter::IteratorSpec;
use vstd::string::{axiom_spec_iter, next_postcondition};

use crate::shard::{hex16, hex_digit_char};

verus! {

/// The characters of a string.
pub fn chars_of(s: &str) -> (r: Vec<char>)
    ensures
        r@ == s@,
{
    broadcast use axiom_spec_iter, next_postcondition;

    let mut out: Vec<char> = Vec::new();
    let mut chars = s.chars();
    loop
        invariant
            out@.len() <= s@.len(),
            chars.remaining() == s@.subrange(out@.len() as int, s@.len() as int),
            out@ == s@.take(out@.len() as int),
        ensures
            out@ == s@,
        decreases s@.len() - out@.len(),
    {
        match chars.next() {
            Some(c) => {
                assert(c == s@[out@.len() as int]);
                assert(s@.subrange(out@.len() as int, s@.len() as int).drop_first() =~= s@.subrange(
                    out@.len() as int + 1,
                    s@.len() as int,
                ));
                out.push(c);
                assert(out@ =~= s@.take(out@.len() as int));
            },
            None => {
                assert(out@ =~= s@);
                break;
            },
        }
    }
    out
}

/// Whether `c` is white space (`char::is_whitespace`: the Unicode `White_Space` characters).
pub open spec fn is_white_space(c: char) -> bool {
    let u = c as u32;
    (0x9 <= u <= 0xd) || u == 0x20 || u == 0x85 || u == 0xa0 || u == 0x1680 || (0x2000 <= u <= 0x200a)
        || u == 0x2028 || u == 0x2029 || u == 0x202f || u == 0x205f || u == 0x3000
}

fn white_space(c: char) -> (r: bool)
    ensures
        r == is_white_space(c),
{
    let u = c as u32;
    (0x9 <= u && u <= 0xd) || u == 0x20 || u == 0x85 || u == 0xa0 || u == 0x1680 || (0x2000 <= u && u
        <= 0x200a) || u == 0x2028 || u == 0x2029 || u == 0x202f || u == 0x205f || u == 0x3000
}

/// `s` without its leading characters `c` (`str::trim_start_matches` with a character).
pub open spec fn trim_start_char(s: Seq<char>, c: char) -> Seq<char>
    decreases s.len(),
{
    if s.len() > 0 && s[0] == c {
        trim_start_char(s.drop_first(), c)
    } else {
        s
    }
}

/// `s` without its trailing characters `c` (`str::trim_end_matches` with a character).
pub open spec fn trim_end_char(s: Seq<char>, c: char) -> Seq<char>
    decreases s.len(),
{
    if s.len() > 0 && s.last() == c {
        trim_end_char(s.drop_last(), c)
    } else {
        s
    }
}

/// `s` without leading and trailing white space (`str::trim`).
pub open spec fn trim(s: Seq<char>) -> Seq<char> {
    trim_end_ws(trim_start_ws(s))
}

/// `s` without leading white space.
pub open spec fn trim_start_ws(s: Seq<char>) -> Seq<char>
    decreases s.len(),
{
    if s.len() > 0 && is_white_space(s[0]) {
        trim_start_ws(s.drop_first())
    } else {
        s
    }
}

/// `s` without trailing white space.
pub open spec fn trim_end_ws(s: Seq<char>) -> Seq<char>
    decreases s.len(),
{
    if s.len() > 0 && is_white_space(s.last()) {
        trim_end_ws(s.drop_last())
    } else {
        s
    }
}

/// `s` without the leading repetitions of `p` (`str::trim_start_matches` with a string).
pub open spec fn trim_start_str(s: Seq<char>, p: Seq<char>) -> Seq<char>
    decreases s.len(),
{
    if p.len() > 0 && s.len() >= p.len() && s.take(p.len() as int) == p {
        trim_start_str(s.skip(p.len() as int), p)
    } else {
        s
    }
}

/// The part of `s` before its first `sep`, and what follows that separator, if there is one
/// (the first step of `str::split`).
pub open spec fn split_first(s: Seq<char>, sep: char) -> (Seq<char>, Option<Seq<char>>)
    decreases s.len(),
{
    if s.len() == 0 {
        (s, None)
    } else if s[0] == sep {
        (Seq::empty(), Some(s.drop_first()))
    } else {
        let (head, tail) = split_first(s.drop_first(), sep);
        (seq![s[0]] + head, tail)
    }
}

/// Skips the leading characters `c` of `v[lo..hi]`; returns where the rest starts.
pub fn skip_start_char(v: &Vec<char>, lo: usize, hi: usize, c: char) -> (r: usize)
    requires
        lo <= hi <= v@.len(),
    ensures
        lo <= r <= hi,
        v@.subrange(r as int, hi as int) == trim_start_char(v@.subrange(lo as int, hi as int), c),
{
    let mut i = lo;
    while i < hi && v[i] == c
        invariant
            lo <= i <= hi <= v@.len(),
            trim_start_char(v@.subrange(lo as int, hi as int), c) == trim_start_char(v@.subrange(i as int, hi as int), c),
        decreases hi - i,
    {
        assert(v@.subrange(i as int, hi as int).drop_first() =~= v@.subrange(i + 1, hi as int));
        i = i + 1;
    }
    i
}

/// Skips the trailing characters `c` of `v[lo..hi]`; returns where the rest ends.
pub fn skip_end_char(v: &Vec<char>, lo: usize, hi: usize, c: char) -> (r: usize)
    requires
        lo <= hi <= v@.len(),
    ensures
        lo <= r <= hi,
        v@.subrange(lo as int, r as int) == trim_end_char(v@.subrange(lo as int, hi as int), c),
{
    let mut j = hi;
    while j > lo && v[j - 1] == c
        invariant
            lo <= j <= hi <= v@.len(),
            trim_end_char(v@.subrange(lo as int, hi as int), c) == trim_end_char(v@.subrange(lo as int, j as int), c),
        decreases j - lo,
    {
        assert(v@.subrange(lo as int, j as int).drop_last() =~= v@.subrange(lo as int, j - 1));
        j = j - 1;
    }
    j
}

/// Trims the white space around `v[lo..hi]`; returns the remaining range.
pub fn trim_range(v: &Vec<char>, lo: usize, hi: usize) -> (r: (usize, usize))
    requires
        lo <= hi <= v@.len(),
    ensures
        lo <= r.0 <= r.1 <= hi,
        v@.subrange(r.0 as int, r.1 as int) == trim(v@.subrange(lo as int, hi as int)),
{
    let mut i = lo;
    while i < hi && white_space(v[i])
        invariant
            lo <= i <= hi <= v@.len(),
            trim_start_ws(v@.subrange(lo as int, hi as int)) == trim_start_ws(v@.subrange(i as int, hi as int)),
        decreases hi - i,
    {
        assert(v@.subrange(i as int, hi as int).drop_first() =~= v@.subrange(i + 1, hi as int));
        i = i + 1;
    }
    let mut j = hi;
    while j > i && white_space(v[j - 1])
        invariant
            lo <= i <= j <= hi <= v@.len(),
            trim_end_ws(v@.subrange(i as int, hi as int)) == trim_end_ws(v@.subrange(i as int, j as int)),
        decreases j - i,
    {
        assert(v@.subrange(i as int, j as int).drop_last() =~= v@.subrange(i as int, j - 1));
        j = j - 1;
    }
    (i, j)
}

/// Skips the leading repetitions of `p` in `v[lo..hi]`; returns where the rest starts.
pub fn skip_start_str(v: &Vec<char>, lo: usize, hi: usize, p: &Vec<char>) -> (r: usize)
    requires
        lo <= hi <= v@.len(),
    ensures
        lo <= r <= hi,
        v@.subrange(r as int, hi as int) == trim_start_str(v@.subrange(lo as int, hi as int), p@),
{
    let mut i = lo;
    if p.len() == 0 {
        return lo;
    }
    loop
        invariant
            lo <= i <= hi <= v@.len(),
            p@.len() > 0,
            trim_start_str(v@.subrange(lo as int, hi as int), p@) == trim_start_str(v@.subrange(i as int, hi as int), p@),
        ensures
            lo <= i <= hi,
            trim_start_str(v@.subrange(lo as int, hi as int), p@) == v@.subrange(i as int, hi as int),
        decreases hi - i,
    {
        let s = Ghost(v@.subrange(i as int, hi as int));
        if hi - i < p.len() {
            return i;
        }
        let mut k: usize = 0;
        let mut same = true;
        while k < p.len()
            invariant
                k <= p@.len(),
                i + p@.len() <= hi <= v@.len(),
                same <==> (forall|m: int| 0 <= m < k ==> v@[i + m] == p@[m]),
            decreases p@.len() - k,
        {
            if v[i + k] != p[k] {
                same = false;
            }
            k = k + 1;
        }
        proof {
            if same {
                assert(s@.take(p@.len() as int) =~= p@);
            } else {
                let m = choose|m: int| 0 <= m < p@.len() && v@[i + m] != p@[m];
                assert(s@.take(p@.len() as int)[m] != p@[m]);
            }
        }
        if !same {
            break;
        }
        assert(s@.skip(p@.len() as int) =~= v@.subrange(i + p@.len(), hi as int));
        i = i + p.len();
    }
    i
}

/// Finds the first `sep` in `v[lo..hi]`: returns its position, or `hi` when there is none.
pub fn find_char(v: &Vec<char>, lo: usize, hi: usize, sep: char) -> (r: usize)
    requires
        lo <= hi <= v@.len(),
    ensures
        lo <= r <= hi,
        split_first(v@.subrange(lo as int, hi as int), sep).0 == v@.subrange(lo as int, r as int),
        r < hi ==> split_first(v@.subrange(lo as int, hi as int), sep).1 == Some(v@.subrange(r + 1, hi as int)),
        r == hi ==> split_first(v@.subrange(lo as int, hi as int), sep).1 is None,
    decreases hi - lo,
{
    let s = Ghost(v@.subrange(lo as int, hi as int));
    if lo == hi {
        return lo;
    }
    if v[lo] == sep {
        assert(s@.drop_first() =~= v@.subrange(lo + 1, hi as int));
        assert(v@.subrange(lo as int, lo as int) =~= Seq::<char>::empty());
        return lo;
    }
    let r = find_char(v, lo + 1, hi, sep);
    assert(s@.drop_first() =~= v@.subrange(lo + 1, hi as int));
    assert(seq![v@[lo as int]] + v@.subrange(lo + 1, r as int) =~= v@.subrange(lo as int, r as int));
    r
}

/// The value of a decimal digit.
pub open spec fn dec_digit(c: char) -> Option<int> {
    if '0' <= c && c <= '9' {
        Some(c as int - '0' as int)
    } else {
        None
    }
}

/// The value of a hexadecimal digit (either case).
pub open spec fn hex_digit(c: char) -> Option<int> {
    if '0' <= c && c <= '9' {
        Some(c as int - '0' as int)
    } else if 'a' <= c && c <= 'f' {
        Some(c as int - 'a' as int + 10)
    } else if 'A' <= c && c <= 'F' {
        Some(c as int - 'A' as int + 10)
    } else {
        None
    }
}

/// The value of the digits `s` in `base` (10 or 16), `None` when one is not a digit.
pub open spec fn digits_value(s: Seq<char>, base: int) -> Option<int>
    decreases s.len(),
{
    if s.len() == 0 {
        Some(0)
    } else {
        let d = if base == 16 {
            hex_digit(s.last())
        } else {
            dec_digit(s.last())
        };
        match (digits_value(s.drop_last(), base), d) {
            (Some(v), Some(x)) => Some(v * base + x),
            _ => None,
        }
    }
}

/// An unsigned number in `base` as `str::parse` and `from_str_radix` read it: an optional `+`,
/// then at least one digit; `None` when it is not one or exceeds `max`.
pub open spec fn parse_unsigned(s: Seq<char>, base: int, max: int) -> Option<int> {
    let digits = if s.len() > 0 && s[0] == '+' {
        s.drop_first()
    } else {
        s
    };
    if digits.len() == 0 {
        None
    } else {
        match digits_value(digits, base) {
            Some(v) => if v <= max {
                Some(v)
            } else {
                None
            },
            None => None,
        }
    }
}

/// A signed 32-bit decimal number as `str::parse::<i32>` reads it: an optional `+` or `-`, then
/// at least one digit, within the range of `i32`.
pub open spec fn parse_i32(s: Seq<char>) -> Option<int> {
    if s.len() > 0 && s[0] == '-' {
        let digits = s.drop_first();
        if digits.len() == 0 {
            None
        } else {
            match digits_value(digits, 10) {
                Some(v) => if v <= 0x8000_0000 {
                    Some(-v)
                } else {
                    None
                },
                None => None,
            }
        }
    } else {
        parse_unsigned(s, 10, 0x7fff_ffff)
    }
}

proof fn lemma_digits_grow(s: Seq<char>, base: int, n: int)
    requires
        base == 10 || base == 16,
        0 <= n <= s.len(),
        digits_value(s, base) is Some,
    ensures
        digits_value(s.take(n), base) is Some,
        digits_value(s.take(n), base)->0 <= digits_value(s, base)->0,
        digits_value(s.take(n), base)->0 >= 0,
    decreases s.len() - n,
{
    if n < s.len() {
        assert(s.take(n + 1).drop_last() =~= s.take(n));
        assert(s.drop_last().take(n) =~= s.take(n));
        lemma_digits_grow(s.drop_last(), base, n);
        lemma_digits_nonneg(s.drop_last(), base);
    } else {
        assert(s.take(n) =~= s);
        lemma_digits_nonneg(s, base);
    }
}

proof fn lemma_digits_nonneg(s: Seq<char>, base: int)
    requires
        base == 10 || base == 16,
        digits_value(s, base) is Some,
    ensures
        digits_value(s, base)->0 >= 0,
        s.len() > 0 ==> digits_value(s, base)->0 >= digits_value(s.drop_last(), base)->0 * base,
    decreases s.len(),
{
    if s.len() > 0 {
        lemma_digits_nonneg(s.drop_last(), base);
        let v = digits_value(s.drop_last(), base)->0;
        assert(v * base >= 0) by (nonlinear_arith)
            requires v >= 0, base >= 10;
    }
}

/// Reads the digits `v[lo..hi]` in base 10 or 16; `None` when one is not a digit or the value
/// exceeds `max`.
fn read_digits(v: &Vec<char>, lo: usize, hi: usize, base: u64, max: u64) -> (r: Option<u64>)
    requires
        lo <= hi <= v@.len(),
        base == 10 || base == 16,
        max >= 15,
    ensures
        r is Some <==> (digits_value(v@.subrange(lo as int, hi as int), base as int) is Some
            && digits_value(v@.subrange(lo as int, hi as int), base as int)->0 <= max),
        r is Some ==> r->0 == digits_value(v@.subrange(lo as int, hi as int), base as int)->0,
{
    let ghost s = v@.subrange(lo as int, hi as int);
    let mut acc: u64 = 0;
    let mut i = lo;
    while i < hi
        invariant
            lo <= i <= hi <= v@.len(),
            base == 10 || base == 16,
            s == v@.subrange(lo as int, hi as int),
            digits_value(s.take(i - lo), base as int) == Some(acc as int),
            acc <= max,
            max >= 15,
        decreases hi - i,
    {
        let c = v[i];
        let d: u64 = if '0' <= c && c <= '9' {
            (c as u64) - ('0' as u64)
        } else if base == 16 && 'a' <= c && c <= 'f' {
            (c as u64) - ('a' as u64) + 10
        } else if base == 16 && 'A' <= c && c <= 'F' {
            (c as u64) - ('A' as u64) + 10
        } else {
            proof {
                assert(s.take(i - lo + 1).drop_last() =~= s.take(i - lo));
                assert(digits_value(s.take(i - lo + 1), base as int) is None);
                if digits_value(s, base as int) is Some {
                    lemma_digits_grow(s, base as int, i - lo + 1);
                }
            }
            return None;
        };
        proof {
            assert(s.take(i - lo + 1).drop_last() =~= s.take(i - lo));
            assert(s.take(i - lo + 1).last() == c);
        }
        let lim: u64 = (max - d) / base;
        if acc > lim {
            proof {
                assert(acc * base + d > max) by (nonlinear_arith)
                    requires acc > lim, lim == (max - d) as int / base as int, base > 0, d <= max;
                if digits_value(s, base as int) is Some {
                    lemma_digits_grow(s, base as int, i - lo + 1);
                }
            }
            return None;
        }
        proof {
            assert(acc * base + d <= max) by (nonlinear_arith)
                requires acc <= lim, lim == (max - d) as int / base as int, base > 0, d <= max;
        }
        acc = acc * base + d;
        i = i + 1;
    }
    assert(s.take(hi - lo) =~= s);
    Some(acc)
}

/// Reads an unsigned number in base 10 or 16 from `v[lo..hi]`: an optional `+`, then digits.
pub fn read_unsigned(v: &Vec<char>, lo: usize, hi: usize, base: u64, max: u64) -> (r: Option<u64>)
    requires
        lo <= hi <= v@.len(),
        base == 10 || base == 16,
        max >= 15,
    ensures
        r is Some <==> parse_unsigned(v@.subrange(lo as int, hi as int), base as int, max as int) is Some,
        r is Some ==> r->0 == parse_unsigned(v@.subrange(lo as int, hi as int), base as int, max as int)->0,
{
    let ghost s = v@.subrange(lo as int, hi as int);
    let start = if lo < hi && v[lo] == '+' {
        assert(s.drop_first() =~= v@.subrange(lo + 1, hi as int));
        lo + 1
    } else {
        lo
    };
    if start == hi {
        assert(v@.subrange(start as int, hi as int).len() == 0);
        return None;
    }
    read_digits(v, start, hi, base, max)
}

/// Reads a signed 32-bit decimal number from `v[lo..hi]`: an optional `+` or `-`, then digits.
pub fn read_i32(v: &Vec<char>, lo: usize, hi: usize) -> (r: Option<i32>)
    requires
        lo <= hi <= v@.len(),
    ensures
        r is Some <==> parse_i32(v@.subrange(lo as int, hi as int)) is Some,
        r is Some ==> r->0 == parse_i32(v@.subrange(lo as int, hi as int))->0,
{
    let ghost s = v@.subrange(lo as int, hi as int);
    if lo < hi && v[lo] == '-' {
        assert(s.drop_first() =~= v@.subrange(lo + 1, hi as int));
        if lo + 1 == hi {
            return None;
        }
        match read_digits(v, lo + 1, hi, 10, 0x8000_0000) {
            Some(m) => {
                if m == 0x8000_0000 {
                    Some(i32::MIN)
                } else {
                    Some(-(m as i32))
                }
            },
            None => None,
        }
    } else {
        match read_unsigned(v, lo, hi, 10, 0x7fff_ffff) {
            Some(m) => Some(m as i32),
            None => None,
        }
    }
}

/// The 32 bytes that 64 hexadecimal digits stand for (high digit first), `None` unless `s`
/// is exactly 64 hexadecimal digits.
pub open spec fn hex32(s: Seq<char>) -> Option<Seq<u8>> {
    if s.len() == 64 && forall|i: int| 0 <= i < 64 ==> #[trigger] hex_digit(s[i]) is Some {
        Some(Seq::new(32, |i: int| (hex_digit(s[2 * i])->0 * 16 + hex_digit(s[2 * i + 1])->0) as u8))
    } else {
        None
    }
}

fn hex_digit_of(c: char) -> (r: Option<u8>)
    ensures
        r is Some <==> hex_digit(c) is Some,
        r is Some ==> r->0 == hex_digit(c)->0,
{
    if '0' <= c && c <= '9' {
        Some(((c as u32) - ('0' as u32)) as u8)
    } else if 'a' <= c && c <= 'f' {
        Some(((c as u32) - ('a' as u32) + 10) as u8)
    } else if 'A' <= c && c <= 'F' {
        Some(((c as u32) - ('A' as u32) + 10) as u8)
    } else {
        None
    }
}

/// Reads 32 bytes written as 64 hexadecimal digits in `v[lo..hi]`.
pub fn read_hex32(v: &Vec<char>, lo: usize, hi: usize) -> (r: Option<[u8; 32]>)
    requires
        lo <= hi <= v@.len(),
    ensures
        r is Some <==> hex32(v@.subrange(lo as int, hi as int)) is Some,
        r is Some ==> r->0@ == hex32(v@.subrange(lo as int, hi as int))->0,
{
    let ghost s = v@.subrange(lo as int, hi as int);
    if hi - lo != 64 {
        return None;
    }
    let mut out = [0u8; 32];
    let mut k: usize = 0;
    while k < 32
        invariant
            k <= 32,
            hi - lo == 64,
            lo <= hi <= v@.len(),
            s == v@.subrange(lo as int, hi as int),
            forall|i: int| 0 <= i < 2 * k ==> #[trigger] hex_digit(s[i]) is Some,
            forall|i: int| 0 <= i < k ==> out@[i] == (hex_digit(s[2 * i])->0 * 16 + hex_digit(s[2 * i + 1])->0) as u8,
        decreases 32 - k,
    {
        let hi_d = hex_digit_of(v[lo + 2 * k]);
        let lo_d = hex_digit_of(v[lo + 2 * k + 1]);
        match (hi_d, lo_d) {
            (Some(a), Some(b)) => {
                assert(s[2 * k as int] == v@[lo + 2 * k]);
                assert(s[2 * k + 1] == v@[lo + 2 * k + 1]);
                out[k] = a * 16 + b;
            },
            _ => {
                assert(s[2 * k as int] == v@[lo + 2 * k]);
                assert(s[2 * k + 1] == v@[lo + 2 * k + 1]);
                return None;
            },
        }
        k = k + 1;
    }
    assert(out@ =~= hex32(s)->0);
    Some(out)
}

/// The character of a decimal digit.
pub open spec fn dec_char(d: nat) -> char {
    seq!['0', '1', '2', '3', '4', '5', '6', '7', '8', '9'][d as int]
}

/// The decimal digits of `v`, most significant first, without leading zeros.
pub open spec fn dec_chars(v: nat) -> Seq<char>
    decreases v,
{
    if v < 10 {
        seq![dec_char(v)]
    } else {
        dec_chars(v / 10).push(dec_char(v % 10))
    }
}

/// `v` in decimal, after a `-` when it is negative.
pub open spec fn signed_dec_chars(v: int) -> Seq<char> {
    if v < 0 {
        seq!['-'] + dec_chars((-v) as nat)
    } else {
        dec_chars(v as nat)
    }
}

/// A decimal digit's character reads back as the digit.
proof fn lemma_dec_char(d: nat)
    requires
        d < 10,
    ensures
        dec_digit(dec_char(d)) == Some(d as int),
        '0' <= dec_char(d) <= '9',
{
    assert(d == 0 || d == 1 || d == 2 || d == 3 || d == 4 || d == 5 || d == 6 || d == 7 || d == 8 || d == 9);
}

/// The decimal digits of a number are digits, and read back as the number.
pub proof fn lemma_dec_chars(v: nat)
    ensures
        dec_chars(v).len() >= 1,
        forall|i: int| 0 <= i < dec_chars(v).len() ==> '0' <= #[trigger] dec_chars(v)[i] <= '9',
        digits_value(dec_chars(v), 10) == Some(v as int),
    decreases v,
{
    if v >= 10 {
        lemma_dec_chars(v / 10);
        lemma_dec_char(v % 10);
        let s = dec_chars(v);
        assert(s.drop_last() =~= dec_chars(v / 10));
        assert(s.last() == dec_char(v % 10));
        assert((v / 10) * 10 + v % 10 == v);
        assert(digits_value(s, 10) == Some(((v / 10) * 10 + v % 10) as int));
    } else {
        lemma_dec_char(v);
        let s = dec_chars(v);
        assert(s.drop_last() =~= Seq::<char>::empty());
        assert(digits_value(s.drop_last(), 10) == Some(0int));
        assert(digits_value(s, 10) == Some(v as int));
    }
}

/// A number written in decimal reads back as itself.
pub proof fn lemma_parse_dec(v: nat, max: int)
    requires
        v <= max,
    ensures
        parse_unsigned(dec_chars(v), 10, max) == Some(v as int),
{
    lemma_dec_chars(v);
}

/// A signed number written in decimal reads back as itself.
pub proof fn lemma_parse_signed_dec(v: i32)
    ensures
        parse_i32(signed_dec_chars(v as int)) == Some(v as int),
        signed_dec_chars(v as int).len() >= 1,
        signed_dec_chars(v as int)[0] == '-' || '0' <= signed_dec_chars(v as int)[0] <= '9',
        forall|i: int|
            1 <= i < signed_dec_chars(v as int).len() ==> '0' <= #[trigger] signed_dec_chars(v as int)[i] <= '9',
{
    if v < 0 {
        let d = dec_chars((-v) as nat);
        lemma_dec_chars((-v) as nat);
        assert((seq!['-'] + d).drop_first() =~= d);
    } else {
        lemma_dec_chars(v as nat);
    }
}

/// A digit or lowercase letter of hexadecimal.
pub open spec fn is_lower_hex_char(c: char) -> bool {
    ('0' <= c <= '9') || ('a' <= c <= 'f')
}

/// The two lowercase hexadecimal digits of each byte of `b`, high digit first.
pub open spec fn hex_bytes(b: Seq<u8>) -> Seq<char> {
    Seq::new(
        2 * b.len(),
        |i: int|
            if i % 2 == 0 {
                hex_digit_char((b[i / 2] / 16) as u64)
            } else {
                hex_digit_char((b[i / 2] % 16) as u64)
            },
    )
}

/// A hexadecimal digit's character reads back as the digit.
proof fn lemma_hex_digit_char(d: u64)
    requires
        d < 16,
    ensures
        hex_digit(hex_digit_char(d)) == Some(d as int),
        is_lower_hex_char(hex_digit_char(d)),
{
    assert(d == 0 || d == 1 || d == 2 || d == 3 || d == 4 || d == 5 || d == 6 || d == 7 || d == 8 || d == 9
        || d == 10 || d == 11 || d == 12 || d == 13 || d == 14 || d == 15);
}

/// 32 bytes written in hexadecimal read back as themselves.
pub proof fn lemma_parse_hex_bytes(b: Seq<u8>)
    requires
        b.len() == 32,
    ensures
        hex_bytes(b).len() == 64,
        forall|i: int| 0 <= i < 64 ==> is_lower_hex_char(#[trigger] hex_bytes(b)[i]),
        hex32(hex_bytes(b)) == Some(b),
{
    let s = hex_bytes(b);
    assert forall|i: int| 0 <= i < 64 implies #[trigger] hex_digit(s[i]) is Some && is_lower_hex_char(s[i]) by {
        lemma_hex_digit_char((b[i / 2] / 16) as u64);
        lemma_hex_digit_char((b[i / 2] % 16) as u64);
    }
    let t = Seq::new(32, |i: int| (hex_digit(s[2 * i])->0 * 16 + hex_digit(s[2 * i + 1])->0) as u8);
    assert forall|i: int| 0 <= i < 32 implies t[i] == b[i] by {
        lemma_hex_digit_char((b[i] / 16) as u64);
        lemma_hex_digit_char((b[i] % 16) as u64);
        assert((2 * i) / 2 == i && (2 * i) % 2 == 0);
        assert((2 * i + 1) / 2 == i && (2 * i + 1) % 2 == 1);
        assert((b[i] / 16) * 16 + b[i] % 16 == b[i]);
    }
    assert(t =~= b);
}

/// The tagged prefix written as 16 hexadecimal digits reads back as itself.
pub proof fn lemma_parse_hex16(p: u64)
    ensures
        hex16(p).len() == 16,
        forall|i: int| 0 <= i < 16 ==> is_lower_hex_char(#[trigger] hex16(p)[i]),
        parse_unsigned(hex16(p), 16, u64::MAX as int) == Some(p as int),
{
    let s = hex16(p);
    assert forall|i: int| 0 <= i < 16 implies is_lower_hex_char(#[trigger] s[i]) by {
        lemma_hex_digit_char((p >> ((60 - 4 * i) as u64)) % 16);
    }
    lemma_hex16_prefix(p, 16);
    assert(s.take(16) =~= s);
    assert(p >> 0u64 == p) by (bit_vector);
}

/// The first `k` hexadecimal digits of `p` read as the top `4 * k` bits of `p`.
proof fn lemma_hex16_prefix(p: u64, k: int)
    requires
        1 <= k <= 16,
    ensures
        digits_value(hex16(p).take(k), 16) == Some((p >> ((64 - 4 * k) as u64)) as int),
    decreases k,
{
    let s = hex16(p);
    if k == 1 {
        lemma_hex_digit_char((p >> 60u64) % 16);
        assert(s.take(1).drop_last() =~= Seq::<char>::empty());
        assert(digits_value(Seq::<char>::empty(), 16) == Some(0int));
        assert((p >> 60u64) % 16 == p >> 60u64) by (bit_vector);
    } else {
        lemma_hex16_prefix(p, k - 1);
        let sh = (64 - 4 * k) as u64;
        lemma_hex_digit_char((p >> sh) % 16);
        assert(s.take(k).drop_last() =~= s.take(k - 1));
        assert(s.take(k).last() == hex_digit_char((p >> sh) % 16));
        assert(((64 - 4 * (k - 1)) as u64) == sh + 4);
        assert(sh <= 56);
        assert((p >> (sh + 4)) * 16 + (p >> sh) % 16 == p >> sh) by (bit_vector)
            requires
                sh <= 56,
        ;
    }
}

/// Splitting at the first `c`, when `a` has none, gives `a` and what follows the `c`.
pub proof fn lemma_split_first_at(a: Seq<char>, c: char, b: Seq<char>)
    requires
        forall|i: int| 0 <= i < a.len() ==> a[i] != c,
    ensures
        split_first(a + seq![c] + b, c) == (a, Some(b)),
    decreases a.len(),
{
    let s = a + seq![c] + b;
    if a.len() == 0 {
        assert(s[0] == c);
        assert(s.drop_first() =~= b);
    } else {
        lemma_split_first_at(a.drop_first(), c, b);
        assert(s.drop_first() =~= a.drop_first() + seq![c] + b);
        assert(seq![a[0]] + a.drop_first() =~= a);
    }
}

/// Splitting text without `c` at `c` gives the whole text and nothing after it.
pub proof fn lemma_split_first_none(a: Seq<char>, c: char)
    requires
        forall|i: int| 0 <= i < a.len() ==> a[i] != c,
    ensures
        split_first(a, c) == (a, None::<Seq<char>>),
    decreases a.len(),
{
    if a.len() > 0 {
        lemma_split_first_none(a.drop_first(), c);
        assert(seq![a[0]] + a.drop_first() =~= a);
    }
}

/// Text that neither starts nor ends with white space is its own trim.
pub proof fn lemma_trim_plain(s: Seq<char>)
    requires
        s.len() > 0,
        !is_white_space(s[0]),
        !is_white_space(s.last()),
    ensures
        trim(s) == s,
{
    assert(trim_start_ws(s) == s);
    assert(trim_end_ws(s) == s);
}

/// Trimming `c` from the start of text that starts with one `c`, not two.
pub proof fn lemma_trim_start_char_once(s: Seq<char>, c: char)
    requires
        s.len() > 1,
        s[0] == c,
        s[1] != c,
    ensures
        trim_start_char(s, c) == s.drop_first(),
{
    assert(trim_start_char(s.drop_first(), c) == s.drop_first());
}

/// Trimming `c` from the end of text that ends with one `c`, not two.
pub proof fn lemma_trim_end_char_once(s: Seq<char>, c: char)
    requires
        s.len() > 1,
        s.last() == c,
        s[s.len() - 2] != c,
    ensures
        trim_end_char(s, c) == s.drop_last(),
{
    assert(s.drop_last().last() == s[s.len() - 2]);
    assert(trim_end_char(s.drop_last(), c) == s.drop_last());
}

/// Trimming the prefix `p` from `p` followed by text that does not start with `p`.
pub proof fn lemma_trim_start_str_once(p: Seq<char>, rest: Seq<char>)
    requires
        p.len() > 0,
        rest.len() > 0,
        rest[0] != p[0],
    ensures
        trim_start_str(p + rest, p) == rest,
{
    let s = p + rest;
    assert(s.take(p.len() as int) =~= p);
    assert(s.skip(p.len() as int) =~= rest);
    if rest.len() >= p.len() {
        assert(rest.take(p.len() as int)[0] != p[0]);
    }
    assert(trim_start_str(rest, p) == rest);
}

/// Appends `v` in decimal.
pub fn push_decimal(out: &mut String, v: u64)
    ensures
        final(out)@ == old(out)@ + dec_chars(v as nat),
    decreases v,
{
    if v >= 10 {
        push_decimal(out, v / 10);
    }
    let digits = "0123456789";
    proof {
        reveal_strlit("0123456789");
        assert(digits@ =~= seq!['0', '1', '2', '3', '4', '5', '6', '7', '8', '9']);
    }
    let d = (v % 10) as usize;
    let c = digits.substring_ascii(d, d + 1);
    proof {
        assert(c@ =~= seq![dec_char(d as nat)]);
    }
    let ghost before = out@;
    out.append(c);
    proof {
        if v >= 10 {
            assert(dec_chars(v as nat) == dec_chars((v / 10) as nat).push(dec_char((v % 10) as nat)));
            assert(before + seq![dec_char(d as nat)] =~= old(out)@ + dec_chars(v as nat));
        } else {
            assert(out@ =~= old(out)@ + dec_chars(v as nat));
        }
    }
}

/// Appends `v` in decimal, after a `-` when it is negative.
pub fn push_signed_decimal(out: &mut String, v: i32)
    ensures
        final(out)@ == old(out)@ + signed_dec_chars(v as int),
{
    if v < 0 {
        let minus = "-";
        proof {
            reveal_strlit("-");
        }
        out.append(minus);
        let m: i64 = 0 - (v as i64);
        push_decimal(out, m as u64);
        proof {
            assert(out@ =~= old(out)@ + signed_dec_chars(v as int));
        }
    } else {
        push_decimal(out, v as u64);
    }
}

/// Appends each byte of `b` as two lowercase hexadecimal digits, high digit first.
pub fn push_hex_bytes(out: &mut String, b: &[u8; 32])
    ensures
        final(out)@ == old(out)@ + hex_bytes(b@),
{
    let digits = "0123456789abcdef";
    proof {
        reveal_strlit("0123456789abcdef");
        assert(digits@ =~= seq!['0', '1', '2', '3', '4', '5', '6', '7', '8', '9', 'a', 'b', 'c', 'd', 'e', 'f']);
    }
    let ghost start = out@;
    let mut i: usize = 0;
    while i < 32
        invariant
            i <= 32,
            b@.len() == 32,
            digits@ == seq!['0', '1', '2', '3', '4', '5', '6', '7', '8', '9', 'a', 'b', 'c', 'd', 'e', 'f'],
            digits.is_ascii(),
            out@ == start + hex_bytes(b@).take(2 * i as int),
        decreases 32 - i,
    {
        let hi = (b[i] / 16) as usize;
        let lo = (b[i] % 16) as usize;
        let ch = digits.substring_ascii(hi, hi + 1);
        let cl = digits.substring_ascii(lo, lo + 1);
        proof {
            assert(ch@ =~= seq![hex_digit_char(hi as u64)]);
            assert(cl@ =~= seq![hex_digit_char(lo as u64)]);
        }
        out.append(ch);
        out.append(cl);
        proof {
            let h = hex_bytes(b@);
            assert(h[2 * i as int] == hex_digit_char(hi as u64)) by {
                assert((2 * i as int) / 2 == i as int && (2 * i as int) % 2 == 0);
            }
            assert(h[2 * i as int + 1] == hex_digit_char(lo as u64)) by {
                assert((2 * i as int + 1) / 2 == i as int && (2 * i as int + 1) % 2 == 1);
            }
            assert(h.take(2 * (i as int + 1)) =~= h.take(2 * i as int).push(hex_digit_char(hi as u64)).push(
                hex_digit_char(lo as u64),
            ));
            assert(out@ =~= start + h.take(2 * (i as int + 1)));
        }
        i = i + 1;
    }
    proof {
        assert(hex_bytes(b@).take(64) =~= hex_bytes(b@));
    }
}

/// The character of an uppercase hexadecimal digit.
pub open spec fn upper_hex_char(d: u64) -> char {
    seq!['0', '1', '2', '3', '4', '5', '6', '7', '8', '9', 'A', 'B', 'C', 'D', 'E', 'F'][d as int]
}

/// The 16 uppercase hexadecimal digits of `v`, most significant first.
pub open spec fn upper_hex16(v: u64) -> Seq<char> {
    Seq::new(16, |i: int| upper_hex_char((v >> ((60 - 4 * i) as u64)) % 16))
}

/// Appends `v` as 16 uppercase hexadecimal digits.
pub fn push_upper_hex16(out: &mut String, v: u64)
    ensures
        final(out)@ == old(out)@ + upper_hex16(v),
{
    let digits = "0123456789ABCDEF";
    proof {
        reveal_strlit("0123456789ABCDEF");
        assert(digits@ =~= seq!['0', '1', '2', '3', '4', '5', '6', '7', '8', '9', 'A', 'B', 'C', 'D', 'E', 'F']);
    }
    let ghost start = out@;
    let mut i: u64 = 0;
    while i < 16
        invariant
            i <= 16,
            digits@ == seq!['0', '1', '2', '3', '4', '5', '6', '7', '8', '9', 'A', 'B', 'C', 'D', 'E', 'F'],
            digits.is_ascii(),
            out@ == start + upper_hex16(v).take(i as int),
        decreases 16 - i,
    {
        let d = ((v >> (60 - 4 * i)) % 16) as usize;
        let c = digits.substring_ascii(d, d + 1);
        out.append(c);
        proof {
            assert(c@ =~= seq![upper_hex_char(d as u64)]);
            assert(upper_hex16(v).take(i as int + 1) =~= upper_hex16(v).take(i as int).push(upper_hex_char(d as u64)));
            assert(out@ =~= start + upper_hex16(v).take(i as int + 1));
        }
        i = i + 1;
    }
    assert(upper_hex16(v).take(16) =~= upper_hex16(v));
}

/// The text of a boolean: `true` or `false`.
pub open spec fn bool_chars(b: bool) -> Seq<char> {
    if b {
        seq!['t', 'r', 'u', 'e']
    } else {
        seq!['f', 'a', 'l', 's', 'e']
    }
}

/// Appends `true` or `false`.
pub fn push_bool(out: &mut String, b: bool)
    ensures
        final(out)@ == old(out)@ + bool_chars(b),
{
    if b {
        out.append("true");
        proof {
            reveal_strlit("true");
        }
    } else {
        out.append("false");
        proof {
            reveal_strlit("false");
        }
    }
}

} // verus!

