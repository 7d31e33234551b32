use vstd::prelude::*;
use vstd::arithmetic::power2::{lemma2_to64, lemma_pow2_strictly_increases, lemma_pow2_unfold, pow2};
use vstd::std_specs::iter::IteratorSpec;
use vstd::string::{axiom_spec_iter, next_postcondition};

verus! {

/// Up to 128 bytes kept inline, in a `smallvec::SmallVec<[u8; 128]>`.
#[verifier::external_body]
pub struct SmallBytes {
    inner: smallvec::SmallVec<[u8; 128]>,
}

/// The bytes a `SmallBytes` holds, in order.
pub uninterp spec fn small_bytes(v: SmallBytes) -> Seq<u8>;

/// `SmallVec::new`: an empty vector.
#[verifier::external_body]
fn small_new() -> (r: SmallBytes)
    ensures
        small_bytes(r) == Seq::<u8>::empty(),
{
    SmallBytes { inner: smallvec::SmallVec::new() }
}

/// `SmallVec::push`: appends a byte. Growing past the inline capacity doubles it; the crate
/// panics on capacity overflow, which cannot happen up to `isize::MAX / 2` bytes.
#[verifier::external_body]
fn small_push(v: &mut SmallBytes, b: u8)
    requires
        small_bytes(*old(v)).len() <= isize::MAX / 2,
    ensures
        small_bytes(*final(v)) == small_bytes(*old(v)).push(b),
{
    v.inner.push(b)
}

/// `SmallVec::is_empty`: whether the vector holds no byte.
#[verifier::external_body]
fn small_is_empty(v: &SmallBytes) -> (r: bool)
    ensures
        r == (small_bytes(*v).len() == 0),
{
    v.inner.is_empty()
}

impl SmallBytes {
    /// The bytes as a vector (`SmallVec::to_vec`).
    #[verifier::external_body]
    pub fn to_vec(&self) -> (r: Vec<u8>)
        ensures
            r@ == small_bytes(*self),
    {
        self.inner.to_vec()
    }
}

/// The value of `c` as a digit in base `base` (`char::to_digit`): `0-9`, then the letters
/// `a-z` or `A-Z` from 10 on, when below the base.
pub open spec fn digit_value(c: char, base: u32) -> Option<u32> {
    let v: int = if '0' <= c && c <= '9' {
        c as int - '0' as int
    } else if 'a' <= c && c <= 'z' {
        c as int - 'a' as int + 10
    } else if 'A' <= c && c <= 'Z' {
        c as int - 'A' as int + 10
    } else {
        36
    };
    if v < base {
        Some(v as u32)
    } else {
        None
    }
}

fn to_digit(c: char, base: u32) -> (r: Option<u32>)
    requires
        2 <= base <= 36,
    ensures
        r == digit_value(c, base),
{
    let v: u32 = if '0' <= c && c <= '9' {
        (c as u32) - ('0' as u32)
    } else if 'a' <= c && c <= 'z' {
        (c as u32) - ('a' as u32) + 10
    } else if 'A' <= c && c <= 'Z' {
        (c as u32) - ('A' as u32) + 10
    } else {
        36
    };
    if v < base {
        Some(v)
    } else {
        None
    }
}

/// State of reading a bit string written in digits: the byte being filled, the number of
/// its bits already filled, the bytes completed, and whether the completion mark `_` was met.
pub struct ParseState {
    pub acc: u8,
    pub bits: u32,
    pub data: Seq<u8>,
    pub completion_tag: bool,
}

/// Reading one character: a digit adds its four bits (its value taken in four bits, shifted
/// into place); `_` marks the end of the bits; after the mark or on any other character the
/// text is refused.
pub open spec fn parse_step(st: ParseState, ch: char, base: u32) -> Option<ParseState> {
    if st.completion_tag {
        None
    } else {
        match digit_value(ch, base) {
            Some(x) => if st.bits < 4 {
                Some(ParseState { acc: st.acc | ((x << ((4 - st.bits) as u32)) as u8), bits: (st.bits + 4) as u32, ..st })
            } else {
                Some(ParseState {
                    acc: ((x << ((12 - st.bits) as u32)) as u8),
                    bits: (st.bits - 4) as u32,
                    data: st.data.push(st.acc | ((x as u8) >> ((st.bits - 4) as u8))),
                    completion_tag: false,
                })
            },
            None => if ch == '_' {
                Some(ParseState { completion_tag: true, ..st })
            } else {
                None
            },
        }
    }
}

/// The state after reading the first `n` characters of `s`, from `bits` bits already filled.
pub open spec fn parse_prefix(s: Seq<char>, n: int, bits: u32, base: u32) -> Option<ParseState>
    decreases n,
{
    if n <= 0 {
        Some(ParseState { acc: 0, bits, data: Seq::empty(), completion_tag: false })
    } else {
        match parse_prefix(s, n - 1, bits, base) {
            Some(st) => parse_step(st, s[n - 1], base),
            None => None,
        }
    }
}

/// The bytes at the end of reading: an unfinished byte gets the completion bit (unless the
/// mark ended the bits) and is kept when not zero or when nothing else was read; with no
/// unfinished bits and no mark, the completion byte `0x80` is added.
pub open spec fn parse_finish(st: ParseState) -> Seq<u8> {
    if st.bits != 0 {
        let acc = if !st.completion_tag {
            st.acc | ((1u32 << ((7 - st.bits) as u32)) as u8)
        } else {
            st.acc
        };
        if acc != 0 || st.data.len() == 0 {
            st.data.push(acc)
        } else {
            st.data
        }
    } else if !st.completion_tag {
        st.data.push(0x80)
    } else {
        st.data
    }
}

/// The bytes of a bit string written in base-`base` digits (four bits each) after `bits`
/// bits already taken, or `None` when the text is refused.
pub open spec fn parsed_slice(s: Seq<char>, bits: u32, base: u32) -> Option<Seq<u8>> {
    match parse_prefix(s, s.len() as int, bits, base) {
        Some(st) => Some(parse_finish(st)),
        None => None,
    }
}

/// In every state reached, fewer than eight bits of the current byte are filled, and at most
/// one byte was completed for every two characters read (and one more).
proof fn lemma_parse_prefix_bounds(s: Seq<char>, n: int, bits: u32, base: u32)
    requires
        bits < 8,
        0 <= n <= s.len(),
    ensures
        parse_prefix(s, n, bits, base) matches Some(st) ==> st.bits < 8 && 2 * st.data.len() <= n + 1
            && (st.bits >= 4 ==> 2 * st.data.len() <= n),
    decreases n,
{
    if n > 0 {
        lemma_parse_prefix_bounds(s, n - 1, bits, base);
    }
}

/// Reads a bit string written in base-`base` digits, four bits each, starting `bits` bits
/// into the first byte: `_` ends the bits early; without it a completion bit is added.
/// Returns `None` for any other character or for a character after `_`.
pub fn parse_slice_base(slice: &str, bits: usize, base: u32) -> (r: Option<SmallBytes>)
    requires
        bits < 8,
        2 <= base <= 36,
        slice@.len() < isize::MAX,
    ensures
        r is Some <==> parsed_slice(slice@, bits as u32, base) is Some,
        r is Some ==> small_bytes(r->Some_0) == parsed_slice(slice@, bits as u32, base)->Some_0,
{
    broadcast use axiom_spec_iter, next_postcondition;

    let mut b: u32 = bits as u32;
    let mut acc: u8 = 0;
    let mut data = small_new();
    let mut completion_tag = false;
    let mut chars = slice.chars();
    let ghost mut n: int = 0;
    loop
        invariant
            0 <= n <= slice@.len(),
            bits < 8,
            2 <= base <= 36,
            slice@.len() < isize::MAX,
            chars.remaining() == slice@.subrange(n, slice@.len() as int),
            parse_prefix(slice@, n, bits as u32, base) == Some(
                ParseState { acc, bits: b, data: small_bytes(data), completion_tag },
            ),
        ensures
            n == slice@.len(),
            parse_prefix(slice@, n, bits as u32, base) == Some(
                ParseState { acc, bits: b, data: small_bytes(data), completion_tag },
            ),
        decreases slice@.len() - n,
    {
        proof {
            lemma_parse_prefix_bounds(slice@, n, bits as u32, base);
        }
        let ch = match chars.next() {
            Some(c) => c,
            None => {
                assert(n == slice@.len());
                break;
            },
        };
        assert(ch == slice@[n]);
        assert(slice@.subrange(n, slice@.len() as int).drop_first() =~= slice@.subrange(n + 1, slice@.len() as int));
        if completion_tag {
            proof {
                n = n + 1;
                lemma_none_stays(slice@, n, bits as u32, base);
            }
            return None;
        }
        match to_digit(ch, base) {
            Some(x) => {
                if b < 4 {
                    acc = acc | ((x << (4 - b)) as u8);
                    b = b + 4;
                } else {
                    small_push(&mut data, acc | ((x as u8) >> ((b - 4) as u8)));
                    acc = (x << (12 - b)) as u8;
                    b = b - 4;
                }
            },
            None => {
                if ch == '_' {
                    completion_tag = true;
                } else {
                    proof {
                        n = n + 1;
                        lemma_none_stays(slice@, n, bits as u32, base);
                    }
                    return None;
                }
            },
        }
        proof {
            n = n + 1;
        }
    }
    proof {
        lemma_parse_prefix_bounds(slice@, n, bits as u32, base);
    }
    if b != 0 {
        if !completion_tag {
            acc = acc | ((1u32 << (7 - b)) as u8);
        }
        if acc != 0 || small_is_empty(&data) {
            small_push(&mut data, acc);
        }
    } else if !completion_tag {
        small_push(&mut data, 0x80);
    }
    Some(data)
}

/// Once the text is refused, reading more of it keeps it refused.
proof fn lemma_none_stays(s: Seq<char>, n: int, bits: u32, base: u32)
    requires
        0 <= n <= s.len(),
        parse_prefix(s, n, bits, base) is None,
    ensures
        parse_prefix(s, s.len() as int, bits, base) is None,
    decreases s.len() - n,
{
    if n < s.len() {
        lemma_none_stays(s, n + 1, bits, base);
    }
}

/// Reads a bit string written in base-`base` digits from the characters `v[lo..hi]`, as
/// `parse_slice_base` reads a string: the bytes with the completion bit, or `None` when the
/// text is refused.
pub fn parse_slice_chars(v: &Vec<char>, lo: usize, hi: usize, bits: usize, base: u32) -> (r: Option<Vec<u8>>)
    requires
        lo <= hi <= v@.len(),
        bits < 8,
        2 <= base <= 36,
    ensures
        r is Some <==> parsed_slice(v@.subrange(lo as int, hi as int), bits as u32, base) is Some,
        r is Some ==> r->Some_0@ == parsed_slice(v@.subrange(lo as int, hi as int), bits as u32, base)->Some_0,
{
    let ghost s = v@.subrange(lo as int, hi as int);
    let mut b: u32 = bits as u32;
    let mut acc: u8 = 0;
    let mut data: Vec<u8> = Vec::new();
    let mut completion_tag = false;
    let mut i: usize = lo;
    while i < hi
        invariant
            lo <= i <= hi <= v@.len(),
            bits < 8,
            2 <= base <= 36,
            s == v@.subrange(lo as int, hi as int),
            parse_prefix(s, i - lo, bits as u32, base) == Some(
                ParseState { acc, bits: b, data: data@, completion_tag },
            ),
        decreases hi - i,
    {
        proof {
            lemma_parse_prefix_bounds(s, i - lo, bits as u32, base);
        }
        let ch = v[i];
        assert(ch == s[i - lo]);
        if completion_tag {
            proof {
                lemma_none_stays(s, i - lo + 1, bits as u32, base);
            }
            return None;
        }
        match to_digit(ch, base) {
            Some(x) => {
                if b < 4 {
                    acc = acc | ((x << (4 - b)) as u8);
                    b = b + 4;
                } else {
                    data.push(acc | ((x as u8) >> ((b - 4) as u8)));
                    acc = (x << (12 - b)) as u8;
                    b = b - 4;
                }
            },
            None => {
                if ch == '_' {
                    completion_tag = true;
                } else {
                    proof {
                        lemma_none_stays(s, i - lo + 1, bits as u32, base);
                    }
                    return None;
                }
            },
        }
        i = i + 1;
    }
    proof {
        lemma_parse_prefix_bounds(s, i - lo, bits as u32, base);
    }
    if b != 0 {
        if !completion_tag {
            acc = acc | ((1u32 << (7 - b)) as u8);
        }
        if acc != 0 || data.len() == 0 {
            data.push(acc);
        }
    } else if !completion_tag {
        data.push(0x80);
    }
    Some(data)
}

/// The number of zero bits below the lowest one bit of a nonzero byte.
pub open spec fn low_zero_bits(x: u8) -> nat
    decreases x,
{
    if x == 0 || x % 2 == 1 {
        0
    } else {
        1 + low_zero_bits(x / 2)
    }
}

/// A nonzero byte has at most seven zero bits below its lowest one bit.
proof fn lemma_low_zero_bits_bound(x: u8)
    requires
        x != 0,
    ensures
        pow2(low_zero_bits(x)) <= x,
        low_zero_bits(x) <= 7,
    decreases x,
{
    if x % 2 == 0 {
        lemma_low_zero_bits_bound(x / 2);
        lemma_pow2_unfold(low_zero_bits(x));
    }
    lemma2_to64();
    if low_zero_bits(x) > 7 {
        lemma_pow2_strictly_increases(7, low_zero_bits(x));
    }
}

/// The number of bits a bit string stored with its completion bit holds: the bits before the
/// last one bit of the bytes (none when every byte is zero).
pub open spec fn tagged_bit_len(b: Seq<u8>) -> nat
    decreases b.len(),
{
    if b.len() == 0 {
        0
    } else if b.last() == 0 {
        tagged_bit_len(b.drop_last())
    } else {
        (8 * (b.len() - 1) + 7 - low_zero_bits(b.last())) as nat
    }
}

/// A bit string of whole bytes followed by the completion byte `0x80` holds eight bits per
/// byte; zero bytes after the completion bit add nothing.
pub proof fn law_tagged_bit_len(s: Seq<u8>)
    ensures
        tagged_bit_len(s.push(0x80)) == 8 * s.len(),
        tagged_bit_len(s.push(0)) == tagged_bit_len(s),
{
    assert(low_zero_bits(1) == 0);
    assert(low_zero_bits(2) == 1);
    assert(low_zero_bits(4) == 2);
    assert(low_zero_bits(8) == 3);
    assert(low_zero_bits(16) == 4);
    assert(low_zero_bits(32) == 5);
    assert(low_zero_bits(64) == 6);
    assert(low_zero_bits(128) == 7);
    assert(s.push(0).drop_last() =~= s);
}

/// Whether a bit string stored with its completion bit holds at most `limit` bits.
pub fn tagged_len_at_most(b: &Vec<u8>, limit: usize) -> (r: bool)
    requires
        limit <= 1023,
    ensures
        r == (tagged_bit_len(b@) <= limit),
{
    let mut k: usize = b.len();
    assert(b@.take(k as int) =~= b@);
    while k > 0 && b[k - 1] == 0
        invariant
            k <= b@.len(),
            tagged_bit_len(b@) == tagged_bit_len(b@.take(k as int)),
        decreases k,
    {
        assert(b@.take(k as int).drop_last() =~= b@.take(k - 1));
        k = k - 1;
    }
    if k == 0 {
        assert(b@.take(0).len() == 0);
        return true;
    }
    let last = b[k - 1];
    proof {
        lemma_low_zero_bits_bound(last);
    }
    assert(b@.take(k as int).last() == last);
    if k - 1 > 128 {
        return false;
    }
    let mut x: u8 = last;
    let mut z: usize = 0;
    while x % 2 == 0
        invariant
            x != 0,
            z + low_zero_bits(x) == low_zero_bits(last),
            low_zero_bits(last) <= 7,
        decreases x,
    {
        x = x / 2;
        z = z + 1;
    }
    8 * (k - 1) + 7 - z <= limit
}

} // verus!
