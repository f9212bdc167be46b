//! Byte-level building blocks for the wire format: decimal numerals and JSON
//! string escaping, each with an exact specification.

use vstd::prelude::*;

verus! {

/// The decimal numeral of `n`, most significant digit first.
pub open spec fn spec_dec_u64(n: nat) -> Seq<u8>
    decreases n,
{
    if n < 10 {
        seq![(48 + n) as u8]
    } else {
        spec_dec_u64(n / 10).push((48 + n % 10) as u8)
    }
}

/// The numeral with a leading minus sign for negative numbers.
pub open spec fn spec_dec_i64(i: int) -> Seq<u8> {
    if i < 0 {
        seq![45u8] + spec_dec_u64((-i) as nat)
    } else {
        spec_dec_u64(i as nat)
    }
}

pub open spec fn spec_is_digit(b: u8) -> bool {
    48 <= b <= 57
}

pub open spec fn spec_all_digits(s: Seq<u8>) -> bool {
    forall|i: int| 0 <= i < s.len() ==> spec_is_digit(#[trigger] s[i])
}

/// The value of a digit string, most significant digit first.
pub open spec fn spec_dec_value(s: Seq<u8>) -> int
    decreases s.len(),
{
    if s.len() == 0 {
        0
    } else {
        spec_dec_value(s.drop_last()) * 10 + (s.last() - 48)
    }
}

/// A non-empty all-digit string parses to its value; anything else is refused.
pub open spec fn spec_parse_dec(s: Seq<u8>) -> Option<int> {
    if s.len() > 0 && spec_all_digits(s) {
        Some(spec_dec_value(s))
    } else {
        None
    }
}

pub proof fn lemma_dec_u64_digits(n: nat)
    ensures
        spec_dec_u64(n).len() > 0,
        spec_all_digits(spec_dec_u64(n)),
    decreases n,
{
    if n >= 10 {
        lemma_dec_u64_digits(n / 10);
        assert forall|i: int| 0 <= i < spec_dec_u64(n).len() implies spec_is_digit(
            #[trigger] spec_dec_u64(n)[i],
        ) by {
            if i < spec_dec_u64(n / 10).len() {
                assert(spec_dec_u64(n)[i] == spec_dec_u64(n / 10)[i]);
            }
        }
    }
}

/// Printing a number and parsing the numeral back returns the number.
pub proof fn lemma_dec_u64_round_trip(n: nat)
    ensures
        spec_parse_dec(spec_dec_u64(n)) == Some(n as int),
    decreases n,
{
    lemma_dec_u64_digits(n);
    if n < 10 {
        assert(spec_dec_value(seq![(48 + n) as u8].drop_last()) == 0);
    } else {
        lemma_dec_u64_round_trip(n / 10);
        let whole = spec_dec_u64(n);
        let prefix = spec_dec_u64(n / 10);
        assert(whole.drop_last() =~= prefix);
        assert(spec_dec_value(whole) == spec_dec_value(prefix) * 10 + n % 10);
        vstd::arithmetic::div_mod::lemma_fundamental_div_mod(n as int, 10);
    }
}

/// The decimal digits of `n`, most significant first.
pub fn dec_u64(n: u64) -> (r: Vec<u8>)
    ensures
        r@ == spec_dec_u64(n as nat),
    decreases n,
{
    if n < 10 {
        let mut v: Vec<u8> = Vec::new();
        v.push(48 + n as u8);
        proof {
            assert(v@ =~= spec_dec_u64(n as nat));
        }
        v
    } else {
        let mut v = dec_u64(n / 10);
        v.push(48 + (n % 10) as u8);
        v
    }
}

/// The decimal digits of `i`, with a leading minus sign when `i` is negative.
pub fn dec_i64(i: i64) -> (r: Vec<u8>)
    ensures
        r@ == spec_dec_i64(i as int),
{
    if i >= 0 {
        dec_u64(i as u64)
    } else {
        let magnitude: u64 = ((-(i + 1)) as u64) + 1;
        assert(magnitude == -(i as int));
        let mut v: Vec<u8> = Vec::new();
        v.push(45);
        let digits = dec_u64(magnitude);
        let mut k: usize = 0;
        while k < digits.len()
            invariant
                0 <= k <= digits.len(),
                v@ == seq![45u8] + digits@.take(k as int),
            decreases digits.len() - k,
        {
            v.push(digits[k]);
            k = k + 1;
            proof {
                assert(digits@.take(k as int) =~= digits@.take(k - 1).push(digits@[k - 1]));
                assert(v@ =~= seq![45u8] + digits@.take(k as int));
            }
        }
        proof {
            assert(digits@.take(digits@.len() as int) =~= digits@);
        }
        v
    }
}

/// Parses an all-digit byte string; `None` for the empty string, a non-digit
/// byte, or a value above `usize::MAX`.
pub fn parse_dec(buf: &Vec<u8>, start: usize, end: usize) -> (r: Option<usize>)
    requires
        start <= end <= buf.len(),
    ensures
        ({
            let s = buf@.subrange(start as int, end as int);
            match spec_parse_dec(s) {
                Some(n) => if n <= usize::MAX {
                    r == Some(n as usize)
                } else {
                    r is None
                },
                None => r is None,
            }
        }),
        spec_parse_dec(buf@.subrange(start as int, end as int)) matches Some(n) ==> n >= 0,
{
    let ghost s = buf@.subrange(start as int, end as int);
    proof {
        if s.len() > 0 && spec_all_digits(s) {
            lemma_dec_value_nonneg(s);
        }
    }
    if start == end {
        return None;
    }
    let mut acc: usize = 0;
    let mut k: usize = start;
    while k < end
        invariant
            start <= k <= end <= buf.len(),
            s == buf@.subrange(start as int, end as int),
            spec_all_digits(s.take(k - start)),
            acc == spec_dec_value(s.take(k - start)),
        decreases end - k,
    {
        let b = buf[k];
        if b < 48 || b > 57 {
            proof {
                assert(s[k - start] == b);
            }
            return None;
        }
        let digit = (b - 48) as usize;
        let next = acc.checked_mul(10);
        match next {
            None => {
                proof {
                    lemma_overflow_means_huge(s, k - start, b, acc);
                }
                return None;
            },
            Some(m) => {
                let next2 = m.checked_add(digit);
                match next2 {
                    None => {
                        proof {
                            lemma_overflow_means_huge(s, k - start, b, acc);
                        }
                        return None;
                    },
                    Some(total) => {
                        proof {
                            assert(s.take(k + 1 - start) =~= s.take(k - start).push(b));
                            assert(s.take(k + 1 - start).drop_last() =~= s.take(k - start));
                            lemma_take_all_digits_extend(s, k - start, b);
                        }
                        acc = total;
                        k = k + 1;
                    },
                }
            },
        }
    }
    proof {
        assert(s.take(end - start) =~= s);
    }
    Some(acc)
}

/// Once the running value can no longer grow without passing `usize::MAX`,
/// the value of the whole digit string is out of range too.
proof fn lemma_overflow_means_huge(s: Seq<u8>, k: int, b: u8, acc: usize)
    requires
        0 <= k < s.len(),
        s[k] == b,
        spec_is_digit(b),
        spec_all_digits(s.take(k)),
        acc == spec_dec_value(s.take(k)),
        acc * 10 + (b - 48) > usize::MAX,
    ensures
        spec_parse_dec(s) matches Some(n) ==> n > usize::MAX,
{
    if s.len() > 0 && spec_all_digits(s) {
        assert(s.take(k + 1).drop_last() =~= s.take(k));
        assert(s.take(k + 1).last() == b);
        assert(spec_dec_value(s.take(k + 1)) == acc * 10 + (b - 48));
        lemma_dec_value_mono(s, k + 1);
    }
}

proof fn lemma_take_all_digits_extend(s: Seq<u8>, k: int, b: u8)
    requires
        0 <= k < s.len(),
        s[k] == b,
        spec_is_digit(b),
        spec_all_digits(s.take(k)),
    ensures
        spec_all_digits(s.take(k + 1)),
{
    assert forall|i: int| 0 <= i < k + 1 implies spec_is_digit(#[trigger] s.take(k + 1)[i]) by {
        if i < k {
            assert(s.take(k)[i] == s.take(k + 1)[i]);
        }
    }
}

proof fn lemma_dec_value_nonneg(s: Seq<u8>)
    requires
        spec_all_digits(s),
    ensures
        spec_dec_value(s) >= 0,
    decreases s.len(),
{
    if s.len() > 0 {
        assert(spec_all_digits(s.drop_last())) by {
            assert(forall|i: int|
                0 <= i < s.len() - 1 ==> #[trigger] s.drop_last()[i] == s[i]);
        }
        lemma_dec_value_nonneg(s.drop_last());
    }
}

/// A digit string is worth at least as much as any of its prefixes.
proof fn lemma_dec_value_mono(s: Seq<u8>, j: int)
    requires
        spec_all_digits(s),
        0 <= j <= s.len(),
    ensures
        spec_dec_value(s) >= spec_dec_value(s.take(j)),
    decreases s.len() - j,
{
    if j < s.len() {
        lemma_dec_value_mono(s, j + 1);
        assert(s.take(j + 1).drop_last() =~= s.take(j));
        assert(spec_all_digits(s.take(j))) by {
            assert(forall|i: int| 0 <= i < j ==> #[trigger] s.take(j)[i] == s[i]);
        }
        lemma_dec_value_nonneg(s.take(j));
        assert(spec_dec_value(s.take(j + 1)) == spec_dec_value(s.take(j)) * 10 + (s[j] - 48));
    } else {
        assert(s.take(j) =~= s);
    }
}

/// One escaped byte of a JSON string: quote and backslash get a backslash,
/// control bytes become `\u00XX`, everything else stands as itself.
pub open spec fn spec_escape_byte(b: u8) -> Seq<u8> {
    if b == 34 {
        seq![92u8, 34u8]
    } else if b == 92 {
        seq![92u8, 92u8]
    } else if b < 32 {
        seq![92u8, 117u8, 48u8, 48u8, spec_hex_digit((b / 16) as nat), spec_hex_digit(
            (b % 16) as nat,
        )]
    } else {
        seq![b]
    }
}

pub open spec fn spec_hex_digit(d: nat) -> u8 {
    if d < 10 {
        (48 + d) as u8
    } else {
        (55 + d) as u8
    }
}

/// The body of a JSON string literal holding exactly the bytes of `s`.
pub open spec fn spec_escape(s: Seq<u8>) -> Seq<u8>
    decreases s.len(),
{
    if s.len() == 0 {
        Seq::empty()
    } else {
        spec_escape(s.drop_last()) + spec_escape_byte(s.last())
    }
}

fn hex_digit(d: u8) -> (r: u8)
    requires
        d < 16,
    ensures
        r == spec_hex_digit(d as nat),
{
    if d < 10 {
        48 + d
    } else {
        55 + d
    }
}

/// Appends the escaped form of `src` to `dst`.
pub fn push_escaped(dst: &mut Vec<u8>, src: &Vec<u8>)
    ensures
        final(dst)@ == old(dst)@ + spec_escape(src@),
{
    let mut k: usize = 0;
    while k < src.len()
        invariant
            0 <= k <= src.len(),
            dst@ == old(dst)@ + spec_escape(src@.take(k as int)),
        decreases src.len() - k,
    {
        let b = src[k];
        if b == 34 {
            dst.push(92);
            dst.push(34);
        } else if b == 92 {
            dst.push(92);
            dst.push(92);
        } else if b < 32 {
            dst.push(92);
            dst.push(117);
            dst.push(48);
            dst.push(48);
            dst.push(hex_digit(b / 16));
            dst.push(hex_digit(b % 16));
        } else {
            dst.push(b);
        }
        k = k + 1;
        proof {
            assert(src@.take(k as int).drop_last() =~= src@.take(k - 1));
            assert(src@.take(k as int).last() == src@[k - 1]);
            assert(dst@ =~= old(dst)@ + spec_escape(src@.take(k as int)));
        }
    }
    proof {
        assert(src@.take(src@.len() as int) =~= src@);
    }
}

/// Appends `src` unchanged to `dst`.
pub fn push_all(dst: &mut Vec<u8>, src: &Vec<u8>)
    ensures
        final(dst)@ == old(dst)@ + src@,
{
    let mut k: usize = 0;
    while k < src.len()
        invariant
            0 <= k <= src.len(),
            dst@ == old(dst)@ + src@.take(k as int),
        decreases src.len() - k,
    {
        dst.push(src[k]);
        k = k + 1;
        proof {
            assert(dst@ =~= old(dst)@ + src@.take(k as int));
        }
    }
    proof {
        assert(src@.take(src@.len() as int) =~= src@);
    }
}

} // verus!
