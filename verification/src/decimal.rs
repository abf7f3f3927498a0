//! Decimal numerals: reading unsigned integers from digits and writing them
//! back.

use vstd::prelude::*;

verus! {

/// `c` is one of the ten ASCII digits.
pub open spec fn is_digit(c: char) -> bool {
    '0' <= c <= '9'
}

/// The number a digit stands for.
pub open spec fn digit_value(c: char) -> nat
    recommends
        is_digit(c),
{
    (c as u32 - '0' as u32) as nat
}

/// Every character of `s` is a digit.
pub open spec fn all_digits(s: Seq<char>) -> bool {
    forall|i: int| 0 <= i < s.len() ==> is_digit(#[trigger] s[i])
}

/// The number that the digits of `s` write in base ten; 0 for no digits.
pub open spec fn decimal_value(s: Seq<char>) -> nat
    decreases s.len(),
{
    if s.len() == 0 {
        0
    } else {
        decimal_value(s.drop_last()) * 10 + digit_value(s.last())
    }
}

/// The digit that writes `d`.
pub open spec fn digit_char(d: nat) -> char
    recommends
        d < 10,
{
    ('0' as u32 + d) as char
}

/// The digits that write `n` in base ten, without leading zeros.
pub open spec fn decimal_digits(n: nat) -> Seq<char>
    decreases n,
{
    if n < 10 {
        seq![digit_char(n)]
    } else {
        decimal_digits(n / 10).push(digit_char(n % 10))
    }
}

/// A longer run of digits never writes a smaller number than its beginning.
pub proof fn lemma_prefix_value(s: Seq<char>, k: int)
    requires
        0 <= k <= s.len(),
    ensures
        decimal_value(s.take(k)) <= decimal_value(s),
    decreases s.len() - k,
{
    if k < s.len() {
        lemma_prefix_value(s.drop_last(), k);
        assert(s.drop_last().take(k) == s.take(k));
    } else {
        assert(s.take(k) == s);
    }
}

/// Whether `c` is a digit.
pub fn digit(c: char) -> (yes: bool)
    ensures
        yes == is_digit(c),
{
    '0' <= c && c <= '9'
}

/// The largest bound that `read_digits` takes: one more digit still fits.
pub const READ_LIMIT: u64 = 1_844_674_407_370_955_160;

/// Reads `s[from..to]` as digits. The result is `Some` exactly when all of
/// them are digits and the number they write is at most `limit`.
pub fn read_digits(s: &Vec<char>, from: usize, to: usize, limit: u64) -> (out: Option<u64>)
    requires
        from <= to <= s@.len(),
        limit <= READ_LIMIT,
    ensures
        out is Some <==> (all_digits(s@.subrange(from as int, to as int)) && decimal_value(
            s@.subrange(from as int, to as int),
        ) <= limit),
        out matches Some(v) ==> v == decimal_value(s@.subrange(from as int, to as int)),
{
    let ghost run = s@.subrange(from as int, to as int);
    let mut acc: u64 = 0;
    let mut i: usize = from;
    proof {
        assert(run.take(0) =~= Seq::<char>::empty());
    }
    while i < to
        invariant
            from <= i <= to <= s@.len(),
            run == s@.subrange(from as int, to as int),
            limit <= READ_LIMIT,
            all_digits(run.take(i - from)),
            acc == decimal_value(run.take(i - from)),
            acc <= limit,
        decreases to - i,
    {
        let c = s[i];
        assert(run[i - from] == c);
        if !digit(c) {
            return None;
        }
        let d: u64 = (c as u32 - '0' as u32) as u64;
        let next: u64 = acc * 10 + d;
        proof {
            let t = run.take(i - from + 1);
            assert(t.drop_last() == run.take(i - from));
            assert(t.last() == c);
            assert forall|j: int| 0 <= j < t.len() implies is_digit(#[trigger] t[j]) by {
                if j < i - from {
                    assert(t[j] == run.take(i - from)[j]);
                }
            }
        }
        if next > limit {
            proof {
                lemma_prefix_value(run, i - from + 1);
            }
            return None;
        }
        acc = next;
        i += 1;
    }
    proof {
        assert(run.take(to - from) == run);
    }
    Some(acc)
}

/// Reads `s` as an unsigned decimal number. The result is `Some` exactly when
/// `s` is one or more digits whose value fits in 32 bits.
pub fn parse_u32(s: &Vec<char>) -> (out: Option<u32>)
    ensures
        out is Some <==> (s@.len() > 0 && all_digits(s@) && decimal_value(s@) <= u32::MAX),
        out matches Some(v) ==> v == decimal_value(s@),
{
    if s.len() == 0 {
        return None;
    }
    proof {
        assert(s@.subrange(0, s@.len() as int) == s@);
    }
    match read_digits(s, 0, s.len(), 0xFFFF_FFFF) {
        Some(v) => Some(v as u32),
        None => None,
    }
}

/// Appends to `out` the digits that write `n` in base ten.
pub fn push_decimal(out: &mut String, n: u64)
    ensures
        final(out)@ == old(out)@ + decimal_digits(n as nat),
    decreases n,
{
    if n >= 10 {
        push_decimal(out, n / 10);
    }
    let d: u8 = (n % 10) as u8;
    let c: char = (48u8 + d) as char;
    assert(c == digit_char((n % 10) as nat));
    out.push(c);
    proof {
        if n < 10 {
            assert(old(out)@.push(c) == old(out)@ + seq![c]);
        } else {
            let head = decimal_digits((n / 10) as nat);
            assert((old(out)@ + head).push(c) == old(out)@ + head.push(c));
        }
    }
}

/// The digits that write `n` in base ten.
pub fn format_decimal(n: u64) -> (out: String)
    ensures
        out@ == decimal_digits(n as nat),
{
    let mut out = String::new();
    push_decimal(&mut out, n);
    proof {
        assert(Seq::<char>::empty() + decimal_digits(n as nat) == decimal_digits(n as nat));
    }
    out
}

} // verus!
