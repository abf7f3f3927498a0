//! Gain as a fixed-point number: millionths of unity, so that no floating
//! point is needed to read, compare or display a volume.

use vstd::prelude::*;
use crate::decimal::{
    all_digits, decimal_digits, decimal_value, digit, digit_char, digit_value, is_digit,
    push_decimal, read_digits,
};
use crate::text::{find_from, first_index};

verus! {

/// Millionths in one unit of gain.
pub const UNITY: u64 = 1_000_000;

/// Millionths in one percent of unity.
pub const PERCENT: u64 = 10_000;

/// A volume level. `micros` counts millionths of unity: 400 000 is 0.40, and
/// anything above 1 000 000 is amplification beyond unity.
#[derive(Clone, Copy, Debug, PartialEq, Eq, Structural)]
pub struct Gain {
    pub micros: u64,
}

/// The digits of `s` before its first point.
pub open spec fn whole_part(s: Seq<char>) -> Seq<char> {
    s.subrange(0, first_index(s, '.'))
}

/// What follows the first point of `s`; empty where there is no point.
pub open spec fn frac_part(s: Seq<char>) -> Seq<char> {
    let p = first_index(s, '.');
    if 0 <= p < s.len() {
        s.subrange(p + 1, s.len() as int)
    } else {
        Seq::empty()
    }
}

/// `s` writes a decimal number: digits with at most one point among them, and
/// at least one digit.
pub open spec fn is_decimal_text(s: Seq<char>) -> bool {
    &&& all_digits(whole_part(s))
    &&& all_digits(frac_part(s))
    &&& whole_part(s).len() + frac_part(s).len() > 0
}

/// The digit at place `i` after the point, 0 where `frac` has ended.
pub open spec fn place(frac: Seq<char>, i: int) -> nat {
    if 0 <= i < frac.len() {
        digit_value(frac[i])
    } else {
        0
    }
}

/// The first six places of `frac` as millionths; further places are dropped.
pub open spec fn frac_micros(frac: Seq<char>) -> nat {
    place(frac, 0) * 100_000 + place(frac, 1) * 10_000 + place(frac, 2) * 1_000 + place(frac, 3)
        * 100 + place(frac, 4) * 10 + place(frac, 5)
}

/// The millionths that the decimal text `s` stands for.
pub open spec fn micros_of(s: Seq<char>) -> nat {
    decimal_value(whole_part(s)) * 1_000_000 + frac_micros(frac_part(s))
}

/// Whether all of `s[from..to]` are digits.
fn only_digits(s: &Vec<char>, from: usize, to: usize) -> (yes: bool)
    requires
        from <= to <= s@.len(),
    ensures
        yes == all_digits(s@.subrange(from as int, to as int)),
{
    let ghost run = s@.subrange(from as int, to as int);
    let mut i: usize = from;
    while i < to
        invariant
            from <= i <= to <= s@.len(),
            run == s@.subrange(from as int, to as int),
            forall|j: int| 0 <= j < i - from ==> is_digit(#[trigger] run[j]),
        decreases to - i,
    {
        if !digit(s[i]) {
            assert(run[i - from] == s@[i as int]);
            return false;
        }
        assert(run[i - from] == s@[i as int]);
        i += 1;
    }
    true
}

/// The digit at place `i` of `s[from..to]`, 0 past its end.
fn place_at(s: &Vec<char>, from: usize, to: usize, i: usize) -> (d: u64)
    requires
        from <= to <= s@.len(),
        all_digits(s@.subrange(from as int, to as int)),
        i < 6,
    ensures
        d == place(s@.subrange(from as int, to as int), i as int),
        d <= 9,
{
    if i < to - from {
        let c = s[from + i];
        assert(s@.subrange(from as int, to as int)[i as int] == c);
        (c as u32 - '0' as u32) as u64
    } else {
        0
    }
}

/// The six digits that write `f`, a number of millionths below unity.
pub open spec fn six_places(f: nat) -> Seq<char> {
    seq![
        digit_char(f / 100_000 % 10),
        digit_char(f / 10_000 % 10),
        digit_char(f / 1_000 % 10),
        digit_char(f / 100 % 10),
        digit_char(f / 10 % 10),
        digit_char(f % 10),
    ]
}

/// `s` without its trailing zeros.
pub open spec fn strip_zeros(s: Seq<char>) -> Seq<char>
    decreases s.len(),
{
    if s.len() > 0 && s.last() == '0' {
        strip_zeros(s.drop_last())
    } else {
        s
    }
}

/// A gain in decimal notation, as short as it can be written: the whole part,
/// and the places after the point only as far as they are not zero.
pub open spec fn gain_text(micros: nat) -> Seq<char> {
    if micros % 1_000_000 == 0 {
        decimal_digits(micros / 1_000_000)
    } else {
        decimal_digits(micros / 1_000_000) + seq!['.'] + strip_zeros(
            six_places(micros % 1_000_000),
        )
    }
}

proof fn lemma_strip_zeros(s: Seq<char>, k: int)
    requires
        0 <= k <= s.len(),
        forall|i: int| k <= i < s.len() ==> s[i] == '0',
        k == 0 || s[k - 1] != '0',
    ensures
        strip_zeros(s) == s.take(k),
    decreases s.len() - k,
{
    if k < s.len() {
        lemma_strip_zeros(s.drop_last(), k);
        assert(s.drop_last().take(k) == s.take(k));
    } else {
        assert(s.take(k) == s);
    }
}

/// How many whole units of amplification lie below `micros`: 0 up to and
/// including unity, 1 above it up to twice unity, and so on.
pub open spec fn tier_of(micros: nat) -> nat {
    if micros == 0 {
        0
    } else {
        ((micros - 1) / 1_000_000) as nat
    }
}

/// What is left of `micros` within its tier: at most unity, and unity itself
/// at the top of a tier.
pub open spec fn within_tier(micros: nat) -> nat {
    (micros - tier_of(micros) * 1_000_000) as nat
}

impl Gain {
    /// No gain at all.
    pub fn zero() -> (g: Gain)
        ensures
            g.micros == 0,
    {
        Gain { micros: 0 }
    }

    /// Whether this is exactly no gain.
    pub fn is_zero(&self) -> (yes: bool)
        ensures
            yes == (self.micros == 0),
    {
        self.micros == 0
    }

    /// Whether the gain amplifies beyond unity.
    pub fn is_boosted(&self) -> (yes: bool)
        ensures
            yes == (self.micros > 1_000_000),
            yes == (tier_of(self.micros as nat) > 0),
    {
        self.micros > UNITY
    }

    /// The gain in whole percent of unity, rounded down.
    pub fn percent(&self) -> (p: u64)
        ensures
            p == self.micros / 10_000,
    {
        self.micros / PERCENT
    }

    /// The boost tier of the gain.
    pub fn boost_tier(&self) -> (tier: u64)
        ensures
            tier == tier_of(self.micros as nat),
    {
        if self.micros == 0 {
            0
        } else {
            (self.micros - 1) / UNITY
        }
    }

    /// The gain within its boost tier: whole units of amplification taken
    /// off, so that the result is at most unity.
    pub fn normalized(&self) -> (g: Gain)
        ensures
            g.micros == within_tier(self.micros as nat),
            g.micros <= 1_000_000,
            self.micros > 0 ==> g.micros > 0,
    {
        let tier = self.boost_tier();
        Gain { micros: self.micros - tier * UNITY }
    }

    /// The gain in decimal notation, as short as it can be written.
    pub fn render(&self) -> (out: String)
        ensures
            out@ == gain_text(self.micros as nat),
    {
        let mut out = String::new();
        push_decimal(&mut out, self.micros / UNITY);
        let f: u64 = self.micros % UNITY;
        proof {
            assert(Seq::<char>::empty() + decimal_digits((self.micros / UNITY) as nat)
                == decimal_digits((self.micros / UNITY) as nat));
        }
        if f == 0 {
            return out;
        }
        let mut places: Vec<char> = Vec::new();
        places.push((48u8 + (f / 100_000 % 10) as u8) as char);
        places.push((48u8 + (f / 10_000 % 10) as u8) as char);
        places.push((48u8 + (f / 1_000 % 10) as u8) as char);
        places.push((48u8 + (f / 100 % 10) as u8) as char);
        places.push((48u8 + (f / 10 % 10) as u8) as char);
        places.push((48u8 + (f % 10) as u8) as char);
        assert(places@ =~= six_places(f as nat));
        let mut k: usize = 6;
        while k > 0 && places[k - 1] == '0'
            invariant
                k <= 6,
                places@.len() == 6,
                forall|i: int| k <= i < 6 ==> places@[i] == '0',
            decreases k,
        {
            k -= 1;
        }
        proof {
            lemma_strip_zeros(places@, k as int);
        }
        out.push('.');
        let ghost head = out@;
        let mut i: usize = 0;
        proof {
            assert(places@.take(k as int).take(0) =~= Seq::<char>::empty());
            assert(head + Seq::<char>::empty() == head);
        }
        while i < k
            invariant
                i <= k <= 6,
                places@.len() == 6,
                out@ == head + places@.take(k as int).take(i as int),
            decreases k - i,
        {
            out.push(places[i]);
            proof {
                let kept = places@.take(k as int);
                assert(kept.take(i + 1) == kept.take(i as int).push(places@[i as int]));
                assert((head + kept.take(i as int)).push(places@[i as int]) == head + kept.take(
                    i as int,
                ).push(places@[i as int]));
            }
            i += 1;
        }
        proof {
            let kept = places@.take(k as int);
            assert(kept.take(k as int) == kept);
            let whole = decimal_digits((self.micros / UNITY) as nat);
            assert(whole.push('.') == whole + seq!['.']);
        }
        out
    }

    /// The gain of `percent` hundredths of unity.
    pub fn from_percent(percent: u32) -> (g: Gain)
        ensures
            g.micros == percent * 10_000,
    {
        Gain { micros: percent as u64 * PERCENT }
    }

    /// Reads a gain from decimal text such as `0.40`, `1`, `.5` or `1.`. The
    /// result is `Some` exactly when the text is a decimal number whose
    /// millionths fit in 64 bits.
    pub fn parse(s: &Vec<char>) -> (out: Option<Gain>)
        ensures
            out is Some <==> (is_decimal_text(s@) && micros_of(s@) <= u64::MAX),
            out matches Some(g) ==> g.micros == micros_of(s@),
    {
        let n: usize = s.len();
        proof {
            assert(s@.subrange(0, n as int) == s@);
        }
        let p: usize = find_from(s, 0, '.');
        let start: usize = if p < n {
            p + 1
        } else {
            n
        };
        proof {
            assert(s@.subrange(n as int, n as int) == Seq::<char>::empty());
        }
        if !only_digits(s, start, n) || (p == 0 && start == n) {
            return None;
        }
        let whole = match read_digits(s, 0, p, 18_446_744_073_709) {
            Some(w) => w,
            None => {
                return None;
            },
        };
        let f: u64 = place_at(s, start, n, 0) * 100_000 + place_at(s, start, n, 1) * 10_000
            + place_at(s, start, n, 2) * 1_000 + place_at(s, start, n, 3) * 100 + place_at(
            s,
            start,
            n,
            4,
        ) * 10 + place_at(s, start, n, 5);
        let total: u128 = whole as u128 * 1_000_000 + f as u128;
        if total > 0xFFFF_FFFF_FFFF_FFFF {
            return None;
        }
        Some(Gain { micros: total as u64 })
    }
}

/// Normalising takes whole units off and nothing else: the tier and what is
/// left within it make up the gain again, and what is left is at most unity
/// and not zero unless the gain is.
pub proof fn lemma_tier_splits(micros: nat)
    ensures
        tier_of(micros) * 1_000_000 + within_tier(micros) == micros,
        within_tier(micros) <= 1_000_000,
        micros > 0 ==> within_tier(micros) > 0,
        micros <= 1_000_000 ==> tier_of(micros) == 0 && within_tier(micros) == micros,
{
}

} // verus!
