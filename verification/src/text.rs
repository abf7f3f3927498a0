//! Character-level helpers shared by the parsers: conversions between strings
//! and character vectors, prefix and suffix tests, trimming and line splitting.

use vstd::prelude::*;

verus! {

/// `String::push` appends one character to the end of the string and leaves
/// what was there in place.
pub assume_specification[ String::push ](s: &mut String, ch: char)
    ensures
        final(s)@ == old(s)@.push(ch),
;

/// The characters of `s`, in order.
pub fn chars_of(s: &str) -> (out: Vec<char>)
    ensures
        out@ == s@,
{
    let mut out: Vec<char> = Vec::new();
    for c in it: s.chars()
        invariant
            out@ == it.seq().take(it.index@),
    {
        out.push(c);
    }
    out
}

/// The string made of `chars[from..to]`.
pub fn string_of(chars: &Vec<char>, from: usize, to: usize) -> (out: String)
    requires
        from <= to <= chars@.len(),
    ensures
        out@ == chars@.subrange(from as int, to as int),
{
    let mut out = String::new();
    let mut i: usize = from;
    while i < to
        invariant
            from <= i <= to <= chars@.len(),
            out@ == chars@.subrange(from as int, i as int),
        decreases to - i,
    {
        out.push(chars[i]);
        i += 1;
        assert(chars@.subrange(from as int, i as int) == chars@.subrange(
            from as int,
            i - 1,
        ).push(chars@[i - 1]));
    }
    out
}

/// `s` begins with `prefix`.
pub open spec fn has_prefix(s: Seq<char>, prefix: Seq<char>) -> bool {
    prefix.len() <= s.len() && s.subrange(0, prefix.len() as int) == prefix
}

/// `s` ends with `suffix`.
pub open spec fn has_suffix(s: Seq<char>, suffix: Seq<char>) -> bool {
    suffix.len() <= s.len() && s.subrange(s.len() - suffix.len(), s.len() as int) == suffix
}

/// Whether `s[at..]` begins with `pat`; `at` may lie anywhere up to the end.
fn matches_at(s: &Vec<char>, at: usize, pat: &Vec<char>) -> (found: bool)
    requires
        at <= s@.len(),
    ensures
        found == has_prefix(s@.subrange(at as int, s@.len() as int), pat@),
{
    let ghost rest = s@.subrange(at as int, s@.len() as int);
    if pat.len() > s.len() - at {
        return false;
    }
    let mut i: usize = 0;
    while i < pat.len()
        invariant
            at <= s@.len() <= usize::MAX,
            pat@.len() <= s@.len() - at,
            i <= pat@.len(),
            rest == s@.subrange(at as int, s@.len() as int),
            rest.subrange(0, i as int) == pat@.subrange(0, i as int),
        decreases pat@.len() - i,
    {
        if s[at + i] != pat[i] {
            proof {
                assert(rest.subrange(0, pat@.len() as int)[i as int] == rest[i as int]);
                assert(rest[i as int] != pat@[i as int]);
            }
            return false;
        }
        i += 1;
        proof {
            assert(rest.subrange(0, i as int) == rest.subrange(0, i - 1).push(rest[i - 1]));
            assert(pat@.subrange(0, i as int) == pat@.subrange(0, i - 1).push(pat@[i - 1]));
        }
    }
    proof {
        assert(pat@.subrange(0, pat@.len() as int) == pat@);
    }
    true
}

/// Whether `s` begins with `prefix`.
pub fn starts_with(s: &Vec<char>, prefix: &str) -> (found: bool)
    ensures
        found == has_prefix(s@, prefix@),
{
    let pat = chars_of(prefix);
    proof {
        assert(s@.subrange(0, s@.len() as int) == s@);
    }
    matches_at(s, 0, &pat)
}

/// Whether `s` ends with `suffix`.
pub fn ends_with(s: &Vec<char>, suffix: &str) -> (found: bool)
    ensures
        found == has_suffix(s@, suffix@),
{
    let pat = chars_of(suffix);
    if pat.len() > s.len() {
        return false;
    }
    let at: usize = s.len() - pat.len();
    let found = matches_at(s, at, &pat);
    proof {
        let rest = s@.subrange(at as int, s@.len() as int);
        assert(rest.subrange(0, pat@.len() as int) == rest);
    }
    found
}

/// Where the first `c` of `s` stands, or the length of `s` if it has none.
pub open spec fn first_index(s: Seq<char>, c: char) -> int
    decreases s.len(),
{
    if s.len() == 0 || s[0] == c {
        0
    } else {
        1 + first_index(s.drop_first(), c)
    }
}

/// `line` without one trailing carriage return.
pub open spec fn strip_cr(line: Seq<char>) -> Seq<char> {
    if line.len() > 0 && line.last() == '\r' {
        line.drop_last()
    } else {
        line
    }
}

/// The lines of `s`: it is cut after each line feed, the line feed is dropped,
/// and so is a carriage return right before it. Text after the last line feed
/// is a line of its own, kept as it is, unless it is empty.
pub open spec fn lines_of(s: Seq<char>) -> Seq<Seq<char>>
    decreases s.len(),
{
    if s.len() == 0 {
        Seq::empty()
    } else {
        let k = first_index(s, '\n');
        if 0 <= k < s.len() {
            seq![strip_cr(s.subrange(0, k))] + lines_of(s.subrange(k + 1, s.len() as int))
        } else {
            seq![s]
        }
    }
}

/// The views of the lines held in `lines`.
pub open spec fn line_views(lines: Seq<Vec<char>>) -> Seq<Seq<char>> {
    Seq::new(lines.len(), |i: int| lines[i]@)
}

/// `first_index` is the one position before which no `c` stands and at which
/// one does, or the end.
pub proof fn lemma_first_index(s: Seq<char>, c: char, k: int)
    requires
        0 <= k <= s.len(),
        forall|i: int| 0 <= i < k ==> s[i] != c,
        k == s.len() || s[k] == c,
    ensures
        first_index(s, c) == k,
    decreases k,
{
    if k > 0 {
        lemma_first_index(s.drop_first(), c, k - 1);
    }
}

/// The position of the first `c` at or after `from`, or the length of `s`.
pub fn find_from(s: &Vec<char>, from: usize, c: char) -> (at: usize)
    requires
        from <= s@.len(),
    ensures
        from <= at <= s@.len(),
        at == from + first_index(s@.subrange(from as int, s@.len() as int), c),
{
    let n: usize = s.len();
    let mut at: usize = from;
    while at < n && s[at] != c
        invariant
            n == s@.len(),
            from <= at <= n,
            forall|i: int| from <= i < at ==> s@[i] != c,
        decreases n - at,
    {
        at += 1;
    }
    proof {
        let rest = s@.subrange(from as int, n as int);
        assert forall|i: int| 0 <= i < at - from implies rest[i] != c by {
            assert(rest[i] == s@[from + i]);
        }
        lemma_first_index(rest, c, at - from);
    }
    at
}

/// Cuts `text` into its lines.
pub fn split_lines(text: &Vec<char>) -> (lines: Vec<Vec<char>>)
    ensures
        line_views(lines@) == lines_of(text@),
{
    let n: usize = text.len();
    let mut lines: Vec<Vec<char>> = Vec::new();
    let mut start: usize = 0;
    proof {
        assert(text@.subrange(0, n as int) == text@);
        assert(line_views(lines@) + lines_of(text@) == lines_of(text@));
    }
    while start < n
        invariant
            n == text@.len(),
            start <= n,
            line_views(lines@) + lines_of(text@.subrange(start as int, n as int)) == lines_of(
                text@,
            ),
        decreases n - start,
    {
        let ghost rest = text@.subrange(start as int, n as int);
        let ghost before = line_views(lines@);
        let end: usize = find_from(text, start, '\n');
        if end == n {
            let line = slice_of(text, start, n);
            lines.push(line);
            proof {
                assert(lines_of(rest) == seq![rest]);
                assert(line_views(lines@) == before + seq![rest]);
                assert(lines_of(text@.subrange(n as int, n as int)) == Seq::<Seq<char>>::empty());
                assert(before + seq![rest] + Seq::<Seq<char>>::empty() == before + seq![rest]);
            }
            start = n;
        } else {
            let stop: usize = if end > start && text[end - 1] == '\r' {
                end - 1
            } else {
                end
            };
            let line = slice_of(text, start, stop);
            lines.push(line);
            proof {
                let raw = rest.subrange(0, end - start);
                assert(raw == text@.subrange(start as int, end as int));
                assert(strip_cr(raw) == text@.subrange(start as int, stop as int));
                let tail = rest.subrange(end - start + 1, rest.len() as int);
                assert(tail == text@.subrange(end + 1, n as int));
                assert(lines_of(rest) == seq![strip_cr(raw)] + lines_of(tail));
                assert(line_views(lines@) == before + seq![strip_cr(raw)]);
                assert(before + (seq![strip_cr(raw)] + lines_of(tail)) == before + seq![
                    strip_cr(raw),
                ] + lines_of(tail));
            }
            start = end + 1;
        }
    }
    proof {
        assert(lines_of(text@.subrange(n as int, n as int)) == Seq::<Seq<char>>::empty());
        assert(line_views(lines@) + Seq::<Seq<char>>::empty() == line_views(lines@));
    }
    lines
}

/// A copy of `chars[from..to]`.
pub fn slice_of(chars: &Vec<char>, from: usize, to: usize) -> (out: Vec<char>)
    requires
        from <= to <= chars@.len(),
    ensures
        out@ == chars@.subrange(from as int, to as int),
{
    let mut out: Vec<char> = Vec::new();
    let mut i: usize = from;
    while i < to
        invariant
            from <= i <= to <= chars@.len(),
            out@ == chars@.subrange(from as int, i as int),
        decreases to - i,
    {
        out.push(chars[i]);
        i += 1;
        assert(chars@.subrange(from as int, i as int) == chars@.subrange(
            from as int,
            i - 1,
        ).push(chars@[i - 1]));
    }
    out
}

/// The characters that count as white space when trimming.
pub open spec fn is_space(c: char) -> bool {
    let n = c as u32;
    (0x09 <= n <= 0x0D) || n == 0x20 || n == 0x85 || n == 0xA0 || n == 0x1680 || (0x2000 <= n
        <= 0x200A) || n == 0x2028 || n == 0x2029 || n == 0x202F || n == 0x205F || n == 0x3000
}

/// `s` without its leading white space.
pub open spec fn trim_start(s: Seq<char>) -> Seq<char>
    decreases s.len(),
{
    if s.len() > 0 && is_space(s[0]) {
        trim_start(s.drop_first())
    } else {
        s
    }
}

/// `s` without its trailing white space.
pub open spec fn trim_end(s: Seq<char>) -> Seq<char>
    decreases s.len(),
{
    if s.len() > 0 && is_space(s.last()) {
        trim_end(s.drop_last())
    } else {
        s
    }
}

/// `s` without white space at either end.
pub open spec fn trimmed(s: Seq<char>) -> Seq<char> {
    trim_end(trim_start(s))
}

proof fn lemma_trim_start(s: Seq<char>, a: int)
    requires
        0 <= a <= s.len(),
        forall|i: int| 0 <= i < a ==> is_space(s[i]),
        a == s.len() || !is_space(s[a]),
    ensures
        trim_start(s) == s.subrange(a, s.len() as int),
    decreases a,
{
    if a > 0 {
        let t = s.drop_first();
        lemma_trim_start(t, a - 1);
        assert(t.subrange(a - 1, t.len() as int) == s.subrange(a, s.len() as int));
    } else {
        assert(s.subrange(0, s.len() as int) == s);
    }
}

proof fn lemma_trim_end(s: Seq<char>, b: int)
    requires
        0 <= b <= s.len(),
        forall|i: int| b <= i < s.len() ==> is_space(s[i]),
        b == 0 || !is_space(s[b - 1]),
    ensures
        trim_end(s) == s.subrange(0, b),
    decreases s.len() - b,
{
    if b < s.len() {
        let t = s.drop_last();
        lemma_trim_end(t, b);
        assert(t.subrange(0, b) == s.subrange(0, b));
    } else {
        assert(s.subrange(0, s.len() as int) == s);
    }
}

/// Whether `c` is white space.
pub fn space(c: char) -> (yes: bool)
    ensures
        yes == is_space(c),
{
    let n: u32 = c as u32;
    (0x09 <= n && n <= 0x0D) || n == 0x20 || n == 0x85 || n == 0xA0 || n == 0x1680 || (0x2000 <= n
        && n <= 0x200A) || n == 0x2028 || n == 0x2029 || n == 0x202F || n == 0x205F || n == 0x3000
}

/// The bounds of `s` without the white space at either end.
pub fn trim_bounds(s: &Vec<char>) -> (bounds: (usize, usize))
    ensures
        bounds.0 <= bounds.1 <= s@.len(),
        s@.subrange(bounds.0 as int, bounds.1 as int) == trimmed(s@),
{
    let n: usize = s.len();
    let mut a: usize = 0;
    while a < n && space(s[a])
        invariant
            n == s@.len(),
            a <= n,
            forall|i: int| 0 <= i < a ==> is_space(s@[i]),
        decreases n - a,
    {
        a += 1;
    }
    let mut b: usize = n;
    while b > a && space(s[b - 1])
        invariant
            n == s@.len(),
            a <= b <= n,
            forall|i: int| b <= i < n ==> is_space(s@[i]),
        decreases b,
    {
        b -= 1;
    }
    proof {
        lemma_trim_start(s@, a as int);
        let rest = s@.subrange(a as int, n as int);
        assert forall|i: int| b - a <= i < rest.len() implies is_space(rest[i]) by {
            assert(rest[i] == s@[a + i]);
        }
        if b > a {
            assert(rest[b - a - 1] == s@[b - 1]);
        } else if a < n {
            assert(rest[0] == s@[a as int]);
        }
        lemma_trim_end(rest, b - a);
        assert(rest.subrange(0, b - a) == s@.subrange(a as int, b as int));
    }
    (a, b)
}

/// `s` without white space at either end.
pub fn trim(s: &Vec<char>) -> (out: Vec<char>)
    ensures
        out@ == trimmed(s@),
{
    let (a, b) = trim_bounds(s);
    slice_of(s, a, b)
}

/// Whether two strings hold the same characters.
pub fn same_text(a: &str, b: &str) -> (same: bool)
    ensures
        same == (a@ == b@),
{
    let x = chars_of(a);
    let y = chars_of(b);
    if x.len() != y.len() {
        return false;
    }
    proof {
        assert(x@.subrange(0, x@.len() as int) == x@);
    }
    matches_at(&x, 0, &y)
}

/// What `str::to_lowercase` makes of a text.
pub uninterp spec fn lowercase_of(s: Seq<char>) -> Seq<char>;

/// `str::to_lowercase` returns the lowercase equivalent of the string as a
/// new `String`; the result depends on the characters alone.
pub assume_specification[ str::to_lowercase ](s: &str) -> (out: String)
    ensures
        out@ == lowercase_of(s@),
;

/// The strings of a list, each by its characters.
pub open spec fn string_views(strings: Seq<String>) -> Seq<Seq<char>> {
    Seq::new(strings.len(), |i: int| strings[i]@)
}

} // verus!
