//! Character-level text handling shared by the front end: Unicode
//! whitespace trimming, splitting at a separator, line splitting, and
//! decimal integer parsing, each with the meaning std gives it.

use vstd::prelude::*;

verus! {

// --- characters -------------------------------------------------------------

/// Whether `c` has the Unicode `White_Space` property (what
/// `char::is_whitespace`, and so `str::trim`, tests).
pub open spec fn is_white_space(c: char) -> bool {
    let u = c as u32;
    (0x9 <= u <= 0xd) || u == 0x20 || u == 0x85 || u == 0xa0 || u == 0x1680 || (0x2000 <= u
        <= 0x200a) || u == 0x2028 || u == 0x2029 || u == 0x202f || u == 0x205f || u == 0x3000
}

/// Whether `c` is an ASCII decimal digit.
pub open spec fn is_ascii_digit(c: char) -> bool {
    '0' <= c && c <= '9'
}

/// `char::is_whitespace`.
pub fn char_is_white_space(c: char) -> (b: bool)
    ensures
        b == is_white_space(c),
{
    let u = c as u32;
    (0x9 <= u && u <= 0xd) || u == 0x20 || u == 0x85 || u == 0xa0 || u == 0x1680 || (0x2000 <= u
        && u <= 0x200a) || u == 0x2028 || u == 0x2029 || u == 0x202f || u == 0x205f || u == 0x3000
}

/// `char::is_ascii_digit`.
pub fn char_is_ascii_digit(c: char) -> (b: bool)
    ensures
        b == is_ascii_digit(c),
{
    '0' <= c && c <= '9'
}

/// The characters of a string.
pub fn chars_of(s: &str) -> (cs: Vec<char>)
    ensures
        cs@ == s@,
{
    let n = s.unicode_len();
    let mut cs: Vec<char> = Vec::new();
    let mut i: usize = 0;
    while i < n
        invariant
            n == s@.len(),
            i <= n,
            cs@ == s@.subrange(0, i as int),
        decreases n - i,
    {
        cs.push(s.get_char(i));
        i += 1;
        assert(cs@ =~= s@.subrange(0, i as int));
    }
    assert(cs@ =~= s@);
    cs
}

/// `String::push`.
///
/// Trusted: std documents that it appends the character to the end of the
/// string.
#[verifier::external_body]
fn push_char(s: &mut String, c: char)
    ensures
        final(s)@ == old(s)@.push(c),
{
    s.push(c);
}

/// A `String` holding exactly the given characters.
pub fn string_from_chars(cs: &[char]) -> (s: String)
    ensures
        s@ == cs@,
{
    let mut s = String::new();
    let mut i: usize = 0;
    while i < cs.len()
        invariant
            i <= cs@.len(),
            s@ == cs@.subrange(0, i as int),
        decreases cs@.len() - i,
    {
        push_char(&mut s, cs[i]);
        i += 1;
        assert(s@ =~= cs@.subrange(0, i as int));
    }
    assert(cs@.subrange(0, cs@.len() as int) =~= cs@);
    s
}

// --- trimming ---------------------------------------------------------------

/// `s` without its leading whitespace.
pub open spec fn trim_start(s: Seq<char>) -> Seq<char>
    decreases s.len(),
{
    if s.len() > 0 && is_white_space(s[0]) {
        trim_start(s.drop_first())
    } else {
        s
    }
}

/// `s` without its trailing whitespace.
pub open spec fn trim_end(s: Seq<char>) -> Seq<char>
    decreases s.len(),
{
    if s.len() > 0 && is_white_space(s.last()) {
        trim_end(s.drop_last())
    } else {
        s
    }
}

/// `s` without leading and trailing whitespace (`str::trim`).
pub open spec fn trim(s: Seq<char>) -> Seq<char> {
    trim_end(trim_start(s))
}

/// The bounds `[lo, hi)` of `cs[from..to]` without its leading and trailing
/// whitespace.
pub fn trim_bounds(cs: &[char], from: usize, to: usize) -> (r: (usize, usize))
    requires
        from <= to <= cs@.len(),
    ensures
        from <= r.0 <= r.1 <= to,
        cs@.subrange(r.0 as int, r.1 as int) == trim(cs@.subrange(from as int, to as int)),
{
    let ghost s = cs@.subrange(from as int, to as int);
    let mut lo = from;
    while lo < to && char_is_white_space(cs[lo])
        invariant
            from <= lo <= to <= cs@.len(),
            trim_start(s) == trim_start(cs@.subrange(lo as int, to as int)),
        decreases to - lo,
    {
        assert(cs@.subrange(lo + 1, to as int) =~= cs@.subrange(lo as int, to as int).drop_first());
        lo += 1;
    }
    assert(trim_start(s) == cs@.subrange(lo as int, to as int));
    let mut hi = to;
    while hi > lo && char_is_white_space(cs[hi - 1])
        invariant
            from <= lo <= hi <= to <= cs@.len(),
            trim(s) == trim_end(cs@.subrange(lo as int, hi as int)),
        decreases hi - lo,
    {
        assert(cs@.subrange(lo as int, hi - 1) =~= cs@.subrange(lo as int, hi as int).drop_last());
        hi -= 1;
    }
    (lo, hi)
}

/// `s.trim()` as a `String`.
pub fn trimmed(s: &str) -> (t: String)
    ensures
        t@ == trim(s@),
{
    let cs = chars_of(s);
    let (lo, hi) = trim_bounds(cs.as_slice(), 0, cs.len());
    assert(cs@.subrange(0, cs@.len() as int) =~= cs@);
    string_from_chars(vstd::slice::slice_subrange(cs.as_slice(), lo, hi))
}

// --- splitting --------------------------------------------------------------

/// The pieces of `s` between occurrences of `sep` (`str::split` with a
/// `char` pattern): one more piece than there are separators.
pub open spec fn split_char(s: Seq<char>, sep: char) -> Seq<Seq<char>>
    decreases s.len(),
{
    if s.len() == 0 {
        seq![Seq::empty()]
    } else {
        let rest = split_char(s.drop_last(), sep);
        if s.last() == sep {
            rest.push(Seq::empty())
        } else {
            rest.update(rest.len() - 1, rest.last().push(s.last()))
        }
    }
}

proof fn lemma_split_char_nonempty(s: Seq<char>, sep: char)
    ensures
        split_char(s, sep).len() >= 1,
    decreases s.len(),
{
    if s.len() > 0 {
        lemma_split_char_nonempty(s.drop_last(), sep);
    }
}

/// The bounds of the pieces of `cs[from..to]` between occurrences of `sep`.
pub fn split_bounds(cs: &[char], from: usize, to: usize, sep: char) -> (r: Vec<(usize, usize)>)
    requires
        from <= to <= cs@.len(),
    ensures
        r@.len() == split_char(cs@.subrange(from as int, to as int), sep).len(),
        forall|k: int|
            0 <= k < r@.len() ==> from <= (#[trigger] r@[k]).0 <= r@[k].1 <= to && cs@.subrange(
                r@[k].0 as int,
                r@[k].1 as int,
            ) == split_char(cs@.subrange(from as int, to as int), sep)[k],
{
    let mut r: Vec<(usize, usize)> = Vec::new();
    let mut start = from;
    let mut i = from;
    while i < to
        invariant
            from <= start <= i <= to <= cs@.len(),
            ({
                let pieces = split_char(cs@.subrange(from as int, i as int), sep);
                &&& r@.len() + 1 == pieces.len()
                &&& forall|k: int|
                    0 <= k < r@.len() ==> from <= (#[trigger] r@[k]).0 <= r@[k].1 <= to
                        && cs@.subrange(r@[k].0 as int, r@[k].1 as int) == pieces[k]
                &&& cs@.subrange(start as int, i as int) == pieces.last()
            }),
        decreases to - i,
    {
        let ghost prev = split_char(cs@.subrange(from as int, i as int), sep);
        proof {
            lemma_split_char_nonempty(cs@.subrange(from as int, i as int), sep);
            assert(cs@.subrange(from as int, i + 1).drop_last() =~= cs@.subrange(from as int, i as int));
        }
        if cs[i] == sep {
            r.push((start, i));
            start = i + 1;
            i += 1;
            proof {
                let pieces = split_char(cs@.subrange(from as int, i as int), sep);
                assert(pieces == prev.push(Seq::empty()));
                assert forall|k: int| 0 <= k < r@.len() implies from <= (#[trigger] r@[k]).0
                    <= r@[k].1 <= to && cs@.subrange(r@[k].0 as int, r@[k].1 as int)
                    == pieces[k] by {}
                assert(cs@.subrange(start as int, i as int) =~= Seq::<char>::empty());
            }
        } else {
            i += 1;
            proof {
                let pieces = split_char(cs@.subrange(from as int, i as int), sep);
                assert(pieces == prev.update(prev.len() - 1, prev.last().push(cs@[i - 1])));
                assert(cs@.subrange(start as int, i as int) =~= cs@.subrange(
                    start as int,
                    i - 1,
                ).push(cs@[i - 1]));
            }
        }
    }
    r.push((start, to));
    r
}

// --- lines ------------------------------------------------------------------

/// A line without the carriage return of a "\r\n" line ending.
pub open spec fn strip_cr(line: Seq<char>) -> Seq<char> {
    if line.len() > 0 && line.last() == '\r' {
        line.drop_last()
    } else {
        line
    }
}

/// The lines of a text (`str::lines`): split at '\n', a '\r' before the
/// '\n' dropped with it, and no empty line after a final line ending.
pub open spec fn lines(text: Seq<char>) -> Seq<Seq<char>> {
    let pieces = split_char(text, '\n');
    let complete = pieces.drop_last().map_values(|p: Seq<char>| strip_cr(p));
    if pieces.last().len() == 0 {
        complete
    } else {
        complete.push(pieces.last())
    }
}

/// The bounds of the lines of `cs`.
pub fn line_bounds(cs: &[char]) -> (r: Vec<(usize, usize)>)
    ensures
        r@.len() == lines(cs@).len(),
        forall|k: int|
            0 <= k < r@.len() ==> (#[trigger] r@[k]).0 <= r@[k].1 <= cs@.len() && cs@.subrange(
                r@[k].0 as int,
                r@[k].1 as int,
            ) == lines(cs@)[k],
{
    let pieces = split_bounds(cs, 0, cs.len(), '\n');
    let ghost sp = split_char(cs@.subrange(0, cs@.len() as int), '\n');
    assert(cs@.subrange(0, cs@.len() as int) =~= cs@);
    proof {
        lemma_split_char_nonempty(cs@, '\n');
    }
    let n = pieces.len();
    let mut r: Vec<(usize, usize)> = Vec::new();
    let mut k: usize = 0;
    while k + 1 < n
        invariant
            n == pieces@.len() == sp.len() >= 1,
            sp == split_char(cs@, '\n'),
            k + 1 <= n,
            r@.len() == k,
            forall|q: int|
                0 <= q < pieces@.len() ==> (#[trigger] pieces@[q]).0 <= pieces@[q].1 <= cs@.len()
                    && cs@.subrange(pieces@[q].0 as int, pieces@[q].1 as int) == sp[q],
            forall|q: int|
                0 <= q < k ==> (#[trigger] r@[q]).0 <= r@[q].1 <= cs@.len() && cs@.subrange(
                    r@[q].0 as int,
                    r@[q].1 as int,
                ) == strip_cr(sp[q]),
        decreases n - k,
    {
        let (a, b) = pieces[k];
        let e = if b > a && cs[b - 1] == '\r' {
            b - 1
        } else {
            b
        };
        proof {
            assert(cs@.subrange(a as int, b as int) == sp[k as int]);
            if b > a && cs@[b - 1] == '\r' {
                assert(cs@.subrange(a as int, e as int) =~= sp[k as int].drop_last());
            }
        }
        r.push((a, e));
        k += 1;
    }
    let (a, b) = pieces[n - 1];
    if b > a {
        r.push((a, b));
    }
    proof {
        let complete = sp.drop_last().map_values(|p: Seq<char>| strip_cr(p));
        assert(cs@.subrange(a as int, b as int) == sp.last());
        if sp.last().len() == 0 {
            assert(r@.len() == complete.len());
        } else {
            assert(r@.len() == complete.len() + 1);
        }
    }
    r
}

// --- decimal integers -------------------------------------------------------

/// The value of a string of decimal digits.
pub open spec fn digits_value(s: Seq<char>) -> int
    decreases s.len(),
{
    if s.len() == 0 {
        0
    } else {
        digits_value(s.drop_last()) * 10 + (s.last() as int - '0' as int)
    }
}

/// Whether every character is an ASCII digit.
pub open spec fn all_digits(s: Seq<char>) -> bool {
    forall|i: int| 0 <= i < s.len() ==> is_ascii_digit(#[trigger] s[i])
}

/// What `str::parse::<i64>` gives: an optional '+' or '-', then one or more
/// ASCII digits, whose value must fit in an `i64`.
pub open spec fn parse_i64_spec(s: Seq<char>) -> Option<i64> {
    let neg = s.len() > 0 && s[0] == '-';
    let body = if s.len() > 0 && (s[0] == '-' || s[0] == '+') {
        s.drop_first()
    } else {
        s
    };
    let v = if neg {
        -digits_value(body)
    } else {
        digits_value(body)
    };
    if body.len() == 0 || !all_digits(body) || v < i64::MIN || v > i64::MAX {
        None
    } else {
        Some(v as i64)
    }
}

/// What `str::parse::<i128>` gives: an optional '+' or '-', then one or more
/// ASCII digits, whose value must fit in an `i128`.
pub open spec fn parse_i128_spec(s: Seq<char>) -> Option<i128> {
    let neg = s.len() > 0 && s[0] == '-';
    let body = if s.len() > 0 && (s[0] == '-' || s[0] == '+') {
        s.drop_first()
    } else {
        s
    };
    let v = if neg {
        -digits_value(body)
    } else {
        digits_value(body)
    };
    if body.len() == 0 || !all_digits(body) || v < i128::MIN || v > i128::MAX {
        None
    } else {
        Some(v as i128)
    }
}

/// What `str::parse::<u64>` gives: an optional '+', then one or more ASCII
/// digits, whose value must fit in a `u64`.
pub open spec fn parse_u64_spec(s: Seq<char>) -> Option<u64> {
    let body = if s.len() > 0 && s[0] == '+' {
        s.drop_first()
    } else {
        s
    };
    if body.len() == 0 || !all_digits(body) || digits_value(body) > u64::MAX {
        None
    } else {
        Some(digits_value(body) as u64)
    }
}

proof fn lemma_digits_value_monotone(s: Seq<char>, k: int)
    requires
        0 <= k <= s.len(),
        all_digits(s),
    ensures
        0 <= digits_value(s.subrange(0, k)) <= digits_value(s),
    decreases s.len() - k,
{
    if k < s.len() {
        lemma_digits_value_monotone(s, k + 1);
        assert(s.subrange(0, k + 1).drop_last() =~= s.subrange(0, k));
        assert(is_ascii_digit(s[k]));
    } else {
        assert(s.subrange(0, k) =~= s);
    }
    lemma_digits_value_nonneg(s.subrange(0, k));
}

proof fn lemma_digits_value_nonneg(s: Seq<char>)
    requires
        all_digits(s),
    ensures
        digits_value(s) >= 0,
    decreases s.len(),
{
    if s.len() > 0 {
        assert(all_digits(s.drop_last()));
        lemma_digits_value_nonneg(s.drop_last());
        assert(is_ascii_digit(s[s.len() - 1]));
    }
}

/// The value of the digits `cs[from..to]` if all are digits and the value
/// is at most `limit`; `None` otherwise.
fn digits_at_most(cs: &[char], from: usize, to: usize, limit: u128) -> (r: Option<u128>)
    requires
        from <= to <= cs@.len(),
    ensures
        ({
            let s = cs@.subrange(from as int, to as int);
            match r {
                Some(v) => all_digits(s) && v == digits_value(s) && v <= limit,
                None => !all_digits(s) || digits_value(s) > limit,
            }
        }),
{
    let ghost s = cs@.subrange(from as int, to as int);
    let mut v: u128 = 0;
    let mut i = from;
    while i < to
        invariant
            from <= i <= to <= cs@.len(),
            s == cs@.subrange(from as int, to as int),
            all_digits(cs@.subrange(from as int, i as int)),
            v == digits_value(cs@.subrange(from as int, i as int)),
            v <= limit,
        decreases to - i,
    {
        let c = cs[i];
        proof {
            assert(cs@.subrange(from as int, i + 1).drop_last() =~= cs@.subrange(from as int, i as int));
        }
        if !char_is_ascii_digit(c) {
            assert(!is_ascii_digit(s[i - from]));
            return None;
        }
        let d = (c as u32 - '0' as u32) as u128;
        proof {
            assert(all_digits(cs@.subrange(from as int, i + 1)));
        }
        if d > limit || v > (limit - d) / 10 {
            proof {
                assert(v * 10 + d > limit) by (nonlinear_arith)
                    requires
                        d > limit || v > (limit - d) / 10,
                ;
                if all_digits(s) {
                    lemma_digits_value_monotone(s, i + 1 - from);
                    assert(s.subrange(0, i + 1 - from) =~= cs@.subrange(from as int, i + 1));
                }
            }
            return None;
        }
        assert(v * 10 + d <= limit) by (nonlinear_arith)
            requires
                d <= limit,
                v <= (limit - d) / 10,
        ;
        v = v * 10 + d;
        i += 1;
    }
    assert(cs@.subrange(from as int, to as int) =~= s);
    Some(v)
}

/// `cs[from..to].parse::<i64>()`.
pub fn parse_i64(cs: &[char], from: usize, to: usize) -> (r: Option<i64>)
    requires
        from <= to <= cs@.len(),
    ensures
        r == parse_i64_spec(cs@.subrange(from as int, to as int)),
{
    let ghost s = cs@.subrange(from as int, to as int);
    let neg = from < to && cs[from] == '-';
    let start = if from < to && (cs[from] == '-' || cs[from] == '+') {
        from + 1
    } else {
        from
    };
    let ghost body = cs@.subrange(start as int, to as int);
    assert(body =~= (if s.len() > 0 && (s[0] == '-' || s[0] == '+') {
        s.drop_first()
    } else {
        s
    }));
    if start == to {
        return None;
    }
    let limit: u128 = if neg {
        0x8000_0000_0000_0000
    } else {
        0x7fff_ffff_ffff_ffff
    };
    match digits_at_most(cs, start, to, limit) {
        None => None,
        Some(v) => {
            if neg {
                if v == 0x8000_0000_0000_0000 {
                    Some(i64::MIN)
                } else {
                    Some(-(v as i64))
                }
            } else {
                Some(v as i64)
            }
        },
    }
}

/// `cs[from..to].parse::<u64>()`.
pub fn parse_u64(cs: &[char], from: usize, to: usize) -> (r: Option<u64>)
    requires
        from <= to <= cs@.len(),
    ensures
        r == parse_u64_spec(cs@.subrange(from as int, to as int)),
{
    let ghost s = cs@.subrange(from as int, to as int);
    let start = if from < to && cs[from] == '+' {
        from + 1
    } else {
        from
    };
    assert(cs@.subrange(start as int, to as int) =~= (if s.len() > 0 && s[0] == '+' {
        s.drop_first()
    } else {
        s
    }));
    if start == to {
        return None;
    }
    match digits_at_most(cs, start, to, u64::MAX as u128) {
        Some(v) => Some(v as u64),
        None => None,
    }
}

// --- searching and assembling -----------------------------------------------

/// Whether `needle` occurs in `hay` starting at `i`.
pub open spec fn occurs_at(hay: Seq<char>, needle: Seq<char>, i: int) -> bool {
    0 <= i && i + needle.len() <= hay.len() && hay.subrange(i, i + needle.len()) == needle
}

/// Whether `needle` occurs in `hay` (`str::contains`).
pub open spec fn contains(hay: Seq<char>, needle: Seq<char>) -> bool {
    exists|i: int| occurs_at(hay, needle, i)
}

/// The first position of `needle` in `cs[from..to]`, relative to `from`.
pub fn find_in(cs: &[char], from: usize, to: usize, needle: &[char]) -> (r: Option<usize>)
    requires
        from <= to <= cs@.len(),
    ensures
        match r {
            Some(i) => occurs_at(cs@.subrange(from as int, to as int), needle@, i as int)
                && forall|k: int|
                0 <= k < i ==> !occurs_at(cs@.subrange(from as int, to as int), needle@, k),
            None => !contains(cs@.subrange(from as int, to as int), needle@),
        },
{
    let ghost h = cs@.subrange(from as int, to as int);
    let n = needle.len();
    if n > to - from {
        assert forall|k: int| !occurs_at(h, needle@, k) by {}
        return None;
    }
    let last = to - from - n;
    let mut i: usize = 0;
    while i <= last
        invariant
            from <= to <= cs@.len(),
            h == cs@.subrange(from as int, to as int),
            n == needle@.len(),
            last == to - from - n,
            i <= last + 1,
            forall|k: int| 0 <= k < i ==> !occurs_at(h, needle@, k),
        decreases last + 1 - i,
    {
        let mut j: usize = 0;
        let mut ok = true;
        while j < n
            invariant
                from <= to <= cs@.len(),
                i <= last,
                last == to - from - n,
                n == needle@.len(),
                j <= n,
                ok == (forall|q: int| 0 <= q < j ==> cs@[from + i + q] == needle@[q]),
            decreases n - j,
        {
            if cs[from + i + j] != needle[j] {
                ok = false;
            }
            j += 1;
        }
        if ok {
            assert(h.subrange(i as int, i + n) =~= needle@);
            return Some(i);
        }
        proof {
            assert forall|q: int| 0 <= q < n implies #[trigger] h.subrange(i as int, i + n)[q] == cs@[from + i + q] by {}
            if occurs_at(h, needle@, i as int) {
                assert forall|q: int| 0 <= q < n implies #[trigger] cs@[from + i + q] == needle@[q] by {
                    assert(h.subrange(i as int, i + n)[q] == needle@[q]);
                }
            }
        }
        i += 1;
    }
    assert forall|k: int| !occurs_at(h, needle@, k) by {
        if 0 <= k < i {
        }
    }
    None
}

/// The first position of `c` in `cs[from..to]`.
pub fn find_char(cs: &[char], from: usize, to: usize, c: char) -> (r: Option<usize>)
    requires
        from <= to <= cs@.len(),
    ensures
        match r {
            Some(i) => from <= i < to && cs@[i as int] == c && forall|k: int|
                from <= k < i ==> cs@[k] != c,
            None => forall|k: int| from <= k < to ==> cs@[k] != c,
        },
{
    let mut i: usize = from;
    while i < to
        invariant
            from <= i <= to <= cs@.len(),
            forall|k: int| from <= k < i ==> cs@[k] != c,
        decreases to - i,
    {
        if cs[i] == c {
            return Some(i);
        }
        i += 1;
    }
    None
}

/// Appends the characters of `s`.
pub fn push_str(out: &mut Vec<char>, s: &str)
    ensures
        final(out)@ == old(out)@ + s@,
{
    let cs = chars_of(s);
    push_chars(out, cs.as_slice());
}

/// Appends the characters `cs`.
pub fn push_chars(out: &mut Vec<char>, cs: &[char])
    ensures
        final(out)@ == old(out)@ + cs@,
{
    let mut i: usize = 0;
    while i < cs.len()
        invariant
            i <= cs@.len(),
            out@ == old(out)@ + cs@.subrange(0, i as int),
        decreases cs@.len() - i,
    {
        out.push(cs[i]);
        i += 1;
        assert(out@ =~= old(out)@ + cs@.subrange(0, i as int));
    }
    assert(cs@.subrange(0, cs@.len() as int) =~= cs@);
}

/// `s` without any leading or trailing `c` (`str::trim_matches` with a `char`).
pub open spec fn trim_char(s: Seq<char>, c: char) -> Seq<char>
    decreases s.len(),
{
    if s.len() > 0 && s[0] == c {
        trim_char(s.drop_first(), c)
    } else if s.len() > 0 && s.last() == c {
        trim_char(s.drop_last(), c)
    } else {
        s
    }
}

/// The bounds of `cs[from..to]` without leading or trailing `c`.
pub fn trim_char_bounds(cs: &[char], from: usize, to: usize, c: char) -> (r: (usize, usize))
    requires
        from <= to <= cs@.len(),
    ensures
        from <= r.0 <= r.1 <= to,
        cs@.subrange(r.0 as int, r.1 as int) == trim_char(cs@.subrange(from as int, to as int), c),
{
    let mut lo = from;
    let mut hi = to;
    while lo < hi && (cs[lo] == c || cs[hi - 1] == c)
        invariant
            from <= lo <= hi <= to <= cs@.len(),
            trim_char(cs@.subrange(from as int, to as int), c) == trim_char(
                cs@.subrange(lo as int, hi as int),
                c,
            ),
        decreases hi - lo,
    {
        if cs[lo] == c {
            assert(cs@.subrange(lo + 1, hi as int) =~= cs@.subrange(lo as int, hi as int).drop_first());
            lo += 1;
        } else {
            assert(cs@.subrange(lo as int, hi - 1) =~= cs@.subrange(lo as int, hi as int).drop_last());
            hi -= 1;
        }
    }
    (lo, hi)
}

/// `cs[from..to].parse::<i128>()`.
pub fn parse_i128(cs: &[char], from: usize, to: usize) -> (r: Option<i128>)
    requires
        from <= to <= cs@.len(),
    ensures
        r == parse_i128_spec(cs@.subrange(from as int, to as int)),
{
    let ghost s = cs@.subrange(from as int, to as int);
    let neg = from < to && cs[from] == '-';
    let start = if from < to && (cs[from] == '-' || cs[from] == '+') {
        from + 1
    } else {
        from
    };
    assert(cs@.subrange(start as int, to as int) =~= (if s.len() > 0 && (s[0] == '-' || s[0] == '+') {
        s.drop_first()
    } else {
        s
    }));
    if start == to {
        return None;
    }
    let limit: u128 = if neg {
        0x8000_0000_0000_0000_0000_0000_0000_0000
    } else {
        0x7fff_ffff_ffff_ffff_ffff_ffff_ffff_ffff
    };
    match digits_at_most(cs, start, to, limit) {
        None => None,
        Some(v) => {
            if neg {
                if v == 0x8000_0000_0000_0000_0000_0000_0000_0000 {
                    Some(i128::MIN)
                } else {
                    Some(-(v as i128))
                }
            } else {
                Some(v as i128)
            }
        },
    }
}

} // verus!
