//! Byte-sequence helpers shared by the framer and the reply decoders.
use vstd::prelude::*;

verus! {

pub const CR: u8 = 0x0d;

pub const LF: u8 = 0x0a;

/// `s` ends with `suffix`.
pub open spec fn ends_with(s: Seq<u8>, suffix: Seq<u8>) -> bool {
    s.len() >= suffix.len() && s.subrange(s.len() - suffix.len(), s.len() as int) == suffix
}

/// `text` as the module ends a line: followed by CR LF.
pub open spec fn crlf_line(text: Seq<u8>) -> Seq<u8> {
    text + seq![CR, LF]
}

/// `s` starts with `prefix`.
pub open spec fn has_prefix(s: Seq<u8>, prefix: Seq<u8>) -> bool {
    s.len() >= prefix.len() && s.take(prefix.len() as int) == prefix
}

/// Bytes that do not end in LF do not end a line.
pub proof fn lemma_unterminated(s: Seq<u8>, text: Seq<u8>)
    requires
        s.len() > 0,
        s.last() != LF,
    ensures
        !ends_with(s, crlf_line(text)),
{
    let suffix = crlf_line(text);
    if ends_with(s, suffix) {
        assert(s.subrange(s.len() - suffix.len(), s.len() as int)[suffix.len() - 1] == s.last());
    }
}

/// Whitespace as `str::trim_end` sees it among ASCII bytes.
pub open spec fn is_space(b: u8) -> bool {
    b == 0x20 || (0x09 <= b && b <= 0x0d)
}

/// `s` without its trailing whitespace.
pub open spec fn trim_end(s: Seq<u8>) -> Seq<u8>
    decreases s.len(),
{
    if s.len() > 0 && is_space(s.last()) {
        trim_end(s.drop_last())
    } else {
        s
    }
}

/// `s` without the copies of `b` that open it.
pub open spec fn strip_leading(s: Seq<u8>, b: u8) -> Seq<u8>
    decreases s.len(),
{
    if s.len() > 0 && s[0] == b {
        strip_leading(s.drop_first(), b)
    } else {
        s
    }
}

/// `s` without the copies of `b` that close it.
pub open spec fn strip_trailing(s: Seq<u8>, b: u8) -> Seq<u8>
    decreases s.len(),
{
    if s.len() > 0 && s.last() == b {
        strip_trailing(s.drop_last(), b)
    } else {
        s
    }
}

/// `s` without the copies of `b` at either end, as `str::trim_matches` with one character.
pub open spec fn trim_matches(s: Seq<u8>, b: u8) -> Seq<u8> {
    strip_trailing(strip_leading(s, b), b)
}

/// Position of the first `b` in `s` at or after `from`.
pub open spec fn find_from(s: Seq<u8>, b: u8, from: int) -> Option<int>
    decreases s.len() - from,
{
    if from < 0 || from >= s.len() {
        None
    } else if s[from] == b {
        Some(from)
    } else {
        find_from(s, b, from + 1)
    }
}

pub open spec fn is_digit(b: u8) -> bool {
    0x30 <= b && b <= 0x39
}

/// The number that a run of decimal digits spells.
pub open spec fn digits_value(s: Seq<u8>) -> nat
    decreases s.len(),
{
    if s.len() == 0 {
        0
    } else {
        digits_value(s.drop_last()) * 10 + (s.last() - 0x30) as nat
    }
}

pub open spec fn all_digits(s: Seq<u8>) -> bool {
    forall|i: int| 0 <= i < s.len() ==> is_digit(#[trigger] s[i])
}

/// `s` without the one `+` that may open it.
pub open spec fn unsigned_digits(s: Seq<u8>) -> Seq<u8> {
    if s.len() > 0 && s[0] == 0x2b {
        s.drop_first()
    } else {
        s
    }
}

/// The unsigned number that `s` spells, read as `str::parse` reads one: an optional `+`, then
/// one digit or more; `None` where `s` has another shape or the number exceeds `max`.
pub open spec fn parse_decimal(s: Seq<u8>, max: nat) -> Option<nat> {
    let d = unsigned_digits(s);
    if d.len() > 0 && all_digits(d) && digits_value(d) <= max {
        Some(digits_value(d))
    } else {
        None
    }
}

/// Position of the first `b` in `s[from..to]`.
pub fn find_in(s: &[u8], b: u8, from: usize, to: usize) -> (r: Option<usize>)
    requires
        from <= to <= s@.len(),
    ensures
        match r {
            Some(i) => from <= i < to && s@[i as int] == b && find_from(
                s@.subrange(0, to as int),
                b,
                from as int,
            ) == Some(i as int),
            None => find_from(s@.subrange(0, to as int), b, from as int) is None,
        },
{
    let ghost t = s@.subrange(0, to as int);
    let mut i = from;
    while i < to
        invariant
            from <= i <= to <= s@.len(),
            t == s@.subrange(0, to as int),
            find_from(t, b, from as int) == find_from(t, b, i as int),
        decreases to - i,
    {
        if s[i] == b {
            return Some(i);
        }
        i += 1;
    }
    None
}

/// Copy of `s[from..to]`.
pub fn copy_range(s: &[u8], from: usize, to: usize) -> (r: Vec<u8>)
    requires
        from <= to <= s@.len(),
    ensures
        r@ == s@.subrange(from as int, to as int),
{
    let mut r: Vec<u8> = Vec::new();
    let mut i = from;
    while i < to
        invariant
            from <= i <= to <= s@.len(),
            r@ == s@.subrange(from as int, i as int),
        decreases to - i,
    {
        r.push(s[i]);
        proof {
            assert(s@.subrange(from as int, i + 1) == s@.subrange(from as int, i as int).push(
                s@[i as int],
            ));
        }
        i += 1;
    }
    r
}

/// End of `s[..to]` once its trailing whitespace is cut off.
pub fn trim_end_at(s: &[u8], to: usize) -> (r: usize)
    requires
        to <= s@.len(),
    ensures
        r <= to,
        s@.subrange(0, r as int) == trim_end(s@.subrange(0, to as int)),
{
    let mut j = to;
    while j > 0 && (s[j - 1] == 0x20 || (0x09 <= s[j - 1] && s[j - 1] <= 0x0d))
        invariant
            j <= to <= s@.len(),
            trim_end(s@.subrange(0, to as int)) == trim_end(s@.subrange(0, j as int)),
        decreases j,
    {
        proof {
            assert(s@.subrange(0, j as int).drop_last() == s@.subrange(0, j - 1));
        }
        j -= 1;
    }
    j
}

/// Bounds of `s[from..to]` once the copies of `b` at either end are cut off.
pub fn trim_matches_range(s: &[u8], from: usize, to: usize, b: u8) -> (r: (usize, usize))
    requires
        from <= to <= s@.len(),
    ensures
        from <= r.0 <= r.1 <= to,
        s@.subrange(r.0 as int, r.1 as int) == trim_matches(s@.subrange(from as int, to as int), b),
{
    let mut i = from;
    while i < to && s[i] == b
        invariant
            from <= i <= to <= s@.len(),
            strip_leading(s@.subrange(from as int, to as int), b) == strip_leading(
                s@.subrange(i as int, to as int),
                b,
            ),
        decreases to - i,
    {
        proof {
            assert(s@.subrange(i as int, to as int).drop_first() == s@.subrange(i + 1, to as int));
        }
        i += 1;
    }
    let mut j = to;
    while j > i && s[j - 1] == b
        invariant
            from <= i <= j <= to <= s@.len(),
            strip_leading(s@.subrange(from as int, to as int), b) == s@.subrange(
                i as int,
                to as int,
            ),
            strip_trailing(s@.subrange(i as int, to as int), b) == strip_trailing(
                s@.subrange(i as int, j as int),
                b,
            ),
        decreases j,
    {
        proof {
            assert(s@.subrange(i as int, j as int).drop_last() == s@.subrange(i as int, j - 1));
        }
        j -= 1;
    }
    (i, j)
}

/// The number that `s[from..to]` spells in decimal, if it is at most `max`, read as
/// `parse_decimal` says.
pub fn parse_decimal_range(s: &[u8], from: usize, to: usize, max: u32) -> (r: Option<u32>)
    requires
        from <= to <= s@.len(),
    ensures
        match r {
            Some(v) => parse_decimal(s@.subrange(from as int, to as int), max as nat) == Some(
                v as nat,
            ),
            None => parse_decimal(s@.subrange(from as int, to as int), max as nat) is None,
        },
{
    let ghost whole = s@.subrange(from as int, to as int);
    let start = if from < to && s[from] == 0x2b {
        from + 1
    } else {
        from
    };
    let ghost d = s@.subrange(start as int, to as int);
    proof {
        if from < to && s[from as int] == 0x2b {
            assert(whole.drop_first() == d);
        } else {
            assert(whole == d);
        }
    }
    if start == to {
        return None;
    }
    // `acc` is the value read so far, held at `max + 1` once it is past `max`.
    let limit: u64 = max as u64 + 1;
    let mut acc: u64 = 0;
    let mut i = start;
    while i < to
        invariant
            from <= start <= i <= to <= s@.len(),
            d == s@.subrange(start as int, to as int),
            whole == s@.subrange(from as int, to as int),
            d == unsigned_digits(whole),
            limit == max as u64 + 1,
            forall|k: int| start <= k < i ==> is_digit(#[trigger] s@[k]),
            acc <= limit,
            acc < limit ==> acc == digits_value(s@.subrange(start as int, i as int)),
            acc == limit ==> digits_value(s@.subrange(start as int, i as int)) > max,
        decreases to - i,
    {
        let c = s[i];
        if !(0x30 <= c && c <= 0x39) {
            proof {
                assert(!is_digit(d[i - start]));
            }
            return None;
        }
        let ghost prev = s@.subrange(start as int, i as int);
        let ghost next = s@.subrange(start as int, i + 1);
        proof {
            assert(next.drop_last() == prev);
            assert(digits_value(next) == digits_value(prev) * 10 + (c - 0x30) as nat);
        }
        if acc < limit {
            let v = acc * 10 + (c - 0x30) as u64;
            acc = if v > limit {
                limit
            } else {
                v
            };
        }
        i += 1;
    }
    proof {
        assert(s@.subrange(start as int, i as int) == d);
        assert forall|k: int| 0 <= k < d.len() implies is_digit(#[trigger] d[k]) by {
            assert(d[k] == s@[start + k]);
        }
    }
    if acc < limit {
        Some(acc as u32)
    } else {
        None
    }
}

/// Whether `a` and `b` hold the same bytes.
pub fn bytes_eq(a: &[u8], b: &[u8]) -> (r: bool)
    ensures
        r == (a@ == b@),
{
    if a.len() != b.len() {
        return false;
    }
    let mut i: usize = 0;
    while i < a.len()
        invariant
            a@.len() == b@.len(),
            i <= a@.len(),
            forall|k: int| 0 <= k < i ==> a@[k] == b@[k],
        decreases a@.len() - i,
    {
        if a[i] != b[i] {
            return false;
        }
        i += 1;
    }
    proof {
        assert(a@ =~= b@);
    }
    true
}

/// Whether `s` starts with `prefix`.
pub fn starts_with(s: &[u8], prefix: &[u8]) -> (r: bool)
    ensures
        r == has_prefix(s@, prefix@),
{
    if s.len() < prefix.len() {
        return false;
    }
    let mut i: usize = 0;
    while i < prefix.len()
        invariant
            prefix@.len() <= s@.len(),
            i <= prefix@.len(),
            forall|k: int| 0 <= k < i ==> s@[k] == prefix@[k],
        decreases prefix@.len() - i,
    {
        if s[i] != prefix[i] {
            proof {
                assert(s@.take(prefix@.len() as int)[i as int] != prefix@[i as int]);
            }
            return false;
        }
        i += 1;
    }
    proof {
        assert(s@.take(prefix@.len() as int) =~= prefix@);
    }
    true
}

/// Whether the bytes `s[..i]` followed by LF end with the line `text` CR LF.
pub fn ends_with_line(s: &[u8], i: usize, text: &[u8]) -> (r: bool)
    requires
        i <= s@.len(),
    ensures
        r == ends_with(s@.take(i as int).push(LF), crlf_line(text@)),
{
    let ghost got = s@.take(i as int).push(LF);
    let ghost suffix = crlf_line(text@);
    let n = text.len();
    if i <= n {
        return false;
    }
    let start = i - 1 - n;
    let ghost tail = got.subrange(got.len() - suffix.len(), got.len() as int);
    if s[i - 1] != CR {
        proof {
            assert(tail[n as int] != suffix[n as int]);
        }
        return false;
    }
    let mut k: usize = 0;
    while k < n
        invariant
            n == text@.len(),
            start + n + 1 == i <= s@.len(),
            k <= n,
            got == s@.take(i as int).push(LF),
            suffix == crlf_line(text@),
            tail == got.subrange(got.len() - suffix.len(), got.len() as int),
            forall|j: int| 0 <= j < k ==> s@[start + j] == text@[j],
        decreases n - k,
    {
        if s[start + k] != text[k] {
            proof {
                assert(tail[k as int] != suffix[k as int]);
            }
            return false;
        }
        k += 1;
    }
    proof {
        assert(tail =~= suffix);
    }
    true
}

} // verus!
