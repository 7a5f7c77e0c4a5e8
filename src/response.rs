//! What a reply of the module means: where the framer stops, and the fields that each
//! command's payload carries.
use vstd::prelude::*;
use vstd::string::StringSliceAdditionalSpecFns;

use crate::bytes::{
    copy_range, crlf_line, ends_with, find_from, find_in, parse_decimal, parse_decimal_range, trim_end,
    trim_matches, trim_matches_range, CR, LF,
};
use crate::esp_at::EspAtError;

verus! {

/// Bytes of scratch space that a reply may fill before it is cut off.
pub const BUF_CAPACITY: usize = 1024;

pub const QUOTE: u8 = 0x22;

pub const COMMA: u8 = 0x2c;

/// Length of `+CIPSTA:ip:"`.
pub const IP_PREFIX: usize = 12;

/// Length of `+CIPSTA:gateway:"` and of `+CIPSTA:netmask:"`.
pub const MASK_PREFIX: usize = 17;

/// Length of `+CWJAP:`.
pub const CWJAP_PREFIX: usize = 7;

/// Length of `+PING:`.
pub const PING_PREFIX: usize = 6;

/// What the channel and the round trip read as where their digits do not parse.
pub const UNKNOWN: u8 = 255;

pub open spec fn ok_line() -> Seq<u8> {
    crlf_line("OK".spec_bytes())
}

pub open spec fn error_line() -> Seq<u8> {
    crlf_line("ERROR".spec_bytes())
}

pub open spec fn busy_line() -> Seq<u8> {
    crlf_line("busy p...".spec_bytes())
}

/// What the framer makes of the reply bytes `got` read so far: the payload before `OK`
/// (trailing whitespace cut off), the error that the reply ends in, an overflow once the
/// scratch space is full, or `None` while reading goes on.
pub open spec fn verdict<ER, EW>(got: Seq<u8>) -> Option<Result<Seq<u8>, EspAtError<ER, EW>>> {
    if ends_with(got, ok_line()) {
        Some(Ok(trim_end(got.take(got.len() - ok_line().len()))))
    } else if ends_with(got, error_line()) {
        Some(Err(EspAtError::Error))
    } else if ends_with(got, busy_line()) {
        Some(Err(EspAtError::Busy))
    } else if got.len() >= BUF_CAPACITY {
        Some(Err(EspAtError::BufOverflow))
    } else {
        None
    }
}

/// `got` is a reply read to its end and `r` what it comes to: reading stopped at the first
/// prefix that has a verdict, or where the transport failed before there was one.
pub open spec fn frames<ER, EW>(got: Seq<u8>, r: Result<Seq<u8>, EspAtError<ER, EW>>) -> bool {
    &&& forall|k: int| 0 <= k < got.len() ==> (#[trigger] verdict::<ER, EW>(got.take(k))) is None
    &&& match r {
        Err(EspAtError::SerialRead(_)) => verdict::<ER, EW>(got) is None,
        _ => verdict::<ER, EW>(got) == Some(r),
    }
}

/// `s` ends in one of the lines that close a reply: `OK`, `ERROR` or the busy marker.
pub open spec fn terminated(s: Seq<u8>) -> bool {
    ends_with(s, ok_line()) || ends_with(s, error_line()) || ends_with(s, busy_line())
}

/// A reply that ends in `OK` CR LF comes to `Ok` of the bytes before that `OK`, less trailing
/// whitespace: a prefix of the reply that stops short of the closing line.
pub proof fn lemma_ok_reply<ER, EW>(got: Seq<u8>, r: Result<Seq<u8>, EspAtError<ER, EW>>)
    requires
        frames(got, r),
        ends_with(got, ok_line()),
    ensures
        r == Ok::<Seq<u8>, EspAtError<ER, EW>>(trim_end(got.take(got.len() - ok_line().len()))),
        r matches Ok(p) ==> p.len() <= got.len() - ok_line().len() && p.is_prefix_of(got),
{
    lemma_trim_end_prefix(got.take(got.len() - ok_line().len()));
}

/// A reply that ends in `ERROR` CR LF comes to `Err(Error)`.
pub proof fn lemma_error_reply<ER, EW>(got: Seq<u8>, r: Result<Seq<u8>, EspAtError<ER, EW>>)
    requires
        frames(got, r),
        ends_with(got, error_line()),
    ensures
        r == Err::<Seq<u8>, EspAtError<ER, EW>>(EspAtError::Error),
{
    if ends_with(got, ok_line()) {
        lemma_ok_error_bytes();
        let n = got.len() - 3;
        assert(got.subrange(got.len() - ok_line().len(), got.len() as int)[1] == got[n]);
        assert(got.subrange(got.len() - error_line().len(), got.len() as int)[4] == got[n]);
    }
}

/// The bytes of `OK` and of `ERROR`.
proof fn lemma_ok_error_bytes()
    ensures
        ok_line() == seq![0x4fu8, 0x4bu8, CR, LF],
        error_line() == seq![0x45u8, 0x52u8, 0x52u8, 0x4fu8, 0x52u8, CR, LF],
{
    reveal_strlit("OK");
    reveal_strlit("ERROR");
    vstd::string::is_ascii_spec_bytes("OK");
    vstd::string::is_ascii_spec_bytes("ERROR");
    assert(vstd::string::is_ascii("OK"));
    assert(vstd::string::is_ascii("ERROR"));
    assert(ok_line() =~= seq![0x4fu8, 0x4bu8, CR, LF]);
    assert(error_line() =~= seq![0x45u8, 0x52u8, 0x52u8, 0x4fu8, 0x52u8, CR, LF]);
}

/// Where the module sends `input` and no line that closes a reply ends within its first
/// `BUF_CAPACITY` bytes, the framer reads exactly those bytes and fails with `BufOverflow`
/// (or with the link's own read error): it never hands out a cut-off payload.
pub proof fn lemma_overflow<ER, EW>(
    input: Seq<u8>,
    got: Seq<u8>,
    r: Result<Seq<u8>, EspAtError<ER, EW>>,
)
    requires
        input.len() >= BUF_CAPACITY,
        forall|k: int| 0 < k <= BUF_CAPACITY ==> !terminated(#[trigger] input.take(k)),
        got.is_prefix_of(input),
        frames(got, r),
    ensures
        r is Err,
        !(r matches Err(EspAtError::SerialRead(_))) ==> r == Err::<Seq<u8>, EspAtError<ER, EW>>(
            EspAtError::BufOverflow,
        )
            && got == input.take(BUF_CAPACITY as int),
{
    if got.len() > BUF_CAPACITY {
        let k = BUF_CAPACITY as int;
        assert(got.take(k) == input.take(k));
        assert(verdict::<ER, EW>(got.take(k)) is None);
    }
    if got.len() > 0 {
        assert(got == input.take(got.len() as int));
    }
}

/// The body of an `AT+HTTPCLIENT` payload is everything after its first comma, verbatim,
/// later commas included.
pub proof fn lemma_http_body(p: Seq<u8>, i: int)
    requires
        0 <= i < p.len(),
        p[i] == COMMA,
        forall|j: int| 0 <= j < i ==> p[j] != COMMA,
    ensures
        http_body(p) == p.subrange(i + 1, p.len() as int),
{
    lemma_find_first(p, COMMA, 0, i);
}

/// `find_from` stops at the first match.
proof fn lemma_find_first(s: Seq<u8>, b: u8, from: int, i: int)
    requires
        0 <= from <= i < s.len(),
        s[i] == b,
        forall|j: int| from <= j < i ==> s[j] != b,
    ensures
        find_from(s, b, from) == Some(i),
    decreases i - from,
{
    if from < i {
        lemma_find_first(s, b, from + 1, i);
    }
}

/// Cutting off trailing whitespace leaves a prefix.
proof fn lemma_trim_end_prefix(s: Seq<u8>)
    ensures
        trim_end(s).len() <= s.len(),
        trim_end(s).is_prefix_of(s),
    decreases s.len(),
{
    if s.len() > 0 && crate::bytes::is_space(s.last()) {
        lemma_trim_end_prefix(s.drop_last());
        assert(trim_end(s).is_prefix_of(s)) by {
            let t = trim_end(s);
            assert forall|j: int| 0 <= j < t.len() implies t[j] == s[j] by {
                assert(s.drop_last()[j] == s[j]);
            }
        }
    }
}

/// The line of `p` that starts at `start`, as `str::lines` gives it: up to the next LF, and
/// without the CR before that LF.
pub open spec fn line_at(p: Seq<u8>, start: int) -> Seq<u8> {
    match find_from(p, LF, start) {
        Some(i) => if i > start && p[i - 1] == CR {
            p.subrange(start, i - 1)
        } else {
            p.subrange(start, i)
        },
        None => p.subrange(start, p.len() as int),
    }
}

/// Where the line after the one at `start` begins, where `p` has one.
pub open spec fn next_line(p: Seq<u8>, start: int) -> Option<int> {
    match find_from(p, LF, start) {
        Some(i) => if i + 1 < p.len() {
            Some(i + 1)
        } else {
            None
        },
        None => None,
    }
}

/// The value on a line `<prefix>"<value>"`: what follows the first `prefix` bytes, less the
/// closing byte.
pub open spec fn quoted_value(line: Seq<u8>, prefix: int) -> Option<Seq<u8>> {
    if line.len() > prefix {
        Some(line.subrange(prefix, line.len() - 1))
    } else {
        None
    }
}

/// (ip, gateway, netmask) out of the three `+CIPSTA:` lines of an `AT+CIPSTA?` payload;
/// `None` where the payload is too short for that.
pub open spec fn ifconfig_fields(p: Seq<u8>) -> Option<(Seq<u8>, Seq<u8>, Seq<u8>)> {
    if p.len() == 0 {
        None
    } else {
        match next_line(p, 0) {
            None => None,
            Some(second) => match next_line(p, second) {
                None => None,
                Some(third) => match (
                    quoted_value(line_at(p, 0), IP_PREFIX as int),
                    quoted_value(line_at(p, second), MASK_PREFIX as int),
                    quoted_value(line_at(p, third), MASK_PREFIX as int),
                ) {
                    (Some(ip), Some(gateway), Some(netmask)) => Some((ip, gateway, netmask)),
                    _ => None,
                },
            },
        }
    }
}

/// The payload with which the module says that it has joined no network.
pub open spec fn no_ap() -> Seq<u8> {
    "No AP".spec_bytes()
}

/// A channel number as the decoder reads it: its decimal value, or `UNKNOWN`.
pub open spec fn channel_value(s: Seq<u8>) -> u8 {
    match parse_decimal(s, 255) {
        Some(v) => v as u8,
        None => UNKNOWN,
    }
}

/// (ssid, bssid, channel) out of `+CWJAP:"<ssid>","<bssid>",<channel>,...`: the first three
/// comma-separated fields after the prefix, the first two without their quotes; `None` where
/// the payload has fewer fields.
pub open spec fn iwconfig_fields(p: Seq<u8>) -> Option<(Seq<u8>, Seq<u8>, u8)> {
    let n = CWJAP_PREFIX as int;
    if p.len() < n {
        None
    } else {
        match find_from(p, COMMA, n) {
            None => None,
            Some(c1) => match find_from(p, COMMA, c1 + 1) {
                None => None,
                Some(c2) => {
                    let end = match find_from(p, COMMA, c2 + 1) {
                        Some(c3) => c3,
                        None => p.len() as int,
                    };
                    Some(
                        (
                            trim_matches(p.subrange(n, c1), QUOTE),
                            trim_matches(p.subrange(c1 + 1, c2), QUOTE),
                            channel_value(p.subrange(c2 + 1, end)),
                        ),
                    )
                },
            },
        }
    }
}

/// The round trip in `+PING:<ms>`: the decimal after the prefix, or `UNKNOWN` where it does
/// not parse; `None` where the payload is shorter than the prefix.
pub open spec fn ping_value(p: Seq<u8>) -> Option<u32> {
    if p.len() < PING_PREFIX {
        None
    } else {
        match parse_decimal(p.skip(PING_PREFIX as int), u32::MAX as nat) {
            Some(v) => Some(v as u32),
            None => Some(UNKNOWN as u32),
        }
    }
}

/// What follows the first comma of an `AT+HTTPCLIENT` payload; empty where there is none.
pub open spec fn http_body(p: Seq<u8>) -> Seq<u8> {
    match find_from(p, COMMA, 0) {
        Some(i) => p.skip(i + 1),
        None => Seq::empty(),
    }
}

/// Bounds of the line of `p` that starts at `start`.
fn line_bounds(p: &[u8], start: usize) -> (r: usize)
    requires
        start <= p@.len(),
    ensures
        start <= r <= p@.len(),
        p@.subrange(start as int, r as int) == line_at(p@, start as int),
{
    proof {
        assert(p@.subrange(0, p@.len() as int) == p@);
    }
    match find_in(p, LF, start, p.len()) {
        Some(i) => {
            if i > start && p[i - 1] == CR {
                i - 1
            } else {
                i
            }
        },
        None => p.len(),
    }
}

/// Where the line after the one at `start` begins.
fn next_line_start(p: &[u8], start: usize) -> (r: Option<usize>)
    requires
        start <= p@.len(),
    ensures
        match r {
            Some(i) => next_line(p@, start as int) == Some(i as int) && i < p@.len(),
            None => next_line(p@, start as int) is None,
        },
{
    proof {
        assert(p@.subrange(0, p@.len() as int) == p@);
    }
    match find_in(p, LF, start, p.len()) {
        Some(i) => {
            if i + 1 < p.len() {
                Some(i + 1)
            } else {
                None
            }
        },
        None => None,
    }
}

/// The value on the line of `p` that starts at `start`, behind `prefix` bytes.
fn quoted_value_at(p: &[u8], start: usize, prefix: usize) -> (r: Option<Vec<u8>>)
    requires
        start <= p@.len(),
    ensures
        match r {
            Some(v) => quoted_value(line_at(p@, start as int), prefix as int) == Some(v@),
            None => quoted_value(line_at(p@, start as int), prefix as int) is None,
        },
{
    let end = line_bounds(p, start);
    if end - start > prefix {
        proof {
            let line = p@.subrange(start as int, end as int);
            assert(line.subrange(prefix as int, line.len() - 1) == p@.subrange(
                start + prefix,
                end - 1,
            ));
        }
        Some(copy_range(p, start + prefix, end - 1))
    } else {
        None
    }
}

/// Decodes an `AT+CIPSTA?` payload into (ip, gateway, netmask).
pub fn parse_ifconfig(p: &[u8]) -> (r: Option<(Vec<u8>, Vec<u8>, Vec<u8>)>)
    ensures
        match r {
            Some((ip, gateway, netmask)) => ifconfig_fields(p@) == Some((ip@, gateway@, netmask@)),
            None => ifconfig_fields(p@) is None,
        },
{
    if p.len() == 0 {
        return None;
    }
    let second = match next_line_start(p, 0) {
        Some(i) => i,
        None => return None,
    };
    let third = match next_line_start(p, second) {
        Some(i) => i,
        None => return None,
    };
    let ip = quoted_value_at(p, 0, IP_PREFIX);
    let gateway = quoted_value_at(p, second, MASK_PREFIX);
    let netmask = quoted_value_at(p, third, MASK_PREFIX);
    match (ip, gateway, netmask) {
        (Some(ip), Some(gateway), Some(netmask)) => Some((ip, gateway, netmask)),
        _ => None,
    }
}

/// Decodes a `+CWJAP:` payload into (ssid, bssid, channel).
pub fn parse_iwconfig(p: &[u8]) -> (r: Option<(Vec<u8>, Vec<u8>, u8)>)
    ensures
        match r {
            Some((ssid, bssid, channel)) => iwconfig_fields(p@) == Some((ssid@, bssid@, channel)),
            None => iwconfig_fields(p@) is None,
        },
{
    let n = CWJAP_PREFIX;
    if p.len() < n {
        return None;
    }
    proof {
        assert(p@.subrange(0, p@.len() as int) == p@);
    }
    let c1 = match find_in(p, COMMA, n, p.len()) {
        Some(i) => i,
        None => return None,
    };
    let c2 = match find_in(p, COMMA, c1 + 1, p.len()) {
        Some(i) => i,
        None => return None,
    };
    let end = match find_in(p, COMMA, c2 + 1, p.len()) {
        Some(i) => i,
        None => p.len(),
    };
    let (s0, s1) = trim_matches_range(p, n, c1, QUOTE);
    let (b0, b1) = trim_matches_range(p, c1 + 1, c2, QUOTE);
    let channel = match parse_decimal_range(p, c2 + 1, end, 255) {
        Some(v) => v as u8,
        None => UNKNOWN,
    };
    Some((copy_range(p, s0, s1), copy_range(p, b0, b1), channel))
}

/// Decodes a `+PING:` payload into the round trip in milliseconds.
pub fn parse_ping(p: &[u8]) -> (r: Option<u32>)
    ensures
        r == ping_value(p@),
{
    if p.len() < PING_PREFIX {
        return None;
    }
    proof {
        assert(p@.subrange(PING_PREFIX as int, p@.len() as int) == p@.skip(PING_PREFIX as int));
    }
    match parse_decimal_range(p, PING_PREFIX, p.len(), u32::MAX) {
        Some(v) => Some(v),
        None => Some(UNKNOWN as u32),
    }
}

/// Everything after the first comma of an `AT+HTTPCLIENT` payload.
pub fn parse_http_body(p: &[u8]) -> (r: Vec<u8>)
    ensures
        r@ == http_body(p@),
{
    proof {
        assert(p@.subrange(0, p@.len() as int) == p@);
    }
    match find_in(p, COMMA, 0, p.len()) {
        Some(i) => {
            proof {
                assert(p@.subrange(i + 1, p@.len() as int) == p@.skip(i + 1));
            }
            copy_range(p, i + 1, p.len())
        },
        None => Vec::new(),
    }
}

} // verus!
