//! The marker protocol: classification of a single line of the child
//! compiler's standard output into a phase-boundary event.
//!
//! A marker is one whole line. Leading whitespace is ignored, trailing
//! whitespace is stripped from the payload. Three literal prefixes are
//! recognised; every other line is noise and is ignored.

use vstd::prelude::*;

verus! {

/// ASCII whitespace, the characters trimmed around markers and payloads.
pub open spec fn is_space(c: char) -> bool {
    c == ' ' || c == '\t' || c == '\n' || c == '\r' || c == '\u{b}' || c == '\u{c}'
}

/// The sequence with its leading whitespace removed.
pub open spec fn trim_start(s: Seq<char>) -> Seq<char>
    decreases s.len(),
{
    if s.len() > 0 && is_space(s[0]) {
        trim_start(s.drop_first())
    } else {
        s
    }
}

/// The sequence with its trailing whitespace removed.
pub open spec fn trim_end(s: Seq<char>) -> Seq<char>
    decreases s.len(),
{
    if s.len() > 0 && is_space(s.last()) {
        trim_end(s.drop_last())
    } else {
        s
    }
}

/// `p` is an initial segment of `s`.
pub open spec fn has_prefix(s: Seq<char>, p: Seq<char>) -> bool {
    p.len() <= s.len() && s.subrange(0, p.len() as int) == p
}

/// If the first `k` characters are whitespace and the `k`-th is not (or the
/// sequence ends there), trimming from the start drops exactly those `k`.
proof fn lemma_trim_start_at(s: Seq<char>, k: int)
    requires
        0 <= k <= s.len(),
        forall|i: int| 0 <= i < k ==> is_space(s[i]),
        k < s.len() ==> !is_space(s[k]),
    ensures
        trim_start(s) == s.subrange(k, s.len() as int),
    decreases k,
{
    if k == 0 {
        if s.len() > 0 {
            assert(!is_space(s[0]));
        }
        assert(trim_start(s) == s);
        assert(s.subrange(0, s.len() as int) =~= s);
    } else {
        assert(is_space(s[0]));
        lemma_trim_start_at(s.drop_first(), k - 1);
        assert(s.drop_first().subrange(k - 1, s.drop_first().len() as int) =~= s.subrange(
            k,
            s.len() as int,
        ));
    }
}

/// If every character at or after position `h` is whitespace and the one
/// before `h` is not (or `h` is zero), trimming from the end keeps exactly
/// the first `h`.
proof fn lemma_trim_end_at(s: Seq<char>, h: int)
    requires
        0 <= h <= s.len(),
        forall|i: int| h <= i < s.len() ==> is_space(s[i]),
        h > 0 ==> !is_space(s[h - 1]),
    ensures
        trim_end(s) == s.subrange(0, h),
    decreases s.len(),
{
    if h == s.len() {
        if s.len() > 0 {
            assert(!is_space(s.last()));
        }
        assert(s.subrange(0, s.len() as int) =~= s);
    } else {
        assert(is_space(s.last()));
        lemma_trim_end_at(s.drop_last(), h);
        assert(s.drop_last().subrange(0, h) =~= s.subrange(0, h));
    }
}

/// Decides ASCII whitespace, the exec twin of [`is_space`].
fn space(c: char) -> (r: bool)
    ensures
        r == is_space(c),
{
    c == ' ' || c == '\t' || c == '\n' || c == '\r' || c == '\u{b}' || c == '\u{c}'
}

/// Strips leading and trailing whitespace from a line.
fn trim(s: &str) -> (r: String)
    ensures
        r@ == trim_end(trim_start(s@)),
{
    let n = s.unicode_len();
    let mut lo: usize = 0;
    while lo < n && space(s.get_char(lo))
        invariant
            0 <= lo <= n,
            n == s@.len(),
            forall|i: int| 0 <= i < lo ==> is_space(s@[i]),
        decreases n - lo,
    {
        lo = lo + 1;
    }
    let mut hi: usize = n;
    while hi > lo && space(s.get_char(hi - 1))
        invariant
            lo <= hi <= n,
            n == s@.len(),
            forall|i: int| 0 <= i < lo ==> is_space(s@[i]),
            lo < s@.len() ==> !is_space(s@[lo as int]),
            forall|i: int| hi <= i < n ==> is_space(s@[i]),
        decreases hi,
    {
        hi = hi - 1;
    }
    let r = s.substring_char(lo, hi);
    proof {
        lemma_trim_start_at(s@, lo as int);
        let t = s@.subrange(lo as int, s@.len() as int);
        lemma_trim_end_at(t, hi - lo);
        assert(t.subrange(0, hi - lo) =~= s@.subrange(lo as int, hi as int));
    }
    r.to_owned()
}

/// A decimal digit.
pub open spec fn is_digit(c: char) -> bool {
    48 <= c as u32 && c as u32 <= 57
}

/// The numeric value of one decimal digit.
pub open spec fn digit_val(c: char) -> nat {
    (c as u32 - 48) as nat
}

/// A non-empty sequence made of decimal digits only.
pub open spec fn is_digits(s: Seq<char>) -> bool {
    s.len() > 0 && forall|i: int| 0 <= i < s.len() ==> is_digit(s[i])
}

/// The number a digit sequence denotes, most significant digit first.
pub open spec fn digits_val(s: Seq<char>) -> nat
    decreases s.len(),
{
    if s.len() == 0 {
        0
    } else {
        digits_val(s.drop_last()) * 10 + digit_val(s.last())
    }
}

/// A digit sequence denotes at least what any of its prefixes denotes.
proof fn lemma_digits_val_prefix_le(s: Seq<char>, i: int)
    requires
        0 <= i <= s.len(),
    ensures
        digits_val(s.take(i)) <= digits_val(s),
    decreases s.len() - i,
{
    if i < s.len() {
        lemma_digits_val_prefix_le(s, i + 1);
        assert(s.take(i + 1).drop_last() =~= s.take(i));
        assert(digits_val(s.take(i)) * 10 >= digits_val(s.take(i))) by (nonlinear_arith);
    } else {
        assert(s.take(i) =~= s);
    }
}

/// Whether `s` begins with the literal prefix `p`.
fn starts_with(s: &str, p: &str) -> (r: bool)
    ensures
        r == has_prefix(s@, p@),
{
    let np = p.unicode_len();
    let ns = s.unicode_len();
    if np > ns {
        assert(!has_prefix(s@, p@));
        return false;
    }
    let mut i: usize = 0;
    while i < np
        invariant
            0 <= i <= np,
            np == p@.len(),
            ns == s@.len(),
            np <= ns,
            forall|j: int| 0 <= j < i ==> s@[j] == p@[j],
        decreases np - i,
    {
        if s.get_char(i) != p.get_char(i) {
            assert(s@.subrange(0, p@.len() as int)[i as int] != p@[i as int]);
            return false;
        }
        i = i + 1;
    }
    assert(s@.subrange(0, p@.len() as int) =~= p@);
    true
}

/// A line with leading whitespace ignored and trailing whitespace stripped,
/// the form in which the reconciler reads every line of child output.
pub open spec fn trimmed(line: Seq<char>) -> Seq<char> {
    trim_end(trim_start(line))
}

/// The sentinel prefix announcing the start of a phase.
pub open spec fn start_prefix() -> Seq<char> {
    "/forc-perf start "@
}

/// The sentinel prefix announcing the end of a phase.
pub open spec fn stop_prefix() -> Seq<char> {
    "/forc-perf stop "@
}

/// The sentinel prefix reporting the compiled artifact's size.
pub open spec fn size_prefix() -> Seq<char> {
    "/forc-perf size "@
}

/// The line announces a phase start.
pub open spec fn is_start_line(line: Seq<char>) -> bool {
    has_prefix(trimmed(line), start_prefix())
}

/// The line announces a phase stop.
pub open spec fn is_stop_line(line: Seq<char>) -> bool {
    has_prefix(trimmed(line), stop_prefix())
}

/// The line reports the artifact size.
pub open spec fn is_size_line(line: Seq<char>) -> bool {
    has_prefix(trimmed(line), size_prefix())
}

/// The phase name carried by a start line: what follows the prefix, with
/// trailing whitespace already stripped by [`trimmed`].
pub open spec fn start_payload(line: Seq<char>) -> Seq<char> {
    trimmed(line).skip(start_prefix().len() as int)
}

/// The phase name carried by a stop line.
pub open spec fn stop_payload(line: Seq<char>) -> Seq<char> {
    trimmed(line).skip(stop_prefix().len() as int)
}

/// The digit string carried by a size line.
pub open spec fn size_payload(line: Seq<char>) -> Seq<char> {
    trimmed(line).skip(size_prefix().len() as int)
}

/// A size line whose payload denotes a machine-representable byte count.
pub open spec fn size_payload_ok(line: Seq<char>) -> bool {
    is_digits(size_payload(line)) && digits_val(size_payload(line)) <= usize::MAX
}

/// A violation of the marker protocol; both are fatal to the benchmark.
#[derive(Clone, Copy, Debug, PartialEq, Eq, Structural)]
pub enum ProtocolError {
    /// A stop marker arrived while no phase of that name was open.
    UnmatchedStop,
    /// A size marker's payload is not a representable non-negative integer.
    InvalidSize,
}

/// One classified line of child output.
#[derive(Debug, Clone, PartialEq)]
pub enum Marker {
    /// A phase of the given name begins now.
    Start(String),
    /// The newest open phase of the given name ends now.
    Stop(String),
    /// The compiled artifact is this many bytes.
    Size(usize),
    /// Not a marker; the line is ignored.
    Other,
}

/// Parses a trimmed, all-digit payload into a byte count.
fn parse_size(s: &str) -> (r: Option<usize>)
    ensures
        (match r {
            Some(v) => is_digits(s@) && digits_val(s@) <= usize::MAX && v == digits_val(s@),
            None => !(is_digits(s@) && digits_val(s@) <= usize::MAX),
        }),
{
    let n = s.unicode_len();
    if n == 0 {
        return None;
    }
    let mut acc: usize = 0;
    let mut i: usize = 0;
    while i < n
        invariant
            0 <= i <= n,
            n == s@.len(),
            forall|j: int| 0 <= j < i ==> is_digit(s@[j]),
            acc == digits_val(s@.take(i as int)),
        decreases n - i,
    {
        let c = s.get_char(i);
        let u = c as u32;
        if u < 48 || u > 57 {
            assert(!is_digit(s@[i as int]));
            return None;
        }
        let d = (u - 48) as usize;
        proof {
            assert(s@.take(i + 1).drop_last() =~= s@.take(i as int));
            assert(digits_val(s@.take(i + 1)) == acc * 10 + d);
        }
        let step = match acc.checked_mul(10) {
            Some(t) => t.checked_add(d),
            None => None,
        };
        match step {
            Some(v) => {
                acc = v;
            },
            None => {
                proof {
                    lemma_digits_val_prefix_le(s@, i + 1);
                }
                return None;
            },
        }
        i = i + 1;
    }
    proof {
        assert(s@.take(n as int) =~= s@);
    }
    Some(acc)
}

/// Splits the payload off a trimmed line known to carry the given prefix.
fn payload_of<'a>(t: &'a str, prefix: &str) -> (r: &'a str)
    requires
        has_prefix(t@, prefix@),
    ensures
        r@ == t@.skip(prefix@.len() as int),
{
    let np = prefix.unicode_len();
    let n = t.unicode_len();
    let r = t.substring_char(np, n);
    proof {
        assert(t@.subrange(np as int, n as int) =~= t@.skip(np as int));
    }
    r
}

/// Classifies one line of child output under the marker protocol.
///
/// A line is read with leading whitespace ignored and trailing whitespace
/// stripped. The three sentinel prefixes are tried in order; any other line
/// is noise. A size line whose payload is not a representable non-negative
/// integer is a protocol violation.
pub fn parse_marker(line: &str) -> (r: Result<Marker, ProtocolError>)
    ensures
        (match r {
            Ok(Marker::Start(name)) => is_start_line(line@) && name@ == start_payload(line@),
            Ok(Marker::Stop(name)) => !is_start_line(line@) && is_stop_line(line@) && name@
                == stop_payload(line@),
            Ok(Marker::Size(v)) => !is_start_line(line@) && !is_stop_line(line@) && is_size_line(
                line@,
            ) && size_payload_ok(line@) && v == digits_val(size_payload(line@)),
            Ok(Marker::Other) => !is_start_line(line@) && !is_stop_line(line@) && !is_size_line(
                line@,
            ),
            Err(ProtocolError::InvalidSize) => !is_start_line(line@) && !is_stop_line(line@)
                && is_size_line(line@) && !size_payload_ok(line@),
            Err(ProtocolError::UnmatchedStop) => false,
        }),
{
    let t = trim(line);
    let ts = t.as_str();
    if starts_with(ts, "/forc-perf start ") {
        let name = payload_of(ts, "/forc-perf start ");
        Ok(Marker::Start(name.to_owned()))
    } else if starts_with(ts, "/forc-perf stop ") {
        let name = payload_of(ts, "/forc-perf stop ");
        Ok(Marker::Stop(name.to_owned()))
    } else if starts_with(ts, "/forc-perf size ") {
        let digits = payload_of(ts, "/forc-perf size ");
        match parse_size(digits) {
            Some(v) => Ok(Marker::Size(v)),
            None => Err(ProtocolError::InvalidSize),
        }
    } else {
        Ok(Marker::Other)
    }
}

} // verus!
