//! Grammar of the rendezvous server's control lines.
//!
//! A line is trimmed of ASCII whitespace, split at the first whitespace run
//! into a keyword and an argument, and matched against the few keywords the
//! client understands.  Everything here works on bytes.

use vstd::prelude::*;
use vstd::slice::{slice_subrange, slice_to_vec};
use vstd::string::StringSliceAdditionalSpecFns;
use vstd::utf8::{decode_utf8, valid_utf8};
use crate::packet_handler::string_from_utf8;

verus! {

/// ASCII whitespace: space, tab, line feed, vertical tab, form feed, carriage
/// return.
pub open spec fn is_space(b: u8) -> bool {
    b == 32u8 || (9u8 <= b && b <= 13u8)
}

/// An ASCII decimal digit.
pub open spec fn is_digit(b: u8) -> bool {
    48u8 <= b && b <= 57u8
}

/// `s` without its leading whitespace.
pub open spec fn trim_start(s: Seq<u8>) -> Seq<u8>
    decreases s.len(),
{
    if s.len() > 0 && is_space(s[0]) {
        trim_start(s.skip(1))
    } else {
        s
    }
}

/// `s` without its trailing whitespace.
pub open spec fn trim_end(s: Seq<u8>) -> Seq<u8>
    decreases s.len(),
{
    if s.len() > 0 && is_space(s.last()) {
        trim_end(s.drop_last())
    } else {
        s
    }
}

/// `s` without the whitespace at either end.
pub open spec fn trim(s: Seq<u8>) -> Seq<u8> {
    trim_end(trim_start(s))
}

/// Length of the run of non-whitespace bytes at the start of `s`.
pub open spec fn word_len(s: Seq<u8>) -> nat
    decreases s.len(),
{
    if s.len() == 0 || is_space(s[0]) {
        0
    } else {
        1 + word_len(s.skip(1))
    }
}

/// The first word of a trimmed line.
pub open spec fn keyword(s: Seq<u8>) -> Seq<u8> {
    s.take(word_len(s) as int)
}

/// What follows the first word, without the whitespace that separates them.
pub open spec fn argument(s: Seq<u8>) -> Seq<u8> {
    trim_start(s.skip(word_len(s) as int))
}

/// `p` occurs somewhere in `s` as a contiguous run.
pub open spec fn contains_run(s: Seq<u8>, p: Seq<u8>) -> bool {
    exists|i: int| 0 <= i && i + p.len() <= s.len() && #[trigger] s.subrange(i, i + p.len()) == p
}

/// The value of one digit; any other byte counts as nothing.
pub open spec fn digit_value(b: u8) -> nat {
    if is_digit(b) {
        (b - 48u8) as nat
    } else {
        0
    }
}

/// The number that a run of decimal digits denotes.
pub open spec fn decimal_value(s: Seq<u8>) -> nat
    decreases s.len(),
{
    if s.len() == 0 {
        0
    } else {
        decimal_value(s.drop_last()) * 10 + digit_value(s.last())
    }
}

/// Every byte of `s` is a decimal digit.
pub open spec fn all_digits(s: Seq<u8>) -> bool {
    forall|i: int| 0 <= i < s.len() ==> is_digit(#[trigger] s[i])
}

/// `s` without one leading plus sign.
pub open spec fn unsigned_part(s: Seq<u8>) -> Seq<u8> {
    if s.len() > 0 && s[0] == 43u8 {
        s.skip(1)
    } else {
        s
    }
}

/// The port that `s` spells: one or more decimal digits, optionally after a
/// plus sign, denoting a number that fits 16 bits.
pub open spec fn port_value(s: Seq<u8>) -> Option<u16> {
    let d = unsigned_part(s);
    if d.len() > 0 && all_digits(d) && decimal_value(d) <= 65535 {
        Some(decimal_value(d) as u16)
    } else {
        None
    }
}

/// The meaning of one control line.
pub enum LineMeaning {
    /// `set-oid <value>`: the public identifier.
    SetOid(Seq<char>),
    /// `set-pid <value>`: the private registration token.
    SetPid(Seq<char>),
    /// `connect-relay <port>`: the relay port.
    ConnectRelay(u16),
    /// An explicit failure, or a recognised keyword with a garbled argument.
    Failure,
    /// Anything else; such lines are skipped.
    Ignored,
}

/// The parsed form of one control line.
#[derive(Debug, Clone, PartialEq, Eq)]
pub enum ServerLine {
    SetOid(String),
    SetPid(String),
    ConnectRelay(u16),
    Failure,
    Ignored,
}

impl View for ServerLine {
    type V = LineMeaning;

    open spec fn view(&self) -> LineMeaning {
        match self {
            ServerLine::SetOid(v) => LineMeaning::SetOid(v@),
            ServerLine::SetPid(v) => LineMeaning::SetPid(v@),
            ServerLine::ConnectRelay(p) => LineMeaning::ConnectRelay(*p),
            ServerLine::Failure => LineMeaning::Failure,
            ServerLine::Ignored => LineMeaning::Ignored,
        }
    }
}

/// Whether a trimmed line reports a failure: it begins with `ERROR` or holds
/// `Unknown` anywhere.
pub open spec fn reports_failure(t: Seq<u8>) -> bool {
    "ERROR".spec_bytes().is_prefix_of(t) || contains_run(t, "Unknown".spec_bytes())
}

/// The meaning of the raw line `s` while an identity is awaited.  The keyword
/// is looked at first: a `set-oid` or `set-pid` line with a value gives that
/// value, whatever the value holds, since a token is opaque and may well
/// spell `Unknown`.  A `connect-relay` line counts for nothing there unless
/// its port is unreadable, which is garbled content and a failure in any
/// phase.  Any other line that reports a failure ends the phase.
pub open spec fn classify(s: Seq<u8>) -> LineMeaning {
    let t = trim(s);
    let kw = keyword(t);
    let arg = argument(t);
    if kw == "set-oid".spec_bytes() || kw == "set-pid".spec_bytes() {
        if arg.len() == 0 {
            LineMeaning::Ignored
        } else if !valid_utf8(arg) {
            LineMeaning::Failure
        } else if kw == "set-oid".spec_bytes() {
            LineMeaning::SetOid(decode_utf8(arg))
        } else {
            LineMeaning::SetPid(decode_utf8(arg))
        }
    } else if kw == "connect-relay".spec_bytes() {
        match port_value(arg) {
            Some(p) => LineMeaning::ConnectRelay(p),
            None => LineMeaning::Failure,
        }
    } else if reports_failure(t) {
        LineMeaning::Failure
    } else {
        LineMeaning::Ignored
    }
}

/// The meaning of the raw line `s` while a relay port is awaited.  Only
/// `connect-relay` is a keyword there.  Every other line that reports a
/// failure ends the phase, identity lines among them: a line that holds
/// `Unknown` is never skipped.
pub open spec fn classify_relay(s: Seq<u8>) -> LineMeaning {
    let t = trim(s);
    if keyword(t) == "connect-relay".spec_bytes() {
        match port_value(argument(t)) {
            Some(p) => LineMeaning::ConnectRelay(p),
            None => LineMeaning::Failure,
        }
    } else if reports_failure(t) {
        LineMeaning::Failure
    } else {
        LineMeaning::Ignored
    }
}

/// Whether `b` is ASCII whitespace.
pub fn byte_is_space(b: u8) -> (res: bool)
    ensures
        res == is_space(b),
{
    b == 32u8 || (9u8 <= b && b <= 13u8)
}

/// Index of the first byte of `s` that is not whitespace.
pub fn skip_spaces(s: &[u8]) -> (i: usize)
    ensures
        i <= s@.len(),
        trim_start(s@) == s@.skip(i as int),
{
    let mut i: usize = 0;
    assert(s@.skip(0) =~= s@);
    while i < s.len() && byte_is_space(s[i])
        invariant
            i <= s@.len(),
            trim_start(s@) == trim_start(s@.skip(i as int)),
        decreases s@.len() - i,
    {
        assert(s@.skip(i as int).skip(1) =~= s@.skip(i + 1));
        i += 1;
    }
    i
}

/// The part of `s` between its leading and trailing whitespace.
pub fn trim_bytes(s: &[u8]) -> (res: &[u8])
    ensures
        res@ == trim(s@),
{
    let start = skip_spaces(s);
    let ghost t = s@.skip(start as int);
    let mut end: usize = s.len();
    assert(t.take(end - start) =~= t);
    while end > start && byte_is_space(s[end - 1])
        invariant
            start <= end <= s@.len(),
            t == s@.skip(start as int),
            trim_end(t) == trim_end(t.take(end - start)),
        decreases end,
    {
        assert(t.take(end - start).drop_last() =~= t.take(end - 1 - start));
        end -= 1;
    }
    slice_subrange(s, start, end)
}

/// Length of the first word of `s`.
pub fn first_word_len(s: &[u8]) -> (k: usize)
    ensures
        k == word_len(s@),
        k <= s@.len(),
{
    let mut k: usize = 0;
    assert(s@.skip(0) =~= s@);
    while k < s.len() && !byte_is_space(s[k])
        invariant
            k <= s@.len(),
            word_len(s@) == k + word_len(s@.skip(k as int)),
        decreases s@.len() - k,
    {
        assert(s@.skip(k as int).skip(1) =~= s@.skip(k + 1));
        k += 1;
    }
    k
}

/// Whether `p` stands in `s` at offset `at`.
pub fn matches_at(s: &[u8], p: &[u8], at: usize) -> (res: bool)
    requires
        at + p@.len() <= s@.len(),
    ensures
        res == (s@.subrange(at as int, at + p@.len()) == p@),
{
    let n: usize = s.len();
    let mut k: usize = 0;
    while k < p.len()
        invariant
            k <= p@.len(),
            at + p@.len() <= s@.len(),
            n == s@.len(),
            forall|m: int| 0 <= m < k ==> s@[at + m] == p@[m],
        decreases p@.len() - k,
    {
        if s[at + k] != p[k] {
            return false;
        }
        k += 1;
    }
    assert(s@.subrange(at as int, at + p@.len()) =~= p@);
    true
}

/// Whether `a` and `b` hold the same bytes.
pub fn bytes_equal(a: &[u8], b: &[u8]) -> (res: bool)
    ensures
        res == (a@ == b@),
{
    if a.len() != b.len() {
        return false;
    }
    assert(a@.subrange(0, 0usize + b@.len()) =~= a@);
    matches_at(a, b, 0)
}

/// Whether `s` begins with `p`.
pub fn starts_with(s: &[u8], p: &[u8]) -> (res: bool)
    ensures
        res == p@.is_prefix_of(s@),
{
    if p.len() > s.len() {
        return false;
    }
    matches_at(s, p, 0)
}

/// Whether `p` occurs anywhere in `s`.
pub fn contains(s: &[u8], p: &[u8]) -> (res: bool)
    ensures
        res == contains_run(s@, p@),
{
    if p.len() > s.len() {
        return false;
    }
    if p.len() == 0 {
        assert(s@.subrange(0, 0 + p@.len() as int) =~= p@);
        return true;
    }
    let last: usize = s.len() - p.len();
    let mut i: usize = 0;
    while i <= last
        invariant
            i <= last + 1,
            last < usize::MAX,
            last == s@.len() - p@.len(),
            forall|j: int| 0 <= j < i ==> #[trigger] s@.subrange(j, j + p@.len()) != p@,
        decreases last + 1 - i,
    {
        if matches_at(s, p, i) {
            return true;
        }
        i += 1;
    }
    false
}

/// A run of digits denotes at least as much as any of its prefixes.
proof fn lemma_decimal_prefix(s: Seq<u8>, k: int)
    requires
        0 <= k <= s.len(),
    ensures
        decimal_value(s.take(k)) <= decimal_value(s),
    decreases s.len(),
{
    if k == s.len() {
        assert(s.take(k) =~= s);
    } else {
        assert(s.drop_last().take(k) =~= s.take(k));
        lemma_decimal_prefix(s.drop_last(), k);
    }
}

/// Reads a port number: decimal digits, optionally after a plus sign, that
/// denote a number of at most 65535.
pub fn parse_port(s: &[u8]) -> (res: Option<u16>)
    ensures
        res == port_value(s@),
{
    let from: usize = if s.len() > 0 && s[0] == 43u8 { 1 } else { 0 };
    let d = slice_subrange(s, from, s.len());
    if d.len() == 0 {
        return None;
    }
    let mut acc: u32 = 0;
    let mut i: usize = 0;
    while i < d.len()
        invariant
            i <= d@.len(),
            d@ == unsigned_part(s@),
            all_digits(d@.take(i as int)),
            acc == decimal_value(d@.take(i as int)),
            acc <= 65535,
        decreases d@.len() - i,
    {
        let b = d[i];
        if b < 48u8 || b > 57u8 {
            return None;
        }
        let next: u32 = acc * 10 + (b - 48u8) as u32;
        proof {
            assert(d@.take(i + 1).drop_last() =~= d@.take(i as int));
            lemma_decimal_prefix(d@, i + 1);
        }
        if next > 65535 {
            return None;
        }
        acc = next;
        i += 1;
    }
    assert(d@.take(i as int) =~= d@);
    Some(acc as u16)
}

/// Works out what one line from the server means while an identity is
/// awaited.
pub fn parse_line(line: &[u8]) -> (res: ServerLine)
    ensures
        res@ == classify(line@),
{
    let t = trim_bytes(line);
    let k = first_word_len(t);
    let kw = slice_subrange(t, 0, k);
    let rest = slice_subrange(t, k, t.len());
    let arg = slice_subrange(rest, skip_spaces(rest), rest.len());
    let is_oid = bytes_equal(kw, "set-oid".as_bytes());
    if is_oid || bytes_equal(kw, "set-pid".as_bytes()) {
        if arg.len() == 0 {
            return ServerLine::Ignored;
        }
        match string_from_utf8(slice_to_vec(arg)) {
            None => ServerLine::Failure,
            Some(value) => if is_oid {
                ServerLine::SetOid(value)
            } else {
                ServerLine::SetPid(value)
            },
        }
    } else if bytes_equal(kw, "connect-relay".as_bytes()) {
        match parse_port(arg) {
            Some(p) => ServerLine::ConnectRelay(p),
            None => ServerLine::Failure,
        }
    } else if starts_with(t, "ERROR".as_bytes()) || contains(t, "Unknown".as_bytes()) {
        ServerLine::Failure
    } else {
        ServerLine::Ignored
    }
}

/// Works out what one line from the server means while a relay port is
/// awaited.
pub fn parse_relay_line(line: &[u8]) -> (res: ServerLine)
    ensures
        res@ == classify_relay(line@),
{
    let t = trim_bytes(line);
    let k = first_word_len(t);
    let kw = slice_subrange(t, 0, k);
    if bytes_equal(kw, "connect-relay".as_bytes()) {
        let rest = slice_subrange(t, k, t.len());
        let arg = slice_subrange(rest, skip_spaces(rest), rest.len());
        match parse_port(arg) {
            Some(p) => ServerLine::ConnectRelay(p),
            None => ServerLine::Failure,
        }
    } else if starts_with(t, "ERROR".as_bytes()) || contains(t, "Unknown".as_bytes()) {
        ServerLine::Failure
    } else {
        ServerLine::Ignored
    }
}

/// In the relay phase a line that begins with `ERROR` or holds `Unknown`
/// never passes: unless it is a `connect-relay` line, which is judged by its
/// port, it is a failure.
pub proof fn lemma_relay_failure_lines(s: Seq<u8>)
    requires
        reports_failure(trim(s)),
    ensures
        !(classify_relay(s) is Ignored),
        keyword(trim(s)) != "connect-relay".spec_bytes() ==> classify_relay(s) is Failure,
        classify_relay(s) is ConnectRelay ==> port_value(argument(trim(s))) == Some(
            classify_relay(s)->ConnectRelay_0,
        ),
{
}

} // verus!
