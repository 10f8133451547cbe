//! Port specifications: a comma-separated list of single ports and inclusive
//! ranges, such as `22,80,1000-1024`, read into the ascending list of the
//! distinct ports it names. Port 0 is never part of the list.

use crate::number::{parse_number, parse_u16, NumberError};
use crate::text::{
    chars_of, find_char, first_index, lemma_first_index, lemma_split_nonempty, split, trim,
    trim_bounds,
};
use vstd::prelude::*;

verus! {

/// Why a port specification is refused.
#[derive(Clone, Copy, Debug, PartialEq, Eq, Structural)]
pub enum PortSpecError {
    /// An item with a `-` does not have exactly one of them.
    InvalidRange,
    /// A port, or one end of a range, is not a 16-bit unsigned numeral.
    InvalidNumber(NumberError),
    /// A range starts above its end.
    InvertedRange,
    /// The specification names no port other than 0.
    NoPorts,
}

impl PortSpecError {
    /// Why the specification is refused, in words.
    pub open spec fn text(self) -> Seq<char> {
        match self {
            PortSpecError::InvalidRange => "Invalid range format"@,
            PortSpecError::InvalidNumber(e) => e.text(),
            PortSpecError::InvertedRange => "Start > end"@,
            PortSpecError::NoPorts => "No valid ports"@,
        }
    }

    /// Why the specification is refused, in words.
    pub fn message(&self) -> (message: String)
        ensures
            message@ == self.text(),
    {
        match self {
            PortSpecError::InvalidRange => "Invalid range format".to_owned(),
            PortSpecError::InvalidNumber(e) => e.message(),
            PortSpecError::InvertedRange => "Start > end".to_owned(),
            PortSpecError::NoPorts => "No valid ports".to_owned(),
        }
    }
}

/// An inclusive range of ports, from `start` to `end`.
#[derive(Clone, Copy, Debug, PartialEq, Eq, Structural)]
pub struct PortRange {
    pub start: u16,
    pub end: u16,
}

/// What an item with a `-` in it denotes: the two numerals around the one `-`,
/// taken as they stand, the first not above the second.
pub open spec fn parse_range(t: Seq<char>) -> Result<PortRange, PortSpecError> {
    let parts = split(t, '-');
    if parts.len() != 2 {
        Err(PortSpecError::InvalidRange)
    } else {
        match parse_u16(parts[0]) {
            Err(e) => Err(PortSpecError::InvalidNumber(e)),
            Ok(start) => match parse_u16(parts[1]) {
                Err(e) => Err(PortSpecError::InvalidNumber(e)),
                Ok(end) => if start > end {
                    Err(PortSpecError::InvertedRange)
                } else {
                    Ok(PortRange { start, end })
                },
            },
        }
    }
}

/// What one piece between commas denotes: nothing when it is blank, a range
/// when it holds a `-`, else a single port.
pub open spec fn parse_item(token: Seq<char>) -> Result<Option<PortRange>, PortSpecError> {
    let t = trim(token);
    if t.len() == 0 {
        Ok(None)
    } else if t.contains('-') {
        match parse_range(t) {
            Err(e) => Err(e),
            Ok(range) => Ok(Some(range)),
        }
    } else {
        match parse_u16(t) {
            Err(e) => Err(PortSpecError::InvalidNumber(e)),
            Ok(port) => Ok(Some(PortRange { start: port, end: port })),
        }
    }
}

/// The ranges that the pieces denote, in order; the error of the first piece
/// that has one.
pub open spec fn parse_items(tokens: Seq<Seq<char>>) -> Result<Seq<PortRange>, PortSpecError>
    decreases tokens.len(),
{
    if tokens.len() == 0 {
        Ok(Seq::empty())
    } else {
        match parse_item(tokens[0]) {
            Err(e) => Err(e),
            Ok(item) => match parse_items(tokens.drop_first()) {
                Err(e) => Err(e),
                Ok(rest) => Ok(with_item(item, rest)),
            },
        }
    }
}

/// `rest` with the range of `item`, if it has one, in front.
pub open spec fn with_item(item: Option<PortRange>, rest: Seq<PortRange>) -> Seq<PortRange> {
    match item {
        Some(range) => seq![range] + rest,
        None => rest,
    }
}

/// Whether one of `ranges` holds `p`.
pub open spec fn covers(ranges: Seq<PortRange>, p: int) -> bool {
    exists|i: int| 0 <= i < ranges.len() && in_range(#[trigger] ranges[i], p)
}

/// Whether `p` lies within `range`.
pub open spec fn in_range(range: PortRange, p: int) -> bool {
    range.start <= p <= range.end
}

/// The ports from 1 to `n` that `ranges` cover, ascending.
pub open spec fn ports_up_to(ranges: Seq<PortRange>, n: nat) -> Seq<u16>
    decreases n,
{
    if n == 0 {
        Seq::empty()
    } else {
        let below = ports_up_to(ranges, (n - 1) as nat);
        if covers(ranges, n as int) {
            below.push(n as u16)
        } else {
            below
        }
    }
}

/// What a port specification denotes: the ports other than 0 that its items
/// cover, ascending and each once, provided every item is well formed and at
/// least one such port is named.
pub open spec fn port_list(s: Seq<char>) -> Result<Seq<u16>, PortSpecError> {
    match parse_items(split(s, ',')) {
        Err(e) => Err(e),
        Ok(ranges) => {
            let ports = ports_up_to(ranges, u16::MAX as nat);
            if ports.len() == 0 {
                Err(PortSpecError::NoPorts)
            } else {
                Ok(ports)
            }
        },
    }
}

/// Whether each element of `ports` is below the next.
pub open spec fn strictly_ascending(ports: Seq<u16>) -> bool {
    forall|i: int, j: int| 0 <= i < j < ports.len() ==> ports[i] < ports[j]
}

/// `ports_up_to(ranges, n)` is strictly ascending and holds exactly the ports
/// from 1 to `n` that `ranges` cover.
pub proof fn lemma_ports_up_to(ranges: Seq<PortRange>, n: nat)
    requires
        n <= u16::MAX,
    ensures
        strictly_ascending(ports_up_to(ranges, n)),
        forall|i: int|
            0 <= i < ports_up_to(ranges, n).len() ==> 1 <= #[trigger] ports_up_to(ranges, n)[i]
                <= n,
        forall|p: u16|
            ports_up_to(ranges, n).contains(p) <==> 1 <= p <= n && covers(ranges, p as int),
    decreases n,
{
    let ports = ports_up_to(ranges, n);
    if n > 0 {
        let below = ports_up_to(ranges, (n - 1) as nat);
        lemma_ports_up_to(ranges, (n - 1) as nat);
        assert forall|p: u16| ports.contains(p) <==> 1 <= p <= n && covers(ranges, p as int) by {
            if covers(ranges, n as int) {
                assert(ports[below.len() as int] == n as u16);
                if below.contains(p) {
                    let i = choose|i: int| 0 <= i < below.len() && below[i] == p;
                    assert(ports[i] == p);
                }
            }
        }
    }
}

/// Every accepted port specification yields a strictly ascending list (so no
/// port occurs twice) that is not empty and does not hold port 0; a port is in
/// the list exactly when it is not 0 and one of the items covers it.
pub proof fn lemma_port_list_ascending(s: Seq<char>)
    ensures
        port_list(s) matches Ok(ports) ==> {
            &&& ports.len() > 0
            &&& strictly_ascending(ports)
            &&& forall|i: int| 0 <= i < ports.len() ==> ports[i] != 0
            &&& forall|i: int, j: int| 0 <= i < j < ports.len() ==> ports[i] != ports[j]
            &&& parse_items(split(s, ',')) matches Ok(ranges) && forall|p: u16|
                ports.contains(p) <==> p != 0 && covers(ranges, p as int)
        },
{
    if let Ok(ranges) = parse_items(split(s, ',')) {
        lemma_ports_up_to(ranges, u16::MAX as nat);
    }
}

/// A range is covered once it is appended, and nothing else changes.
proof fn lemma_covers_push(ranges: Seq<PortRange>, range: PortRange, p: int)
    ensures
        covers(ranges.push(range), p) <==> covers(ranges, p) || in_range(range, p),
{
    let more = ranges.push(range);
    if covers(ranges, p) {
        let i = choose|i: int| 0 <= i < ranges.len() && in_range(#[trigger] ranges[i], p);
        assert(in_range(more[i], p));
    }
    if in_range(range, p) {
        assert(in_range(more[ranges.len() as int], p));
    }
}

/// Reading the pieces of a text goes piece by piece: the first piece, then,
/// where a separator follows it, the pieces of what stands after it.
proof fn lemma_parse_items_step(s: Seq<char>)
    ensures
        parse_items(split(s, ',')) == match parse_item(s.take(first_index(s, ',') as int)) {
            Err(e) => Err(e),
            Ok(item) => if first_index(s, ',') >= s.len() {
                Ok(with_item(item, Seq::empty()))
            } else {
                match parse_items(split(s.skip(first_index(s, ',') as int + 1), ',')) {
                    Err(e) => Err(e),
                    Ok(rest) => Ok(with_item(item, rest)),
                }
            },
        },
{
    let i = first_index(s, ',');
    lemma_first_index(s, ',');
    let tokens = split(s, ',');
    if i >= s.len() {
        assert(s.take(i as int) == s);
        assert(parse_items(tokens.drop_first()) == Ok::<Seq<PortRange>, PortSpecError>(
            Seq::empty(),
        ));
    } else {
        let rest = split(s.skip(i as int + 1), ',');
        assert(tokens.drop_first() == rest);
    }
}

/// Reads `v[lo..hi]` as a range.
pub fn parse_range_at(v: &[char], lo: usize, hi: usize) -> (r: Result<PortRange, PortSpecError>)
    requires
        lo <= hi <= v.len(),
    ensures
        r == parse_range(v@.subrange(lo as int, hi as int)),
{
    let ghost t = v@.subrange(lo as int, hi as int);
    let dash = find_char(v, lo, hi, '-');
    if dash == hi {
        return Err(PortSpecError::InvalidRange);
    }
    let ghost tail = t.skip(dash - lo + 1);
    assert(tail == v@.subrange(dash + 1, hi as int));
    assert(t.take(dash - lo) == v@.subrange(lo as int, dash as int));
    let second = find_char(v, dash + 1, hi, '-');
    proof {
        lemma_first_index(tail, '-');
        lemma_split_nonempty(tail.skip(first_index(tail, '-') as int + 1), '-');
        assert(split(t, '-') == seq![t.take(dash - lo)] + split(tail, '-'));
    }
    if second < hi {
        return Err(PortSpecError::InvalidRange);
    }
    let start = match parse_number(v, lo, dash) {
        Err(e) => {
            return Err(PortSpecError::InvalidNumber(e));
        },
        Ok(n) => n,
    };
    let end = match parse_number(v, dash + 1, hi) {
        Err(e) => {
            return Err(PortSpecError::InvalidNumber(e));
        },
        Ok(n) => n,
    };
    if start > end {
        return Err(PortSpecError::InvertedRange);
    }
    Ok(PortRange { start, end })
}

/// Reads the piece `v[lo..hi]` of a port specification.
pub fn parse_item_at(v: &[char], lo: usize, hi: usize) -> (r: Result<
    Option<PortRange>,
    PortSpecError,
>)
    requires
        lo <= hi <= v.len(),
    ensures
        r == parse_item(v@.subrange(lo as int, hi as int)),
{
    let (a, b) = trim_bounds(v, lo, hi);
    let ghost t = v@.subrange(a as int, b as int);
    if a == b {
        return Ok(None);
    }
    let dash = find_char(v, a, b, '-');
    proof {
        lemma_first_index(t, '-');
    }
    if dash < b {
        match parse_range_at(v, a, b) {
            Err(e) => Err(e),
            Ok(range) => Ok(Some(range)),
        }
    } else {
        match parse_number(v, a, b) {
            Err(e) => Err(PortSpecError::InvalidNumber(e)),
            Ok(port) => Ok(Some(PortRange { start: port, end: port })),
        }
    }
}

/// Marks the ports of `range` in `seen`.
fn mark_range(seen: &mut Vec<bool>, range: PortRange, Ghost(ranges): Ghost<Seq<PortRange>>)
    requires
        old(seen).len() == 65536,
        range.start <= range.end,
        forall|p: int| 0 <= p < 65536 ==> old(seen)[p] == covers(ranges, p),
    ensures
        final(seen).len() == 65536,
        forall|p: int| 0 <= p < 65536 ==> final(seen)[p] == covers(ranges.push(range), p),
{
    let mut p: usize = range.start as usize;
    let end: usize = range.end as usize;
    while p <= end
        invariant
            seen.len() == 65536,
            range.start <= p <= end + 1,
            end == range.end,
            forall|q: int|
                0 <= q < 65536 ==> seen[q] == (covers(ranges, q) || range.start <= q < p),
        decreases end + 1 - p,
    {
        seen.set(p, true);
        p += 1;
    }
    assert forall|q: int| 0 <= q < 65536 implies seen[q] == covers(ranges.push(range), q) by {
        lemma_covers_push(ranges, range, q);
        assert(seen[q] == (covers(ranges, q) || range.start <= q < p));
    }
}

/// The marked ports other than 0, ascending.
fn collect_ports(seen: &Vec<bool>, Ghost(ranges): Ghost<Seq<PortRange>>) -> (ports: Vec<u16>)
    requires
        seen.len() == 65536,
        forall|p: int| 0 <= p < 65536 ==> seen[p] == covers(ranges, p),
    ensures
        ports@ == ports_up_to(ranges, u16::MAX as nat),
{
    let mut ports: Vec<u16> = Vec::new();
    let mut p: usize = 1;
    while p < 65536
        invariant
            seen.len() == 65536,
            1 <= p <= 65536,
            forall|q: int| 0 <= q < 65536 ==> seen[q] == covers(ranges, q),
            ports@ == ports_up_to(ranges, (p - 1) as nat),
        decreases 65536 - p,
    {
        if seen[p] {
            ports.push(p as u16);
        }
        p += 1;
    }
    ports
}

/// Reads a port specification into the ascending list of the distinct ports,
/// other than 0, that it names. Nothing is returned but an error when an item
/// is malformed or when no such port is named.
pub fn parse_ports(s: &str) -> (r: Result<Vec<u16>, PortSpecError>)
    ensures
        match r {
            Ok(ports) => port_list(s@) == Ok::<Seq<u16>, PortSpecError>(ports@),
            Err(e) => port_list(s@) == Err::<Seq<u16>, PortSpecError>(e),
        },
        r matches Ok(ports) ==> {
            &&& ports@.len() > 0
            &&& strictly_ascending(ports@)
            &&& forall|i: int| 0 <= i < ports@.len() ==> ports@[i] != 0
        },
{
    let chars = chars_of(s);
    let v = chars.as_slice();
    let mut seen: Vec<bool> = vec![false; 65536];
    let ghost mut done: Seq<PortRange> = Seq::empty();
    let mut pos: usize = 0;
    proof {
        assert(v@.skip(0) == v@);
        assert forall|rest: Seq<PortRange>| done + rest == rest by {}
    }
    loop
        invariant_except_break
            parse_items(split(v@, ',')) == match parse_items(split(v@.skip(pos as int), ',')) {
                Err(e) => Err(e),
                Ok(rest) => Ok(done + rest),
            },
        invariant
            v@ == s@,
            pos <= v.len(),
            seen.len() == 65536,
            forall|p: int| 0 <= p < 65536 ==> seen[p] == covers(done, p),
        ensures
            seen.len() == 65536,
            forall|p: int| 0 <= p < 65536 ==> seen[p] == covers(done, p),
            parse_items(split(s@, ',')) == Ok::<Seq<PortRange>, PortSpecError>(done),
        decreases v.len() - pos,
    {
        let ghost rest = v@.skip(pos as int);
        let comma = find_char(v, pos, v.len(), ',');
        proof {
            assert(rest.take(comma - pos) == v@.subrange(pos as int, comma as int));
            if comma < v.len() {
                assert(rest.skip(comma - pos + 1) == v@.skip(comma + 1));
            }
            lemma_parse_items_step(rest);
        }
        let item = match parse_item_at(v, pos, comma) {
            Err(e) => {
                return Err(e);
            },
            Ok(item) => item,
        };
        let ghost before = done;
        match item {
            Some(range) => {
                mark_range(&mut seen, range, Ghost(done));
                proof {
                    done = done.push(range);
                }
            },
            None => {},
        }
        proof {
            assert forall|tail: Seq<PortRange>| before + with_item(item, tail) == done + tail by {}
            assert(done + Seq::<PortRange>::empty() == done);
        }
        if comma == v.len() {
            break ;
        }
        pos = comma + 1;
    }
    let ports = collect_ports(&seen, Ghost(done));
    proof {
        lemma_ports_up_to(done, u16::MAX as nat);
    }
    if ports.len() == 0 {
        Err(PortSpecError::NoPorts)
    } else {
        Ok(ports)
    }
}

} // verus!
