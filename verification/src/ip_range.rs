//! The set of target addresses of one scan: how it is written, how many
//! addresses it holds, and in which order they are handed out.
//!
//! Three notations are read, tried in this order:
//!
//! 1. any text with a `/` is a host address with a network length
//!    (`10.1.9.32/16`) and stands for the whole block around that host;
//! 2. `a.b.c.start-end` stands for the addresses `a.b.c.start` up to and
//!    including `a.b.c.end`;
//! 3. a dotted quad stands for that single address.
//!
//! Addresses are 32-bit numbers (see [`crate::address`]).

use crate::address::{
    block, block_size, dotted_quad, lemma_block_bounds, network_base, octet, pack, pack_octets,
    parse_dotted_quad, parse_octet,
};
use crate::text::{
    all_digits, chars_of, numeral, parse_numeral, signed_numeral, split, split_fields, tail_len,
    window_contains, windows,
};
use vstd::arithmetic::power2::*;
use vstd::prelude::*;

verus! {

/// A set of IPv4 addresses that is walked in ascending order.
#[derive(Clone, Copy, Debug, PartialEq, Eq, Structural)]
pub enum IpRange {
    /// The block of all addresses that share the first `prefix` bits of
    /// `address`. The host bits of `address` need not be zero.
    Cidr { address: u32, prefix: u8 },
    /// The addresses from `start` up to and including `end`.
    Range { start: u32, end: u32 },
}

/// Makes `ipnetwork::Ipv4NetworkIterator` known as an opaque type: nothing
/// is said of what is inside a value of it.
#[verifier::external_type_specification]
#[verifier::external_body]
pub struct ExIpv4NetworkIterator(ipnetwork::Ipv4NetworkIterator);

/// The text of the error that `cidr::Ipv4Inet` reports for a text it does
/// not accept.
pub uninterp spec fn inet_complaint(s: Seq<char>) -> Seq<char>;

/// The addresses that an `ipnetwork::Ipv4NetworkIterator` has yet to yield, in
/// the order in which it yields them.
pub uninterp spec fn pending(it: ipnetwork::Ipv4NetworkIterator) -> Seq<u32>;

/// `s` is a non-empty run of ASCII digits.
pub open spec fn digit_run(s: Seq<char>) -> bool {
    s.len() > 0 && all_digits(s)
}

/// The five digit runs `a`, `b`, `c`, `start`, `end` of a text of the shape
/// `a.b.c.start-end`, or `None` where the text has another shape.
pub open spec fn shorthand_fields(s: Seq<char>) -> Option<Seq<Seq<char>>> {
    let halves = split(s, '-');
    if halves.len() == 2 {
        let left = split(halves[0], '.');
        if left.len() == 4 && digit_run(left[0]) && digit_run(left[1]) && digit_run(left[2])
            && digit_run(left[3]) && digit_run(halves[1]) {
            Some(left.push(halves[1]))
        } else {
            None
        }
    } else {
        None
    }
}

/// The range, or the complaint, that the five digit runs of a text of the
/// shape `a.b.c.start-end` stand for. `start` and `end` may carry leading
/// zeros; `a`, `b` and `c` are octets of a dotted quad and may not.
pub open spec fn shorthand_outcome(f: Seq<Seq<char>>) -> Result<IpRange, Seq<char>> {
    match numeral(f[3], 255) {
        None => Err("Invalid start byte"@),
        Some(start) => match numeral(f[4], 255) {
            None => Err("Invalid end byte"@),
            Some(end) => if start > end {
                Err("Invalid range"@)
            } else if octet(f[0]) is Some && octet(f[1]) is Some && octet(f[2]) is Some {
                Ok(
                    IpRange::Range {
                        start: pack(octet(f[0])->0, octet(f[1])->0, octet(f[2])->0, start as u8),
                        end: pack(octet(f[0])->0, octet(f[1])->0, octet(f[2])->0, end as u8),
                    },
                )
            } else {
                Err("invalid format"@)
            },
        },
    }
}

/// The host address and the network length that `s` stands for as an
/// address with a network length, or `None` where it is none.
///
/// The text before the last `/` is a dotted quad, and the text behind it is a
/// decimal numeral of at most 32 that may carry a `+` in front. A text
/// without a `/` is a dotted quad and stands for that host alone, with a
/// network length of 32.
pub open spec fn inet_fields(s: Seq<char>) -> Option<(u32, u8)> {
    if s.contains('/') {
        let behind = tail_len(s, '/') as int;
        let address = dotted_quad(s.take(s.len() - behind - 1));
        let length = signed_numeral(s.skip(s.len() - behind), 32);
        if address is Some && length is Some {
            Some((address->0, length->0 as u8))
        } else {
            None
        }
    } else {
        match dotted_quad(s) {
            Some(address) => Some((address, 32u8)),
            None => None,
        }
    }
}

/// What reading `s` as an address with a network length comes to: the host
/// address and the network length, or the text of the error.
pub open spec fn inet_reading(s: Seq<char>) -> Result<(u32, u8), Seq<char>> {
    match inet_fields(s) {
        Some(host) => Ok(host),
        None => Err(inet_complaint(s)),
    }
}

/// The range, or the complaint, that the outcome of reading a text as a host
/// address with a network length stands for.
pub open spec fn inet_outcome(parsed: Result<(u32, u8), Seq<char>>) -> Result<
    IpRange,
    Seq<char>,
> {
    match parsed {
        Ok((address, prefix)) => Ok(IpRange::Cidr { address, prefix }),
        Err(reason) => Err("CIDR parse error: "@ + reason),
    }
}

/// The range, or the complaint, that the text `s` stands for.
pub open spec fn parse_outcome(s: Seq<char>) -> Result<IpRange, Seq<char>> {
    if s.contains('/') {
        inet_outcome(inet_reading(s))
    } else {
        match shorthand_fields(s) {
            Some(f) => shorthand_outcome(f),
            None => match dotted_quad(s) {
                Some(address) => Ok(IpRange::Range { start: address, end: address }),
                None => Err("invalid format"@),
            },
        }
    }
}

/// Calls `<cidr::Ipv4Inet as FromStr>::from_str` and hands out the host
/// address as a number together with the network length, or the text of the
/// error.
///
/// Trusted: the crate cuts the text at its last `/`, reads the part before it
/// with the standard reader of IPv4 addresses and the part behind it with
/// the standard reader of `u8`, and refuses a network length above 32; a
/// text without a `/` is read as an address and given the length 32. The
/// text of the error depends on the text alone.
#[verifier::external_body]
fn parse_inet(s: &str) -> (parsed: Result<(u32, u8), String>)
    ensures
        match parsed {
            Ok(host) => inet_fields(s@) == Some(host),
            Err(reason) => inet_fields(s@) is None && reason@ == inet_complaint(s@),
        },
{
    match s.parse::<cidr::Ipv4Inet>() {
        Ok(inet) => Ok((inet.address().into(), inet.network_length())),
        Err(e) => Err(e.to_string()),
    }
}

/// Calls `ipnetwork::Ipv4Network::size`. Trusted: for a prefix of 1 to 32
/// bits the result is `1 << (32 - prefix)`. A prefix of 0 bits is left out:
/// there the crate answers `u32::MAX`, one short of the block's size.
#[verifier::external_body]
fn network_size(address: u32, prefix: u8) -> (size: u32)
    requires
        1 <= prefix <= 32,
    ensures
        size == block_size(prefix),
{
    ipnetwork::Ipv4Network::new(address.into(), prefix).unwrap().size()
}

/// Calls `ipnetwork::Ipv4Network::iter`. Trusted: for a prefix of 1 to 32
/// bits the iterator starts at `address & mask` and yields `1 << (32 -
/// prefix)` consecutive addresses. A prefix of 0 bits is left out: there the
/// crate's iterator stops one address short of `255.255.255.255`.
#[verifier::external_body]
fn network_iter(address: u32, prefix: u8) -> (it: ipnetwork::Ipv4NetworkIterator)
    requires
        1 <= prefix <= 32,
    ensures
        pending(it) == block(address, prefix),
{
    ipnetwork::Ipv4Network::new(address.into(), prefix).unwrap().iter()
}

/// Calls `<ipnetwork::Ipv4NetworkIterator as Iterator>::next`. Trusted: it
/// yields the first pending address and keeps the others, or yields nothing
/// once none is pending.
#[verifier::external_body]
fn network_next(it: &mut ipnetwork::Ipv4NetworkIterator) -> (address: Option<u32>)
    ensures
        match address {
            Some(a) => pending(*old(it)).len() > 0 && a == pending(*old(it)).first() && pending(
                *final(it),
            ) == pending(*old(it)).drop_first(),
            None => pending(*old(it)).len() == 0 && pending(*final(it)) == pending(*old(it)),
        },
{
    it.next().map(u32::from)
}

impl IpRange {
    /// The invariant of a range: a network length is at most 32 bits, and an
    /// interval does not end before it starts.
    pub open spec fn wf(self) -> bool {
        match self {
            IpRange::Cidr { address, prefix } => prefix <= 32,
            IpRange::Range { start, end } => start <= end,
        }
    }

    /// The lowest address of the range.
    pub open spec fn first(self) -> u32 {
        match self {
            IpRange::Cidr { address, prefix } => network_base(address, prefix),
            IpRange::Range { start, end } => start,
        }
    }

    /// The number of addresses in the range, in closed form.
    pub open spec fn count(self) -> nat {
        match self {
            IpRange::Cidr { address, prefix } => block_size(prefix),
            IpRange::Range { start, end } => (end - start + 1) as nat,
        }
    }

    /// The addresses of the range in the order in which they are walked.
    pub open spec fn addresses(self) -> Seq<u32> {
        Seq::new(self.count(), |i: int| (self.first() + i) as u32)
    }

    /// The range that the outcome of reading a text as a host address with a
    /// network length stands for; a failure is reported under the heading
    /// `CIDR parse error`.
    pub fn from_inet(parsed: Result<(u32, u8), String>) -> (r: Result<IpRange, String>)
        requires
            parsed matches Ok(host) ==> host.1 <= 32,
        ensures
            match parsed {
                Ok(host) => r == Ok::<IpRange, String>(
                    IpRange::Cidr { address: host.0, prefix: host.1 },
                ),
                Err(reason) => r is Err && r->Err_0@ == "CIDR parse error: "@ + reason@,
            },
    {
        match parsed {
            Ok((address, prefix)) => Ok(IpRange::Cidr { address, prefix }),
            Err(reason) => {
                let mut message = String::from_str("CIDR parse error: ");
                message.append(reason.as_str());
                Err(message)
            },
        }
    }

    /// Reads a range from one of the three notations: an address with a
    /// network length, `a.b.c.start-end`, or a single dotted quad.
    ///
    /// Any text with a `/` is left to `cidr::Ipv4Inet`; the other two
    /// notations are read here.
    pub fn parse(s: &str) -> (r: Result<IpRange, String>)
        ensures
            match r {
                Ok(range) => range.wf() && parse_outcome(s@) == Ok::<IpRange, Seq<char>>(range),
                Err(e) => parse_outcome(s@) == Err::<IpRange, Seq<char>>(e@),
            },
    {
        let text = chars_of(s);
        let n = text.len();
        assert(text@.subrange(0, n as int) =~= s@);
        if window_contains(&text, 0, n, '/') {
            return Self::from_inet(parse_inet(s));
        }
        match shorthand_windows(&text) {
            Some(f) => read_shorthand(&text, f),
            None => match parse_dotted_quad(&text, 0, n) {
                Some(address) => Ok(IpRange::Range { start: address, end: address }),
                None => Err(String::from_str("invalid format")),
            },
        }
    }

    /// Whether the range keeps its invariant. Every range that [`parse`]
    /// hands out does; one that was put together by hand may not.
    ///
    /// [`parse`]: IpRange::parse
    pub fn is_valid(&self) -> (valid: bool)
        ensures
            valid == self.wf(),
    {
        match *self {
            IpRange::Cidr { address, prefix } => prefix <= 32,
            IpRange::Range { start, end } => start <= end,
        }
    }

    /// The number of addresses in the range, or `None` where the range does
    /// not keep its invariant or holds more addresses than a `usize` counts.
    pub fn checked_len(&self) -> (n: Option<usize>)
        ensures
            n == (if self.wf() && self.count() <= usize::MAX {
                Some(self.count() as usize)
            } else {
                None
            }),
    {
        proof {
            lemma2_to64();
            lemma2_to64_rest();
        }
        if !self.is_valid() {
            return None;
        }
        let count: u64 = match *self {
            IpRange::Cidr { address, prefix } => {
                if prefix == 0 {
                    0x1_0000_0000
                } else {
                    network_size(address, prefix) as u64
                }
            },
            IpRange::Range { start, end } => end as u64 - start as u64 + 1,
        };
        if count <= usize::MAX as u64 {
            Some(count as usize)
        } else {
            None
        }
    }

    /// The number of addresses in the range, computed without walking it.
    pub fn len(&self) -> (n: usize)
        requires
            self.wf(),
            self.count() <= usize::MAX,
        ensures
            n == self.count(),
    {
        proof {
            lemma2_to64();
            lemma2_to64_rest();
        }
        match *self {
            IpRange::Cidr { address, prefix } => {
                if prefix == 0 {
                    0x1_0000_0000u64 as usize
                } else {
                    network_size(address, prefix) as usize
                }
            },
            IpRange::Range { start, end } => (end as u64 - start as u64 + 1) as usize,
        }
    }

    /// A cursor over the addresses of the range, lowest first. Nothing is
    /// materialised: each address is computed when it is asked for. A range
    /// can be walked any number of times.
    pub fn iter(&self) -> (it: IpRangeIter)
        requires
            self.wf(),
        ensures
            it.remaining() == self.addresses(),
    {
        match *self {
            IpRange::Cidr { address, prefix } => {
                if prefix == 0 {
                    proof {
                        lemma2_to64();
                        lemma2_to64_rest();
                        assert(address & 0 == 0) by (bit_vector);
                    }
                    let it = IpRangeIter { network: None, next: 0, end: 0x1_0000_0000 };
                    assert(it.remaining() =~= self.addresses());
                    it
                } else {
                    IpRangeIter { network: Some(network_iter(address, prefix)), next: 0, end: 0 }
                }
            },
            IpRange::Range { start, end } => {
                let it = IpRangeIter { network: None, next: start as u64, end: end as u64 + 1 };
                assert(it.remaining() =~= self.addresses());
                it
            },
        }
    }
}

/// A cursor over the addresses of a range that are still to be handed out.
pub struct IpRangeIter {
    /// The iterator of the outside crate, where the range is a block.
    network: Option<ipnetwork::Ipv4NetworkIterator>,
    /// Otherwise the addresses `next` up to but excluding `end` are left.
    next: u64,
    end: u64,
}

impl IpRangeIter {
    /// The addresses that are still to be handed out, in order.
    pub closed spec fn remaining(self) -> Seq<u32> {
        match self.network {
            Some(it) => pending(it),
            None => Seq::new(
                if self.next <= self.end {
                    (self.end - self.next) as nat
                } else {
                    0
                },
                |i: int| (self.next + i) as u32,
            ),
        }
    }

    /// Hands out the next address, or `None` once the range is exhausted.
    pub fn next(&mut self) -> (address: Option<u32>)
        ensures
            match address {
                Some(a) => old(self).remaining().len() > 0 && a == old(self).remaining().first()
                    && final(self).remaining() == old(self).remaining().drop_first(),
                None => old(self).remaining().len() == 0 && final(self).remaining() == old(
                    self,
                ).remaining(),
            },
    {
        match &mut self.network {
            Some(it) => network_next(it),
            None => {
                if self.next < self.end {
                    let a = self.next as u32;
                    self.next = self.next + 1;
                    assert(self.remaining() =~= old(self).remaining().drop_first());
                    Some(a)
                } else {
                    None
                }
            },
        }
    }
}

/// The windows of the five digit runs of a text of the shape
/// `a.b.c.start-end`.
#[verifier::loop_isolation(false)]
fn shorthand_windows(text: &Vec<char>) -> (f: Option<Vec<(usize, usize)>>)
    ensures
        match f {
            Some(w) => w.len() == 5 && shorthand_fields(text@) == Some(windows(text@, w@)) && (
            forall|i: int| 0 <= i < 5 ==> (#[trigger] w[i]).0 <= w[i].1 <= text.len()),
            None => shorthand_fields(text@) is None,
        },
{
    let n = text.len();
    assert(text@.subrange(0, n as int) =~= text@);
    let halves = split_fields(text, 0, n, '-');
    if halves.len() != 2 {
        return None;
    }
    let ghost h = split(text@, '-');
    assert(h[0] == windows(text@, halves@)[0]);
    assert(h[1] == windows(text@, halves@)[1]);
    let mut runs = split_fields(text, halves[0].0, halves[0].1, '.');
    if runs.len() != 4 {
        return None;
    }
    let ghost left = split(h[0], '.');
    assert(forall|i: int| 0 <= i < 4 ==> left[i] == windows(text@, runs@)[i]);
    runs.push(halves[1]);
    assert(windows(text@, runs@) =~= left.push(h[1]));
    let mut i: usize = 0;
    while i < 5
        invariant
            0 <= i <= 5,
            runs.len() == 5,
            forall|j: int| 0 <= j < 5 ==> (#[trigger] runs[j]).0 <= runs[j].1 <= text.len(),
            forall|j: int| 0 <= j < i ==> digit_run(#[trigger] windows(text@, runs@)[j]),
        decreases 5 - i,
    {
        assert(windows(text@, runs@)[i as int] == text@.subrange(
            runs[i as int].0 as int,
            runs[i as int].1 as int,
        ));
        if !is_digit_run(text, runs[i].0, runs[i].1) {
            return None;
        }
        i += 1;
    }
    proof {
        let w = windows(text@, runs@);
        assert(digit_run(w[0]) && digit_run(w[1]) && digit_run(w[2]) && digit_run(w[3])
            && digit_run(w[4]));
        assert(w[0] == left[0] && w[1] == left[1] && w[2] == left[2] && w[3] == left[3] && w[4]
            == h[1]);
    }
    Some(runs)
}

/// Whether the window `[from, to)` of `text` is a non-empty run of digits.
fn is_digit_run(text: &Vec<char>, from: usize, to: usize) -> (b: bool)
    requires
        from <= to <= text.len(),
    ensures
        b == digit_run(text@.subrange(from as int, to as int)),
{
    let ghost window = text@.subrange(from as int, to as int);
    let mut i: usize = from;
    while i < to
        invariant
            from <= i <= to <= text.len(),
            window == text@.subrange(from as int, to as int),
            forall|j: int| 0 <= j < i - from ==> crate::text::is_digit(#[trigger] window[j]),
        decreases to - i,
    {
        if !crate::text::is_ascii_digit(text[i]) {
            assert(!crate::text::is_digit(window[i - from]));
            return false;
        }
        i += 1;
    }
    from < to
}

/// The range that the five digit runs of a text of the shape
/// `a.b.c.start-end` stand for.
fn read_shorthand(text: &Vec<char>, f: Vec<(usize, usize)>) -> (r: Result<IpRange, String>)
    requires
        f.len() == 5,
        forall|i: int| 0 <= i < 5 ==> (#[trigger] f[i]).0 <= f[i].1 <= text.len(),
    ensures
        match r {
            Ok(range) => range.wf() && shorthand_outcome(windows(text@, f@)) == Ok::<
                IpRange,
                Seq<char>,
            >(range),
            Err(e) => shorthand_outcome(windows(text@, f@)) == Err::<IpRange, Seq<char>>(e@),
        },
{
    let ghost w = windows(text@, f@);
    assert(forall|i: int| 0 <= i < 5 ==> w[i] == text@.subrange(f[i].0 as int, f[i].1 as int));
    let start = match parse_numeral(text, f[3].0, f[3].1, 255) {
        Some(n) => n as u8,
        None => {
            return Err(String::from_str("Invalid start byte"));
        },
    };
    let end = match parse_numeral(text, f[4].0, f[4].1, 255) {
        Some(n) => n as u8,
        None => {
            return Err(String::from_str("Invalid end byte"));
        },
    };
    if start > end {
        return Err(String::from_str("Invalid range"));
    }
    let a = parse_octet(text, f[0].0, f[0].1);
    let b = parse_octet(text, f[1].0, f[1].1);
    let c = parse_octet(text, f[2].0, f[2].1);
    match (a, b, c) {
        (Some(a), Some(b), Some(c)) => Ok(
            IpRange::Range { start: pack_octets(a, b, c, start), end: pack_octets(a, b, c, end) },
        ),
        _ => Err(String::from_str("invalid format")),
    }
}

/// A block in CIDR notation with a prefix of `p` bits holds exactly
/// `2^(32 - p)` addresses, its length is that number, and the addresses come
/// in strictly ascending order, so that no address comes twice.
pub proof fn lemma_cidr_enumeration(range: IpRange)
    requires
        range.wf(),
        range is Cidr,
    ensures
        range.count() == pow2((32 - range->prefix) as nat),
        range.addresses().len() == range.count(),
        forall|i: int, j: int|
            0 <= i < j < range.addresses().len() ==> range.addresses()[i] < range.addresses()[j],
        range.addresses().no_duplicates(),
{
    lemma_addresses_ascending(range);
}

/// A text in CIDR notation that is accepted stands for a block whose prefix
/// `p` is the number behind the last `/`; the block holds exactly
/// `2^(32 - p)` addresses, its length is that number, and the addresses come
/// in strictly ascending order, so that no address comes twice.
pub proof fn lemma_cidr_text_enumeration(s: Seq<char>)
    requires
        s.contains('/'),
        parse_outcome(s) is Ok,
    ensures
        ({
            let range = parse_outcome(s)->Ok_0;
            let p = signed_numeral(s.skip(s.len() - tail_len(s, '/')), 32);
            &&& p is Some
            &&& range.wf()
            &&& range is Cidr
            &&& range->prefix == p->0
            &&& range.count() == pow2((32 - p->0) as nat)
            &&& range.addresses().len() == range.count()
            &&& forall|i: int, j: int|
                0 <= i < j < range.addresses().len() ==> range.addresses()[i]
                    < range.addresses()[j]
            &&& range.addresses().no_duplicates()
        }),
{
    lemma_addresses_ascending(parse_outcome(s)->Ok_0);
}

/// The addresses of any range come in strictly ascending order, one apart,
/// from its lowest address on; an interval ends at its `end`.
pub proof fn lemma_addresses_ascending(range: IpRange)
    requires
        range.wf(),
    ensures
        range.addresses().len() == range.count(),
        range.count() > 0,
        range.first() + range.count() <= 0x1_0000_0000,
        forall|i: int|
            0 <= i < range.addresses().len() ==> #[trigger] range.addresses()[i] == range.first()
                + i,
        forall|i: int, j: int|
            0 <= i < j < range.addresses().len() ==> range.addresses()[i] < range.addresses()[j],
        range.addresses().no_duplicates(),
        range matches IpRange::Range { start, end } ==> range.addresses().first() == start
            && range.addresses().last() == end,
{
    match range {
        IpRange::Cidr { address, prefix } => {
            lemma_block_bounds(address, prefix);
        },
        IpRange::Range { start, end } => {},
    }
}

} // verus!
