//! The stub resolver: the query it sends, the answer it reads, and the
//! rule by which it waits.

use vstd::prelude::*;
use vstd::utf8::encode_utf8;

verus! {

/// The resolver that queries go to.
pub const DNS_SERVER_A: u8 = 10;

pub const DNS_SERVER_B: u8 = 0;

pub const DNS_SERVER_C: u8 = 2;

pub const DNS_SERVER_D: u8 = 3;

pub const DNS_PORT: u16 = 53;

/// The port that queries come from.
pub const LOCAL_PORT: u16 = 41234;

/// How often the stack is polled for an answer, at most.
pub const MAX_POLLS: u32 = 200;

/// The milliseconds from one poll to the next.
pub const POLL_INTERVAL_MS: u32 = 10;

/// The bytes that an answer may have, at most.
pub const MAX_RESPONSE: usize = 512;

/// The header of every query: the transaction 0xABCD, a standard query
/// with recursion desired, one question, and no other record.
pub open spec fn query_header() -> Seq<u8> {
    seq![0xABu8, 0xCD, 0x01, 0x00, 0x00, 0x01, 0x00, 0x00, 0x00, 0x00, 0x00, 0x00]
}

/// The end of every question: type A, class IN.
pub open spec fn question_trailer() -> Seq<u8> {
    seq![0x00u8, 0x01, 0x00, 0x01]
}

/// How many bytes of `name` come before its first dot; all of them where
/// it has none.
pub open spec fn label_len(name: Seq<u8>) -> int
    decreases name.len(),
{
    if name.len() == 0 || name[0] == 46 {
        0
    } else {
        1 + label_len(name.drop_first())
    }
}

/// The labels of `name`, each behind a byte with its length. The labels
/// are the parts between the dots; two dots in a row, or a dot at an end,
/// make an empty label. A length over 255 is cut to its low byte.
pub open spec fn encoded_labels(name: Seq<u8>) -> Seq<u8>
    decreases name.len(),
{
    let n = label_len(name);
    if 0 <= n < name.len() {
        seq![(n % 256) as u8] + name.take(n) + encoded_labels(name.skip(n + 1))
    } else {
        seq![(n % 256) as u8] + name
    }
}

/// The query for the address of the domain whose name has the bytes
/// `domain`.
pub open spec fn dns_query(domain: Seq<u8>) -> Seq<u8> {
    query_header() + encoded_labels(domain) + seq![0u8] + question_trailer()
}

/// A run of `n` bytes without a dot, with a dot or the end behind it, is
/// the first label.
pub proof fn lemma_label_len(name: Seq<u8>, n: int)
    requires
        0 <= n <= name.len(),
        forall|k: int| 0 <= k < n ==> name[k] != 46,
        n == name.len() || name[n] == 46,
    ensures
        label_len(name) == n,
    decreases n,
{
    if n > 0 {
        lemma_label_len(name.drop_first(), n - 1);
    }
}

/// Builds the query for the address of `domain`.
pub fn build_dns_query(domain: &str) -> (packet: Vec<u8>)
    ensures
        packet@ == dns_query(encode_utf8(domain@)),
{
    let name = domain.as_bytes();
    let mut packet: Vec<u8> = Vec::new();
    packet.push(0xAB);
    packet.push(0xCD);
    packet.push(0x01);
    packet.push(0x00);
    packet.push(0x00);
    packet.push(0x01);
    packet.push(0x00);
    packet.push(0x00);
    packet.push(0x00);
    packet.push(0x00);
    packet.push(0x00);
    packet.push(0x00);
    assert(packet@ =~= query_header());
    let mut start: usize = 0;
    let mut done: bool = false;
    assert(name@.skip(0) =~= name@);
    while !done
        invariant
            0 <= start <= name.len(),
            !done ==> packet@ + encoded_labels(name@.skip(start as int)) == query_header()
                + encoded_labels(name@),
            done ==> packet@ == query_header() + encoded_labels(name@),
        decreases name.len() - start + if done { 0int } else { 1int },
    {
        let mut end: usize = start;
        while end < name.len() && name[end] != 46
            invariant
                start <= end <= name.len(),
                forall|k: int| start <= k < end ==> name[k] != 46,
            decreases name.len() - end,
        {
            end += 1;
        }
        let ghost rest = name@.skip(start as int);
        let ghost before = packet@;
        proof {
            lemma_label_len(rest, end - start);
        }
        let width: usize = end - start;
        packet.push((width % 256) as u8);
        let mut i: usize = start;
        while i < end
            invariant
                start <= i <= end <= name.len(),
                packet@ == before + seq![((end - start) % 256) as u8] + name@.subrange(
                    start as int,
                    i as int,
                ),
            decreases end - i,
        {
            packet.push(name[i]);
            assert(name@.subrange(start as int, i + 1) =~= name@.subrange(
                start as int,
                i as int,
            ).push(name@[i as int]));
            i += 1;
        }
        if end < name.len() {
            proof {
                assert(rest.take(end - start) =~= name@.subrange(start as int, end as int));
                assert(rest.skip(end - start + 1) =~= name@.skip(end + 1));
                assert(packet@ + encoded_labels(name@.skip(end + 1)) =~= before + encoded_labels(
                    rest,
                ));
            }
            start = end + 1;
        } else {
            proof {
                assert(rest =~= name@.subrange(start as int, end as int));
                assert(packet@ =~= before + encoded_labels(rest));
            }
            done = true;
        }
    }
    packet.push(0x00);
    packet.push(0x00);
    packet.push(0x01);
    packet.push(0x00);
    packet.push(0x01);
    assert(packet@ =~= dns_query(name@));
    packet
}

/// The number that two bytes make, the high byte first.
pub open spec fn be16(high: u8, low: u8) -> int {
    high * 256 + low
}

/// Where a walk over plain labels ends that starts at `offset`: at the
/// first length byte that is zero, or behind the data. Each label is a
/// length byte and that many bytes.
pub open spec fn labels_end(data: Seq<u8>, offset: int) -> int
    decreases
            if offset < data.len() {
                data.len() - offset
            } else {
                0
            },
{
    if 0 <= offset < data.len() && data[offset] != 0 {
        labels_end(data, offset + 1 + data[offset])
    } else {
        offset
    }
}

/// Where the fields of an answer begin whose name begins at `offset`.
///
/// The name is walked label by label. A zero byte ends it, and the fields
/// begin behind that byte. A compression pointer, a byte with its two high
/// bits set, ends it wherever it stands, at the start of the name or behind
/// labels: the pointer is two bytes long, and the fields begin behind it.
/// Any other byte is the length of a label, which is passed over. A walk
/// that leaves the data ends behind it.
pub open spec fn name_end(data: Seq<u8>, offset: int) -> int
    decreases
            if offset < data.len() {
                data.len() - offset
            } else {
                0
            },
{
    if 0 <= offset < data.len() {
        if data[offset] == 0 {
            offset + 1
        } else if data[offset] & 0xC0 == 0xC0 {
            offset + 2
        } else {
            name_end(data, offset + 1 + data[offset])
        }
    } else {
        offset + 1
    }
}

/// The address in the first answer that is an A record of four bytes,
/// among the `remaining` answers that begin at `offset`. An answer that
/// does not lie inside the data ends the search.
pub open spec fn first_address(data: Seq<u8>, offset: int, remaining: nat) -> Option<Seq<u8>>
    decreases remaining,
{
    if remaining == 0 || offset < 0 || offset + 12 > data.len() {
        None
    } else {
        let fields = name_end(data, offset);
        if fields + 10 > data.len() {
            None
        } else {
            let rtype = be16(data[fields], data[fields + 1]);
            let rdlength = be16(data[fields + 8], data[fields + 9]);
            let rdata = fields + 10;
            if rtype == 1 && rdlength == 4 && rdata + 4 <= data.len() {
                Some(data.subrange(rdata, rdata + 4))
            } else {
                first_address(data, rdata + rdlength, (remaining - 1) as nat)
            }
        }
    }
}

/// The address that the response `data` gives: none where the response
/// has fewer than 12 bytes or announces no answer, and else what the
/// answers behind the one question hold.
pub open spec fn dns_answer(data: Seq<u8>) -> Option<Seq<u8>> {
    if data.len() < 12 {
        None
    } else {
        let answers = be16(data[6], data[7]);
        if answers == 0 {
            None
        } else {
            first_address(data, labels_end(data, 12) + 5, answers as nat)
        }
    }
}

/// A walk that starts behind the data ends where it starts.
proof fn lemma_labels_end_bounds(data: Seq<u8>, offset: int)
    requires
        0 <= offset,
    ensures
        labels_end(data, offset) >= offset,
        offset >= data.len() ==> labels_end(data, offset) == offset,
    decreases
            if offset < data.len() {
                data.len() - offset
            } else {
                0
            },
{
    if 0 <= offset < data.len() && data[offset] != 0 {
        lemma_labels_end_bounds(data, offset + 1 + data[offset]);
    }
}

fn walk_labels(data: &[u8], offset: usize) -> (end: Option<usize>)
    requires
        offset <= data.len(),
    ensures
        match end {
            Some(e) => e == labels_end(data@, offset as int) && offset <= e <= data.len(),
            None => labels_end(data@, offset as int) > data.len(),
        },
{
    let mut at: usize = offset;
    while at < data.len() && data[at] != 0
        invariant
            offset <= at <= data.len(),
            labels_end(data@, at as int) == labels_end(data@, offset as int),
        decreases data.len() - at,
    {
        let width: usize = data[at] as usize;
        if width + 1 > data.len() - at {
            proof {
                lemma_labels_end_bounds(data@, at + 1 + width);
            }
            return None;
        }
        at = at + 1 + width;
    }
    Some(at)
}

/// The fields of an answer never begin before the byte behind the start
/// of its name.
proof fn lemma_name_end_bounds(data: Seq<u8>, offset: int)
    requires
        0 <= offset,
    ensures
        name_end(data, offset) > offset,
    decreases
            if offset < data.len() {
                data.len() - offset
            } else {
                0
            },
{
    if offset < data.len() && data[offset] != 0 && data[offset] & 0xC0 != 0xC0 {
        lemma_name_end_bounds(data, offset + 1 + data[offset]);
    }
}

fn walk_name(data: &[u8], offset: usize) -> (fields: Option<usize>)
    requires
        offset <= data.len(),
    ensures
        match fields {
            Some(at) => at == name_end(data@, offset as int) && at + 10 <= data.len(),
            None => name_end(data@, offset as int) + 10 > data.len(),
        },
{
    let total: usize = data.len();
    let mut at: usize = offset;
    while at < total
        invariant
            total == data.len(),
            offset <= at <= total,
            name_end(data@, at as int) == name_end(data@, offset as int),
        decreases total - at,
    {
        let byte: u8 = data[at];
        if byte == 0 {
            if total - at < 11 {
                return None;
            }
            return Some(at + 1);
        }
        if byte & 0xC0 == 0xC0 {
            if total - at < 12 {
                return None;
            }
            return Some(at + 2);
        }
        let width: usize = byte as usize;
        if width + 1 > total - at {
            proof {
                lemma_name_end_bounds(data@, at + 1 + width);
            }
            return None;
        }
        at = at + 1 + width;
    }
    None
}

/// Reads the first address out of a response: the data of the first answer
/// that is an A record of four bytes. The name of each answer is passed
/// over, whether it is written out, compressed, or both.
pub fn parse_dns_response(data: &[u8]) -> (address: Option<[u8; 4]>)
    ensures
        match address {
            Some(ip) => dns_answer(data@) == Some(ip@),
            None => dns_answer(data@) is None,
        },
{
    let total: usize = data.len();
    if total < 12 {
        return None;
    }
    let answers: u16 = (data[6] as u16) * 256 + data[7] as u16;
    if answers == 0 {
        return None;
    }
    let question = match walk_labels(data, 12) {
        Some(end) => end,
        None => {
            return None;
        },
    };
    if total - question < 17 {
        return None;
    }
    let mut offset: usize = question + 5;
    let mut remaining: u16 = answers;
    while remaining > 0
        invariant
            total == data.len(),
            offset <= total,
            dns_answer(data@) == first_address(data@, offset as int, remaining as nat),
        decreases remaining,
    {
        if total - offset < 12 {
            return None;
        }
        let fields: usize = match walk_name(data, offset) {
            Some(at) => at,
            None => {
                return None;
            },
        };
        let rtype: u16 = (data[fields] as u16) * 256 + data[fields + 1] as u16;
        let rdlength: usize = (data[fields + 8] as usize) * 256 + data[fields + 9] as usize;
        let rdata: usize = fields + 10;
        if rtype == 1 && rdlength == 4 && total - rdata >= 4 {
            let ip: [u8; 4] = [data[rdata], data[rdata + 1], data[rdata + 2], data[rdata + 3]];
            assert(ip@ =~= data@.subrange(rdata as int, rdata + 4));
            return Some(ip);
        }
        if rdlength > total - rdata {
            assert(first_address(data@, rdata + rdlength, (remaining - 1) as nat) is None);
            return None;
        }
        offset = rdata + rdlength;
        remaining = remaining - 1;
    }
    None
}

/// What the resolver does next.
pub enum ResolveStep {
    /// Poll the network stack at this time, in milliseconds since the
    /// query was sent, and come back with what has arrived.
    Poll { at_millis: i64 },
    /// The resolution is over, with this answer.
    Done(Option<[u8; 4]>),
}

/// One resolution under way: the query is sent, and the answer is waited
/// for.
pub struct Resolver {
    polls: u32,
}

impl Resolver {
    /// How many polls were made without an answer.
    pub closed spec fn polls(&self) -> u32 {
        self.polls
    }

    /// Begins a resolution: returns the query to send to the resolver,
    /// and the state in which no poll was made yet.
    pub fn begin(domain: &str) -> (started: (Resolver, Vec<u8>))
        ensures
            started.0.polls() == 0,
            started.1@ == dns_query(encode_utf8(domain@)),
    {
        (Resolver { polls: 0 }, build_dns_query(domain))
    }

    /// The first step: poll at once.
    pub fn first_step(&self) -> (step: ResolveStep)
        ensures
            step == (ResolveStep::Poll { at_millis: 0 }),
    {
        ResolveStep::Poll { at_millis: 0 }
    }

    /// What a poll brought in: `Some` with the bytes of a datagram that
    /// was received whole, `None` where nothing was.
    ///
    /// A datagram of more than 12 bytes ends the resolution, with the
    /// address that it holds or with none. Anything else is waited out:
    /// the next poll comes [`POLL_INTERVAL_MS`] later, and after
    /// [`MAX_POLLS`] polls the resolution ends without an answer.
    pub fn step(&mut self, datagram: Option<&[u8]>) -> (step: ResolveStep)
        ensures
            step == resolve_step(
                old(self).polls(),
                match datagram {
                    Some(bytes) => Some(bytes@),
                    None => None,
                },
            ),
            final(self).polls() == if step is Poll {
                (old(self).polls() + 1) as u32
            } else {
                old(self).polls()
            },
            step is Poll ==> final(self).polls() < MAX_POLLS,
            final(self).polls() >= old(self).polls(),
    {
        match datagram {
            Some(bytes) => {
                if bytes.len() > 12 {
                    let answer = parse_dns_response(bytes);
                    proof {
                        if answer is Some {
                            assert(address_of(answer->0@) == answer->0) by {
                                assert(address_of(answer->0@)@ =~= answer->0@);
                            }
                        }
                    }
                    return ResolveStep::Done(answer);
                }
            },
            None => {},
        }
        if self.polls < MAX_POLLS - 1 {
            self.polls = self.polls + 1;
            ResolveStep::Poll { at_millis: (self.polls * POLL_INTERVAL_MS) as i64 }
        } else {
            ResolveStep::Done(None)
        }
    }
}

/// The step that follows the poll number `polls`, counted from 0, which
/// brought in `datagram`.
pub open spec fn resolve_step(polls: u32, datagram: Option<Seq<u8>>) -> ResolveStep {
    if datagram is Some && datagram->0.len() > 12 {
        ResolveStep::Done(
            match dns_answer(datagram->0) {
                Some(ip) => Some(address_of(ip)),
                None => None,
            },
        )
    } else if polls + 1 < MAX_POLLS {
        ResolveStep::Poll { at_millis: ((polls + 1) * POLL_INTERVAL_MS) as i64 }
    } else {
        ResolveStep::Done(None)
    }
}

/// The array of the four bytes `ip`.
pub open spec fn address_of(ip: Seq<u8>) -> [u8; 4] {
    [ip[0], ip[1], ip[2], ip[3]]
}

} // verus!
