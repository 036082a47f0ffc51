use vstd::prelude::*;

use core::cmp::Ordering;

use crate::datagram::{datagram_id_text, Datagram};
use crate::header::Header;
use crate::packet::{packet_id_text, Packet};
use crate::telegram::{telegram_id_text, Telegram};
use crate::timestamp::Timestamp;

verus! {

/// The command of a datagram whose `param16` is part of its identity.
pub const VALUE_BY_INDEX_COMMAND: u16 = 0x0900;

/// One of the supported VBus protocol variants.
#[derive(Clone, Debug)]
pub enum Data {
    /// A frame of protocol version 1.x.
    Packet(Packet),
    /// A frame of protocol version 2.x.
    Datagram(Datagram),
    /// A frame of protocol version 3.x.
    Telegram(Telegram),
}

/// The three-way comparison of two integers.
pub open spec fn cmp_int(a: int, b: int) -> Ordering {
    if a < b {
        Ordering::Less
    } else if a > b {
        Ordering::Greater
    } else {
        Ordering::Equal
    }
}

impl Data {
    /// The header of the variant.
    pub open spec fn header(&self) -> Header {
        match self {
            Data::Packet(p) => p.header,
            Data::Datagram(d) => d.header,
            Data::Telegram(t) => t.header,
        }
    }

    /// The identity string of the variant.
    pub open spec fn id_text(&self) -> Seq<char> {
        match self {
            Data::Packet(p) => packet_id_text(*p),
            Data::Datagram(d) => datagram_id_text(*d),
            Data::Telegram(t) => telegram_id_text(*t),
        }
    }

    /// The same value received at another instant.
    pub open spec fn with_timestamp(&self, t: Timestamp) -> Data {
        match self {
            Data::Packet(p) => Data::Packet(Packet { header: Header { timestamp: t, ..p.header }, ..*p }),
            Data::Datagram(d) => Data::Datagram(
                Datagram { header: Header { timestamp: t, ..d.header }, ..*d },
            ),
            Data::Telegram(g) => Data::Telegram(
                Telegram { header: Header { timestamp: t, ..g.header }, ..*g },
            ),
        }
    }

    /// Whether both values are of the same variant.
    pub open spec fn same_variant(&self, other: &Data) -> bool {
        ||| (self is Packet && other is Packet)
        ||| (self is Datagram && other is Datagram)
        ||| (self is Telegram && other is Telegram)
    }

    /// The variant agrees with the protocol family of its header.
    pub open spec fn well_formed(&self) -> bool {
        match self {
            Data::Packet(p) => p.header.protocol_version / 16 == 1,
            Data::Datagram(d) => d.header.protocol_version / 16 == 2,
            Data::Telegram(t) => t.header.protocol_version / 16 == 3,
        }
    }

    /// The command of the variant.
    pub open spec fn command_key(&self) -> int {
        match self {
            Data::Packet(p) => p.command as int,
            Data::Datagram(d) => d.command as int,
            Data::Telegram(t) => t.command as int,
        }
    }

    /// `param16` where it takes part in identity, zero elsewhere.
    pub open spec fn param_key(&self) -> int {
        match self {
            Data::Datagram(d) => if d.command == VALUE_BY_INDEX_COMMAND {
                d.param16 as int
            } else {
                0
            },
            _ => 0,
        }
    }

    /// Whether the header tuples (all but the timestamp) agree.
    pub open spec fn same_address(&self, other: &Data) -> bool {
        &&& self.header().channel == other.header().channel
        &&& self.header().destination_address == other.header().destination_address
        &&& self.header().source_address == other.header().source_address
        &&& self.header().protocol_version == other.header().protocol_version
    }

    /// Logical equality: both values occupy the same slot of a data stream.
    pub open spec fn same_slot(&self, other: &Data) -> bool {
        &&& self.same_address(other)
        &&& self.same_variant(other)
        &&& self.command_key() == other.command_key()
        &&& self.param_key() == other.param_key()
    }

    /// The lexicographic order over the header tuple, then the command, then
    /// (for datagrams of the value-by-index command) `param16`; `None` where
    /// the header tuples agree but the variants do not.
    pub open spec fn spec_cmp(&self, other: &Data) -> Option<Ordering> {
        let a = self.header();
        let b = other.header();
        if a.channel != b.channel {
            Some(cmp_int(a.channel as int, b.channel as int))
        } else if a.destination_address != b.destination_address {
            Some(cmp_int(a.destination_address as int, b.destination_address as int))
        } else if a.source_address != b.source_address {
            Some(cmp_int(a.source_address as int, b.source_address as int))
        } else if a.protocol_version != b.protocol_version {
            Some(cmp_int(a.protocol_version as int, b.protocol_version as int))
        } else if !self.same_variant(other) {
            None
        } else if self.command_key() != other.command_key() {
            Some(cmp_int(self.command_key(), other.command_key()))
        } else {
            Some(cmp_int(self.param_key(), other.param_key()))
        }
    }

    /// Strictly before in the order of `spec_cmp`.
    pub open spec fn spec_before(&self, other: &Data) -> bool {
        self.spec_cmp(other) == Some(Ordering::Less)
    }

    /// Returns the header of the variant.
    pub fn as_header(&self) -> (r: &Header)
        ensures
            *r == self.header(),
    {
        match self {
            Data::Packet(p) => &p.header,
            Data::Datagram(d) => &d.header,
            Data::Telegram(t) => &t.header,
        }
    }

    /// Creates the identity string of the variant.
    pub fn to_id_string(&self) -> (r: String)
        ensures
            r@ == self.id_text(),
    {
        match self {
            Data::Packet(p) => p.to_id_string(),
            Data::Datagram(d) => d.to_id_string(),
            Data::Telegram(t) => t.to_id_string(),
        }
    }
}

fn cmp_u64(a: u64, b: u64) -> (r: Ordering)
    ensures
        r == cmp_int(a as int, b as int),
{
    if a < b {
        Ordering::Less
    } else if a > b {
        Ordering::Greater
    } else {
        Ordering::Equal
    }
}

impl PartialEq for Data {
    /// Logical equality, as used for deduplication in a data set.
    fn eq(&self, right: &Data) -> (r: bool) {
        let lh = self.as_header();
        let rh = right.as_header();
        if lh.channel != rh.channel {
            false
        } else if lh.destination_address != rh.destination_address {
            false
        } else if lh.source_address != rh.source_address {
            false
        } else if lh.protocol_version != rh.protocol_version {
            false
        } else {
            match (self, right) {
                (Data::Packet(l), Data::Packet(r)) => l.command == r.command,
                (Data::Datagram(l), Data::Datagram(r)) => {
                    if l.command != r.command {
                        false
                    } else if l.command != VALUE_BY_INDEX_COMMAND {
                        true
                    } else {
                        l.param16 == r.param16
                    }
                },
                (Data::Telegram(l), Data::Telegram(r)) => l.command == r.command,
                _ => false,
            }
        }
    }
}

impl vstd::std_specs::cmp::PartialEqSpecImpl for Data {
    open spec fn obeys_eq_spec() -> bool {
        true
    }

    open spec fn eq_spec(&self, other: &Data) -> bool {
        self.same_slot(other)
    }
}

impl PartialOrd for Data {
    fn partial_cmp(&self, right: &Data) -> (r: Option<Ordering>) {
        let lh = self.as_header();
        let rh = right.as_header();
        if lh.channel != rh.channel {
            Some(cmp_u64(lh.channel as u64, rh.channel as u64))
        } else if lh.destination_address != rh.destination_address {
            Some(cmp_u64(lh.destination_address as u64, rh.destination_address as u64))
        } else if lh.source_address != rh.source_address {
            Some(cmp_u64(lh.source_address as u64, rh.source_address as u64))
        } else if lh.protocol_version != rh.protocol_version {
            Some(cmp_u64(lh.protocol_version as u64, rh.protocol_version as u64))
        } else {
            match (self, right) {
                (Data::Packet(l), Data::Packet(r)) => Some(
                    cmp_u64(l.command as u64, r.command as u64),
                ),
                (Data::Datagram(l), Data::Datagram(r)) => {
                    if l.command != r.command {
                        Some(cmp_u64(l.command as u64, r.command as u64))
                    } else if l.command != VALUE_BY_INDEX_COMMAND {
                        Some(Ordering::Equal)
                    } else if l.param16 < r.param16 {
                        Some(Ordering::Less)
                    } else if l.param16 > r.param16 {
                        Some(Ordering::Greater)
                    } else {
                        Some(Ordering::Equal)
                    }
                },
                (Data::Telegram(l), Data::Telegram(r)) => Some(
                    cmp_u64(l.command as u64, r.command as u64),
                ),
                _ => None,
            }
        }
    }
}

impl vstd::std_specs::cmp::PartialOrdSpecImpl for Data {
    open spec fn obeys_partial_cmp_spec() -> bool {
        true
    }

    open spec fn partial_cmp_spec(&self, other: &Data) -> Option<Ordering> {
        self.spec_cmp(other)
    }
}

/// Logical equality is exactly the `Equal` outcome of the order.
pub proof fn lemma_same_slot_iff_equal(a: Data, b: Data)
    ensures
        a.same_slot(&b) <==> a.spec_cmp(&b) == Some(Ordering::Equal),
{
}

/// A value occupies the same slot as itself received at any other instant.
pub proof fn lemma_slot_ignores_timestamp(d: Data, t: Timestamp)
    ensures
        d.same_slot(&d.with_timestamp(t)),
        d.spec_cmp(&d.with_timestamp(t)) == Some(Ordering::Equal),
{
}

/// A packet keeps its slot whatever its frame count and payload.
pub proof fn lemma_packet_slot_ignores_payload(p: Packet, frame_count: u8, frame_data: [u8; 508])
    ensures
        Data::Packet(p).same_slot(&Data::Packet(Packet { frame_count, frame_data, ..p })),
{
}

/// A telegram keeps its slot whatever its payload.
pub proof fn lemma_telegram_slot_ignores_payload(t: Telegram, frame_data: [u8; 21])
    ensures
        Data::Telegram(t).same_slot(&Data::Telegram(Telegram { frame_data, ..t })),
{
}

/// A datagram of any command but the value-by-index one keeps its slot
/// whatever its parameters; `param32` never matters.
pub proof fn lemma_datagram_slot_ignores_params(d: Datagram, param16: i16, param32: i32)
    ensures
        d.command != VALUE_BY_INDEX_COMMAND ==> Data::Datagram(d).same_slot(
            &Data::Datagram(Datagram { param16, param32, ..d }),
        ),
        Data::Datagram(d).same_slot(&Data::Datagram(Datagram { param32, ..d })),
{
}

/// Values whose header tuples differ in any field are never logically equal.
pub proof fn lemma_slot_needs_same_address(a: Data, b: Data)
    requires
        !a.same_address(&b),
    ensures
        !a.same_slot(&b),
        a.spec_cmp(&b) != Some(Ordering::Equal),
{
}

/// Flipping a bit changes a 16-bit value.
proof fn lemma_flip_u16(x: u16, k: u16)
    requires
        k < 16,
    ensures
        x ^ (1u16 << k) != x,
{
    assert(x ^ (1u16 << k) != x) by (bit_vector)
        requires
            k < 16,
    ;
}

/// Flipping a bit changes an 8-bit value.
proof fn lemma_flip_u8(x: u8, k: u8)
    requires
        k < 8,
    ensures
        x ^ (1u8 << k) != x,
{
    assert(x ^ (1u8 << k) != x) by (bit_vector)
        requires
            k < 8,
    ;
}

/// A value whose channel, destination, source or protocol version is that
/// of `a` with one bit flipped is never logically equal to `a`.
pub proof fn lemma_bit_flip_breaks_slot(a: Data, b: Data, k: u8)
    requires
        ({
            let (x, y) = (a.header(), b.header());
            ||| (k < 8 && y.channel == x.channel ^ (1u8 << k))
            ||| (k < 16 && y.destination_address == x.destination_address ^ (1u16 << (k as u16)))
            ||| (k < 16 && y.source_address == x.source_address ^ (1u16 << (k as u16)))
            ||| (k < 8 && y.protocol_version == x.protocol_version ^ (1u8 << k))
        }),
    ensures
        !a.same_slot(&b),
{
    let (x, y) = (a.header(), b.header());
    if k < 8 {
        lemma_flip_u8(x.channel, k);
        lemma_flip_u8(x.protocol_version, k);
    }
    if k < 16 {
        lemma_flip_u16(x.destination_address, k as u16);
        lemma_flip_u16(x.source_address, k as u16);
    }
}

/// On well-formed values the order is total: every pair compares, the
/// outcome reverses with the arguments, and `before` is transitive.
pub proof fn lemma_order_total(a: Data, b: Data, c: Data)
    requires
        a.well_formed(),
        b.well_formed(),
        c.well_formed(),
    ensures
        a.spec_cmp(&b) is Some,
        a.spec_cmp(&a) == Some(Ordering::Equal),
        a.spec_before(&b) <==> b.spec_cmp(&a) == Some(Ordering::Greater),
        a.spec_before(&b) ==> !b.spec_before(&a),
        a.spec_before(&b) && b.spec_before(&c) ==> a.spec_before(&c),
        a.spec_cmp(&b) == Some(Ordering::Equal) && b.spec_cmp(&c) == Some(Ordering::Equal)
            ==> a.spec_cmp(&c) == Some(Ordering::Equal),
        !a.spec_before(&b) && !b.spec_before(&c) ==> !a.spec_before(&c),
{
}

} // verus!
