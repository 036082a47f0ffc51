use vstd::prelude::*;

use crate::header::{header_id_text, Header};
use crate::text::{hex_fixed, push_hex, string_from_chars};

verus! {

/// A frame of VBus protocol version 1.x.
#[derive(Clone, Debug)]
pub struct Packet {
    /// The shared header.
    pub header: Header,
    /// The command of this packet.
    pub command: u16,
    /// The number of 4-byte frames of payload.
    pub frame_count: u8,
    /// The payload; only the first `frame_count * 4` bytes are meaningful.
    pub frame_data: [u8; 508],
}

/// `"CC_DDDD_SSSS_PP_CCCC"`.
pub open spec fn packet_id_text(p: Packet) -> Seq<char> {
    header_id_text(p.header) + seq!['_'] + hex_fixed(p.command as nat, 4)
}

impl Packet {
    /// The meaningful payload: the first `frame_count * 4` bytes.
    pub open spec fn payload(&self) -> Seq<u8> {
        self.frame_data@.subrange(0, self.frame_count as int * 4)
    }

    /// Creates the identity string of this packet.
    pub fn to_id_string(&self) -> (r: String)
        ensures
            r@ == packet_id_text(*self),
    {
        let mut out: Vec<char> = Vec::new();
        self.header.push_id(&mut out);
        out.push('_');
        push_hex(&mut out, self.command as u64, 4);
        assert(out@ =~= packet_id_text(*self));
        string_from_chars(&out)
    }
}

} // verus!
