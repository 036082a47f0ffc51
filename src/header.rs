use vstd::prelude::*;

use crate::text::{hex_fixed, push_hex, string_from_chars};
use crate::timestamp::Timestamp;

verus! {

/// The part shared by all VBus protocol variants: when a frame was seen and
/// how it was addressed.
#[derive(Clone, Copy, Debug, PartialEq, Eq, Structural)]
pub struct Header {
    /// When the frame was received.
    pub timestamp: Timestamp,
    /// The VBus channel the frame was received on.
    pub channel: u8,
    /// The VBus address of the receiver.
    pub destination_address: u16,
    /// The VBus address of the sender.
    pub source_address: u16,
    /// The protocol version (0x1x, 0x2x or 0x3x).
    pub protocol_version: u8,
}

/// `"CC_DDDD_SSSS_PP"` in upper-case hexadecimal.
pub open spec fn header_id_text(h: Header) -> Seq<char> {
    hex_fixed(h.channel as nat, 2) + seq!['_'] + hex_fixed(h.destination_address as nat, 4) + seq!['_']
        + hex_fixed(h.source_address as nat, 4) + seq!['_'] + hex_fixed(h.protocol_version as nat, 2)
}

impl Header {
    /// Appends the identity of this header.
    pub fn push_id(&self, out: &mut Vec<char>)
        ensures
            final(out)@ == old(out)@ + header_id_text(*self),
    {
        push_hex(out, self.channel as u64, 2);
        out.push('_');
        push_hex(out, self.destination_address as u64, 4);
        out.push('_');
        push_hex(out, self.source_address as u64, 4);
        out.push('_');
        push_hex(out, self.protocol_version as u64, 2);
        assert(out@ =~= old(out)@ + header_id_text(*self));
    }

    /// Creates the identity string `"CC_DDDD_SSSS_PP"` of this header.
    pub fn to_id_string(&self) -> (r: String)
        ensures
            r@ == header_id_text(*self),
    {
        let mut out: Vec<char> = Vec::new();
        self.push_id(&mut out);
        assert(out@ =~= header_id_text(*self));
        string_from_chars(&out)
    }
}

} // verus!
