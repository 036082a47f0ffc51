use vstd::prelude::*;

use crate::header::{header_id_text, Header};
use crate::text::{hex_fixed, push_hex, string_from_chars};

verus! {

/// A frame of VBus protocol version 2.x.
#[derive(Clone, Copy, Debug, PartialEq, Eq, Structural)]
pub struct Datagram {
    /// The shared header.
    pub header: Header,
    /// The command of this datagram.
    pub command: u16,
    /// The 16-bit parameter (a value index for command 0x0900).
    pub param16: i16,
    /// The 32-bit parameter (a value).
    pub param32: i32,
}

/// `"CC_DDDD_SSSS_PP_CCCC_PPPP"`, the last part being `param16` as 16 bits.
pub open spec fn datagram_id_text(d: Datagram) -> Seq<char> {
    header_id_text(d.header) + seq!['_'] + hex_fixed(d.command as nat, 4) + seq!['_'] + hex_fixed(
        d.param16 as u16 as nat,
        4,
    )
}

impl Datagram {
    /// Creates the identity string of this datagram.
    pub fn to_id_string(&self) -> (r: String)
        ensures
            r@ == datagram_id_text(*self),
    {
        let mut out: Vec<char> = Vec::new();
        self.header.push_id(&mut out);
        out.push('_');
        push_hex(&mut out, self.command as u64, 4);
        out.push('_');
        push_hex(&mut out, self.param16 as u16 as u64, 4);
        assert(out@ =~= datagram_id_text(*self));
        string_from_chars(&out)
    }
}

} // verus!
