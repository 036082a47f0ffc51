use vstd::prelude::*;

use crate::header::{header_id_text, Header};
use crate::text::{hex_fixed, push_hex, string_from_chars};

verus! {

/// A frame of VBus protocol version 3.x.
#[derive(Clone, Copy, Debug)]
pub struct Telegram {
    /// The shared header.
    pub header: Header,
    /// The command of this telegram; its top three bits give the frame count.
    pub command: u8,
    /// The payload of up to three 7-byte frames.
    pub frame_data: [u8; 21],
}

/// `"CC_DDDD_SSSS_PP_CC"`.
pub open spec fn telegram_id_text(t: Telegram) -> Seq<char> {
    header_id_text(t.header) + seq!['_'] + hex_fixed(t.command as nat, 2)
}

impl Telegram {
    /// The number of frames announced by a version 3.x command.
    pub fn frame_count_for_command(command: u8) -> (r: u8)
        ensures
            r == command / 32,
            r < 8,
    {
        let r = command >> 5u8;
        assert(r == command / 32 && r < 8) by (bit_vector)
            requires
                r == command >> 5u8,
        ;
        r
    }

    /// The number of 7-byte frames attached to this telegram.
    pub fn frame_count(&self) -> (r: u8)
        ensures
            r == self.command / 32,
    {
        Telegram::frame_count_for_command(self.command)
    }

    /// Creates the identity string of this telegram.
    pub fn to_id_string(&self) -> (r: String)
        ensures
            r@ == telegram_id_text(*self),
    {
        let mut out: Vec<char> = Vec::new();
        self.header.push_id(&mut out);
        out.push('_');
        push_hex(&mut out, self.command as u64, 2);
        assert(out@ =~= telegram_id_text(*self));
        string_from_chars(&out)
    }
}

} // verus!
