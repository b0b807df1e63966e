//! The fixed frames scenario, as its frames are printed: one line a frame,
//! with the side that sent it, its message id and its payload in hexadecimal.
use vstd::prelude::*;
use vstd::string::StringExecFns;
use crate::text::{bytes_hex, hex_digits, push_bytes_hex, push_hex};

verus! {

/// The line of one frame: the side that sent it, its message id in eight
/// upper-case hexadecimal digits, and its payload, two digits a byte.
pub open spec fn frame_text(side: Seq<char>, id: u32, payload: Seq<u8>) -> Seq<char> {
    side + " "@ + hex_digits(id as nat, 8) + " "@ + bytes_hex(payload)
}

/// The line of one frame.
pub fn frame_line(side: &str, id: u32, payload: &[u8]) -> (line: String)
    ensures
        line@ == frame_text(side@, id, payload@),
{
    let mut line = String::new();
    line.append(side);
    line.append(" ");
    push_hex(&mut line, id as u64, 8);
    line.append(" ");
    push_bytes_hex(&mut line, payload);
    assert(line@ =~= frame_text(side@, id, payload@));
    line
}

} // verus!
