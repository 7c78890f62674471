//! Helpers for the driver of the graphics context.

use vstd::prelude::*;

verus! {

/// The byte that fills a fresh log buffer: a space.
pub const FILL: u8 = 0x20;

/// Allocates a buffer of `len` spaces, for the context to write an info log
/// into.
pub fn alloc_buffer(len: usize) -> (buffer: Vec<u8>)
    ensures
        buffer@ == Seq::new(len as nat, |i: int| FILL),
{
    let mut buffer: Vec<u8> = Vec::new();
    let mut i: usize = 0;
    while i < len
        invariant
            i <= len,
            buffer@ == Seq::new(i as nat, |j: int| FILL),
        decreases len - i,
    {
        buffer.push(FILL);
        i += 1;
        assert(buffer@ =~= Seq::new(i as nat, |j: int| FILL));
    }
    buffer
}

} // verus!
