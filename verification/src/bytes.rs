//! Copying bytes out of borrowed buffers.

use vstd::prelude::*;

verus! {

/// The first `count` bytes of `buffer`, as a chunk of its own.
pub(crate) fn copy_prefix(buffer: &[u8], count: usize) -> (chunk: Vec<u8>)
    requires
        count <= buffer@.len(),
    ensures
        chunk@ == buffer@.take(count as int),
{
    let mut chunk: Vec<u8> = Vec::new();
    let mut i: usize = 0;
    while i < count
        invariant
            i <= count <= buffer@.len(),
            chunk@ == buffer@.take(i as int),
        decreases count - i,
    {
        chunk.push(buffer[i]);
        assert(buffer@.take(i + 1) =~= buffer@.take(i as int).push(buffer@[i as int]));
        i += 1;
    }
    chunk
}

} // verus!
