//! Memory-mapped regions.
//!
//! A memory-mapped feed reads its still image out of a region another
//! process writes.  The mapping itself comes from the memmap2 crate;
//! creating one is the caller's job (it touches the file system), and
//! dropping the value unmaps the region.  This module declares the
//! mapping type to the verifier and wraps the one operation the core
//! needs: copying the region's current bytes out.

use vstd::prelude::*;

verus! {

#[verifier::external_type_specification]
#[verifier::external_body]
pub struct ExMmap(memmap2::Mmap);

/// The fixed length of a mapped region, set when the mapping was
/// created and unchanged for the life of the value.
pub uninterp spec fn mapped_len(m: memmap2::Mmap) -> nat;

/// Relies on memmap2::Mmap's `AsRef<[u8]>`: the mapped region is a
/// byte slice whose length was fixed when the mapping was created.
/// The bytes themselves may differ between two calls — another
/// process may rewrite the backing file — so nothing is said of them.
#[verifier::external_body]
pub(crate) fn mapped_bytes(m: &memmap2::Mmap) -> (b: Vec<u8>)
    ensures
        b@.len() == mapped_len(*m),
{
    m.as_ref().to_vec()
}

} // verus!
