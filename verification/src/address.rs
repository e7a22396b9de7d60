use vstd::prelude::*;
use vstd::bytes::spec_u32_to_le_bytes;
use vstd::bytes::u32_to_le_bytes;
use vstd::bytes::lemma_auto_spec_u32_to_from_le_bytes;
use crate::bytes_ops::push_bytes;

verus! {

/// A storage address: the value that locates exactly one record.
#[derive(Debug, PartialEq, Eq)]
pub struct Address {
    /// The raw bytes of the address.
    pub bytes: Vec<u8>,
}

impl View for Address {
    type V = Seq<u8>;

    open spec fn view(&self) -> Seq<u8> {
        self.bytes@
    }
}

/// The address derived from a namespace tag and an owner identity: the
/// tag's length in four little-endian bytes, then the tag, then the
/// owner identity.
pub open spec fn addr_of(tag: Seq<u8>, owner: Seq<u8>) -> Seq<u8> {
    spec_u32_to_le_bytes(tag.len() as u32) + tag + owner
}

/// Derives the storage address for `owner` under `tag`. Deterministic:
/// the result is a pure function of the two arguments, so recomputing
/// it at any later access locates the same record.
pub fn derive_address(tag: &[u8], owner: &[u8]) -> (r: Address)
    requires
        tag@.len() <= u32::MAX,
        4 + tag@.len() + owner@.len() <= usize::MAX,
    ensures
        r@ == addr_of(tag@, owner@),
{
    let mut bytes = u32_to_le_bytes(tag.len() as u32);
    push_bytes(&mut bytes, tag);
    push_bytes(&mut bytes, owner);
    Address { bytes }
}

/// For a fixed namespace tag the derived address is collision-free:
/// distinct owner identities always receive distinct addresses.
/// (Stability across repeated calls holds because `derive_address`
/// pins its result to `addr_of`, a function of the arguments alone.)
pub proof fn lemma_derive_injective(tag: Seq<u8>, o1: Seq<u8>, o2: Seq<u8>)
    ensures
        addr_of(tag, o1) == addr_of(tag, o2) ==> o1 == o2,
{
    if addr_of(tag, o1) == addr_of(tag, o2) {
        lemma_auto_spec_u32_to_from_le_bytes();
        let p = spec_u32_to_le_bytes(tag.len() as u32) + tag;
        assert(addr_of(tag, o1).len() == p.len() + o1.len());
        assert(addr_of(tag, o2).len() == p.len() + o2.len());
        assert(o1.len() == o2.len());
        assert forall|k: int| 0 <= k < o1.len() implies o1[k] == o2[k] by {
            assert(addr_of(tag, o1)[p.len() + k] == o1[k]);
            assert(addr_of(tag, o2)[p.len() + k] == o2[k]);
        }
        assert(o1 =~= o2);
    }
}

} // verus!
