//! Builder for kernel-facing generic socket addresses: a 16-bit family
//! tag followed by a 14-byte opaque payload, 16 bytes in all. The bind
//! interface dispatches on the family tag and reinterprets the rest per
//! family, so the byte layout must be exact and every byte outside the
//! typed payload must be zero.

use vstd::prelude::*;

verus! {

use vstd::bytes::spec_u16_to_le_bytes;
use vstd::bytes::u16_to_le_bytes;

/// The bytes of the generic envelope for a family tag and a typed
/// payload: the family as two little-endian bytes, the payload, then
/// zeros up to the 16-byte envelope.
pub open spec fn envelope_bytes(family: u16, payload: Seq<u8>) -> Seq<u8>
    recommends
        payload.len() <= 14,
{
    spec_u16_to_le_bytes(family) + payload + Seq::new((14 - payload.len()) as nat, |i: int| 0u8)
}

/// A socket address in the kernel's generic form: exactly the 16
/// envelope bytes the bind interface reads.
#[derive(Debug, Clone)]
pub struct SocketAddressGeneric {
    bytes: Vec<u8>,
}

impl View for SocketAddressGeneric {
    type V = Seq<u8>;

    /// The envelope bytes.
    closed spec fn view(&self) -> Seq<u8> {
        self.bytes@
    }
}

impl SocketAddressGeneric {
    /// The raw bytes handed across the bind boundary.
    pub fn as_raw(&self) -> (r: &Vec<u8>)
        ensures
            r@ == self@,
    {
        &self.bytes
    }
}

/// A typed socket address: a family tag and a protocol-specific payload
/// of at most 14 bytes. Constructed once, then read through `generic`.
#[derive(Debug, Clone)]
pub struct SocketAddress {
    family: u16,
    payload: Vec<u8>,
}

impl SocketAddress {
    pub closed spec fn spec_family(&self) -> u16 {
        self.family
    }

    pub closed spec fn spec_payload(&self) -> Seq<u8> {
        self.payload@
    }

    /// The payload fits beside the family tag in the 16-byte envelope.
    pub open spec fn wf(&self) -> bool {
        self.spec_payload().len() <= 14
    }

    /// Build the address from a family tag and the payload bytes for
    /// that family.
    pub fn new(sa_family: u16, sa_data: Vec<u8>) -> (r: Self)
        requires
            sa_data@.len() <= 14,
        ensures
            r.wf(),
            r.spec_family() == sa_family,
            r.spec_payload() == sa_data@,
    {
        SocketAddress { family: sa_family, payload: sa_data }
    }

    /// The effective address length: family tag plus payload, not the
    /// full envelope. The kernel rejects a bind whose length does not
    /// match the family's expected structure size.
    pub fn len(&self) -> (r: usize)
        requires
            self.wf(),
        ensures
            r == 2 + self.spec_payload().len(),
    {
        2 + self.payload.len()
    }

    /// The generic view: the full zero-padded 16-byte envelope.
    pub fn generic(&self) -> (r: SocketAddressGeneric)
        requires
            self.wf(),
        ensures
            r@ == envelope_bytes(self.spec_family(), self.spec_payload()),
            r@.len() == 16,
    {
        let mut bytes: Vec<u8> = u16_to_le_bytes(self.family);
        let mut i: usize = 0;
        while i < self.payload.len()
            invariant
                i <= self.payload@.len(),
                bytes@ == spec_u16_to_le_bytes(self.family) + self.payload@.subrange(0, i as int),
            decreases self.payload@.len() - i,
        {
            bytes.push(self.payload[i]);
            proof {
                assert(self.payload@.subrange(0, i + 1) =~= self.payload@.subrange(0, i as int)
                    + seq![self.payload@[i as int]]);
            }
            i = i + 1;
        }
        proof {
            assert(self.payload@.subrange(0, self.payload@.len() as int) =~= self.payload@);
        }
        while bytes.len() < 16
            invariant
                self.wf(),
                bytes@.len() >= 2 + self.payload@.len(),
                bytes@.len() <= 16,
                bytes@ == spec_u16_to_le_bytes(self.family) + self.payload@ + Seq::new(
                    (bytes@.len() - 2 - self.payload@.len()) as nat,
                    |j: int| 0u8,
                ),
            decreases 16 - bytes@.len(),
        {
            bytes.push(0);
            proof {
                assert(bytes@ =~= spec_u16_to_le_bytes(self.family) + self.payload@ + Seq::new(
                    (bytes@.len() - 2 - self.payload@.len()) as nat,
                    |j: int| 0u8,
                ));
            }
        }
        proof {
            assert(bytes@ =~= envelope_bytes(self.spec_family(), self.spec_payload()));
        }
        SocketAddressGeneric { bytes }
    }
}

/// Every byte of the built envelope is pinned down: the first two hold
/// the family little-endian, the next `payload.len()` hold the payload,
/// and the rest of the 16-byte envelope is zero.
pub proof fn lemma_envelope_layout(family: u16, payload: Seq<u8>)
    requires
        payload.len() <= 14,
    ensures
        envelope_bytes(family, payload).len() == 16,
        envelope_bytes(family, payload).subrange(0, 2) == spec_u16_to_le_bytes(family),
        envelope_bytes(family, payload).subrange(2, 2 + payload.len() as int) == payload,
        forall|i: int|
            2 + payload.len() <= i < 16 ==> envelope_bytes(family, payload)[i] == 0u8,
{
    vstd::bytes::lemma_auto_spec_u16_to_from_le_bytes();
    let b = envelope_bytes(family, payload);
    assert(b.subrange(0, 2) =~= spec_u16_to_le_bytes(family));
    assert(b.subrange(2, 2 + payload.len() as int) =~= payload);
}

} // verus!
