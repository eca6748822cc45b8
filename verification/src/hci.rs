//! Codec for the MGMT wire format: a 6-byte little-endian header
//! (op_code, controller index, payload length) followed by an opaque
//! payload whose length the header declares.

use vstd::prelude::*;

verus! {

use vstd::bytes::lemma_auto_spec_u16_to_from_le_bytes;
use vstd::bytes::spec_u16_from_le_bytes;
use vstd::bytes::spec_u16_to_le_bytes;
use vstd::bytes::u16_from_le_bytes;
use vstd::bytes::u16_to_le_bytes;
use vstd::slice::slice_subrange;

/// Typed payload of an HCI socket address: device index and channel,
/// both little-endian 16-bit on the wire.
#[derive(Debug, Clone, Copy, PartialEq, Eq, Structural)]
pub struct HciAddressData {
    pub hci_dev: u16,
    pub hci_channel: u16,
}

impl HciAddressData {
    /// Wire layout of the address payload: hci_dev then hci_channel,
    /// each as two little-endian bytes.
    pub open spec fn spec_bytes(self) -> Seq<u8> {
        spec_u16_to_le_bytes(self.hci_dev) + spec_u16_to_le_bytes(self.hci_channel)
    }

    pub fn to_bytes(&self) -> (r: Vec<u8>)
        ensures
            r@ == self.spec_bytes(),
            r@.len() == 4,
    {
        let mut out: Vec<u8> = Vec::new();
        push_u16_le(&mut out, self.hci_dev);
        push_u16_le(&mut out, self.hci_channel);
        proof {
            lemma_auto_spec_u16_to_from_le_bytes();
        }
        out
    }
}

/// Header of an MGMT frame: three consecutive little-endian 16-bit
/// fields, 6 bytes in all.
#[derive(Debug, Clone, Copy, PartialEq, Eq, Structural)]
pub struct HciMessageHeader {
    pub op_code: u16,
    pub index: u16,
    pub len: u16,
}

/// An MGMT frame: header plus payload bytes. A message is valid on the
/// wire exactly when `header.len` equals `data.len()`.
#[derive(Debug, PartialEq, Eq)]
pub struct HciMessage {
    pub header: HciMessageHeader,
    pub data: Vec<u8>,
}

/// Errors of the codec itself; socket errors belong to the caller.
#[derive(Debug, Clone, Copy, PartialEq, Eq, Structural)]
pub enum CodecError {
    /// The buffer is shorter than the 6-byte header, or shorter than
    /// the header plus the payload length the header declares.
    TruncatedFrame,
    /// The header's length field disagrees with the payload length.
    EncodingError,
}

/// The wire encoding of a frame with the given header fields and payload.
pub open spec fn frame_bytes(op_code: u16, index: u16, len: u16, payload: Seq<u8>) -> Seq<u8> {
    spec_u16_to_le_bytes(op_code) + spec_u16_to_le_bytes(index) + spec_u16_to_le_bytes(len)
        + payload
}

/// The payload length a buffer declares in its header, read little-endian
/// from offsets 4..6.
pub open spec fn declared_len(b: Seq<u8>) -> u16
    recommends
        b.len() >= 6,
{
    spec_u16_from_le_bytes(b.subrange(4, 6))
}

/// A buffer holds a complete frame: a full header, and at least as many
/// payload bytes as the header declares.
pub open spec fn frame_complete(b: Seq<u8>) -> bool {
    b.len() >= 6 && b.len() >= 6 + declared_len(b)
}

impl HciMessage {
    /// The bytes this message encodes to, whether or not the header
    /// length agrees with the payload.
    pub open spec fn wire_bytes(self) -> Seq<u8> {
        frame_bytes(self.header.op_code, self.header.index, self.header.len, self.data@)
    }

    /// Encode the message: 6-byte little-endian header, then the payload.
    pub fn as_bytes(&self) -> (r: Vec<u8>)
        ensures
            r@ == self.wire_bytes(),
            r@.len() == 6 + self.data@.len(),
    {
        proof {
            lemma_auto_spec_u16_to_from_le_bytes();
        }
        let mut out: Vec<u8> = Vec::new();
        push_u16_le(&mut out, self.header.op_code);
        push_u16_le(&mut out, self.header.index);
        push_u16_le(&mut out, self.header.len);
        let mut i: usize = 0;
        while i < self.data.len()
            invariant
                i <= self.data@.len(),
                out@ == frame_bytes(
                    self.header.op_code,
                    self.header.index,
                    self.header.len,
                    self.data@.subrange(0, i as int),
                ),
            decreases self.data@.len() - i,
        {
            out.push(self.data[i]);
            proof {
                assert(self.data@.subrange(0, i + 1) =~= self.data@.subrange(0, i as int)
                    + seq![self.data@[i as int]]);
            }
            i = i + 1;
        }
        proof {
            assert(self.data@.subrange(0, self.data@.len() as int) =~= self.data@);
        }
        out
    }

    /// Encode after checking that the header length agrees with the
    /// payload; a mismatched message is refused with `EncodingError`.
    pub fn encode(&self) -> (r: Result<Vec<u8>, CodecError>)
        ensures
            match r {
                Ok(bytes) => self.header.len == self.data@.len() && bytes@ == self.wire_bytes(),
                Err(e) => e == CodecError::EncodingError && self.header.len != self.data@.len(),
            },
    {
        if self.data.len() == self.header.len as usize {
            Ok(self.as_bytes())
        } else {
            Err(CodecError::EncodingError)
        }
    }

    /// Decode a received buffer: read the three little-endian header
    /// fields, then copy the payload bytes the header declares. A buffer
    /// shorter than the header, or shorter than the header plus the
    /// declared payload length, is refused with `TruncatedFrame` and
    /// never partially accepted.
    pub fn from_bytes(buffer: &[u8]) -> (r: Result<Self, CodecError>)
        ensures
            match r {
                Ok(m) => {
                    &&& frame_complete(buffer@)
                    &&& m.header.op_code == spec_u16_from_le_bytes(buffer@.subrange(0, 2))
                    &&& m.header.index == spec_u16_from_le_bytes(buffer@.subrange(2, 4))
                    &&& m.header.len == declared_len(buffer@)
                    &&& m.data@ == buffer@.subrange(6, 6 + declared_len(buffer@) as int)
                },
                Err(e) => e == CodecError::TruncatedFrame && !frame_complete(buffer@),
            },
    {
        if buffer.len() < 6 {
            return Err(CodecError::TruncatedFrame);
        }
        let op_code = u16_from_le_bytes(slice_subrange(buffer, 0, 2));
        let index = u16_from_le_bytes(slice_subrange(buffer, 2, 4));
        let len = u16_from_le_bytes(slice_subrange(buffer, 4, 6));
        let l: usize = len as usize;
        if buffer.len() - 6 < l {
            return Err(CodecError::TruncatedFrame);
        }
        let mut data: Vec<u8> = Vec::new();
        let mut i: usize = 0;
        while i < l
            invariant
                i <= l,
                l == declared_len(buffer@),
                buffer@.len() >= 6 + l,
                data@ == buffer@.subrange(6, 6 + i as int),
            decreases l - i,
        {
            data.push(buffer[6 + i]);
            proof {
                assert(buffer@.subrange(6, 6 + (i + 1) as int) =~= buffer@.subrange(6, 6 + i as int)
                    + seq![buffer@[6 + i as int]]);
            }
            i = i + 1;
        }
        Ok(HciMessage { header: HciMessageHeader { op_code, index, len }, data })
    }
}

/// Fields the version exchange reads from the payload of the reply to a
/// "read management version" command: the low byte of the echoed command
/// opcode, the 16-bit status, then the version and revision.
#[derive(Debug, Clone, Copy, PartialEq, Eq, Structural)]
pub struct VersionReply {
    pub opcode: u8,
    pub status: u16,
    pub version: u8,
    pub revision: u16,
}

/// Extract the version-reply fields from a reply payload. A payload with
/// fewer than the 6 bytes those fields occupy is refused with
/// `TruncatedFrame`.
pub fn parse_version_reply(payload: &[u8]) -> (r: Result<VersionReply, CodecError>)
    ensures
        match r {
            Ok(v) => {
                &&& payload@.len() >= 6
                &&& v.opcode == payload@[0]
                &&& v.status == spec_u16_from_le_bytes(payload@.subrange(1, 3))
                &&& v.version == payload@[3]
                &&& v.revision == spec_u16_from_le_bytes(payload@.subrange(4, 6))
            },
            Err(e) => e == CodecError::TruncatedFrame && payload@.len() < 6,
        },
{
    if payload.len() < 6 {
        return Err(CodecError::TruncatedFrame);
    }
    let opcode = payload[0];
    let status = u16_from_le_bytes(slice_subrange(payload, 1, 3));
    let version = payload[3];
    let revision = u16_from_le_bytes(slice_subrange(payload, 4, 6));
    Ok(VersionReply { opcode, status, version, revision })
}

/// Round trip one way: a frame built from a header whose length field
/// agrees with its payload is complete, and decoding it recovers every
/// header field and the payload exactly.
pub proof fn lemma_encode_then_decode(op_code: u16, index: u16, len: u16, payload: Seq<u8>)
    requires
        payload.len() == len,
    ensures
        ({
            let b = frame_bytes(op_code, index, len, payload);
            &&& b.len() == 6 + len
            &&& frame_complete(b)
            &&& spec_u16_from_le_bytes(b.subrange(0, 2)) == op_code
            &&& spec_u16_from_le_bytes(b.subrange(2, 4)) == index
            &&& declared_len(b) == len
            &&& b.subrange(6, 6 + len as int) == payload
        }),
{
    lemma_auto_spec_u16_to_from_le_bytes();
    let b = frame_bytes(op_code, index, len, payload);
    assert(b.subrange(0, 2) =~= spec_u16_to_le_bytes(op_code));
    assert(b.subrange(2, 4) =~= spec_u16_to_le_bytes(index));
    assert(b.subrange(4, 6) =~= spec_u16_to_le_bytes(len));
    assert(b.subrange(6, 6 + len as int) =~= payload);
}

/// Round trip the other way: re-encoding the header fields and payload
/// decoded from a complete frame reproduces the frame, truncated to the
/// six header bytes plus the declared payload length.
pub proof fn lemma_decode_then_encode(b: Seq<u8>)
    requires
        b.len() >= 6,
        b.len() >= 6 + declared_len(b),
    ensures
        frame_bytes(
            spec_u16_from_le_bytes(b.subrange(0, 2)),
            spec_u16_from_le_bytes(b.subrange(2, 4)),
            declared_len(b),
            b.subrange(6, 6 + declared_len(b) as int),
        ) == b.subrange(0, 6 + declared_len(b) as int),
{
    lemma_auto_spec_u16_to_from_le_bytes();
    assert(frame_bytes(
        spec_u16_from_le_bytes(b.subrange(0, 2)),
        spec_u16_from_le_bytes(b.subrange(2, 4)),
        declared_len(b),
        b.subrange(6, 6 + declared_len(b) as int),
    ) =~= b.subrange(0, 6 + declared_len(b) as int));
}

/// Append the two little-endian bytes of `x` to `out`.
fn push_u16_le(out: &mut Vec<u8>, x: u16)
    ensures
        final(out)@ == old(out)@ + spec_u16_to_le_bytes(x),
{
    let b = u16_to_le_bytes(x);
    out.push(b[0]);
    out.push(b[1]);
    proof {
        assert(out@ =~= old(out)@ + spec_u16_to_le_bytes(x));
    }
}

} // verus!
