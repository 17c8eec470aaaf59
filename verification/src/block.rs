//! The chain record exchanged between the resolver, the store and the
//! network: an opaque payload together with its position in the chain.
//!
//! A block serializes to a fixed header followed by its payload:
//! one flag byte saying whether a parent is present, eight bytes of parent
//! identifier (zero when absent), four bytes of height, four bytes of
//! payload length, then the payload itself. All multi-byte fields are
//! big-endian. A block's identifier is the content hash of its serialized
//! bytes, so equal content always yields equal identifiers.

use vstd::prelude::*;

use crate::hash::{content_hash, hash_of};

verus! {

/// Number of bytes before the payload in a serialized block.
pub const BLOCK_HEADER_LEN: usize = 17;

/// A chain record: block 0 has no parent, every other block names one.
#[derive(Debug)]
pub struct Block {
    /// Identifier of the parent block; `None` for block 0.
    pub parent: Option<u64>,
    /// Distance from block 0 along parent links; 0 for block 0.
    pub height: u32,
    /// Opaque application data carried by the block.
    pub payload: Vec<u8>,
}

/// The mathematical value of a block: what the contracts speak of.
#[verifier::ext_equal]
pub struct BlockView {
    pub parent: Option<u64>,
    pub height: u32,
    pub payload: Seq<u8>,
}

impl View for Block {
    type V = BlockView;

    open spec fn view(&self) -> BlockView {
        BlockView { parent: self.parent, height: self.height, payload: self.payload@ }
    }
}

/// The big-endian bytes of a 64-bit value, most significant first.
pub open spec fn u64_to_bytes(x: u64) -> Seq<u8> {
    seq![
        ((x >> 56) & 0xff) as u8,
        ((x >> 48) & 0xff) as u8,
        ((x >> 40) & 0xff) as u8,
        ((x >> 32) & 0xff) as u8,
        ((x >> 24) & 0xff) as u8,
        ((x >> 16) & 0xff) as u8,
        ((x >> 8) & 0xff) as u8,
        (x & 0xff) as u8,
    ]
}

/// The 64-bit value read back from eight big-endian bytes.
pub open spec fn u64_from_bytes(
    b0: u8, b1: u8, b2: u8, b3: u8, b4: u8, b5: u8, b6: u8, b7: u8,
) -> u64 {
    ((b0 as u64) << 56) | ((b1 as u64) << 48) | ((b2 as u64) << 40) | ((b3 as u64) << 32)
        | ((b4 as u64) << 24) | ((b5 as u64) << 16) | ((b6 as u64) << 8) | (b7 as u64)
}

/// The big-endian bytes of a 32-bit value, most significant first.
pub open spec fn u32_to_bytes(x: u32) -> Seq<u8> {
    seq![
        ((x >> 24) & 0xff) as u8,
        ((x >> 16) & 0xff) as u8,
        ((x >> 8) & 0xff) as u8,
        (x & 0xff) as u8,
    ]
}

/// The 32-bit value read back from four big-endian bytes.
pub open spec fn u32_from_bytes(b0: u8, b1: u8, b2: u8, b3: u8) -> u32 {
    ((b0 as u32) << 24) | ((b1 as u32) << 16) | ((b2 as u32) << 8) | (b3 as u32)
}

/// Reading back the eight bytes of a 64-bit value restores it.
pub proof fn lemma_u64_bytes_roundtrip(x: u64)
    ensures
        u64_from_bytes(
            u64_to_bytes(x)[0], u64_to_bytes(x)[1], u64_to_bytes(x)[2], u64_to_bytes(x)[3],
            u64_to_bytes(x)[4], u64_to_bytes(x)[5], u64_to_bytes(x)[6], u64_to_bytes(x)[7],
        ) == x,
{
    assert(((((x >> 56) & 0xff) as u8 as u64) << 56) | ((((x >> 48) & 0xff) as u8 as u64) << 48)
        | ((((x >> 40) & 0xff) as u8 as u64) << 40) | ((((x >> 32) & 0xff) as u8 as u64) << 32)
        | ((((x >> 24) & 0xff) as u8 as u64) << 24) | ((((x >> 16) & 0xff) as u8 as u64) << 16)
        | ((((x >> 8) & 0xff) as u8 as u64) << 8) | ((x & 0xff) as u8 as u64) == x) by (bit_vector);
}

/// Reading back the four bytes of a 32-bit value restores it.
pub proof fn lemma_u32_bytes_roundtrip(x: u32)
    ensures
        u32_from_bytes(
            u32_to_bytes(x)[0], u32_to_bytes(x)[1], u32_to_bytes(x)[2], u32_to_bytes(x)[3],
        ) == x,
{
    assert(((((x >> 24) & 0xff) as u8 as u32) << 24) | ((((x >> 16) & 0xff) as u8 as u32) << 16)
        | ((((x >> 8) & 0xff) as u8 as u32) << 8) | ((x & 0xff) as u8 as u32) == x) by (bit_vector);
}

/// A byte-sized mask of a 64-bit value always fits in a byte.
proof fn lemma_mask_fits_u64(v: u64)
    ensures
        v & 0xff < 256,
{
    assert(v & 0xff < 256) by (bit_vector);
}

/// A byte-sized mask of a 32-bit value always fits in a byte.
proof fn lemma_mask_fits_u32(v: u32)
    ensures
        v & 0xff < 256,
{
    assert(v & 0xff < 256) by (bit_vector);
}

impl BlockView {
    /// A block is well formed when its payload length fits the four-byte
    /// length field of the serialized form.
    pub open spec fn wf(&self) -> bool {
        self.payload.len() <= u32::MAX
    }

    /// The serialized bytes of this block.
    pub open spec fn spec_serialize(&self) -> Seq<u8> {
        let flag: u8 = if self.parent is Some { 1 } else { 0 };
        let parent: u64 = match self.parent {
            Some(p) => p,
            None => 0,
        };
        seq![flag] + u64_to_bytes(parent) + u32_to_bytes(self.height)
            + u32_to_bytes(self.payload.len() as u32) + self.payload
    }

    /// The identifier of this block: the content hash of its serialized
    /// bytes.
    pub open spec fn id(&self) -> u64 {
        hash_of(self.spec_serialize())
    }
}

/// The block encoded by `bytes`, or `None` when `bytes` is not a valid
/// encoding: too short for the header, an unknown flag byte, a nonzero
/// parent field under a "no parent" flag, or a length field that does not
/// match the actual payload length.
pub open spec fn spec_deserialize(bytes: Seq<u8>) -> Option<BlockView> {
    if bytes.len() < BLOCK_HEADER_LEN {
        None
    } else {
        let flag = bytes[0];
        let parent_raw = u64_from_bytes(
            bytes[1], bytes[2], bytes[3], bytes[4], bytes[5], bytes[6], bytes[7], bytes[8],
        );
        let height = u32_from_bytes(bytes[9], bytes[10], bytes[11], bytes[12]);
        let plen = u32_from_bytes(bytes[13], bytes[14], bytes[15], bytes[16]);
        if flag != 0 && flag != 1 {
            None
        } else if flag == 0 && parent_raw != 0 {
            None
        } else if bytes.len() - BLOCK_HEADER_LEN != plen {
            None
        } else {
            Some(
                BlockView {
                    parent: if flag == 1 { Some(parent_raw) } else { None },
                    height,
                    payload: bytes.skip(BLOCK_HEADER_LEN as int),
                },
            )
        }
    }
}

/// Serializing a well-formed block and reading the bytes back restores the
/// block exactly.
pub proof fn lemma_block_roundtrip(v: BlockView)
    requires
        v.wf(),
    ensures
        spec_deserialize(v.spec_serialize()) == Some(v),
{
    let bytes = v.spec_serialize();
    let flag: u8 = if v.parent is Some { 1 } else { 0 };
    let parent: u64 = match v.parent {
        Some(p) => p,
        None => 0,
    };
    let plen: u32 = v.payload.len() as u32;
    assert(bytes =~= seq![flag] + u64_to_bytes(parent) + u32_to_bytes(v.height) + u32_to_bytes(
        plen,
    ) + v.payload);
    assert(bytes.len() == 17 + v.payload.len());
    assert(bytes[0] == flag);
    assert forall|i: int| 0 <= i < 8 implies bytes[1 + i] == u64_to_bytes(parent)[i] by {}
    assert forall|i: int| 0 <= i < 4 implies bytes[9 + i] == u32_to_bytes(v.height)[i] by {}
    assert forall|i: int| 0 <= i < 4 implies bytes[13 + i] == u32_to_bytes(plen)[i] by {}
    lemma_u64_bytes_roundtrip(parent);
    lemma_u32_bytes_roundtrip(v.height);
    lemma_u32_bytes_roundtrip(plen);
    if v.parent is None {
        assert(u64_to_bytes(0)[0] == 0 && u64_to_bytes(0)[1] == 0 && u64_to_bytes(0)[2] == 0
            && u64_to_bytes(0)[3] == 0 && u64_to_bytes(0)[4] == 0 && u64_to_bytes(0)[5] == 0
            && u64_to_bytes(0)[6] == 0 && u64_to_bytes(0)[7] == 0) by (bit_vector);
    }
    assert(bytes.skip(17) =~= v.payload);
    assert(spec_deserialize(bytes) matches Some(w) && w =~= v);
}

impl Block {
    /// Serializes this block.
    pub fn serialize(&self) -> (out: Vec<u8>)
        requires
            self@.wf(),
        ensures
            out@ == self@.spec_serialize(),
    {
        let mut out: Vec<u8> = Vec::new();
        let flag: u8 = if self.parent.is_some() { 1 } else { 0 };
        out.push(flag);
        let parent: u64 = match self.parent {
            Some(p) => p,
            None => 0,
        };
        push_u64(&mut out, parent);
        push_u32(&mut out, self.height);
        push_u32(&mut out, self.payload.len() as u32);
        let ghost header = out@;
        let mut i: usize = 0;
        while i < self.payload.len()
            invariant
                i <= self.payload@.len(),
                out@ == header + self.payload@.take(i as int),
            decreases self.payload@.len() - i,
        {
            out.push(self.payload[i]);
            proof {
                assert(self.payload@.take(i + 1) =~= self.payload@.take(i as int).push(
                    self.payload@[i as int],
                ));
            }
            i = i + 1;
        }
        proof {
            assert(self.payload@.take(self.payload@.len() as int) =~= self.payload@);
            assert(out@ =~= self@.spec_serialize());
        }
        out
    }

    /// Returns a copy of this block with the same mathematical value.
    pub fn duplicate(&self) -> (r: Block)
        ensures
            r@ == self@,
    {
        let payload = self.payload.clone();
        proof {
            assert(payload@ =~= self.payload@);
        }
        Block { parent: self.parent, height: self.height, payload }
    }

    /// Computes the identifier of this block.
    pub fn content_id(&self) -> (id: u64)
        requires
            self@.wf(),
        ensures
            id == self@.id(),
    {
        let bytes = self.serialize();
        content_hash(&bytes)
    }
}

/// Parses `bytes` as a serialized block; returns `None` exactly when the
/// bytes are not a valid encoding.
pub fn deserialize(bytes: &Vec<u8>) -> (r: Option<Block>)
    ensures
        r is Some <==> spec_deserialize(bytes@) is Some,
        r matches Some(b) ==> Some(b@) == spec_deserialize(bytes@) && b@.wf(),
{
    if bytes.len() < BLOCK_HEADER_LEN {
        return None;
    }
    let flag: u8 = bytes[0];
    let parent_raw: u64 = u64_from_bytes_exec(
        bytes[1], bytes[2], bytes[3], bytes[4], bytes[5], bytes[6], bytes[7], bytes[8],
    );
    let height: u32 = u32_from_bytes_exec(bytes[9], bytes[10], bytes[11], bytes[12]);
    let plen: u32 = u32_from_bytes_exec(bytes[13], bytes[14], bytes[15], bytes[16]);
    if flag != 0 && flag != 1 {
        return None;
    }
    if flag == 0 && parent_raw != 0 {
        return None;
    }
    if (bytes.len() - BLOCK_HEADER_LEN) as u64 != plen as u64 {
        return None;
    }
    let mut payload: Vec<u8> = Vec::new();
    let mut i: usize = BLOCK_HEADER_LEN;
    while i < bytes.len()
        invariant
            BLOCK_HEADER_LEN <= i <= bytes@.len(),
            payload@ == bytes@.subrange(BLOCK_HEADER_LEN as int, i as int),
        decreases bytes@.len() - i,
    {
        payload.push(bytes[i]);
        proof {
            assert(bytes@.subrange(17, i + 1) =~= bytes@.subrange(17, i as int).push(
                bytes@[i as int],
            ));
        }
        i = i + 1;
    }
    proof {
        assert(payload@ =~= bytes@.skip(17));
    }
    Some(Block { parent: if flag == 1 { Some(parent_raw) } else { None }, height, payload })
}

/// The identifiers of a run of blocks, in order: what a caller that pulled
/// the blocks from a peer reports as the chain of hashes up to the tip.
pub fn blocks_hashes_to_tip(blocks: &Vec<Block>) -> (r: Vec<u64>)
    requires
        forall|i: int| 0 <= i < blocks@.len() ==> (#[trigger] blocks@[i])@.wf(),
    ensures
        r@ == blocks@.map_values(|b: Block| b@.id()),
{
    let mut r: Vec<u64> = Vec::new();
    let mut i: usize = 0;
    while i < blocks.len()
        invariant
            i <= blocks@.len(),
            forall|k: int| 0 <= k < blocks@.len() ==> (#[trigger] blocks@[k])@.wf(),
            r@ == blocks@.take(i as int).map_values(|b: Block| b@.id()),
        decreases blocks@.len() - i,
    {
        r.push(blocks[i].content_id());
        proof {
            assert(blocks@.take(i + 1) =~= blocks@.take(i as int).push(blocks@[i as int]));
            assert(blocks@.take(i + 1).map_values(|b: Block| b@.id()) =~= blocks@.take(
                i as int,
            ).map_values(|b: Block| b@.id()).push(blocks@[i as int]@.id()));
        }
        i = i + 1;
    }
    proof {
        assert(blocks@.take(blocks@.len() as int) =~= blocks@);
    }
    r
}

/// Computes the value of `u64_from_bytes` on the given bytes.
fn u64_from_bytes_exec(b0: u8, b1: u8, b2: u8, b3: u8, b4: u8, b5: u8, b6: u8, b7: u8) -> (x: u64)
    ensures
        x == u64_from_bytes(b0, b1, b2, b3, b4, b5, b6, b7),
{
    ((b0 as u64) << 56u64) | ((b1 as u64) << 48u64) | ((b2 as u64) << 40u64) | ((b3 as u64)
        << 32u64) | ((b4 as u64) << 24u64) | ((b5 as u64) << 16u64) | ((b6 as u64) << 8u64) | (
    b7 as u64)
}

/// Computes the value of `u32_from_bytes` on the given bytes.
fn u32_from_bytes_exec(b0: u8, b1: u8, b2: u8, b3: u8) -> (x: u32)
    ensures
        x == u32_from_bytes(b0, b1, b2, b3),
{
    ((b0 as u32) << 24u32) | ((b1 as u32) << 16u32) | ((b2 as u32) << 8u32) | (b3 as u32)
}

/// Appends the big-endian bytes of `x` to `out`.
fn push_u64(out: &mut Vec<u8>, x: u64)
    ensures
        final(out)@ == old(out)@ + u64_to_bytes(x),
{
    proof {
        lemma_mask_fits_u64(x >> 56);
        lemma_mask_fits_u64(x >> 48);
        lemma_mask_fits_u64(x >> 40);
        lemma_mask_fits_u64(x >> 32);
        lemma_mask_fits_u64(x >> 24);
        lemma_mask_fits_u64(x >> 16);
        lemma_mask_fits_u64(x >> 8);
        lemma_mask_fits_u64(x);
    }
    out.push(((x >> 56) & 0xff) as u8);
    out.push(((x >> 48) & 0xff) as u8);
    out.push(((x >> 40) & 0xff) as u8);
    out.push(((x >> 32) & 0xff) as u8);
    out.push(((x >> 24) & 0xff) as u8);
    out.push(((x >> 16) & 0xff) as u8);
    out.push(((x >> 8) & 0xff) as u8);
    out.push((x & 0xff) as u8);
    proof {
        assert(final(out)@ =~= old(out)@ + u64_to_bytes(x));
    }
}

/// Appends the big-endian bytes of `x` to `out`.
fn push_u32(out: &mut Vec<u8>, x: u32)
    ensures
        final(out)@ == old(out)@ + u32_to_bytes(x),
{
    proof {
        lemma_mask_fits_u32(x >> 24);
        lemma_mask_fits_u32(x >> 16);
        lemma_mask_fits_u32(x >> 8);
        lemma_mask_fits_u32(x);
    }
    out.push(((x >> 24) & 0xff) as u8);
    out.push(((x >> 16) & 0xff) as u8);
    out.push(((x >> 8) & 0xff) as u8);
    out.push((x & 0xff) as u8);
    proof {
        assert(final(out)@ =~= old(out)@ + u32_to_bytes(x));
    }
}

} // verus!
