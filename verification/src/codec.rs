//! The persistent chunk format: blocks serialized as sequential
//! `(id, damage)` byte pairs, then compressed with gzip.

use vstd::prelude::*;
use crate::block::{Block, BlockID, block_id_code, block_id_of_code};

verus! {

/// The byte-pair serialization of a block sequence: two bytes per
/// block, the kind's code followed by the damage value.
pub open spec fn pair_bytes_of(blocks: Seq<Block>) -> Seq<u8> {
    Seq::new(
        blocks.len() * 2,
        |i: int| if i % 2 == 0 {
            block_id_code(blocks[i / 2].id)
        } else {
            blocks[i / 2].damage
        },
    )
}

/// Whether a byte sequence is a well-formed pair serialization: even
/// length and every even-offset byte a known block kind code.
pub open spec fn valid_pair_bytes(bytes: Seq<u8>) -> bool {
    &&& bytes.len() % 2 == 0
    &&& forall|i: int| 0 <= i < bytes.len() / 2 ==> #[trigger] block_id_of_code(bytes[2 * i]) is Some
}

/// The block sequence a well-formed pair serialization stands for.
pub open spec fn blocks_of_pairs(bytes: Seq<u8>) -> Seq<Block> {
    Seq::new(
        bytes.len() / 2,
        |i: int| Block {
            id: block_id_of_code(bytes[2 * i])->Some_0,
            damage: bytes[2 * i + 1],
        },
    )
}

/// Serializing is inverted exactly by parsing: the pair bytes of any
/// block sequence are well formed, and parsing them yields the original
/// blocks, for every block kind and every damage value.
pub proof fn lemma_pair_codec_roundtrip(blocks: Seq<Block>)
    ensures
        valid_pair_bytes(pair_bytes_of(blocks)),
        blocks_of_pairs(pair_bytes_of(blocks)) == blocks,
{
    let bytes = pair_bytes_of(blocks);
    assert(bytes.len() == blocks.len() * 2);
    assert(bytes.len() % 2 == 0);
    assert forall|i: int| 0 <= i < bytes.len() / 2 implies #[trigger] block_id_of_code(bytes[2 * i]) is Some by {
        assert(bytes[2 * i] == block_id_code(blocks[i].id));
    }
    assert forall|i: int| 0 <= i < blocks.len() implies blocks_of_pairs(bytes)[i] == blocks[i] by {
        assert(bytes[2 * i] == block_id_code(blocks[i].id));
        assert(bytes[2 * i + 1] == blocks[i].damage);
    }
    assert(blocks_of_pairs(bytes) =~= blocks);
}

/// Serializes blocks as sequential `(id, damage)` byte pairs.
pub fn encode_block_pairs(blocks: &Vec<Block>) -> (r: Vec<u8>)
    requires
        blocks@.len() * 2 <= usize::MAX,
    ensures
        r@ == pair_bytes_of(blocks@),
{
    let mut out: Vec<u8> = Vec::new();
    let mut i: usize = 0;
    while i < blocks.len()
        invariant
            i <= blocks@.len(),
            blocks@.len() * 2 <= usize::MAX,
            out@.len() == i * 2,
            forall|j: int| 0 <= j < i * 2 ==> out@[j] == pair_bytes_of(blocks@)[j],
        decreases blocks@.len() - i,
    {
        let b = blocks[i];
        out.push(b.id.to_u8());
        out.push(b.damage);
        i = i + 1;
    }
    proof {
        assert(out@ =~= pair_bytes_of(blocks@));
    }
    out
}

/// Parses sequential `(id, damage)` byte pairs back into blocks.
/// Returns `None` exactly when the bytes are not a well-formed pair
/// serialization, so one corrupt persisted chunk fails its own load
/// instead of aborting the process.
pub fn decode_block_pairs(bytes: &Vec<u8>) -> (r: Option<Vec<Block>>)
    ensures
        r is Some <==> valid_pair_bytes(bytes@),
        r is Some ==> r->Some_0@ == blocks_of_pairs(bytes@),
{
    let n = bytes.len();
    if n % 2 != 0 {
        return None;
    }
    let mut out: Vec<Block> = Vec::new();
    let mut i: usize = 0;
    while i < n / 2
        invariant
            bytes@.len() == n,
            n % 2 == 0,
            i <= n / 2,
            out@.len() == i,
            forall|j: int| 0 <= j < i ==> #[trigger] block_id_of_code(bytes@[2 * j]) is Some,
            forall|j: int| 0 <= j < i ==> out@[j] == blocks_of_pairs(bytes@)[j],
        decreases n / 2 - i,
    {
        let code = bytes[2 * i];
        match BlockID::from_u8(code) {
            Some(id) => {
                out.push(Block { id, damage: bytes[2 * i + 1] });
            },
            None => {
                return None;
            },
        }
        i = i + 1;
    }
    proof {
        assert(out@ =~= blocks_of_pairs(bytes@));
    }
    Some(out)
}

/// What gzip compression (as this crate configures it: fastest level,
/// reproducible header) produces from a byte sequence.
pub uninterp spec fn gzip_of(data: Seq<u8>) -> Seq<u8>;

/// Relies on `flate2::write::GzEncoder` at `Compression::fast()`: the
/// encoder writes a fixed header (zero mtime, fixed OS byte chosen by
/// the crate for reproducible streams), so its output is a function of
/// the input bytes alone. Writing into an in-memory `Vec` cannot fail,
/// so `finish` always returns `Ok`.
#[verifier::external_body]
fn gzip_compress(data: &Vec<u8>) -> (r: Vec<u8>)
    ensures
        r@ == gzip_of(data@),
{
    let mut e = flate2::write::GzEncoder::new(Vec::new(), flate2::Compression::fast());
    let _ = std::io::Write::write_all(&mut e, data.as_slice());
    e.finish().unwrap()
}

/// Relies on `flate2::read::GzDecoder`: gzip is lossless, so decoding
/// a stream the encoder produced yields exactly the bytes that were
/// compressed; a malformed stream makes the read fail.
#[verifier::external_body]
fn gzip_decompress(data: &Vec<u8>) -> (r: Option<Vec<u8>>)
    ensures
        forall|orig: Seq<u8>| data@ == gzip_of(orig) ==> r is Some && r->Some_0@ == orig,
{
    let mut d = flate2::read::GzDecoder::new(data.as_slice());
    let mut out: Vec<u8> = Vec::new();
    match std::io::Read::read_to_end(&mut d, &mut out) {
        Ok(_) => Some(out),
        Err(_) => None,
    }
}

/// The compressed persistent form of a block sequence.
pub open spec fn chunk_bytes_of(blocks: Seq<Block>) -> Seq<u8> {
    gzip_of(pair_bytes_of(blocks))
}

/// Encodes a chunk's blocks for persistence: byte pairs, then gzip.
pub fn encode_chunk_bytes(blocks: &Vec<Block>) -> (r: Vec<u8>)
    requires
        blocks@.len() * 2 <= usize::MAX,
    ensures
        r@ == chunk_bytes_of(blocks@),
{
    let pairs = encode_block_pairs(blocks);
    gzip_compress(&pairs)
}

/// Decodes a persisted chunk: gzip, then byte pairs. For every block
/// sequence, decoding what `encode_chunk_bytes` produced gives back
/// exactly that sequence; bytes that are not such an encoding with a
/// known kind in every slot yield `None` or some other valid decoding,
/// never a fabricated success.
pub fn decode_chunk_bytes(bytes: &Vec<u8>) -> (r: Option<Vec<Block>>)
    ensures
        forall|blocks: Seq<Block>| bytes@ == chunk_bytes_of(blocks) ==> r is Some && r->Some_0@ == blocks,
        r is Some ==> valid_pair_bytes(pair_bytes_of(r->Some_0@)),
{
    match gzip_decompress(bytes) {
        Some(pairs) => {
            let decoded = decode_block_pairs(&pairs);
            proof {
                assert forall|blocks: Seq<Block>| bytes@ == chunk_bytes_of(blocks)
                    implies decoded is Some && decoded->Some_0@ == blocks by {
                    assert(bytes@ == gzip_of(pair_bytes_of(blocks)));
                    assert(pairs@ == pair_bytes_of(blocks));
                    lemma_pair_codec_roundtrip(blocks);
                }
                if decoded is Some {
                    lemma_pair_codec_roundtrip(decoded->Some_0@);
                }
            }
            decoded
        },
        None => {
            proof {
                assert forall|blocks: Seq<Block>| bytes@ != chunk_bytes_of(blocks) by {
                    assert(bytes@ != gzip_of(pair_bytes_of(blocks)));
                }
            }
            None
        },
    }
}

} // verus!
