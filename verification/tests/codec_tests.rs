use voxelstream::block::{Block, BlockID};
use voxelstream::codec::{
    decode_block_pairs, decode_chunk_bytes, encode_block_pairs, encode_chunk_bytes,
};

fn all_ids() -> Vec<BlockID> {
    vec![
        BlockID::Air,
        BlockID::Dirt,
        BlockID::Grass,
        BlockID::Stone,
        BlockID::StoneBrick,
        BlockID::Log,
        BlockID::Leaves,
        BlockID::Water,
    ]
}

#[test]
fn pair_roundtrip_every_id_and_damage() {
    let mut blocks: Vec<Block> = Vec::new();
    for id in all_ids() {
        for damage in 0..=255u8 {
            blocks.push(Block { id, damage });
        }
    }
    let bytes = encode_block_pairs(&blocks);
    assert_eq!(bytes.len(), blocks.len() * 2);
    let back = decode_block_pairs(&bytes).expect("well-formed pairs must decode");
    assert_eq!(back, blocks);
}

#[test]
fn compressed_roundtrip_every_id_and_damage() {
    let mut blocks: Vec<Block> = Vec::new();
    for id in all_ids() {
        for damage in 0..=255u8 {
            blocks.push(Block { id, damage });
        }
    }
    let bytes = encode_chunk_bytes(&blocks);
    let back = decode_chunk_bytes(&bytes).expect("an encoded chunk must decode");
    assert_eq!(back, blocks);
}

#[test]
fn pair_codes_match_the_format() {
    let blocks = vec![Block { id: BlockID::Water, damage: 9 }];
    let bytes = encode_block_pairs(&blocks);
    assert_eq!(bytes, vec![7u8, 9u8]);
}

#[test]
fn unknown_id_byte_fails_decode() {
    let bytes = vec![8u8, 0u8];
    assert!(decode_block_pairs(&bytes).is_none());
}

#[test]
fn odd_length_fails_decode() {
    let bytes = vec![0u8, 0u8, 1u8];
    assert!(decode_block_pairs(&bytes).is_none());
}

#[test]
fn garbage_fails_chunk_decode() {
    let bytes = vec![1u8, 2, 3, 4, 5, 6, 7, 8];
    assert!(decode_chunk_bytes(&bytes).is_none());
}

#[test]
fn from_u8_rejects_unassigned_codes() {
    assert_eq!(BlockID::from_u8(7), Some(BlockID::Water));
    assert_eq!(BlockID::from_u8(8), None);
    assert_eq!(BlockID::from_u8(255), None);
}

#[test]
fn to_u8_from_u8_roundtrip() {
    for id in all_ids() {
        assert_eq!(BlockID::from_u8(id.to_u8()), Some(id));
    }
}
