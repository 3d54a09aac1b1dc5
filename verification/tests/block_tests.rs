use voxelstream::block::{Block, BlockID, ItemID, Solidity};
use voxelstream::coords::IVec3;
use voxelstream::directions::{adj_6, Dir6};
use voxelstream::world::StreamerConfig;

#[test]
fn new_blocks_carry_no_damage() {
    let b = Block::new(BlockID::Stone);
    assert_eq!(b.id, BlockID::Stone);
    assert_eq!(b.damage, 0);
}

#[test]
fn attribute_table_matches_the_block_kinds() {
    assert_eq!(BlockID::Air.get_attributes().solidity, Solidity::NonSolid);
    assert_eq!(BlockID::Air.get_attributes().health, 0);
    assert_eq!(BlockID::Dirt.get_attributes().health, 3);
    assert_eq!(BlockID::Grass.get_attributes().breaks_into, BlockID::Dirt);
    assert_eq!(BlockID::Stone.get_attributes().give_on_damage.unwrap().id, ItemID::Stone);
    assert_eq!(BlockID::Stone.get_attributes().give_on_damage.unwrap().amount, 16);
    assert_eq!(BlockID::StoneBrick.get_attributes().cost_to_build.0.unwrap().amount, 16);
    assert_eq!(BlockID::Log.get_attributes().give_on_damage.unwrap().id, ItemID::Wood);
    assert_eq!(BlockID::Leaves.get_attributes().solidity, Solidity::NonSolid);
    assert_eq!(BlockID::Water.get_attributes().solidity, Solidity::Water);
}

#[test]
fn dir6_offsets_are_unit_vectors() {
    assert_eq!(Dir6::Up.offset(), IVec3::new(0, 1, 0));
    assert_eq!(Dir6::Down.offset(), IVec3::new(0, -1, 0));
    assert_eq!(Dir6::North.offset(), IVec3::new(0, 0, 1));
    assert_eq!(Dir6::South.offset(), IVec3::new(0, 0, -1));
    assert_eq!(Dir6::East.offset(), IVec3::new(1, 0, 0));
    assert_eq!(Dir6::West.offset(), IVec3::new(-1, 0, 0));
}

#[test]
fn dir6_from_point_reads_axis_aligned_signs() {
    assert_eq!(Dir6::from_point(IVec3::new(0, 7, 0)), Some(Dir6::Up));
    assert_eq!(Dir6::from_point(IVec3::new(-3, 0, 0)), Some(Dir6::West));
    assert_eq!(Dir6::from_point(IVec3::new(0, 0, -1)), Some(Dir6::South));
    assert_eq!(Dir6::from_point(IVec3::new(1, 1, 0)), None);
    assert_eq!(Dir6::from_point(IVec3::new(0, 0, 0)), None);
}

#[test]
fn adj6_lists_the_six_face_neighbors_in_order() {
    let n = adj_6(IVec3::new(2, 3, 4));
    assert_eq!(n.len(), 6);
    assert_eq!(n[0], IVec3::new(2, 4, 4));
    assert_eq!(n[1], IVec3::new(2, 2, 4));
    assert_eq!(n[2], IVec3::new(2, 3, 5));
    assert_eq!(n[3], IVec3::new(2, 3, 3));
    assert_eq!(n[4], IVec3::new(3, 3, 4));
    assert_eq!(n[5], IVec3::new(1, 3, 4));
}

#[test]
fn standard_config_matches_the_world_tunables() {
    let c = StreamerConfig::standard();
    assert_eq!(c.world_size_x, 255);
    assert_eq!(c.world_size_z, 255);
    assert_eq!(c.world_height, 4);
    assert_eq!(c.world_depth, 12);
    assert_eq!(c.unload_batch, 4);
    assert_eq!(c.water_debounce_ms, 200);
    assert_eq!(c.loader_buffer, 1);
}
