use voxel_sandbox::world::{setup_world, BlockManager, BlockTarget, BlockType, IVec3};

#[test]
fn new_world_is_empty() {
    let bm = BlockManager::default();
    assert_eq!(bm.get_block(IVec3::new(0, 0, 0)), None);
    assert_eq!(bm.get_target(), None);
}

#[test]
fn spawned_block_is_recorded() {
    let mut bm = BlockManager::default();
    bm.spawn_block(IVec3::new(1, 2, 3), 77);
    assert_eq!(bm.get_block(IVec3::new(1, 2, 3)), Some(77));
    assert_eq!(bm.get_block(IVec3::new(3, 2, 1)), None);
}

#[test]
fn spawning_twice_overwrites_the_record() {
    let mut bm = BlockManager::default();
    bm.spawn_block(IVec3::new(4, 5, 6), 1);
    bm.spawn_block(IVec3::new(4, 5, 6), 2);
    assert_eq!(bm.get_block(IVec3::new(4, 5, 6)), Some(2));
    assert_eq!(bm.remove_block(IVec3::new(4, 5, 6)), Some(2));
    assert_eq!(bm.get_block(IVec3::new(4, 5, 6)), None);
}

#[test]
fn removing_returns_the_entity_to_despawn() {
    let mut bm = BlockManager::default();
    bm.spawn_block(IVec3::new(-1, 0, 1), 42);
    bm.spawn_block(IVec3::new(7, 7, 7), 43);
    assert_eq!(bm.remove_block(IVec3::new(-1, 0, 1)), Some(42));
    assert_eq!(bm.get_block(IVec3::new(-1, 0, 1)), None);
    assert_eq!(bm.get_block(IVec3::new(7, 7, 7)), Some(43));
}

#[test]
fn removing_an_empty_cell_reports_failure() {
    let mut bm = BlockManager::default();
    assert_eq!(bm.remove_block(IVec3::new(0, 0, 0)), None);
}

#[test]
fn set_block_places_and_clears() {
    let mut bm = BlockManager::default();
    assert_eq!(bm.set_block(IVec3::new(2, 2, 2), BlockType::Block, 9), None);
    assert_eq!(bm.get_block(IVec3::new(2, 2, 2)), Some(9));
    assert_eq!(bm.set_block(IVec3::new(2, 2, 2), BlockType::Air, 0), Some(9));
    assert_eq!(bm.get_block(IVec3::new(2, 2, 2)), None);
    assert_eq!(bm.set_block(IVec3::new(2, 2, 2), BlockType::Air, 0), None);
}

#[test]
fn set_target_is_observable() {
    let mut bm = BlockManager::default();
    bm.set_target(IVec3::new(1, 2, 3), IVec3::new(0, 0, 1));
    assert_eq!(
        bm.get_target(),
        Some(BlockTarget { position: IVec3::new(1, 2, 3), normal: IVec3::new(0, 0, 1) })
    );
}

#[test]
fn setup_world_lists_the_starting_slab() {
    let mut bm = BlockManager::default();
    bm.set_target(IVec3::new(9, 9, 9), IVec3::new(1, 0, 0));
    let positions = setup_world(&mut bm);
    assert_eq!(bm.get_target(), None);
    assert_eq!(positions.len(), 2647);
    // Layers run innermost: first the column at x = -10, z = -10, y = -5..=0.
    assert_eq!(positions[0], IVec3::new(-10, -5, -10));
    assert_eq!(positions[5], IVec3::new(-10, 0, -10));
    assert_eq!(positions[6], IVec3::new(-10, -5, -9));
    assert_eq!(positions[126], IVec3::new(-9, -5, -10));
    assert_eq!(positions[2645], IVec3::new(10, 0, 10));
    // The lone floating block comes last.
    assert_eq!(positions[2646], IVec3::new(1, 2, 3));
}

#[test]
fn setup_world_covers_the_ground_exactly_once() {
    let mut bm = BlockManager::default();
    let positions = setup_world(&mut bm);
    let mut entity: u64 = 0;
    for p in &positions {
        // A fresh record for every listed position: no position repeats.
        assert_eq!(bm.get_block(*p), None);
        assert_eq!(bm.set_block(*p, BlockType::Block, entity), None);
        entity += 1;
    }
    assert_eq!(bm.get_block(IVec3::new(-10, -5, -10)), Some(0));
    assert_eq!(bm.get_block(IVec3::new(10, 0, 10)), Some(2645));
    assert_eq!(bm.get_block(IVec3::new(1, 2, 3)), Some(2646));
    assert_eq!(bm.get_block(IVec3::new(0, 0, 0)).is_some(), true);
    assert_eq!(bm.get_block(IVec3::new(0, 1, 0)), None);
    assert_eq!(bm.get_block(IVec3::new(11, 0, 0)), None);
    assert_eq!(bm.get_block(IVec3::new(0, -6, 0)), None);
}

#[test]
fn ivec3_componentwise_sum() {
    let a = IVec3::new(1, -2, 3);
    let b = IVec3::new(10, 20, -30);
    assert_eq!(a.plus(b), IVec3::new(11, 18, -27));
    assert_eq!(IVec3::zero(), IVec3::new(0, 0, 0));
}
