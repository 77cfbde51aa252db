//! The block grid.
//!
//! Blocks live on an integer lattice. The world keeps a one-to-one record
//! from occupied lattice positions to the engine entities standing there,
//! together with the surface the player is currently aiming at. The engine
//! owns the entities themselves; the library owns the record and every
//! decision about it. The record is specified as a mathematical map from
//! positions to entity identifiers.

use vstd::prelude::*;
use vstd::arithmetic::div_mod::{lemma_fundamental_div_mod, lemma_fundamental_div_mod_converse};

verus! {

/// A point (or direction) on the integer lattice.
#[derive(Clone, Copy, Debug, PartialEq, Eq, Structural)]
pub struct IVec3 {
    pub x: i32,
    pub y: i32,
    pub z: i32,
}

impl IVec3 {
    pub fn new(x: i32, y: i32, z: i32) -> (v: IVec3)
        ensures
            v == (IVec3 { x, y, z }),
    {
        IVec3 { x, y, z }
    }

    /// The origin.
    pub fn zero() -> (v: IVec3)
        ensures
            v == (IVec3 { x: 0, y: 0, z: 0 }),
    {
        IVec3 { x: 0, y: 0, z: 0 }
    }

    /// Componentwise sum, used to step from a block to its neighbour across
    /// a face.
    pub fn plus(self, other: IVec3) -> (v: IVec3)
        requires
            i32::MIN <= self.x + other.x <= i32::MAX,
            i32::MIN <= self.y + other.y <= i32::MAX,
            i32::MIN <= self.z + other.z <= i32::MAX,
        ensures
            v.x == self.x + other.x,
            v.y == self.y + other.y,
            v.z == self.z + other.z,
    {
        IVec3 { x: self.x + other.x, y: self.y + other.y, z: self.z + other.z }
    }
}

/// Marker for a block entity.
#[derive(Clone, Copy, Debug)]
pub struct Block;

/// What a lattice cell is asked to become.
pub enum BlockType {
    /// No block: whatever stands there is removed.
    Air,
    /// A solid block.
    Block,
}

/// The surface the player is aiming at: the position of the block that was
/// hit and the outward normal of the face it was hit on.
#[derive(Clone, Copy, Debug, PartialEq, Eq, Structural)]
pub struct BlockTarget {
    pub position: IVec3,
    pub normal: IVec3,
}

/// No two entries of the record name the same lattice position.
spec fn distinct_positions(s: Seq<(IVec3, u64)>) -> bool {
    forall|i: int, j: int|
        0 <= i < j < s.len() ==> (#[trigger] s[i]).0 != (#[trigger] s[j]).0
}

/// The map that a sequence of (position, entity) entries stands for. A later
/// entry wins, though under `distinct_positions` there is never a contest.
spec fn map_of(s: Seq<(IVec3, u64)>) -> Map<IVec3, u64>
    decreases s.len(),
{
    if s.len() == 0 {
        Map::empty()
    } else {
        map_of(s.drop_last()).insert(s.last().0, s.last().1)
    }
}

proof fn lemma_distinct_drop_last(s: Seq<(IVec3, u64)>)
    requires
        distinct_positions(s),
        s.len() > 0,
    ensures
        distinct_positions(s.drop_last()),
{
    let dl = s.drop_last();
    assert forall|a: int, b: int| 0 <= a < b < dl.len() implies (#[trigger] dl[a]).0 != (
    #[trigger] dl[b]).0 by {
        assert(dl[a] == s[a]);
        assert(dl[b] == s[b]);
    }
}

/// A position is in the map exactly when some entry names it.
proof fn lemma_map_of_dom(s: Seq<(IVec3, u64)>, p: IVec3)
    ensures
        map_of(s).dom().contains(p) <==> exists|i: int|
            0 <= i < s.len() && (#[trigger] s[i]).0 == p,
    decreases s.len(),
{
    if s.len() == 0 {
    } else {
        let dl = s.drop_last();
        lemma_map_of_dom(dl, p);
        if s.last().0 == p {
            assert((s[s.len() - 1]).0 == p);
        } else {
            if map_of(s).dom().contains(p) {
                let i = choose|i: int| 0 <= i < dl.len() && (#[trigger] dl[i]).0 == p;
                assert((s[i]).0 == p);
            }
            if exists|i: int| 0 <= i < s.len() && (#[trigger] s[i]).0 == p {
                let i = choose|i: int| 0 <= i < s.len() && (#[trigger] s[i]).0 == p;
                assert(dl[i] == s[i]);
            }
        }
    }
}

/// Under distinctness, the entry at index `i` gives the map's value at its
/// position.
proof fn lemma_map_of_index(s: Seq<(IVec3, u64)>, i: int)
    requires
        distinct_positions(s),
        0 <= i < s.len(),
    ensures
        map_of(s).dom().contains((s[i]).0),
        map_of(s)[(s[i]).0] == (s[i]).1,
    decreases s.len(),
{
    let dl = s.drop_last();
    if i == s.len() - 1 {
        assert(s.last() == s[i]);
    } else {
        lemma_distinct_drop_last(s);
        assert(dl[i] == s[i]);
        lemma_map_of_index(dl, i);
        assert((s[i]).0 != (s[s.len() - 1]).0);
    }
}

/// Appending a fresh entry inserts its binding.
proof fn lemma_map_of_push(s: Seq<(IVec3, u64)>, p: IVec3, e: u64)
    ensures
        map_of(s.push((p, e))) == map_of(s).insert(p, e),
{
    let t = s.push((p, e));
    assert(t.drop_last() =~= s);
    assert(t.last() == (p, e));
}

/// Overwriting the entry at index `i` with a new entity for the same
/// position re-inserts that position's binding.
proof fn lemma_map_of_update(s: Seq<(IVec3, u64)>, i: int, e: u64)
    requires
        distinct_positions(s),
        0 <= i < s.len(),
    ensures
        map_of(s.update(i, ((s[i]).0, e))) == map_of(s).insert((s[i]).0, e),
    decreases s.len(),
{
    let p = (s[i]).0;
    let t = s.update(i, (p, e));
    let dl = s.drop_last();
    if i == s.len() - 1 {
        assert(t.drop_last() =~= dl);
        assert(t.last() == (p, e));
        assert(map_of(dl).insert(p, e) =~= map_of(dl).insert(p, (s[i]).1).insert(p, e));
    } else {
        lemma_distinct_drop_last(s);
        assert(dl[i] == s[i]);
        lemma_map_of_update(dl, i, e);
        assert(t.drop_last() =~= dl.update(i, (p, e)));
        assert(t.last() == s.last());
        assert(p != (s[s.len() - 1]).0);
        assert(map_of(dl).insert(p, e).insert(s.last().0, s.last().1) =~= map_of(dl).insert(
            s.last().0,
            s.last().1,
        ).insert(p, e));
    }
}

/// Removing the entry at index `i` removes its position's binding.
proof fn lemma_map_of_remove(s: Seq<(IVec3, u64)>, i: int)
    requires
        distinct_positions(s),
        0 <= i < s.len(),
    ensures
        map_of(s.remove(i)) == map_of(s).remove((s[i]).0),
    decreases s.len(),
{
    let p = (s[i]).0;
    let dl = s.drop_last();
    if i == s.len() - 1 {
        assert(s.remove(i) =~= dl);
        lemma_map_of_dom(dl, p);
        assert forall|k: int| 0 <= k < dl.len() implies (#[trigger] dl[k]).0 != p by {
            assert(dl[k] == s[k]);
        }
        assert(map_of(dl) =~= map_of(dl).insert(p, (s[i]).1).remove(p));
    } else {
        lemma_distinct_drop_last(s);
        assert(dl[i] == s[i]);
        lemma_map_of_remove(dl, i);
        let r = s.remove(i);
        s.remove_ensures(i);
        dl.remove_ensures(i);
        assert(r.drop_last() =~= dl.remove(i));
        assert(r.last() == s.last());
        assert(p != (s[s.len() - 1]).0);
        assert(map_of(dl).remove(p).insert(s.last().0, s.last().1) =~= map_of(dl).insert(
            s.last().0,
            s.last().1,
        ).remove(p));
    }
}

/// The record of the world: which lattice positions hold a block, and by
/// which engine entity, plus the surface currently aimed at. Seen through
/// its view `@`, it is a map from positions to entity identifiers.
#[derive(Debug)]
pub struct BlockManager {
    blocks: Vec<(IVec3, u64)>,
    target: Option<BlockTarget>,
}

impl View for BlockManager {
    type V = Map<IVec3, u64>;

    closed spec fn view(&self) -> Map<IVec3, u64> {
        map_of(self.blocks@)
    }
}

impl Default for BlockManager {
    /// An empty world: no blocks, nothing aimed at.
    fn default() -> (r: Self)
        ensures
            r@ == Map::<IVec3, u64>::empty(),
            r.target() is None,
    {
        BlockManager { blocks: Vec::new(), target: None }
    }
}

impl BlockManager {
    #[verifier::type_invariant]
    spec fn wf(self) -> bool {
        distinct_positions(self.blocks@)
    }

    /// The surface currently aimed at.
    pub closed spec fn target(&self) -> Option<BlockTarget> {
        self.target
    }

    /// The index of the entry recording `position`, if there is one.
    fn find_index(&self, position: IVec3) -> (r: Option<usize>)
        ensures
            match r {
                Some(i) => i < self.blocks@.len() && (self.blocks@[i as int]).0 == position,
                None => forall|k: int|
                    0 <= k < self.blocks@.len() ==> (#[trigger] self.blocks@[k]).0 != position,
            },
    {
        let mut i: usize = 0;
        while i < self.blocks.len()
            invariant
                i <= self.blocks@.len(),
                forall|k: int| 0 <= k < i ==> (#[trigger] self.blocks@[k]).0 != position,
            decreases self.blocks@.len() - i,
        {
            if self.blocks[i].0 == position {
                return Some(i);
            }
            i = i + 1;
        }
        None
    }

    /// The surface currently aimed at, for the engine to highlight.
    pub fn get_target(&self) -> (r: Option<BlockTarget>)
        ensures
            r == self.target(),
    {
        self.target
    }

    /// The entity recorded at `position`, if the cell holds a block.
    pub fn get_block(&self, position: IVec3) -> (r: Option<u64>)
        ensures
            r == (if self@.dom().contains(position) {
                Some(self@[position])
            } else {
                None::<u64>
            }),
    {
        proof {
            use_type_invariant(&*self);
        }
        match self.find_index(position) {
            Some(i) => {
                proof {
                    lemma_map_of_index(self.blocks@, i as int);
                }
                Some(self.blocks[i].1)
            },
            None => {
                proof {
                    lemma_map_of_dom(self.blocks@, position);
                }
                None
            },
        }
    }

    /// Aim at the surface of the block at `position` whose face has the
    /// given outward `normal`.
    pub fn set_target(&mut self, position: IVec3, normal: IVec3)
        ensures
            final(self)@ == old(self)@,
            final(self).target() == Some(BlockTarget { position, normal }),
    {
        proof {
            use_type_invariant(&*self);
        }
        self.target = Some(BlockTarget { position, normal });
    }

    /// Ask the cell at `position` to become `block_type`.
    ///
    /// For a solid block the caller hands in the entity it has just spawned
    /// there, and the cell's record is overwritten with it. For air the cell's
    /// record is removed, `entity` is ignored, and the entity that stood
    /// there — which the caller must now despawn — is returned; `None` means
    /// the cell was already empty and there is nothing to despawn.
    pub fn set_block(&mut self, position: IVec3, block_type: BlockType, entity: u64) -> (removed:
        Option<u64>)
        ensures
            final(self).target() == old(self).target(),
            match block_type {
                BlockType::Block => final(self)@ == old(self)@.insert(position, entity) && removed
                    is None,
                BlockType::Air => final(self)@ == old(self)@.remove(position) && removed == (
                if old(self)@.dom().contains(position) {
                    Some(old(self)@[position])
                } else {
                    None::<u64>
                }),
            },
    {
        match block_type {
            BlockType::Air => self.remove_block(position),
            BlockType::Block => {
                self.spawn_block(position, entity);
                None
            },
        }
    }

    /// Record the freshly spawned `entity` as the block at `position`. A
    /// record already standing there is overwritten.
    pub fn spawn_block(&mut self, position: IVec3, entity: u64)
        ensures
            final(self)@ == old(self)@.insert(position, entity),
            final(self).target() == old(self).target(),
    {
        proof {
            use_type_invariant(&*self);
        }
        let idx = self.find_index(position);
        let ghost s0 = self.blocks@;
        let mut blocks: Vec<(IVec3, u64)> = Vec::new();
        core::mem::swap(&mut self.blocks, &mut blocks);
        match idx {
            Some(i) => {
                proof {
                    lemma_map_of_update(s0, i as int, entity);
                    let t = s0.update(i as int, (position, entity));
                    assert forall|a: int, b: int| 0 <= a < b < t.len() implies (#[trigger] t[a]).0
                        != (#[trigger] t[b]).0 by {
                        assert((t[a]).0 == (s0[a]).0);
                        assert((t[b]).0 == (s0[b]).0);
                    }
                }
                blocks.set(i, (position, entity));
            },
            None => {
                proof {
                    lemma_map_of_push(s0, position, entity);
                    let t = s0.push((position, entity));
                    assert forall|a: int, b: int| 0 <= a < b < t.len() implies (#[trigger] t[a]).0
                        != (#[trigger] t[b]).0 by {
                        assert(t[a] == s0[a]);
                        if b < s0.len() {
                            assert(t[b] == s0[b]);
                        }
                    }
                }
                blocks.push((position, entity));
            },
        }
        core::mem::swap(&mut self.blocks, &mut blocks);
    }

    /// Remove the record of the block at `position` and return the entity
    /// that stood there, for the caller to despawn. `None` means the cell
    /// held no block — the request could not be honoured.
    pub fn remove_block(&mut self, position: IVec3) -> (removed: Option<u64>)
        ensures
            final(self)@ == old(self)@.remove(position),
            final(self).target() == old(self).target(),
            removed == (if old(self)@.dom().contains(position) {
                Some(old(self)@[position])
            } else {
                None::<u64>
            }),
    {
        proof {
            use_type_invariant(&*self);
        }
        let ghost s0 = self.blocks@;
        match self.find_index(position) {
            Some(i) => {
                proof {
                    lemma_map_of_index(s0, i as int);
                    lemma_map_of_remove(s0, i as int);
                    s0.remove_ensures(i as int);
                    let r = s0.remove(i as int);
                    assert forall|a: int, b: int| 0 <= a < b < r.len() implies (#[trigger] r[a]).0
                        != (#[trigger] r[b]).0 by {
                        if a < i as int {
                            assert(r[a] == s0[a]);
                        } else {
                            assert(r[a] == s0[a + 1]);
                        }
                        if b < i as int {
                            assert(r[b] == s0[b]);
                        } else {
                            assert(r[b] == s0[b + 1]);
                        }
                    }
                }
                let mut blocks: Vec<(IVec3, u64)> = Vec::new();
                core::mem::swap(&mut self.blocks, &mut blocks);
                let pair = blocks.remove(i);
                core::mem::swap(&mut self.blocks, &mut blocks);
                Some(pair.1)
            },
            None => {
                proof {
                    lemma_map_of_dom(s0, position);
                    assert(map_of(s0).remove(position) =~= map_of(s0));
                }
                None
            },
        }
    }
}

/// The position the `k`-th block of the initial ground slab stands on, for
/// `k` counting through columns x = -10..=10, rows z = -10..=10 and layers
/// y = -5..=0, innermost first.
pub open spec fn ground_position(k: int) -> IVec3 {
    IVec3 {
        x: (k / 6 / 21 - 10) as i32,
        y: (k % 6 - 5) as i32,
        z: (k / 6 % 21 - 10) as i32,
    }
}

/// Whether `p` lies in the starting ground slab: a 21 x 21 square of
/// columns, each six blocks deep, ending at ground level.
pub open spec fn in_ground_slab(p: IVec3) -> bool {
    -10 <= p.x <= 10 && -5 <= p.y <= 0 && -10 <= p.z <= 10
}

/// The block index a slab position stands at in the starting layout.
spec fn ground_index(p: IVec3) -> int {
    ((p.x + 10) * 21 + (p.z + 10)) * 6 + (p.y + 5)
}

proof fn lemma_ground_index_roundtrip(p: IVec3)
    requires
        in_ground_slab(p),
    ensures
        0 <= ground_index(p) < 2646,
        ground_position(ground_index(p)) == p,
{
    let k = ground_index(p);
    lemma_fundamental_div_mod_converse((p.x + 10) * 21 + (p.z + 10), 21, p.x + 10, p.z + 10);
    lemma_fundamental_div_mod_converse(k, 6, (p.x + 10) * 21 + (p.z + 10), p.y + 5);
}

proof fn lemma_ground_position_roundtrip(k: int)
    requires
        0 <= k < 2646,
    ensures
        in_ground_slab(ground_position(k)),
        ground_index(ground_position(k)) == k,
{
    lemma_fundamental_div_mod(k, 6);
    lemma_fundamental_div_mod(k / 6, 21);
    // Bound the quotients by naming the constant divisions involved.
    lemma_fundamental_div_mod_converse(2645, 6, 440, 5);
    vstd::arithmetic::div_mod::lemma_div_is_ordered(k, 2645, 6);
    vstd::arithmetic::div_mod::lemma_div_pos_is_pos(k, 6);
    lemma_fundamental_div_mod_converse(440, 21, 20, 20);
    vstd::arithmetic::div_mod::lemma_div_is_ordered(k / 6, 440, 21);
    vstd::arithmetic::div_mod::lemma_div_pos_is_pos(k / 6, 21);
}

/// The starting layout is exact: every listed ground index names a slab
/// position, every slab position is listed, no index repeats, and the lone
/// floating block stands outside the slab.
pub proof fn lemma_ground_layout_exact()
    ensures
        forall|k: int| 0 <= k < 2646 ==> in_ground_slab(#[trigger] ground_position(k)),
        forall|p: IVec3| #[trigger] in_ground_slab(p) ==> exists|k: int|
            0 <= k < 2646 && #[trigger] ground_position(k) == p,
        forall|k1: int, k2: int| 0 <= k1 < k2 < 2646 ==> #[trigger] ground_position(k1) != (
        #[trigger] ground_position(k2)),
        !in_ground_slab(IVec3 { x: 1, y: 2, z: 3 }),
{
    assert forall|k: int| 0 <= k < 2646 implies in_ground_slab(#[trigger] ground_position(k)) by {
        lemma_ground_position_roundtrip(k);
    }
    assert forall|p: IVec3| #[trigger] in_ground_slab(p) implies exists|k: int|
        0 <= k < 2646 && #[trigger] ground_position(k) == p by {
        lemma_ground_index_roundtrip(p);
        assert(0 <= ground_index(p) < 2646 && ground_position(ground_index(p)) == p);
    }
    assert forall|k1: int, k2: int| 0 <= k1 < k2 < 2646 implies #[trigger] ground_position(k1) != (
    #[trigger] ground_position(k2)) by {
        lemma_ground_position_roundtrip(k1);
        lemma_ground_position_roundtrip(k2);
    }
}

/// Lay out the starting world: clear the aim, and list the positions the
/// engine must now fill with blocks — a 21 x 21 slab, six layers deep, with
/// one lone block floating above it. The caller spawns an entity at each
/// listed position and records it with [`BlockManager::set_block`].
pub fn setup_world(block_manager: &mut BlockManager) -> (positions: Vec<IVec3>)
    ensures
        final(block_manager)@ == old(block_manager)@,
        final(block_manager).target() is None,
        positions@.len() == 2647,
        forall|k: int| 0 <= k < 2646 ==> #[trigger] positions@[k] == ground_position(k),
        positions@[2646] == (IVec3 { x: 1, y: 2, z: 3 }),
{
    proof {
        use_type_invariant(&*block_manager);
    }
    block_manager.target = None;

    let mut positions: Vec<IVec3> = Vec::new();
    let mut x: i32 = -10;
    while x <= 10
        invariant
            -10 <= x <= 11,
            positions@.len() == (x + 10) * 126,
            forall|k: int| 0 <= k < positions@.len() ==> #[trigger] positions@[k]
                == ground_position(k),
        decreases 11 - x,
    {
        let mut z: i32 = -10;
        while z <= 10
            invariant
                -10 <= x <= 10,
                -10 <= z <= 11,
                positions@.len() == (x + 10) * 126 + (z + 10) * 6,
                forall|k: int| 0 <= k < positions@.len() ==> #[trigger] positions@[k]
                    == ground_position(k),
            decreases 11 - z,
        {
            let mut y: i32 = -5;
            while y <= 0
                invariant
                    -10 <= x <= 10,
                    -10 <= z <= 10,
                    -5 <= y <= 1,
                    positions@.len() == (x + 10) * 126 + (z + 10) * 6 + (y + 5),
                    forall|k: int| 0 <= k < positions@.len() ==> #[trigger] positions@[k]
                        == ground_position(k),
                decreases 1 - y,
            {
                let ghost pv = positions@;
                positions.push(IVec3 { x, y, z });
                proof {
                    let n = pv.len() as int;
                    lemma_fundamental_div_mod_converse(
                        (x + 10) * 21 + (z + 10),
                        21,
                        x + 10,
                        z + 10,
                    );
                    lemma_fundamental_div_mod_converse(
                        n,
                        6,
                        (x + 10) * 21 + (z + 10),
                        y + 5,
                    );
                    assert(ground_position(n) == (IVec3 { x, y, z }));
                    assert forall|k: int| 0 <= k < positions@.len() implies #[trigger] positions@[k]
                        == ground_position(k) by {
                        if k < n {
                            assert(positions@[k] == pv[k]);
                        } else {
                            assert(positions@[k] == (IVec3 { x, y, z }));
                        }
                    }
                }
                y = y + 1;
            }
            z = z + 1;
        }
        x = x + 1;
    }
    positions.push(IVec3::new(1, 2, 3));
    positions
}

} // verus!
