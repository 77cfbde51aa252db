//! Discrete decisions of the kinematic character controller.
//!
//! The engine integrates velocities and moves the collider; what the library
//! owns is the discrete part: reducing the held movement keys to signed axes,
//! and deciding what happens to the vertical velocity when the controller is
//! grounded, falling, or asked to jump.

use vstd::prelude::*;

use crate::world::{BlockManager, BlockTarget, BlockType, IVec3};

verus! {

/// Marker for the player entity.
#[derive(Clone, Copy, Debug)]
pub struct Player;

/// Marker for the first-person camera entity that rides on the player.
#[derive(Clone, Copy, Debug)]
pub struct PlayerCamera;

/// One frame of directional key input, reduced to the two signed axes the
/// controller walks along. Each axis is -1, 0 or 1.
#[derive(Clone, Copy, Debug, PartialEq, Eq, Structural)]
pub struct MovementInput {
    pub forward: i32,
    pub right: i32,
}

/// Reduce the four held movement keys to the two signed axes: each axis is
/// the key in its positive direction minus the key in its negative direction,
/// so opposite keys cancel.
pub fn movement_input(
    forward_key: bool,
    backward_key: bool,
    right_key: bool,
    left_key: bool,
) -> (input: MovementInput)
    ensures
        input.forward == (if forward_key { 1int } else { 0int }) - (if backward_key {
            1int
        } else {
            0int
        }),
        input.right == (if right_key { 1int } else { 0int }) - (if left_key { 1int } else { 0int }),
{
    let forward: i32 = (if forward_key { 1 } else { 0 }) - (if backward_key { 1 } else { 0 });
    let right: i32 = (if right_key { 1 } else { 0 }) - (if left_key { 1 } else { 0 });
    MovementInput { forward, right }
}

/// What happens to the vertical velocity this frame, before gravity is
/// integrated.
#[derive(Clone, Copy, Debug, PartialEq, Eq, Structural)]
pub enum VerticalAction {
    /// Start a jump: the velocity becomes the jump speed.
    Jump,
    /// A grounded, falling controller settles: the velocity becomes zero.
    Settle,
    /// The velocity is left as it is.
    Coast,
}

/// Decide the vertical velocity update: a grounded controller that is asked
/// to jump jumps (even if it was falling), a grounded controller that is
/// falling settles to zero, and otherwise the velocity is kept. An airborne
/// controller never jumps or settles.
pub fn vertical_action(grounded: bool, falling: bool, jump_requested: bool) -> (action:
    VerticalAction)
    ensures
        action == (if grounded && jump_requested {
            VerticalAction::Jump
        } else if grounded && falling {
            VerticalAction::Settle
        } else {
            VerticalAction::Coast
        }),
{
    if grounded && jump_requested {
        VerticalAction::Jump
    } else if grounded && falling {
        VerticalAction::Settle
    } else {
        VerticalAction::Coast
    }
}

/// What the engine must do after one frame of aiming and clicking.
#[derive(Clone, Copy, Debug, PartialEq, Eq, Structural)]
pub struct InteractionOutcome {
    /// A block was placed here: the entity handed to
    /// [`handle_player_interaction`] is now recorded at this position, and
    /// the engine must give it a body there.
    pub place_at: Option<IVec3>,
    /// This entity's block was removed from the record; the engine must
    /// despawn it.
    pub removed: Option<u64>,
    /// A removal was asked for on an empty cell and could not be honoured.
    pub removal_failed: bool,
}

/// The position a placed block goes to: the neighbour of the hit block
/// across the face that was hit.
pub open spec fn placement_position(t: BlockTarget) -> IVec3 {
    IVec3 {
        x: (t.position.x + t.normal.x) as i32,
        y: (t.position.y + t.normal.y) as i32,
        z: (t.position.z + t.normal.z) as i32,
    }
}

/// One frame of aiming and clicking against the world.
///
/// `hit` is what the engine's forward raycast found: the block that was hit
/// and the face normal, or nothing. The aim is retargeted at the hit (or at
/// the origin when there is none); a left click places a block on the
/// neighbouring cell across the hit face, recording `placed_entity` there; a
/// right click removes the block that was hit. `placed_entity` is the entity
/// the caller has reserved for a possible placement; it is recorded only
/// when a placement happens.
pub fn handle_player_interaction(
    block_manager: &mut BlockManager,
    hit: Option<BlockTarget>,
    left_just_pressed: bool,
    right_just_pressed: bool,
    placed_entity: u64,
) -> (outcome: InteractionOutcome)
    requires
        left_just_pressed ==> (hit matches Some(t) ==> i32::MIN <= t.position.x + t.normal.x
            <= i32::MAX && i32::MIN <= t.position.y + t.normal.y <= i32::MAX && i32::MIN
            <= t.position.z + t.normal.z <= i32::MAX),
    ensures
        final(block_manager).target() == (match hit {
            Some(t) => Some(t),
            None => Some(
                BlockTarget {
                    position: IVec3 { x: 0, y: 0, z: 0 },
                    normal: IVec3 { x: 0, y: 0, z: 0 },
                },
            ),
        }),
        hit matches Some(t) ==> ({
            let after_place = if left_just_pressed {
                old(block_manager)@.insert(placement_position(t), placed_entity)
            } else {
                old(block_manager)@
            };
            &&& final(block_manager)@ == (if right_just_pressed {
                after_place.remove(t.position)
            } else {
                after_place
            })
            &&& outcome.place_at == (if left_just_pressed {
                Some(placement_position(t))
            } else {
                None::<IVec3>
            })
            &&& outcome.removed == (if right_just_pressed && after_place.dom().contains(t.position) {
                Some(after_place[t.position])
            } else {
                None::<u64>
            })
            &&& outcome.removal_failed == (right_just_pressed && !after_place.dom().contains(
                t.position,
            ))
        }),
        hit is None ==> final(block_manager)@ == old(block_manager)@ && outcome == (
        InteractionOutcome { place_at: None, removed: None, removal_failed: false }),
{
    match hit {
        Some(t) => {
            block_manager.set_target(t.position, t.normal);

            let place_at = if left_just_pressed {
                let p = t.position.plus(t.normal);
                block_manager.set_block(p, BlockType::Block, placed_entity);
                Some(p)
            } else {
                None
            };

            let mut removed: Option<u64> = None;
            let mut removal_failed = false;
            if right_just_pressed {
                removed = block_manager.set_block(t.position, BlockType::Air, 0);
                removal_failed = removed.is_none();
            }

            InteractionOutcome { place_at, removed, removal_failed }
        },
        None => {
            block_manager.set_target(IVec3::zero(), IVec3::zero());
            InteractionOutcome { place_at: None, removed: None, removal_failed: false }
        },
    }
}

} // verus!
