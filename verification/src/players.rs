//! The walk from a component up to the actor that owns it.

use vstd::prelude::*;

verus! {

/// One step of the walk along parent pointers.
#[derive(Clone, Copy, Debug, PartialEq, Eq, Structural)]
pub enum ParentStep {
    /// The walk goes on from this actor: read its parent next.
    Follow(u64),
    /// The walk ends at this actor.
    Owner(u64),
}

/// What follows from reading the parent of `actor`: the walk ends where
/// there is no parent, or where the actor is its own parent.
pub open spec fn parent_step(actor: u64, parent: u64) -> ParentStep {
    if parent == 0 || parent == actor {
        ParentStep::Owner(actor)
    } else {
        ParentStep::Follow(parent)
    }
}

/// Decides one step of the walk: `parent` is the pointer that was read at
/// `actor`.
pub fn follow_parent(actor: u64, parent: u64) -> (step: ParentStep)
    ensures
        step == parent_step(actor, parent),
{
    if parent == 0 || parent == actor {
        ParentStep::Owner(actor)
    } else {
        ParentStep::Follow(parent)
    }
}

/// Whether an entity is another player than the viewer: the viewer's own
/// pawn gets no box.
pub fn is_other_player(actor: u64, own_pawn: u64) -> (other: bool)
    ensures
        other == (actor != own_pawn),
{
    actor != own_pawn
}

/// Whether a damage zone is marked: only one with a positive damage level.
pub fn is_damaged(damage_level: i32) -> (damaged: bool)
    ensures
        damaged == (damage_level > 0),
{
    damage_level > 0
}

/// The ladder hook of the viewer loop. It has no effect.
pub fn instant_ladder() {
}

} // verus!
