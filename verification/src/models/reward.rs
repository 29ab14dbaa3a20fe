//! The reward for a single action.

use vstd::prelude::*;

verus! {

/// What a reward was given for, with the number that was recorded for it.
#[derive(Clone, Copy, Debug, PartialEq, Eq)]
pub enum RewardAction {
    ProfileComplete(u32),
    GroupJoin(u32),
}

/// The reward for one action: what it was given for, the points, and when
/// it was made and last changed.
#[derive(Clone, Debug)]
pub struct Rewards {
    pub action: RewardAction,
    pub points: u32,
    pub updated_on: u64,
    pub created_on: u64,
}

} // verus!
