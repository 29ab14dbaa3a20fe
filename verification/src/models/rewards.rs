//! The reward record of an account: points, and which one-time bonuses have
//! been paid.

use crate::host::block_timestamp;
use crate::models::patch::{copy_tags, has_no_duplicates};
use crate::views::lemma_push_new;
use vstd::prelude::*;

verus! {

/// Points paid once for a complete profile.
pub const PROFILE_COMPLETE_POINTS: u32 = 100;

/// Points paid once for each group that an account joins.
pub const GROUP_JOIN_POINTS: u32 = 10;

/// Which one-time bonuses an account has been paid.
#[derive(Debug)]
pub struct RewardActions {
    pub profile_complete: bool,
    pub group_join_action_history: Vec<u32>,
}

/// The reward record of one account.
#[derive(Debug)]
pub struct Rewards {
    pub actions: RewardActions,
    pub points: u32,
    pub updated_on: u64,
    pub created_on: u64,
}

/// `RewardActions` as plain mathematical values.
pub struct RewardActionsView {
    pub profile_complete: bool,
    pub group_join_action_history: Seq<u32>,
}

/// `Rewards` as plain mathematical values.
pub struct RewardsView {
    pub actions: RewardActionsView,
    pub points: u32,
    pub updated_on: u64,
    pub created_on: u64,
}

impl View for RewardActions {
    type V = RewardActionsView;

    open spec fn view(&self) -> RewardActionsView {
        RewardActionsView {
            profile_complete: self.profile_complete,
            group_join_action_history: self.group_join_action_history@,
        }
    }
}

impl View for Rewards {
    type V = RewardsView;

    open spec fn view(&self) -> RewardsView {
        RewardsView {
            actions: self.actions@,
            points: self.points,
            updated_on: self.updated_on,
            created_on: self.created_on,
        }
    }
}

impl RewardActionsView {
    /// No bonus has been paid.
    pub open spec fn none() -> Self {
        RewardActionsView { profile_complete: false, group_join_action_history: Seq::empty() }
    }

    /// The points that the recorded bonuses add up to.
    pub open spec fn earned(self) -> int {
        (if self.profile_complete {
            PROFILE_COMPLETE_POINTS as int
        } else {
            0
        }) + GROUP_JOIN_POINTS * self.group_join_action_history.len()
    }
}

impl RewardsView {
    /// The record of an account that has earned nothing yet, made at `now`.
    pub open spec fn fresh(now: u64) -> Self {
        RewardsView { actions: RewardActionsView::none(), points: 0, updated_on: now, created_on: now }
    }

    /// The join bonus for `group_id` has been paid.
    pub open spec fn paid_for(self, group_id: u32) -> bool {
        self.actions.group_join_action_history.contains(group_id)
    }

    /// No group is recorded twice, and the points are exactly what the
    /// recorded bonuses add up to.
    pub open spec fn wf(self) -> bool {
        &&& self.actions.group_join_action_history.no_duplicates()
        &&& self.points == self.actions.earned()
    }

    /// The completion bonus can be added to the points.
    pub open spec fn can_complete(self) -> bool {
        !self.actions.profile_complete ==> self.points + PROFILE_COMPLETE_POINTS <= u32::MAX
    }

    /// The join bonus for `group_id` can be added to the points.
    pub open spec fn can_join(self, group_id: u32) -> bool {
        !self.paid_for(group_id) ==> self.points + GROUP_JOIN_POINTS <= u32::MAX
    }

    /// The record after a profile was found complete at `now`: the bonus is
    /// paid if it has never been paid, else nothing changes.
    pub open spec fn profile_complete(self, now: u64) -> Self {
        if self.actions.profile_complete {
            self
        } else {
            RewardsView {
                actions: RewardActionsView { profile_complete: true, ..self.actions },
                points: (self.points + PROFILE_COMPLETE_POINTS) as u32,
                updated_on: now,
                created_on: self.created_on,
            }
        }
    }

    /// The record after the account joined `group_id` at `now`: the bonus is
    /// paid if it has never been paid for this group, else nothing changes.
    pub open spec fn group_join(self, group_id: u32, now: u64) -> Self {
        if self.paid_for(group_id) {
            self
        } else {
            RewardsView {
                actions: RewardActionsView {
                    group_join_action_history: self.actions.group_join_action_history.push(
                        group_id,
                    ),
                    ..self.actions
                },
                points: (self.points + GROUP_JOIN_POINTS) as u32,
                updated_on: now,
                created_on: self.created_on,
            }
        }
    }

    /// Paying the completion bonus keeps a record well formed.
    pub proof fn lemma_profile_complete_wf(self, now: u64)
        requires
            self.wf(),
            self.can_complete(),
        ensures
            self.profile_complete(now).wf(),
    {
    }

    /// Paying a join bonus keeps a record well formed.
    pub proof fn lemma_group_join_wf(self, group_id: u32, now: u64)
        requires
            self.wf(),
            self.can_join(group_id),
        ensures
            self.group_join(group_id, now).wf(),
    {
        if !self.paid_for(group_id) {
            lemma_push_new(self.actions.group_join_action_history, group_id);
        }
    }
}

impl Default for RewardActions {
    fn default() -> (actions: Self)
        ensures
            actions@ == RewardActionsView::none(),
    {
        RewardActions { profile_complete: false, group_join_action_history: Vec::new() }
    }
}

impl Clone for RewardActions {
    fn clone(&self) -> (copy: Self)
        ensures
            copy@ == self@,
    {
        RewardActions {
            profile_complete: self.profile_complete,
            group_join_action_history: copy_tags(&self.group_join_action_history),
        }
    }
}

impl Clone for Rewards {
    fn clone(&self) -> (copy: Self)
        ensures
            copy@ == self@,
    {
        Rewards {
            actions: self.actions.clone(),
            points: self.points,
            updated_on: self.updated_on,
            created_on: self.created_on,
        }
    }
}

impl Default for Rewards {
    /// The record of an account that has earned nothing yet, made now.
    fn default() -> (rewards: Self)
        ensures
            rewards@ == RewardsView::fresh(rewards@.created_on),
    {
        Rewards::new(block_timestamp())
    }
}

impl Rewards {
    /// The record of an account that has earned nothing yet, made at `now`.
    pub fn new(now: u64) -> (rewards: Self)
        ensures
            rewards@ == RewardsView::fresh(now),
            rewards@.wf(),
    {
        Rewards { actions: RewardActions::default(), points: 0, updated_on: now, created_on: now }
    }

    /// Whether the record is well formed: no group is recorded twice, and the
    /// points are what the recorded bonuses add up to.
    pub fn is_consistent(&self) -> (consistent: bool)
        ensures
            consistent == self@.wf(),
    {
        if !has_no_duplicates(&self.actions.group_join_action_history) {
            return false;
        }
        let base: u64 = if self.actions.profile_complete {
            PROFILE_COMPLETE_POINTS as u64
        } else {
            0
        };
        let joins = self.actions.group_join_action_history.len();
        if self.points as u64 >= base && joins <= u32::MAX as usize {
            let rest: u64 = self.points as u64 - base;
            rest == (GROUP_JOIN_POINTS as u64) * (joins as u64)
        } else {
            false
        }
    }

    /// Whether the completion bonus, if it is still to be paid, fits into the
    /// points.
    pub fn can_complete(&self) -> (fits: bool)
        ensures
            fits == self@.can_complete(),
    {
        self.actions.profile_complete || self.points <= u32::MAX - PROFILE_COMPLETE_POINTS
    }

    /// Whether the join bonus for `group_id`, if it is still to be paid, fits
    /// into the points.
    pub fn can_join(&self, group_id: u32) -> (fits: bool)
        ensures
            fits == self@.can_join(group_id),
    {
        self.was_paid_for(group_id) || self.points <= u32::MAX - GROUP_JOIN_POINTS
    }

    /// Whether the join bonus for `group_id` has been paid.
    pub fn was_paid_for(&self, group_id: u32) -> (paid: bool)
        ensures
            paid == self@.paid_for(group_id),
    {
        let mut i: usize = 0;
        while i < self.actions.group_join_action_history.len()
            invariant
                i <= self.actions.group_join_action_history.len(),
                forall|j: int| 0 <= j < i ==> self.actions.group_join_action_history@[j] != group_id,
            decreases self.actions.group_join_action_history.len() - i,
        {
            if self.actions.group_join_action_history[i] == group_id {
                assert(self@.actions.group_join_action_history[i as int] == group_id);
                return true;
            }
            i += 1;
        }
        false
    }

    /// Pays the bonus for a complete profile, unless it has been paid before.
    /// Returns a copy of the record as it then stands.
    pub fn profile_complete_at(&mut self, now: u64) -> (copy: Self)
        requires
            old(self)@.can_complete(),
        ensures
            final(self)@ == old(self)@.profile_complete(now),
            copy@ == final(self)@,
            old(self)@.wf() ==> final(self)@.wf(),
    {
        if !self.actions.profile_complete {
            self.actions.profile_complete = true;
            self.points += PROFILE_COMPLETE_POINTS;
            self.updated_on = now;
        }
        self.clone()
    }

    /// Pays the bonus for joining `group_id`, unless it has been paid for this
    /// group before. Returns a copy of the record as it then stands.
    pub fn group_join_at(&mut self, group_id: u32, now: u64) -> (copy: Self)
        requires
            old(self)@.can_join(group_id),
        ensures
            final(self)@ == old(self)@.group_join(group_id, now),
            copy@ == final(self)@,
            old(self)@.wf() ==> final(self)@.wf(),
    {
        proof {
            if old(self)@.wf() {
                old(self)@.lemma_group_join_wf(group_id, now);
            }
        }
        if !self.was_paid_for(group_id) {
            self.points += GROUP_JOIN_POINTS;
            self.actions.group_join_action_history.push(group_id);
            self.updated_on = now;
        }
        self.clone()
    }

    /// Pays the bonus for a complete profile now, unless it has been paid
    /// before: `profile_complete_at` for the time of the current block, which
    /// a record that was paid shows as the time of its last update.
    pub fn profile_complete(&mut self) -> (copy: Self)
        requires
            old(self)@.can_complete(),
        ensures
            final(self)@ == old(self)@.profile_complete(final(self)@.updated_on),
            copy@ == final(self)@,
            old(self)@.wf() ==> final(self)@.wf(),
    {
        self.profile_complete_at(block_timestamp())
    }

    /// Pays the bonus for joining `group_id` now, unless it has been paid for
    /// this group before: `group_join_at` for the time of the current block,
    /// which a record that was paid shows as the time of its last update.
    pub fn group_join(&mut self, group_id: u32) -> (copy: Self)
        requires
            old(self)@.can_join(group_id),
        ensures
            final(self)@ == old(self)@.group_join(group_id, final(self)@.updated_on),
            copy@ == final(self)@,
            old(self)@.wf() ==> final(self)@.wf(),
    {
        self.group_join_at(group_id, block_timestamp())
    }
}

} // verus!
