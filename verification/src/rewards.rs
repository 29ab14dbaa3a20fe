//! Reading the rewards of an account and how complete its profile is.

use crate::host::block_timestamp;
use crate::models::contract::{Contract, ContractView};
use crate::models::rewards::{Rewards, RewardsView};
use vstd::prelude::*;

verus! {

impl ContractView {
    /// How complete the profile of the account is, out of 100; 0 for an
    /// account without a profile.
    pub open spec fn completion_of(self, account: Seq<char>) -> int {
        if self.has_profile(account) {
            self.profiles.get(account).completion()
        } else {
            0
        }
    }
}

impl Contract {
    /// The reward record of the account. An account that has earned nothing
    /// has no record yet; for it the result is the empty record that it would
    /// start with at `now`.
    pub fn get_rewards_at(&self, account_id: String, now: u64) -> (rewards: Rewards)
        requires
            self@.rewards.wf(),
        ensures
            rewards@ == self@.reward_of(account_id@, now),
            rewards@.points == self@.points_of(account_id@),
    {
        match self.rewards.get(&account_id) {
            Some(reward) => reward.clone(),
            None => Rewards::new(now),
        }
    }

    /// The reward record of the account; for an account without one, the
    /// empty record that it would start with now.
    pub fn get_rewards(&self, account_id: String) -> (rewards: Rewards)
        requires
            self@.rewards.wf(),
        ensures
            rewards@ == self@.reward_of(account_id@, rewards@.created_on),
            rewards@.points == self@.points_of(account_id@),
    {
        match self.rewards.get(&account_id) {
            Some(reward) => reward.clone(),
            None => Rewards::new(block_timestamp()),
        }
    }

    /// How complete the profile of the account is, out of 100; 0 for an
    /// account without a profile.
    pub fn get_profile_complete_percentage(&self, account_id: String) -> (percentage: u32)
        requires
            self@.profiles.wf(),
        ensures
            percentage == self@.completion_of(account_id@),
    {
        match self.profiles.get(&account_id) {
            Some(profile) => profile.get_profile_complete_percentage(),
            None => 0,
        }
    }
}

} // verus!
