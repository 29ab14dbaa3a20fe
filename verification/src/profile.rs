//! Profiles: registering an account, editing its profile, and reading
//! profiles back. An edit that leaves the profile complete pays the completion
//! bonus, once per account.

use crate::error::GenericError;
use crate::groups::outcome_of;
use crate::host::block_timestamp;
use crate::models::contract::{Contract, ContractView};
use crate::models::profile::{
    PostProfile, PostProfileView, Profile, ProfileResponse, ProfileResponseView, ProfileView,
    UpdateProfile, UpdateProfileView,
};
use crate::models::response_result::ResponseResult;
use crate::models::rewards::{Rewards, RewardsView};
use crate::views::{lemma_filter_next, lemma_filter_none, texts_of, views_of};
use vstd::prelude::*;

verus! {

impl ContractView {
    /// The state after `caller` asked at `now` to register. An account that
    /// has a profile keeps it, and nothing changes; any other gets a new
    /// profile, behind the profiles that exist.
    pub open spec fn after_add_profile(self, caller: Seq<char>, post: PostProfileView, now: u64) -> Self {
        if self.has_profile(caller) {
            self
        } else {
            ContractView {
                profiles: self.profiles.put(caller, ProfileView::created(post, now)),
                ..self
            }
        }
    }

    /// What `caller` is told after asking at `now` to register: the new
    /// profile, or that there is one already.
    pub open spec fn add_profile_outcome(self, caller: Seq<char>, post: PostProfileView, now: u64) -> Result<
        ProfileResponseView,
        GenericError,
    > {
        if self.has_profile(caller) {
            Err(GenericError::ProfileAlreadyExists)
        } else {
            Ok(ProfileResponseView::of(caller, ProfileView::created(post, now)))
        }
    }

    /// Registering keeps the state consistent.
    pub proof fn lemma_add_profile_wf(self, caller: Seq<char>, post: PostProfileView, now: u64)
        requires
            self.wf(),
        ensures
            self.after_add_profile(caller, post, now).wf(),
    {
        let after = self.after_add_profile(caller, post, now);
        if !self.has_profile(caller) {
            let created = ProfileView::created(post, now);
            self.profiles.lemma_put(caller, created);
            assert forall|other: u32| #[trigger] after.has_group(other) implies after.group(
                other,
            ).wf() by {
                assert(self.has_group(other));
            }
            assert forall|account: Seq<char>| #[trigger] after.profiles.has(account) implies after.profiles.get(
                account,
            ).joined_groups.no_duplicates() by {
                if account != caller {
                    assert(self.profiles.has(account));
                }
            }
            assert forall|account: Seq<char>, other: u32|
                after.in_group(account, other) <==> after.lists_group(account, other) by {
                assert(self.in_group(account, other) <==> self.lists_group(account, other));
                assert(after.has_group(other) == self.has_group(other));
                if account == caller {
                    assert(!created.joined_groups.contains(other));
                } else {
                    assert(after.profiles.has(account) == self.profiles.has(account));
                }
            }
        }
    }

    /// The caller's profile after the partial update at `now`; meaningful
    /// where the caller has a profile.
    pub open spec fn edited_profile(self, caller: Seq<char>, patch: UpdateProfileView, now: u64) -> ProfileView {
        self.profiles.get(caller).updated(patch, now)
    }

    /// The edit pays the completion bonus if the profile is complete after it:
    /// what is judged is the profile as updated, not as it was.
    pub open spec fn edit_completes(self, caller: Seq<char>, patch: UpdateProfileView) -> bool {
        self.has_profile(caller) && self.edited_profile(caller, patch, 0).is_filled()
    }

    /// The completion bonus, if the edit would pay one, fits into the caller's
    /// points.
    pub open spec fn edit_fits(self, caller: Seq<char>, patch: UpdateProfileView) -> bool {
        self.edit_completes(caller, patch) ==> self.reward_of(caller, 0).can_complete()
    }

    /// The state after `caller` edited their profile at `now`. The profile is
    /// updated; if it is then complete, the reward record, made if there was
    /// none, is paid the completion bonus unless it was paid before. Without a
    /// profile nothing changes.
    pub open spec fn after_edit_profile(self, caller: Seq<char>, patch: UpdateProfileView, now: u64) -> Self {
        if self.has_profile(caller) {
            ContractView {
                profiles: self.profiles.put(caller, self.edited_profile(caller, patch, now)),
                rewards: if self.edit_completes(caller, patch) {
                    self.rewards.put(caller, self.reward_of(caller, now).profile_complete(now))
                } else {
                    self.rewards
                },
                ..self
            }
        } else {
            self
        }
    }

    /// What `caller` is told after editing their profile at `now`: the
    /// profile as updated, or that there is none.
    pub open spec fn edit_profile_outcome(self, caller: Seq<char>, patch: UpdateProfileView, now: u64) -> Result<
        ProfileResponseView,
        GenericError,
    > {
        if self.has_profile(caller) {
            Ok(ProfileResponseView::of(caller, self.edited_profile(caller, patch, now)))
        } else {
            Err(GenericError::ProfileNotFound)
        }
    }

    /// Editing a profile keeps the state consistent.
    pub proof fn lemma_edit_profile_wf(self, caller: Seq<char>, patch: UpdateProfileView, now: u64)
        requires
            self.wf(),
            self.edit_fits(caller, patch),
        ensures
            self.after_edit_profile(caller, patch, now).wf(),
    {
        let after = self.after_edit_profile(caller, patch, now);
        if self.has_profile(caller) {
            let edited = self.edited_profile(caller, patch, now);
            let reward = self.reward_of(caller, now);
            self.profiles.lemma_put(caller, edited);
            assert(self.edited_profile(caller, patch, 0).is_filled() == edited.is_filled());
            if self.edit_completes(caller, patch) {
                self.rewards.lemma_put(caller, reward.profile_complete(now));
                assert(reward.wf() && reward.can_complete()) by {
                    if !self.rewards.has(caller) {
                        assert(reward.actions.group_join_action_history =~= Seq::empty());
                    }
                }
                reward.lemma_profile_complete_wf(now);
            }
            assert forall|other: u32| #[trigger] after.has_group(other) implies after.group(
                other,
            ).wf() by {
                assert(self.has_group(other));
            }
            assert forall|account: Seq<char>| #[trigger] after.profiles.has(account) implies after.profiles.get(
                account,
            ).joined_groups.no_duplicates() by {
                assert(self.profiles.has(account));
            }
            assert forall|account: Seq<char>| #[trigger] after.rewards.has(account) implies after.rewards.get(
                account,
            ).wf() by {
                if account != caller {
                    assert(self.rewards.has(account));
                }
            }
            assert forall|account: Seq<char>, other: u32|
                after.in_group(account, other) <==> after.lists_group(account, other) by {
                assert(self.in_group(account, other) <==> self.lists_group(account, other));
                assert(after.has_group(other) == self.has_group(other));
                assert(after.profiles.has(account) == self.profiles.has(account));
            }
        }
    }

    /// The profile of the account as it is handed to callers, or
    /// `ProfileNotFound`.
    pub open spec fn found_profile(self, account: Seq<char>) -> Result<
        ProfileResponseView,
        GenericError,
    > {
        if self.has_profile(account) {
            Ok(ProfileResponseView::of(account, self.profiles.get(account)))
        } else {
            Err(GenericError::ProfileNotFound)
        }
    }

    /// The accounts that have a profile.
    pub open spec fn registered(self) -> spec_fn(Seq<char>) -> bool {
        |account: Seq<char>| self.has_profile(account)
    }

    /// The profile of each account as it is handed to callers.
    pub open spec fn profiled(self) -> spec_fn(Seq<char>) -> ProfileResponseView {
        |account: Seq<char>| ProfileResponseView::of(account, self.profiles.get(account))
    }

    /// The profiles of those of `accounts` that have one, in the order of
    /// `accounts`.
    pub open spec fn profiles_of(self, accounts: Seq<Seq<char>>) -> Seq<ProfileResponseView> {
        accounts.filter(self.registered()).map_values(self.profiled())
    }
}

impl Contract {
    /// Registers `caller` at time `now`.
    ///
    /// An account that has a profile is refused with `ProfileAlreadyExists`,
    /// and its profile stays as it is. Any other account gets a profile with
    /// the given names, the role of a member, no groups and no tags, and that
    /// profile is returned.
    pub fn add_profile_at(&mut self, caller: &String, now: u64, post_profile: PostProfile) -> (result:
        ResponseResult<ProfileResponse>)
        requires
            old(self)@.profiles.wf(),
        ensures
            final(self)@ == old(self)@.after_add_profile(caller@, post_profile@, now),
            outcome_of(result) == old(self)@.add_profile_outcome(caller@, post_profile@, now),
            old(self)@.wf() ==> final(self)@.wf(),
    {
        proof {
            if old(self)@.wf() {
                old(self)@.lemma_add_profile_wf(caller@, post_profile@, now);
            }
        }
        if self.profiles.contains_key(caller) {
            Err(GenericError::ProfileAlreadyExists)
        } else {
            let profile = Profile::new(post_profile, now);
            let created = profile.clone();
            self.profiles.insert(caller.clone(), profile);
            Ok(ProfileResponse::new(caller.clone(), created))
        }
    }

    /// Registers `caller` now. It is `add_profile_at` for the time of the
    /// current block.
    pub fn add_profile(&mut self, caller: &String, post_profile: PostProfile) -> (result:
        ResponseResult<ProfileResponse>)
        requires
            old(self)@.profiles.wf(),
        ensures
            exists|now: u64|
                {
                    &&& final(self)@ == #[trigger] old(self)@.after_add_profile(
                        caller@,
                        post_profile@,
                        now,
                    )
                    &&& outcome_of(result) == old(self)@.add_profile_outcome(
                        caller@,
                        post_profile@,
                        now,
                    )
                },
            old(self)@.wf() ==> final(self)@.wf(),
    {
        let now = block_timestamp();
        self.add_profile_at(caller, now, post_profile)
    }

    /// Applies a partial update to the profile of `caller` at time `now`.
    ///
    /// A caller without a profile is refused with `ProfileNotFound`, and
    /// nothing changes. Otherwise each field that the update gives is
    /// overwritten and every other field is kept; the user name, the role and
    /// the joined groups are never touched. If the profile as updated is
    /// complete, the completion bonus is paid unless it was ever paid to this
    /// caller. The profile as updated is returned.
    pub fn edit_profile_at(&mut self, caller: &String, now: u64, update_profile: UpdateProfile) -> (result:
        ResponseResult<ProfileResponse>)
        requires
            old(self)@.profiles.wf(),
            old(self)@.rewards.wf(),
            old(self)@.edit_fits(caller@, update_profile@),
        ensures
            final(self)@ == old(self)@.after_edit_profile(caller@, update_profile@, now),
            outcome_of(result) == old(self)@.edit_profile_outcome(caller@, update_profile@, now),
            old(self)@.wf() ==> final(self)@.wf(),
    {
        proof {
            if old(self)@.wf() {
                old(self)@.lemma_edit_profile_wf(caller@, update_profile@, now);
            }
        }
        match self.profiles.position(caller) {
            None => Err(GenericError::ProfileNotFound),
            Some(at) => {
                let ghost before = self@;
                proof {
                    before.profiles.lemma_index_of(caller@);
                    before.profiles.lemma_position(at as int);
                }
                let updated = self.profiles.value_at(at).update_at(update_profile, now);
                let filled = updated.is_filled();
                let response = ProfileResponse::new(caller.clone(), updated.clone());
                self.profiles.set_value_at(at, updated);
                assert(filled == before.edit_completes(caller@, update_profile@));
                if filled {
                    match self.rewards.position(caller) {
                        Some(slot) => {
                            proof {
                                before.rewards.lemma_index_of(caller@);
                            }
                            self.rewards.entries[slot].1.profile_complete_at(now);
                            assert(self@.rewards.entries =~= before.rewards.put(
                                caller@,
                                before.reward_of(caller@, now).profile_complete(now),
                            ).entries);
                        },
                        None => {
                            let mut reward = Rewards::new(now);
                            reward.profile_complete_at(now);
                            self.rewards.insert(caller.clone(), reward);
                        },
                    }
                }
                Ok(response)
            },
        }
    }

    /// Applies a partial update to the profile of `caller` now. It is
    /// `edit_profile_at` for the time of the current block.
    pub fn edit_profile(&mut self, caller: &String, update_profile: UpdateProfile) -> (result:
        ResponseResult<ProfileResponse>)
        requires
            old(self)@.profiles.wf(),
            old(self)@.rewards.wf(),
            old(self)@.edit_fits(caller@, update_profile@),
        ensures
            exists|now: u64|
                {
                    &&& final(self)@ == #[trigger] old(self)@.after_edit_profile(
                        caller@,
                        update_profile@,
                        now,
                    )
                    &&& outcome_of(result) == old(self)@.edit_profile_outcome(
                        caller@,
                        update_profile@,
                        now,
                    )
                },
            old(self)@.wf() ==> final(self)@.wf(),
    {
        let now = block_timestamp();
        self.edit_profile_at(caller, now, update_profile)
    }

    /// The profile of the account, or `ProfileNotFound`.
    pub fn get_profile(&self, account_id: String) -> (result: ResponseResult<ProfileResponse>)
        requires
            self@.profiles.wf(),
        ensures
            outcome_of(result) == self@.found_profile(account_id@),
    {
        match self.profiles.get(&account_id) {
            None => Err(GenericError::ProfileNotFound),
            Some(profile) => {
                let copy = profile.clone();
                Ok(ProfileResponse::new(account_id, copy))
            },
        }
    }

    /// The profiles of those of the accounts that have one, in the order of
    /// `account_ids`. An account without a profile is passed over.
    pub fn get_profiles(&self, account_ids: Vec<String>) -> (profiles: Vec<ProfileResponse>)
        requires
            self@.profiles.wf(),
        ensures
            views_of(profiles@) == self@.profiles_of(texts_of(account_ids@)),
    {
        let ghost accounts = texts_of(account_ids@);
        let mut profiles: Vec<ProfileResponse> = Vec::new();
        let mut i: usize = 0;
        proof {
            lemma_filter_none(accounts, self@.registered());
            assert(views_of(profiles@) =~= accounts.take(0).filter(self@.registered()).map_values(
                self@.profiled(),
            ));
        }
        while i < account_ids.len()
            invariant
                self@.profiles.wf(),
                accounts == texts_of(account_ids@),
                i <= account_ids.len(),
                views_of(profiles@) == accounts.take(i as int).filter(
                    self@.registered(),
                ).map_values(self@.profiled()),
            decreases account_ids.len() - i,
        {
            proof {
                lemma_filter_next(accounts, self@.registered(), i as int);
            }
            let ghost before = views_of(profiles@);
            match self.profiles.get(&account_ids[i]) {
                Some(profile) => {
                    let copy = profile.clone();
                    profiles.push(ProfileResponse::new(account_ids[i].clone(), copy));
                    let ghost added = ProfileResponseView::of(
                        accounts[i as int],
                        self@.profiles.get(accounts[i as int]),
                    );
                    assert(views_of(profiles@) =~= before.push(added));
                    assert(accounts.take(i + 1).filter(self@.registered()).map_values(
                        self@.profiled(),
                    ) =~= before.push(added));
                },
                None => {},
            }
            i += 1;
        }
        assert(accounts.take(i as int) =~= accounts);
        profiles
    }
}

} // verus!
