//! Groups and membership: creating and editing groups, joining and leaving
//! them, and the queries about them.
//!
//! Whoever changes a membership changes two records, the member list of the
//! group and the group list of the profile. Every operation here validates
//! first and writes afterwards, so a refused operation leaves the state as it
//! was, whatever state that is, and an accepted one on a consistent state
//! leaves the two records in agreement.
//!
//! An operation takes the account that is calling. The forms whose names end
//! in `_at` take the time as well; the others read it from the current block.

use crate::error::GenericError;
use crate::host::block_timestamp;
use crate::models::contract::{Contract, ContractView};
use crate::models::application_role::ApplicationRole;
use crate::models::error::Error;
use crate::models::groups::{
    GroupResponse, GroupResponseView, GroupWithMembers, GroupWithMembersView, PostGroup,
    PostGroupView, UpdateGroup, UpdateGroupView,
};
use crate::models::profile::lemma_without;
use crate::models::response_result::ResponseResult;
use crate::models::rewards::Rewards;
use crate::text::{first_at, first_equal, lowercase_of, to_lowercase};
use crate::views::{
    entries_of, lemma_filter_next, lemma_filter_none, lemma_push_new, texts_of, views_of,
};
use vstd::prelude::*;

verus! {

/// The outcome of an operation, with the response taken by its view.
pub open spec fn outcome_of<T: View>(result: ResponseResult<T>) -> Result<T::V, GenericError> {
    match result {
        Ok(response) => Ok(response@),
        Err(error) => Err(error),
    }
}

impl ContractView {
    /// What stands against `caller` joining the group, if anything: no
    /// profile, no such group, or a membership that either record shows.
    pub open spec fn join_check(self, caller: Seq<char>, group_id: u32) -> Result<(), Error> {
        if !self.has_profile(caller) {
            Err(Error::ProfileNotFound)
        } else if !self.has_group(group_id) {
            Err(Error::GroupNotFound)
        } else if self.lists_group(caller, group_id) || self.in_group(caller, group_id) {
            Err(Error::AlreadyMember)
        } else {
            Ok(())
        }
    }

    /// The join bonus, if joining would pay one, fits into the caller's points.
    pub open spec fn join_fits(self, caller: Seq<char>, group_id: u32) -> bool {
        self.join_check(caller, group_id) is Ok ==> self.reward_of(caller, 0).can_join(group_id)
    }

    /// The state after `caller` asked at `now` to join the group. Where
    /// nothing stands against it, the group gains the member, the profile
    /// gains the group, and the reward record, made if there was none, is
    /// paid the join bonus unless it was paid for this group before.
    pub open spec fn after_join(self, caller: Seq<char>, group_id: u32, now: u64) -> Self {
        if self.join_check(caller, group_id) is Ok {
            ContractView {
                profiles: self.profiles.put(
                    caller,
                    self.profiles.get(caller).add_group(group_id),
                ),
                groups: self.groups.update(
                    group_id as int,
                    self.group(group_id).add_member(caller),
                ),
                rewards: self.rewards.put(
                    caller,
                    self.reward_of(caller, now).group_join(group_id, now),
                ),
                group_id_counter: self.group_id_counter,
            }
        } else {
            self
        }
    }

    /// What `caller` is told after asking at `now` to join the group: the
    /// group as it stands with the new member, or the error.
    pub open spec fn join_outcome(self, caller: Seq<char>, group_id: u32, now: u64) -> Result<
        GroupResponseView,
        GenericError,
    > {
        match self.join_check(caller, group_id) {
            Ok(_) => Ok(
                GroupResponseView::of(group_id, self.after_join(caller, group_id, now).group(group_id)),
            ),
            Err(error) => Err(error.generic()),
        }
    }

    /// Joining keeps the state consistent.
    pub proof fn lemma_join_wf(self, caller: Seq<char>, group_id: u32, now: u64)
        requires
            self.wf(),
            self.join_fits(caller, group_id),
        ensures
            self.after_join(caller, group_id, now).wf(),
    {
        let after = self.after_join(caller, group_id, now);
        if self.join_check(caller, group_id) is Ok {
            let profile = self.profiles.get(caller);
            let joined = profile.add_group(group_id);
            let group = self.group(group_id);
            let reward = self.reward_of(caller, now);
            self.profiles.lemma_put(caller, joined);
            self.rewards.lemma_put(caller, reward.group_join(group_id, now));
            group.members.lemma_put(caller, ApplicationRole::Member);
            assert(self.has_profile(caller));
            assert(!profile.in_group(group_id));
            assert(profile.joined_groups.no_duplicates());
            lemma_push_new(profile.joined_groups, group_id);
            assert(reward.wf() && reward.can_join(group_id)) by {
                if self.rewards.has(caller) {
                } else {
                    assert(reward.actions.group_join_action_history =~= Seq::empty());
                }
            }
            reward.lemma_group_join_wf(group_id, now);
            assert forall|other: u32| #[trigger] after.has_group(other) implies after.group(
                other,
            ).wf() by {
                assert(self.has_group(other));
            }
            assert forall|account: Seq<char>| #[trigger] after.profiles.has(account) implies after.profiles.get(
                account,
            ).joined_groups.no_duplicates() by {
                if account != caller {
                    assert(self.profiles.has(account));
                }
            }
            assert forall|account: Seq<char>| #[trigger] after.rewards.has(account) implies after.rewards.get(
                account,
            ).wf() by {
                if account != caller {
                    assert(self.rewards.has(account));
                }
            }
            assert forall|account: Seq<char>, other: u32|
                after.in_group(account, other) <==> after.lists_group(account, other) by {
                assert(self.in_group(account, other) <==> self.lists_group(account, other));
                assert(after.has_group(other) == self.has_group(other));
                if account == caller {
                    if other == group_id {
                        assert(joined.joined_groups.last() == group_id);
                    } else {
                        if profile.joined_groups.contains(other) {
                            let i = profile.joined_groups.index_of(other);
                            assert(joined.joined_groups[i] == other);
                        }
                        if joined.joined_groups.contains(other) {
                            let i = joined.joined_groups.index_of(other);
                            assert(profile.joined_groups[i] == other);
                        }
                    }
                } else {
                    assert(after.profiles.has(account) == self.profiles.has(account));
                }
            }
        }
    }
}

impl Contract {
    /// Validates a join: finds what stands against `caller` joining the group
    /// or, if nothing does, the position of the caller's profile. Either record
    /// of a membership is enough to refuse, also where the two disagree.
    pub fn check_join(&self, caller: &String, group_id: u32) -> (verdict: Result<usize, Error>)
        requires
            self@.indexed(),
        ensures
            match verdict {
                Ok(at) => self@.join_check(caller@, group_id) is Ok && at
                    == self@.profiles.index_of(caller@),
                Err(error) => self@.join_check(caller@, group_id) == Err::<(), Error>(error),
            },
    {
        match self.profiles.position(caller) {
            None => Err(Error::ProfileNotFound),
            Some(at) => {
                proof {
                    self@.profiles.lemma_index_of(caller@);
                }
                if group_id as usize >= self.groups.len() {
                    Err(Error::GroupNotFound)
                } else if self.profiles.value_at(at).is_group_member(&group_id)
                    || self.groups[group_id as usize].is_member(caller) {
                    Err(Error::AlreadyMember)
                } else {
                    Ok(at)
                }
            },
        }
    }

    /// Lets `caller` join the group at time `now`.
    ///
    /// The join is refused with `ProfileNotFound` if the caller has no
    /// profile, else with `GroupNotFound` if there is no such group, else with
    /// `AlreadyMember` if the profile lists the group or the group lists the
    /// caller. A refused join changes nothing. An accepted one adds the caller
    /// to the group as a plain member, adds the group to the caller's profile,
    /// pays the join bonus unless it was ever paid to this caller for this
    /// group, and returns the group as it then stands.
    pub fn join_group_at(&mut self, caller: &String, now: u64, group_id: u32) -> (result:
        ResponseResult<GroupResponse>)
        requires
            old(self)@.indexed(),
            old(self)@.rewards.wf(),
            old(self)@.join_fits(caller@, group_id),
        ensures
            final(self)@ == old(self)@.after_join(caller@, group_id, now),
            outcome_of(result) == old(self)@.join_outcome(caller@, group_id, now),
            old(self)@.wf() ==> final(self)@.wf(),
    {
        proof {
            if old(self)@.wf() {
                old(self)@.lemma_join_wf(caller@, group_id, now);
            }
        }
        match self.check_join(caller, group_id) {
            Err(error) => Err(error.to_generic()),
            Ok(at) => {
                let ghost before = self@;
                proof {
                    before.profiles.lemma_index_of(caller@);
                    before.profiles.lemma_position(at as int);
                }
                let joined = self.groups[group_id as usize].add_member(caller.clone());
                self.profiles.entries[at].1.add_group(group_id);
                match self.rewards.position(caller) {
                    Some(slot) => {
                        proof {
                            before.rewards.lemma_index_of(caller@);
                        }
                        self.rewards.entries[slot].1.group_join_at(group_id, now);
                        assert(self@.rewards.entries =~= before.rewards.put(
                            caller@,
                            before.reward_of(caller@, now).group_join(group_id, now),
                        ).entries);
                    },
                    None => {
                        let mut reward = Rewards::new(now);
                        reward.group_join_at(group_id, now);
                        self.rewards.insert(caller.clone(), reward);
                    },
                }
                assert(self@.profiles.entries =~= before.profiles.put(
                    caller@,
                    before.profiles.get(caller@).add_group(group_id),
                ).entries);
                assert(self@.groups =~= before.groups.update(
                    group_id as int,
                    before.group(group_id).add_member(caller@),
                ));
                Ok(GroupResponse::new(group_id, joined))
            },
        }
    }

    /// Lets `caller` join the group now. It is `join_group_at` for the time
    /// of the current block.
    pub fn join_group(&mut self, caller: &String, group_id: u32) -> (result: ResponseResult<
        GroupResponse,
    >)
        requires
            old(self)@.indexed(),
            old(self)@.rewards.wf(),
            old(self)@.join_fits(caller@, group_id),
        ensures
            exists|now: u64|
                {
                    &&& final(self)@ == #[trigger] old(self)@.after_join(caller@, group_id, now)
                    &&& outcome_of(result) == old(self)@.join_outcome(caller@, group_id, now)
                },
            old(self)@.wf() ==> final(self)@.wf(),
    {
        let now = block_timestamp();
        self.join_group_at(caller, now, group_id)
    }
}

impl ContractView {
    /// What stands against `caller` leaving the group, if anything: no
    /// profile, no such group, or a membership that one of the two records
    /// does not show.
    pub open spec fn leave_check(self, caller: Seq<char>, group_id: u32) -> Result<(), Error> {
        if !self.has_profile(caller) {
            Err(Error::ProfileNotFound)
        } else if !self.has_group(group_id) {
            Err(Error::GroupNotFound)
        } else if !(self.lists_group(caller, group_id) && self.in_group(caller, group_id)) {
            Err(Error::NotMember)
        } else {
            Ok(())
        }
    }

    /// The state after `caller` asked to leave the group. Where nothing
    /// stands against it, the group loses the member and the profile loses
    /// the group. The rewards stay as they are.
    pub open spec fn after_leave(self, caller: Seq<char>, group_id: u32) -> Self {
        if self.leave_check(caller, group_id) is Ok {
            ContractView {
                profiles: self.profiles.put(
                    caller,
                    self.profiles.get(caller).remove_group(group_id),
                ),
                groups: self.groups.update(
                    group_id as int,
                    self.group(group_id).remove_member(caller),
                ),
                ..self
            }
        } else {
            self
        }
    }

    /// What `caller` is told after asking to leave the group.
    pub open spec fn leave_outcome(self, caller: Seq<char>, group_id: u32) -> Result<
        (),
        GenericError,
    > {
        match self.leave_check(caller, group_id) {
            Ok(_) => Ok(()),
            Err(error) => Err(error.generic()),
        }
    }

    /// Leaving keeps the state consistent.
    pub proof fn lemma_leave_wf(self, caller: Seq<char>, group_id: u32)
        requires
            self.wf(),
        ensures
            self.after_leave(caller, group_id).wf(),
    {
        let after = self.after_leave(caller, group_id);
        if self.leave_check(caller, group_id) is Ok {
            let profile = self.profiles.get(caller);
            let left = profile.remove_group(group_id);
            let group = self.group(group_id);
            self.profiles.lemma_put(caller, left);
            group.members.lemma_remove(caller);
            lemma_without(profile.joined_groups, group_id);
            assert(self.has_profile(caller));
            assert forall|other: u32| #[trigger] after.has_group(other) implies after.group(
                other,
            ).wf() by {
                assert(self.has_group(other));
            }
            assert forall|account: Seq<char>| #[trigger] after.profiles.has(account) implies after.profiles.get(
                account,
            ).joined_groups.no_duplicates() by {
                if account != caller {
                    assert(self.profiles.has(account));
                }
            }
            assert forall|account: Seq<char>, other: u32|
                after.in_group(account, other) <==> after.lists_group(account, other) by {
                assert(self.in_group(account, other) <==> self.lists_group(account, other));
                assert(after.has_group(other) == self.has_group(other));
                if account == caller {
                    assert(left.joined_groups.contains(other) <==> other != group_id
                        && profile.joined_groups.contains(other));
                } else {
                    assert(after.profiles.has(account) == self.profiles.has(account));
                }
            }
        }
    }

    /// A group can be added for `caller`: if the caller has a profile, the
    /// counter has not reached the largest identifier.
    pub open spec fn add_group_fits(self, caller: Seq<char>) -> bool {
        self.has_profile(caller) ==> self.group_id_counter < u32::MAX
    }

    /// The state after `caller` asked at `now` to create a group. Where the
    /// caller has a profile, the group is stored under the counter's value
    /// with the caller as owner and only member, the profile gains the group,
    /// and the counter goes up by one. No reward is paid.
    pub open spec fn after_add_group(self, caller: Seq<char>, post: PostGroupView, now: u64) -> Self {
        if self.has_profile(caller) {
            ContractView {
                profiles: self.profiles.put(
                    caller,
                    self.profiles.get(caller).add_group(self.group_id_counter),
                ),
                groups: self.groups.push(GroupWithMembersView::created(post, caller, now)),
                rewards: self.rewards,
                group_id_counter: (self.group_id_counter + 1) as u32,
            }
        } else {
            self
        }
    }

    /// What `caller` is told after asking at `now` to create a group: the new
    /// group under its identifier, or that the caller has no profile.
    pub open spec fn add_group_outcome(self, caller: Seq<char>, post: PostGroupView, now: u64) -> Result<
        GroupResponseView,
        GenericError,
    > {
        if self.has_profile(caller) {
            Ok(
                GroupResponseView::of(
                    self.group_id_counter,
                    GroupWithMembersView::created(post, caller, now),
                ),
            )
        } else {
            Err(GenericError::ProfileNotFound)
        }
    }

    /// Creating a group keeps the state consistent.
    pub proof fn lemma_add_group_wf(self, caller: Seq<char>, post: PostGroupView, now: u64)
        requires
            self.wf(),
            self.add_group_fits(caller),
        ensures
            self.after_add_group(caller, post, now).wf(),
            self.has_profile(caller) ==> !self.lists_group(caller, self.group_id_counter),
    {
        let after = self.after_add_group(caller, post, now);
        if self.has_profile(caller) {
            let id: u32 = self.group_id_counter;
            let profile = self.profiles.get(caller);
            let joined = profile.add_group(id);
            let created = GroupWithMembersView::created(post, caller, now);
            self.profiles.lemma_put(caller, joined);
            assert(!self.has_group(id));
            assert forall|account: Seq<char>| !self.lists_group(account, id) by {
                assert(self.in_group(account, id) <==> self.lists_group(account, id));
            }
            assert(!profile.in_group(id)) by {
                assert(!self.lists_group(caller, id));
            }
            assert(profile.joined_groups.no_duplicates());
            lemma_push_new(profile.joined_groups, id);
            assert(created.members.wf());
            assert forall|account: Seq<char>| created.members.has(account) <==> account
                == caller by {
                if created.members.has(account) {
                    created.members.lemma_index_of(account);
                }
                if account == caller {
                    assert(created.members.bound_at(caller, 0));
                }
            }
            assert forall|other: u32| #[trigger] after.has_group(other) implies after.group(
                other,
            ).wf() by {
                if other != id {
                    assert(self.has_group(other));
                }
            }
            assert forall|account: Seq<char>| #[trigger] after.profiles.has(account) implies after.profiles.get(
                account,
            ).joined_groups.no_duplicates() by {
                if account != caller {
                    assert(self.profiles.has(account));
                }
            }
            assert forall|account: Seq<char>, other: u32|
                after.in_group(account, other) <==> after.lists_group(account, other) by {
                assert(self.in_group(account, other) <==> self.lists_group(account, other));
                assert(!self.lists_group(account, id));
                if other == id {
                    if account == caller {
                        assert(joined.joined_groups.last() == id);
                    } else {
                        assert(after.profiles.has(account) == self.profiles.has(account));
                    }
                } else {
                    if other < id {
                        assert(after.group(other) == self.group(other));
                    }
                    if account == caller {
                        if profile.joined_groups.contains(other) {
                            let i = profile.joined_groups.index_of(other);
                            assert(joined.joined_groups[i] == other);
                        }
                        if joined.joined_groups.contains(other) {
                            let i = joined.joined_groups.index_of(other);
                            assert(profile.joined_groups[i] == other);
                        }
                    } else {
                        assert(after.profiles.has(account) == self.profiles.has(account));
                    }
                }
            }
        }
    }

    /// The state after a partial update of the group at `now`. Only the
    /// group's own record changes; a missing group changes nothing.
    pub open spec fn after_edit_group(self, id: u32, patch: UpdateGroupView, now: u64) -> Self {
        if self.has_group(id) {
            ContractView {
                groups: self.groups.update(id as int, self.group(id).updated(patch, now)),
                ..self
            }
        } else {
            self
        }
    }

    /// What the caller is told after a partial update of the group at `now`.
    pub open spec fn edit_group_outcome(self, id: u32, patch: UpdateGroupView, now: u64) -> Result<
        GroupResponseView,
        GenericError,
    > {
        if self.has_group(id) {
            Ok(GroupResponseView::of(id, self.group(id).updated(patch, now)))
        } else {
            Err(GenericError::GroupNotFound)
        }
    }

    /// Editing a group keeps the state consistent.
    pub proof fn lemma_edit_group_wf(self, id: u32, patch: UpdateGroupView, now: u64)
        requires
            self.wf(),
        ensures
            self.after_edit_group(id, patch, now).wf(),
    {
        let after = self.after_edit_group(id, patch, now);
        if self.has_group(id) {
            assert forall|other: u32| #[trigger] after.has_group(other) implies after.group(
                other,
            ).wf() by {
                assert(self.has_group(other));
            }
            assert forall|account: Seq<char>, other: u32|
                after.in_group(account, other) <==> after.lists_group(account, other) by {
                assert(self.in_group(account, other) <==> self.lists_group(account, other));
                assert(after.has_group(other) == self.has_group(other));
            }
        }
    }
}

impl Contract {
    /// Validates a leave: finds what stands against `caller` leaving the group
    /// or, if nothing does, the position of the caller's profile. Both records
    /// must show the membership, so where the two disagree the leave is refused.
    pub fn check_leave(&self, caller: &String, group_id: u32) -> (verdict: Result<usize, Error>)
        requires
            self@.indexed(),
        ensures
            match verdict {
                Ok(at) => self@.leave_check(caller@, group_id) is Ok && at
                    == self@.profiles.index_of(caller@),
                Err(error) => self@.leave_check(caller@, group_id) == Err::<(), Error>(error),
            },
    {
        match self.profiles.position(caller) {
            None => Err(Error::ProfileNotFound),
            Some(at) => {
                proof {
                    self@.profiles.lemma_index_of(caller@);
                }
                if group_id as usize >= self.groups.len() {
                    Err(Error::GroupNotFound)
                } else if !(self.profiles.value_at(at).is_group_member(&group_id)
                    && self.groups[group_id as usize].is_member(caller)) {
                    Err(Error::NotMember)
                } else {
                    Ok(at)
                }
            },
        }
    }

    /// Lets `caller` leave the group.
    ///
    /// The leave is refused with `ProfileNotFound` if the caller has no
    /// profile, else with `GroupNotFound` if there is no such group, else with
    /// `NotMember` unless both the profile lists the group and the group lists
    /// the caller. A refused leave changes nothing. An accepted one takes the
    /// caller out of the group and the group out of the caller's profile. The
    /// rewards are never touched: a bonus once paid stays paid.
    pub fn leave_group(&mut self, caller: &String, group_id: u32) -> (result: ResponseResult<()>)
        requires
            old(self)@.indexed(),
        ensures
            final(self)@ == old(self)@.after_leave(caller@, group_id),
            result == old(self)@.leave_outcome(caller@, group_id),
            old(self)@.wf() ==> final(self)@.wf(),
    {
        proof {
            if old(self)@.wf() {
                old(self)@.lemma_leave_wf(caller@, group_id);
            }
        }
        match self.check_leave(caller, group_id) {
            Err(error) => Err(error.to_generic()),
            Ok(at) => {
                let ghost before = self@;
                proof {
                    before.profiles.lemma_index_of(caller@);
                    before.profiles.lemma_position(at as int);
                }
                self.groups[group_id as usize].members.members.remove(caller);
                self.profiles.entries[at].1.remove_group(group_id);
                assert(self@.profiles.entries =~= before.profiles.put(
                    caller@,
                    before.profiles.get(caller@).remove_group(group_id),
                ).entries);
                assert(self@.groups =~= before.groups.update(
                    group_id as int,
                    before.group(group_id).remove_member(caller@),
                ));
                Ok(())
            },
        }
    }

    /// Hands out the next group identifier: the value of the counter, which
    /// then goes up by one. Nothing else changes.
    fn next_group_id(&mut self) -> (id: u32)
        requires
            old(self).group_id_counter < u32::MAX,
        ensures
            id == old(self).group_id_counter,
            final(self).group_id_counter == old(self).group_id_counter + 1,
            final(self).profiles == old(self).profiles,
            final(self).groups == old(self).groups,
            final(self).rewards == old(self).rewards,
    {
        let id: u32 = self.group_id_counter;
        self.group_id_counter += 1;
        id
    }

    /// Creates a group for `caller` at time `now`.
    ///
    /// A caller without a profile is refused with `ProfileNotFound`, and
    /// nothing changes: no identifier is used up. Otherwise the group is
    /// stored under the counter's value with the caller as its owner and only
    /// member, the caller's profile gains the group, the counter goes up by
    /// one, and the new group is returned.
    pub fn add_group_at(&mut self, caller: &String, now: u64, post_group: PostGroup) -> (result:
        ResponseResult<GroupResponse>)
        requires
            old(self)@.profiles.wf(),
            old(self)@.numbered(),
            old(self)@.add_group_fits(caller@),
        ensures
            final(self)@ == old(self)@.after_add_group(caller@, post_group@, now),
            outcome_of(result) == old(self)@.add_group_outcome(caller@, post_group@, now),
            old(self)@.wf() ==> final(self)@.wf(),
    {
        proof {
            if old(self)@.wf() {
                old(self)@.lemma_add_group_wf(caller@, post_group@, now);
            }
        }
        match self.profiles.position(caller) {
            None => Err(GenericError::ProfileNotFound),
            Some(at) => {
                let ghost before = self@;
                proof {
                    before.profiles.lemma_index_of(caller@);
                    before.profiles.lemma_position(at as int);
                }
                let group = GroupWithMembers::new(post_group, caller.clone(), now);
                let created = group.clone();
                let group_id = self.next_group_id();
                self.groups.push(group);
                self.profiles.entries[at].1.add_group(group_id);
                assert(self@.profiles.entries =~= before.profiles.put(
                    caller@,
                    before.profiles.get(caller@).add_group(group_id),
                ).entries);
                assert(self@.groups =~= before.groups.push(
                    GroupWithMembersView::created(post_group@, caller@, now),
                ));
                Ok(GroupResponse::new(group_id, created))
            },
        }
    }

    /// Creates a group for `caller` now. It is `add_group_at` for the time of
    /// the current block.
    pub fn add_group(&mut self, caller: &String, post_group: PostGroup) -> (result: ResponseResult<
        GroupResponse,
    >)
        requires
            old(self)@.profiles.wf(),
            old(self)@.numbered(),
            old(self)@.add_group_fits(caller@),
        ensures
            exists|now: u64|
                {
                    &&& final(self)@ == #[trigger] old(self)@.after_add_group(
                        caller@,
                        post_group@,
                        now,
                    )
                    &&& outcome_of(result) == old(self)@.add_group_outcome(
                        caller@,
                        post_group@,
                        now,
                    )
                },
            old(self)@.wf() ==> final(self)@.wf(),
    {
        let now = block_timestamp();
        self.add_group_at(caller, now, post_group)
    }

    /// Applies a partial update to the group at time `now` and returns the
    /// group as it then stands, or `GroupNotFound`. Owner, creator, members and
    /// the deletion flag are not touched, nor is any profile or reward.
    pub fn edit_group_at(&mut self, id: u32, update_group: UpdateGroup, now: u64) -> (result:
        ResponseResult<GroupResponse>)
        ensures
            final(self)@ == old(self)@.after_edit_group(id, update_group@, now),
            outcome_of(result) == old(self)@.edit_group_outcome(id, update_group@, now),
            old(self)@.wf() ==> final(self)@.wf(),
    {
        proof {
            if old(self)@.wf() {
                old(self)@.lemma_edit_group_wf(id, update_group@, now);
            }
        }
        if id as usize >= self.groups.len() {
            Err(GenericError::GroupNotFound)
        } else {
            let ghost before = self@;
            self.groups[id as usize].update_at(update_group, now);
            let edited = self.groups[id as usize].clone();
            assert(self@.groups =~= before.groups.update(
                id as int,
                before.group(id).updated(update_group@, now),
            ));
            Ok(GroupResponse::new(id, edited))
        }
    }

    /// Applies a partial update to the group now. It is `edit_group_at` for
    /// the time of the current block.
    pub fn edit_group(&mut self, id: u32, update_group: UpdateGroup) -> (result: ResponseResult<
        GroupResponse,
    >)
        ensures
            exists|now: u64|
                {
                    &&& final(self)@ == #[trigger] old(self)@.after_edit_group(id, update_group@, now)
                    &&& outcome_of(result) == old(self)@.edit_group_outcome(id, update_group@, now)
                },
            old(self)@.wf() ==> final(self)@.wf(),
    {
        let now = block_timestamp();
        self.edit_group_at(id, update_group, now)
    }
}

impl ContractView {
    /// The group under the identifier as it is handed to callers.
    pub open spec fn response(self, id: u32) -> GroupResponseView {
        GroupResponseView::of(id, self.group(id))
    }

    /// The group under the identifier, or `GroupNotFound`.
    pub open spec fn found_group(self, id: u32) -> Result<GroupResponseView, GenericError> {
        if self.has_group(id) {
            Ok(self.response(id))
        } else {
            Err(GenericError::GroupNotFound)
        }
    }

    /// The names of the groups in lower case, in the order of the groups.
    pub open spec fn folded_names(self) -> Seq<Seq<char>> {
        Seq::new(self.groups.len(), |i: int| lowercase_of(self.groups[i].name))
    }

    /// Where the page that starts at `index` and holds at most `limit` groups
    /// ends: at `index + limit`, or where the groups end.
    pub open spec fn page_end(self, index: u32, limit: u32) -> int {
        if index + limit < self.groups.len() {
            index + limit
        } else {
            self.groups.len() as int
        }
    }

    /// The groups from `index` on, at most `limit` of them, in the order in
    /// which they were created.
    pub open spec fn page(self, index: u32, limit: u32) -> Seq<GroupResponseView> {
        if index < self.groups.len() {
            Seq::new(
                (self.page_end(index, limit) - index) as nat,
                |k: int| self.response((index + k) as u32),
            )
        } else {
            Seq::empty()
        }
    }

    /// The identifiers under which a group is stored.
    pub open spec fn stored(self) -> spec_fn(u32) -> bool {
        |id: u32| self.has_group(id)
    }

    /// The group under each identifier as it is handed to callers.
    pub open spec fn described(self) -> spec_fn(u32) -> GroupResponseView {
        |id: u32| self.response(id)
    }

    /// The groups under those of `ids` that are in use, in the order of `ids`.
    pub open spec fn listed(self, ids: Seq<u32>) -> Seq<GroupResponseView> {
        ids.filter(self.stored()).map_values(self.described())
    }

    /// The members of the group with their roles, none for a missing group.
    pub open spec fn group_members(self, group_id: u32) -> Seq<(Seq<char>, ApplicationRole)> {
        if self.has_group(group_id) {
            self.group(group_id).members.entries
        } else {
            Seq::empty()
        }
    }

    /// The account with its role in the group, if the group exists and has
    /// the account as a member.
    pub open spec fn role_in_group(self, account: Seq<char>, group_id: u32) -> Option<
        (Seq<char>, ApplicationRole),
    > {
        if self.has_group(group_id) {
            self.group(group_id).member_with_role(account)
        } else {
            None
        }
    }
}

impl Contract {
    /// The group under the identifier, or `GroupNotFound`.
    pub fn get_group(&self, id: u32) -> (result: ResponseResult<GroupResponse>)
        ensures
            outcome_of(result) == self@.found_group(id),
    {
        if id as usize >= self.groups.len() {
            Err(GenericError::GroupNotFound)
        } else {
            Ok(GroupResponse::new(id, self.groups[id as usize].clone()))
        }
    }

    /// The first group, in the order of creation, whose name equals `name`
    /// when both are put in lower case, or `GroupNotFound` if there is none.
    pub fn get_group_by_name(&self, name: String) -> (result: ResponseResult<GroupResponse>)
        requires
            self@.groups.len() <= u32::MAX,
        ensures
            match result {
                Ok(group) => first_at(self@.folded_names(), lowercase_of(name@), group.id as int)
                    && group@ == self@.response(group.id),
                Err(error) => error == GenericError::GroupNotFound && !self@.folded_names().contains(
                    lowercase_of(name@),
                ),
            },
    {
        let mut folded: Vec<String> = Vec::new();
        let mut i: usize = 0;
        while i < self.groups.len()
            invariant
                i <= self.groups.len(),
                folded@.len() == i,
                forall|j: int| 0 <= j < i ==> folded@[j]@ == lowercase_of(self@.groups[j].name),
            decreases self.groups.len() - i,
        {
            folded.push(to_lowercase(&self.groups[i].name));
            i += 1;
        }
        assert(texts_of(folded@) =~= self@.folded_names());
        let wanted = to_lowercase(&name);
        match first_equal(&folded, &wanted) {
            Some(at) => {
                let id: u32 = at as u32;
                Ok(GroupResponse::new(id, self.groups[at].clone()))
            },
            None => {
                proof {
                    if self@.folded_names().contains(lowercase_of(name@)) {
                        let j = self@.folded_names().index_of(lowercase_of(name@));
                        assert(folded@[j]@ == wanted@);
                    }
                }
                Err(GenericError::GroupNotFound)
            },
        }
    }

    /// The groups from position `index` on, at most `limit` of them, in the
    /// order in which they were created.
    pub fn get_groups(&self, index: u32, limit: u32) -> (groups: Vec<GroupResponse>)
        requires
            self@.groups.len() <= u32::MAX,
        ensures
            views_of(groups@) == self@.page(index, limit),
    {
        let mut groups: Vec<GroupResponse> = Vec::new();
        let mut id: u32 = index;
        let mut taken: u32 = 0;
        while (id as usize) < self.groups.len() && taken < limit
            invariant
                self@.groups.len() <= u32::MAX,
                id == index + taken,
                taken <= limit,
                id <= self.groups.len() || taken == 0,
                groups@.len() == taken,
                forall|k: int| 0 <= k < taken ==> (#[trigger] groups@[k])@ == self@.response((index + k) as u32),
            decreases self.groups.len() - id,
        {
            groups.push(GroupResponse::new(id, self.groups[id as usize].clone()));
            id += 1;
            taken += 1;
        }
        assert(views_of(groups@) =~= self@.page(index, limit));
        groups
    }

    /// The groups under those of `ids` that are in use, in the order of
    /// `ids`. An identifier under which nothing is stored is passed over.
    pub fn get_groups_by_id(&self, ids: Vec<u32>) -> (groups: Vec<GroupResponse>)
        ensures
            views_of(groups@) == self@.listed(ids@),
    {
        let mut groups: Vec<GroupResponse> = Vec::new();
        let mut i: usize = 0;
        proof {
            lemma_filter_none(ids@, self@.stored());
            assert(views_of(groups@) =~= ids@.take(0).filter(self@.stored()).map_values(
                self@.described(),
            ));
        }
        while i < ids.len()
            invariant
                i <= ids.len(),
                views_of(groups@) == ids@.take(i as int).filter(self@.stored()).map_values(
                    self@.described(),
                ),
            decreases ids.len() - i,
        {
            let id: u32 = ids[i];
            proof {
                lemma_filter_next(ids@, self@.stored(), i as int);
            }
            let ghost before = views_of(groups@);
            if (id as usize) < self.groups.len() {
                groups.push(GroupResponse::new(id, self.groups[id as usize].clone()));
                assert(views_of(groups@) =~= before.push(self@.response(id)));
                assert(ids@.take(i + 1).filter(self@.stored()).map_values(self@.described())
                    =~= before.push(self@.response(id)));
            }
            i += 1;
        }
        assert(ids@.take(i as int) =~= ids@);
        groups
    }

    /// The groups that the account's profile lists, in the order in which
    /// they were joined; none for an account without a profile.
    pub fn get_user_groups(&self, account_id: String) -> (ids: Vec<u32>)
        requires
            self@.profiles.wf(),
        ensures
            ids@ == self@.user_groups(account_id@),
    {
        match self.profiles.get(&account_id) {
            Some(profile) => profile.get_group_ids(),
            None => Vec::new(),
        }
    }

    /// Whether the group exists and has the account among its members.
    pub fn is_user_in_group(&self, account_id: String, group_id: u32) -> (member: bool)
        requires
            self@.has_group(group_id) ==> self@.group(group_id).wf(),
        ensures
            member == self@.in_group(account_id@, group_id),
            self@.mirrored() ==> member == self@.lists_group(account_id@, group_id),
    {
        if group_id as usize >= self.groups.len() {
            false
        } else {
            assert(self@.has_group(group_id));
            self.groups[group_id as usize].is_member(&account_id)
        }
    }

    /// The members of the group with their roles, in the order in which they
    /// came in; none for a missing group.
    pub fn get_group_members(&self, group_id: u32) -> (members: Vec<(String, ApplicationRole)>)
        ensures
            entries_of(members@) == self@.group_members(group_id),
    {
        if group_id as usize >= self.groups.len() {
            let members: Vec<(String, ApplicationRole)> = Vec::new();
            assert(entries_of(members@) =~= Seq::empty());
            members
        } else {
            self.groups[group_id as usize].get_members_with_roles()
        }
    }

    /// The account with its role in the group, if the group exists and has
    /// the account as a member.
    pub fn get_user_role_in_group(&self, account_id: String, group_id: u32) -> (found: Option<
        (String, ApplicationRole),
    >)
        requires
            self@.has_group(group_id) ==> self@.group(group_id).wf(),
        ensures
            match found {
                Some((name, role)) => self@.role_in_group(account_id@, group_id) == Some(
                    (name@, role),
                ),
                None => self@.role_in_group(account_id@, group_id) is None,
            },
    {
        if group_id as usize >= self.groups.len() {
            None
        } else {
            assert(self@.has_group(group_id));
            self.groups[group_id as usize].get_member_with_role(&account_id)
        }
    }
}

} // verus!
