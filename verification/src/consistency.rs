//! Checking a state of the contract at run time.
//!
//! An operation asks that no account is stored twice and that what it would
//! add to a counter or to an account's points fits; it works on any such state,
//! and it keeps a consistent state consistent. So a contract that is only ever
//! changed through its operations is consistent. A state from anywhere else,
//! such as one read back from storage, can be tested here before it is used:
//! the functions below decide exactly the conditions that the operations ask
//! for, and whether a state is consistent.

use crate::models::contract::Contract;
use crate::models::patch::has_no_duplicates;
use crate::models::profile::UpdateProfile;
use vstd::prelude::*;

verus! {

impl Contract {
    /// Whether every group lists each of its members once.
    fn groups_list_members_once(&self) -> (ok: bool)
        requires
            self.groups@.len() <= u32::MAX,
        ensures
            ok == (forall|group_id: u32| #[trigger]
                self@.has_group(group_id) ==> self@.group(group_id).wf()),
    {
        let mut i: usize = 0;
        while i < self.groups.len()
            invariant
                i <= self.groups.len() <= u32::MAX,
                forall|group_id: u32|
                    group_id < i ==> #[trigger] self@.has_group(group_id) && self@.group(
                        group_id,
                    ).wf(),
            decreases self.groups.len() - i,
        {
            if !self.groups[i].members.members.has_distinct_keys() {
                assert(self@.has_group(i as u32) && !self@.group(i as u32).wf());
                return false;
            }
            i += 1;
        }
        true
    }

    /// Whether no profile lists a group twice.
    fn profiles_list_groups_once(&self) -> (ok: bool)
        requires
            self@.profiles.wf(),
        ensures
            ok == (forall|account: Seq<char>| #[trigger]
                self@.profiles.has(account) ==> self@.profiles.get(
                    account,
                ).joined_groups.no_duplicates()),
    {
        let mut i: usize = 0;
        while i < self.profiles.len()
            invariant
                self@.profiles.wf(),
                i <= self@.profiles.len(),
                forall|k: int|
                    0 <= k < i ==> (#[trigger] self@.profiles.entries[k]).1.joined_groups.no_duplicates(),
            decreases self@.profiles.len() - i,
        {
            if !has_no_duplicates(&self.profiles.value_at(i).joined_groups) {
                proof {
                    self@.profiles.lemma_position(i as int);
                }
                return false;
            }
            i += 1;
        }
        proof {
            assert forall|account: Seq<char>| #[trigger]
                self@.profiles.has(account) implies self@.profiles.get(
                account,
            ).joined_groups.no_duplicates() by {
                self@.profiles.lemma_index_of(account);
                let k = self@.profiles.index_of(account);
                assert(self@.profiles.entries[k].1.joined_groups.no_duplicates());
            }
        }
        true
    }

    /// Whether every reward record holds the points of the bonuses it records.
    fn rewards_add_up(&self) -> (ok: bool)
        requires
            self@.rewards.wf(),
        ensures
            ok == (forall|account: Seq<char>| #[trigger]
                self@.rewards.has(account) ==> self@.rewards.get(account).wf()),
    {
        let mut i: usize = 0;
        while i < self.rewards.len()
            invariant
                self@.rewards.wf(),
                i <= self@.rewards.len(),
                forall|k: int| 0 <= k < i ==> (#[trigger] self@.rewards.entries[k]).1.wf(),
            decreases self@.rewards.len() - i,
        {
            if !self.rewards.value_at(i).is_consistent() {
                proof {
                    self@.rewards.lemma_position(i as int);
                }
                return false;
            }
            i += 1;
        }
        proof {
            assert forall|account: Seq<char>| #[trigger]
                self@.rewards.has(account) implies self@.rewards.get(account).wf() by {
                self@.rewards.lemma_index_of(account);
                let k = self@.rewards.index_of(account);
                assert(self@.rewards.entries[k].1.wf());
            }
        }
        true
    }

    /// Whether every group that a profile lists exists and has the account as
    /// a member.
    fn profiles_agree_with_groups(&self) -> (ok: bool)
        requires
            self@.indexed(),
        ensures
            ok == (forall|account: Seq<char>, group_id: u32| #[trigger]
                self@.lists_group(account, group_id) ==> self@.in_group(account, group_id)),
    {
        let mut i: usize = 0;
        while i < self.profiles.len()
            invariant
                self@.indexed(),
                i <= self@.profiles.len(),
                forall|k: int, group_id: u32|
                    0 <= k < i && (#[trigger] self@.profiles.entries[k]).1.joined_groups.contains(
                        group_id,
                    ) ==> #[trigger] self@.in_group(self@.profiles.entries[k].0, group_id),
            decreases self@.profiles.len() - i,
        {
            let account = self.profiles.key_at(i);
            let profile = self.profiles.value_at(i);
            let mut j: usize = 0;
            while j < profile.joined_groups.len()
                invariant
                    self@.indexed(),
                    i < self@.profiles.len(),
                    account@ == self@.profiles.entries[i as int].0,
                    profile@ == self@.profiles.entries[i as int].1,
                    j <= profile.joined_groups.len(),
                    forall|m: int|
                        0 <= m < j ==> #[trigger] self@.in_group(
                            account@,
                            profile@.joined_groups[m],
                        ),
                decreases profile.joined_groups.len() - j,
            {
                let group_id: u32 = profile.joined_groups[j];
                let member = if group_id as usize >= self.groups.len() {
                    false
                } else {
                    assert(self@.has_group(group_id));
                    self.groups[group_id as usize].is_member(account)
                };
                if !member {
                    proof {
                        self@.profiles.lemma_position(i as int);
                        assert(profile@.joined_groups[j as int] == group_id);
                        assert(self@.lists_group(account@, group_id));
                        assert(!self@.in_group(account@, group_id));
                    }
                    return false;
                }
                j += 1;
            }
            proof {
                assert forall|group_id: u32|
                    profile@.joined_groups.contains(group_id) implies #[trigger] self@.in_group(
                    account@,
                    group_id,
                ) by {
                    let m = profile@.joined_groups.index_of(group_id);
                    assert(self@.in_group(account@, profile@.joined_groups[m]));
                }
            }
            i += 1;
        }
        proof {
            assert forall|account: Seq<char>, group_id: u32| #[trigger]
                self@.lists_group(account, group_id) implies self@.in_group(account, group_id) by {
                self@.profiles.lemma_index_of(account);
                let k = self@.profiles.index_of(account);
                assert(self@.profiles.entries[k].1.joined_groups.contains(group_id));
            }
        }
        true
    }

    /// Whether every member of a group has a profile that lists the group.
    fn groups_agree_with_profiles(&self) -> (ok: bool)
        requires
            self@.indexed(),
            self.groups@.len() <= u32::MAX,
        ensures
            ok == (forall|account: Seq<char>, group_id: u32| #[trigger]
                self@.in_group(account, group_id) ==> self@.lists_group(account, group_id)),
    {
        let mut id: u32 = 0;
        while (id as usize) < self.groups.len()
            invariant
                self@.indexed(),
                id <= self.groups@.len() <= u32::MAX,
                forall|account: Seq<char>, group_id: u32|
                    group_id < id && #[trigger] self@.in_group(account, group_id)
                        ==> self@.lists_group(account, group_id),
            decreases self.groups@.len() - id,
        {
            assert(self@.has_group(id));
            let members = &self.groups[id as usize].members.members;
            let mut k: usize = 0;
            while k < members.len()
                invariant
                    self@.indexed(),
                    self@.has_group(id),
                    members@ == self@.group(id).members,
                    k <= members@.len(),
                    forall|m: int|
                        0 <= m < k ==> #[trigger] self@.lists_group(members@.entries[m].0, id),
                decreases members@.len() - k,
            {
                let account = members.key_at(k);
                let listed = match self.profiles.get(account) {
                    Some(profile) => profile.is_group_member(&id),
                    None => false,
                };
                if !listed {
                    proof {
                        members@.lemma_position(k as int);
                        assert(self@.in_group(account@, id));
                        assert(!self@.lists_group(account@, id));
                    }
                    return false;
                }
                k += 1;
            }
            proof {
                assert forall|account: Seq<char>| #[trigger]
                    self@.in_group(account, id) implies self@.lists_group(account, id) by {
                    members@.lemma_index_of(account);
                    let m = members@.index_of(account);
                    assert(self@.lists_group(members@.entries[m].0, id));
                }
            }
            id += 1;
        }
        true
    }

    /// Whether every account has at most one profile and at most one reward
    /// record, every group lists each of its members once, and the counter is
    /// the number of groups. This is all that the operations and the queries
    /// ask of a state; whether its two records of membership agree is another
    /// matter, told by `is_consistent`.
    pub fn is_indexed(&self) -> (indexed: bool)
        ensures
            indexed == (self@.indexed() && self@.rewards.wf() && self@.numbered()),
    {
        if !self.profiles.has_distinct_keys() || !self.rewards.has_distinct_keys() {
            return false;
        }
        if self.groups.len() > u32::MAX as usize || self.groups.len() != self.group_id_counter as usize {
            return false;
        }
        self.groups_list_members_once()
    }

    /// Whether the state is consistent: whether it is one that the operations
    /// of the contract keep consistent and could have produced.
    pub fn is_consistent(&self) -> (consistent: bool)
        ensures
            consistent == self@.wf(),
    {
        if !self.profiles.has_distinct_keys() || !self.rewards.has_distinct_keys() {
            return false;
        }
        if self.groups.len() > u32::MAX as usize || self.groups.len() != self.group_id_counter as usize {
            return false;
        }
        if !self.groups_list_members_once() {
            return false;
        }
        if !self.profiles_list_groups_once() || !self.rewards_add_up() {
            return false;
        }
        let one_way = self.profiles_agree_with_groups();
        let other_way = self.groups_agree_with_profiles();
        proof {
            if one_way && other_way {
                assert forall|account: Seq<char>, group_id: u32|
                    self@.in_group(account, group_id) <==> self@.lists_group(account, group_id) by {}
            }
            if self@.mirrored() {
                assert forall|account: Seq<char>, group_id: u32| #[trigger]
                    self@.lists_group(account, group_id) implies self@.in_group(
                    account,
                    group_id,
                ) by {}
                assert forall|account: Seq<char>, group_id: u32| #[trigger]
                    self@.in_group(account, group_id) implies self@.lists_group(
                    account,
                    group_id,
                ) by {}
            }
        }
        one_way && other_way
    }

    /// Whether a call of `caller` to add a group can be served: whether the
    /// counter has an identifier left for it.
    pub fn can_add_group(&self, caller: &String) -> (fits: bool)
        requires
            self@.profiles.wf(),
        ensures
            fits == self@.add_group_fits(caller@),
    {
        self.group_id_counter < u32::MAX || !self.profiles.contains_key(caller)
    }

    /// Whether a call of `caller` to join the group can be served: whether
    /// the join bonus, if the call would pay one, fits into the caller's
    /// points.
    pub fn can_join_group(&self, caller: &String, group_id: u32) -> (fits: bool)
        requires
            self@.indexed(),
            self@.rewards.wf(),
        ensures
            fits == self@.join_fits(caller@, group_id),
    {
        match self.check_join(caller, group_id) {
            Err(_) => true,
            Ok(_) => match self.rewards.get(caller) {
                Some(reward) => reward.can_join(group_id),
                None => true,
            },
        }
    }

    /// Whether a call of `caller` to edit their profile can be served:
    /// whether the completion bonus, if the call would pay one, fits into the
    /// caller's points.
    pub fn can_edit_profile(&self, caller: &String, update_profile: &UpdateProfile) -> (fits: bool)
        requires
            self@.profiles.wf(),
            self@.rewards.wf(),
        ensures
            fits == self@.edit_fits(caller@, update_profile@),
    {
        match self.profiles.get(caller) {
            None => true,
            Some(profile) => {
                if profile.would_be_filled(update_profile) {
                    match self.rewards.get(caller) {
                        Some(reward) => reward.can_complete(),
                        None => true,
                    }
                } else {
                    true
                }
            },
        }
    }
}

} // verus!
