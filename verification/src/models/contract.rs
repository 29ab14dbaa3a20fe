//! The state of the contract: profiles, groups, reward records and the
//! counter that numbers the groups, with the rules that tie them together.

use crate::account_map::{AccountMap, OrderedMap};
use crate::models::groups::{GroupWithMembers, GroupWithMembersView};
use crate::models::profile::{Profile, ProfileView};
use crate::models::rewards::{Rewards, RewardsView};
use crate::views::views_of;
use vstd::prelude::*;

verus! {

/// Everything the contract keeps. A group's identifier is its position in
/// `groups`, so groups are listed in the order in which they were created.
#[derive(Debug)]
pub struct Contract {
    pub profiles: AccountMap<Profile>,
    pub groups: Vec<GroupWithMembers>,
    pub rewards: AccountMap<Rewards>,
    pub group_id_counter: u32,
}

/// The state of the contract as plain mathematical values.
pub struct ContractView {
    pub profiles: OrderedMap<ProfileView>,
    pub groups: Seq<GroupWithMembersView>,
    pub rewards: OrderedMap<RewardsView>,
    pub group_id_counter: u32,
}

impl View for Contract {
    type V = ContractView;

    open spec fn view(&self) -> ContractView {
        ContractView {
            profiles: self.profiles@,
            groups: views_of(self.groups@),
            rewards: self.rewards@,
            group_id_counter: self.group_id_counter,
        }
    }
}

impl ContractView {
    /// The state of a contract that nobody has used yet.
    pub open spec fn initial() -> Self {
        ContractView {
            profiles: OrderedMap::empty(),
            groups: Seq::empty(),
            rewards: OrderedMap::empty(),
            group_id_counter: 0,
        }
    }

    /// The account has a profile.
    pub open spec fn has_profile(self, account: Seq<char>) -> bool {
        self.profiles.has(account)
    }

    /// A group is stored under the identifier.
    pub open spec fn has_group(self, group_id: u32) -> bool {
        group_id < self.groups.len()
    }

    /// The group stored under the identifier; meaningful where `has_group`.
    pub open spec fn group(self, group_id: u32) -> GroupWithMembersView {
        self.groups[group_id as int]
    }

    /// The group exists and has the account among its members.
    pub open spec fn in_group(self, account: Seq<char>, group_id: u32) -> bool {
        self.has_group(group_id) && self.group(group_id).has_member(account)
    }

    /// The account has a profile that lists the group as joined.
    pub open spec fn lists_group(self, account: Seq<char>, group_id: u32) -> bool {
        self.has_profile(account) && self.profiles.get(account).in_group(group_id)
    }

    /// The groups that the account's profile lists, none for an account
    /// without a profile.
    pub open spec fn user_groups(self, account: Seq<char>) -> Seq<u32> {
        if self.has_profile(account) {
            self.profiles.get(account).joined_groups
        } else {
            Seq::empty()
        }
    }

    /// The reward record of the account, or the record that it would start
    /// with at `now` if it has none yet.
    pub open spec fn reward_of(self, account: Seq<char>, now: u64) -> RewardsView {
        if self.rewards.has(account) {
            self.rewards.get(account)
        } else {
            RewardsView::fresh(now)
        }
    }

    /// The points of the account, 0 for an account without a reward record.
    pub open spec fn points_of(self, account: Seq<char>) -> u32 {
        self.reward_of(account, 0).points
    }

    /// The two records of membership agree: an account is a member of a
    /// group exactly if its profile lists the group.
    pub open spec fn mirrored(self) -> bool {
        forall|account: Seq<char>, group_id: u32|
            #![trigger self.in_group(account, group_id)]
            #![trigger self.lists_group(account, group_id)]
            self.in_group(account, group_id) <==> self.lists_group(account, group_id)
    }

    /// Every account has at most one profile, and every group lists each of its
    /// members once. This is what looking an account up takes; it says nothing
    /// of whether the two records of membership agree.
    pub open spec fn indexed(self) -> bool {
        &&& self.profiles.wf()
        &&& forall|group_id: u32| #[trigger]
            self.has_group(group_id) ==> self.group(group_id).wf()
    }

    /// The counter is the number of groups, so the identifier that the counter
    /// hands out next is the position of the next group.
    pub open spec fn numbered(self) -> bool {
        self.groups.len() == self.group_id_counter
    }

    /// The state is consistent: no account has two profiles or two reward
    /// records, the counter is the number of groups, no group has a member
    /// twice, no profile lists a group twice, every reward record holds the
    /// points of the bonuses it records, and the two records of membership
    /// agree.
    pub open spec fn wf(self) -> bool {
        &&& self.profiles.wf()
        &&& self.rewards.wf()
        &&& self.numbered()
        &&& forall|group_id: u32| #[trigger]
            self.has_group(group_id) ==> self.group(group_id).wf()
        &&& forall|account: Seq<char>| #[trigger]
            self.profiles.has(account) ==> self.profiles.get(account).joined_groups.no_duplicates()
        &&& forall|account: Seq<char>| #[trigger]
            self.rewards.has(account) ==> self.rewards.get(account).wf()
        &&& self.mirrored()
    }
}

impl Default for Contract {
    fn default() -> (contract: Self)
        ensures
            contract@ == ContractView::initial(),
            contract@.wf(),
    {
        let contract = Contract {
            profiles: AccountMap::new(),
            groups: Vec::new(),
            rewards: AccountMap::new(),
            group_id_counter: 0,
        };
        proof {
            assert(contract@.groups =~= Seq::empty());
            OrderedMap::<ProfileView>::lemma_empty();
            OrderedMap::<RewardsView>::lemma_empty();
        }
        contract
    }
}

impl Contract {
    /// A contract that nobody has used yet: no profiles, no groups, no
    /// rewards, and 0 as the next group identifier.
    pub fn new() -> (contract: Self)
        ensures
            contract@ == ContractView::initial(),
            contract@.wf(),
    {
        Contract::default()
    }
}

} // verus!
