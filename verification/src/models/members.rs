//! The members of a group, each with a role.

use crate::account_map::{AccountMap, OrderedMap};
use crate::models::application_role::ApplicationRole;
use vstd::prelude::*;

verus! {

/// The members of one group, in the order in which they came in.
#[derive(Debug)]
pub struct Members {
    pub members: AccountMap<ApplicationRole>,
}

impl View for Members {
    type V = OrderedMap<ApplicationRole>;

    open spec fn view(&self) -> OrderedMap<ApplicationRole> {
        self.members@
    }
}

impl Default for Members {
    fn default() -> (members: Self)
        ensures
            members@ == OrderedMap::<ApplicationRole>::empty(),
            members@.wf(),
    {
        Members { members: AccountMap::new() }
    }
}

impl Clone for Members {
    fn clone(&self) -> (copy: Self)
        ensures
            copy@ == self@,
    {
        let mut entries: Vec<(String, ApplicationRole)> = Vec::new();
        let mut i: usize = 0;
        while i < self.members.entries.len()
            invariant
                i <= self.members.entries.len(),
                entries@.len() == i,
                forall|j: int|
                    0 <= j < i ==> (#[trigger] entries@[j]).0@ == self@.entries[j].0 && entries@[j].1
                        == self@.entries[j].1,
            decreases self.members.entries.len() - i,
        {
            let name = self.members.entries[i].0.clone();
            let role = self.members.entries[i].1;
            entries.push((name, role));
            i += 1;
        }
        let copy = Members { members: AccountMap { entries } };
        assert(copy@.entries =~= self@.entries);
        copy
    }
}

impl Members {
    /// The members of a new group: its owner, and nobody else.
    pub fn new_with_owner(owner: String) -> (members: Self)
        ensures
            members@ == OrderedMap::<ApplicationRole>::empty().put(owner@, ApplicationRole::Owner),
            members@.entries == seq![(owner@, ApplicationRole::Owner)],
            members@.wf(),
    {
        let mut members: AccountMap<ApplicationRole> = AccountMap::new();
        proof {
            OrderedMap::<ApplicationRole>::lemma_empty();
        }
        members.insert(owner, ApplicationRole::Owner);
        assert(members@.entries =~= seq![(owner@, ApplicationRole::Owner)]);
        Members { members }
    }

    /// Makes `new_owner` an owner: a member is promoted, anyone else comes in
    /// as an owner. The other members keep their roles. Returns `true`.
    pub fn set_owner(&mut self, new_owner: String) -> (done: bool)
        requires
            old(self)@.wf(),
        ensures
            done,
            final(self)@ == old(self)@.put(new_owner@, ApplicationRole::Owner),
            final(self)@.wf(),
    {
        self.members.insert(new_owner, ApplicationRole::Owner);
        true
    }

    /// Whether the account is a member.
    pub fn is_member(&self, member: &String) -> (found: bool)
        requires
            self@.wf(),
        ensures
            found == self@.has(member@),
    {
        self.members.contains_key(member)
    }
}

} // verus!
