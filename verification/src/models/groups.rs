//! A group with its members: the record, the inputs that create and change
//! it, and the form in which it is handed to callers.

use crate::account_map::OrderedMap;
use crate::host::block_timestamp;
use crate::models::application_role::ApplicationRole;
use crate::models::members::Members;
use crate::models::patch::{or_keep, tags_of, text_of, text_or_keep};
use crate::views::{entries_of, texts_of};
use vstd::prelude::*;

verus! {

/// The record that the contract keeps for one group.
#[derive(Debug)]
pub struct GroupWithMembers {
    pub name: String,
    pub description: String,
    pub website: String,
    pub image: String,
    pub banner_image: String,
    pub owner: String,
    pub created_by: String,
    pub members: Members,
    pub matrix_space_id: String,
    pub is_deleted: bool,
    pub updated_on: u64,
    pub created_on: u64,
}

/// What a group holds, as plain mathematical values.
pub struct GroupWithMembersView {
    pub name: Seq<char>,
    pub description: Seq<char>,
    pub website: Seq<char>,
    pub image: Seq<char>,
    pub banner_image: Seq<char>,
    pub owner: Seq<char>,
    pub created_by: Seq<char>,
    pub members: OrderedMap<ApplicationRole>,
    pub matrix_space_id: Seq<char>,
    pub is_deleted: bool,
    pub updated_on: u64,
    pub created_on: u64,
}

impl View for GroupWithMembers {
    type V = GroupWithMembersView;

    open spec fn view(&self) -> GroupWithMembersView {
        GroupWithMembersView {
            name: self.name@,
            description: self.description@,
            website: self.website@,
            image: self.image@,
            banner_image: self.banner_image@,
            owner: self.owner@,
            created_by: self.created_by@,
            members: self.members@,
            matrix_space_id: self.matrix_space_id@,
            is_deleted: self.is_deleted,
            updated_on: self.updated_on,
            created_on: self.created_on,
        }
    }
}

/// What an account supplies to create a group.
#[derive(Clone, Debug)]
pub struct PostGroup {
    pub name: String,
    pub description: String,
    pub website: String,
    pub matrix_space_id: String,
    pub image: String,
    pub banner_image: String,
    pub tags: Vec<u32>,
}

/// A `PostGroup` as plain mathematical values.
pub struct PostGroupView {
    pub name: Seq<char>,
    pub description: Seq<char>,
    pub website: Seq<char>,
    pub matrix_space_id: Seq<char>,
    pub image: Seq<char>,
    pub banner_image: Seq<char>,
    pub tags: Seq<u32>,
}

impl View for PostGroup {
    type V = PostGroupView;

    open spec fn view(&self) -> PostGroupView {
        PostGroupView {
            name: self.name@,
            description: self.description@,
            website: self.website@,
            matrix_space_id: self.matrix_space_id@,
            image: self.image@,
            banner_image: self.banner_image@,
            tags: self.tags@,
        }
    }
}

/// A partial update of a group: a field that is `None` is left as it is.
#[derive(Clone, Debug)]
pub struct UpdateGroup {
    pub name: Option<String>,
    pub description: Option<String>,
    pub website: Option<String>,
    pub image: Option<String>,
    pub banner_image: Option<String>,
    pub tags: Option<Vec<u32>>,
}

/// An `UpdateGroup` as plain mathematical values.
pub struct UpdateGroupView {
    pub name: Option<Seq<char>>,
    pub description: Option<Seq<char>>,
    pub website: Option<Seq<char>>,
    pub image: Option<Seq<char>>,
    pub banner_image: Option<Seq<char>>,
    pub tags: Option<Seq<u32>>,
}

impl View for UpdateGroup {
    type V = UpdateGroupView;

    open spec fn view(&self) -> UpdateGroupView {
        UpdateGroupView {
            name: text_of(self.name),
            description: text_of(self.description),
            website: text_of(self.website),
            image: text_of(self.image),
            banner_image: text_of(self.banner_image),
            tags: tags_of(self.tags),
        }
    }
}

impl GroupWithMembersView {
    /// No account is a member twice.
    pub open spec fn wf(self) -> bool {
        self.members.wf()
    }

    /// The account is a member.
    pub open spec fn has_member(self, account: Seq<char>) -> bool {
        self.members.has(account)
    }

    /// The group that `owner` creates at `now`: described as given, owned and
    /// created by `owner`, with `owner` as its only member, not deleted.
    pub open spec fn created(post: PostGroupView, owner: Seq<char>, now: u64) -> Self {
        GroupWithMembersView {
            name: post.name,
            description: post.description,
            website: post.website,
            image: post.image,
            banner_image: post.banner_image,
            owner: owner,
            created_by: owner,
            members: OrderedMap { entries: seq![(owner, ApplicationRole::Owner)] },
            matrix_space_id: post.matrix_space_id,
            is_deleted: false,
            updated_on: now,
            created_on: now,
        }
    }

    /// The group after a partial update at `now`. Only the five describing
    /// fields can change; owner, creator, members, the reference to the
    /// external space and the deletion flag stay.
    pub open spec fn updated(self, patch: UpdateGroupView, now: u64) -> Self {
        GroupWithMembersView {
            name: or_keep(patch.name, self.name),
            description: or_keep(patch.description, self.description),
            website: or_keep(patch.website, self.website),
            image: or_keep(patch.image, self.image),
            banner_image: or_keep(patch.banner_image, self.banner_image),
            updated_on: now,
            ..self
        }
    }

    /// The group with `owner` as its owner, and as a member in the role of an
    /// owner. Whoever owned it before keeps the role they had.
    pub open spec fn with_owner(self, owner: Seq<char>) -> Self {
        GroupWithMembersView {
            owner: owner,
            members: self.members.put(owner, ApplicationRole::Owner),
            ..self
        }
    }

    /// The group marked as deleted at `now`. Its members stay.
    pub open spec fn deleted(self, now: u64) -> Self {
        GroupWithMembersView { is_deleted: true, updated_on: now, ..self }
    }

    /// The group with `member` in the role of a plain member.
    pub open spec fn add_member(self, member: Seq<char>) -> Self {
        GroupWithMembersView {
            members: self.members.put(member, ApplicationRole::Member),
            ..self
        }
    }

    /// The group without `member`.
    pub open spec fn remove_member(self, member: Seq<char>) -> Self {
        GroupWithMembersView { members: self.members.remove(member), ..self }
    }

    /// The member with its role, if the account is a member.
    pub open spec fn member_with_role(self, member: Seq<char>) -> Option<
        (Seq<char>, ApplicationRole),
    > {
        if self.members.has(member) {
            Some((member, self.members.get(member)))
        } else {
            None
        }
    }
}

impl Clone for GroupWithMembers {
    fn clone(&self) -> (copy: Self)
        ensures
            copy@ == self@,
    {
        GroupWithMembers {
            name: self.name.clone(),
            description: self.description.clone(),
            website: self.website.clone(),
            image: self.image.clone(),
            banner_image: self.banner_image.clone(),
            owner: self.owner.clone(),
            created_by: self.created_by.clone(),
            members: self.members.clone(),
            matrix_space_id: self.matrix_space_id.clone(),
            is_deleted: self.is_deleted,
            updated_on: self.updated_on,
            created_on: self.created_on,
        }
    }
}

impl GroupWithMembers {
    /// The group that `owner` creates at `now`.
    pub fn new(group: PostGroup, owner: String, now: u64) -> (created: Self)
        ensures
            created@ == GroupWithMembersView::created(group@, owner@, now),
            created@.wf(),
    {
        let created_by = owner.clone();
        let members = Members::new_with_owner(owner.clone());
        GroupWithMembers {
            name: group.name,
            description: group.description,
            website: group.website,
            image: group.image,
            banner_image: group.banner_image,
            owner,
            created_by,
            members,
            matrix_space_id: group.matrix_space_id,
            is_deleted: false,
            updated_on: now,
            created_on: now,
        }
    }

    /// Applies a partial update at `now`: a describing field that the update
    /// gives is overwritten, everything else stays.
    pub fn update_at(&mut self, group: UpdateGroup, now: u64)
        ensures
            final(self)@ == old(self)@.updated(group@, now),
    {
        self.name = text_or_keep(group.name, &self.name);
        self.description = text_or_keep(group.description, &self.description);
        self.website = text_or_keep(group.website, &self.website);
        self.image = text_or_keep(group.image, &self.image);
        self.banner_image = text_or_keep(group.banner_image, &self.banner_image);
        self.updated_on = now;
    }

    /// Applies a partial update now: `update_at` for the time of the current
    /// block, which the group then shows as the time of its last update.
    pub fn update(&mut self, group: UpdateGroup)
        ensures
            final(self)@ == old(self)@.updated(group@, final(self)@.updated_on),
    {
        self.update_at(group, block_timestamp());
    }

    /// Hands the group to `owner`, who becomes a member in the role of an
    /// owner. Returns a copy of the group as it then stands.
    pub fn set_owner(&mut self, owner: String) -> (copy: Self)
        requires
            old(self)@.wf(),
        ensures
            final(self)@ == old(self)@.with_owner(owner@),
            final(self)@.wf(),
            copy@ == final(self)@,
    {
        self.owner = owner.clone();
        self.members.set_owner(owner);
        self.clone()
    }

    /// Marks the group as deleted at `now`. Returns a copy of the group as it
    /// then stands.
    pub fn delete_at(&mut self, now: u64) -> (copy: Self)
        ensures
            final(self)@ == old(self)@.deleted(now),
            copy@ == final(self)@,
    {
        self.is_deleted = true;
        self.updated_on = now;
        self.clone()
    }

    /// Marks the group as deleted now: `delete_at` for the time of the current
    /// block, which the group then shows as the time of its last update.
    pub fn delete(&mut self) -> (copy: Self)
        ensures
            final(self)@ == old(self)@.deleted(final(self)@.updated_on),
            copy@ == final(self)@,
    {
        self.delete_at(block_timestamp())
    }

    /// The members, in the order in which they came in.
    pub fn get_members(&self) -> (members: Vec<String>)
        ensures
            texts_of(members@) == self@.members.keys(),
    {
        self.members.members.keys()
    }

    /// Takes `member` out of the group. Returns a copy of the group as it then
    /// stands.
    pub fn remove_member(&mut self, member: String) -> (copy: Self)
        requires
            old(self)@.wf(),
        ensures
            final(self)@ == old(self)@.remove_member(member@),
            final(self)@.wf(),
            copy@ == final(self)@,
    {
        self.members.members.remove(&member);
        self.clone()
    }

    /// The member with its role, if the account is a member.
    pub fn get_member_with_role(&self, member: &String) -> (found: Option<
        (String, ApplicationRole),
    >)
        requires
            self@.wf(),
        ensures
            match found {
                Some((name, role)) => self@.member_with_role(member@) == Some((name@, role)),
                None => self@.member_with_role(member@) is None,
            },
    {
        match self.members.members.position(member) {
            Some(i) => {
                proof {
                    self@.members.lemma_index_of(member@);
                }
                let name = self.members.members.key_at(i).clone();
                let role = *self.members.members.value_at(i);
                Some((name, role))
            },
            None => None,
        }
    }

    /// Every member with its role, in the order in which they came in.
    pub fn get_members_with_roles(&self) -> (members: Vec<(String, ApplicationRole)>)
        ensures
            entries_of(members@) == self@.members.entries,
    {
        let mut members: Vec<(String, ApplicationRole)> = Vec::new();
        let mut i: usize = 0;
        while i < self.members.members.len()
            invariant
                i <= self@.members.len(),
                members@.len() == i,
                forall|j: int|
                    0 <= j < i ==> (#[trigger] members@[j]).0@ == self@.members.entries[j].0
                        && members@[j].1 == self@.members.entries[j].1,
            decreases self@.members.len() - i,
        {
            let name = self.members.members.key_at(i).clone();
            let role = *self.members.members.value_at(i);
            members.push((name, role));
            i += 1;
        }
        assert(entries_of(members@) =~= self@.members.entries);
        members
    }

    /// Takes `member` in as a plain member. Returns a copy of the group as it
    /// then stands.
    pub fn add_member(&mut self, member: String) -> (copy: Self)
        requires
            old(self)@.wf(),
        ensures
            final(self)@ == old(self)@.add_member(member@),
            final(self)@.wf(),
            copy@ == final(self)@,
    {
        self.members.members.insert(member, ApplicationRole::Member);
        self.clone()
    }

    /// Whether the account is a member.
    pub fn is_member(&self, member: &String) -> (found: bool)
        requires
            self@.wf(),
        ensures
            found == self@.has_member(member@),
    {
        self.members.is_member(member)
    }
}

/// A group as it is handed to callers: what describes it, and how many
/// members it has.
#[derive(Clone, Debug)]
pub struct GroupResponse {
    pub id: u32,
    pub name: String,
    pub description: String,
    pub website: String,
    pub created_by: String,
    pub owner: String,
    pub matrix_space_id: String,
    pub image: String,
    pub banner_image: String,
    pub is_deleted: bool,
    pub updated_on: u64,
    pub created_on: u64,
    pub members_count: u64,
}

/// A `GroupResponse` as plain mathematical values.
pub struct GroupResponseView {
    pub id: u32,
    pub name: Seq<char>,
    pub description: Seq<char>,
    pub website: Seq<char>,
    pub created_by: Seq<char>,
    pub owner: Seq<char>,
    pub matrix_space_id: Seq<char>,
    pub image: Seq<char>,
    pub banner_image: Seq<char>,
    pub is_deleted: bool,
    pub updated_on: u64,
    pub created_on: u64,
    pub members_count: u64,
}

impl View for GroupResponse {
    type V = GroupResponseView;

    open spec fn view(&self) -> GroupResponseView {
        GroupResponseView {
            id: self.id,
            name: self.name@,
            description: self.description@,
            website: self.website@,
            created_by: self.created_by@,
            owner: self.owner@,
            matrix_space_id: self.matrix_space_id@,
            image: self.image@,
            banner_image: self.banner_image@,
            is_deleted: self.is_deleted,
            updated_on: self.updated_on,
            created_on: self.created_on,
            members_count: self.members_count,
        }
    }
}

impl GroupResponseView {
    /// The response that describes `group`, stored under `id`.
    pub open spec fn of(id: u32, group: GroupWithMembersView) -> Self {
        GroupResponseView {
            id: id,
            name: group.name,
            description: group.description,
            website: group.website,
            created_by: group.created_by,
            owner: group.owner,
            matrix_space_id: group.matrix_space_id,
            image: group.image,
            banner_image: group.banner_image,
            is_deleted: group.is_deleted,
            updated_on: group.updated_on,
            created_on: group.created_on,
            members_count: group.members.len() as u64,
        }
    }
}

impl GroupResponse {
    /// The response that describes `group`, stored under `id`.
    pub fn new(id: u32, group: GroupWithMembers) -> (response: Self)
        ensures
            response@ == GroupResponseView::of(id, group@),
            response@.members_count == group@.members.len(),
    {
        let members_count = group.members.members.len() as u64;
        GroupResponse {
            id,
            name: group.name,
            description: group.description,
            website: group.website,
            created_by: group.created_by,
            owner: group.owner,
            matrix_space_id: group.matrix_space_id,
            image: group.image,
            banner_image: group.banner_image,
            is_deleted: group.is_deleted,
            updated_on: group.updated_on,
            created_on: group.created_on,
            members_count,
        }
    }
}

} // verus!
