//! The profile of an account: the record, the inputs that create and change
//! it, and the form in which it is handed to callers.

use crate::host::block_timestamp;
use crate::models::application_role::ApplicationRole;
use crate::models::patch::{
    copy_tags, number_or_keep, or_keep, tags_of, tags_or_keep, text_is_given, text_of,
    text_or_keep,
};
use crate::views::lemma_filter_next;
use vstd::prelude::*;

verus! {

/// The profile that the contract keeps for one account.
#[derive(Debug)]
pub struct Profile {
    pub username: String,
    pub display_name: String,
    pub first_name: String,
    pub last_name: String,
    pub about: String,
    pub email: String,
    pub date_of_birth: u64,
    pub city: String,
    pub state_or_province: String,
    pub country: String,
    pub profile_image: String,
    pub banner_image: String,
    pub website: String,
    pub application_role: ApplicationRole,
    pub joined_groups: Vec<u32>,
    pub skills: Vec<u32>,
    pub interests: Vec<u32>,
    pub causes: Vec<u32>,
    pub extra: String,
    pub updated_on: u64,
    pub created_on: u64,
}

/// What a profile holds, as plain mathematical values.
pub struct ProfileView {
    pub username: Seq<char>,
    pub display_name: Seq<char>,
    pub first_name: Seq<char>,
    pub last_name: Seq<char>,
    pub about: Seq<char>,
    pub email: Seq<char>,
    pub date_of_birth: u64,
    pub city: Seq<char>,
    pub state_or_province: Seq<char>,
    pub country: Seq<char>,
    pub profile_image: Seq<char>,
    pub banner_image: Seq<char>,
    pub website: Seq<char>,
    pub application_role: ApplicationRole,
    pub joined_groups: Seq<u32>,
    pub skills: Seq<u32>,
    pub interests: Seq<u32>,
    pub causes: Seq<u32>,
    pub extra: Seq<char>,
    pub updated_on: u64,
    pub created_on: u64,
}

impl View for Profile {
    type V = ProfileView;

    open spec fn view(&self) -> ProfileView {
        ProfileView {
            username: self.username@,
            display_name: self.display_name@,
            first_name: self.first_name@,
            last_name: self.last_name@,
            about: self.about@,
            email: self.email@,
            date_of_birth: self.date_of_birth,
            city: self.city@,
            state_or_province: self.state_or_province@,
            country: self.country@,
            profile_image: self.profile_image@,
            banner_image: self.banner_image@,
            website: self.website@,
            application_role: self.application_role,
            joined_groups: self.joined_groups@,
            skills: self.skills@,
            interests: self.interests@,
            causes: self.causes@,
            extra: self.extra@,
            updated_on: self.updated_on,
            created_on: self.created_on,
        }
    }
}

/// What an account supplies to register. Everything else starts empty and is
/// filled in by later edits.
#[derive(Clone, Debug)]
pub struct PostProfile {
    pub username: String,
    pub display_name: String,
    pub first_name: String,
    pub last_name: String,
    pub extra: String,
}

/// A `PostProfile` as plain mathematical values.
pub struct PostProfileView {
    pub username: Seq<char>,
    pub display_name: Seq<char>,
    pub first_name: Seq<char>,
    pub last_name: Seq<char>,
    pub extra: Seq<char>,
}

impl View for PostProfile {
    type V = PostProfileView;

    open spec fn view(&self) -> PostProfileView {
        PostProfileView {
            username: self.username@,
            display_name: self.display_name@,
            first_name: self.first_name@,
            last_name: self.last_name@,
            extra: self.extra@,
        }
    }
}

/// A partial update of a profile: a field that is `None` is left as it is.
#[derive(Clone, Debug)]
pub struct UpdateProfile {
    pub display_name: Option<String>,
    pub first_name: Option<String>,
    pub last_name: Option<String>,
    pub about: Option<String>,
    pub email: Option<String>,
    pub date_of_birth: Option<u64>,
    pub city: Option<String>,
    pub state_or_province: Option<String>,
    pub country: Option<String>,
    pub profile_image: Option<String>,
    pub banner_image: Option<String>,
    pub skills: Option<Vec<u32>>,
    pub interests: Option<Vec<u32>>,
    pub causes: Option<Vec<u32>>,
    pub website: Option<String>,
    pub extra: Option<String>,
}

/// An `UpdateProfile` as plain mathematical values.
pub struct UpdateProfileView {
    pub display_name: Option<Seq<char>>,
    pub first_name: Option<Seq<char>>,
    pub last_name: Option<Seq<char>>,
    pub about: Option<Seq<char>>,
    pub email: Option<Seq<char>>,
    pub date_of_birth: Option<u64>,
    pub city: Option<Seq<char>>,
    pub state_or_province: Option<Seq<char>>,
    pub country: Option<Seq<char>>,
    pub profile_image: Option<Seq<char>>,
    pub banner_image: Option<Seq<char>>,
    pub skills: Option<Seq<u32>>,
    pub interests: Option<Seq<u32>>,
    pub causes: Option<Seq<u32>>,
    pub website: Option<Seq<char>>,
    pub extra: Option<Seq<char>>,
}

impl View for UpdateProfile {
    type V = UpdateProfileView;

    open spec fn view(&self) -> UpdateProfileView {
        UpdateProfileView {
            display_name: text_of(self.display_name),
            first_name: text_of(self.first_name),
            last_name: text_of(self.last_name),
            about: text_of(self.about),
            email: text_of(self.email),
            date_of_birth: self.date_of_birth,
            city: text_of(self.city),
            state_or_province: text_of(self.state_or_province),
            country: text_of(self.country),
            profile_image: text_of(self.profile_image),
            banner_image: text_of(self.banner_image),
            skills: tags_of(self.skills),
            interests: tags_of(self.interests),
            causes: tags_of(self.causes),
            website: text_of(self.website),
            extra: text_of(self.extra),
        }
    }
}

impl UpdateProfileView {
    /// The update that changes nothing.
    pub open spec fn nothing() -> Self {
        UpdateProfileView {
            display_name: None,
            first_name: None,
            last_name: None,
            about: None,
            email: None,
            date_of_birth: None,
            city: None,
            state_or_province: None,
            country: None,
            profile_image: None,
            banner_image: None,
            skills: None,
            interests: None,
            causes: None,
            website: None,
            extra: None,
        }
    }
}

/// The identifiers that differ from `group_id`.
pub open spec fn other_than(group_id: u32) -> spec_fn(u32) -> bool {
    |id: u32| id != group_id
}

/// What taking a group out of a list of identifiers does: the group is gone,
/// every other identifier stays, nothing comes in, and a list without
/// repetitions stays without repetitions.
pub proof fn lemma_without(ids: Seq<u32>, group_id: u32)
    ensures
        forall|id: u32| #[trigger]
            ids.filter(other_than(group_id)).contains(id) <==> id != group_id && ids.contains(id),
        ids.no_duplicates() ==> ids.filter(other_than(group_id)).no_duplicates(),
        !ids.contains(group_id) ==> ids.filter(other_than(group_id)) == ids,
    decreases ids.len(),
{
    reveal(Seq::filter);
    let other = other_than(group_id);
    let kept = ids.filter(other);
    if ids.len() == 0 {
        assert forall|id: u32| !#[trigger] kept.contains(id) by {}
    } else {
        let front = ids.drop_last();
        let last = ids.last();
        let kept_front = front.filter(other);
        lemma_without(front, group_id);
        assert(kept == if other(last) {
            kept_front.push(last)
        } else {
            kept_front
        });
        assert forall|id: u32| #[trigger]
            kept.contains(id) <==> id != group_id && ids.contains(id) by {
            if kept.contains(id) {
                let i = kept.index_of(id);
                if i < kept_front.len() {
                    assert(kept_front[i] == id);
                    assert(kept_front.contains(id));
                    let j = front.index_of(id);
                    assert(ids[j] == id);
                } else {
                    assert(id == last);
                    assert(ids[ids.len() - 1] == id);
                }
            }
            if id != group_id && ids.contains(id) {
                let j = ids.index_of(id);
                if j < front.len() {
                    assert(front[j] == id);
                    assert(front.contains(id));
                    assert(kept_front.contains(id));
                    let i = kept_front.index_of(id);
                    assert(kept[i] == id);
                } else {
                    assert(kept[kept.len() - 1] == id);
                }
            }
        }
        if ids.no_duplicates() {
            assert(front.no_duplicates());
            assert forall|i: int, j: int| 0 <= i < kept.len() && 0 <= j < kept.len() && i != j implies kept[i]
                != kept[j] by {
                if i < kept_front.len() && j < kept_front.len() {
                    assert(kept_front[i] != kept_front[j]);
                } else {
                    let k = if i < kept_front.len() {
                        i
                    } else {
                        j
                    };
                    assert(kept_front.contains(kept_front[k]));
                    let m = front.index_of(kept_front[k]);
                    assert(ids[m] != ids[ids.len() - 1]);
                }
            }
        }
        if !ids.contains(group_id) {
            assert(!front.contains(group_id)) by {
                if front.contains(group_id) {
                    let j = front.index_of(group_id);
                    assert(ids[j] == group_id);
                }
            }
            assert(ids[ids.len() - 1] != group_id);
            assert(kept =~= ids);
        }
    }
}

/// Number of interests from which the interests of a profile count as given.
pub const MIN_INTERESTS: usize = 3;

impl PostProfileView {
    /// The registration that gives nothing.
    pub open spec fn nothing() -> Self {
        PostProfileView {
            username: Seq::empty(),
            display_name: Seq::empty(),
            first_name: Seq::empty(),
            last_name: Seq::empty(),
            extra: Seq::empty(),
        }
    }
}

impl ProfileView {
    /// The profile in which nothing is given: every text and list empty,
    /// every number 0, the role of a member.
    pub open spec fn empty() -> Self {
        ProfileView::created(PostProfileView::nothing(), 0)
    }

    /// The profile of a newly registered account.
    pub open spec fn created(post: PostProfileView, now: u64) -> Self {
        ProfileView {
            username: post.username,
            display_name: post.display_name,
            first_name: post.first_name,
            last_name: post.last_name,
            about: Seq::empty(),
            email: Seq::empty(),
            date_of_birth: 0,
            city: Seq::empty(),
            state_or_province: Seq::empty(),
            country: Seq::empty(),
            profile_image: Seq::empty(),
            banner_image: Seq::empty(),
            website: Seq::empty(),
            application_role: ApplicationRole::Member,
            joined_groups: Seq::empty(),
            skills: Seq::empty(),
            interests: Seq::empty(),
            causes: Seq::empty(),
            extra: post.extra,
            updated_on: now,
            created_on: now,
        }
    }

    /// The profile after a partial update at time `now`. The user name, the
    /// role, the joined groups and the time of creation never change.
    pub open spec fn updated(self, patch: UpdateProfileView, now: u64) -> Self {
        ProfileView {
            username: self.username,
            display_name: or_keep(patch.display_name, self.display_name),
            first_name: or_keep(patch.first_name, self.first_name),
            last_name: or_keep(patch.last_name, self.last_name),
            about: or_keep(patch.about, self.about),
            email: or_keep(patch.email, self.email),
            date_of_birth: or_keep(patch.date_of_birth, self.date_of_birth),
            city: or_keep(patch.city, self.city),
            state_or_province: or_keep(patch.state_or_province, self.state_or_province),
            country: or_keep(patch.country, self.country),
            profile_image: or_keep(patch.profile_image, self.profile_image),
            banner_image: or_keep(patch.banner_image, self.banner_image),
            website: or_keep(patch.website, self.website),
            application_role: self.application_role,
            joined_groups: self.joined_groups,
            skills: or_keep(patch.skills, self.skills),
            interests: or_keep(patch.interests, self.interests),
            causes: or_keep(patch.causes, self.causes),
            extra: or_keep(patch.extra, self.extra),
            updated_on: now,
            created_on: self.created_on,
        }
    }

    /// The group is among the joined groups.
    pub open spec fn in_group(self, group_id: u32) -> bool {
        self.joined_groups.contains(group_id)
    }

    /// The profile with the group added at the end of the joined groups,
    /// unless it is among them already.
    pub open spec fn add_group(self, group_id: u32) -> Self {
        if self.in_group(group_id) {
            self
        } else {
            ProfileView { joined_groups: self.joined_groups.push(group_id), ..self }
        }
    }

    /// The profile with every occurrence of the group taken out of the joined
    /// groups; the others keep their order.
    pub open spec fn remove_group(self, group_id: u32) -> Self {
        ProfileView { joined_groups: self.joined_groups.filter(other_than(group_id)), ..self }
    }

    /// Every required field is given: both names, email, country, about, both
    /// images, and enough interests.
    pub open spec fn is_filled(self) -> bool {
        &&& self.first_name.len() > 0
        &&& self.last_name.len() > 0
        &&& self.email.len() > 0
        &&& self.country.len() > 0
        &&& self.about.len() > 0
        &&& self.profile_image.len() > 0
        &&& self.banner_image.len() > 0
        &&& self.interests.len() >= MIN_INTERESTS
    }

    /// How complete the profile is, out of 100: 20 to begin with and 10 for
    /// each of the eight criteria of `is_filled` that is met.
    pub open spec fn completion(self) -> int {
        20 + (if self.first_name.len() > 0 {
            10int
        } else {
            0
        }) + (if self.last_name.len() > 0 {
            10int
        } else {
            0
        }) + (if self.email.len() > 0 {
            10int
        } else {
            0
        }) + (if self.country.len() > 0 {
            10int
        } else {
            0
        }) + (if self.about.len() > 0 {
            10int
        } else {
            0
        }) + (if self.profile_image.len() > 0 {
            10int
        } else {
            0
        }) + (if self.banner_image.len() > 0 {
            10int
        } else {
            0
        }) + (if self.interests.len() >= MIN_INTERESTS {
            10int
        } else {
            0
        })
    }
}

impl Clone for Profile {
    fn clone(&self) -> (copy: Self)
        ensures
            copy@ == self@,
    {
        Profile {
            username: self.username.clone(),
            display_name: self.display_name.clone(),
            first_name: self.first_name.clone(),
            last_name: self.last_name.clone(),
            about: self.about.clone(),
            email: self.email.clone(),
            date_of_birth: self.date_of_birth,
            city: self.city.clone(),
            state_or_province: self.state_or_province.clone(),
            country: self.country.clone(),
            profile_image: self.profile_image.clone(),
            banner_image: self.banner_image.clone(),
            website: self.website.clone(),
            application_role: self.application_role,
            joined_groups: copy_tags(&self.joined_groups),
            skills: copy_tags(&self.skills),
            interests: copy_tags(&self.interests),
            causes: copy_tags(&self.causes),
            extra: self.extra.clone(),
            updated_on: self.updated_on,
            created_on: self.created_on,
        }
    }
}

impl Default for Profile {
    fn default() -> (profile: Self)
        ensures
            profile@ == ProfileView::empty(),
    {
        Profile::new(
            PostProfile {
                username: String::new(),
                display_name: String::new(),
                first_name: String::new(),
                last_name: String::new(),
                extra: String::new(),
            },
            0,
        )
    }
}

impl From<PostProfile> for Profile {
    /// The profile of an account that registers now, by the time of the
    /// current block.
    fn from(profile: PostProfile) -> (created: Self)
        ensures
            created@ == ProfileView::created(profile@, created@.created_on),
    {
        Profile::new(profile, block_timestamp())
    }
}

impl vstd::std_specs::convert::FromSpecImpl<PostProfile> for Profile {
    /// The conversion reads the time, so its result is no function of its
    /// argument.
    open spec fn obeys_from_spec() -> bool {
        false
    }

    open spec fn from_spec(profile: PostProfile) -> Self {
        arbitrary()
    }
}

impl Profile {
    /// The profile of an account that registers at time `now`: the names
    /// and the extra text as given, the role of a member, no groups, no tags,
    /// every other field empty.
    pub fn new(profile: PostProfile, now: u64) -> (created: Self)
        ensures
            created@ == ProfileView::created(profile@, now),
    {
        Profile {
            username: profile.username,
            display_name: profile.display_name,
            first_name: profile.first_name,
            last_name: profile.last_name,
            about: String::new(),
            email: String::new(),
            date_of_birth: 0,
            city: String::new(),
            state_or_province: String::new(),
            country: String::new(),
            profile_image: String::new(),
            banner_image: String::new(),
            website: String::new(),
            application_role: ApplicationRole::Member,
            joined_groups: Vec::new(),
            skills: Vec::new(),
            interests: Vec::new(),
            causes: Vec::new(),
            extra: profile.extra,
            updated_on: now,
            created_on: now,
        }
    }

    /// Records the group as joined. A group that is recorded already is not
    /// recorded a second time.
    pub fn add_group(&mut self, group_id: u32)
        ensures
            final(self)@ == old(self)@.add_group(group_id),
    {
        if !self.is_group_member(&group_id) {
            self.joined_groups.push(group_id);
        }
    }

    /// Takes every occurrence of the group out of the joined groups.
    pub fn remove_group(&mut self, group_id: u32)
        ensures
            final(self)@ == old(self)@.remove_group(group_id),
            !final(self)@.in_group(group_id),
    {
        let ghost before = self.joined_groups@;
        let ghost other = other_than(group_id);
        let mut kept: Vec<u32> = Vec::new();
        let mut i: usize = 0;
        proof {
            reveal(Seq::filter);
            assert(before.take(0).filter(other) =~= Seq::<u32>::empty());
        }
        while i < self.joined_groups.len()
            invariant
                self.joined_groups@ == before,
                other == other_than(group_id),
                i <= before.len(),
                kept@ == before.take(i as int).filter(other),
            decreases before.len() - i,
        {
            let id: u32 = self.joined_groups[i];
            proof {
                lemma_filter_next(before, other, i as int);
            }
            if id != group_id {
                kept.push(id);
            }
            i += 1;
        }
        proof {
            assert(before.take(i as int) =~= before);
            if kept@.contains(group_id) {
                let at = kept@.index_of(group_id);
                before.lemma_filter_pred(other, at);
            }
        }
        self.joined_groups = kept;
    }

    /// Whether the group is among the joined groups.
    pub fn is_group_member(&self, group_id: &u32) -> (member: bool)
        ensures
            member == self@.in_group(*group_id),
    {
        let mut i: usize = 0;
        while i < self.joined_groups.len()
            invariant
                i <= self.joined_groups.len(),
                forall|j: int| 0 <= j < i ==> self.joined_groups@[j] != *group_id,
            decreases self.joined_groups.len() - i,
        {
            if self.joined_groups[i] == *group_id {
                return true;
            }
            i += 1;
        }
        false
    }

    /// The joined groups, in the order in which they were joined.
    pub fn get_group_ids(&self) -> (ids: Vec<u32>)
        ensures
            ids@ == self@.joined_groups,
    {
        copy_tags(&self.joined_groups)
    }

    /// The profile after a partial update at time `now`: a field that the
    /// update gives is overwritten, any other is kept. The user name, the role,
    /// the joined groups and the time of creation are never touched.
    pub fn update_at(&self, profile: UpdateProfile, now: u64) -> (updated: Self)
        ensures
            updated@ == self@.updated(profile@, now),
    {
        Profile {
            username: self.username.clone(),
            display_name: text_or_keep(profile.display_name, &self.display_name),
            first_name: text_or_keep(profile.first_name, &self.first_name),
            last_name: text_or_keep(profile.last_name, &self.last_name),
            about: text_or_keep(profile.about, &self.about),
            email: text_or_keep(profile.email, &self.email),
            date_of_birth: number_or_keep(profile.date_of_birth, self.date_of_birth),
            city: text_or_keep(profile.city, &self.city),
            state_or_province: text_or_keep(profile.state_or_province, &self.state_or_province),
            country: text_or_keep(profile.country, &self.country),
            profile_image: text_or_keep(profile.profile_image, &self.profile_image),
            banner_image: text_or_keep(profile.banner_image, &self.banner_image),
            website: text_or_keep(profile.website, &self.website),
            application_role: self.application_role,
            joined_groups: copy_tags(&self.joined_groups),
            skills: tags_or_keep(profile.skills, &self.skills),
            interests: tags_or_keep(profile.interests, &self.interests),
            causes: tags_or_keep(profile.causes, &self.causes),
            extra: text_or_keep(profile.extra, &self.extra),
            updated_on: now,
            created_on: self.created_on,
        }
    }

    /// The profile after a partial update now: `update_at` for the time of
    /// the current block, which the result shows as the time of its last
    /// update.
    pub fn update(&self, profile: UpdateProfile) -> (updated: Self)
        ensures
            updated@ == self@.updated(profile@, updated@.updated_on),
    {
        self.update_at(profile, block_timestamp())
    }

    /// Whether every required field would be given after the update: for each
    /// of them, whether the update gives a value that is not empty or, where
    /// the update leaves it out, the profile has one.
    pub fn would_be_filled(&self, profile: &UpdateProfile) -> (filled: bool)
        ensures
            forall|now: u64| filled == #[trigger] self@.updated(profile@, now).is_filled(),
    {
        text_is_given(&profile.first_name, &self.first_name) && text_is_given(
            &profile.last_name,
            &self.last_name,
        ) && text_is_given(&profile.email, &self.email) && text_is_given(
            &profile.country,
            &self.country,
        ) && text_is_given(&profile.about, &self.about) && text_is_given(
            &profile.profile_image,
            &self.profile_image,
        ) && text_is_given(&profile.banner_image, &self.banner_image) && (match &profile.interests {
            Some(interests) => interests.len() >= MIN_INTERESTS,
            None => self.interests.len() >= MIN_INTERESTS,
        })
    }

    /// Whether every required field is given. This, not the percentage,
    /// decides on the reward for a complete profile.
    pub fn is_filled(&self) -> (filled: bool)
        ensures
            filled == self@.is_filled(),
    {
        let is_string_content_filled = !self.first_name.as_str().is_empty()
            && !self.last_name.as_str().is_empty() && !self.email.as_str().is_empty()
            && !self.country.as_str().is_empty() && !self.about.as_str().is_empty();
        let is_images_filled = !self.profile_image.as_str().is_empty()
            && !self.banner_image.as_str().is_empty();
        let is_interests_filled = self.interests.len() >= MIN_INTERESTS;
        is_string_content_filled && is_images_filled && is_interests_filled
    }

    /// How complete the profile is, out of 100.
    pub fn get_profile_complete_percentage(&self) -> (percentage: u32)
        ensures
            percentage == self@.completion(),
            20 <= percentage <= 100,
            percentage == 100 <==> self@.is_filled(),
    {
        let mut percentage: u32 = 20;
        if !self.first_name.as_str().is_empty() {
            percentage += 10;
        }
        if !self.last_name.as_str().is_empty() {
            percentage += 10;
        }
        if !self.email.as_str().is_empty() {
            percentage += 10;
        }
        if !self.country.as_str().is_empty() {
            percentage += 10;
        }
        if !self.about.as_str().is_empty() {
            percentage += 10;
        }
        if !self.profile_image.as_str().is_empty() {
            percentage += 10;
        }
        if !self.banner_image.as_str().is_empty() {
            percentage += 10;
        }
        if self.interests.len() >= MIN_INTERESTS {
            percentage += 10;
        }
        percentage
    }
}

/// A profile as it is handed to callers: the account it belongs to and what
/// the profile says, without the joined groups.
#[derive(Clone, Debug)]
pub struct ProfileResponse {
    pub account_id: String,
    pub username: String,
    pub display_name: String,
    pub application_role: ApplicationRole,
    pub first_name: String,
    pub last_name: String,
    pub about: String,
    pub email: String,
    pub date_of_birth: u64,
    pub city: String,
    pub state_or_province: String,
    pub country: String,
    pub profile_image: String,
    pub banner_image: String,
    pub skills: Vec<u32>,
    pub interests: Vec<u32>,
    pub causes: Vec<u32>,
    pub website: String,
    pub extra: String,
    pub updated_on: u64,
    pub created_on: u64,
}

/// A `ProfileResponse` as plain mathematical values.
pub struct ProfileResponseView {
    pub account_id: Seq<char>,
    pub username: Seq<char>,
    pub display_name: Seq<char>,
    pub application_role: ApplicationRole,
    pub first_name: Seq<char>,
    pub last_name: Seq<char>,
    pub about: Seq<char>,
    pub email: Seq<char>,
    pub date_of_birth: u64,
    pub city: Seq<char>,
    pub state_or_province: Seq<char>,
    pub country: Seq<char>,
    pub profile_image: Seq<char>,
    pub banner_image: Seq<char>,
    pub skills: Seq<u32>,
    pub interests: Seq<u32>,
    pub causes: Seq<u32>,
    pub website: Seq<char>,
    pub extra: Seq<char>,
    pub updated_on: u64,
    pub created_on: u64,
}

impl View for ProfileResponse {
    type V = ProfileResponseView;

    open spec fn view(&self) -> ProfileResponseView {
        ProfileResponseView {
            account_id: self.account_id@,
            username: self.username@,
            display_name: self.display_name@,
            application_role: self.application_role,
            first_name: self.first_name@,
            last_name: self.last_name@,
            about: self.about@,
            email: self.email@,
            date_of_birth: self.date_of_birth,
            city: self.city@,
            state_or_province: self.state_or_province@,
            country: self.country@,
            profile_image: self.profile_image@,
            banner_image: self.banner_image@,
            skills: self.skills@,
            interests: self.interests@,
            causes: self.causes@,
            website: self.website@,
            extra: self.extra@,
            updated_on: self.updated_on,
            created_on: self.created_on,
        }
    }
}

impl ProfileResponseView {
    /// The response that describes the profile of `account_id`.
    pub open spec fn of(account_id: Seq<char>, profile: ProfileView) -> Self {
        ProfileResponseView {
            account_id: account_id,
            username: profile.username,
            display_name: profile.display_name,
            application_role: profile.application_role,
            first_name: profile.first_name,
            last_name: profile.last_name,
            about: profile.about,
            email: profile.email,
            date_of_birth: profile.date_of_birth,
            city: profile.city,
            state_or_province: profile.state_or_province,
            country: profile.country,
            profile_image: profile.profile_image,
            banner_image: profile.banner_image,
            skills: profile.skills,
            interests: profile.interests,
            causes: profile.causes,
            website: profile.website,
            extra: profile.extra,
            updated_on: profile.updated_on,
            created_on: profile.created_on,
        }
    }
}

impl ProfileResponse {
    /// The response that describes the profile of `account_id`.
    pub fn new(account_id: String, profile: Profile) -> (response: Self)
        ensures
            response@ == ProfileResponseView::of(account_id@, profile@),
    {
        ProfileResponse {
            account_id,
            username: profile.username,
            display_name: profile.display_name,
            application_role: profile.application_role,
            first_name: profile.first_name,
            last_name: profile.last_name,
            about: profile.about,
            email: profile.email,
            date_of_birth: profile.date_of_birth,
            city: profile.city,
            state_or_province: profile.state_or_province,
            country: profile.country,
            profile_image: profile.profile_image,
            banner_image: profile.banner_image,
            skills: profile.skills,
            interests: profile.interests,
            causes: profile.causes,
            website: profile.website,
            extra: profile.extra,
            updated_on: profile.updated_on,
            created_on: profile.created_on,
        }
    }
}

} // verus!
