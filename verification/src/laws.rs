//! What holds of the contract as a whole: the laws that tie the operations
//! together, proved over the model of the state.

use crate::account_map::OrderedMap;
use crate::error::GenericError;
use crate::models::contract::ContractView;
use crate::models::application_role::ApplicationRole;
use crate::models::groups::{GroupWithMembersView, PostGroupView, UpdateGroupView};
use crate::models::profile::{lemma_without, PostProfileView, ProfileView, UpdateProfileView};
use crate::models::rewards::{RewardsView, GROUP_JOIN_POINTS, PROFILE_COMPLETE_POINTS};
use vstd::prelude::*;

verus! {

/// One call of an operation that changes the state, with its arguments.
pub enum Operation {
    AddProfile { caller: Seq<char>, profile: PostProfileView, now: u64 },
    EditProfile { caller: Seq<char>, update: UpdateProfileView, now: u64 },
    AddGroup { caller: Seq<char>, group: PostGroupView, now: u64 },
    EditGroup { id: u32, group_update: UpdateGroupView, now: u64 },
    JoinGroup { caller: Seq<char>, group_id: u32, now: u64 },
    LeaveGroup { caller: Seq<char>, group_id: u32 },
}

impl ContractView {
    /// The call can be made in this state: what it would add to a counter or
    /// to an account's points fits.
    pub open spec fn admits(self, operation: Operation) -> bool {
        match operation {
            Operation::AddProfile { .. } => true,
            Operation::EditProfile { caller, update, .. } => self.edit_fits(caller, update),
            Operation::AddGroup { caller, .. } => self.add_group_fits(caller),
            Operation::EditGroup { .. } => true,
            Operation::JoinGroup { caller, group_id, .. } => self.join_fits(caller, group_id),
            Operation::LeaveGroup { .. } => true,
        }
    }

    /// The state after the call. A call that cannot be made is not made.
    pub open spec fn step(self, operation: Operation) -> Self {
        if !self.admits(operation) {
            self
        } else {
            match operation {
                Operation::AddProfile { caller, profile, now } => self.after_add_profile(
                    caller,
                    profile,
                    now,
                ),
                Operation::EditProfile { caller, update, now } => self.after_edit_profile(
                    caller,
                    update,
                    now,
                ),
                Operation::AddGroup { caller, group, now } => self.after_add_group(caller, group, now),
                Operation::EditGroup { id, group_update, now } => self.after_edit_group(
                    id,
                    group_update,
                    now,
                ),
                Operation::JoinGroup { caller, group_id, now } => self.after_join(
                    caller,
                    group_id,
                    now,
                ),
                Operation::LeaveGroup { caller, group_id } => self.after_leave(caller, group_id),
            }
        }
    }

    /// The call is refused: the caller is told an error.
    pub open spec fn refuses(self, operation: Operation) -> bool {
        match operation {
            Operation::AddProfile { caller, profile, now } => self.add_profile_outcome(
                caller,
                profile,
                now,
            ) is Err,
            Operation::EditProfile { caller, update, now } => self.edit_profile_outcome(
                caller,
                update,
                now,
            ) is Err,
            Operation::AddGroup { caller, group, now } => self.add_group_outcome(
                caller,
                group,
                now,
            ) is Err,
            Operation::EditGroup { id, group_update, now } => self.edit_group_outcome(
                id,
                group_update,
                now,
            ) is Err,
            Operation::JoinGroup { caller, group_id, now } => self.join_outcome(
                caller,
                group_id,
                now,
            ) is Err,
            Operation::LeaveGroup { caller, group_id } => self.leave_outcome(caller, group_id) is Err,
        }
    }

    /// The call creates a group: it is a call to add a group, it can be made,
    /// and it is accepted.
    pub open spec fn creates_group(self, operation: Operation) -> bool {
        match operation {
            Operation::AddGroup { caller, group, now } => self.admits(operation)
                && self.add_group_outcome(caller, group, now) is Ok,
            _ => false,
        }
    }

    /// The state after the calls, made one after the other.
    pub open spec fn run(self, operations: Seq<Operation>) -> Self
        decreases operations.len(),
    {
        if operations.len() == 0 {
            self
        } else {
            self.run(operations.drop_last()).step(operations.last())
        }
    }

    /// How many of the calls, made one after the other, create a group.
    pub open spec fn groups_created(self, operations: Seq<Operation>) -> nat
        decreases operations.len(),
    {
        if operations.len() == 0 {
            0
        } else {
            self.groups_created(operations.drop_last()) + if self.run(
                operations.drop_last(),
            ).creates_group(operations.last()) {
                1nat
            } else {
                0nat
            }
        }
    }
}

/// Every operation keeps a consistent state consistent.
pub proof fn law_step_keeps_consistency(state: ContractView, operation: Operation)
    requires
        state.wf(),
    ensures
        state.step(operation).wf(),
{
    if state.admits(operation) {
        match operation {
            Operation::AddProfile { caller, profile, now } => {
                state.lemma_add_profile_wf(caller, profile, now);
            },
            Operation::EditProfile { caller, update, now } => {
                state.lemma_edit_profile_wf(caller, update, now);
            },
            Operation::AddGroup { caller, group, now } => {
                state.lemma_add_group_wf(caller, group, now);
            },
            Operation::EditGroup { id, group_update, now } => {
                state.lemma_edit_group_wf(id, group_update, now);
            },
            Operation::JoinGroup { caller, group_id, now } => {
                state.lemma_join_wf(caller, group_id, now);
            },
            Operation::LeaveGroup { caller, group_id } => {
                state.lemma_leave_wf(caller, group_id);
            },
        }
    }
}

/// A call that is refused changes nothing: every operation validates before
/// it writes, so no part of a refused change is kept.
pub proof fn law_refused_call_changes_nothing(state: ContractView, operation: Operation)
    requires
        state.refuses(operation),
    ensures
        state.step(operation) == state,
{
}

/// Whatever calls are made on a new contract, in whatever order, the state
/// stays consistent.
pub proof fn law_consistency(operations: Seq<Operation>)
    ensures
        ContractView::initial().run(operations).wf(),
    decreases operations.len(),
{
    let initial = ContractView::initial();
    if operations.len() == 0 {
        OrderedMap::<ProfileView>::lemma_empty();
        OrderedMap::<RewardsView>::lemma_empty();
    } else {
        law_consistency(operations.drop_last());
        law_step_keeps_consistency(initial.run(operations.drop_last()), operations.last());
    }
}

/// The two records of membership agree after any sequence of calls on a new
/// contract: for every account and every group, the account is among the
/// group's members exactly if the group is among the groups that the
/// account's profile lists.
pub proof fn law_mirror(operations: Seq<Operation>, account: Seq<char>, group_id: u32)
    ensures
        ContractView::initial().run(operations).in_group(account, group_id)
            <==> ContractView::initial().run(operations).lists_group(account, group_id),
{
    law_consistency(operations);
    let state = ContractView::initial().run(operations);
    assert(state.in_group(account, group_id) <==> state.lists_group(account, group_id));
}

/// A group that a profile lists exists, and whoever is a member of a group
/// has a profile, in every consistent state.
pub proof fn law_membership_is_grounded(state: ContractView, account: Seq<char>, group_id: u32)
    requires
        state.wf(),
    ensures
        state.lists_group(account, group_id) ==> state.has_group(group_id),
        state.in_group(account, group_id) ==> state.has_profile(account),
        state.user_groups(account).contains(group_id) <==> state.in_group(account, group_id),
{
    assert(state.in_group(account, group_id) <==> state.lists_group(account, group_id));
    if !state.has_profile(account) {
        assert(!state.user_groups(account).contains(group_id));
    }
}

/// A join pays its bonus once for each account and group, however often the
/// account leaves and comes back: the first join adds the bonus unless it was
/// ever paid before, the leave is accepted and changes no points, the account
/// can join again, and joining again pays nothing.
pub proof fn law_rejoin_pays_nothing(
    state: ContractView,
    account: Seq<char>,
    group_id: u32,
    joined_at: u64,
    rejoined_at: u64,
)
    requires
        state.wf(),
        state.join_check(account, group_id) is Ok,
        state.join_fits(account, group_id),
    ensures
        ({
            let joined = state.after_join(account, group_id, joined_at);
            let left = joined.after_leave(account, group_id);
            let rejoined = left.after_join(account, group_id, rejoined_at);
            &&& joined.points_of(account) == state.points_of(account) + if state.reward_of(
                account,
                0,
            ).paid_for(group_id) {
                0
            } else {
                GROUP_JOIN_POINTS as int
            }
            &&& joined.leave_check(account, group_id) is Ok
            &&& left.rewards == joined.rewards
            &&& left.join_check(account, group_id) is Ok
            &&& left.join_fits(account, group_id)
            &&& rejoined.in_group(account, group_id)
            &&& rejoined.user_groups(account).contains(group_id)
            &&& rejoined.points_of(account) == joined.points_of(account)
        }),
{
    let joined = state.after_join(account, group_id, joined_at);
    let left = joined.after_leave(account, group_id);
    let rejoined = left.after_join(account, group_id, rejoined_at);
    let reward = state.reward_of(account, joined_at);
    let paid = reward.group_join(group_id, joined_at);
    state.lemma_join_wf(account, group_id, joined_at);
    state.profiles.lemma_put(account, state.profiles.get(account).add_group(group_id));
    state.rewards.lemma_put(account, paid);
    state.group(group_id).members.lemma_put(account, ApplicationRole::Member);
    assert(joined.in_group(account, group_id));
    assert(joined.lists_group(account, group_id));
    assert(paid.paid_for(group_id)) by {
        if !reward.paid_for(group_id) {
            assert(paid.actions.group_join_action_history.last() == group_id);
        }
    }
    joined.lemma_leave_wf(account, group_id);
    joined.profiles.lemma_put(account, joined.profiles.get(account).remove_group(group_id));
    joined.group(group_id).members.lemma_remove(account);
    lemma_without(joined.profiles.get(account).joined_groups, group_id);
    assert(!left.in_group(account, group_id));
    assert(!left.lists_group(account, group_id));
    assert(left.reward_of(account, 0).paid_for(group_id));
    left.lemma_join_wf(account, group_id, rejoined_at);
    let back = left.profiles.get(account).add_group(group_id);
    left.profiles.lemma_put(account, back);
    left.rewards.lemma_put(
        account,
        left.reward_of(account, rejoined_at).group_join(group_id, rejoined_at),
    );
    left.group(group_id).members.lemma_put(account, ApplicationRole::Member);
    assert(back.joined_groups.last() == group_id);
}

/// A join for which the bonus was paid before pays nothing, whatever happened
/// in between; and a leave never changes any reward.
pub proof fn law_join_bonus_is_paid_once(
    state: ContractView,
    account: Seq<char>,
    group_id: u32,
    now: u64,
)
    requires
        state.wf(),
        state.reward_of(account, 0).paid_for(group_id),
    ensures
        state.after_join(account, group_id, now).points_of(account) == state.points_of(account),
        state.after_join(account, group_id, now).reward_of(account, 0) == state.reward_of(
            account,
            0,
        ),
        state.after_leave(account, group_id).rewards == state.rewards,
{
    if state.join_check(account, group_id) is Ok {
        state.rewards.lemma_put(account, state.reward_of(account, now).group_join(group_id, now));
    }
}

/// The bonus for a complete profile is paid once for each account: an edit
/// that leaves the profile complete pays it unless it was ever paid, and then
/// the record shows it as paid; no edit after that, whether the profile is
/// still complete or not, changes the points.
pub proof fn law_completion_bonus_is_paid_once(
    state: ContractView,
    account: Seq<char>,
    first: UpdateProfileView,
    first_at: u64,
    second: UpdateProfileView,
    second_at: u64,
)
    requires
        state.wf(),
        state.edit_completes(account, first),
        state.edit_fits(account, first),
    ensures
        ({
            let completed = state.after_edit_profile(account, first, first_at);
            let again = completed.after_edit_profile(account, second, second_at);
            &&& completed.points_of(account) == state.points_of(account) + if state.reward_of(
                account,
                0,
            ).actions.profile_complete {
                0
            } else {
                PROFILE_COMPLETE_POINTS as int
            }
            &&& completed.reward_of(account, 0).actions.profile_complete
            &&& completed.edit_fits(account, second)
            &&& again.points_of(account) == completed.points_of(account)
            &&& again.reward_of(account, 0).actions.profile_complete
        }),
{
    let completed = state.after_edit_profile(account, first, first_at);
    let paid = state.reward_of(account, first_at).profile_complete(first_at);
    state.lemma_edit_profile_wf(account, first, first_at);
    state.profiles.lemma_put(account, state.edited_profile(account, first, first_at));
    state.rewards.lemma_put(account, paid);
    assert(completed.rewards.has(account));
    assert(completed.has_profile(account));
    if completed.edit_completes(account, second) {
        completed.rewards.lemma_put(
            account,
            completed.reward_of(account, second_at).profile_complete(second_at),
        );
    }
}

/// Group identifiers come from the counter alone. An accepted call to add a
/// group stores the group under the value of the counter, moves the counter
/// up by one and leaves every other group where it was; a refused call
/// changes nothing, so it uses up no identifier.
pub proof fn law_add_group_takes_next_identifier(
    state: ContractView,
    caller: Seq<char>,
    post: PostGroupView,
    now: u64,
)
    requires
        state.wf(),
        state.add_group_fits(caller),
    ensures
        match state.add_group_outcome(caller, post, now) {
            Ok(response) => {
                let after = state.after_add_group(caller, post, now);
                &&& response.id == state.group_id_counter
                &&& !state.has_group(response.id)
                &&& after.group_id_counter == state.group_id_counter + 1
                &&& after.has_group(response.id)
                &&& after.group(response.id) == GroupWithMembersView::created(post, caller, now)
                &&& after.groups.take(state.groups.len() as int) == state.groups
                &&& after.user_groups(caller) == state.user_groups(caller).push(response.id)
            },
            Err(error) => error == GenericError::ProfileNotFound && state.after_add_group(
                caller,
                post,
                now,
            ) == state,
        },
{
    if state.has_profile(caller) {
        let after = state.after_add_group(caller, post, now);
        state.lemma_add_group_wf(caller, post, now);
        state.profiles.lemma_put(
            caller,
            state.profiles.get(caller).add_group(state.group_id_counter),
        );
        assert(after.groups.take(state.groups.len() as int) =~= state.groups);
    }
}

/// The counter moves only when a group is created, and then by one.
pub proof fn law_counter_counts_created_groups(state: ContractView, operation: Operation)
    requires
        state.wf(),
    ensures
        state.step(operation).group_id_counter == state.group_id_counter + if state.creates_group(
            operation,
        ) {
            1int
        } else {
            0int
        },
{
}

/// On a new contract the groups are numbered in the order in which they are
/// created: after any sequence of calls the counter is the number of groups
/// that were created, so the group that the next accepted call creates gets
/// that number, and the identifiers handed out so far are 0, 1, 2 and so on
/// without a gap.
pub proof fn law_identifiers_are_consecutive(operations: Seq<Operation>)
    ensures
        ContractView::initial().run(operations).group_id_counter
            == ContractView::initial().groups_created(operations),
        ContractView::initial().run(operations).groups.len()
            == ContractView::initial().groups_created(operations),
    decreases operations.len(),
{
    let initial = ContractView::initial();
    law_consistency(operations);
    if operations.len() > 0 {
        law_identifiers_are_consecutive(operations.drop_last());
        law_consistency(operations.drop_last());
        law_counter_counts_created_groups(
            initial.run(operations.drop_last()),
            operations.last(),
        );
    }
}

/// On a new contract, the group that an accepted call creates is numbered by
/// the groups created before it: the first gets 0, the next 1, and so on, in
/// the order of creation.
pub proof fn law_group_is_numbered_by_earlier_groups(
    earlier: Seq<Operation>,
    caller: Seq<char>,
    group: PostGroupView,
    now: u64,
)
    requires
        ContractView::initial().run(earlier).creates_group(
            Operation::AddGroup { caller, group, now },
        ),
    ensures
        match ContractView::initial().run(earlier).add_group_outcome(caller, group, now) {
            Ok(response) => response.id == ContractView::initial().groups_created(earlier),
            Err(_) => false,
        },
{
    law_identifiers_are_consecutive(earlier);
}

/// A partial update overwrites what it gives and nothing else: a field that
/// the update leaves out keeps its value, a field that it gives takes the
/// given value, and the user name, the role, the joined groups and the time
/// of creation stay whatever the update holds. Only the time of the last
/// update always changes.
pub proof fn law_update_keeps_what_is_not_given(
    profile: ProfileView,
    patch: UpdateProfileView,
    now: u64,
)
    ensures
        ({
            let edited = profile.updated(patch, now);
            &&& edited.username == profile.username
            &&& edited.application_role == profile.application_role
            &&& edited.joined_groups == profile.joined_groups
            &&& edited.created_on == profile.created_on
            &&& edited.updated_on == now
            &&& patch.display_name is None ==> edited.display_name == profile.display_name
            &&& patch.first_name is None ==> edited.first_name == profile.first_name
            &&& patch.last_name is None ==> edited.last_name == profile.last_name
            &&& patch.about is None ==> edited.about == profile.about
            &&& patch.email is None ==> edited.email == profile.email
            &&& patch.date_of_birth is None ==> edited.date_of_birth == profile.date_of_birth
            &&& patch.city is None ==> edited.city == profile.city
            &&& patch.state_or_province is None ==> edited.state_or_province == profile.state_or_province
            &&& patch.country is None ==> edited.country == profile.country
            &&& patch.profile_image is None ==> edited.profile_image == profile.profile_image
            &&& patch.banner_image is None ==> edited.banner_image == profile.banner_image
            &&& patch.skills is None ==> edited.skills == profile.skills
            &&& patch.interests is None ==> edited.interests == profile.interests
            &&& patch.causes is None ==> edited.causes == profile.causes
            &&& patch.website is None ==> edited.website == profile.website
            &&& patch.extra is None ==> edited.extra == profile.extra
            &&& patch.display_name is Some ==> edited.display_name == patch.display_name->0
            &&& patch.first_name is Some ==> edited.first_name == patch.first_name->0
            &&& patch.last_name is Some ==> edited.last_name == patch.last_name->0
            &&& patch.about is Some ==> edited.about == patch.about->0
            &&& patch.email is Some ==> edited.email == patch.email->0
            &&& patch.date_of_birth is Some ==> edited.date_of_birth == patch.date_of_birth->0
            &&& patch.city is Some ==> edited.city == patch.city->0
            &&& patch.state_or_province is Some ==> edited.state_or_province == patch.state_or_province->0
            &&& patch.country is Some ==> edited.country == patch.country->0
            &&& patch.profile_image is Some ==> edited.profile_image == patch.profile_image->0
            &&& patch.banner_image is Some ==> edited.banner_image == patch.banner_image->0
            &&& patch.skills is Some ==> edited.skills == patch.skills->0
            &&& patch.interests is Some ==> edited.interests == patch.interests->0
            &&& patch.causes is Some ==> edited.causes == patch.causes->0
            &&& patch.website is Some ==> edited.website == patch.website->0
            &&& patch.extra is Some ==> edited.extra == patch.extra->0
        }),
{
}

/// An update that gives only a display name changes the display name and the
/// time of the last update, and leaves every other field exactly as it was.
pub proof fn law_display_name_only(profile: ProfileView, display_name: Seq<char>, now: u64)
    ensures
        profile.updated(
            UpdateProfileView { display_name: Some(display_name), ..UpdateProfileView::nothing() },
            now,
        ) == (ProfileView { display_name: display_name, updated_on: now, ..profile }),
{
}

/// Editing a profile touches that profile and, for the completion bonus, the
/// reward record of the same account. Groups, the counter, the set and order
/// of the accounts with a profile, and every other profile and reward record
/// stay as they were.
pub proof fn law_edit_profile_touches_one_account(
    state: ContractView,
    caller: Seq<char>,
    patch: UpdateProfileView,
    now: u64,
    other: Seq<char>,
)
    requires
        state.wf(),
        other != caller,
    ensures
        ({
            let after = state.after_edit_profile(caller, patch, now);
            &&& after.groups == state.groups
            &&& after.group_id_counter == state.group_id_counter
            &&& after.profiles.keys() == state.profiles.keys()
            &&& after.has_profile(other) == state.has_profile(other)
            &&& state.has_profile(other) ==> after.profiles.get(other) == state.profiles.get(other)
            &&& after.reward_of(other, 0) == state.reward_of(other, 0)
        }),
{
    let after = state.after_edit_profile(caller, patch, now);
    if state.has_profile(caller) {
        state.profiles.lemma_put(caller, state.edited_profile(caller, patch, now));
        state.profiles.lemma_index_of(caller);
        assert(after.profiles.keys() =~= state.profiles.keys());
        if state.edit_completes(caller, patch) {
            state.rewards.lemma_put(
                caller,
                state.reward_of(caller, now).profile_complete(now),
            );
        }
    }
}

} // verus!
