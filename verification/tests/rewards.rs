use cat_near_contract::error::GenericError;
use cat_near_contract::models::contract::Contract;
use cat_near_contract::models::groups::PostGroup;
use cat_near_contract::models::profile::{PostProfile, UpdateProfile};
use cat_near_contract::models::rewards::{
    RewardActions, Rewards, GROUP_JOIN_POINTS, PROFILE_COMPLETE_POINTS,
};

fn profile(name: &str) -> PostProfile {
    PostProfile {
        username: name.to_string(),
        display_name: name.to_string(),
        first_name: name.to_string(),
        last_name: name.to_string(),
        extra: name.to_string(),
    }
}

fn group(name: &str, description: &str, website: &str, image: &str, banner: &str, space: &str, tags: Vec<u32>) -> PostGroup {
    PostGroup {
        name: name.to_string(),
        description: description.to_string(),
        website: website.to_string(),
        image: image.to_string(),
        banner_image: banner.to_string(),
        matrix_space_id: space.to_string(),
        tags,
    }
}

fn group_one() -> PostGroup {
    group(
        "Test Group",
        "A test group",
        "https://example.com",
        "ipfs://example",
        "ipfs://example_banner",
        "space123",
        vec![1, 2, 3],
    )
}

fn group_two() -> PostGroup {
    group(
        "Test Group 2",
        "A test group 2",
        "https://example2.com",
        "ipfs://example2",
        "ipfs://example_banner2",
        "space1232",
        vec![4, 5, 6],
    )
}

fn nothing() -> UpdateProfile {
    UpdateProfile {
        display_name: None,
        first_name: None,
        last_name: None,
        about: None,
        email: None,
        date_of_birth: None,
        city: None,
        state_or_province: None,
        country: None,
        profile_image: None,
        banner_image: None,
        skills: None,
        interests: None,
        causes: None,
        website: None,
        extra: None,
    }
}

fn update() -> UpdateProfile {
    UpdateProfile {
        display_name: Some("Jassi".to_string()),
        first_name: Some("Jas".to_string()),
        last_name: Some("Singh".to_string()),
        about: Some("About".to_string()),
        date_of_birth: Some(123456),
        extra: Some("extra".to_string()),
        city: Some("Mumbai".to_string()),
        state_or_province: Some("Maharashtra".to_string()),
        country: Some("India".to_string()),
        profile_image: Some("profile_image".to_string()),
        skills: Some(vec![1, 2, 3]),
        interests: Some(vec![1, 2, 3]),
        causes: Some(vec![1, 2, 3]),
        website: Some("website".to_string()),
        ..nothing()
    }
}

#[test]
fn test_check_profile_complete_reward() {
    let account = "account.near".to_string();
    let mut contract = Contract::new();

    let new_profile = contract.add_profile_at(&account, 1, profile("incomplete"));
    match new_profile {
        Ok(profile) => {
            assert_eq!(profile.username, "incomplete");
            let new_profile_reward_status = contract.get_rewards_at(account.clone(), 1);
            assert!(!new_profile_reward_status.actions.profile_complete);
            assert!(new_profile_reward_status.points == 0);
        }
        Err(_) => panic!("Profile not created"),
    }

    // This update gives neither an email nor a banner image, so the profile
    // is not complete yet and no bonus is due.
    let updated_profile = contract.edit_profile_at(&account, 2, update());
    match updated_profile {
        Ok(profile) => {
            assert_eq!(profile.username, "incomplete");
            assert_eq!(profile.display_name, "Jassi");
            let status = contract.get_rewards_at(account.clone(), 2);
            assert!(!status.actions.profile_complete);
            assert!(status.points == 0);
            assert_eq!(contract.get_profile_complete_percentage(account.clone()), 80);
        }
        Err(_) => panic!("Profile not updated"),
    }

    let completed_profile = contract.edit_profile_at(
        &account,
        3,
        UpdateProfile {
            email: Some("jas@example.com".to_string()),
            banner_image: Some("banner_image".to_string()),
            ..nothing()
        },
    );
    match completed_profile {
        Ok(profile) => {
            assert_eq!(profile.username, "incomplete");
            let updated_profile_reward_status = contract.get_rewards_at(account.clone(), 3);
            assert!(updated_profile_reward_status.actions.profile_complete);
            assert!(updated_profile_reward_status.points == 100);
            assert_eq!(updated_profile_reward_status.created_on, 3);
            assert_eq!(contract.get_profile_complete_percentage(account.clone()), 100);
        }
        Err(_) => panic!("Profile not updated"),
    }
}

#[test]
fn test_join_group_reward() {
    let group_owner_account = "owner.near".to_string();
    let group_member_account = "member.near".to_string();
    let mut contract = Contract::new();

    assert!(contract.add_profile_at(&group_owner_account, 1, profile("owner")).is_ok());
    assert!(contract.add_profile_at(&group_member_account, 1, profile("member")).is_ok());

    match contract.add_group_at(&group_owner_account, 2, group_one()) {
        Ok(group) => {
            assert_eq!(group.id, 0, "Group ID should be equal to 0");
            let joined_group = contract.join_group_at(&group_member_account, 3, group.id);
            assert!(joined_group.is_ok());
            let member_rewards = contract.get_rewards_at(group_member_account.clone(), 3);
            assert!(member_rewards.points == 10);
        }
        Err(_) => panic!("Group 1 not created"),
    }

    match contract.add_group_at(&group_owner_account, 4, group_two()) {
        Ok(group) => {
            assert_eq!(group.id, 1, "Group ID should be equal to 1");
            let joined_group_2 = contract.join_group_at(&group_member_account, 5, group.id);
            assert!(joined_group_2.is_ok());
            let member_rewards = contract.get_rewards_at(group_member_account.clone(), 5);
            assert!(member_rewards.points == 20);
            assert_eq!(member_rewards.actions.group_join_action_history, vec![0, 1]);
            assert_eq!(member_rewards.created_on, 3);
            assert_eq!(member_rewards.updated_on, 5);
        }
        Err(_) => panic!("Group 2 not created"),
    }
    assert_eq!(contract.get_rewards_at(group_owner_account.clone(), 0).points, 0);
}

#[test]
fn creating_a_group_and_joining_it_twice() {
    let a = "a.near".to_string();
    let b = "b.near".to_string();
    let mut contract = Contract::new();
    let _ = contract.add_profile_at(&a, 1, profile("a"));
    let _ = contract.add_profile_at(&b, 1, profile("b"));

    let created = contract.add_group_at(&a, 2, group_one()).expect("A has a profile");
    assert_eq!(created.id, 0);
    assert_eq!(contract.get_user_groups(a.clone()), vec![0]);
    assert_eq!(
        contract.get_group_members(0),
        vec![(a.clone(), cat_near_contract::models::application_role::ApplicationRole::Owner)]
    );

    let joined = contract.join_group_at(&b, 3, 0).expect("B is no member yet");
    assert_eq!(joined.id, 0);
    assert_eq!(joined.members_count, 2);
    assert_eq!(
        contract.get_group_members(0),
        vec![
            (a.clone(), cat_near_contract::models::application_role::ApplicationRole::Owner),
            (b.clone(), cat_near_contract::models::application_role::ApplicationRole::Member),
        ]
    );
    assert_eq!(contract.get_user_groups(b.clone()), vec![0]);
    assert_eq!(contract.get_rewards_at(b.clone(), 0).points, 10);

    let again = contract.join_group_at(&b, 4, 0);
    assert_eq!(again.err(), Some(GenericError::AlreadyMember));
    assert_eq!(contract.get_rewards_at(b.clone(), 0).points, 10);
    assert_eq!(contract.get_user_groups(b.clone()), vec![0]);
    assert_eq!(contract.get_group_members(0).len(), 2);
}

#[test]
fn leaving_and_joining_again_pays_nothing_more() {
    let a = "a.near".to_string();
    let b = "b.near".to_string();
    let mut contract = Contract::new();
    let _ = contract.add_profile_at(&a, 1, profile("a"));
    let _ = contract.add_profile_at(&b, 1, profile("b"));
    let _ = contract.add_group_at(&a, 2, group_one());
    let _ = contract.join_group_at(&b, 3, 0);
    assert_eq!(contract.get_rewards_at(b.clone(), 0).points, 10);

    assert_eq!(contract.leave_group(&b, 0), Ok(()));
    assert_eq!(contract.get_rewards_at(b.clone(), 0).points, 10);
    assert_eq!(contract.get_rewards_at(b.clone(), 0).actions.group_join_action_history, vec![0]);
    assert!(!contract.is_user_in_group(b.clone(), 0));

    let rejoined = contract.join_group_at(&b, 7, 0).expect("B left the group");
    assert_eq!(rejoined.members_count, 2);
    assert!(contract.get_group_members(0).iter().any(|(name, _)| name == &b));
    assert_eq!(contract.get_user_groups(b.clone()), vec![0]);
    let rewards = contract.get_rewards_at(b.clone(), 0);
    assert_eq!(rewards.points, 10);
    assert_eq!(rewards.actions.group_join_action_history, vec![0]);
    assert_eq!(rewards.updated_on, 3);
}

#[test]
fn completing_a_profile_pays_once() {
    let a = "a.near".to_string();
    let mut contract = Contract::new();
    let _ = contract.add_profile_at(&a, 1, profile("a"));
    let complete = UpdateProfile {
        email: Some("a@example.com".to_string()),
        country: Some("India".to_string()),
        about: Some("About".to_string()),
        profile_image: Some("p".to_string()),
        banner_image: Some("b".to_string()),
        interests: Some(vec![4, 5, 6]),
        ..nothing()
    };
    assert!(contract.edit_profile_at(&a, 2, complete).is_ok());
    let rewards = contract.get_rewards_at(a.clone(), 0);
    assert!(rewards.actions.profile_complete);
    assert_eq!(rewards.points, 100);
    assert_eq!(rewards.updated_on, 2);

    assert!(contract.edit_profile_at(&a, 3, nothing()).is_ok());
    assert_eq!(contract.get_rewards_at(a.clone(), 0).points, 100);
    assert!(contract
        .edit_profile_at(&a, 4, UpdateProfile { about: Some("More".to_string()), ..nothing() })
        .is_ok());
    assert_eq!(contract.get_rewards_at(a.clone(), 0).points, 100);

    // The profile stops being complete and becomes complete again.
    assert!(contract
        .edit_profile_at(&a, 5, UpdateProfile { email: Some(String::new()), ..nothing() })
        .is_ok());
    assert_eq!(contract.get_profile_complete_percentage(a.clone()), 90);
    assert!(contract
        .edit_profile_at(&a, 6, UpdateProfile { email: Some("a@b.c".to_string()), ..nothing() })
        .is_ok());
    let rewards = contract.get_rewards_at(a.clone(), 0);
    assert_eq!(rewards.points, 100);
    assert!(rewards.actions.profile_complete);
    assert_eq!(rewards.updated_on, 2);
}

#[test]
fn both_bonuses_add_up() {
    let a = "a.near".to_string();
    let b = "b.near".to_string();
    let mut contract = Contract::new();
    let _ = contract.add_profile_at(&a, 1, profile("a"));
    let _ = contract.add_profile_at(&b, 1, profile("b"));
    let _ = contract.add_group_at(&a, 2, group_one());
    let _ = contract.add_group_at(&a, 2, group_two());
    let _ = contract.join_group_at(&b, 3, 1);
    let complete = UpdateProfile {
        email: Some("a@example.com".to_string()),
        country: Some("India".to_string()),
        about: Some("About".to_string()),
        profile_image: Some("p".to_string()),
        banner_image: Some("b".to_string()),
        interests: Some(vec![4, 5, 6]),
        ..nothing()
    };
    let _ = contract.edit_profile_at(&b, 4, complete);
    let _ = contract.join_group_at(&b, 5, 0);
    let rewards = contract.get_rewards_at(b.clone(), 0);
    assert_eq!(rewards.points, 120);
    assert_eq!(rewards.actions.group_join_action_history, vec![1, 0]);
    assert_eq!(rewards.created_on, 3);
    assert_eq!(rewards.updated_on, 5);
}

#[test]
fn a_reward_record_pays_each_bonus_once() {
    let mut rewards = Rewards::new(4);
    assert_eq!(rewards.points, 0);
    assert_eq!(rewards.created_on, 4);
    assert_eq!(rewards.updated_on, 4);
    assert!(!rewards.actions.profile_complete);
    assert!(rewards.actions.group_join_action_history.is_empty());

    let copy = rewards.group_join_at(7, 5);
    assert_eq!(copy.points, GROUP_JOIN_POINTS);
    assert_eq!(rewards.points, 10);
    assert!(rewards.was_paid_for(7));
    assert!(!rewards.was_paid_for(8));
    rewards.group_join_at(7, 6);
    assert_eq!(rewards.points, 10);
    assert_eq!(rewards.updated_on, 5);
    rewards.group_join_at(8, 7);
    assert_eq!(rewards.points, 20);
    assert_eq!(rewards.actions.group_join_action_history, vec![7, 8]);

    let copy = rewards.profile_complete_at(8);
    assert_eq!(copy.points, 20 + PROFILE_COMPLETE_POINTS);
    assert!(copy.actions.profile_complete);
    rewards.profile_complete_at(9);
    assert_eq!(rewards.points, 120);
    assert_eq!(rewards.updated_on, 8);
    assert_eq!(rewards.created_on, 4);
}

#[test]
fn default_rewards_are_empty() {
    let actions = RewardActions::default();
    assert!(!actions.profile_complete);
    assert!(actions.group_join_action_history.is_empty());
    let rewards = Rewards::default();
    assert_eq!(rewards.points, 0);
    assert_eq!(rewards.created_on, rewards.updated_on);
    assert!(!rewards.actions.profile_complete);
}

#[test]
fn an_account_without_rewards_has_no_points() {
    let contract = Contract::new();
    let rewards = contract.get_rewards("nobody.near".to_string());
    assert_eq!(rewards.points, 0);
    assert!(!rewards.actions.profile_complete);
    assert_eq!(contract.get_profile_complete_percentage("nobody.near".to_string()), 0);
    assert!(contract.rewards.entries.is_empty());
}
