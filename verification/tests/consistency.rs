use cat_near_contract::account_map::AccountMap;
use cat_near_contract::models::application_role::ApplicationRole;
use cat_near_contract::models::groups::PostGroup;
use cat_near_contract::models::patch::has_no_duplicates;
use cat_near_contract::models::profile::{PostProfile, Profile, UpdateProfile};
use cat_near_contract::models::rewards::Rewards;
use cat_near_contract::Contract;

fn profile(name: &str) -> PostProfile {
    PostProfile {
        username: name.to_string(),
        display_name: name.to_string(),
        first_name: name.to_string(),
        last_name: name.to_string(),
        extra: String::new(),
    }
}

fn group(name: &str) -> PostGroup {
    PostGroup {
        name: name.to_string(),
        description: String::new(),
        website: String::new(),
        matrix_space_id: String::new(),
        image: String::new(),
        banner_image: String::new(),
        tags: vec![],
    }
}

fn nothing() -> UpdateProfile {
    UpdateProfile {
        display_name: None,
        first_name: None,
        last_name: None,
        about: None,
        email: None,
        date_of_birth: None,
        city: None,
        state_or_province: None,
        country: None,
        profile_image: None,
        banner_image: None,
        skills: None,
        interests: None,
        causes: None,
        website: None,
        extra: None,
    }
}

fn completing() -> UpdateProfile {
    UpdateProfile {
        email: Some("a@example.com".to_string()),
        country: Some("India".to_string()),
        about: Some("About".to_string()),
        profile_image: Some("p".to_string()),
        banner_image: Some("b".to_string()),
        interests: Some(vec![4, 5, 6]),
        ..nothing()
    }
}

fn used_contract() -> Contract {
    let a = "a.near".to_string();
    let b = "b.near".to_string();
    let mut contract = Contract::new();
    let _ = contract.add_profile_at(&a, 1, profile("a"));
    let _ = contract.add_profile_at(&b, 1, profile("b"));
    let _ = contract.add_group_at(&a, 2, group("G0"));
    let _ = contract.add_group_at(&b, 2, group("G1"));
    let _ = contract.join_group_at(&b, 3, 0);
    let _ = contract.edit_profile_at(&a, 4, completing());
    contract
}

#[test]
fn a_contract_stays_consistent_under_its_operations() {
    let mut contract = Contract::new();
    assert!(contract.is_consistent());
    let a = "a.near".to_string();
    let b = "b.near".to_string();
    let _ = contract.add_profile_at(&a, 1, profile("a"));
    assert!(contract.is_consistent());
    let _ = contract.add_group_at(&a, 2, group("G0"));
    assert!(contract.is_consistent());
    let _ = contract.add_profile_at(&b, 3, profile("b"));
    let _ = contract.join_group_at(&b, 4, 0);
    assert!(contract.is_consistent());
    let _ = contract.join_group_at(&b, 5, 0);
    let _ = contract.edit_profile_at(&b, 6, completing());
    assert!(contract.is_consistent());
    let _ = contract.leave_group(&b, 0);
    assert!(contract.is_consistent());
    let _ = contract.leave_group(&a, 0);
    assert!(contract.is_consistent());
    let _ = contract.join_group_at(&b, 7, 0);
    let _ = contract.edit_group_at(0, cat_near_contract::models::groups::UpdateGroup {
        name: Some("G".to_string()),
        description: None,
        website: None,
        image: None,
        banner_image: None,
        tags: None,
    }, 8);
    assert!(contract.is_consistent());
    assert!(used_contract().is_consistent());
}

#[test]
fn a_member_that_the_profile_does_not_list_is_found() {
    let mut contract = used_contract();
    contract.groups[1].add_member("a.near".to_string());
    assert!(!contract.is_consistent());
}

#[test]
fn a_member_without_a_profile_is_found() {
    let mut contract = used_contract();
    contract.groups[0].add_member("stranger.near".to_string());
    assert!(!contract.is_consistent());
}

#[test]
fn a_listed_group_that_does_not_list_the_account_is_found() {
    let mut contract = used_contract();
    contract.profiles.entries[0].1.joined_groups.push(1);
    assert!(!contract.is_consistent());
}

#[test]
fn a_listed_group_that_does_not_exist_is_found() {
    let mut contract = used_contract();
    contract.profiles.entries[0].1.joined_groups.push(9);
    assert!(!contract.is_consistent());
}

#[test]
fn a_group_that_is_listed_twice_is_found() {
    let mut contract = used_contract();
    contract.profiles.entries[0].1.joined_groups.push(0);
    assert!(!contract.is_consistent());
}

#[test]
fn a_counter_that_is_not_the_number_of_groups_is_found() {
    let mut contract = used_contract();
    contract.group_id_counter = 3;
    assert!(!contract.is_consistent());
    contract.group_id_counter = 1;
    assert!(!contract.is_consistent());
    contract.group_id_counter = 2;
    assert!(contract.is_consistent());
}

#[test]
fn an_account_with_two_profiles_or_two_reward_records_is_found() {
    let mut contract = used_contract();
    contract.profiles.entries.push(("a.near".to_string(), Profile::new(profile("a"), 9)));
    assert!(!contract.is_consistent());

    let mut contract = used_contract();
    contract.rewards.entries.push(("b.near".to_string(), Rewards::new(9)));
    assert!(!contract.is_consistent());

    let mut contract = used_contract();
    contract.groups[0]
        .members
        .members
        .entries
        .push(("a.near".to_string(), ApplicationRole::Member));
    assert!(!contract.is_consistent());
}

#[test]
fn points_that_no_bonus_accounts_for_are_found() {
    let mut contract = used_contract();
    assert_eq!(contract.rewards.keys(), vec!["b.near".to_string(), "a.near".to_string()]);
    contract.rewards.entries[0].1.points = 20;
    assert!(!contract.is_consistent());
    contract.rewards.entries[0].1.points = 10;
    assert!(contract.is_consistent());
    contract.rewards.entries[1].1.actions.profile_complete = false;
    assert!(!contract.is_consistent());
}

#[test]
fn a_reward_record_is_checked_against_its_bonuses() {
    let mut rewards = Rewards::new(1);
    assert!(rewards.is_consistent());
    rewards.group_join_at(3, 2);
    rewards.group_join_at(4, 2);
    rewards.profile_complete_at(3);
    assert_eq!(rewards.points, 120);
    assert!(rewards.is_consistent());
    rewards.points = 119;
    assert!(!rewards.is_consistent());
    rewards.points = 20;
    assert!(!rewards.is_consistent());
    rewards.actions.profile_complete = false;
    assert!(rewards.is_consistent());
    rewards.actions.group_join_action_history = vec![3, 3];
    assert!(!rewards.is_consistent());
}

#[test]
fn a_bonus_fits_unless_the_points_are_at_their_limit() {
    let mut rewards = Rewards::new(1);
    assert!(rewards.can_join(1));
    assert!(rewards.can_complete());
    rewards.points = u32::MAX - 10;
    assert!(rewards.can_join(1));
    assert!(!rewards.can_complete());
    rewards.points = u32::MAX - 9;
    assert!(!rewards.can_join(1));
    rewards.actions.group_join_action_history = vec![1];
    assert!(rewards.can_join(1));
    assert!(!rewards.can_join(2));
    rewards.points = u32::MAX - 100;
    assert!(rewards.can_complete());
    rewards.points = u32::MAX - 99;
    assert!(!rewards.can_complete());
    rewards.actions.profile_complete = true;
    assert!(rewards.can_complete());
}

#[test]
fn calls_can_be_served_while_counter_and_points_have_room() {
    let a = "a.near".to_string();
    let b = "b.near".to_string();
    let stranger = "stranger.near".to_string();
    let contract = used_contract();
    assert!(contract.can_add_group(&a));
    assert!(contract.can_add_group(&stranger));
    assert!(contract.can_join_group(&a, 1));
    assert!(contract.can_join_group(&a, 0));
    assert!(contract.can_join_group(&stranger, 0));
    assert!(contract.can_edit_profile(&b, &completing()));
    assert!(contract.can_edit_profile(&stranger, &completing()));
}

#[test]
fn what_an_update_would_complete_is_told_without_applying_it() {
    let new = Profile::new(profile("a"), 1);
    assert!(!new.would_be_filled(&nothing()));
    assert!(new.would_be_filled(&completing()));
    assert!(!new.would_be_filled(&UpdateProfile {
        first_name: Some(String::new()),
        ..completing()
    }));
    assert!(!new.would_be_filled(&UpdateProfile { interests: Some(vec![1, 2]), ..completing() }));
    let filled = new.update_at(completing(), 2);
    assert!(filled.would_be_filled(&nothing()));
    assert!(!filled.would_be_filled(&UpdateProfile { email: Some(String::new()), ..nothing() }));
    assert!(!filled.would_be_filled(&UpdateProfile { interests: Some(vec![]), ..nothing() }));
}

#[test]
fn repeated_keys_and_identifiers_are_found() {
    let mut map: AccountMap<ApplicationRole> = AccountMap::new();
    assert!(map.has_distinct_keys());
    map.insert("a".to_string(), ApplicationRole::Member);
    map.insert("b".to_string(), ApplicationRole::Member);
    map.insert("a".to_string(), ApplicationRole::Owner);
    assert!(map.has_distinct_keys());
    map.entries.push(("c".to_string(), ApplicationRole::Owner));
    assert!(map.has_distinct_keys());
    map.entries.push(("b".to_string(), ApplicationRole::Owner));
    assert!(!map.has_distinct_keys());

    assert!(has_no_duplicates(&vec![]));
    assert!(has_no_duplicates(&vec![7]));
    assert!(has_no_duplicates(&vec![3, 1, 2]));
    assert!(!has_no_duplicates(&vec![3, 1, 3]));
    assert!(!has_no_duplicates(&vec![1, 1]));
}

#[test]
fn a_state_can_be_well_formed_without_being_consistent() {
    let mut contract = used_contract();
    assert!(contract.is_indexed());
    contract.groups[0].add_member("stranger.near".to_string());
    assert!(contract.is_indexed());
    assert!(!contract.is_consistent());
    contract.group_id_counter = 5;
    assert!(!contract.is_indexed());
    contract.group_id_counter = 2;
    contract.rewards.entries.push(("b.near".to_string(), Rewards::new(9)));
    assert!(!contract.is_indexed());
}
