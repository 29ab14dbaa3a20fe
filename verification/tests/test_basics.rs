use cat_near_contract::error::GenericError;
use cat_near_contract::models::contract::Contract;
use cat_near_contract::models::error::Error;
use cat_near_contract::models::groups::GroupWithMembers;
use cat_near_contract::models::rewards::Rewards;
use cat_near_contract::models::profile::Profile;
use cat_near_contract::models::groups::{PostGroup, UpdateGroup};
use cat_near_contract::models::profile::{PostProfile, UpdateProfile};
use near_sdk::test_utils::VMContextBuilder;
use near_sdk::{AccountId, MockedBlockchain, RuntimeFeesConfig};

fn serve_call_of(account: &str, now: u64) {
    let caller: AccountId = account.parse().unwrap();
    let context = VMContextBuilder::new()
        .predecessor_account_id(caller)
        .block_timestamp(now)
        .build();
    let storage = near_sdk::mock::with_mocked_blockchain(|chain| chain.take_storage());
    near_sdk::env::set_blockchain_interface(MockedBlockchain::new(
        context,
        near_sdk::test_vm_config(),
        RuntimeFeesConfig::test(),
        Vec::new(),
        storage,
        Default::default(),
        None,
    ));
}

fn jas() -> PostProfile {
    PostProfile {
        username: "jassification".to_string(),
        display_name: "Jas".to_string(),
        first_name: "Jaswinder".to_string(),
        last_name: "Singh".to_string(),
        extra: "extra".to_string(),
    }
}

fn update() -> UpdateProfile {
    UpdateProfile {
        display_name: Some("Jassi".to_string()),
        first_name: None,
        last_name: None,
        about: Some("About".to_string()),
        email: None,
        date_of_birth: Some(123456),
        city: Some("Mumbai".to_string()),
        state_or_province: Some("Maharashtra".to_string()),
        country: Some("India".to_string()),
        profile_image: Some("profile_image".to_string()),
        banner_image: None,
        skills: Some(vec![1, 2, 3]),
        interests: Some(vec![1, 2, 3]),
        causes: Some(vec![1, 2, 3]),
        website: Some("website".to_string()),
        extra: None,
    }
}

#[test]
fn test_contract_is_operational() {
    let user = "user.near".to_string();
    serve_call_of("user.near", 1_000);
    let mut contract = Contract::new();

    let outcome_post_profile = contract.add_profile(&user, jas());
    assert!(outcome_post_profile.is_ok());

    serve_call_of("user.near", 2_000);
    let outcome_update_profile = contract.edit_profile(&user, update());
    assert!(outcome_update_profile.is_ok());

    let outcome_get_profile = contract
        .get_profile("user.near".to_string())
        .expect("the profile was added");
    assert_eq!(outcome_get_profile.account_id, "user.near");
    assert_eq!(outcome_get_profile.username, "jassification");
    assert_eq!(outcome_get_profile.display_name, "Jassi");
    assert_eq!(outcome_get_profile.first_name, "Jaswinder");
    assert_eq!(outcome_get_profile.last_name, "Singh");
    assert_eq!(outcome_get_profile.about, "About");
    assert_eq!(outcome_get_profile.date_of_birth, 123456);
    assert_eq!(outcome_get_profile.city, "Mumbai");
    assert_eq!(outcome_get_profile.interests, vec![1, 2, 3]);
    assert_eq!(outcome_get_profile.created_on, 1_000);
    assert_eq!(outcome_get_profile.updated_on, 2_000);
}

#[test]
fn the_time_of_a_call_is_the_time_of_the_block() {
    let mut contract = Contract::new();
    let bob = "bob.near".to_string();
    let profile = contract.add_profile(&bob, jas()).expect("a first profile is accepted");
    assert_eq!(profile.account_id, "bob.near");
    assert_eq!(profile.created_on, 0);
    assert!(contract.get_profile("bob.near".to_string()).is_ok());
    assert!(contract.get_profile("alice.near".to_string()).is_err());
}

#[test]
fn the_chain_supplies_the_time_to_every_operation() {
    let post_group = |name: &str| PostGroup {
        name: name.to_string(),
        description: String::new(),
        website: String::new(),
        matrix_space_id: String::new(),
        image: String::new(),
        banner_image: String::new(),
        tags: vec![],
    };
    let owner = "owner.near".to_string();
    let member = "member.near".to_string();
    let nobody = "nobody.near".to_string();
    let mut contract = Contract::new();

    serve_call_of("owner.near", 10);
    assert!(contract.add_profile(&owner, jas()).is_ok());
    let created = contract.add_group(&owner, post_group("G1")).expect("the owner has a profile");
    assert_eq!(created.id, 0);
    assert_eq!(created.owner, "owner.near");
    assert_eq!(created.created_on, 10);

    serve_call_of("member.near", 20);
    assert!(contract.join_group(&member, 0).is_err());
    assert!(contract.add_profile(&member, jas()).is_ok());
    let joined = contract.join_group(&member, 0).expect("the member has a profile now");
    assert_eq!(joined.members_count, 2);
    assert!(contract.is_user_in_group("member.near".to_string(), 0));
    assert!(!contract.is_user_in_group("bob.near".to_string(), 0));
    let rewards = contract.get_rewards("member.near".to_string());
    assert_eq!(rewards.points, 10);
    assert_eq!(rewards.created_on, 20);

    serve_call_of("member.near", 30);
    let edited = contract
        .edit_group(
            0,
            UpdateGroup {
                name: Some("G2".to_string()),
                description: None,
                website: None,
                image: None,
                banner_image: None,
                tags: None,
            },
        )
        .expect("the group exists");
    assert_eq!(edited.name, "G2");
    assert_eq!(edited.updated_on, 30);
    assert_eq!(edited.created_on, 10);
    assert_eq!(contract.leave_group(&member, 0), Ok(()));
    assert!(!contract.is_user_in_group("member.near".to_string(), 0));

    serve_call_of("nobody.near", 40);
    assert!(contract.leave_group(&nobody, 0).is_err());
    assert!(contract.add_group(&nobody, post_group("G3")).is_err());
    assert_eq!(contract.get_rewards("nobody.near".to_string()).created_on, 40);
    assert_eq!(contract.group_id_counter, 1);
    assert!(contract.is_consistent());
}

#[test]
fn records_change_at_the_time_of_the_block() {
    serve_call_of("carol.near", 77);
    let profile: Profile = jas().into();
    assert_eq!(profile.username, "jassification");
    assert_eq!(profile.created_on, 77);
    assert_eq!(profile.updated_on, 77);
    assert!(profile.joined_groups.is_empty());

    serve_call_of("carol.near", 78);
    let updated = profile.update(update());
    assert_eq!(updated.display_name, "Jassi");
    assert_eq!(updated.created_on, 77);
    assert_eq!(updated.updated_on, 78);

    let mut group = GroupWithMembers::new(
        PostGroup {
            name: "G".to_string(),
            description: "d".to_string(),
            website: String::new(),
            matrix_space_id: "space".to_string(),
            image: String::new(),
            banner_image: String::new(),
            tags: vec![1],
        },
        "carol.near".to_string(),
        5,
    );
    group.update(UpdateGroup {
        name: Some("H".to_string()),
        description: None,
        website: None,
        image: None,
        banner_image: None,
        tags: None,
    });
    assert_eq!(group.name, "H");
    assert_eq!(group.description, "d");
    assert_eq!(group.updated_on, 78);
    assert_eq!(group.created_on, 5);
    serve_call_of("carol.near", 79);
    let copy = group.delete();
    assert!(copy.is_deleted && group.is_deleted);
    assert_eq!(group.updated_on, 79);

    let mut rewards = Rewards::default();
    assert_eq!(rewards.created_on, 79);
    serve_call_of("carol.near", 80);
    assert_eq!(rewards.group_join(3).points, 10);
    serve_call_of("carol.near", 81);
    assert_eq!(rewards.group_join(3).points, 10);
    assert_eq!(rewards.updated_on, 80);
    assert_eq!(rewards.profile_complete().points, 110);
    assert_eq!(rewards.updated_on, 81);
    serve_call_of("carol.near", 82);
    assert_eq!(rewards.profile_complete().points, 110);
    assert_eq!(rewards.updated_on, 81);
}

#[test]
fn a_finding_converts_to_the_error_of_the_contract() {
    assert_eq!(GenericError::from(Error::NotMember), GenericError::NotMember);
    assert_eq!(GenericError::from(Error::AlreadyMember), GenericError::AlreadyMember);
    let error: GenericError = Error::GroupNotFound.into();
    assert_eq!(error, GenericError::GroupNotFound);
}
