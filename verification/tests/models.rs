use cat_near_contract::account_map::AccountMap;
use cat_near_contract::error::GenericError;
use cat_near_contract::models::application_role::ApplicationRole;
use cat_near_contract::models::error::Error;
use cat_near_contract::models::groups::{GroupResponse, GroupWithMembers, PostGroup, UpdateGroup};
use cat_near_contract::models::profile::{PostProfile, Profile, ProfileResponse, UpdateProfile};
use cat_near_contract::models::response_result::ResponseResult;
use cat_near_contract::models::reward::{RewardAction, Rewards};

fn key(name: &str) -> String {
    name.to_string()
}

#[test]
fn an_account_map_keeps_the_order_of_first_insertion() {
    let mut map: AccountMap<ApplicationRole> = AccountMap::new();
    assert_eq!(map.len(), 0);
    assert!(!map.insert(key("b"), ApplicationRole::Member));
    assert!(!map.insert(key("a"), ApplicationRole::Owner));
    assert!(!map.insert(key("c"), ApplicationRole::Member));
    assert!(map.insert(key("b"), ApplicationRole::Owner));
    assert_eq!(map.len(), 3);
    assert_eq!(map.keys(), vec![key("b"), key("a"), key("c")]);
    assert_eq!(map.get(&key("b")), Some(&ApplicationRole::Owner));
    assert_eq!(map.get(&key("c")), Some(&ApplicationRole::Member));
    assert_eq!(map.get(&key("d")), None);
    assert_eq!(map.position(&key("a")), Some(1));
    assert_eq!(map.position(&key("d")), None);
    assert!(map.contains_key(&key("c")));
    assert!(!map.contains_key(&key("")));
    assert_eq!(map.key_at(2), "c");
    assert_eq!(*map.value_at(1), ApplicationRole::Owner);
}

#[test]
fn removing_from_an_account_map_keeps_the_order_of_the_rest() {
    let mut map: AccountMap<ApplicationRole> = AccountMap::new();
    for name in ["a", "b", "c", "d"] {
        map.insert(key(name), ApplicationRole::Member);
    }
    assert!(map.remove(&key("b")));
    assert!(!map.remove(&key("b")));
    assert_eq!(map.keys(), vec![key("a"), key("c"), key("d")]);
    map.set_value_at(1, ApplicationRole::Owner);
    assert_eq!(map.get(&key("c")), Some(&ApplicationRole::Owner));
    assert_eq!(map.keys(), vec![key("a"), key("c"), key("d")]);
    assert!(map.remove(&key("a")));
    assert!(map.remove(&key("d")));
    assert!(map.remove(&key("c")));
    assert_eq!(map.len(), 0);
}

#[test]
fn every_error_has_its_message() {
    assert_eq!(GenericError::ProfileNotFound.as_ref(), "Profile not found");
    assert_eq!(GenericError::ProfileAlreadyExists.as_ref(), "Profile already exists");
    assert_eq!(GenericError::GroupNotFound.as_ref(), "Group not found");
    assert_eq!(GenericError::GroupNotAdded.as_ref(), "Group not added");
    assert_eq!(GenericError::AlreadyMember.as_ref(), "Already a member of this group");
    assert_eq!(GenericError::NotMember.as_ref(), "Not a member of this group");
    assert_eq!(GenericError::UserAlreadyInGroup.as_ref(), "User already in group");
}

#[test]
fn every_finding_has_its_message_and_its_error() {
    let findings = [
        (Error::ProfileNotFound, GenericError::ProfileNotFound, "Profile not found"),
        (Error::GroupNotFound, GenericError::GroupNotFound, "Group not found"),
        (Error::AlreadyMember, GenericError::AlreadyMember, "Already a member of this group"),
        (Error::NotMember, GenericError::NotMember, "Not a member of this group"),
        (Error::UserAlreadyInGroup, GenericError::UserAlreadyInGroup, "User already in group"),
    ];
    for (finding, error, message) in findings {
        assert_eq!(finding.as_ref(), message);
        assert_eq!(finding.to_generic(), error);
        assert_eq!(error.as_ref(), message);
    }
}

#[test]
fn a_role_shows_its_name() {
    assert_eq!(ApplicationRole::default(), ApplicationRole::Member);
    assert_eq!(ApplicationRole::Owner.to_string(), "Owner");
    assert_eq!(ApplicationRole::Member.to_string(), "Member");
    assert_eq!(ApplicationRole::Owner.as_str(), "Owner");
}

#[test]
fn a_response_is_a_value_or_an_error() {
    let accepted: ResponseResult<u32> = ResponseResult::Ok(3);
    let refused: ResponseResult<u32> = ResponseResult::Err(GenericError::NotMember);
    assert_eq!(accepted, Ok(3));
    assert_eq!(refused.err(), Some(GenericError::NotMember));
}

#[test]
fn a_default_profile_is_empty() {
    let profile = Profile::default();
    assert_eq!(profile.username, "");
    assert_eq!(profile.display_name, "");
    assert_eq!(profile.first_name, "");
    assert_eq!(profile.last_name, "");
    assert_eq!(profile.about, "");
    assert_eq!(profile.email, "");
    assert_eq!(profile.extra, "");
    assert_eq!(profile.date_of_birth, 0);
    assert_eq!(profile.application_role, ApplicationRole::Member);
    assert!(profile.joined_groups.is_empty());
    assert!(profile.skills.is_empty() && profile.interests.is_empty() && profile.causes.is_empty());
    assert_eq!(profile.created_on, 0);
    assert_eq!(profile.updated_on, 0);
    assert!(!profile.is_filled());
    assert_eq!(profile.get_profile_complete_percentage(), 20);
}

#[test]
fn inputs_and_responses_can_be_copied() {
    let post = PostProfile {
        username: "u".to_string(),
        display_name: "d".to_string(),
        first_name: "f".to_string(),
        last_name: "l".to_string(),
        extra: "e".to_string(),
    };
    let copy = post.clone();
    assert_eq!(copy.username, post.username);
    assert_eq!(copy.extra, "e");

    let update = UpdateProfile {
        display_name: Some("n".to_string()),
        first_name: None,
        last_name: None,
        about: None,
        email: None,
        date_of_birth: Some(4),
        city: None,
        state_or_province: None,
        country: None,
        profile_image: None,
        banner_image: None,
        skills: Some(vec![1]),
        interests: None,
        causes: None,
        website: None,
        extra: None,
    };
    let copy = update.clone();
    assert_eq!(copy.display_name, Some("n".to_string()));
    assert_eq!(copy.date_of_birth, Some(4));
    assert_eq!(copy.skills, Some(vec![1]));
    assert_eq!(copy.email, None);

    let group = PostGroup {
        name: "G".to_string(),
        description: "d".to_string(),
        website: "w".to_string(),
        matrix_space_id: "s".to_string(),
        image: "i".to_string(),
        banner_image: "b".to_string(),
        tags: vec![1, 2],
    };
    let copy = group.clone();
    assert_eq!(copy.name, "G");
    assert_eq!(copy.tags, vec![1, 2]);
    let patch = UpdateGroup {
        name: Some("H".to_string()),
        description: None,
        website: None,
        image: None,
        banner_image: None,
        tags: Some(vec![3]),
    };
    assert_eq!(patch.clone().name, Some("H".to_string()));
    assert_eq!(patch.clone().tags, Some(vec![3]));

    let response = GroupResponse::new(2, GroupWithMembers::new(group, "a.near".to_string(), 6));
    let copy = response.clone();
    assert_eq!(copy.id, 2);
    assert_eq!(copy.owner, "a.near");
    assert_eq!(copy.members_count, 1);
    let response = ProfileResponse::new("a.near".to_string(), Profile::new(post, 3));
    let copy = response.clone();
    assert_eq!(copy.account_id, "a.near");
    assert_eq!(copy.username, "u");
    assert_eq!(copy.created_on, 3);
}

#[test]
fn a_single_reward_names_its_action() {
    let reward = Rewards {
        action: RewardAction::GroupJoin(4),
        points: 10,
        updated_on: 2,
        created_on: 1,
    };
    let copy = reward.clone();
    assert_eq!(copy.action, RewardAction::GroupJoin(4));
    assert_eq!(copy.points, 10);
    assert!(copy.action != RewardAction::ProfileComplete(4));
    assert!(copy.action != RewardAction::GroupJoin(5));
}
