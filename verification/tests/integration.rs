use user_profile::{Address, FieldValue, MemoryHost, UserProfileContract};

fn address(name: &str) -> Address {
    Address::from_bytes(name.as_bytes())
}

fn setup() -> (MemoryHost, Address) {
    let mut env = MemoryHost::new();
    env.mock_all_auths();
    let admin = address("admin");
    UserProfileContract::init(&mut env, admin.clone()).unwrap();
    (env, admin)
}

#[test]
fn test_init() {
    let (env, admin) = setup();
    assert_eq!(UserProfileContract::admin(&env), Ok(admin));
    assert_eq!(UserProfileContract::profile_count(&env), 0);
}

#[test]
fn test_register_profile() {
    let (mut env, _admin) = setup();
    let user = address("user");
    let username = b"alice001".to_vec();
    let display_name = String::from("Alice");

    let result = UserProfileContract::register(
        &mut env,
        username.clone(),
        display_name.clone(),
        user.clone(),
    );
    assert_eq!(result, Ok(true));

    // Check profile count
    assert_eq!(UserProfileContract::profile_count(&env), 1);

    // Get profile by username
    let profile = UserProfileContract::get_by_username(&env, username.clone()).unwrap();
    assert_eq!(profile.username, username);
    assert_eq!(profile.display_name, display_name);
    assert_eq!(profile.owner, user);
    assert!(!profile.deleted);

    // Get profile by address
    let profile2 = UserProfileContract::get_by_address(&env, user.clone()).unwrap();
    assert_eq!(profile2.username, username);
}

#[test]
fn test_username_validation() {
    let (env, _admin) = setup();

    // Valid usernames
    assert!(UserProfileContract::is_username_available(&env, b"abc123".to_vec()));
    assert!(UserProfileContract::is_username_available(&env, b"alice001".to_vec()));
    assert!(UserProfileContract::is_username_available(&env, b"bob_smith123".to_vec()));

    // Invalid usernames (format fails)
    assert!(!UserProfileContract::is_username_available(&env, b"ab123".to_vec())); // too short
    assert!(!UserProfileContract::is_username_available(&env, b"ABC123".to_vec())); // uppercase
    // starts with digits
    assert!(!UserProfileContract::is_username_available(&env, b"123abc".to_vec()));
}

#[test]
fn test_username_uniqueness() {
    let (mut env, _admin) = setup();
    let user1 = address("user1");
    let username = b"alice001".to_vec();
    let display_name = String::from("Alice");

    // First registration succeeds
    UserProfileContract::register(&mut env, username.clone(), display_name, user1).unwrap();

    // Username should no longer be available
    assert!(!UserProfileContract::is_username_available(&env, username));
}

#[test]
fn test_set_fields() {
    let (mut env, _admin) = setup();
    let user = address("user");
    let username = b"alice001".to_vec();
    let display_name = String::from("Alice");

    UserProfileContract::register(&mut env, username, display_name, user.clone()).unwrap();

    // Set string field
    let bio = String::from("Hello, I am Alice!");
    UserProfileContract::set_string_field(&mut env, String::from("bio"), bio.clone(), user.clone())
        .unwrap();

    // Get field
    let field = UserProfileContract::get_field(&env, user.clone(), String::from("bio")).unwrap();
    match field {
        FieldValue::StringField(s) => assert_eq!(s, bio),
        _ => panic!("Expected StringField"),
    }

    // Set int field
    UserProfileContract::set_int_field(&mut env, String::from("age"), 25, user.clone()).unwrap();
    let age = UserProfileContract::get_field(&env, user.clone(), String::from("age")).unwrap();
    match age {
        FieldValue::IntField(i) => assert_eq!(i, 25),
        _ => panic!("Expected IntField"),
    }

    // Set bool field
    UserProfileContract::set_bool_field(&mut env, String::from("hiring"), true, user.clone())
        .unwrap();
    let hiring =
        UserProfileContract::get_field(&env, user.clone(), String::from("hiring")).unwrap();
    match hiring {
        FieldValue::BoolField(b) => assert!(b),
        _ => panic!("Expected BoolField"),
    }
}

#[test]
fn test_update_display_name() {
    let (mut env, _admin) = setup();
    let user = address("user");
    let username = b"alice001".to_vec();
    let display_name = String::from("Alice");
    let new_display_name = String::from("Alice Smith");

    UserProfileContract::register(&mut env, username, display_name, user.clone()).unwrap();

    // Update display name
    UserProfileContract::set_display_name(&mut env, new_display_name.clone(), user.clone())
        .unwrap();

    // Verify update
    let profile = UserProfileContract::get_by_address(&env, user).unwrap();
    assert_eq!(profile.display_name, new_display_name);
}

#[test]
fn test_delete_profile() {
    let (mut env, _admin) = setup();
    let user = address("user");
    let username = b"alice001".to_vec();
    let display_name = String::from("Alice");

    UserProfileContract::register(&mut env, username.clone(), display_name, user.clone()).unwrap();

    // Delete profile
    UserProfileContract::delete_profile(&mut env, user.clone()).unwrap();

    // Profile should not be returned (soft deleted)
    assert!(UserProfileContract::get_by_address(&env, user).is_none());
    assert!(UserProfileContract::get_by_username(&env, username.clone()).is_none());

    // Username should still be unavailable (reserved)
    assert!(!UserProfileContract::is_username_available(&env, username));
}

#[test]
fn test_transfer_profile() {
    let (mut env, _admin) = setup();
    let user1 = address("user1");
    let user2 = address("user2");
    let username = b"alice001".to_vec();
    let display_name = String::from("Alice");

    UserProfileContract::register(&mut env, username.clone(), display_name, user1.clone())
        .unwrap();

    // Transfer to new owner
    UserProfileContract::transfer(&mut env, user2.clone(), user1.clone()).unwrap();

    // Old owner should not have profile
    assert!(UserProfileContract::get_by_address(&env, user1).is_none());

    // New owner should have profile
    let profile = UserProfileContract::get_by_address(&env, user2.clone()).unwrap();
    assert_eq!(profile.owner, user2);
    assert_eq!(profile.username, username);

    // Username still resolves
    let profile_by_name = UserProfileContract::get_by_username(&env, username).unwrap();
    assert_eq!(profile_by_name.owner, user2);
}

#[test]
fn test_reserve_username() {
    let (mut env, admin) = setup();
    let reserved_username = b"stellar123".to_vec();

    // Reserve username
    UserProfileContract::reserve_username(&mut env, reserved_username.clone(), admin).unwrap();

    // Username should not be available
    assert!(!UserProfileContract::is_username_available(&env, reserved_username));
}

#[test]
fn test_unreserve_username() {
    let (mut env, admin) = setup();
    let reserved_username = b"stellar123".to_vec();

    // Reserve then unreserve
    UserProfileContract::reserve_username(&mut env, reserved_username.clone(), admin.clone())
        .unwrap();
    UserProfileContract::unreserve_username(&mut env, reserved_username.clone(), admin).unwrap();

    // Username should be available
    assert!(UserProfileContract::is_username_available(&env, reserved_username));
}

#[test]
fn test_registration_fee() {
    let (mut env, admin) = setup();

    // Set fee
    UserProfileContract::set_registration_fee(&mut env, 1000, admin).unwrap();

    // Verify fee
    assert_eq!(UserProfileContract::registration_fee(&env), 1000);
}

#[test]
fn test_ban_profile() {
    let (mut env, admin) = setup();
    let user = address("user");
    let username = b"alice001".to_vec();
    let display_name = String::from("Alice");

    UserProfileContract::register(&mut env, username, display_name, user.clone()).unwrap();

    // Ban profile
    UserProfileContract::ban_profile(&mut env, user.clone(), admin).unwrap();

    // Profile should not be returned
    assert!(UserProfileContract::get_by_address(&env, user).is_none());
}

#[test]
fn test_remove_field() {
    let (mut env, _admin) = setup();
    let user = address("user");
    let username = b"alice001".to_vec();
    let display_name = String::from("Alice");

    UserProfileContract::register(&mut env, username, display_name, user.clone()).unwrap();

    // Set and remove field
    let bio = String::from("Hello!");
    UserProfileContract::set_string_field(&mut env, String::from("bio"), bio, user.clone())
        .unwrap();

    // Verify field exists
    assert!(UserProfileContract::get_field(&env, user.clone(), String::from("bio")).is_some());

    // Remove field
    UserProfileContract::remove_field(&mut env, String::from("bio"), user.clone()).unwrap();

    // Field should be gone
    assert!(UserProfileContract::get_field(&env, user, String::from("bio")).is_none());
}
