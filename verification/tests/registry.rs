use user_profile::events::Event;
use user_profile::standard_fields;
use user_profile::storage::{StorageValue, PROFILE_TTL_EXTEND, PROFILE_TTL_THRESHOLD};
use user_profile::{
    Address, FieldValue, Host, MemoryHost, Profile, ProfileError, ProfileKey, UserProfileContract,
};

fn account(name: &str) -> Address {
    Address::from_bytes(name.as_bytes())
}

fn fresh() -> (MemoryHost, Address) {
    let mut env = MemoryHost::new();
    env.mock_all_auths();
    let admin = account("admin");
    UserProfileContract::init(&mut env, admin.clone()).unwrap();
    (env, admin)
}

fn register(
    env: &mut MemoryHost,
    username: &[u8],
    name: &str,
    who: &Address,
) -> Result<bool, ProfileError> {
    UserProfileContract::register(env, username.to_vec(), String::from(name), who.clone())
}

// ------------------------------------------------------------ scenarios

#[test]
fn scenario_register_set_field_delete() {
    let (mut env, _admin) = fresh();
    let a = account("A");
    assert_eq!(register(&mut env, b"alice001", "Alice", &a), Ok(true));
    assert_eq!(UserProfileContract::profile_count(&env), 1);
    assert_eq!(
        UserProfileContract::set_string_field(
            &mut env,
            String::from("bio"),
            String::from("hi"),
            a.clone()
        ),
        Ok(())
    );
    assert_eq!(
        UserProfileContract::get_field(&env, a.clone(), String::from("bio")),
        Some(FieldValue::StringField(String::from("hi")))
    );
    assert_eq!(UserProfileContract::delete_profile(&mut env, a.clone()), Ok(()));
    assert_eq!(UserProfileContract::get_by_address(&env, a.clone()), None);
    assert!(!UserProfileContract::is_username_available(&env, b"alice001".to_vec()));
}

#[test]
fn scenario_reserve_blocks_until_unreserved() {
    let (mut env, admin) = fresh();
    let user = account("user");
    let name = b"stellar123";
    assert_eq!(
        UserProfileContract::reserve_username(&mut env, name.to_vec(), admin.clone()),
        Ok(())
    );
    assert!(!UserProfileContract::is_username_available(&env, name.to_vec()));
    assert_eq!(register(&mut env, name, "User", &user), Err(ProfileError::UsernameReserved));
    assert_eq!(UserProfileContract::profile_count(&env), 0);
    assert_eq!(
        UserProfileContract::unreserve_username(&mut env, name.to_vec(), admin.clone()),
        Ok(())
    );
    assert!(UserProfileContract::is_username_available(&env, name.to_vec()));
    assert_eq!(register(&mut env, name, "User", &user), Ok(true));
}

// ------------------------------------------------------------------ laws

#[test]
fn a_registered_username_is_taken_for_everyone() {
    let (mut env, _admin) = fresh();
    let a = account("A");
    let b = account("B");
    assert_eq!(register(&mut env, b"alice001", "Alice", &a), Ok(true));
    assert_eq!(register(&mut env, b"alice001", "Alice", &b), Err(ProfileError::UsernameTaken));
    assert_eq!(register(&mut env, b"alice001", "Other", &b), Err(ProfileError::UsernameTaken));
    assert_eq!(register(&mut env, b"alice001", "Again", &a), Err(ProfileError::UsernameTaken));
    assert_eq!(UserProfileContract::profile_count(&env), 1);
    let seen = UserProfileContract::get_by_username(&env, b"alice001".to_vec()).unwrap();
    assert_eq!(seen.owner, a);
    assert_eq!(seen.display_name, "Alice");
}

#[test]
fn no_second_registration_after_delete() {
    let (mut env, _admin) = fresh();
    let a = account("A");
    assert_eq!(register(&mut env, b"alice001", "Alice", &a), Ok(true));
    assert_eq!(UserProfileContract::delete_profile(&mut env, a.clone()), Ok(()));
    assert_eq!(UserProfileContract::get_by_address(&env, a.clone()), None);
    assert_eq!(register(&mut env, b"alice002", "Alice", &a), Err(ProfileError::ProfileExists));
    // The old username is taken, which is tested before the profile.
    assert_eq!(register(&mut env, b"alice001", "Alice", &a), Err(ProfileError::UsernameTaken));
    assert_eq!(UserProfileContract::profile_count(&env), 1);
}

#[test]
fn transfer_moves_profile_and_index_together() {
    let (mut env, _admin) = fresh();
    let a = account("A");
    let b = account("B");
    env.set_sequence(10);
    assert_eq!(register(&mut env, b"alice001", "Alice", &a), Ok(true));
    env.set_sequence(25);
    assert_eq!(UserProfileContract::transfer(&mut env, b.clone(), a.clone()), Ok(()));

    assert_eq!(UserProfileContract::get_by_address(&env, a.clone()), None);
    assert!(!env.has(&ProfileKey::Profile(a.clone())));
    let expected = Profile {
        username: b"alice001".to_vec(),
        display_name: String::from("Alice"),
        owner: b.clone(),
        created_at: 10,
        updated_at: 25,
        deleted: false,
    };
    assert_eq!(UserProfileContract::get_by_address(&env, b.clone()), Some(expected.clone()));
    assert_eq!(
        UserProfileContract::get_by_username(&env, b"alice001".to_vec()),
        Some(expected)
    );
    // The old owner is free to register again, the new one is not.
    assert_eq!(register(&mut env, b"second002", "A", &a), Ok(true));
    assert_eq!(register(&mut env, b"third003", "B", &b), Err(ProfileError::ProfileExists));
}

#[test]
fn unreserve_of_an_unreserved_name_changes_no_entry() {
    let (mut env, admin) = fresh();
    let name = b"stellar123".to_vec();
    assert!(!env.has(&ProfileKey::ReservedUsername(name.clone())));
    assert_eq!(
        UserProfileContract::unreserve_username(&mut env, name.clone(), admin.clone()),
        Ok(())
    );
    assert!(!env.has(&ProfileKey::ReservedUsername(name.clone())));
    assert!(UserProfileContract::is_username_available(&env, name.clone()));
    assert_eq!(UserProfileContract::admin(&env), Ok(admin.clone()));
    assert_eq!(UserProfileContract::profile_count(&env), 0);
    assert_eq!(
        UserProfileContract::unreserve_username(&mut env, name.clone(), admin),
        Ok(())
    );
    assert!(UserProfileContract::is_username_available(&env, name));
}

#[test]
fn remove_of_an_absent_field_is_no_error() {
    let (mut env, _admin) = fresh();
    let a = account("A");
    register(&mut env, b"alice001", "Alice", &a).unwrap();
    UserProfileContract::set_int_field(&mut env, String::from("age"), 25, a.clone()).unwrap();
    let events_before = env.events().len();
    assert_eq!(
        UserProfileContract::remove_field(&mut env, String::from("bio"), a.clone()),
        Ok(())
    );
    assert_eq!(
        UserProfileContract::remove_field(&mut env, String::from("bio"), a.clone()),
        Ok(())
    );
    assert_eq!(env.events().len(), events_before);
    assert_eq!(
        UserProfileContract::get_field(&env, a.clone(), String::from("age")),
        Some(FieldValue::IntField(25))
    );
    assert_eq!(UserProfileContract::get_field(&env, a.clone(), String::from("bio")), None);
    assert!(UserProfileContract::get_by_address(&env, a).is_some());
}

#[test]
fn deleted_stays_deleted() {
    let (mut env, admin) = fresh();
    let a = account("A");
    let b = account("B");
    register(&mut env, b"alice001", "Alice", &a).unwrap();
    UserProfileContract::delete_profile(&mut env, a.clone()).unwrap();
    assert_eq!(
        UserProfileContract::delete_profile(&mut env, a.clone()),
        Err(ProfileError::ProfileDeleted)
    );
    assert_eq!(
        UserProfileContract::set_display_name(&mut env, String::from("Back"), a.clone()),
        Err(ProfileError::ProfileDeleted)
    );
    assert_eq!(
        UserProfileContract::set_bool_field(&mut env, String::from("hiring"), true, a.clone()),
        Err(ProfileError::ProfileDeleted)
    );
    assert_eq!(
        UserProfileContract::remove_field(&mut env, String::from("hiring"), a.clone()),
        Err(ProfileError::ProfileDeleted)
    );
    assert_eq!(
        UserProfileContract::transfer(&mut env, b.clone(), a.clone()),
        Err(ProfileError::ProfileDeleted)
    );
    // A ban of a deleted profile succeeds and leaves it deleted.
    assert_eq!(UserProfileContract::ban_profile(&mut env, a.clone(), admin), Ok(()));
    assert_eq!(UserProfileContract::get_by_address(&env, a.clone()), None);
    assert_eq!(UserProfileContract::get_by_username(&env, b"alice001".to_vec()), None);
    assert!(env.has(&ProfileKey::Profile(a)));
}

#[test]
fn the_count_counts_registrations_not_profiles() {
    let (mut env, admin) = fresh();
    let a = account("A");
    let b = account("B");
    let c = account("C");
    register(&mut env, b"alice001", "Alice", &a).unwrap();
    register(&mut env, b"bobby002", "Bob", &b).unwrap();
    assert_eq!(UserProfileContract::profile_count(&env), 2);
    UserProfileContract::delete_profile(&mut env, a.clone()).unwrap();
    UserProfileContract::ban_profile(&mut env, b.clone(), admin).unwrap();
    assert_eq!(UserProfileContract::profile_count(&env), 2);
    register(&mut env, b"carol003", "Carol", &c).unwrap();
    assert_eq!(UserProfileContract::profile_count(&env), 3);
}

// ---------------------------------------------------------------- errors

#[test]
fn init_twice_is_refused() {
    let (mut env, admin) = fresh();
    assert_eq!(
        UserProfileContract::init(&mut env, account("other")),
        Err(ProfileError::AlreadyInitialized)
    );
    assert_eq!(UserProfileContract::admin(&env), Ok(admin));
}

#[test]
fn init_needs_the_admins_authorization() {
    let mut env = MemoryHost::new();
    let admin = account("admin");
    assert_eq!(
        UserProfileContract::init(&mut env, admin.clone()),
        Err(ProfileError::NotAuthorized)
    );
    assert_eq!(UserProfileContract::admin(&env), Err(ProfileError::NotInitialized));
    env.authorize(admin.clone());
    assert_eq!(UserProfileContract::init(&mut env, admin.clone()), Ok(()));
    assert_eq!(UserProfileContract::admin(&env), Ok(admin));
    assert_eq!(UserProfileContract::profile_count(&env), 0);
}

#[test]
fn queries_on_an_empty_registry() {
    let env = MemoryHost::new();
    assert_eq!(UserProfileContract::admin(&env), Err(ProfileError::NotInitialized));
    assert_eq!(UserProfileContract::profile_count(&env), 0);
    assert_eq!(UserProfileContract::registration_fee(&env), 0);
    assert_eq!(UserProfileContract::get_by_address(&env, account("A")), None);
    assert_eq!(UserProfileContract::get_by_username(&env, b"alice001".to_vec()), None);
    assert_eq!(UserProfileContract::get_field(&env, account("A"), String::from("bio")), None);
    assert!(UserProfileContract::is_username_available(&env, b"alice001".to_vec()));
}

#[test]
fn register_tests_in_order() {
    let mut env = MemoryHost::new();
    let admin = account("admin");
    let a = account("A");
    let b = account("B");

    // Authorization comes first, even where nothing else would pass.
    assert_eq!(register(&mut env, b"BAD", "x", &a), Err(ProfileError::NotAuthorized));
    env.authorize(a.clone());
    // Then initialization.
    assert_eq!(register(&mut env, b"BAD", "x", &a), Err(ProfileError::NotInitialized));
    env.authorize(admin.clone());
    UserProfileContract::init(&mut env, admin.clone()).unwrap();
    // Then the username's syntax.
    assert_eq!(register(&mut env, b"BAD", "x", &a), Err(ProfileError::InvalidUsername));
    assert_eq!(register(&mut env, b"Alice001", "x", &a), Err(ProfileError::InvalidUsername));
    // Then whether it is taken, before whether it is reserved.
    env.authorize(b.clone());
    assert_eq!(register(&mut env, b"bobby002", "Bob", &b), Ok(true));
    UserProfileContract::reserve_username(&mut env, b"bobby002".to_vec(), admin.clone()).unwrap();
    assert_eq!(register(&mut env, b"bobby002", "x", &a), Err(ProfileError::UsernameTaken));
    // Then whether it is reserved, before whether the caller has a profile.
    UserProfileContract::reserve_username(&mut env, b"stellar123".to_vec(), admin).unwrap();
    assert_eq!(register(&mut env, b"stellar123", "x", &b), Err(ProfileError::UsernameReserved));
    // Then whether the caller has a profile.
    assert_eq!(register(&mut env, b"other_003", "x", &b), Err(ProfileError::ProfileExists));
    assert_eq!(register(&mut env, b"other_003", "x", &a), Ok(true));
    assert_eq!(UserProfileContract::profile_count(&env), 2);
}

#[test]
fn a_refused_registration_leaves_no_trace() {
    let (mut env, _admin) = fresh();
    let a = account("A");
    let events_before = env.events().len();
    assert_eq!(register(&mut env, b"nodigits", "x", &a), Err(ProfileError::InvalidUsername));
    assert_eq!(env.events().len(), events_before);
    assert_eq!(UserProfileContract::profile_count(&env), 0);
    assert!(!env.has(&ProfileKey::Profile(a.clone())));
    assert!(!env.has(&ProfileKey::Username(b"nodigits".to_vec())));
}

#[test]
fn owner_operations_need_a_profile_and_authorization() {
    let mut env = MemoryHost::new();
    let admin = account("admin");
    let a = account("A");
    let b = account("B");
    env.authorize(admin.clone());
    env.authorize(a.clone());
    UserProfileContract::init(&mut env, admin).unwrap();

    assert_eq!(
        UserProfileContract::set_display_name(&mut env, String::from("x"), a.clone()),
        Err(ProfileError::ProfileNotFound)
    );
    assert_eq!(
        UserProfileContract::set_string_field(
            &mut env,
            String::from("bio"),
            String::from("x"),
            a.clone()
        ),
        Err(ProfileError::ProfileNotFound)
    );
    assert_eq!(
        UserProfileContract::remove_field(&mut env, String::from("bio"), a.clone()),
        Err(ProfileError::ProfileNotFound)
    );
    assert_eq!(
        UserProfileContract::delete_profile(&mut env, a.clone()),
        Err(ProfileError::ProfileNotFound)
    );
    assert_eq!(
        UserProfileContract::transfer(&mut env, account("C"), a.clone()),
        Err(ProfileError::NotAuthorized)
    );

    register(&mut env, b"alice001", "Alice", &a).unwrap();
    // B has not authorized anything.
    assert_eq!(
        UserProfileContract::set_display_name(&mut env, String::from("x"), b.clone()),
        Err(ProfileError::NotAuthorized)
    );
    assert_eq!(
        UserProfileContract::delete_profile(&mut env, b.clone()),
        Err(ProfileError::NotAuthorized)
    );
    // A transfer needs the consent of both.
    assert_eq!(
        UserProfileContract::transfer(&mut env, b.clone(), a.clone()),
        Err(ProfileError::NotAuthorized)
    );
    assert_eq!(UserProfileContract::get_by_address(&env, a.clone()).unwrap().owner, a);
    env.authorize(b.clone());
    assert_eq!(UserProfileContract::transfer(&mut env, b.clone(), a.clone()), Ok(()));
    assert_eq!(UserProfileContract::get_by_address(&env, b.clone()).unwrap().owner, b);
}

#[test]
fn transfer_is_refused_into_an_account_with_a_profile() {
    let (mut env, _admin) = fresh();
    let a = account("A");
    let b = account("B");
    register(&mut env, b"alice001", "Alice", &a).unwrap();
    register(&mut env, b"bobby002", "Bob", &b).unwrap();
    assert_eq!(
        UserProfileContract::transfer(&mut env, b.clone(), a.clone()),
        Err(ProfileError::ProfileExists)
    );
    assert_eq!(
        UserProfileContract::transfer(&mut env, a.clone(), a.clone()),
        Err(ProfileError::ProfileExists)
    );
    // A deleted profile blocks as an active one does.
    UserProfileContract::delete_profile(&mut env, b.clone()).unwrap();
    assert_eq!(
        UserProfileContract::transfer(&mut env, b.clone(), a.clone()),
        Err(ProfileError::ProfileExists)
    );
    assert_eq!(
        UserProfileContract::transfer(&mut env, a.clone(), account("C")),
        Err(ProfileError::ProfileNotFound)
    );
    assert_eq!(UserProfileContract::get_by_username(&env, b"alice001".to_vec()).unwrap().owner, a);
}

#[test]
fn admin_operations_are_for_the_admin_alone() {
    let mut env = MemoryHost::new();
    let admin = account("admin");
    let a = account("A");
    env.authorize(a.clone());

    // Before initialization nobody is the admin.
    assert_eq!(
        UserProfileContract::reserve_username(&mut env, b"stellar123".to_vec(), a.clone()),
        Err(ProfileError::NotInitialized)
    );
    assert_eq!(
        UserProfileContract::set_registration_fee(&mut env, 5, a.clone()),
        Err(ProfileError::NotInitialized)
    );
    assert_eq!(
        UserProfileContract::upgrade(&mut env, [7u8; 32]),
        Err(ProfileError::NotInitialized)
    );

    env.authorize(admin.clone());
    UserProfileContract::init(&mut env, admin.clone()).unwrap();
    env.clear_auths();
    env.authorize(a.clone());
    register(&mut env, b"alice001", "Alice", &a).unwrap();

    // An authorized caller who is not the admin.
    assert_eq!(
        UserProfileContract::reserve_username(&mut env, b"stellar123".to_vec(), a.clone()),
        Err(ProfileError::NotAuthorized)
    );
    assert_eq!(
        UserProfileContract::unreserve_username(&mut env, b"stellar123".to_vec(), a.clone()),
        Err(ProfileError::NotAuthorized)
    );
    assert_eq!(
        UserProfileContract::set_registration_fee(&mut env, 5, a.clone()),
        Err(ProfileError::NotAuthorized)
    );
    assert_eq!(
        UserProfileContract::ban_profile(&mut env, a.clone(), a.clone()),
        Err(ProfileError::NotAuthorized)
    );
    // The admin without authorization.
    assert_eq!(
        UserProfileContract::reserve_username(&mut env, b"stellar123".to_vec(), admin.clone()),
        Err(ProfileError::NotAuthorized)
    );
    assert_eq!(
        UserProfileContract::ban_profile(&mut env, a.clone(), admin.clone()),
        Err(ProfileError::NotAuthorized)
    );
    assert_eq!(UserProfileContract::upgrade(&mut env, [7u8; 32]), Err(ProfileError::NotAuthorized));
    assert!(UserProfileContract::is_username_available(&env, b"stellar123".to_vec()));
    assert_eq!(UserProfileContract::registration_fee(&env), 0);
    assert!(UserProfileContract::get_by_address(&env, a.clone()).is_some());
    assert!(env.code().is_empty());

    // The admin with authorization.
    env.authorize(admin.clone());
    assert_eq!(
        UserProfileContract::reserve_username(&mut env, b"ab".to_vec(), admin.clone()),
        Err(ProfileError::InvalidUsername)
    );
    assert_eq!(
        UserProfileContract::ban_profile(&mut env, account("nobody"), admin.clone()),
        Err(ProfileError::ProfileNotFound)
    );
    assert_eq!(UserProfileContract::ban_profile(&mut env, a.clone(), admin.clone()), Ok(()));
    assert_eq!(UserProfileContract::upgrade(&mut env, [7u8; 32]), Ok(()));
    assert_eq!(env.code(), &vec![7u8; 32]);
}

#[test]
fn reserving_a_taken_name_is_allowed() {
    let (mut env, admin) = fresh();
    let a = account("A");
    register(&mut env, b"alice001", "Alice", &a).unwrap();
    assert_eq!(
        UserProfileContract::reserve_username(&mut env, b"alice001".to_vec(), admin.clone()),
        Ok(())
    );
    assert_eq!(
        UserProfileContract::unreserve_username(&mut env, b"alice001".to_vec(), admin),
        Ok(())
    );
    // Still taken, so still not available.
    assert!(!UserProfileContract::is_username_available(&env, b"alice001".to_vec()));
    assert_eq!(UserProfileContract::get_by_username(&env, b"alice001".to_vec()).unwrap().owner, a);
}

#[test]
fn the_fee_takes_any_amount() {
    let (mut env, admin) = fresh();
    assert_eq!(UserProfileContract::registration_fee(&env), 0);
    UserProfileContract::set_registration_fee(&mut env, -5, admin.clone()).unwrap();
    assert_eq!(UserProfileContract::registration_fee(&env), -5);
    UserProfileContract::set_registration_fee(&mut env, i128::MAX, admin.clone()).unwrap();
    assert_eq!(UserProfileContract::registration_fee(&env), i128::MAX);
    UserProfileContract::set_registration_fee(&mut env, i128::MIN, admin).unwrap();
    assert_eq!(UserProfileContract::registration_fee(&env), i128::MIN);
    // The fee is stored, not charged.
    assert_eq!(register(&mut env, b"alice001", "Alice", &account("A")), Ok(true));
}

#[test]
fn error_codes() {
    let all = [
        (ProfileError::AlreadyInitialized, 1),
        (ProfileError::NotInitialized, 2),
        (ProfileError::NotAuthorized, 3),
        (ProfileError::InvalidUsername, 4),
        (ProfileError::UsernameTaken, 5),
        (ProfileError::UsernameReserved, 6),
        (ProfileError::ProfileNotFound, 7),
        (ProfileError::ProfileExists, 8),
        (ProfileError::ProfileDeleted, 9),
        (ProfileError::InvalidField, 10),
    ];
    for (error, code) in all {
        assert_eq!(error.code(), code);
        assert_eq!(ProfileError::from_code(code), Some(error));
    }
    assert_eq!(ProfileError::from_code(0), None);
    assert_eq!(ProfileError::from_code(11), None);
    assert_eq!(ProfileError::from_code(u32::MAX), None);
}

// ---------------------------------------------------------------- fields

#[test]
fn fields_are_typed_and_overwritten() {
    let (mut env, _admin) = fresh();
    let a = account("A");
    register(&mut env, b"alice001", "Alice", &a).unwrap();
    let field = String::from("x");
    UserProfileContract::set_int_field(&mut env, field.clone(), 0, a.clone()).unwrap();
    let v = UserProfileContract::get_field(&env, a.clone(), field.clone()).unwrap();
    assert_eq!(v.as_int(), Some(0));
    assert_eq!(v.as_bool(), None);
    assert_eq!(v.as_string(), None);
    assert_eq!(v.as_address(), None);
    assert_eq!(v.as_bytes(), None);
    UserProfileContract::set_bool_field(&mut env, field.clone(), false, a.clone()).unwrap();
    let v = UserProfileContract::get_field(&env, a.clone(), field.clone()).unwrap();
    assert_eq!(v.as_bool(), Some(false));
    assert_eq!(v.as_int(), None);
    UserProfileContract::set_string_field(&mut env, field.clone(), String::new(), a.clone())
        .unwrap();
    let v = UserProfileContract::get_field(&env, a.clone(), field.clone()).unwrap();
    assert_eq!(v.as_string(), Some(&String::new()));
    assert_eq!(v.as_bool(), None);
    // Another account's field of the same name is another field.
    assert_eq!(UserProfileContract::get_field(&env, account("B"), field), None);
}

#[test]
fn field_accessors_match_their_variant_only() {
    let who = account("ref");
    let v = FieldValue::AddressField(who.clone());
    assert_eq!(v.as_address(), Some(&who));
    assert_eq!(v.as_bytes(), None);
    assert_eq!(v.as_string(), None);
    let v = FieldValue::BytesField(vec![1, 2, 3]);
    assert_eq!(v.as_bytes(), Some(&vec![1u8, 2, 3]));
    assert_eq!(v.as_address(), None);
    assert_eq!(v.as_int(), None);
    let v = FieldValue::IntField(i128::MIN);
    assert_eq!(v.as_int(), Some(i128::MIN));
    assert_eq!(v.clone(), v);
}

#[test]
fn get_fields_answers_each_set_name_once_in_order() {
    let (mut env, _admin) = fresh();
    let a = account("A");
    register(&mut env, b"alice001", "Alice", &a).unwrap();
    UserProfileContract::set_string_field(
        &mut env,
        String::from("bio"),
        String::from("hi"),
        a.clone(),
    )
    .unwrap();
    UserProfileContract::set_int_field(&mut env, String::from("age"), 25, a.clone()).unwrap();
    UserProfileContract::set_bool_field(&mut env, String::from("hiring"), true, a.clone())
        .unwrap();
    UserProfileContract::remove_field(&mut env, String::from("hiring"), a.clone()).unwrap();

    let names = vec![
        String::from("age"),
        String::from("hiring"),
        String::from("missing"),
        String::from("bio"),
    ];
    let fields = UserProfileContract::get_fields(&env, a.clone(), names);
    assert_eq!(
        fields,
        vec![
            (String::from("age"), FieldValue::IntField(25)),
            (String::from("bio"), FieldValue::StringField(String::from("hi"))),
        ]
    );
    assert_eq!(UserProfileContract::get_fields(&env, a.clone(), Vec::new()), Vec::new());
    // A name that is asked for more than once is answered once, where it
    // occurs first.
    let repeated = vec![
        String::from("bio"),
        String::from("missing"),
        String::from("age"),
        String::from("bio"),
        String::from("missing"),
        String::from("bio"),
        String::from("age"),
    ];
    assert_eq!(
        UserProfileContract::get_fields(&env, a.clone(), repeated),
        vec![
            (String::from("bio"), FieldValue::StringField(String::from("hi"))),
            (String::from("age"), FieldValue::IntField(25)),
        ]
    );
    assert_eq!(
        UserProfileContract::get_fields(
            &env,
            a.clone(),
            vec![String::from("age"), String::from("age")]
        ),
        vec![(String::from("age"), FieldValue::IntField(25))]
    );
    assert_eq!(
        UserProfileContract::get_fields(&env, account("B"), vec![String::from("bio")]),
        Vec::new()
    );
}

#[test]
fn fields_survive_delete_and_stay_behind_on_transfer() {
    let (mut env, _admin) = fresh();
    let a = account("A");
    let b = account("B");
    register(&mut env, b"alice001", "Alice", &a).unwrap();
    UserProfileContract::set_int_field(&mut env, String::from("age"), 25, a.clone()).unwrap();
    UserProfileContract::transfer(&mut env, b.clone(), a.clone()).unwrap();
    assert_eq!(
        UserProfileContract::get_field(&env, a.clone(), String::from("age")),
        Some(FieldValue::IntField(25))
    );
    assert_eq!(UserProfileContract::get_field(&env, b.clone(), String::from("age")), None);
    UserProfileContract::delete_profile(&mut env, b.clone()).unwrap();
    assert_eq!(
        UserProfileContract::get_field(&env, a, String::from("age")),
        Some(FieldValue::IntField(25))
    );
}

// ------------------------------------------------------ time and lifetime

#[test]
fn timestamps_follow_the_ledger() {
    let (mut env, admin) = fresh();
    let a = account("A");
    env.set_sequence(100);
    register(&mut env, b"alice001", "Alice", &a).unwrap();
    let p = UserProfileContract::get_by_address(&env, a.clone()).unwrap();
    assert_eq!((p.created_at, p.updated_at), (100, 100));
    assert!(p.is_active());

    env.set_sequence(150);
    UserProfileContract::set_display_name(&mut env, String::from("Al"), a.clone()).unwrap();
    let p = UserProfileContract::get_by_address(&env, a.clone()).unwrap();
    assert_eq!((p.created_at, p.updated_at), (100, 150));
    assert_eq!(p.display_name, "Al");
    assert_eq!(p.username, b"alice001".to_vec());

    // A field does not touch the profile record.
    env.set_sequence(160);
    UserProfileContract::set_int_field(&mut env, String::from("age"), 1, a.clone()).unwrap();
    let p = UserProfileContract::get_by_address(&env, a.clone()).unwrap();
    assert_eq!(p.updated_at, 150);

    env.set_sequence(u32::MAX);
    UserProfileContract::ban_profile(&mut env, a.clone(), admin).unwrap();
    match env.get(&ProfileKey::Profile(a.clone())) {
        Some(StorageValue::Profile(p)) => {
            assert!(p.deleted);
            assert!(!p.is_active());
            assert_eq!(p.updated_at, u32::MAX as u64);
            assert_eq!(p.created_at, 100);
        }
        other => panic!("no profile: {:?}", other),
    }
}

#[test]
fn writes_refresh_lifetimes() {
    let (mut env, admin) = fresh();
    let a = account("A");
    let b = account("B");
    register(&mut env, b"alice001", "Alice", &a).unwrap();
    let username = ProfileKey::Username(b"alice001".to_vec());
    let profile = ProfileKey::Profile(a.clone());
    // New entries start under the threshold and are extended at once.
    assert_eq!(env.lifetime(&username), Some(PROFILE_TTL_EXTEND));
    assert_eq!(env.lifetime(&profile), Some(PROFILE_TTL_EXTEND));
    // The count, the admin and a reservation are not extended.
    assert_eq!(env.lifetime(&ProfileKey::ProfileCount), Some(4096));
    assert_eq!(env.lifetime(&ProfileKey::Admin), Some(4096));
    UserProfileContract::reserve_username(&mut env, b"stellar123".to_vec(), admin).unwrap();
    assert_eq!(env.lifetime(&ProfileKey::ReservedUsername(b"stellar123".to_vec())), Some(4096));
    assert_eq!(env.lifetime(&ProfileKey::Profile(b.clone())), None);

    UserProfileContract::set_int_field(&mut env, String::from("age"), 1, a.clone()).unwrap();
    let field = ProfileKey::Field(a.clone(), String::from("age"));
    assert_eq!(env.lifetime(&field), Some(PROFILE_TTL_EXTEND));

    // At or over the threshold nothing is extended, under it everything is.
    env.extend_ttl(&profile, u32::MAX, PROFILE_TTL_THRESHOLD);
    assert_eq!(env.lifetime(&profile), Some(PROFILE_TTL_THRESHOLD));
    UserProfileContract::set_display_name(&mut env, String::from("Al"), a.clone()).unwrap();
    assert_eq!(env.lifetime(&profile), Some(PROFILE_TTL_THRESHOLD));
    env.extend_ttl(&profile, u32::MAX, PROFILE_TTL_THRESHOLD - 1);
    assert_eq!(env.lifetime(&profile), Some(PROFILE_TTL_THRESHOLD - 1));
    UserProfileContract::set_display_name(&mut env, String::from("Alice"), a.clone()).unwrap();
    assert_eq!(env.lifetime(&profile), Some(PROFILE_TTL_EXTEND));

    env.extend_ttl(&username, u32::MAX, 7);
    UserProfileContract::transfer(&mut env, b.clone(), a.clone()).unwrap();
    assert_eq!(env.lifetime(&username), Some(PROFILE_TTL_EXTEND));
    assert_eq!(env.lifetime(&ProfileKey::Profile(b.clone())), Some(PROFILE_TTL_EXTEND));
    assert_eq!(env.lifetime(&profile), None);

    env.extend_ttl(&ProfileKey::Profile(b.clone()), u32::MAX, 7);
    UserProfileContract::delete_profile(&mut env, b.clone()).unwrap();
    assert_eq!(env.lifetime(&ProfileKey::Profile(b)), Some(PROFILE_TTL_EXTEND));
}

// ---------------------------------------------------------------- events

#[test]
fn each_change_publishes_its_event() {
    let (mut env, admin) = fresh();
    let a = account("A");
    let b = account("B");
    let name = b"alice001".to_vec();
    assert!(env.events().is_empty());
    register(&mut env, &name, "Alice", &a).unwrap();
    UserProfileContract::set_display_name(&mut env, String::from("Al"), a.clone()).unwrap();
    UserProfileContract::set_int_field(&mut env, String::from("age"), 1, a.clone()).unwrap();
    UserProfileContract::remove_field(&mut env, String::from("age"), a.clone()).unwrap();
    UserProfileContract::transfer(&mut env, b.clone(), a.clone()).unwrap();
    UserProfileContract::delete_profile(&mut env, b.clone()).unwrap();
    UserProfileContract::ban_profile(&mut env, b.clone(), admin.clone()).unwrap();
    UserProfileContract::reserve_username(&mut env, b"stellar123".to_vec(), admin.clone()).unwrap();
    UserProfileContract::unreserve_username(&mut env, b"stellar123".to_vec(), admin.clone())
        .unwrap();
    UserProfileContract::set_registration_fee(&mut env, 1, admin).unwrap();

    let expected = vec![
        Event::ProfileRegistered { address: a.clone(), username: name.clone() },
        Event::DisplayNameChanged { address: a.clone() },
        Event::ProfileUpdated { address: a.clone(), field: String::from("age") },
        Event::UsernameTransferred { username: name, from: a.clone(), to: b.clone() },
        Event::ProfileDeleted { address: b.clone() },
        Event::ProfileBanned { address: b.clone() },
        Event::UsernameReserved { username: b"stellar123".to_vec() },
        Event::UsernameUnreserved { username: b"stellar123".to_vec() },
    ];
    assert_eq!(env.events(), &expected);
    let topics: Vec<&str> = env.events().iter().map(|e| e.topic()).collect();
    assert_eq!(
        topics,
        vec![
            "profile_registered",
            "display_name_changed",
            "profile_updated",
            "username_transferred",
            "profile_deleted",
            "profile_banned",
            "username_reserved",
            "username_unreserved",
        ]
    );
}

#[test]
fn the_emitters_publish_one_event_each() {
    let mut env = MemoryHost::new();
    let a = account("A");
    let b = account("B");
    let name = b"alice001".to_vec();
    user_profile::events::emit_profile_registered(&mut env, &a, &name);
    user_profile::events::emit_profile_updated(&mut env, &a, &String::from("bio"));
    user_profile::events::emit_display_name_changed(&mut env, &a);
    user_profile::events::emit_profile_deleted(&mut env, &a);
    user_profile::events::emit_profile_banned(&mut env, &a);
    user_profile::events::emit_username_transferred(&mut env, &name, &a, &b);
    user_profile::events::emit_username_reserved(&mut env, &name);
    user_profile::events::emit_username_unreserved(&mut env, &name);
    let expected = vec![
        Event::ProfileRegistered { address: a.clone(), username: name.clone() },
        Event::ProfileUpdated { address: a.clone(), field: String::from("bio") },
        Event::DisplayNameChanged { address: a.clone() },
        Event::ProfileDeleted { address: a.clone() },
        Event::ProfileBanned { address: a.clone() },
        Event::UsernameTransferred { username: name.clone(), from: a.clone(), to: b },
        Event::UsernameReserved { username: name.clone() },
        Event::UsernameUnreserved { username: name },
    ];
    assert_eq!(env.events(), &expected);
    assert!(!env.has(&ProfileKey::Admin));
}

#[test]
fn profile_new_is_active_and_untouched() {
    let p = Profile::new(b"alice001".to_vec(), String::from("Alice"), account("A"), 42);
    assert_eq!(p.username, b"alice001".to_vec());
    assert_eq!(p.display_name, "Alice");
    assert_eq!(p.owner, account("A"));
    assert_eq!(p.created_at, 42);
    assert_eq!(p.updated_at, 42);
    assert!(!p.deleted);
    assert!(p.is_active());
    assert_eq!(p.clone(), p);
}

// ------------------------------------------------------- unusual storage

#[test]
fn a_value_of_another_kind_counts_as_absent() {
    let mut env = MemoryHost::new();
    env.mock_all_auths();
    env.set(&ProfileKey::Admin, StorageValue::Count(3));
    env.set(&ProfileKey::ProfileCount, StorageValue::Flag(true));
    env.set(&ProfileKey::RegistrationFee, StorageValue::Count(9));
    let a = account("A");
    env.set(&ProfileKey::Profile(a.clone()), StorageValue::Amount(1));
    env.set(&ProfileKey::Username(b"alice001".to_vec()), StorageValue::Flag(true));
    env.set(&ProfileKey::Field(a.clone(), String::from("bio")), StorageValue::Count(1));

    assert_eq!(UserProfileContract::admin(&env), Err(ProfileError::NotInitialized));
    assert_eq!(UserProfileContract::profile_count(&env), 0);
    assert_eq!(UserProfileContract::registration_fee(&env), 0);
    assert_eq!(UserProfileContract::get_by_address(&env, a.clone()), None);
    assert_eq!(UserProfileContract::get_by_username(&env, b"alice001".to_vec()), None);
    assert_eq!(UserProfileContract::get_field(&env, a.clone(), String::from("bio")), None);
    // The keys are there all the same.
    assert_eq!(
        UserProfileContract::init(&mut env, account("admin")),
        Err(ProfileError::AlreadyInitialized)
    );
    assert!(!UserProfileContract::is_username_available(&env, b"alice001".to_vec()));
    assert_eq!(register(&mut env, b"alice001", "x", &a), Err(ProfileError::UsernameTaken));
    assert_eq!(register(&mut env, b"other_002", "x", &a), Err(ProfileError::ProfileExists));
    assert_eq!(
        UserProfileContract::delete_profile(&mut env, a),
        Err(ProfileError::ProfileNotFound)
    );
}

#[test]
fn a_profile_in_a_foreign_slot_is_not_the_callers() {
    let (mut env, _admin) = fresh();
    let a = account("A");
    let b = account("B");
    let foreign = Profile::new(b"bobby002".to_vec(), String::from("Bob"), b, 1);
    env.set(&ProfileKey::Profile(a.clone()), StorageValue::Profile(foreign.clone()));
    assert_eq!(
        UserProfileContract::set_display_name(&mut env, String::from("x"), a.clone()),
        Err(ProfileError::NotAuthorized)
    );
    assert_eq!(
        UserProfileContract::delete_profile(&mut env, a.clone()),
        Err(ProfileError::NotAuthorized)
    );
    assert_eq!(
        UserProfileContract::transfer(&mut env, account("C"), a.clone()),
        Err(ProfileError::NotAuthorized)
    );
    assert_eq!(env.get(&ProfileKey::Profile(a)), Some(StorageValue::Profile(foreign)));
}

#[test]
fn the_count_stops_at_the_largest_number() {
    let (mut env, _admin) = fresh();
    env.set(&ProfileKey::ProfileCount, StorageValue::Count(u64::MAX - 1));
    register(&mut env, b"alice001", "Alice", &account("A")).unwrap();
    assert_eq!(UserProfileContract::profile_count(&env), u64::MAX);
    register(&mut env, b"bobby002", "Bob", &account("B")).unwrap();
    assert_eq!(UserProfileContract::profile_count(&env), u64::MAX);
    assert!(UserProfileContract::get_by_address(&env, account("B")).is_some());
}

#[test]
fn a_missing_count_starts_at_zero() {
    let (mut env, _admin) = fresh();
    env.remove(&ProfileKey::ProfileCount);
    assert_eq!(UserProfileContract::profile_count(&env), 0);
    register(&mut env, b"alice001", "Alice", &account("A")).unwrap();
    assert_eq!(UserProfileContract::profile_count(&env), 1);
}

#[test]
fn conventional_field_names() {
    assert_eq!(standard_fields::BIO, "bio");
    assert_eq!(standard_fields::AVATAR, "avatar");
    assert_eq!(standard_fields::HOMEPAGE, "homepage");
    assert_eq!(standard_fields::LOCATION, "location");
    assert_eq!(standard_fields::GITHUB, "github");
    assert_eq!(standard_fields::TWITTER, "twitter");
    assert_eq!(standard_fields::EMAIL, "email");
    assert_eq!(standard_fields::AVAILABLE_FOR_HIRING, "hiring");
    let (mut env, _admin) = fresh();
    let a = account("A");
    register(&mut env, b"alice001", "Alice", &a).unwrap();
    UserProfileContract::set_bool_field(
        &mut env,
        String::from(standard_fields::AVAILABLE_FOR_HIRING),
        true,
        a.clone(),
    )
    .unwrap();
    assert_eq!(
        UserProfileContract::get_field(&env, a, String::from("hiring")),
        Some(FieldValue::BoolField(true))
    );
}
