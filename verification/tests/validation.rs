use user_profile::validation::{is_digit, is_lowercase_letter, is_valid_middle_char};
use user_profile::{
    normalize_username, validate_username, MAX_USERNAME_LENGTH, MIN_USERNAME_LENGTH,
};

#[test]
fn test_valid_usernames() {
    assert!(validate_username(b"abc123"));
    assert!(validate_username(b"alice001"));
    assert!(validate_username(b"bob_smith123"));
    assert!(validate_username(b"crypto_fan_999"));
    assert!(validate_username(b"abcdefghijklmn123")); // 17 chars max
}

#[test]
fn test_invalid_usernames() {
    // Too short
    assert!(!validate_username(b"ab123")); // only 2 letters
    assert!(!validate_username(b"abc12")); // only 2 digits

    // Too long
    assert!(!validate_username(b"abcdefghijklmnop123")); // 19 chars

    // Doesn't start with 3 letters
    assert!(!validate_username(b"ab1123"));
    assert!(!validate_username(b"123abc"));

    // Doesn't end with 3 digits
    assert!(!validate_username(b"abcdef"));
    assert!(!validate_username(b"abc12a"));

    // Invalid characters
    assert!(!validate_username(b"abc-123")); // hyphen not allowed
    assert!(!validate_username(b"ABC123")); // uppercase not allowed
    assert!(!validate_username(b"abc.123")); // dot not allowed
}

#[test]
fn length_bounds_are_six_and_seventeen() {
    assert_eq!(MIN_USERNAME_LENGTH, 6);
    assert_eq!(MAX_USERNAME_LENGTH, 17);
    assert!(!validate_username(b""));
    assert!(!validate_username(b"abc12"));
    assert!(validate_username(b"abc123"));
    assert!(validate_username(b"abcdefghijklmn123"));
    assert!(!validate_username(b"abcdefghijklmno123")); // 18 bytes
}

#[test]
fn every_length_outside_the_bounds_is_refused() {
    for len in 0usize..40 {
        if len >= 6 && len <= 17 {
            continue;
        }
        let mut name = vec![b'a'; len];
        for i in 0..len.min(3) {
            name[len - 1 - i] = b'1';
        }
        assert!(!validate_username(&name), "length {}", len);
    }
}

#[test]
fn every_length_within_the_bounds_is_accepted() {
    for len in 6usize..=17 {
        let mut name = vec![b'a'; len];
        for i in 0..3 {
            name[len - 1 - i] = b'7';
        }
        assert!(validate_username(&name), "length {}", len);
    }
}

#[test]
fn one_byte_mutations_follow_the_position() {
    let base = b"bob_smith123";
    assert!(validate_username(base));
    let len = base.len();
    for i in 0..len {
        for b in 0u8..=255 {
            let mut name = base.to_vec();
            name[i] = b;
            let lower = b.is_ascii_lowercase();
            let digit = b.is_ascii_digit();
            let expected = if i < 3 {
                lower
            } else if i >= len - 3 {
                digit
            } else {
                lower || digit || b == b'_'
            };
            assert_eq!(validate_username(&name), expected, "position {} byte {}", i, b);
        }
    }
}

#[test]
fn the_middle_takes_underscores_and_digits_the_ends_do_not() {
    assert!(validate_username(b"abc_123"));
    assert!(validate_username(b"abc9123"));
    assert!(validate_username(b"abc___________123"));
    assert!(!validate_username(b"_bc0123"));
    assert!(!validate_username(b"a_c0123"));
    assert!(!validate_username(b"abc012_"));
    assert!(!validate_username(b"abcd1_3"));
    assert!(!validate_username(b"abc 123"));
    assert!(!validate_username(b"abc\x00123"));
    assert!(!validate_username(b"abc\xff123"));
}

#[test]
fn byte_classes() {
    assert!(is_lowercase_letter(b'a'));
    assert!(is_lowercase_letter(b'z'));
    assert!(!is_lowercase_letter(b'`'));
    assert!(!is_lowercase_letter(b'{'));
    assert!(!is_lowercase_letter(b'A'));
    assert!(is_digit(b'0'));
    assert!(is_digit(b'9'));
    assert!(!is_digit(b'/'));
    assert!(!is_digit(b':'));
    assert!(is_valid_middle_char(b'_'));
    assert!(is_valid_middle_char(b'q'));
    assert!(is_valid_middle_char(b'5'));
    assert!(!is_valid_middle_char(b'-'));
    assert!(!is_valid_middle_char(b'Q'));
}

#[test]
fn normalize_returns_valid_names_unchanged() {
    assert_eq!(normalize_username(b"alice001"), Some(b"alice001".to_vec()));
    assert_eq!(normalize_username(b"crypto_fan_999"), Some(b"crypto_fan_999".to_vec()));
    assert_eq!(normalize_username(b"abc123"), Some(b"abc123".to_vec()));
    assert_eq!(normalize_username(b"abcdefghijklmn123"), Some(b"abcdefghijklmn123".to_vec()));
}

#[test]
fn normalize_asks_whether_the_lowered_name_would_be_valid() {
    // Valid once lowered: the answer is yes, and the name comes back as given.
    assert_eq!(normalize_username(b"ABC123"), Some(b"ABC123".to_vec()));
    assert_eq!(normalize_username(b"Alice001"), Some(b"Alice001".to_vec()));
    assert_eq!(normalize_username(b"ALICE001"), Some(b"ALICE001".to_vec()));
    assert_eq!(normalize_username(b"Bob_Smith123"), Some(b"Bob_Smith123".to_vec()));
    assert_eq!(normalize_username(b"abZ_Z_9Z123"), Some(b"abZ_Z_9Z123".to_vec()));
    // It is no validation: the same names are not valid.
    assert!(!validate_username(b"ABC123"));
    assert!(!validate_username(b"Alice001"));
    assert!(!validate_username(b"ALICE001"));
    assert!(!validate_username(b"Bob_Smith123"));
}

#[test]
fn normalize_refuses_what_lowering_does_not_mend() {
    assert_eq!(normalize_username(b"abc-123"), None);
    assert_eq!(normalize_username(b"ab123"), None);
    assert_eq!(normalize_username(b"abcdefghijklmnop123"), None);
    assert_eq!(normalize_username(b"abcdef"), None);
    assert_eq!(normalize_username(b"ABCDEF"), None);
    assert_eq!(normalize_username(b"AB1234"), None);
    assert_eq!(normalize_username(b"ABC12A"), None);
    assert_eq!(normalize_username(b"ABC.123"), None);
    assert_eq!(normalize_username(b"AB@123"), None); // the byte before `A`
    assert_eq!(normalize_username(b"AB[123"), None); // the byte after `Z`
    assert_eq!(normalize_username(b"ABCDEFGHIJKLMNO123"), None); // 18 bytes
    assert_eq!(normalize_username(b""), None);
}

#[test]
fn normalize_follows_lowering_byte_by_byte() {
    let base = b"Bob_Smith123";
    let len = base.len();
    for i in 0..len {
        for b in 0u8..=255 {
            let mut name = base.to_vec();
            name[i] = b;
            let lowered: Vec<u8> = name.iter().map(|c| c.to_ascii_lowercase()).collect();
            let expected = if validate_username(&lowered) { Some(name.clone()) } else { None };
            assert_eq!(normalize_username(&name), expected, "position {} byte {}", i, b);
        }
    }
}
