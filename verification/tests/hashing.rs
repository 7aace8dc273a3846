use kinesis_db::bcrypt::{
    hash, hash_with_result, same_bytes, split_hash, verify, BcryptError, HashParts, Version,
    _hash_password, DEFAULT_COST, MAX_COST, MIN_COST,
};
use kinesis_db::cipher::bcrypt;

const PASSWORD_HASH: &str = "$2a$10$dXJ3SW6G7P50lGmMkkmwe.20cQQubK3.HZWzG3YB1tlRy.fqvM/BG";

fn salt_of(text: &str) -> Vec<u8> {
    base64::decode_config(text, base64::BCRYPT).unwrap()
}

fn payload(length: usize) -> String {
    let symbols = "abcdefghijklmnopqrstuvwxyzABCDEFGHIJKLMNOPQRSTUVWXYZ0123456789./";
    symbols.chars().cycle().take(length).collect()
}

#[test]
fn own_hash_verifies_for_each_cost_and_tag() {
    for cost in [4u32, 5, 6] {
        let parts = hash_with_result(b"correct horse", cost).unwrap();
        for version in [Version::TwoA, Version::TwoB, Version::TwoX, Version::TwoY] {
            let text = parts.format_for_version(version);
            assert_eq!(verify(b"correct horse", &text).unwrap(), true);
        }
    }
}

#[test]
fn own_hash_verifies_for_short_and_long_passwords() {
    let long = vec![b'x'; 72];
    for password in [&b"a"[..], &b"hunter2"[..], &long[..]] {
        let parts = hash_with_result(password, 4).unwrap();
        assert_eq!(verify(password, &parts.format()).unwrap(), true);
    }
}

#[test]
fn other_password_does_not_verify() {
    let text = hash(b"first password", 4).unwrap();
    assert_eq!(verify(b"second password", &text).unwrap(), false);
    assert_eq!(verify(b"first passwore", &text).unwrap(), false);
    assert_eq!(verify(b"", &text).unwrap(), false);
}

#[test]
fn hash_text_has_the_fixed_shape() {
    for cost in [4u32, 9, 10, 11] {
        let text = hash(b"shape", cost).unwrap();
        assert_eq!(text.len(), 60);
        assert_eq!(&text[..4], "$2b$");
        assert_eq!(&text[4..6], format!("{:02}", cost));
        assert_eq!(&text[6..7], "$");
        assert!(text[7..]
            .chars()
            .all(|c| c.is_ascii_alphanumeric() || c == '.' || c == '/'));
    }
}

#[test]
fn hash_text_length_is_the_same_under_each_tag() {
    let parts = hash_with_result(b"shape", 4).unwrap();
    for version in [Version::TwoA, Version::TwoB, Version::TwoX, Version::TwoY] {
        assert_eq!(parts.format_for_version(version).len(), 60);
    }
}

#[test]
fn digest_depends_on_the_inputs_alone() {
    let salt = [7u8; 16];
    let mut first = [0u8; 24];
    let mut second = [0xffu8; 24];
    bcrypt(5, &salt, b"same key\0", &mut first);
    bcrypt(5, &salt, b"same key\0", &mut second);
    assert_eq!(first, second);
}

#[test]
fn stored_hash_of_other_length_is_no_match_and_no_error() {
    let text = hash(b"length", 4).unwrap();
    let mut shorter = String::from(&text[..58]);
    shorter.push_str(".=");
    assert_eq!(shorter.len(), 60);
    assert_eq!(verify(b"length", &shorter).unwrap(), false);
}

#[test]
fn same_bytes_compares_whole_strings() {
    assert!(same_bytes(&[1, 2, 3], &[1, 2, 3]));
    assert!(!same_bytes(&[1, 2, 3], &[1, 2, 4]));
    assert!(!same_bytes(&[0, 2, 3], &[1, 2, 3]));
    assert!(!same_bytes(&[1, 2, 3], &[1, 2]));
    assert!(same_bytes(&[], &[]));
}

#[test]
fn text_without_parts_is_an_invalid_hash() {
    match verify(b"password", "notavalidhash") {
        Err(BcryptError::InvalidHash(text)) => assert_eq!(text, "notavalidhash"),
        other => panic!("{:?}", other),
    }
}

#[test]
fn unknown_tag_is_an_invalid_prefix() {
    let text = format!("$9a$12${}", payload(53));
    match verify(b"password", &text) {
        Err(BcryptError::InvalidPrefix(tag)) => assert_eq!(tag, "9a"),
        other => panic!("{:?}", other),
    }
}

#[test]
fn cost_that_is_no_number_is_an_invalid_cost() {
    let text = format!("$2b$xx${}", payload(53));
    match verify(b"password", &text) {
        Err(BcryptError::InvalidCost(cost)) => assert_eq!(cost, "xx"),
        other => panic!("{:?}", other),
    }
}

#[test]
fn payload_of_other_length_is_an_invalid_hash() {
    let text = format!("$2b$12${}", payload(52));
    match verify(b"password", &text) {
        Err(BcryptError::InvalidHash(whole)) => assert_eq!(whole, text),
        other => panic!("{:?}", other),
    }
    let text = format!("$2b$12${}", payload(54));
    assert!(matches!(split_hash(&text), Err(BcryptError::InvalidHash(_))));
}

#[test]
fn four_parts_are_an_invalid_hash() {
    let text = format!("$2b$12${}$more", payload(53));
    assert!(matches!(split_hash(&text), Err(BcryptError::InvalidHash(_))));
}

#[test]
fn salt_outside_the_alphabet_is_invalid_base64() {
    let mut text = String::from("$2b$04$");
    text.push_str("!!!!!!!!!!!!!!!!!!!!!!");
    text.push_str(&payload(31));
    assert!(matches!(verify(b"password", &text), Err(BcryptError::InvalidBase64(_))));
}

#[test]
fn salt_with_bits_behind_its_last_byte_is_invalid_base64() {
    let mut text = String::from("$2b$04$");
    text.push_str("dXJ3SW6G7P50lGmMkkmwe/");
    text.push_str(&payload(31));
    assert!(matches!(verify(b"password", &text), Err(BcryptError::InvalidBase64(_))));
}

#[test]
fn stored_hash_outside_the_alphabet_is_invalid_base64() {
    let mut text = String::from(&PASSWORD_HASH[..59]);
    text.push('*');
    assert!(matches!(verify(b"password", &text), Err(BcryptError::InvalidBase64(_))));
}

#[test]
fn parsing_does_not_hold_the_cost_against_its_range() {
    let text = format!("$2b$99${}", payload(53));
    let parts = split_hash(&text).unwrap();
    assert_eq!(parts.get_cost(), 99);
    match verify(b"password", &format!("$2b$03${}{}", "dXJ3SW6G7P50lGmMkkmwe.", payload(31))) {
        Err(BcryptError::CostNotAllowed(cost)) => assert_eq!(cost, 3),
        other => panic!("{:?}", other),
    }
}

#[test]
fn cost_may_carry_a_plus_sign() {
    let text = format!("$2b$+7${}", payload(53));
    assert_eq!(split_hash(&text).unwrap().get_cost(), 7);
    let text = format!("$2b$-7${}", payload(53));
    assert!(matches!(split_hash(&text), Err(BcryptError::InvalidCost(_))));
    let text = format!("$2b$4294967296${}", payload(53));
    assert!(matches!(split_hash(&text), Err(BcryptError::InvalidCost(_))));
    let text = format!("$2b$4294967295${}", payload(53));
    assert_eq!(split_hash(&text).unwrap().get_cost(), 4294967295);
}

#[test]
fn known_answer_for_password_at_cost_ten() {
    let salt = salt_of("dXJ3SW6G7P50lGmMkkmwe.");
    assert_eq!(salt.len(), 16);
    let parts = _hash_password(b"password", 10, &salt).unwrap();
    assert_eq!(parts.get_cost(), 10);
    assert_eq!(parts.get_salt(), "dXJ3SW6G7P50lGmMkkmwe.");
    assert_eq!(parts.format_for_version(Version::TwoA), PASSWORD_HASH);
    assert_eq!(&parts.format()[29..], "20cQQubK3.HZWzG3YB1tlRy.fqvM/BG");
    assert_eq!(verify(b"password", PASSWORD_HASH).unwrap(), true);
    assert_eq!(verify(b"Password", PASSWORD_HASH).unwrap(), false);
}

#[test]
fn known_answers_of_other_implementations() {
    let vectors = [
        ("password", "$2y$05$bvIG6Nmid91Mu9RcmmWZfO5HJIMCT8riNW0hEp8f6/FuA2/mHZFpe"),
        ("U*U", "$2a$05$CCCCCCCCCCCCCCCCCCCCC.E5YPO9kmyuRGyh0XouQYb4YMJKvyOeW"),
        ("U*U*", "$2a$05$CCCCCCCCCCCCCCCCCCCCC.VGOzA784oUp/Z0DY336zx7pLYAy0lwK"),
        ("U*U*U", "$2a$05$XXXXXXXXXXXXXXXXXXXXXOAcXxm9kjPGEMsLznoKqmqw7tc8WCx4a"),
        ("", "$2a$06$DCq7YPn5Rq63x1Lad4cll.TV4S6ytwfsfvkgY8jIucDrjc8deX1s."),
        ("a", "$2a$06$m0CrhHm10qJ3lXRY.5zDGO3rS2KdeeWLuGmsfGlMfOxih58VYVfxe"),
        ("abc", "$2a$06$If6bvum7DFjUnE9p2uDeDu0YHzrHM6tf.iqN8.yx.jNN1ILEf7h0i"),
    ];
    for (password, text) in vectors {
        assert_eq!(verify(password.as_bytes(), text).unwrap(), true);
        let parts = split_hash(text).unwrap();
        let again = _hash_password(password.as_bytes(), parts.get_cost(), &salt_of(&parts.get_salt()))
            .unwrap();
        assert_eq!(again, parts);
    }
}

#[test]
fn raw_digest_of_a_known_vector() {
    let salt = salt_of("CCCCCCCCCCCCCCCCCCCCC.");
    let mut output = [0u8; 24];
    bcrypt(5, &salt, b"U*U\0", &mut output);
    let expected = base64::decode_config("E5YPO9kmyuRGyh0XouQYb4YMJKvyOeW", base64::BCRYPT).unwrap();
    assert_eq!(&output[..23], &expected[..]);
}

#[test]
fn every_salt_byte_changes_the_digest() {
    let salt = [0x5au8; 16];
    let mut digest = [0u8; 24];
    bcrypt(4, &salt, b"password\0", &mut digest);
    for at in 0..16 {
        let mut other = salt;
        other[at] ^= 1;
        let mut changed = [0u8; 24];
        bcrypt(4, &other, b"password\0", &mut changed);
        assert_ne!(digest, changed);
    }
}

#[test]
fn fresh_salts_differ() {
    let first = hash_with_result(b"password", 4).unwrap();
    let second = hash_with_result(b"password", 4).unwrap();
    assert_ne!(first.get_salt(), second.get_salt());
    assert_eq!(first.get_salt().len(), 22);
}

#[test]
fn cost_outside_the_range_is_not_allowed() {
    for cost in [0u32, 3, 32, 100] {
        match hash(b"password", cost) {
            Err(BcryptError::CostNotAllowed(refused)) => assert_eq!(refused, cost),
            other => panic!("{:?}", other),
        }
        assert!(matches!(hash_with_result(b"password", cost), Err(BcryptError::CostNotAllowed(_))));
    }
    assert_eq!(MIN_COST, 4);
    assert_eq!(MAX_COST, 31);
    assert_eq!(DEFAULT_COST, 12);
}

#[test]
fn password_with_a_zero_byte_is_invalid() {
    assert!(matches!(hash(b"pass\0word", 4), Err(BcryptError::InvalidPassword)));
    assert!(matches!(
        _hash_password(b"\0", 4, &[0u8; 16]),
        Err(BcryptError::InvalidPassword)
    ));
    let long: Vec<u8> = std::iter::repeat(b'a').take(100).chain(std::iter::once(0)).collect();
    assert!(matches!(hash(&long, 4), Err(BcryptError::InvalidPassword)));
    assert!(matches!(
        verify(b"pass\0word", PASSWORD_HASH),
        Err(BcryptError::InvalidPassword)
    ));
}

#[test]
fn cost_is_checked_before_the_password() {
    assert!(matches!(hash(b"pass\0word", 3), Err(BcryptError::CostNotAllowed(3))));
}

#[test]
fn what_lies_beyond_72_bytes_is_left_out() {
    let salt = [3u8; 16];
    let base: Vec<u8> = (0..72u8).map(|i| b'a' + i % 26).collect();
    let mut longer = base.clone();
    longer.extend_from_slice(b"tail");
    let mut other = base.clone();
    other[71] = b'!';
    let short = _hash_password(&base, 4, &salt).unwrap();
    assert_eq!(_hash_password(&longer, 4, &salt).unwrap(), short);
    assert_ne!(_hash_password(&other, 4, &salt).unwrap(), short);
    assert_ne!(_hash_password(&base[..71], 4, &salt).unwrap(), short);
}

#[test]
fn empty_password_is_hashed_as_a_zero_byte() {
    assert_eq!(
        verify(b"", "$2a$06$DCq7YPn5Rq63x1Lad4cll.TV4S6ytwfsfvkgY8jIucDrjc8deX1s.").unwrap(),
        true
    );
}

#[test]
fn format_is_under_2b_and_to_string_under_2y() {
    let parts = _hash_password(b"hunter2", 12, &[0u8; 16]).unwrap();
    assert_eq!(
        parts.format_for_version(Version::TwoA),
        "$2a$12$......................21jzCB1r6pN6rp5O2Ev0ejjTAboskKm"
    );
    assert_eq!(
        parts.format_for_version(Version::TwoX),
        "$2x$12$......................21jzCB1r6pN6rp5O2Ev0ejjTAboskKm"
    );
    assert_eq!(
        parts.to_string(),
        "$2y$12$......................21jzCB1r6pN6rp5O2Ev0ejjTAboskKm"
    );
    assert_eq!(parts.format(), "$2b$12$......................21jzCB1r6pN6rp5O2Ev0ejjTAboskKm");
}

#[test]
fn version_tags() {
    assert_eq!(Version::TwoA.as_str(), "2a");
    assert_eq!(Version::TwoB.as_str(), "2b");
    assert_eq!(Version::TwoX.as_str(), "2x");
    assert_eq!(Version::TwoY.as_str(), "2y");
}

#[test]
fn cost_of_one_digit_gets_a_zero_in_front() {
    let parts = _hash_password(b"password", 4, &[1u8; 16]).unwrap();
    assert_eq!(&parts.format()[..7], "$2b$04$");
    let parts = split_hash(&format!("$2b$123${}", payload(53))).unwrap();
    assert_eq!(&parts.format()[..8], "$2b$123$");
}

#[test]
fn parse_gives_back_what_format_wrote() {
    let parts = _hash_password(b"round trip", 5, &[9u8; 16]).unwrap();
    for version in [Version::TwoA, Version::TwoB, Version::TwoX, Version::TwoY] {
        let text = parts.format_for_version(version);
        assert_eq!(HashParts::from_str(&text).unwrap(), parts);
    }
}

#[test]
fn parse_takes_the_first_22_characters_as_the_salt() {
    let text = format!("$2y$31${}", payload(53));
    let parts = split_hash(&text).unwrap();
    assert_eq!(parts.get_cost(), 31);
    assert_eq!(parts.get_salt(), payload(53)[..22]);
    assert_eq!(parts.to_string(), text);
}

#[test]
fn empty_pieces_between_separators_are_passed_over() {
    let text = format!("$$2b$$04$${}$", payload(53));
    assert_eq!(split_hash(&text).unwrap().get_cost(), 4);
    let text = format!("2b$04${}", payload(53));
    assert_eq!(split_hash(&text).unwrap().get_cost(), 4);
}

#[test]
fn errors_write_their_messages() {
    assert_eq!(
        hash(b"password", 3).unwrap_err().to_string(),
        "Cost needs to be between 4 and 31, got 3"
    );
    assert_eq!(
        hash(b"pass\0word", 4).unwrap_err().to_string(),
        "Invalid password: contains NULL byte"
    );
    assert_eq!(
        verify(b"password", "notavalidhash").unwrap_err().to_string(),
        "Invalid hash: notavalidhash"
    );
    assert_eq!(
        verify(b"password", &format!("$9a$12${}", payload(53))).unwrap_err().to_string(),
        "Invalid Prefix: 9a"
    );
    assert_eq!(
        verify(b"password", &format!("$2b$xx${}", payload(53))).unwrap_err().to_string(),
        "Invalid Cost: xx"
    );
    let mut text = String::from("$2b$04$");
    text.push_str("!!!!!!!!!!!!!!!!!!!!!!");
    text.push_str(&payload(31));
    assert_eq!(
        verify(b"password", &text).unwrap_err().to_string(),
        "Base64 error: Invalid byte 33, offset 0."
    );
}

#[test]
fn payload_is_counted_in_characters() {
    let payload: String = std::iter::repeat('é').take(53).collect();
    let text = format!("$2b$04${}", payload);
    let parts = split_hash(&text).unwrap();
    assert_eq!(parts.get_salt().chars().count(), 22);
    assert_eq!(parts.format(), text);
    assert!(matches!(verify(b"password", &text), Err(BcryptError::InvalidBase64(_))));
}

#[test]
fn hash_parts_parse_from_a_string() {
    let parts: HashParts = PASSWORD_HASH.parse().unwrap();
    assert_eq!(parts.get_cost(), 10);
    assert_eq!(parts.get_salt(), "dXJ3SW6G7P50lGmMkkmwe.");
    assert!(matches!("nothing".parse::<HashParts>(), Err(BcryptError::InvalidHash(_))));
}

#[test]
fn a_decoder_error_becomes_an_error_of_the_library() {
    let error = base64::decode_config("!", base64::BCRYPT).unwrap_err();
    let made: BcryptError = error.clone().into();
    match made {
        BcryptError::InvalidBase64(inner) => assert_eq!(inner, error),
        other => panic!("{:?}", other),
    }
}
