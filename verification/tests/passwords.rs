use login_core::generate_password;
use login_core::generate_virtual_word;
use login_core::is_consecutive;
use login_core::validate_password;
use login_core::PolicyError;

/// The letters of one group in order — either case, with the digit slot
/// left out — must have no two neighbours that are case-insensitively equal
/// or adjacent in the alphabet.
fn assert_no_forbidden_neighbours(group: &str) {
    let letters: Vec<char> = group
        .chars()
        .filter(|c| c.is_ascii_alphabetic())
        .map(|c| c.to_ascii_lowercase())
        .collect();
    for pair in letters.windows(2) {
        let gap = (pair[0] as i32 - pair[1] as i32).abs();
        assert!(gap > 1, "forbidden neighbours {:?} in group {:?}", pair, group);
    }
}

#[test]
fn generated_password_has_the_documented_shape() {
    for _ in 0..40 {
        let password = generate_password();
        assert_eq!(password.chars().count(), 20, "password {:?}", password);
        let bytes: Vec<char> = password.chars().collect();
        assert_eq!(bytes[6], '-');
        assert_eq!(bytes[13], '-');
        let groups: Vec<&str> = password.split('-').collect();
        assert_eq!(groups.len(), 3);

        let mut digit_slots = Vec::new();
        let mut upper_slots = Vec::new();
        for (g, group) in groups.iter().enumerate() {
            assert_eq!(group.chars().count(), 6);
            for (k, c) in group.chars().enumerate() {
                if c.is_ascii_digit() {
                    digit_slots.push((g, k));
                } else if c.is_ascii_uppercase() {
                    upper_slots.push((g, k));
                } else {
                    assert!(c.is_ascii_lowercase(), "unexpected {:?} in {:?}", c, password);
                }
            }
            assert_no_forbidden_neighbours(group);
        }
        assert_eq!(digit_slots.len(), 1, "exactly one digit in {:?}", password);
        assert_eq!(upper_slots.len(), 1, "exactly one uppercase in {:?}", password);
        let (dg, dp) = digit_slots[0];
        let (ug, up) = upper_slots[0];
        assert_ne!(dg, ug, "digit and uppercase share a group in {:?}", password);
        assert_ne!(dp, up, "digit and uppercase share a position in {:?}", password);
    }
}

#[test]
fn virtual_word_fills_around_a_digit() {
    for _ in 0..40 {
        let mut group = vec![None, None, Some('5'), None, None, None];
        generate_virtual_word(&mut group);
        assert_eq!(group.len(), 6);
        assert_eq!(group[2], Some('5'));
        let chars: Vec<char> = group.iter().map(|slot| slot.unwrap()).collect();
        for (k, c) in chars.iter().enumerate() {
            if k != 2 {
                assert!(c.is_ascii_lowercase());
            }
        }
        let word: String = chars.iter().collect();
        assert_no_forbidden_neighbours(&word);
    }
}

#[test]
fn virtual_word_respects_an_uppercase_neighbour() {
    for _ in 0..40 {
        let mut group = vec![None, None, None, Some('X'), None, None];
        generate_virtual_word(&mut group);
        assert_eq!(group.len(), 6);
        assert_eq!(group[3], Some('X'));
        let chars: Vec<char> = group.iter().map(|slot| slot.unwrap()).collect();
        for (k, c) in chars.iter().enumerate() {
            if k != 3 {
                assert!(c.is_ascii_lowercase());
            }
        }
        // The letters on both sides of the X must keep their distance from it.
        let word: String = chars.iter().collect();
        assert_no_forbidden_neighbours(&word);
    }
}

#[test]
fn consecutive_letter_pairs() {
    assert!(is_consecutive('a', 'b'));
    assert!(is_consecutive('b', 'a'));
    assert!(is_consecutive('a', 'a'));
    assert!(is_consecutive('B', 'a'));
    assert!(is_consecutive('A', 'B'));
    assert!(!is_consecutive('a', 'c'));
    assert!(!is_consecutive('x', 'z'));
    assert!(!is_consecutive('1', 'a'));
    assert!(!is_consecutive('-', '-'));
}

#[test]
fn consecutive_folds_by_unicode() {
    // The Kelvin sign folds to the ASCII letter k and joins its neighbourhood.
    assert!(is_consecutive('\u{212A}', 'j'));
    assert!(is_consecutive('\u{212A}', 'k'));
    assert!(is_consecutive('\u{212A}', 'l'));
    assert!(!is_consecutive('\u{212A}', 'm'));
    // An accented letter folds outside the ASCII alphabet and is nobody's
    // neighbour.
    assert!(!is_consecutive('é', 'e'));
}

#[test]
fn policy_rejects_password_without_upper_or_special() {
    let verdict = validate_password("abc12345");
    assert_eq!(verdict, Err(PolicyError::MissingCharacterClass));
    assert_eq!(
        PolicyError::MissingCharacterClass.message(),
        "Password must contain at least one lowercase letter, one uppercase letter, and one special character."
    );
}

#[test]
fn policy_accepts_compliant_password() {
    assert_eq!(validate_password("Abc!2345"), Ok(()));
}

#[test]
fn policy_rejects_short_password() {
    assert_eq!(validate_password("Ab!1"), Err(PolicyError::TooShort));
    assert_eq!(validate_password(""), Err(PolicyError::TooShort));
    assert_eq!(
        PolicyError::TooShort.message(),
        "Password must be at least 8 characters long..."
    );
}

#[test]
fn policy_requires_each_class() {
    // Length alone is not enough; each missing class rejects.
    assert_eq!(validate_password("ABC!2345"), Err(PolicyError::MissingCharacterClass));
    assert_eq!(validate_password("abc!defg"), Err(PolicyError::MissingCharacterClass));
    assert_eq!(validate_password("Abc12345"), Err(PolicyError::MissingCharacterClass));
    // A generated password is policy-compliant: the dash separators count as
    // special characters.
    assert_eq!(validate_password(&generate_password()), Ok(()));
}

#[test]
fn policy_classifies_by_unicode() {
    // An accented lowercase letter satisfies the lowercase rule, not the
    // special-character rule.
    assert_eq!(validate_password("äBCDE!12"), Ok(()));
    // A non-ASCII digit is alphanumeric, so it cannot serve as the special
    // character.
    assert_eq!(
        validate_password("aB23456\u{0663}"),
        Err(PolicyError::MissingCharacterClass)
    );
}
