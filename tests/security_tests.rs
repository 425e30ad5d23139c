use omnipro_db::{Sanitizer, SecurityError, SecurityManager};

#[test]
fn test_password_hashing_and_verification() {
    let security = SecurityManager::new();
    let password = "TestPass123";

    let hash = security.hash_password(password).unwrap();
    assert!(security.verify_password(password, &hash).unwrap());
    assert!(!security.verify_password("WrongPass123", &hash).unwrap());
}

#[test]
fn test_email_validation() {
    let security = SecurityManager::new();

    assert!(security.is_valid_email("test@example.com"));
    assert!(security.is_valid_email("user.name+tag@example.co.uk"));
    assert!(!security.is_valid_email("invalid.email@"));
    assert!(!security.is_valid_email("@example.com"));
}

#[test]
fn test_password_validation() {
    let security = SecurityManager::new();

    assert!(security.is_valid_password("Password123"));
    assert!(security.is_valid_password("SecurePass1"));
    assert!(!security.is_valid_password("weak"));
    assert!(!security.is_valid_password("onlyletters"));
    assert!(!security.is_valid_password("12345678"));
}

#[test]
fn test_role_validation() {
    let security = SecurityManager::new();

    assert!(security.is_valid_role("admin"));
    assert!(security.is_valid_role("user"));
    assert!(security.is_valid_role("guest"));
    assert!(!security.is_valid_role("superuser"));
}

#[test]
fn test_name_validation() {
    let security = SecurityManager::new();

    assert!(security.is_valid_name("John Doe"));
    assert!(security.is_valid_name("Jane"));
    assert!(!security.is_valid_name("")); // Empty name
    assert!(!security.is_valid_name("A very very very very very very very very very very very very very very very very very long name"));
    assert!(!security.is_valid_name("Invalid_Name123"));
}

#[test]
fn test_sanitizer() {
    let sanitizer = Sanitizer::new();

    // Test valid input
    assert!(sanitizer.sanitize_input("valid_input123").is_ok());

    // Test invalid input
    assert!(sanitizer.sanitize_input("invalid;input").is_err());
}

#[test]
fn malformed_hash_is_a_verification_error() {
    let security = SecurityManager::new();
    assert!(matches!(
        security.verify_password("TestPass123", "not a phc string"),
        Err(SecurityError::VerificationError(_))
    ));
    assert!(matches!(
        security.verify_password("TestPass123", ""),
        Err(SecurityError::VerificationError(_))
    ));
}

#[test]
fn hash_is_a_phc_string_not_the_password() {
    let security = SecurityManager::new();
    let hash = security.hash_password("TestPass123").unwrap();
    assert_ne!(hash, "TestPass123");
    assert!(hash.starts_with("$argon2"));
}

#[test]
fn password_rule_edges() {
    let security = SecurityManager::new();
    assert!(security.is_valid_password("abcdefg1"));
    assert!(!security.is_valid_password("abcdef1"));
    assert!(!security.is_valid_password("Password 123"));
    assert!(!security.is_valid_password("Pässword123"));
    assert!(!security.is_valid_password(""));
}

#[test]
fn user_input_reports_email_before_password() {
    let security = SecurityManager::new();
    assert_eq!(security.validate_user_input("test@example.com", "Password123"), Ok(()));
    assert_eq!(
        security.validate_user_input("bad", "weak"),
        Err(SecurityError::ValidationError("Invalid email format".to_string()))
    );
    assert_eq!(
        security.validate_user_input("test@example.com", "weak"),
        Err(SecurityError::ValidationError(
            "Password must be at least 8 characters long and contain both letters and numbers"
                .to_string()
        ))
    );
}

#[test]
fn sanitizer_blocks_patterns_in_any_case() {
    let sanitizer = Sanitizer::new();
    assert_eq!(
        sanitizer.sanitize_input("please drop it"),
        Err("Input contains blocked pattern: DROP".to_string())
    );
    assert_eq!(
        sanitizer.sanitize_input("delete--me"),
        Err("Input contains blocked pattern: DELETE".to_string())
    );
    assert_eq!(
        sanitizer.sanitize_input("a--b"),
        Err("Input contains blocked pattern: --".to_string())
    );
    assert_eq!(
        sanitizer.sanitize_input("invalid;input"),
        Err("Input contains blocked pattern: ;".to_string())
    );
}

#[test]
fn sanitizer_checks_characters_after_patterns() {
    let sanitizer = Sanitizer::new();
    assert_eq!(sanitizer.sanitize_input("user@example.com"), Ok("user@example.com".to_string()));
    assert_eq!(
        sanitizer.sanitize_input("50% off"),
        Err("Input contains invalid characters".to_string())
    );
    assert_eq!(sanitizer.sanitize_input(""), Err("Input contains invalid characters".to_string()));
}

#[test]
fn screen_input_uses_the_given_upper_case_and_character_check() {
    let sanitizer = Sanitizer::new();
    assert_eq!(
        sanitizer.screen_input("x", "DROP", Some(true)),
        Err("Input contains blocked pattern: DROP".to_string())
    );
    assert_eq!(sanitizer.screen_input("x", "X", Some(true)), Ok("x".to_string()));
    assert_eq!(
        sanitizer.screen_input("x", "X", Some(false)),
        Err("Input contains invalid characters".to_string())
    );
    assert_eq!(
        sanitizer.screen_input("x", "X", None),
        Err("Input contains invalid characters".to_string())
    );
}

#[test]
fn identifiers_are_checked_for_characters_only() {
    let sanitizer = Sanitizer::new();
    assert_eq!(sanitizer.sanitize_identifier("user_table"), Ok("user_table".to_string()));
    assert_eq!(sanitizer.sanitize_identifier("DROP"), Ok("DROP".to_string()));
    assert_eq!(
        sanitizer.sanitize_identifier("a;b"),
        Err("Identifier contains invalid characters".to_string())
    );
}
