use pulson::credentials;
use pulson::password::{finish_new_user, new_user_password_hash, PasswordManager, PasswordStrengthError};

#[test]
fn test_password_hashing_and_verification() {
    let password = "TestPassword123!";
    let hash = PasswordManager::hash_password(password).unwrap();

    assert!(PasswordManager::verify_password(password, &hash).unwrap());
    assert!(!PasswordManager::verify_password("WrongPassword", &hash).unwrap());
}

#[test]
fn test_password_strength_validation() {
    assert!(PasswordManager::is_strong_password("StrongPass123!"));
    assert!(!PasswordManager::is_strong_password("weak"));
    assert!(!PasswordManager::is_strong_password("weakpassword"));
    assert!(!PasswordManager::is_strong_password("WEAKPASSWORD"));
    assert!(!PasswordManager::is_strong_password("WeakPassword"));
    assert!(!PasswordManager::is_strong_password("WeakPass123"));
}

#[test]
fn test_password_validation_errors() {
    assert!(PasswordManager::validate_password_strength("short").is_err());
    assert!(PasswordManager::validate_password_strength("nouppercase123!").is_err());
    assert!(PasswordManager::validate_password_strength("NOLOWERCASE123!").is_err());
    assert!(PasswordManager::validate_password_strength("NoNumbers!").is_err());
    assert!(PasswordManager::validate_password_strength("NoSpecialChars123").is_err());
    assert!(PasswordManager::validate_password_strength("ValidPassword123!").is_ok());
}

#[test]
fn strength_errors_name_the_first_broken_rule() {
    assert_eq!(
        PasswordManager::validate_password_strength("short"),
        Err(PasswordStrengthError::TooShort)
    );
    assert_eq!(
        PasswordManager::validate_password_strength("nouppercase123!"),
        Err(PasswordStrengthError::NoUppercase)
    );
    assert_eq!(
        PasswordManager::validate_password_strength("NOLOWERCASE123!"),
        Err(PasswordStrengthError::NoLowercase)
    );
    assert_eq!(
        PasswordManager::validate_password_strength("NoNumbers!"),
        Err(PasswordStrengthError::NoNumber)
    );
    assert_eq!(
        PasswordManager::validate_password_strength("NoSpecialChars123"),
        Err(PasswordStrengthError::NoSpecialCharacter)
    );
}

#[test]
fn length_counts_characters_not_bytes() {
    // Seven characters, eight bytes of UTF-8, with the other rules met.
    assert!(!PasswordManager::is_strong_password("Abcé1!x"));
    assert_eq!(
        PasswordManager::validate_password_strength("Abcé1!x"),
        Err(PasswordStrengthError::TooShort)
    );
    assert!(PasswordManager::is_strong_password("Abcé1!xy"));
}

#[test]
fn test_secure_password_generation() {
    let password = PasswordManager::generate_secure_password(16);
    assert_eq!(password.len(), 16);
    assert!(PasswordManager::is_strong_password(&password));
}

#[test]
fn generated_passwords_of_eight_characters_are_strong() {
    for _ in 0..200 {
        let p = PasswordManager::generate_secure_password(8);
        assert_eq!(p.len(), 8);
        assert!(PasswordManager::is_strong_password(&p));
    }
    let short = PasswordManager::generate_secure_password(5);
    assert_eq!(short.chars().count(), 5);
}

#[test]
fn generated_password_uses_the_allowed_alphabet() {
    let p = PasswordManager::generate_secure_password(40);
    assert_eq!(p.chars().count(), 40);
    let allowed = "ABCDEFGHIJKLMNOPQRSTUVWXYZabcdefghijklmnopqrstuvwxyz0123456789!@#$%^&*";
    assert!(p.chars().all(|c| allowed.contains(c)));
    assert_eq!(PasswordManager::generate_secure_password(0), "");
}

#[test]
fn hashing_gives_a_fresh_argon2_hash_each_time() {
    let a = PasswordManager::hash_password("Secret123!").unwrap();
    let b = PasswordManager::hash_password("Secret123!").unwrap();
    assert_ne!(a, b);
    assert!(a.starts_with("$argon2"));
    assert_ne!(a, "Secret123!");
}

#[test]
fn verifying_against_a_malformed_hash_is_an_error() {
    assert!(PasswordManager::verify_password("x", "not a hash").is_err());
}

#[test]
fn bcrypt_credentials_round_trip() {
    let h = credentials::hash_password("hunter2").unwrap();
    assert_ne!(h, "hunter2");
    assert!(h.starts_with("$2b$12$"));
    assert_eq!(credentials::verify_password("hunter2", &h), Ok(true));
    assert_eq!(credentials::verify_password("hunter3", &h), Ok(false));
}

#[test]
fn session_tokens_are_hyphenated_uuids() {
    let a = credentials::new_token();
    let b = credentials::new_token();
    assert_eq!(a.len(), 36);
    assert_ne!(a, b);
    assert_eq!(a.matches('-').count(), 4);
}

#[test]
fn new_accounts_check_strength_then_name() {
    assert_eq!(
        new_user_password_hash("ann", "weak", false),
        Err("Password must be at least 8 characters long".to_string())
    );
    assert_eq!(
        new_user_password_hash("ann", "Secret123!", true),
        Err("Username 'ann' already exists".to_string())
    );
    let h = new_user_password_hash("ann", "Secret123!", false).unwrap();
    assert_eq!(PasswordManager::verify_password("Secret123!", &h), Ok(true));
}

#[test]
fn finishing_a_new_user_decides_on_the_hash() {

    assert_eq!(finish_new_user("bo", Ok("h".to_string()), false), Ok("h".to_string()));
    assert_eq!(
        finish_new_user("bo", Ok("h".to_string()), true),
        Err("Username 'bo' already exists".to_string())
    );
    assert_eq!(
        finish_new_user("bo", Err("Failed to hash password: x".to_string()), true),
        Err("Failed to hash password: x".to_string())
    );
}
