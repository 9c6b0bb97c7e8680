use finall::accounts;
use finall::assets::validate::{name, symbol};
use finall::auth::validate::{
    display_name, email, password, EMAIL_MAX_LEN, PASSWORD_MAX_LEN, PASSWORD_MIN_LEN,
};
use finall::categories::{self, CategoryKind};
use finall::error::AuthError;
use finall::merchants;

#[test]
fn email_is_trimmed_and_lowercased() {
    assert_eq!(email("  User@Example.COM  ").unwrap(), "user@example.com");
}

#[test]
fn email_rejects_empty() {
    assert!(matches!(email("   "), Err(AuthError::InvalidInput(_))));
}

#[test]
fn email_rejects_missing_at() {
    assert!(matches!(
        email("user.example.com"),
        Err(AuthError::InvalidInput(_))
    ));
}

#[test]
fn email_rejects_empty_local_part() {
    assert!(matches!(
        email("@example.com"),
        Err(AuthError::InvalidInput(_))
    ));
}

#[test]
fn email_rejects_domain_without_dot() {
    assert!(matches!(
        email("user@localhost"),
        Err(AuthError::InvalidInput(_))
    ));
}

#[test]
fn email_rejects_too_long() {
    let local = "a".repeat(EMAIL_MAX_LEN);
    let too_long = format!("{local}@example.com");
    assert!(matches!(email(&too_long), Err(AuthError::InvalidInput(_))));
}

#[test]
fn email_accepts_max_length() {
    let domain = "@example.com";
    let local = "a".repeat(EMAIL_MAX_LEN - domain.len());
    let max_len_email = format!("{local}{domain}");
    assert_eq!(max_len_email.len(), EMAIL_MAX_LEN);
    assert!(email(&max_len_email).is_ok());
}

#[test]
fn password_rejects_below_minimum() {
    assert!(matches!(
        password(&"a".repeat(PASSWORD_MIN_LEN - 1)),
        Err(AuthError::InvalidInput(_))
    ));
}

#[test]
fn password_accepts_minimum() {
    assert!(password(&"a".repeat(PASSWORD_MIN_LEN)).is_ok());
}

#[test]
fn password_accepts_maximum() {
    assert!(password(&"a".repeat(PASSWORD_MAX_LEN)).is_ok());
}

#[test]
fn password_rejects_above_maximum() {
    assert!(matches!(
        password(&"a".repeat(PASSWORD_MAX_LEN + 1)),
        Err(AuthError::InvalidInput(_))
    ));
}

#[test]
fn display_name_treats_blank_as_absent() {
    assert_eq!(display_name(Some("   ")), None);
    assert_eq!(display_name(None), None);
    assert_eq!(display_name(Some("  Ada  ")), Some("Ada".to_owned()));
}

#[test]
fn email_keeps_inner_characters_and_reports_each_reason() {
    assert_eq!(email("A.B+c@Sub.Example.org").unwrap(), "a.b+c@sub.example.org");
    assert_eq!(
        email("").unwrap_err().message(),
        "email is required"
    );
    // Only the first `@` splits; the rest belongs to the domain.
    assert_eq!(email("a@b@c.d").unwrap(), "a@b@c.d");
}

#[test]
fn auth_error_messages_are_fixed() {
    assert_eq!(AuthError::InvalidCredentials.message(), "invalid email or password");
    assert_eq!(
        AuthError::EmailTaken.message(),
        "an account with this email already exists"
    );
    assert_eq!(AuthError::Internal.message(), "something went wrong");
    assert_eq!(AuthError::InvalidInput("x").message(), "x");
}

#[test]
fn password_counts_bytes_not_characters() {
    // Four two-byte characters are eight bytes.
    assert!(password(&"é".repeat(4)).is_ok());
    assert!(password(&"é".repeat(3)).is_err());
}

#[test]
fn name_is_trimmed() {
    assert_eq!(name("  Euro  ").unwrap(), "Euro");
}

#[test]
fn name_rejects_blank() {
    assert!(name("   ").is_err());
}

#[test]
fn symbol_treats_blank_as_absent() {
    assert_eq!(symbol(Some("   ")), None);
    assert_eq!(symbol(None), None);
    assert_eq!(symbol(Some("  €  ")), Some("€".to_owned()));
}

#[test]
fn accounts_validate_name_trims() {
    assert_eq!(accounts::validate_name("  Checking  ").unwrap(), "Checking");
}

#[test]
fn accounts_validate_name_rejects_blank() {
    assert!(accounts::validate_name("   ").is_err());
    assert!(accounts::validate_name("").is_err());
}

#[test]
fn categories_validate_name_trims() {
    assert_eq!(categories::validate_name("  Groceries  ").unwrap(), "Groceries");
}

#[test]
fn categories_validate_name_rejects_blank() {
    assert!(categories::validate_name("   ").is_err());
    assert!(categories::validate_name("").is_err());
}

#[test]
fn merchants_validate_name_trims() {
    assert_eq!(merchants::validate_name("  Acme Corp  ").unwrap(), "Acme Corp");
}

#[test]
fn merchants_validate_name_rejects_blank() {
    assert!(merchants::validate_name("   ").is_err());
    assert!(merchants::validate_name("").is_err());
}

#[test]
fn category_kind_round_trips_through_its_database_text() {
    for kind in [CategoryKind::Income, CategoryKind::Expense] {
        assert_eq!(CategoryKind::from_db_str(kind.as_db_str()), Some(kind));
    }
    assert_eq!(CategoryKind::from_db_str("other"), None);
}
