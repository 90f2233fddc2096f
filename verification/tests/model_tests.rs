use finance_api::auth::{
    check_passes, hash_or_empty, hash_password, issue_claims, password_matches, secret_key, validate_user_credentials, Claims,
};
use finance_api::error::ApiError;
use finance_api::records::Type;

#[test]
fn transaction_types_as_stored_text() {
    assert_eq!(Type::Income.to_sql(), "income");
    assert_eq!(Type::Expense.to_sql(), "expense");
    assert_eq!(Type::Transfer.to_sql(), "transfer");
    for t in [Type::Income, Type::Expense, Type::Transfer] {
        assert_eq!(Type::from_sql(&t.to_sql()), Ok(t));
    }
}

#[test]
fn unknown_transaction_type_is_refused() {
    assert_eq!(Type::from_sql("refund"), Err("Unknown transaction type: refund".to_string()));
    assert_eq!(Type::from_sql("Income"), Err("Unknown transaction type: Income".to_string()));
}

#[test]
fn refusals_have_status_and_text() {
    assert_eq!(ApiError::PasswordRequired.status(), 400);
    assert_eq!(ApiError::PasswordRequired.message(), "Password is required");
    assert_eq!(ApiError::InvalidCredentials.status(), 401);
    assert_eq!(ApiError::InvalidCredentials.message(), "Invalid credentials");
    assert_eq!(ApiError::InvalidToken.status(), 401);
    assert_eq!(ApiError::InvalidToken.message(), "Invalid token");
    assert_eq!(ApiError::UserNotFound.status(), 404);
    assert_eq!(ApiError::UserNotFound.message(), "User not found");
    assert_eq!(ApiError::CategoryNotFound.message(), "Category not found");
    assert_eq!(ApiError::AccountNotFound.message(), "Account not found");
    assert_eq!(ApiError::TransactionNotFound.status(), 404);
    assert_eq!(ApiError::TransactionNotFound.message(), "Transaction not found");
}

#[test]
fn secret_key_falls_back_to_the_default() {
    assert_eq!(secret_key(None), "default_secret");
    assert_eq!(secret_key(Some("s3cr3t".to_string())), "s3cr3t");
}

#[test]
fn sessions_last_one_day() {
    let c = issue_claims(&"42".to_string(), 1_000);
    assert_eq!(c.sub, "42");
    assert_eq!(c.exp, 87_400);
}

#[test]
fn presented_tokens() {
    let c = Claims { sub: "1".to_string(), exp: 5 };
    assert_eq!(validate_user_credentials(Some(c.clone())).unwrap().sub, "1");
    assert_eq!(validate_user_credentials(None).err(), Some(ApiError::InvalidToken));
}

#[test]
fn password_hashes() {
    let h = hash_password(&"hunter2".to_string());
    assert_eq!(h.len(), 60);
    assert!(h.starts_with("$2b$12$"));
    assert!(password_matches(&"hunter2".to_string(), &Some(h.clone())));
    assert!(!password_matches(&"hunter3".to_string(), &Some(h)));
    assert!(!password_matches(&"hunter2".to_string(), &None));
    assert!(!password_matches(&"hunter2".to_string(), &Some("hunter2".to_string())));
}

#[test]
fn outcomes_of_the_password_check() {
    assert!(check_passes(Some(true)));
    assert!(!check_passes(Some(false)));
    assert!(!check_passes(None));
    assert_eq!(hash_or_empty(None), "");
    assert_eq!(hash_or_empty(Some("abc".to_string())), "abc");
}
