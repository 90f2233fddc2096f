use finance_api::auth::{Claims, LoginRequest};
use finance_api::datetime::DateTime;
use finance_api::error::ApiError;
use finance_api::ledger::Ledger;
use finance_api::records::{Account, AccountTransfer, Category, Transaction, Type, User};

fn stamp() -> DateTime {
    DateTime { year: 2025, month: 3, day: 1, hour: 10, minute: 0, second: 0, nanosecond: 0 }
}

fn claims(sub: &str) -> Claims {
    Claims { sub: sub.to_string(), exp: 0 }
}

fn user(id: &str, email: &str, password: Option<&str>) -> User {
    User {
        id: id.to_string(),
        name: format!("user {}", id),
        email: email.to_string(),
        password: password.map(|p| p.to_string()),
        created_at: stamp(),
        updated_at: stamp(),
    }
}

fn transaction(id: &str, owner: &str, amount: i64) -> Transaction {
    Transaction {
        id: id.to_string(),
        amount,
        description: Some("March Salary".to_string()),
        date: stamp(),
        type_: Type::Income,
        account_id: "1".to_string(),
        transfer_id: None,
        category_id: Some("1".to_string()),
        user_id: owner.to_string(),
        created_at: stamp(),
        updated_at: stamp(),
    }
}

fn category(id: &str, owner: Option<&str>) -> Category {
    Category {
        id: id.to_string(),
        name: "Food".to_string(),
        description: Some("Groceries and dining out".to_string()),
        color: Some("#FF5722".to_string()),
        icon: None,
        user_id: owner.map(|o| o.to_string()),
        created_at: stamp(),
        updated_at: stamp(),
    }
}

fn account(id: &str, owner: &str) -> Account {
    Account {
        id: id.to_string(),
        name: "Bank".to_string(),
        balance: 800000,
        bank_name: "Bradesco".to_string(),
        user_id: owner.to_string(),
        created_at: stamp(),
        updated_at: stamp(),
    }
}

#[test]
fn create_user_requires_a_password() {
    let mut ledger = Ledger::new();
    let r = ledger.create_user(user("1", "felipe@example.com", None));
    assert_eq!(r.err(), Some(ApiError::PasswordRequired));
    assert!(!ledger.has_user(&"1".to_string()));
}

#[test]
fn create_user_stores_a_hash_and_login_accepts_the_password() {
    let mut ledger = Ledger::new();
    let created = ledger.create_user(user("1", "felipe@example.com", Some("password123"))).unwrap();
    let stored = created.password.clone().unwrap();
    assert_eq!(stored.len(), 60);
    assert!(stored.starts_with("$2b$12$"));
    assert_ne!(stored, "password123");
    assert!(ledger.has_user(&"1".to_string()));

    let ok = ledger
        .login(&LoginRequest { email: "felipe@example.com".to_string(), password: "password123".to_string() }, 1_700_000_000)
        .unwrap();
    assert_eq!(ok.sub, "1");
    assert_eq!(ok.exp, 1_700_000_000 + 86400);

    let wrong = ledger.login(&LoginRequest { email: "felipe@example.com".to_string(), password: "password124".to_string() }, 0);
    assert_eq!(wrong.err(), Some(ApiError::InvalidCredentials));
    let unknown = ledger.login(&LoginRequest { email: "ana@example.com".to_string(), password: "password123".to_string() }, 0);
    assert_eq!(unknown.err(), Some(ApiError::InvalidCredentials));
}

#[test]
fn login_refuses_a_plain_stored_password() {
    let ledger = Ledger::from_tables(vec![user("1", "felipe@example.com", Some("password123"))], vec![], vec![], vec![], vec![]).unwrap();
    let r = ledger.login(&LoginRequest { email: "felipe@example.com".to_string(), password: "password123".to_string() }, 0);
    assert_eq!(r.err(), Some(ApiError::InvalidCredentials));
}

#[test]
fn login_uses_the_first_user_with_the_email() {
    let mut ledger = Ledger::new();
    ledger.create_user(user("1", "same@example.com", Some("first"))).unwrap();
    ledger.create_user(user("2", "same@example.com", Some("second"))).unwrap();
    let r = ledger.login(&LoginRequest { email: "same@example.com".to_string(), password: "first".to_string() }, 10).unwrap();
    assert_eq!(r.sub, "1");
    let r2 = ledger.login(&LoginRequest { email: "same@example.com".to_string(), password: "second".to_string() }, 10);
    assert_eq!(r2.err(), Some(ApiError::InvalidCredentials));
}

#[test]
fn users_see_only_themselves() {
    let ledger = Ledger::from_tables(
        vec![user("1", "a@example.com", None), user("2", "b@example.com", None)],
        vec![], vec![], vec![], vec![],
    ).unwrap();
    let seen = ledger.get_users(&claims("2"));
    assert_eq!(seen.len(), 1);
    assert_eq!(seen[0].id, "2");
    assert_eq!(ledger.get_user(&"2".to_string(), &claims("2")).unwrap().email, "b@example.com");
    assert_eq!(ledger.get_user(&"1".to_string(), &claims("2")).err(), Some(ApiError::UserNotFound));
}

#[test]
fn update_user_only_changes_the_signed_in_user() {
    let mut ledger = Ledger::from_tables(
        vec![user("1", "a@example.com", Some("h1")), user("2", "b@example.com", Some("h2"))],
        vec![], vec![], vec![], vec![],
    ).unwrap();
    let mut changes = user("999", "new@example.com", None);
    changes.name = "Renamed".to_string();
    let answer = ledger.update_user(&"1".to_string(), changes.clone(), &claims("2"));
    assert_eq!(answer.email, "new@example.com");
    assert_eq!(ledger.user_with_id(&"1".to_string()).unwrap().email, "a@example.com");

    ledger.update_user(&"2".to_string(), changes, &claims("2"));
    let after = ledger.user_with_id(&"2".to_string()).unwrap();
    assert_eq!(after.id, "2");
    assert_eq!(after.name, "Renamed");
    assert_eq!(after.email, "new@example.com");
    assert_eq!(after.password, Some("h2".to_string()));
}

#[test]
fn created_transaction_belongs_to_the_caller() {
    let mut ledger = Ledger::new();
    let created = ledger.create_transaction(transaction("1", "someone-else", 800000), &claims("1"));
    assert_eq!(created.user_id, "1");
    assert_eq!(created.amount, 800000);
    assert_eq!(ledger.get_transaction(&"1".to_string(), &claims("1")).unwrap().user_id, "1");
    assert_eq!(ledger.get_transaction(&"1".to_string(), &claims("2")).err(), Some(ApiError::TransactionNotFound));
}

#[test]
fn transactions_are_listed_per_user_in_order() {
    let mut ledger = Ledger::new();
    ledger.create_transaction(transaction("1", "", 1), &claims("1"));
    ledger.create_transaction(transaction("2", "", 2), &claims("2"));
    ledger.create_transaction(transaction("3", "", 3), &claims("1"));
    let mine: Vec<String> = ledger.get_transactions(&claims("1")).into_iter().map(|t| t.id).collect();
    assert_eq!(mine, vec!["1".to_string(), "3".to_string()]);
    assert_eq!(ledger.get_transactions(&claims("3")).len(), 0);
    assert!(ledger.has_transaction(&"2".to_string()));
    assert!(!ledger.has_transaction(&"4".to_string()));
}

#[test]
fn update_transaction_respects_ownership_and_optional_fields() {
    let mut ledger = Ledger::new();
    ledger.create_transaction(transaction("1", "", 100), &claims("1"));
    ledger.create_transaction(transaction("2", "", 200), &claims("2"));
    let mut changes = transaction("other-id", "1", 150);
    changes.description = None;
    changes.type_ = Type::Expense;
    let answer = ledger.update_transaction(&"2".to_string(), changes.clone(), &claims("1"));
    assert_eq!(answer.id, "other-id");
    assert_eq!(ledger.transaction_with_id(&"2".to_string()).unwrap().amount, 200);

    ledger.update_transaction(&"1".to_string(), changes.clone(), &claims("1"));
    let after = ledger.get_transaction(&"1".to_string(), &claims("1")).unwrap();
    assert_eq!(after.id, "1");
    assert_eq!(after.amount, 150);
    assert_eq!(after.type_, Type::Expense);
    assert_eq!(after.description, Some("March Salary".to_string()));

    ledger.update_transaction(&"1".to_string(), changes, &claims("1"));
    let again = ledger.get_transaction(&"1".to_string(), &claims("1")).unwrap();
    assert_eq!(again.amount, 150);
    assert_eq!(again.description, Some("March Salary".to_string()));
}

#[test]
fn update_can_hand_a_transaction_to_another_user() {
    let mut ledger = Ledger::new();
    ledger.create_transaction(transaction("1", "", 100), &claims("1"));
    ledger.update_transaction(&"1".to_string(), transaction("1", "2", 100), &claims("1"));
    assert_eq!(ledger.get_transaction(&"1".to_string(), &claims("1")).err(), Some(ApiError::TransactionNotFound));
    assert_eq!(ledger.get_transaction(&"1".to_string(), &claims("2")).unwrap().user_id, "2");
}

#[test]
fn categories_belong_to_their_creator() {
    let mut ledger = Ledger::new();
    let created = ledger.create_category(category("1", None), &claims("1"));
    assert_eq!(created.user_id, Some("1".to_string()));
    ledger.create_category(category("2", Some("1")), &claims("2"));
    let mine = ledger.get_categories(&claims("1"));
    assert_eq!(mine.len(), 1);
    assert_eq!(mine[0].id, "1");
    assert_eq!(ledger.get_category(&"2".to_string(), &claims("1")).err(), Some(ApiError::CategoryNotFound));
    assert_eq!(ledger.get_category(&"2".to_string(), &claims("2")).unwrap().name, "Food");
}

#[test]
fn category_update_keeps_the_owner_when_none_is_sent() {
    let mut ledger = Ledger::new();
    ledger.create_category(category("1", None), &claims("1"));
    let mut changes = category("1", None);
    changes.name = "Salary".to_string();
    changes.icon = Some("briefcase".to_string());
    changes.color = None;
    ledger.update_category(&"1".to_string(), changes, &claims("1"));
    let after = ledger.category_with_id(&"1".to_string()).unwrap();
    assert_eq!(after.name, "Salary");
    assert_eq!(after.user_id, Some("1".to_string()));
    assert_eq!(after.icon, Some("briefcase".to_string()));
    assert_eq!(after.color, Some("#FF5722".to_string()));
}

#[test]
fn accounts_belong_to_their_creator() {
    let mut ledger = Ledger::new();
    ledger.create_account(account("1", ""), &claims("1"));
    ledger.create_account(account("2", ""), &claims("2"));
    ledger.create_account(account("3", ""), &claims("2"));
    assert_eq!(ledger.get_accounts(&claims("2")).len(), 2);
    assert_eq!(ledger.get_account(&"1".to_string(), &claims("1")).unwrap().balance, 800000);
    assert_eq!(ledger.get_account(&"1".to_string(), &claims("2")).err(), Some(ApiError::AccountNotFound));
    assert!(ledger.has_account(&"3".to_string()));
}

#[test]
fn from_tables_refuses_repeated_keys() {
    assert!(Ledger::from_tables(vec![], vec![], vec![account("1", "1"), account("1", "2")], vec![], vec![]).is_none());
    let transfer = AccountTransfer {
        id: "1".to_string(),
        from_account_id: "2".to_string(),
        to_account_id: "3".to_string(),
        amount: 50000,
        description: Some("Monthly Investment".to_string()),
        date: stamp(),
        user_id: "2".to_string(),
        created_at: stamp(),
        updated_at: stamp(),
    };
    assert!(Ledger::from_tables(vec![], vec![], vec![], vec![], vec![transfer.clone(), transfer.clone()]).is_none());
    assert!(Ledger::from_tables(vec![], vec![], vec![account("1", "1"), account("2", "2")], vec![], vec![transfer]).is_some());
}

#[test]
fn missing_password_is_refused_before_the_id_is_looked_at() {
    let mut ledger = Ledger::from_tables(vec![user("1", "a@example.com", Some("h"))], vec![], vec![], vec![], vec![]).unwrap();
    let r = ledger.create_user(user("1", "b@example.com", None));
    assert_eq!(r.err(), Some(ApiError::PasswordRequired));
    assert_eq!(ledger.get_users(&claims("1")).len(), 1);
}

#[test]
fn updated_category_is_found_by_its_owner() {
    let mut ledger = Ledger::new();
    ledger.create_category(category("7", None), &claims("1"));
    let mut changes = category("7", None);
    changes.name = "Rent".to_string();
    ledger.update_category(&"7".to_string(), changes, &claims("1"));
    assert_eq!(ledger.get_category(&"7".to_string(), &claims("1")).unwrap().name, "Rent");
    assert_eq!(ledger.get_categories(&claims("1")).len(), 1);
}

#[test]
fn lookup_agrees_with_listing() {
    let mut ledger = Ledger::new();
    ledger.create_transaction(transaction("1", "", 10), &claims("1"));
    ledger.create_transaction(transaction("2", "", 20), &claims("2"));
    let listed = ledger.get_transactions(&claims("1"));
    for id in ["1", "2", "3"] {
        let found = ledger.get_transaction(&id.to_string(), &claims("1"));
        let in_list = listed.iter().find(|t| t.id == id);
        match (found, in_list) {
            (Ok(t), Some(l)) => assert_eq!(t.amount, l.amount),
            (Err(e), None) => assert_eq!(e, ApiError::TransactionNotFound),
            _ => panic!("lookup and listing disagree for {}", id),
        }
    }
}

#[test]
fn registration_never_stores_the_plain_password() {
    let mut ledger = Ledger::new();
    let created = ledger.create_user(user("9", "x@example.com", Some("plain-secret"))).unwrap();
    assert_ne!(created.password, Some("plain-secret".to_string()));
}
