use straight_cob::account::Account;

#[test]
fn new_account_should_have_zero_tokens() {
    let user_name = "test_user";
    let account = Account::new(user_name);

    assert_eq!(account.user_name(), user_name);
    assert_eq!(account.tokens(), 0);
}

#[test]
fn add_tokens_should_increase_token_count() {
    let mut account = Account::new("test_user");

    account.add_tokens(100);
    assert_eq!(account.tokens(), 100);

    account.add_tokens(50);
    assert_eq!(account.tokens(), 150);
}

#[test]
fn subtract_tokens_should_decrease_token_count() {
    let mut account = Account::new("test_user");

    account.subtract_tokens(100);
    assert_eq!(account.tokens(), -100);

    account.subtract_tokens(50);
    assert_eq!(account.tokens(), -150);
}

#[test]
fn with_id_keeps_the_given_identifier() {
    let account = Account::with_id(42, "carol");
    assert_eq!(account.id(), 42);
    assert_eq!(account.user_name(), "carol");
    assert_eq!(account.tokens(), 0);
}

#[test]
fn new_accounts_get_distinct_random_identifiers() {
    let a = Account::new("a");
    let b = Account::new("b");
    assert_ne!(a.id(), b.id());
}

#[test]
fn add_tokens_reaches_the_largest_balance() {
    let mut account = Account::with_id(1, "max");
    account.subtract_tokens(1u64 << 63);
    assert_eq!(account.tokens(), i64::MIN);
    account.add_tokens(u64::MAX);
    assert_eq!(account.tokens(), i64::MAX);
}
