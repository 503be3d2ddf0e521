use straight_cob::account::Account;
use straight_cob::block::Block;
use straight_cob::blockchain::{Blockchain, LedgerError, OperationError};
use straight_cob::transactions::{Transaction, TransactionVariant};

const CREATOR: u128 = 1;

fn block_of(prev_hash: Option<Vec<u8>>, variants: Vec<TransactionVariant>) -> Block {
    let mut block = Block::new(prev_hash);
    for variant in variants {
        block.append_transaction(Transaction::new(CREATOR, variant));
    }
    block
}

fn create(name: &str) -> TransactionVariant {
    TransactionVariant::CreateUserAccount {
        account_name: String::from(name),
    }
}

fn balances(chain: &Blockchain) -> Vec<(u128, String, i64)> {
    chain
        .get_accounts()
        .iter()
        .map(|a| (a.id(), a.user_name().to_string(), a.tokens()))
        .collect()
}

fn tokens_of(chain: &Blockchain, name: &str) -> i64 {
    chain.get_account(name).unwrap().tokens()
}

#[test]
fn three_block_scenario_creates_mints_and_transfers() {
    let mut chain = Blockchain::new(Account::new("Genesis"));

    let first = block_of(None, vec![create("Alice"), create("Bob")]);
    assert_eq!(chain.append_block(first), Ok(()));
    assert_eq!(tokens_of(&chain, "Alice"), 0);
    assert_eq!(tokens_of(&chain, "Bob"), 0);
    let alice = chain.get_account("Alice").unwrap().id();
    let bob = chain.get_account("Bob").unwrap().id();

    let second = block_of(
        chain.get_last_block_hahs().clone(),
        vec![TransactionVariant::CreateTokens { account_id: alice, tokens: 100 }],
    );
    assert_eq!(chain.append_block(second), Ok(()));
    assert_eq!(tokens_of(&chain, "Alice"), 100);

    let third = block_of(
        chain.get_last_block_hahs().clone(),
        vec![TransactionVariant::TransferTokens { sender_id: alice, receiver_id: bob, tokens: 40 }],
    );
    assert_eq!(chain.append_block(third), Ok(()));
    assert_eq!(tokens_of(&chain, "Alice"), 60);
    assert_eq!(tokens_of(&chain, "Bob"), 40);
    assert_eq!(tokens_of(&chain, "Genesis"), 0);
    assert_eq!(chain.get_block_count(), 3);
}

#[test]
fn unknown_account_rolls_back_the_whole_block() {
    let genesis = Account::with_id(10, "Genesis");
    let mut chain = Blockchain::new(genesis);
    let first = block_of(None, vec![create("Alice")]);
    assert_eq!(chain.append_block(first), Ok(()));
    let before = balances(&chain);

    let bad = block_of(
        chain.get_last_block_hahs().clone(),
        vec![create("Carol"), TransactionVariant::CreateTokens { account_id: 999, tokens: 10 }],
    );
    assert_eq!(
        chain.append_block(bad),
        Err(LedgerError::TransactionFailed { index: 1, cause: OperationError::AccountNotFound })
    );
    assert_eq!(balances(&chain), before);
    assert!(chain.get_account("Carol").is_none());
    assert_eq!(chain.get_block_count(), 1);
}

#[test]
fn wrong_link_is_rejected_and_chain_keeps_its_length() {
    let mut chain = Blockchain::new(Account::new("Genesis"));
    assert_eq!(chain.append_block(block_of(None, vec![create("Alice")])), Ok(()));
    let before = balances(&chain);

    let unlinked = block_of(Some(vec![0; 64]), vec![create("Bob")]);
    assert_eq!(chain.append_block(unlinked), Err(LedgerError::BrokenLink));
    assert_eq!(chain.get_block_count(), 1);
    assert_eq!(balances(&chain), before);
}

#[test]
fn second_block_without_link_is_rejected() {
    let mut chain = Blockchain::new(Account::new("Genesis"));
    assert_eq!(chain.append_block(block_of(None, vec![create("Alice")])), Ok(()));
    let second = block_of(None, vec![create("Bob")]);
    assert_eq!(chain.append_block(second), Err(LedgerError::BrokenLink));
}

#[test]
fn first_block_may_declare_any_link() {
    let mut chain = Blockchain::new(Account::new("Genesis"));
    let first = block_of(Some(vec![1, 2, 3]), vec![create("Alice")]);
    assert_eq!(chain.append_block(first), Ok(()));
    assert_eq!(chain.get_block_count(), 1);
}

#[test]
fn empty_block_is_rejected_even_with_matching_hash() {
    let mut chain = Blockchain::new(Account::new("Genesis"));
    let mut empty = Block::new(None);
    let hash = empty.calculate_hash();
    empty.replace_hash(Some(hash));
    assert!(empty.verify());
    assert_eq!(chain.append_block(empty), Err(LedgerError::EmptyBlock));
    assert_eq!(chain.get_block_count(), 0);
}

#[test]
fn unsealed_block_is_rejected_for_its_hash() {
    let mut chain = Blockchain::new(Account::new("Genesis"));
    assert_eq!(chain.append_block(Block::new(None)), Err(LedgerError::InvalidHash));
}

#[test]
fn tampered_block_is_rejected_for_its_hash() {
    let mut chain = Blockchain::new(Account::new("Genesis"));
    let mut block = block_of(None, vec![create("Alice")]);
    let mut hash = block.get_hash().clone().unwrap();
    hash[63] ^= 0x80;
    block.replace_hash(Some(hash));
    assert_eq!(chain.append_block(block), Err(LedgerError::InvalidHash));
    assert!(chain.get_account("Alice").is_none());
}

#[test]
fn overflowing_credit_is_rejected() {
    let mut chain = Blockchain::new(Account::with_id(5, "Genesis"));
    let block = block_of(None, vec![TransactionVariant::CreateTokens { account_id: 5, tokens: u64::MAX }]);
    assert_eq!(
        chain.append_block(block),
        Err(LedgerError::TransactionFailed { index: 0, cause: OperationError::BalanceOverflow })
    );
    assert_eq!(tokens_of(&chain, "Genesis"), 0);
}

#[test]
fn transfer_with_missing_receiver_only_debits_the_sender() {
    let mut chain = Blockchain::new(Account::with_id(5, "Genesis"));
    let block = block_of(
        None,
        vec![
            TransactionVariant::CreateTokens { account_id: 5, tokens: 30 },
            TransactionVariant::TransferTokens { sender_id: 5, receiver_id: 77, tokens: 10 },
            TransactionVariant::TransferTokens { sender_id: 78, receiver_id: 5, tokens: 1 },
        ],
    );
    assert_eq!(chain.append_block(block), Ok(()));
    assert_eq!(tokens_of(&chain, "Genesis"), 21);
}

#[test]
fn transfer_may_overdraw_the_sender() {
    let mut chain = Blockchain::new(Account::with_id(5, "Genesis"));
    let block = block_of(
        None,
        vec![create("Bob"), TransactionVariant::TransferTokens { sender_id: 5, receiver_id: 5, tokens: 3 }],
    );
    assert_eq!(chain.append_block(block), Ok(()));
    assert_eq!(tokens_of(&chain, "Genesis"), 0);
    let bob = chain.get_account("Bob").unwrap().id();
    let next = block_of(
        chain.get_last_block_hahs().clone(),
        vec![TransactionVariant::TransferTokens { sender_id: 5, receiver_id: bob, tokens: 3 }],
    );
    assert_eq!(chain.append_block(next), Ok(()));
    assert_eq!(tokens_of(&chain, "Genesis"), -3);
    assert_eq!(tokens_of(&chain, "Bob"), 3);
}

#[test]
fn recreating_a_name_replaces_the_account() {
    let mut chain = Blockchain::new(Account::with_id(5, "Genesis"));
    let block = block_of(None, vec![create("Alice")]);
    assert_eq!(chain.append_block_with_ids(block, &vec![100]), Ok(()));
    let mint = block_of(
        chain.get_last_block_hahs().clone(),
        vec![TransactionVariant::CreateTokens { account_id: 100, tokens: 7 }, create("Alice")],
    );
    assert_eq!(chain.append_block_with_ids(mint, &vec![0, 200]), Ok(()));
    let alice = chain.get_account("Alice").unwrap();
    assert_eq!(alice.id(), 200);
    assert_eq!(alice.tokens(), 0);
    assert_eq!(chain.get_accounts().len(), 2);
    assert!(chain.get_account_by_id(100).is_none());
}

#[test]
fn accounts_are_found_by_identifier() {
    let mut chain = Blockchain::new(Account::with_id(5, "Genesis"));
    let block = block_of(None, vec![create("Alice"), create("Bob")]);
    assert_eq!(chain.append_block_with_ids(block, &vec![11, 12]), Ok(()));
    assert_eq!(chain.get_account_by_id(12).unwrap().user_name(), "Bob");
    assert_eq!(chain.get_account_by_id(5).unwrap().user_name(), "Genesis");
    assert!(chain.get_account_by_id(13).is_none());
    assert!(chain.get_account("Carol").is_none());
}

#[test]
fn last_block_hash_is_the_tip_hash() {
    let mut chain = Blockchain::new(Account::new("Genesis"));
    let block = block_of(None, vec![create("Alice")]);
    let hash = block.get_hash().clone();
    assert_eq!(chain.append_block(block), Ok(()));
    assert_eq!(chain.get_last_block_hahs(), &hash);
}

#[test]
fn balances_are_the_fold_of_all_operations() {
    let mut chain = Blockchain::new(Account::with_id(1, "Genesis"));
    let blocks = vec![
        vec![create("A"), create("B")],
        vec![
            TransactionVariant::CreateTokens { account_id: 21, tokens: 50 },
            TransactionVariant::CreateTokens { account_id: 22, tokens: 5 },
        ],
        vec![
            TransactionVariant::TransferTokens { sender_id: 21, receiver_id: 22, tokens: 20 },
            TransactionVariant::TransferTokens { sender_id: 22, receiver_id: 1, tokens: 1 },
        ],
    ];
    let ids = [vec![21, 22], vec![0, 0], vec![0, 0]];
    for (variants, fresh) in blocks.into_iter().zip(ids.iter()) {
        let prev = if chain.get_block_count() == 0 { None } else { chain.get_last_block_hahs().clone() };
        assert_eq!(chain.append_block_with_ids(block_of(prev, variants), fresh), Ok(()));
    }
    assert_eq!(
        balances(&chain),
        vec![(1, String::from("Genesis"), 1), (21, String::from("A"), 30), (22, String::from("B"), 24)]
    );
}
