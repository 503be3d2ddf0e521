//! The ledger: the account table and the chain of accepted blocks.

use vstd::prelude::*;

use crate::account::{fits_i64, random_id, Account, AccountView};
use crate::block::{is_sealed, optional_view, Block, BlockView};
use crate::transactions::{OperationView, TransactionVariant, TransactionView};

verus! {

/// Why an operation could not be applied.
#[derive(Clone, Copy, Debug, PartialEq, Eq, Structural)]
pub enum OperationError {
    /// No account has the identifier the operation names.
    AccountNotFound,
    /// The balance would leave the range of an `i64`.
    BalanceOverflow,
}

/// Why a block was rejected.
#[derive(Clone, Copy, Debug, PartialEq, Eq, Structural)]
pub enum LedgerError {
    /// The block's cached hash is absent or disagrees with its content.
    InvalidHash,
    /// The block holds no transaction.
    EmptyBlock,
    /// The block's declared previous hash is not the hash of the tip.
    BrokenLink,
    /// The transaction at `index` could not be applied.
    TransactionFailed { index: usize, cause: OperationError },
}

/// The abstract state of a ledger: its accounts in table order and its
/// accepted blocks in chain order.
pub struct LedgerView {
    pub accounts: Seq<AccountView>,
    pub blocks: Seq<BlockView>,
}

/// `i` is the first position of an account named `name`.
pub open spec fn is_first_named(s: Seq<AccountView>, name: Seq<char>, i: int) -> bool {
    &&& 0 <= i < s.len()
    &&& s[i].name == name
    &&& forall|j: int| 0 <= j < i ==> s[j].name != name
}

/// The position of the account named `name`, or -1 if there is none.
pub open spec fn name_index(s: Seq<AccountView>, name: Seq<char>) -> int {
    if exists|i: int| is_first_named(s, name, i) {
        choose|i: int| is_first_named(s, name, i)
    } else {
        -1
    }
}

/// `i` is the first position of an account with identifier `id`.
pub open spec fn is_first_with_id(s: Seq<AccountView>, id: u128, i: int) -> bool {
    &&& 0 <= i < s.len()
    &&& s[i].id == id
    &&& forall|j: int| 0 <= j < i ==> s[j].id != id
}

/// The position of the account with identifier `id`, or -1 if there is none.
pub open spec fn id_index(s: Seq<AccountView>, id: u128) -> int {
    if exists|i: int| is_first_with_id(s, id, i) {
        choose|i: int| is_first_with_id(s, id, i)
    } else {
        -1
    }
}

pub open spec fn adjusted(a: AccountView, delta: int) -> AccountView {
    AccountView { balance: a.balance + delta, ..a }
}

/// The account table after one operation; a new account gets `fresh_id`.
pub open spec fn apply_operation(
    s: Seq<AccountView>,
    op: OperationView,
    fresh_id: u128,
) -> Result<Seq<AccountView>, OperationError> {
    match op {
        OperationView::CreateUserAccount { name } => {
            let a = AccountView { id: fresh_id, name, balance: 0 };
            let i = name_index(s, name);
            if i >= 0 {
                Ok(s.update(i, a))
            } else {
                Ok(s.push(a))
            }
        },
        OperationView::CreateTokens { account_id, tokens } => {
            let i = id_index(s, account_id);
            if i < 0 {
                Err(OperationError::AccountNotFound)
            } else if !fits_i64(s[i].balance + tokens) {
                Err(OperationError::BalanceOverflow)
            } else {
                Ok(s.update(i, adjusted(s[i], tokens as int)))
            }
        },
        OperationView::TransferTokens { sender_id, receiver_id, tokens } => {
            let i = id_index(s, sender_id);
            if i >= 0 && !fits_i64(s[i].balance - tokens) {
                Err(OperationError::BalanceOverflow)
            } else {
                let s1 = if i >= 0 {
                    s.update(i, adjusted(s[i], -tokens))
                } else {
                    s
                };
                let j = id_index(s1, receiver_id);
                if j >= 0 && !fits_i64(s1[j].balance + tokens) {
                    Err(OperationError::BalanceOverflow)
                } else if j >= 0 {
                    Ok(s1.update(j, adjusted(s1[j], tokens as int)))
                } else {
                    Ok(s1)
                }
            }
        },
    }
}

/// The account table after the operations of `txs` in order, the `k`-th
/// taking `ids[k]` for an account it creates; the first failure is reported
/// with its position.
pub open spec fn apply_all(
    s: Seq<AccountView>,
    txs: Seq<TransactionView>,
    ids: Seq<u128>,
) -> Result<Seq<AccountView>, LedgerError>
    decreases txs.len(),
{
    if txs.len() == 0 {
        Ok(s)
    } else {
        match apply_all(s, txs.drop_last(), ids) {
            Err(e) => Err(e),
            Ok(s1) => match apply_operation(s1, txs.last().variant, ids[txs.len() - 1]) {
                Ok(s2) => Ok(s2),
                Err(cause) => Err(
                    LedgerError::TransactionFailed { index: (txs.len() - 1) as usize, cause },
                ),
            },
        }
    }
}

/// The ledger after submitting `b`, or why `b` is rejected: integrity,
/// non-emptiness and linkage are checked in that order, then the operations
/// are applied as one batch.
pub open spec fn append_outcome(l: LedgerView, b: BlockView, ids: Seq<u128>) -> Result<
    LedgerView,
    LedgerError,
> {
    if !is_sealed(b) {
        Err(LedgerError::InvalidHash)
    } else if b.transactions.len() == 0 {
        Err(LedgerError::EmptyBlock)
    } else if l.blocks.len() > 0 && b.prev_hash != l.blocks.last().hash {
        Err(LedgerError::BrokenLink)
    } else {
        match apply_all(l.accounts, b.transactions, ids) {
            Ok(accounts) => Ok(LedgerView { accounts, blocks: l.blocks.push(b) }),
            Err(e) => Err(e),
        }
    }
}

/// `r` and `after` are what submitting `b` to `before` gives: on rejection
/// the error, with the ledger unchanged.
pub open spec fn is_append_result(
    before: LedgerView,
    b: BlockView,
    ids: Seq<u128>,
    r: Result<(), LedgerError>,
    after: LedgerView,
) -> bool {
    match append_outcome(before, b, ids) {
        Ok(l) => r == Ok::<(), LedgerError>(()) && after == l,
        Err(e) => r == Err::<(), LedgerError>(e) && after == before,
    }
}

pub open spec fn account_views(s: Seq<Account>) -> Seq<AccountView> {
    s.map_values(|a: Account| a@)
}

pub open spec fn block_views(s: Seq<Block>) -> Seq<BlockView> {
    s.map_values(|b: Block| b@)
}

/// The ledger after submitting the blocks of `bs` in order, the `k`-th with
/// the fresh identifiers `ids[k]`, or the first rejection.
pub open spec fn append_all(l: LedgerView, bs: Seq<BlockView>, ids: Seq<Seq<u128>>) -> Result<
    LedgerView,
    LedgerError,
>
    decreases bs.len(),
{
    if bs.len() == 0 {
        Ok(l)
    } else {
        match append_all(l, bs.drop_last(), ids) {
            Ok(l1) => append_outcome(l1, bs.last(), ids[bs.len() - 1]),
            Err(e) => Err(e),
        }
    }
}

/// The account table after the operations of all the blocks of `bs`, in
/// block order and then in transaction order.
pub open spec fn fold_operations(
    s: Seq<AccountView>,
    bs: Seq<BlockView>,
    ids: Seq<Seq<u128>>,
) -> Result<Seq<AccountView>, LedgerError>
    decreases bs.len(),
{
    if bs.len() == 0 {
        Ok(s)
    } else {
        match fold_operations(s, bs.drop_last(), ids) {
            Ok(s1) => apply_all(s1, bs.last().transactions, ids[bs.len() - 1]),
            Err(e) => Err(e),
        }
    }
}

/// Once a ledger has accepted a run of blocks, its accounts are the fold of
/// all their operations over the accounts it started with, and its chain is
/// the old chain followed by those blocks.
pub proof fn lemma_accepted_blocks_fold_operations(
    l: LedgerView,
    bs: Seq<BlockView>,
    ids: Seq<Seq<u128>>,
)
    requires
        append_all(l, bs, ids) is Ok,
    ensures
        fold_operations(l.accounts, bs, ids) == Ok::<Seq<AccountView>, LedgerError>(
            append_all(l, bs, ids)->Ok_0.accounts,
        ),
        append_all(l, bs, ids)->Ok_0.blocks == l.blocks + bs,
    decreases bs.len(),
{
    if bs.len() == 0 {
        assert(l.blocks + bs =~= l.blocks);
    } else {
        lemma_accepted_blocks_fold_operations(l, bs.drop_last(), ids);
        assert(l.blocks + bs.drop_last() + seq![bs.last()] =~= l.blocks + bs);
    }
}

/// A block without transactions is rejected, even when its hash matches its
/// empty content.
pub proof fn lemma_empty_block_is_rejected(l: LedgerView, b: BlockView, ids: Seq<u128>)
    requires
        b.transactions.len() == 0,
    ensures
        append_outcome(l, b, ids) is Err,
        is_sealed(b) ==> append_outcome(l, b, ids) == Err::<LedgerView, LedgerError>(
            LedgerError::EmptyBlock,
        ),
{
}

/// The first block of an empty chain is accepted whatever link it declares,
/// when it is sealed, non-empty and its operations apply.
pub proof fn lemma_first_block_needs_no_link(l: LedgerView, b: BlockView, ids: Seq<u128>)
    requires
        l.blocks.len() == 0,
        is_sealed(b),
        b.transactions.len() > 0,
        apply_all(l.accounts, b.transactions, ids) is Ok,
    ensures
        append_outcome(l, b, ids) == Ok::<LedgerView, LedgerError>(
            LedgerView {
                accounts: apply_all(l.accounts, b.transactions, ids)->Ok_0,
                blocks: seq![b],
            },
        ),
{
    assert(l.blocks.push(b) =~= seq![b]);
}

/// Once the chain holds a block, a sealed, non-empty block that does not
/// declare the tip's hash as its predecessor is rejected for its link.
pub proof fn lemma_later_block_must_link(l: LedgerView, b: BlockView, ids: Seq<u128>)
    requires
        l.blocks.len() > 0,
        is_sealed(b),
        b.transactions.len() > 0,
        b.prev_hash != l.blocks.last().hash,
    ensures
        append_outcome(l, b, ids) == Err::<LedgerView, LedgerError>(LedgerError::BrokenLink),
{
}

/// Every block is sealed and every block after the first declares the hash
/// of the block before it.
pub open spec fn is_linked_chain(bs: Seq<BlockView>) -> bool {
    &&& forall|i: int| 0 <= i < bs.len() ==> #[trigger] is_sealed(bs[i])
    &&& forall|i: int| 0 < i < bs.len() ==> #[trigger] bs[i].prev_hash == bs[i - 1].hash
}

/// Accepting a block keeps the chain sealed and linked.
pub proof fn lemma_accepted_block_keeps_chain_linked(l: LedgerView, b: BlockView, ids: Seq<u128>)
    requires
        is_linked_chain(l.blocks),
        append_outcome(l, b, ids) is Ok,
    ensures
        is_linked_chain(append_outcome(l, b, ids)->Ok_0.blocks),
{
    let bs = l.blocks.push(b);
    assert(append_outcome(l, b, ids)->Ok_0.blocks == bs);
    assert forall|i: int| 0 <= i < bs.len() implies #[trigger] is_sealed(bs[i]) by {
        if i < l.blocks.len() {
            assert(bs[i] == l.blocks[i]);
        }
    }
    assert forall|i: int| 0 < i < bs.len() implies #[trigger] bs[i].prev_hash == bs[i - 1].hash by {
        if i < l.blocks.len() {
            assert(bs[i] == l.blocks[i]);
            assert(bs[i - 1] == l.blocks[i - 1]);
        }
    }
}

/// No two accounts of the table share a name.
pub open spec fn has_unique_names(s: Seq<AccountView>) -> bool {
    forall|i: int, j: int|
        0 <= i < j < s.len() ==> #[trigger] s[i].name != #[trigger] s[j].name
}

proof fn lemma_apply_operation_keeps_names_unique(
    s: Seq<AccountView>,
    op: OperationView,
    fresh_id: u128,
)
    requires
        has_unique_names(s),
        apply_operation(s, op, fresh_id) is Ok,
    ensures
        has_unique_names(apply_operation(s, op, fresh_id)->Ok_0),
{
    let r = apply_operation(s, op, fresh_id)->Ok_0;
    match op {
        OperationView::CreateUserAccount { name } => {
            if name_index(s, name) < 0 {
                assert forall|k: int| 0 <= k < s.len() implies s[k].name != name by {
                    if s[k].name == name {
                        assert(is_first_named(s, name, k));
                    }
                }
            }
            assert forall|i: int, j: int| 0 <= i < j < r.len() implies #[trigger] r[i].name
                != #[trigger] r[j].name by {
                if name_index(s, name) < 0 {
                    if j < s.len() {
                        assert(r[i] == s[i] && r[j] == s[j]);
                    }
                }
            }
        },
        _ => {
            assert forall|i: int, j: int| 0 <= i < j < r.len() implies #[trigger] r[i].name
                != #[trigger] r[j].name by {
                assert(r[i].name == s[i].name && r[j].name == s[j].name);
            }
        },
    }
}

proof fn lemma_apply_all_keeps_names_unique(
    s: Seq<AccountView>,
    txs: Seq<TransactionView>,
    ids: Seq<u128>,
)
    requires
        has_unique_names(s),
        apply_all(s, txs, ids) is Ok,
    ensures
        has_unique_names(apply_all(s, txs, ids)->Ok_0),
    decreases txs.len(),
{
    if txs.len() > 0 {
        lemma_apply_all_keeps_names_unique(s, txs.drop_last(), ids);
        let s1 = apply_all(s, txs.drop_last(), ids)->Ok_0;
        lemma_apply_operation_keeps_names_unique(s1, txs.last().variant, ids[txs.len() - 1]);
    }
}

/// Accepting a block keeps the account names unique: a name is the key of
/// at most one account.
pub proof fn lemma_accepted_block_keeps_names_unique(l: LedgerView, b: BlockView, ids: Seq<u128>)
    requires
        has_unique_names(l.accounts),
        append_outcome(l, b, ids) is Ok,
    ensures
        has_unique_names(append_outcome(l, b, ids)->Ok_0.accounts),
{
    lemma_apply_all_keeps_names_unique(l.accounts, b.transactions, ids);
}

proof fn lemma_first_named_is_index(s: Seq<AccountView>, name: Seq<char>, i: int)
    requires
        is_first_named(s, name, i),
    ensures
        name_index(s, name) == i,
{
    let k = choose|k: int| is_first_named(s, name, k);
    assert(is_first_named(s, name, k));
    if k < i {
        assert(s[k].name != name);
    } else if i < k {
        assert(s[i].name != name);
    }
}

proof fn lemma_first_with_id_is_index(s: Seq<AccountView>, id: u128, i: int)
    requires
        is_first_with_id(s, id, i),
    ensures
        id_index(s, id) == i,
{
    let k = choose|k: int| is_first_with_id(s, id, k);
    assert(is_first_with_id(s, id, k));
    if k < i {
        assert(s[k].id != id);
    } else if i < k {
        assert(s[i].id != id);
    }
}

proof fn lemma_error_persists(
    s: Seq<AccountView>,
    txs: Seq<TransactionView>,
    ids: Seq<u128>,
    k: int,
)
    requires
        0 <= k <= txs.len(),
        apply_all(s, txs.take(k), ids) is Err,
    ensures
        apply_all(s, txs, ids) == apply_all(s, txs.take(k), ids),
    decreases txs.len(),
{
    if k == txs.len() {
        assert(txs.take(k) =~= txs);
    } else {
        assert(txs.drop_last().take(k) =~= txs.take(k));
        lemma_error_persists(s, txs.drop_last(), ids, k);
    }
}

/// Finds the first account named `name`.
fn index_by_name(accounts: &Vec<Account>, name: &String) -> (r: Option<usize>)
    ensures
        match r {
            Some(i) => i as int == name_index(account_views(accounts@), name@),
            None => name_index(account_views(accounts@), name@) == -1,
        },
{
    let ghost s = account_views(accounts@);
    let n = accounts.len();
    let mut i: usize = 0;
    while i < n
        invariant
            n == accounts@.len(),
            s == account_views(accounts@),
            i <= n,
            forall|j: int| 0 <= j < i ==> s[j].name != name@,
        decreases n - i,
    {
        if accounts[i].has_name(name) {
            proof {
                lemma_first_named_is_index(s, name@, i as int);
            }
            return Some(i);
        }
        i = i + 1;
    }
    assert(!exists|k: int| is_first_named(s, name@, k));
    None
}

/// Finds the first account with identifier `id`.
fn index_by_id(accounts: &Vec<Account>, id: u128) -> (r: Option<usize>)
    ensures
        match r {
            Some(i) => i as int == id_index(account_views(accounts@), id),
            None => id_index(account_views(accounts@), id) == -1,
        },
{
    let ghost s = account_views(accounts@);
    let n = accounts.len();
    let mut i: usize = 0;
    while i < n
        invariant
            n == accounts@.len(),
            s == account_views(accounts@),
            i <= n,
            forall|j: int| 0 <= j < i ==> s[j].id != id,
        decreases n - i,
    {
        if accounts[i].id() == id {
            proof {
                lemma_first_with_id_is_index(s, id, i as int);
            }
            return Some(i);
        }
        i = i + 1;
    }
    assert(!exists|k: int| is_first_with_id(s, id, k));
    None
}

/// `n` freshly drawn random identifiers.
fn draw_ids(n: usize) -> (r: Vec<u128>)
    ensures
        r@.len() == n,
{
    let mut ids: Vec<u128> = Vec::new();
    let mut i: usize = 0;
    while i < n
        invariant
            i <= n,
            ids@.len() == i,
        decreases n - i,
    {
        ids.push(random_id());
        i = i + 1;
    }
    ids
}

fn same_hash(a: &Option<Vec<u8>>, b: &Option<Vec<u8>>) -> (r: bool)
    ensures
        r == (optional_view(*a) == optional_view(*b)),
{
    match (a, b) {
        (Some(x), Some(y)) => {
            let r = *x == *y;
            assert(r ==> x@ =~= y@);
            r
        },
        (None, None) => true,
        _ => false,
    }
}

/// An append-only chain of blocks and the account table their operations
/// produced.
#[derive(Debug)]
pub struct Blockchain {
    accounts: Vec<Account>,
    blocks: Vec<Block>,
}

impl View for Blockchain {
    type V = LedgerView;

    closed spec fn view(&self) -> LedgerView {
        LedgerView { accounts: account_views(self.accounts@), blocks: block_views(self.blocks@) }
    }
}

impl Blockchain {
    /// A ledger holding the seed account and no blocks.
    pub fn new(genesis_account: Account) -> (r: Blockchain)
        ensures
            r@ == (LedgerView { accounts: seq![genesis_account@], blocks: seq![] }),
    {
        let mut accounts: Vec<Account> = Vec::new();
        accounts.push(genesis_account);
        let r = Blockchain { accounts, blocks: Vec::new() };
        assert(r@.accounts =~= seq![genesis_account@]);
        assert(r@.blocks =~= seq![]);
        r
    }

    /// The sealed hash of the last accepted block.
    pub fn get_last_block_hahs(&self) -> (r: &Option<Vec<u8>>)
        requires
            self@.blocks.len() > 0,
        ensures
            optional_view(*r) == self@.blocks.last().hash,
    {
        self.blocks[self.blocks.len() - 1].get_hash()
    }

    /// The account named `user_name`, if there is one.
    pub fn get_account(&self, user_name: &str) -> (r: Option<&Account>)
        ensures
            match r {
                Some(a) => name_index(self@.accounts, user_name@) >= 0 && a@ == self@.accounts[name_index(
                    self@.accounts,
                    user_name@,
                )],
                None => name_index(self@.accounts, user_name@) == -1,
            },
    {
        let key = user_name.to_owned();
        match index_by_name(&self.accounts, &key) {
            Some(i) => Some(&self.accounts[i]),
            None => None,
        }
    }

    /// The account with identifier `id`, if there is one.
    pub fn get_account_by_id(&self, id: u128) -> (r: Option<&Account>)
        ensures
            match r {
                Some(a) => id_index(self@.accounts, id) >= 0 && a@ == self@.accounts[id_index(
                    self@.accounts,
                    id,
                )],
                None => id_index(self@.accounts, id) == -1,
            },
    {
        match index_by_id(&self.accounts, id) {
            Some(i) => Some(&self.accounts[i]),
            None => None,
        }
    }

    pub fn get_accounts(&self) -> (r: &Vec<Account>)
        ensures
            account_views(r@) == self@.accounts,
    {
        &self.accounts
    }

    pub fn get_block_count(&self) -> (r: usize)
        ensures
            r == self@.blocks.len(),
    {
        self.blocks.len()
    }

    /// Submits a block, drawing a random identifier for each account it
    /// creates. On rejection the ledger is left as it was.
    pub fn append_block(&mut self, block: Block) -> (r: Result<(), LedgerError>)
        ensures
            exists|ids: Seq<u128>|
                ids.len() == block@.transactions.len() && #[trigger] is_append_result(
                    old(self)@,
                    block@,
                    ids,
                    r,
                    final(self)@,
                ),
    {
        let ids = draw_ids(block.get_transaction_count());
        let ghost b = block@;
        let r = self.append_block_with_ids(block, &ids);
        assert(is_append_result(old(self)@, b, ids@, r, self@));
        r
    }

    /// Submits a block; the operation at position `k` gives `ids[k]` to an
    /// account it creates. On rejection the ledger is left as it was.
    pub fn append_block_with_ids(&mut self, block: Block, ids: &Vec<u128>) -> (r: Result<
        (),
        LedgerError,
    >)
        requires
            ids@.len() == block@.transactions.len(),
        ensures
            is_append_result(old(self)@, block@, ids@, r, final(self)@),
    {
        if !block.verify() {
            return Err(LedgerError::InvalidHash);
        }
        if block.get_transaction_count() == 0 {
            return Err(LedgerError::EmptyBlock);
        }
        if self.blocks.len() > 0 {
            let last = &self.blocks[self.blocks.len() - 1];
            if !same_hash(block.get_prev_hash(), last.get_hash()) {
                return Err(LedgerError::BrokenLink);
            }
        }
        match self.execute_transactions(&block, ids) {
            Err(e) => Err(e),
            Ok(()) => {
                let ghost b = block@;
                self.blocks.push(block);
                assert(block_views(self.blocks@) =~= block_views(old(self).blocks@).push(b));
                Ok(())
            },
        }
    }

    /// Applies the block's operations as one batch, restoring the account
    /// table if any of them fails.
    fn execute_transactions(&mut self, block: &Block, ids: &Vec<u128>) -> (r: Result<
        (),
        LedgerError,
    >)
        requires
            ids@.len() == block@.transactions.len(),
        ensures
            final(self)@.blocks == old(self)@.blocks,
            match apply_all(old(self)@.accounts, block@.transactions, ids@) {
                Ok(s) => r == Ok::<(), LedgerError>(()) && final(self)@.accounts == s,
                Err(e) => r == Err::<(), LedgerError>(e) && final(self)@.accounts == old(
                    self,
                )@.accounts,
            },
    {
        let snapshot = self.accounts.clone();
        assert(account_views(snapshot@) =~= account_views(self.accounts@));
        let transactions = block.get_transactions();
        let ghost txs = block@.transactions;
        let n = transactions.len();
        let mut i: usize = 0;
        assert(txs.take(0) =~= seq![]);
        while i < n
            invariant
                n == txs.len(),
                ids@.len() == n,
                txs == block@.transactions,
                crate::block::transaction_views(transactions@) == txs,
                account_views(snapshot@) == old(self)@.accounts,
                self@.blocks == old(self)@.blocks,
                i <= n,
                apply_all(old(self)@.accounts, txs.take(i as int), ids@) == Ok::<
                    Seq<AccountView>,
                    LedgerError,
                >(self@.accounts),
            decreases n - i,
        {
            assert(txs.take(i + 1 as int).drop_last() =~= txs.take(i as int));
            assert(txs[i as int] == transactions@[i as int]@);
            let variant = transactions[i].get_transaction_variant();
            match self.execute_transaction(variant, ids[i]) {
                Err(cause) => {
                    proof {
                        lemma_error_persists(old(self)@.accounts, txs, ids@, i + 1);
                    }
                    self.accounts = snapshot;
                    return Err(LedgerError::TransactionFailed { index: i, cause });
                },
                Ok(()) => {},
            }
            i = i + 1;
        }
        assert(txs.take(n as int) =~= txs);
        Ok(())
    }

    /// Applies one operation to the account table.
    fn execute_transaction(&mut self, variant: &TransactionVariant, fresh_id: u128) -> (r: Result<
        (),
        OperationError,
    >)
        ensures
            final(self)@.blocks == old(self)@.blocks,
            match apply_operation(old(self)@.accounts, variant@, fresh_id) {
                Ok(s) => r == Ok::<(), OperationError>(()) && final(self)@.accounts == s,
                Err(e) => r == Err::<(), OperationError>(e),
            },
    {
        match variant {
            TransactionVariant::CreateUserAccount { account_name } => {
                self.create_user_account(account_name, fresh_id);
                Ok(())
            },
            TransactionVariant::CreateTokens { account_id, tokens } => {
                self.create_tokens(*account_id, *tokens)
            },
            TransactionVariant::TransferTokens { sender_id, receiver_id, tokens } => {
                self.transfer_tokens(*sender_id, *receiver_id, *tokens)
            },
        }
    }

    fn create_user_account(&mut self, account_name: &String, fresh_id: u128)
        ensures
            final(self)@.blocks == old(self)@.blocks,
            apply_operation(
                old(self)@.accounts,
                OperationView::CreateUserAccount { name: account_name@ },
                fresh_id,
            ) == Ok::<Seq<AccountView>, OperationError>(final(self)@.accounts),
    {
        let account = Account::with_id(fresh_id, account_name.as_str());
        match index_by_name(&self.accounts, account_name) {
            Some(i) => {
                self.accounts.set(i, account);
                assert(account_views(self.accounts@) =~= account_views(old(self).accounts@).update(
                    i as int,
                    account@,
                ));
            },
            None => {
                self.accounts.push(account);
                assert(account_views(self.accounts@) =~= account_views(old(self).accounts@).push(
                    account@,
                ));
            },
        }
    }

    /// Credits or debits `tokens` to the account at position `i`, or reports
    /// that its balance would leave the range of an `i64`.
    fn adjust_balance(&mut self, i: usize, tokens: u64, credit: bool) -> (r: Result<
        (),
        OperationError,
    >)
        requires
            i < old(self)@.accounts.len(),
        ensures
            final(self)@.blocks == old(self)@.blocks,
            ({
                let a = old(self)@.accounts[i as int];
                let delta = if credit {
                    tokens as int
                } else {
                    -tokens
                };
                if fits_i64(a.balance + delta) {
                    r == Ok::<(), OperationError>(()) && final(self)@.accounts == old(
                        self,
                    )@.accounts.update(i as int, adjusted(a, delta))
                } else {
                    r == Err::<(), OperationError>(OperationError::BalanceOverflow)
                        && final(self)@ == old(self)@
                }
            }),
    {
        let mut account = self.accounts[i].clone();
        let balance = account.tokens() as i128;
        let next = if credit {
            balance + tokens as i128
        } else {
            balance - tokens as i128
        };
        if next < i64::MIN as i128 || next > i64::MAX as i128 {
            return Err(OperationError::BalanceOverflow);
        }
        if credit {
            account.add_tokens(tokens);
        } else {
            account.subtract_tokens(tokens);
        }
        self.accounts.set(i, account);
        assert(account_views(self.accounts@) =~= account_views(old(self).accounts@).update(
            i as int,
            account@,
        ));
        Ok(())
    }

    fn create_tokens(&mut self, account_id: u128, tokens: u64) -> (r: Result<(), OperationError>)
        ensures
            final(self)@.blocks == old(self)@.blocks,
            match apply_operation(
                old(self)@.accounts,
                OperationView::CreateTokens { account_id, tokens },
                0,
            ) {
                Ok(s) => r == Ok::<(), OperationError>(()) && final(self)@.accounts == s,
                Err(e) => r == Err::<(), OperationError>(e),
            },
    {
        match index_by_id(&self.accounts, account_id) {
            Some(i) => self.adjust_balance(i, tokens, true),
            None => Err(OperationError::AccountNotFound),
        }
    }

    fn transfer_tokens(&mut self, sender_id: u128, receiver_id: u128, tokens: u64) -> (r: Result<
        (),
        OperationError,
    >)
        ensures
            final(self)@.blocks == old(self)@.blocks,
            match apply_operation(
                old(self)@.accounts,
                OperationView::TransferTokens { sender_id, receiver_id, tokens },
                0,
            ) {
                Ok(s) => r == Ok::<(), OperationError>(()) && final(self)@.accounts == s,
                Err(e) => r == Err::<(), OperationError>(e),
            },
    {
        if let Some(i) = index_by_id(&self.accounts, sender_id) {
            let debited = self.adjust_balance(i, tokens, false);
            if debited.is_err() {
                return debited;
            }
        }
        if let Some(j) = index_by_id(&self.accounts, receiver_id) {
            self.adjust_balance(j, tokens, true)
        } else {
            Ok(())
        }
    }
}

} // verus!
