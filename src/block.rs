//! Sealed, hash-linked batches of transactions.

use vstd::prelude::*;

use crate::encoding::{append_bytes, blake2b512, blake2b512_of};
use crate::transactions::{transaction_digest, Transaction, TransactionView};

verus! {

/// The abstract content of a [`Block`].
pub struct BlockView {
    /// The sealed hash, absent until the first transaction is appended.
    pub hash: Option<Seq<u8>>,
    /// The declared hash of the preceding block.
    pub prev_hash: Option<Seq<u8>>,
    pub transactions: Seq<TransactionView>,
}

/// The bytes of an optional hash, absent ones contributing nothing.
pub open spec fn optional_bytes(h: Option<Seq<u8>>) -> Seq<u8> {
    match h {
        Some(b) => b,
        None => seq![],
    }
}

pub open spec fn optional_view(h: Option<Vec<u8>>) -> Option<Seq<u8>> {
    match h {
        Some(b) => Some(b@),
        None => None,
    }
}

/// The digests of the transactions, concatenated in order.
pub open spec fn concat_digests(txs: Seq<TransactionView>) -> Seq<u8>
    decreases txs.len(),
{
    if txs.len() == 0 {
        seq![]
    } else {
        concat_digests(txs.drop_last()) + transaction_digest(txs.last())
    }
}

/// The digest that seals a block with the given link and transactions.
pub open spec fn block_digest(prev_hash: Option<Seq<u8>>, txs: Seq<TransactionView>) -> Seq<u8> {
    blake2b512_of(optional_bytes(prev_hash) + concat_digests(txs))
}

/// Whether the cached hash is present and equals a fresh recomputation.
pub open spec fn is_sealed(b: BlockView) -> bool {
    b.hash == Some(block_digest(b.prev_hash, b.transactions))
}

pub open spec fn transaction_views(s: Seq<Transaction>) -> Seq<TransactionView> {
    s.map_values(|t: Transaction| t@)
}

/// An ordered batch of transactions linked to a previous block, caching the
/// hash of its current content.
#[derive(Debug)]
pub struct Block {
    hash: Option<Vec<u8>>,
    prev_hash: Option<Vec<u8>>,
    transactions: Vec<Transaction>,
}

impl View for Block {
    type V = BlockView;

    closed spec fn view(&self) -> BlockView {
        BlockView {
            hash: optional_view(self.hash),
            prev_hash: optional_view(self.prev_hash),
            transactions: transaction_views(self.transactions@),
        }
    }
}

fn clone_optional_bytes(h: &Option<Vec<u8>>) -> (r: Option<Vec<u8>>)
    ensures
        optional_view(r) == optional_view(*h),
{
    match h {
        Some(b) => {
            let mut c: Vec<u8> = Vec::new();
            append_bytes(&mut c, b.as_slice());
            assert(c@ =~= b@);
            Some(c)
        },
        None => None,
    }
}

impl Block {
    /// An empty, unsealed block declaring `prev_hash` as its predecessor.
    pub fn new(prev_hash: Option<Vec<u8>>) -> (r: Block)
        ensures
            r@ == (BlockView { hash: None, prev_hash: optional_view(prev_hash), transactions: seq![] }),
    {
        let r = Block { hash: None, prev_hash, transactions: Vec::new() };
        assert(r@.transactions =~= seq![]);
        r
    }

    pub fn get_hash(&self) -> (r: &Option<Vec<u8>>)
        ensures
            optional_view(*r) == self@.hash,
    {
        &self.hash
    }

    pub fn get_prev_hash(&self) -> (r: &Option<Vec<u8>>)
        ensures
            optional_view(*r) == self@.prev_hash,
    {
        &self.prev_hash
    }

    pub fn get_transaction_count(&self) -> (r: usize)
        ensures
            r == self@.transactions.len(),
    {
        self.transactions.len()
    }

    pub fn get_transactions(&self) -> (r: &Vec<Transaction>)
        ensures
            transaction_views(r@) == self@.transactions,
    {
        &self.transactions
    }

    /// Appends a transaction and reseals the block over its new content.
    pub fn append_transaction(&mut self, transaction: Transaction)
        ensures
            final(self)@.prev_hash == old(self)@.prev_hash,
            final(self)@.transactions == old(self)@.transactions.push(transaction@),
            final(self)@.hash == Some(block_digest(final(self)@.prev_hash, final(self)@.transactions)),
            is_sealed(final(self)@),
    {
        self.transactions.push(transaction);
        assert(transaction_views(self.transactions@) =~= transaction_views(
            old(self).transactions@,
        ).push(transaction@));
        self.update_hash();
    }

    /// Replaces the cached hash without recomputing it.
    pub fn replace_hash(&mut self, hash: Option<Vec<u8>>)
        ensures
            final(self)@ == (BlockView { hash: optional_view(hash), ..old(self)@ }),
    {
        self.hash = hash;
    }

    /// Whether the cached hash is present and equal to `digest`.
    pub fn matches_hash(&self, digest: &Vec<u8>) -> (r: bool)
        ensures
            r == (self@.hash == Some(digest@)),
    {
        match &self.hash {
            Some(h) => {
                let r = *h == *digest;
                assert(r ==> h@ =~= digest@);
                r
            },
            None => false,
        }
    }

    /// Recomputes the hash from the current content and compares it with the
    /// cached one; an unsealed block does not verify.
    pub fn verify(&self) -> (r: bool)
        ensures
            r == is_sealed(self@),
    {
        match &self.hash {
            Some(_) => {
                let digest = self.calculate_hash();
                self.matches_hash(&digest)
            },
            None => false,
        }
    }

    fn update_hash(&mut self)
        ensures
            final(self)@ == (BlockView {
                hash: Some(block_digest(old(self)@.prev_hash, old(self)@.transactions)),
                ..old(self)@
            }),
    {
        let h = self.calculate_hash();
        self.hash = Some(h);
    }

    /// The digest of the block's current link and transactions.
    pub fn calculate_hash(&self) -> (r: Vec<u8>)
        ensures
            r@ == block_digest(self@.prev_hash, self@.transactions),
            r@.len() == 64,
    {
        let mut data: Vec<u8> = Vec::new();
        if let Some(prev) = &self.prev_hash {
            append_bytes(&mut data, prev.as_slice());
        }
        assert(data@ =~= optional_bytes(self@.prev_hash));
        let n = self.transactions.len();
        let mut i: usize = 0;
        while i < n
            invariant
                n == self.transactions@.len(),
                i <= n,
                data@ == optional_bytes(self@.prev_hash) + concat_digests(
                    self@.transactions.subrange(0, i as int),
                ),
            decreases n - i,
        {
            let d = self.transactions[i].calculate_hash();
            append_bytes(&mut data, d.as_slice());
            assert(self@.transactions.subrange(0, i + 1 as int).drop_last() =~= self@.transactions.subrange(0, i as int));
            assert(data@ =~= optional_bytes(self@.prev_hash) + concat_digests(
                self@.transactions.subrange(0, i + 1 as int),
            ));
            i = i + 1;
        }
        assert(self@.transactions.subrange(0, n as int) =~= self@.transactions);
        blake2b512(&data)
    }
}

/// A sealed block whose cached hash is replaced by any other value, or
/// removed, no longer verifies.
pub proof fn lemma_replaced_hash_fails_verification(b: BlockView, h: Option<Seq<u8>>)
    requires
        is_sealed(b),
        h != b.hash,
    ensures
        !is_sealed(BlockView { hash: h, ..b }),
{
}

/// A sealed block whose link or transactions are altered without resealing
/// verifies again only if the altered content has the very same digest.
pub proof fn lemma_altered_content_fails_verification(
    b: BlockView,
    prev_hash: Option<Seq<u8>>,
    transactions: Seq<TransactionView>,
)
    requires
        is_sealed(b),
        block_digest(prev_hash, transactions) != block_digest(b.prev_hash, b.transactions),
    ensures
        !is_sealed(BlockView { prev_hash, transactions, ..b }),
{
}

impl Clone for Block {
    fn clone(&self) -> (r: Block)
        ensures
            r@ == self@,
    {
        let mut transactions: Vec<Transaction> = Vec::new();
        let n = self.transactions.len();
        let mut i: usize = 0;
        while i < n
            invariant
                n == self.transactions@.len(),
                i <= n,
                transactions@.len() == i,
                forall|j: int| 0 <= j < i ==> #[trigger] transactions@[j]@ == self.transactions@[j]@,
            decreases n - i,
        {
            let c = self.transactions[i].clone();
            transactions.push(c);
            i = i + 1;
        }
        assert(transaction_views(transactions@) =~= transaction_views(self.transactions@));
        Block {
            hash: clone_optional_bytes(&self.hash),
            prev_hash: clone_optional_bytes(&self.prev_hash),
            transactions,
        }
    }
}

} // verus!
