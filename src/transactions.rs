//! Operations on the ledger and the transactions that carry them.

use vstd::prelude::*;
use vstd::utf8::encode_utf8;

use crate::encoding::{append_bytes, be_bytes, blake2b512, blake2b512_of, id_bytes, u64_bytes};

verus! {

/// One of the ledger's state transitions.
#[derive(Debug)]
pub enum TransactionVariant {
    CreateUserAccount { account_name: String },
    CreateTokens { account_id: u128, tokens: u64 },
    TransferTokens { sender_id: u128, receiver_id: u128, tokens: u64 },
}

/// The abstract content of a [`TransactionVariant`].
pub enum OperationView {
    CreateUserAccount { name: Seq<char> },
    CreateTokens { account_id: u128, tokens: u64 },
    TransferTokens { sender_id: u128, receiver_id: u128, tokens: u64 },
}

impl View for TransactionVariant {
    type V = OperationView;

    open spec fn view(&self) -> OperationView {
        match self {
            TransactionVariant::CreateUserAccount { account_name } => OperationView::CreateUserAccount {
                name: account_name@,
            },
            TransactionVariant::CreateTokens { account_id, tokens } => OperationView::CreateTokens {
                account_id: *account_id,
                tokens: *tokens,
            },
            TransactionVariant::TransferTokens { sender_id, receiver_id, tokens } =>
                OperationView::TransferTokens {
                sender_id: *sender_id,
                receiver_id: *receiver_id,
                tokens: *tokens,
            },
        }
    }
}

/// The canonical bytes of an operation: the UTF-8 name of a new account;
/// otherwise the big-endian identifiers followed by the big-endian amount.
pub open spec fn operation_bytes(op: OperationView) -> Seq<u8> {
    match op {
        OperationView::CreateUserAccount { name } => encode_utf8(name),
        OperationView::CreateTokens { account_id, tokens } => be_bytes(account_id as nat, 16)
            + be_bytes(tokens as nat, 8),
        OperationView::TransferTokens { sender_id, receiver_id, tokens } => be_bytes(
            sender_id as nat,
            16,
        ) + be_bytes(receiver_id as nat, 16) + be_bytes(tokens as nat, 8),
    }
}

impl Clone for TransactionVariant {
    fn clone(&self) -> (r: TransactionVariant)
        ensures
            r@ == self@,
    {
        match self {
            TransactionVariant::CreateUserAccount { account_name } => TransactionVariant::CreateUserAccount {
                account_name: account_name.clone(),
            },
            TransactionVariant::CreateTokens { account_id, tokens } => TransactionVariant::CreateTokens {
                account_id: *account_id,
                tokens: *tokens,
            },
            TransactionVariant::TransferTokens { sender_id, receiver_id, tokens } =>
                TransactionVariant::TransferTokens {
                sender_id: *sender_id,
                receiver_id: *receiver_id,
                tokens: *tokens,
            },
        }
    }
}

impl TransactionVariant {
    /// The canonical byte encoding of the operation, used for hashing.
    pub fn as_bytes(&self) -> (r: Vec<u8>)
        ensures
            r@ == operation_bytes(self@),
    {
        let mut buffer: Vec<u8> = Vec::new();
        match self {
            TransactionVariant::CreateUserAccount { account_name } => {
                append_bytes(&mut buffer, account_name.as_str().as_bytes());
                assert(buffer@ =~= encode_utf8(account_name@));
            },
            TransactionVariant::CreateTokens { account_id, tokens } => {
                let id = id_bytes(*account_id);
                append_bytes(&mut buffer, id.as_slice());
                let amount = u64_bytes(*tokens);
                append_bytes(&mut buffer, amount.as_slice());
                assert(buffer@ =~= operation_bytes(self@));
            },
            TransactionVariant::TransferTokens { sender_id, receiver_id, tokens } => {
                let sender = id_bytes(*sender_id);
                append_bytes(&mut buffer, sender.as_slice());
                let receiver = id_bytes(*receiver_id);
                append_bytes(&mut buffer, receiver.as_slice());
                let amount = u64_bytes(*tokens);
                append_bytes(&mut buffer, amount.as_slice());
                assert(buffer@ =~= operation_bytes(self@));
            },
        }
        buffer
    }
}

/// The abstract content of a [`Transaction`].
pub struct TransactionView {
    pub creator_id: u128,
    /// The creation time in its RFC 3339 text form.
    pub creation_time: Seq<char>,
    pub variant: OperationView,
}

/// The digest of a transaction: Blake2b-512 over the creator's identifier,
/// the creation time's text and the operation's canonical bytes.
pub open spec fn transaction_digest(t: TransactionView) -> Seq<u8> {
    blake2b512_of(
        be_bytes(t.creator_id as nat, 16) + encode_utf8(t.creation_time) + operation_bytes(
            t.variant,
        ),
    )
}

/// An operation bound to the identifier of the account that issued it and
/// to the time it was made.
#[derive(Debug)]
pub struct Transaction {
    creator_id: u128,
    creation_time: String,
    variant: TransactionVariant,
}

impl View for Transaction {
    type V = TransactionView;

    closed spec fn view(&self) -> TransactionView {
        TransactionView {
            creator_id: self.creator_id,
            creation_time: self.creation_time@,
            variant: self.variant@,
        }
    }
}

/// Relies on chrono's `Local::now` and `DateTime::to_rfc3339`: the current
/// local time as RFC 3339 text. Nothing is known of the time read.
#[verifier::external_body]
fn local_time_rfc3339() -> (r: String) {
    chrono::Local::now().to_rfc3339()
}

impl Transaction {
    /// A transaction stamped with the current local time.
    pub fn new(creator_id: u128, variant: TransactionVariant) -> (r: Transaction)
        ensures
            r@.creator_id == creator_id,
            r@.variant == variant@,
    {
        let creation_time = local_time_rfc3339();
        Transaction::with_creation_time(creator_id, creation_time, variant)
    }

    /// A transaction stamped with the given time text.
    pub fn with_creation_time(
        creator_id: u128,
        creation_time: String,
        variant: TransactionVariant,
    ) -> (r: Transaction)
        ensures
            r@ == (TransactionView {
                creator_id,
                creation_time: creation_time@,
                variant: variant@,
            }),
    {
        Transaction { creator_id, creation_time, variant }
    }

    pub fn creator_id(&self) -> (r: u128)
        ensures
            r == self@.creator_id,
    {
        self.creator_id
    }

    pub fn creation_time(&self) -> (r: &str)
        ensures
            r@ == self@.creation_time,
    {
        self.creation_time.as_str()
    }

    pub fn get_transaction_variant(&self) -> (r: &TransactionVariant)
        ensures
            r@ == self@.variant,
    {
        &self.variant
    }

    /// The transaction's content digest; a function of its three fields.
    pub fn calculate_hash(&self) -> (r: Vec<u8>)
        ensures
            r@ == transaction_digest(self@),
            r@.len() == 64,
    {
        let mut data = id_bytes(self.creator_id);
        append_bytes(&mut data, self.creation_time.as_str().as_bytes());
        let op = self.variant.as_bytes();
        append_bytes(&mut data, op.as_slice());
        blake2b512(&data)
    }
}

impl Clone for Transaction {
    fn clone(&self) -> (r: Transaction)
        ensures
            r@ == self@,
    {
        Transaction {
            creator_id: self.creator_id,
            creation_time: self.creation_time.clone(),
            variant: self.variant.clone(),
        }
    }
}

} // verus!
