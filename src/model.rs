use vstd::prelude::*;

verus! {

/// Currencies the service holds balances in.
#[derive(Clone, Copy, Debug, PartialEq, Eq, Structural)]
pub enum Currency {
    Btc,
    Eth,
    Stq,
}

/// `Dr` accounts are deposit addresses owned by a user; `Cr` accounts are balances.
#[derive(Clone, Copy, Debug, PartialEq, Eq, Structural)]
pub enum AccountKind {
    Dr,
    Cr,
}

#[derive(Clone, Copy, Debug, PartialEq, Eq, Structural)]
pub enum TransactionStatus {
    Pending,
    Done,
}

/// Role of a single posting inside its group.
#[derive(Clone, Copy, Debug, PartialEq, Eq, Structural)]
pub enum TransactionKind {
    Internal,
    Withdrawal,
    Fee,
    BlockchainFee,
    MultiFrom,
    MultiTo,
    Deposit,
    Approval,
}

/// Shape of a whole posting group.
#[derive(Clone, Copy, Debug, PartialEq, Eq, Structural)]
pub enum TransactionGroupKind {
    Internal,
    Withdrawal,
    InternalMulti,
    WithdrawalMulti,
    Deposit,
    Approval,
}

/// Kinds of failure the engine reports.
#[derive(Clone, Copy, Debug, PartialEq, Eq, Structural)]
pub enum ErrorKind {
    Unauthorized,
    NotFound,
    MalformedInput,
    InvalidInput,
    Balance,
    Internal,
}

/// Whether the recipient of a transfer is given as an account id or a chain address.
#[derive(Clone, Copy, Debug, PartialEq, Eq, Structural)]
pub enum ReceiptType {
    Account,
    Address,
}

/// Credentials the exchange gateway is called with.
#[derive(Clone, Copy, Debug, PartialEq, Eq, Structural)]
pub enum Role {
    User,
    System,
}

#[derive(Clone, Copy, Debug, PartialEq, Eq, Structural)]
pub struct AccountId(pub u128);

#[derive(Clone, Copy, Debug, PartialEq, Eq, Structural)]
pub struct UserId(pub u128);

#[derive(Clone, Copy, Debug, PartialEq, Eq, Structural)]
pub struct ExchangeId(pub u128);

/// Identifier of a posting; the first posting of a group also names the group.
#[derive(Clone, Copy, Debug, PartialEq, Eq, Structural)]
pub struct TransactionId(pub u128);

impl TransactionId {
    /// The identifier that follows `self`, wrapping at the top of the range.
    pub open spec fn spec_next(self) -> TransactionId {
        if self.0 == u128::MAX {
            TransactionId(0)
        } else {
            TransactionId((self.0 + 1) as u128)
        }
    }

    pub fn next(&self) -> (r: TransactionId)
        ensures
            r == self.spec_next(),
    {
        if self.0 == u128::MAX {
            TransactionId(0)
        } else {
            TransactionId(self.0 + 1)
        }
    }
}

/// An exchange rate as an exact ratio: one unit of the source currency buys
/// `num / den` units of the target currency.
#[derive(Clone, Copy, Debug, PartialEq, Eq, Structural)]
pub struct ExchangeRate {
    pub num: u128,
    pub den: u128,
}

/// `value` converted at `num / den`, rounded down.
pub open spec fn converted(value: int, num: int, den: int) -> int {
    (value * num) / den
}

/// Converts `value` at the ratio `num / den`; `None` when `den` is zero or the
/// product does not fit.
pub fn convert_amount(value: u128, num: u128, den: u128) -> (r: Option<u128>)
    ensures
        r is Some <==> den != 0 && value * num <= u128::MAX,
        r matches Some(v) ==> v == converted(value as int, num as int, den as int),
{
    if den == 0 {
        return None;
    }
    match value.checked_mul(num) {
        Some(p) => Some(p / den),
        None => None,
    }
}

/// An address on a public blockchain.
#[derive(Clone, Debug, PartialEq, Eq)]
pub struct BlockchainAddress(pub String);

impl View for BlockchainAddress {
    type V = Seq<char>;

    open spec fn view(&self) -> Seq<char> {
        self.0@
    }
}

impl BlockchainAddress {
    pub fn duplicate(&self) -> (r: BlockchainAddress)
        ensures
            r == *self,
    {
        BlockchainAddress(self.0.clone())
    }

    pub fn same_as(&self, other: &BlockchainAddress) -> (r: bool)
        ensures
            r == (self@ == other@),
    {
        self.0 == other.0
    }
}

/// Hash of a transaction on a blockchain, as the chain reports it.
#[derive(Clone, Debug, PartialEq, Eq)]
pub struct BlockchainTransactionId(String);

impl View for BlockchainTransactionId {
    type V = Seq<char>;

    closed spec fn view(&self) -> Seq<char> {
        self.0@
    }
}

impl BlockchainTransactionId {
    pub fn new(id: String) -> (r: Self)
        ensures
            r@ == id@,
    {
        BlockchainTransactionId(id)
    }

    pub fn inner(&self) -> (r: &str)
        ensures
            r@ == self@,
    {
        self.0.as_str()
    }

    pub fn duplicate(&self) -> (r: Self)
        ensures
            r == *self,
    {
        BlockchainTransactionId(self.0.clone())
    }

    pub fn same_as(&self, other: &BlockchainTransactionId) -> (r: bool)
        ensures
            r == (self@ == other@),
    {
        self.0 == other.0
    }

    /// The id with the index of the first log entry appended, as an ERC-20
    /// transfer is told apart from others in the same chain transaction.
    pub fn with_first_log_index(self) -> (r: Self)
        ensures
            r@ == self@ + seq![':', '0'],
    {
        proof {
            reveal_strlit(":0");
        }
        BlockchainTransactionId(self.0.concat(":0"))
    }
}


/// A ledger account. Accounts are created outside the engine and never change.
#[derive(Clone, Debug, PartialEq, Eq)]
pub struct Account {
    pub id: AccountId,
    pub user_id: UserId,
    pub currency: Currency,
    pub kind: AccountKind,
    pub address: BlockchainAddress,
}

impl Account {
    pub fn duplicate(&self) -> (r: Account)
        ensures
            r == *self,
    {
        Account {
            id: self.id,
            user_id: self.user_id,
            currency: self.currency,
            kind: self.kind,
            address: self.address.duplicate(),
        }
    }
}

pub fn duplicate_chain_id(id: &Option<BlockchainTransactionId>) -> (r: Option<BlockchainTransactionId>)
    ensures
        r == *id,
{
    match id {
        Some(h) => Some(h.duplicate()),
        None => None,
    }
}

/// A posting as the engine asks for it to be stored.
#[derive(Clone, Debug, PartialEq, Eq)]
pub struct NewTransaction {
    pub id: TransactionId,
    pub gid: TransactionId,
    pub user_id: UserId,
    pub dr_account_id: AccountId,
    pub cr_account_id: AccountId,
    pub currency: Currency,
    pub value: u128,
    pub status: TransactionStatus,
    pub blockchain_tx_id: Option<BlockchainTransactionId>,
    pub kind: TransactionKind,
    pub group_kind: TransactionGroupKind,
    pub related_tx: Option<TransactionId>,
}

/// A stored posting: one immutable double-entry row.
#[derive(Clone, Debug, PartialEq, Eq)]
pub struct Transaction {
    pub id: TransactionId,
    pub gid: TransactionId,
    pub user_id: UserId,
    pub dr_account_id: AccountId,
    pub cr_account_id: AccountId,
    pub currency: Currency,
    pub value: u128,
    pub status: TransactionStatus,
    pub blockchain_tx_id: Option<BlockchainTransactionId>,
    pub kind: TransactionKind,
    pub group_kind: TransactionGroupKind,
    pub related_tx: Option<TransactionId>,
    pub created_at: u64,
    pub updated_at: u64,
}

impl Transaction {
    pub fn duplicate(&self) -> (r: Transaction)
        ensures
            r == *self,
    {
        Transaction {
            id: self.id,
            gid: self.gid,
            user_id: self.user_id,
            dr_account_id: self.dr_account_id,
            cr_account_id: self.cr_account_id,
            currency: self.currency,
            value: self.value,
            status: self.status,
            blockchain_tx_id: duplicate_chain_id(&self.blockchain_tx_id),
            kind: self.kind,
            group_kind: self.group_kind,
            related_tx: self.related_tx,
            created_at: self.created_at,
            updated_at: self.updated_at,
        }
    }

    /// The stored form of `tx`, written at time `now`.
    pub open spec fn stored(tx: NewTransaction, now: u64) -> Transaction {
        Transaction {
            id: tx.id,
            gid: tx.gid,
            user_id: tx.user_id,
            dr_account_id: tx.dr_account_id,
            cr_account_id: tx.cr_account_id,
            currency: tx.currency,
            value: tx.value,
            status: tx.status,
            blockchain_tx_id: tx.blockchain_tx_id,
            kind: tx.kind,
            group_kind: tx.group_kind,
            related_tx: tx.related_tx,
            created_at: now,
            updated_at: now,
        }
    }

    pub fn from_new(tx: NewTransaction, now: u64) -> (r: Transaction)
        ensures
            r == Transaction::stored(tx, now),
    {
        Transaction {
            id: tx.id,
            gid: tx.gid,
            user_id: tx.user_id,
            dr_account_id: tx.dr_account_id,
            cr_account_id: tx.cr_account_id,
            currency: tx.currency,
            value: tx.value,
            status: tx.status,
            blockchain_tx_id: tx.blockchain_tx_id,
            kind: tx.kind,
            group_kind: tx.group_kind,
            related_tx: tx.related_tx,
            created_at: now,
            updated_at: now,
        }
    }
}

/// A transaction observed on a blockchain, with its sender and receiver addresses.
#[derive(Clone, Debug, PartialEq, Eq)]
pub struct BlockchainTransaction {
    pub hash: BlockchainTransactionId,
    pub from: Vec<BlockchainAddress>,
    pub to: Vec<BlockchainAddress>,
}

/// A transaction this service broadcast and that awaits confirmation.
#[derive(Clone, Debug, PartialEq, Eq)]
pub struct PendingBlockchainTransaction {
    pub hash: BlockchainTransactionId,
    pub from: BlockchainAddress,
    pub to: BlockchainAddress,
    pub currency: Currency,
    pub value: u128,
}

/// Where the value goes: an account id in text form, or a chain address.
#[derive(Clone, Debug, PartialEq, Eq)]
pub struct Receipt(pub String);

impl View for Receipt {
    type V = Seq<char>;

    open spec fn view(&self) -> Seq<char> {
        self.0@
    }
}

/// What the uuid crate's parser makes of a text, as a 128-bit number.
pub uninterp spec fn uuid_value(s: Seq<char>) -> Option<u128>;

/// Relies on `uuid::Uuid::parse_str` (and `Uuid::as_u128`): the parse result
/// depends on the text alone, and only texts of 32, 36, 38 or 45 ASCII
/// characters (plain, hyphenated, braced, URN) can be read.
#[verifier::external_body]
fn parse_uuid(s: &str) -> (r: Option<u128>)
    ensures
        r == uuid_value(s@),
        r is Some ==> s@.len() == 32 || s@.len() == 36 || s@.len() == 38 || s@.len() == 45,
{
    uuid::Uuid::parse_str(s).ok().map(|u| u.as_u128())
}

impl Receipt {
    pub open spec fn spec_account_id(&self) -> Option<AccountId> {
        match uuid_value(self@) {
            Some(v) => Some(AccountId(v)),
            None => None,
        }
    }

    /// The recipient read as an account id.
    pub fn to_account_id(&self) -> (r: Option<AccountId>)
        ensures
            r == self.spec_account_id(),
    {
        match parse_uuid(self.0.as_str()) {
            Some(v) => Some(AccountId(v)),
            None => None,
        }
    }

    /// The recipient read as a chain address.
    pub fn to_account_address(&self) -> (r: BlockchainAddress)
        ensures
            r == BlockchainAddress(self.0),
            r@ == self@,
    {
        BlockchainAddress(self.0.clone())
    }
}

/// A user's request to move value.
#[derive(Clone, Debug, PartialEq, Eq)]
pub struct CreateTransactionInput {
    pub id: TransactionId,
    pub user_id: UserId,
    pub from: AccountId,
    pub to: Receipt,
    pub to_type: ReceiptType,
    pub to_currency: Currency,
    pub value: u128,
    pub value_currency: Currency,
    pub fee: u128,
    pub exchange_id: Option<ExchangeId>,
    pub exchange_rate: Option<ExchangeRate>,
    pub hold_until: Option<u64>,
}

/// A local transfer between two known accounts.
#[derive(Clone, Debug, PartialEq, Eq)]
pub struct CreateTransactionLocal {
    pub user_id: UserId,
    pub dr_account: Account,
    pub cr_account: Account,
    pub currency: Currency,
    pub value: u128,
    pub hold_until: Option<u64>,
}

/// A transfer request whose sending account is known by id.
#[derive(Clone, Debug, PartialEq, Eq)]
pub struct CreateTransaction {
    pub user_id: UserId,
    pub dr_account_id: AccountId,
    pub to: Receipt,
    pub to_type: ReceiptType,
    pub to_currency: Currency,
    pub value: u128,
    pub fee: u128,
    pub hold_until: Option<u64>,
}

impl CreateTransactionLocal {
    pub fn new(create: &CreateTransaction, dr_account: Account, cr_account: Account) -> (r: Self)
        ensures
            r == (CreateTransactionLocal {
                user_id: create.user_id,
                dr_account,
                cr_account,
                currency: create.to_currency,
                value: create.value,
                hold_until: create.hold_until,
            }),
    {
        CreateTransactionLocal {
            user_id: create.user_id,
            dr_account,
            cr_account,
            currency: create.to_currency,
            value: create.value,
            hold_until: create.hold_until,
        }
    }
}

/// Value that arrived on chain at one of the service's deposit addresses.
#[derive(Clone, Debug, PartialEq, Eq)]
pub struct DepositFounds {
    pub user_id: UserId,
    pub address: BlockchainAddress,
    pub currency: Currency,
    pub value: u128,
    pub blockchain_tx_id: BlockchainTransactionId,
}

impl NewTransaction {
    /// The `Internal` posting of a local transfer, as a group of its own under `id`.
    pub fn from_local(create: &CreateTransactionLocal, id: TransactionId) -> (r: Self)
        ensures
            r == (NewTransaction {
                id,
                gid: id,
                user_id: create.user_id,
                dr_account_id: create.dr_account.id,
                cr_account_id: create.cr_account.id,
                currency: create.currency,
                value: create.value,
                status: TransactionStatus::Done,
                blockchain_tx_id: None,
                kind: TransactionKind::Internal,
                group_kind: TransactionGroupKind::Internal,
                related_tx: None,
            }),
    {
        NewTransaction {
            id,
            gid: id,
            user_id: create.user_id,
            dr_account_id: create.dr_account.id,
            cr_account_id: create.cr_account.id,
            currency: create.currency,
            value: create.value,
            status: TransactionStatus::Done,
            blockchain_tx_id: None,
            kind: TransactionKind::Internal,
            group_kind: TransactionGroupKind::Internal,
            related_tx: None,
        }
    }

    /// The `Deposit` posting of a deposit, as a group of its own under `id`:
    /// the deposit account is debited and the user's balance credited.
    pub fn from_deposit(
        deposit: DepositFounds,
        cr_account_id: AccountId,
        dr_account_id: AccountId,
        id: TransactionId,
    ) -> (r: Self)
        ensures
            r == (NewTransaction {
                id,
                gid: id,
                user_id: deposit.user_id,
                dr_account_id,
                cr_account_id,
                currency: deposit.currency,
                value: deposit.value,
                status: TransactionStatus::Done,
                blockchain_tx_id: Some(deposit.blockchain_tx_id),
                kind: TransactionKind::Deposit,
                group_kind: TransactionGroupKind::Deposit,
                related_tx: None,
            }),
    {
        NewTransaction {
            id,
            gid: id,
            user_id: deposit.user_id,
            dr_account_id,
            cr_account_id,
            currency: deposit.currency,
            value: deposit.value,
            status: TransactionStatus::Done,
            blockchain_tx_id: Some(deposit.blockchain_tx_id),
            kind: TransactionKind::Deposit,
            group_kind: TransactionGroupKind::Deposit,
            related_tx: None,
        }
    }
}

/// A withdrawal of value from an account to a chain address.
#[derive(Clone, Debug, PartialEq, Eq)]
pub struct Withdraw {
    pub user_id: UserId,
    pub dr_account: Account,
    pub address: BlockchainAddress,
    pub currency: Currency,
    pub value: u128,
    pub fee: u128,
}

impl Withdraw {
    pub fn new(create: &CreateTransaction, dr_account: Account, address: BlockchainAddress) -> (r: Self)
        ensures
            r == (Withdraw {
                user_id: create.user_id,
                dr_account,
                address,
                currency: create.to_currency,
                value: create.value,
                fee: create.fee,
            }),
    {
        Withdraw {
            user_id: create.user_id,
            dr_account,
            address,
            currency: create.to_currency,
            value: create.value,
            fee: create.fee,
        }
    }
}

/// An unspent bitcoin output a transfer can spend.
#[derive(Clone, Debug, PartialEq, Eq)]
pub struct BitcoinUtxos {
    pub tx_hash: BlockchainTransactionId,
    pub index: u64,
    pub value: u128,
}

} // verus!
