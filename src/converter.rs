use vstd::prelude::*;

use crate::ledger::Ledger;
use crate::model::{
    AccountId, BlockchainAddress, BlockchainTransaction, BlockchainTransactionId, Currency,
    ErrorKind, PendingBlockchainTransaction, Transaction, TransactionGroupKind, TransactionId,
    TransactionKind, TransactionStatus, duplicate_chain_id,
};

verus! {

/// One side of a transfer as shown to callers.
#[derive(Clone, Debug, PartialEq, Eq)]
pub struct TransactionAddressInfo {
    pub account_id: Option<AccountId>,
    pub blockchain_address: BlockchainAddress,
}

impl TransactionAddressInfo {
    pub fn new(account_id: Option<AccountId>, blockchain_address: BlockchainAddress) -> (r: Self)
        ensures
            r.account_id == account_id,
            r.blockchain_address == blockchain_address,
    {
        TransactionAddressInfo { account_id, blockchain_address }
    }
}

/// The caller-visible record of one posting group.
#[derive(Clone, Debug, PartialEq, Eq)]
pub struct TransactionOut {
    pub id: TransactionId,
    pub from: Vec<TransactionAddressInfo>,
    pub to: TransactionAddressInfo,
    pub from_value: u128,
    pub from_currency: Currency,
    pub to_value: u128,
    pub to_currency: Currency,
    pub fee: u128,
    pub status: TransactionStatus,
    pub blockchain_tx_id: Option<BlockchainTransactionId>,
    pub created_at: u64,
    pub updated_at: u64,
}

/// The mathematical form of a `TransactionOut`, with its senders as a sequence.
pub struct TransactionOutView {
    pub id: TransactionId,
    pub from: Seq<TransactionAddressInfo>,
    pub to: TransactionAddressInfo,
    pub from_value: u128,
    pub from_currency: Currency,
    pub to_value: u128,
    pub to_currency: Currency,
    pub fee: u128,
    pub status: TransactionStatus,
    pub blockchain_tx_id: Option<BlockchainTransactionId>,
    pub created_at: u64,
    pub updated_at: u64,
}

impl TransactionOut {
    /// The record of a group of one posting `t`, with no fee.
    pub fn new(
        t: &Transaction,
        from: Vec<TransactionAddressInfo>,
        to: TransactionAddressInfo,
    ) -> (r: TransactionOut)
        ensures
            r@ == single_posting_out(*t, from@, to),
    {
        TransactionOut {
            id: t.gid,
            from,
            to,
            from_value: t.value,
            from_currency: t.currency,
            to_value: t.value,
            to_currency: t.currency,
            fee: 0,
            status: t.status,
            blockchain_tx_id: duplicate_chain_id(&t.blockchain_tx_id),
            created_at: t.created_at,
            updated_at: t.updated_at,
        }
    }
}

impl View for TransactionOut {
    type V = TransactionOutView;

    open spec fn view(&self) -> TransactionOutView {
        TransactionOutView {
            id: self.id,
            from: self.from@,
            to: self.to,
            from_value: self.from_value,
            from_currency: self.from_currency,
            to_value: self.to_value,
            to_currency: self.to_currency,
            fee: self.fee,
            status: self.status,
            blockchain_tx_id: self.blockchain_tx_id,
            created_at: self.created_at,
            updated_at: self.updated_at,
        }
    }
}

/// The first posting of kind `k` in `g`.
pub open spec fn first_of_kind(g: Seq<Transaction>, k: TransactionKind) -> Option<Transaction>
    decreases g.len(),
{
    if g.len() == 0 {
        None
    } else if g[0].kind == k {
        Some(g[0])
    } else {
        first_of_kind(g.subrange(1, g.len() as int), k)
    }
}

pub open spec fn is_exchange_leg(t: Transaction) -> bool {
    t.kind == TransactionKind::MultiFrom || t.kind == TransactionKind::MultiTo
}

/// How many postings of `g` are exchange legs.
pub open spec fn count_exchange_legs(g: Seq<Transaction>) -> nat
    decreases g.len(),
{
    if g.len() == 0 {
        0
    } else {
        count_exchange_legs(g.subrange(1, g.len() as int)) + if is_exchange_leg(g[0]) {
            1nat
        } else {
            0nat
        }
    }
}

pub open spec fn same_gid(g: Seq<Transaction>) -> bool {
    forall|i: int| 0 <= i < g.len() ==> #[trigger] g[i].gid == g[0].gid
}

/// The first observed chain transaction with hash `h`.
pub open spec fn first_chain(s: Seq<BlockchainTransaction>, h: Seq<char>) -> Option<
    BlockchainTransaction,
>
    decreases s.len(),
{
    if s.len() == 0 {
        None
    } else if s[0].hash@ == h {
        Some(s[0])
    } else {
        first_chain(s.subrange(1, s.len() as int), h)
    }
}

/// The first pending chain transaction with hash `h`.
pub open spec fn first_pending(s: Seq<PendingBlockchainTransaction>, h: Seq<char>) -> Option<
    PendingBlockchainTransaction,
>
    decreases s.len(),
{
    if s.len() == 0 {
        None
    } else if s[0].hash@ == h {
        Some(s[0])
    } else {
        first_pending(s.subrange(1, s.len() as int), h)
    }
}

/// Where the chain transaction `h` sent its value: its first receiver once
/// observed, else the receiver of its pending row.
pub open spec fn destination(l: &Ledger, h: Seq<char>) -> Option<BlockchainAddress> {
    match first_chain(l.chain@, h) {
        Some(c) => if c.to@.len() > 0 {
            Some(c.to@[0])
        } else {
            None
        },
        None => match first_pending(l.pending@, h) {
            Some(p) => Some(p.to),
            None => None,
        },
    }
}

/// An account shown with its id and address.
pub open spec fn account_info(l: &Ledger, id: AccountId) -> TransactionAddressInfo {
    TransactionAddressInfo {
        account_id: Some(id),
        blockchain_address: l.account(id).address,
    }
}

pub open spec fn address_info(a: BlockchainAddress) -> TransactionAddressInfo {
    TransactionAddressInfo { account_id: None, blockchain_address: a }
}

pub open spec fn single_posting_out(
    t: Transaction,
    from: Seq<TransactionAddressInfo>,
    to: TransactionAddressInfo,
) -> TransactionOutView {
    TransactionOutView {
        id: t.gid,
        from,
        to,
        from_value: t.value,
        from_currency: t.currency,
        to_value: t.value,
        to_currency: t.currency,
        fee: 0,
        status: t.status,
        blockchain_tx_id: t.blockchain_tx_id,
        created_at: t.created_at,
        updated_at: t.updated_at,
    }
}

/// A deposit: one `Deposit` posting whose chain transaction is known.
pub open spec fn spec_convert_deposit(l: &Ledger, g: Seq<Transaction>) -> Option<TransactionOutView> {
    if g.len() != 1 || g[0].kind != TransactionKind::Deposit || g[0].blockchain_tx_id is None {
        None
    } else {
        match first_chain(l.chain@, g[0].blockchain_tx_id->Some_0@) {
            None => None,
            Some(c) => if !l.has_account(g[0].cr_account_id) {
                None
            } else {
                Some(
                    single_posting_out(
                        g[0],
                        c.from@.map_values(|a: BlockchainAddress| address_info(a)),
                        account_info(l, g[0].cr_account_id),
                    ),
                )
            },
        }
    }
}

/// A local transfer: one `Internal` posting between two known accounts.
pub open spec fn spec_convert_internal(l: &Ledger, g: Seq<Transaction>) -> Option<
    TransactionOutView,
> {
    if g.len() != 1 || g[0].kind != TransactionKind::Internal || !l.has_account(g[0].dr_account_id)
        || !l.has_account(g[0].cr_account_id) {
        None
    } else {
        Some(
            single_posting_out(
                g[0],
                seq![account_info(l, g[0].dr_account_id)],
                account_info(l, g[0].cr_account_id),
            ),
        )
    }
}

/// The exchange side of a group: its `MultiFrom` and `MultiTo` postings.
pub open spec fn spec_exchange_side(l: &Ledger, g: Seq<Transaction>) -> Option<TransactionOutView> {
    match (first_of_kind(g, TransactionKind::MultiFrom), first_of_kind(g, TransactionKind::MultiTo)) {
        (Some(f), Some(t)) => if !l.has_account(f.dr_account_id) || !l.has_account(
            t.cr_account_id,
        ) {
            None
        } else {
            Some(
                TransactionOutView {
                    id: f.gid,
                    from: seq![account_info(l, f.dr_account_id)],
                    to: account_info(l, t.cr_account_id),
                    from_value: f.value,
                    from_currency: f.currency,
                    to_value: t.value,
                    to_currency: t.currency,
                    fee: 0,
                    status: TransactionStatus::Done,
                    blockchain_tx_id: None,
                    created_at: f.created_at,
                    updated_at: f.updated_at,
                },
            )
        },
        _ => None,
    }
}

/// The withdrawal side of a group: its `Withdrawal` posting, its `Fee`
/// posting, and where the chain transaction went.
pub open spec fn spec_withdrawal_side(l: &Ledger, g: Seq<Transaction>) -> Option<
    TransactionOutView,
> {
    match (first_of_kind(g, TransactionKind::Withdrawal), first_of_kind(g, TransactionKind::Fee)) {
        (Some(w), Some(f)) => {
            if w.blockchain_tx_id is None || !l.has_account(w.dr_account_id) {
                None
            } else {
                match destination(l, w.blockchain_tx_id->Some_0@) {
                    None => None,
                    Some(to) => Some(
                        TransactionOutView {
                            id: w.gid,
                            from: seq![account_info(l, w.dr_account_id)],
                            to: address_info(to),
                            from_value: w.value,
                            from_currency: w.currency,
                            to_value: w.value,
                            to_currency: w.currency,
                            fee: f.value,
                            status: w.status,
                            blockchain_tx_id: w.blockchain_tx_id,
                            created_at: w.created_at,
                            updated_at: w.updated_at,
                        },
                    ),
                }
            }
        },
        _ => None,
    }
}

/// A cross-currency withdrawal: the sender and values of the exchange side,
/// with the receiver, fee, status and chain data of the withdrawal side.
pub open spec fn spec_convert_withdrawal_multi(l: &Ledger, g: Seq<Transaction>) -> Option<
    TransactionOutView,
> {
    if count_exchange_legs(g) != 2 {
        None
    } else {
        match (spec_exchange_side(l, g), spec_withdrawal_side(l, g)) {
            (Some(c), Some(w)) => Some(
                TransactionOutView {
                    id: c.id,
                    from: c.from,
                    to: w.to,
                    from_value: c.from_value,
                    from_currency: c.from_currency,
                    to_value: c.to_value,
                    to_currency: c.to_currency,
                    fee: w.fee,
                    status: w.status,
                    blockchain_tx_id: w.blockchain_tx_id,
                    created_at: w.created_at,
                    updated_at: w.updated_at,
                },
            ),
            _ => None,
        }
    }
}

/// The record of group `g`, or `None` when `g` is not a well-formed group.
pub open spec fn spec_convert(l: &Ledger, g: Seq<Transaction>) -> Option<TransactionOutView> {
    if g.len() == 0 || !same_gid(g) {
        None
    } else {
        match g[0].group_kind {
            TransactionGroupKind::Deposit => spec_convert_deposit(l, g),
            TransactionGroupKind::Internal => spec_convert_internal(l, g),
            TransactionGroupKind::InternalMulti => if g.len() != 2 {
                None
            } else {
                spec_exchange_side(l, g)
            },
            TransactionGroupKind::Withdrawal => spec_withdrawal_side(l, g),
            TransactionGroupKind::WithdrawalMulti => spec_convert_withdrawal_multi(l, g),
            TransactionGroupKind::Approval => None,
        }
    }
}

pub fn find_first_of_kind(g: &Vec<Transaction>, k: TransactionKind) -> (r: Option<Transaction>)
    ensures
        r == first_of_kind(g@, k),
{
    let mut i: usize = 0;
    proof {
        assert(g@.subrange(0, g@.len() as int) =~= g@);
    }
    while i < g.len()
        invariant
            i <= g@.len(),
            first_of_kind(g@, k) == first_of_kind(g@.subrange(i as int, g@.len() as int), k),
        decreases g@.len() - i,
    {
        let ghost rest = g@.subrange(i as int, g@.len() as int);
        proof {
            assert(rest[0] == g@[i as int]);
            assert(rest.subrange(1, rest.len() as int) =~= g@.subrange(i + 1, g@.len() as int));
        }
        if g[i].kind == k {
            return Some(g[i].duplicate());
        }
        i = i + 1;
    }
    proof {
        assert(g@.subrange(i as int, g@.len() as int).len() == 0);
    }
    None
}

pub fn count_legs(g: &Vec<Transaction>) -> (r: usize)
    ensures
        r == count_exchange_legs(g@),
{
    let mut c: usize = 0;
    let mut i: usize = 0;
    proof {
        assert(g@.subrange(0, g@.len() as int) =~= g@);
    }
    while i < g.len()
        invariant
            i <= g@.len(),
            c <= i,
            c + count_exchange_legs(g@.subrange(i as int, g@.len() as int)) == count_exchange_legs(
                g@,
            ),
        decreases g@.len() - i,
    {
        let ghost rest = g@.subrange(i as int, g@.len() as int);
        proof {
            assert(rest[0] == g@[i as int]);
            assert(rest.subrange(1, rest.len() as int) =~= g@.subrange(i + 1, g@.len() as int));
        }
        if g[i].kind == TransactionKind::MultiFrom || g[i].kind == TransactionKind::MultiTo {
            c = c + 1;
        }
        i = i + 1;
    }
    proof {
        assert(g@.subrange(i as int, g@.len() as int).len() == 0);
    }
    c
}

fn find_chain(l: &Ledger, h: &BlockchainTransactionId) -> (r: Option<usize>)
    ensures
        r is None ==> first_chain(l.chain@, h@) is None,
        r matches Some(i) ==> i < l.chain@.len() && first_chain(l.chain@, h@) == Some(
            l.chain@[i as int],
        ),
{
    let mut i: usize = 0;
    proof {
        assert(l.chain@.subrange(0, l.chain@.len() as int) =~= l.chain@);
    }
    while i < l.chain.len()
        invariant
            i <= l.chain@.len(),
            first_chain(l.chain@, h@) == first_chain(
                l.chain@.subrange(i as int, l.chain@.len() as int),
                h@,
            ),
        decreases l.chain@.len() - i,
    {
        let ghost rest = l.chain@.subrange(i as int, l.chain@.len() as int);
        proof {
            assert(rest[0] == l.chain@[i as int]);
            assert(rest.subrange(1, rest.len() as int) =~= l.chain@.subrange(
                i + 1,
                l.chain@.len() as int,
            ));
        }
        if l.chain[i].hash.same_as(h) {
            return Some(i);
        }
        i = i + 1;
    }
    proof {
        assert(l.chain@.subrange(i as int, l.chain@.len() as int).len() == 0);
    }
    None
}

fn find_pending(l: &Ledger, h: &BlockchainTransactionId) -> (r: Option<usize>)
    ensures
        r is None ==> first_pending(l.pending@, h@) is None,
        r matches Some(i) ==> i < l.pending@.len() && first_pending(l.pending@, h@) == Some(
            l.pending@[i as int],
        ),
{
    let mut i: usize = 0;
    proof {
        assert(l.pending@.subrange(0, l.pending@.len() as int) =~= l.pending@);
    }
    while i < l.pending.len()
        invariant
            i <= l.pending@.len(),
            first_pending(l.pending@, h@) == first_pending(
                l.pending@.subrange(i as int, l.pending@.len() as int),
                h@,
            ),
        decreases l.pending@.len() - i,
    {
        let ghost rest = l.pending@.subrange(i as int, l.pending@.len() as int);
        proof {
            assert(rest[0] == l.pending@[i as int]);
            assert(rest.subrange(1, rest.len() as int) =~= l.pending@.subrange(
                i + 1,
                l.pending@.len() as int,
            ));
        }
        if l.pending[i].hash.same_as(h) {
            return Some(i);
        }
        i = i + 1;
    }
    proof {
        assert(l.pending@.subrange(i as int, l.pending@.len() as int).len() == 0);
    }
    None
}

/// Where the chain transaction `h` sent its value.
pub fn destination_of(l: &Ledger, h: &BlockchainTransactionId) -> (r: Option<BlockchainAddress>)
    ensures
        r == destination(l, h@),
{
    match find_chain(l, h) {
        Some(i) => {
            let c = &l.chain[i];
            if c.to.len() > 0 {
                Some(c.to[0].duplicate())
            } else {
                None
            }
        },
        None => match find_pending(l, h) {
            Some(i) => Some(l.pending[i].to.duplicate()),
            None => None,
        },
    }
}

fn account_info_of(l: &Ledger, id: AccountId) -> (r: Option<TransactionAddressInfo>)
    requires
        l.wf(),
    ensures
        r is Some <==> l.has_account(id),
        r matches Some(info) ==> info == account_info(l, id),
{
    match l.find_account(id) {
        Some(a) => Some(TransactionAddressInfo::new(Some(id), a.address)),
        None => None,
    }
}

fn address_infos(addrs: &Vec<BlockchainAddress>) -> (r: Vec<TransactionAddressInfo>)
    ensures
        r@ == addrs@.map_values(|a: BlockchainAddress| address_info(a)),
{
    let mut res: Vec<TransactionAddressInfo> = Vec::new();
    let mut i: usize = 0;
    while i < addrs.len()
        invariant
            i <= addrs@.len(),
            res@ == addrs@.take(i as int).map_values(|a: BlockchainAddress| address_info(a)),
        decreases addrs@.len() - i,
    {
        res.push(TransactionAddressInfo::new(None, addrs[i].duplicate()));
        proof {
            assert(addrs@.take(i + 1).map_values(|a: BlockchainAddress| address_info(a)) =~= addrs@.take(
                i as int,
            ).map_values(|a: BlockchainAddress| address_info(a)).push(address_info(addrs@[i as int])));
        }
        i = i + 1;
    }
    proof {
        assert(addrs@.take(addrs@.len() as int) =~= addrs@);
    }
    res
}

/// Rebuilds a deposit from its single posting and the chain transaction behind it.
pub fn convert_deposit_transaction(l: &Ledger, g: &Vec<Transaction>) -> (r: Result<
    TransactionOut,
    ErrorKind,
>)
    requires
        l.wf(),
    ensures
        r is Ok <==> spec_convert_deposit(l, g@) is Some,
        r matches Ok(out) ==> out@ == spec_convert_deposit(l, g@)->Some_0,
        r is Err ==> r == Err::<TransactionOut, ErrorKind>(ErrorKind::Internal),
{
    if g.len() != 1 {
        return Err(ErrorKind::Internal);
    }
    let tx = &g[0];
    if tx.kind != TransactionKind::Deposit {
        return Err(ErrorKind::Internal);
    }
    let hash = match &tx.blockchain_tx_id {
        Some(h) => h,
        None => return Err(ErrorKind::Internal),
    };
    let i = match find_chain(l, hash) {
        Some(i) => i,
        None => return Err(ErrorKind::Internal),
    };
    let from = address_infos(&l.chain[i].from);
    let to = match account_info_of(l, tx.cr_account_id) {
        Some(info) => info,
        None => return Err(ErrorKind::Internal),
    };
    Ok(TransactionOut::new(tx, from, to))
}

/// Rebuilds a local transfer from its single `Internal` posting.
pub fn convert_internal_transaction(l: &Ledger, g: &Vec<Transaction>) -> (r: Result<
    TransactionOut,
    ErrorKind,
>)
    requires
        l.wf(),
    ensures
        r is Ok <==> spec_convert_internal(l, g@) is Some,
        r matches Ok(out) ==> out@ == spec_convert_internal(l, g@)->Some_0,
        r is Err ==> r == Err::<TransactionOut, ErrorKind>(ErrorKind::Internal),
{
    if g.len() != 1 {
        return Err(ErrorKind::Internal);
    }
    let tx = &g[0];
    if tx.kind != TransactionKind::Internal {
        return Err(ErrorKind::Internal);
    }
    let from = match account_info_of(l, tx.dr_account_id) {
        Some(info) => info,
        None => return Err(ErrorKind::Internal),
    };
    let to = match account_info_of(l, tx.cr_account_id) {
        Some(info) => info,
        None => return Err(ErrorKind::Internal),
    };
    let mut froms: Vec<TransactionAddressInfo> = Vec::new();
    froms.push(from);
    proof {
        assert(froms@ =~= seq![account_info(l, g@[0].dr_account_id)]);
    }
    Ok(TransactionOut::new(tx, froms, to))
}

fn exchange_side(l: &Ledger, g: &Vec<Transaction>) -> (r: Result<TransactionOut, ErrorKind>)
    requires
        l.wf(),
    ensures
        r is Ok <==> spec_exchange_side(l, g@) is Some,
        r matches Ok(out) ==> out@ == spec_exchange_side(l, g@)->Some_0,
        r is Err ==> r == Err::<TransactionOut, ErrorKind>(ErrorKind::Internal),
{
    let from_tx = match find_first_of_kind(g, TransactionKind::MultiFrom) {
        Some(t) => t,
        None => return Err(ErrorKind::Internal),
    };
    let to_tx = match find_first_of_kind(g, TransactionKind::MultiTo) {
        Some(t) => t,
        None => return Err(ErrorKind::Internal),
    };
    let from = match account_info_of(l, from_tx.dr_account_id) {
        Some(info) => info,
        None => return Err(ErrorKind::Internal),
    };
    let to = match account_info_of(l, to_tx.cr_account_id) {
        Some(info) => info,
        None => return Err(ErrorKind::Internal),
    };
    let mut froms: Vec<TransactionAddressInfo> = Vec::new();
    froms.push(from);
    proof {
        assert(froms@ =~= seq![account_info(l, from_tx.dr_account_id)]);
    }
    Ok(
        TransactionOut {
            id: from_tx.gid,
            from: froms,
            to,
            from_value: from_tx.value,
            from_currency: from_tx.currency,
            to_value: to_tx.value,
            to_currency: to_tx.currency,
            fee: 0,
            status: TransactionStatus::Done,
            blockchain_tx_id: None,
            created_at: from_tx.created_at,
            updated_at: from_tx.updated_at,
        },
    )
}

/// Rebuilds a local exchange from its `MultiFrom` and `MultiTo` postings.
pub fn convert_internal_multi_transaction(l: &Ledger, g: &Vec<Transaction>) -> (r: Result<
    TransactionOut,
    ErrorKind,
>)
    requires
        l.wf(),
    ensures
        r is Ok <==> g@.len() == 2 && spec_exchange_side(l, g@) is Some,
        r matches Ok(out) ==> out@ == spec_exchange_side(l, g@)->Some_0,
        r is Err ==> r == Err::<TransactionOut, ErrorKind>(ErrorKind::Internal),
{
    if g.len() != 2 {
        return Err(ErrorKind::Internal);
    }
    exchange_side(l, g)
}

/// Rebuilds a withdrawal from its `Withdrawal` and `Fee` postings and the
/// destination of its chain transaction.
pub fn convert_external_transaction(l: &Ledger, g: &Vec<Transaction>) -> (r: Result<
    TransactionOut,
    ErrorKind,
>)
    requires
        l.wf(),
    ensures
        r is Ok <==> spec_withdrawal_side(l, g@) is Some,
        r matches Ok(out) ==> out@ == spec_withdrawal_side(l, g@)->Some_0,
        r is Err ==> r == Err::<TransactionOut, ErrorKind>(ErrorKind::Internal),
{
    let w = match find_first_of_kind(g, TransactionKind::Withdrawal) {
        Some(t) => t,
        None => return Err(ErrorKind::Internal),
    };
    let f = match find_first_of_kind(g, TransactionKind::Fee) {
        Some(t) => t,
        None => return Err(ErrorKind::Internal),
    };
    let hash = match &w.blockchain_tx_id {
        Some(h) => h,
        None => return Err(ErrorKind::Internal),
    };
    let from = match account_info_of(l, w.dr_account_id) {
        Some(info) => info,
        None => return Err(ErrorKind::Internal),
    };
    let to = match destination_of(l, hash) {
        Some(a) => TransactionAddressInfo::new(None, a),
        None => return Err(ErrorKind::Internal),
    };
    let mut froms: Vec<TransactionAddressInfo> = Vec::new();
    froms.push(from);
    proof {
        assert(froms@ =~= seq![account_info(l, w.dr_account_id)]);
    }
    Ok(
        TransactionOut {
            id: w.gid,
            from: froms,
            to,
            from_value: w.value,
            from_currency: w.currency,
            to_value: w.value,
            to_currency: w.currency,
            fee: f.value,
            status: w.status,
            blockchain_tx_id: duplicate_chain_id(&w.blockchain_tx_id),
            created_at: w.created_at,
            updated_at: w.updated_at,
        },
    )
}

/// Rebuilds a cross-currency withdrawal from its exchange and withdrawal sides.
pub fn convert_external_multi_transaction(l: &Ledger, g: &Vec<Transaction>) -> (r: Result<
    TransactionOut,
    ErrorKind,
>)
    requires
        l.wf(),
    ensures
        r is Ok <==> spec_convert_withdrawal_multi(l, g@) is Some,
        r matches Ok(out) ==> out@ == spec_convert_withdrawal_multi(l, g@)->Some_0,
        r is Err ==> r == Err::<TransactionOut, ErrorKind>(ErrorKind::Internal),
{
    if count_legs(g) != 2 {
        return Err(ErrorKind::Internal);
    }
    let c = exchange_side(l, g)?;
    let w = convert_external_transaction(l, g)?;
    Ok(
        TransactionOut {
            id: c.id,
            from: c.from,
            to: w.to,
            from_value: c.from_value,
            from_currency: c.from_currency,
            to_value: c.to_value,
            to_currency: c.to_currency,
            fee: w.fee,
            status: w.status,
            blockchain_tx_id: w.blockchain_tx_id,
            created_at: w.created_at,
            updated_at: w.updated_at,
        },
    )
}

/// Rebuilds the caller-visible record of a posting group. All postings must
/// share one group id; the group kind of the first decides the shape.
pub fn convert_transaction(l: &Ledger, g: &Vec<Transaction>) -> (r: Result<
    TransactionOut,
    ErrorKind,
>)
    requires
        l.wf(),
    ensures
        r is Ok <==> spec_convert(l, g@) is Some,
        r matches Ok(out) ==> out@ == spec_convert(l, g@)->Some_0,
        r is Err ==> r == Err::<TransactionOut, ErrorKind>(ErrorKind::Internal),
{
    if g.len() == 0 {
        return Err(ErrorKind::Internal);
    }
    let gid = g[0].gid;
    let mut i: usize = 0;
    while i < g.len()
        invariant
            0 < g@.len(),
            gid == g@[0].gid,
            i <= g@.len(),
            forall|j: int| 0 <= j < i ==> #[trigger] g@[j].gid == g@[0].gid,
        decreases g@.len() - i,
    {
        if g[i].gid != gid {
            return Err(ErrorKind::Internal);
        }
        i = i + 1;
    }
    match g[0].group_kind {
        TransactionGroupKind::Deposit => convert_deposit_transaction(l, g),
        TransactionGroupKind::Internal => convert_internal_transaction(l, g),
        TransactionGroupKind::InternalMulti => convert_internal_multi_transaction(l, g),
        TransactionGroupKind::Withdrawal => convert_external_transaction(l, g),
        TransactionGroupKind::WithdrawalMulti => convert_external_multi_transaction(l, g),
        TransactionGroupKind::Approval => Err(ErrorKind::Internal),
    }
}

} // verus!
