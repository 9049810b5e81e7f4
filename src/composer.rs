use vstd::prelude::*;

use crate::ledger::{balance_of, base_tx_error, post_error, seq_has_id, totals_fit, Ledger};
use crate::model::{
    Account, AccountId, AccountKind, BlockchainAddress, BlockchainTransactionId,
    CreateTransactionInput, Currency, ErrorKind, ExchangeId, ExchangeRate, NewTransaction,
    PendingBlockchainTransaction, Transaction, TransactionGroupKind, TransactionId,
    TransactionKind, TransactionStatus, Receipt, convert_amount, converted,
};

verus! {

/// The request sent to the exchange provider once both legs of an exchange are posted.
#[derive(Clone, Copy, Debug, PartialEq, Eq, Structural)]
pub struct ExchangeInput {
    pub id: ExchangeId,
    pub from: Currency,
    pub to: Currency,
    pub rate: ExchangeRate,
    pub actual_amount: u128,
    pub amount_currency: Currency,
}

/// One source of a withdrawal: a deposit account and the value taken from it.
#[derive(Clone, Copy, Debug, PartialEq, Eq, Structural)]
pub struct WithdrawalTake {
    pub account_id: AccountId,
    pub value: u128,
}

/// Settings a cross-currency withdrawal changes in the plain withdrawal.
#[derive(Clone, Copy, Debug, PartialEq, Eq, Structural)]
pub struct WithdrawalOverrides {
    pub gid: Option<TransactionId>,
    pub kind: Option<TransactionKind>,
    pub group_kind: Option<TransactionGroupKind>,
    pub fee_currency: Option<Currency>,
    pub fee_payer_account_id: Option<AccountId>,
}

/// The identifier `n` steps after `id`.
pub open spec fn nth_id(id: TransactionId, n: nat) -> TransactionId
    decreases n,
{
    if n == 0 {
        id
    } else {
        nth_id(id, (n - 1) as nat).spec_next()
    }
}

pub open spec fn take_sum(takes: Seq<WithdrawalTake>) -> int
    decreases takes.len(),
{
    if takes.len() == 0 {
        0
    } else {
        take_sum(takes.drop_last()) + takes.last().value
    }
}

/// The values of the two legs of an exchange: what leaves `from` and what the
/// `to` leg moves. The given value is in `value_currency`; the other side is
/// converted at the rate, or at its inverse.
pub open spec fn leg_values(
    input: CreateTransactionInput,
    from_c: Currency,
    to_c: Currency,
    rate: ExchangeRate,
) -> Result<(u128, u128), ErrorKind> {
    let v = input.value;
    if from_c == input.value_currency {
        if rate.den == 0 || v * rate.num > u128::MAX {
            Err(ErrorKind::Internal)
        } else {
            Ok((v, converted(v as int, rate.num as int, rate.den as int) as u128))
        }
    } else if to_c == input.value_currency {
        if rate.num == 0 || v * rate.den > u128::MAX {
            Err(ErrorKind::Internal)
        } else {
            Ok((converted(v as int, rate.den as int, rate.num as int) as u128, v))
        }
    } else {
        Err(ErrorKind::InvalidInput)
    }
}

/// Computes the two leg values of an exchange.
pub fn exchange_leg_values(
    input: &CreateTransactionInput,
    from_c: Currency,
    to_c: Currency,
    rate: ExchangeRate,
) -> (r: Result<(u128, u128), ErrorKind>)
    ensures
        r == leg_values(*input, from_c, to_c, rate),
{
    if from_c == input.value_currency {
        match convert_amount(input.value, rate.num, rate.den) {
            Some(t) => Ok((input.value, t)),
            None => Err(ErrorKind::Internal),
        }
    } else if to_c == input.value_currency {
        match convert_amount(input.value, rate.den, rate.num) {
            Some(f) => Ok((f, input.value)),
            None => Err(ErrorKind::Internal),
        }
    } else {
        Err(ErrorKind::InvalidInput)
    }
}

pub open spec fn internal_posting(
    input: CreateTransactionInput,
    from: Account,
    to: Account,
) -> NewTransaction {
    NewTransaction {
        id: input.id,
        gid: input.id,
        user_id: input.user_id,
        dr_account_id: from.id,
        cr_account_id: to.id,
        currency: from.currency,
        value: input.value,
        status: TransactionStatus::Done,
        blockchain_tx_id: None,
        kind: TransactionKind::Internal,
        group_kind: TransactionGroupKind::Internal,
        related_tx: None,
    }
}

/// A leg of an exchange: `MultiFrom` or `MultiTo`, debiting `dr` and crediting
/// the liquidity account `liquidity` of the same currency, under the group
/// kind of the whole group.
pub open spec fn exchange_posting(
    input: CreateTransactionInput,
    id: TransactionId,
    dr: Account,
    liquidity: AccountId,
    value: u128,
    kind: TransactionKind,
    group_kind: TransactionGroupKind,
) -> NewTransaction {
    NewTransaction {
        id,
        gid: input.id,
        user_id: input.user_id,
        dr_account_id: dr.id,
        cr_account_id: liquidity,
        currency: dr.currency,
        value,
        status: TransactionStatus::Done,
        blockchain_tx_id: None,
        kind,
        group_kind,
        related_tx: None,
    }
}

pub open spec fn exchange_request(
    input: CreateTransactionInput,
    from: Account,
    to: Account,
    exchange_id: ExchangeId,
    rate: ExchangeRate,
) -> ExchangeInput {
    ExchangeInput {
        id: exchange_id,
        from: from.currency,
        to: to.currency,
        rate,
        actual_amount: input.value,
        amount_currency: input.value_currency,
    }
}

pub open spec fn group_id(input: CreateTransactionInput, ov: WithdrawalOverrides) -> TransactionId {
    match ov.gid {
        Some(g) => g,
        None => input.id,
    }
}

pub open spec fn withdrawal_group_kind(ov: WithdrawalOverrides) -> TransactionGroupKind {
    match ov.group_kind {
        Some(g) => g,
        None => TransactionGroupKind::Withdrawal,
    }
}

pub open spec fn fee_currency_of(from: Account, ov: WithdrawalOverrides) -> Currency {
    match ov.fee_currency {
        Some(c) => c,
        None => from.currency,
    }
}

/// One withdrawal leg: `from` is debited, the source deposit account credited,
/// and the broadcast's hash recorded.
pub open spec fn withdrawal_leg(
    input: CreateTransactionInput,
    ov: WithdrawalOverrides,
    from: Account,
    currency: Currency,
    take: WithdrawalTake,
    hash: BlockchainTransactionId,
    id: TransactionId,
) -> NewTransaction {
    NewTransaction {
        id,
        gid: group_id(input, ov),
        user_id: input.user_id,
        dr_account_id: from.id,
        cr_account_id: take.account_id,
        currency,
        value: take.value,
        status: TransactionStatus::Pending,
        blockchain_tx_id: Some(hash),
        kind: match ov.kind {
            Some(k) => k,
            None => TransactionKind::Withdrawal,
        },
        group_kind: withdrawal_group_kind(ov),
        related_tx: None,
    }
}

/// The closing fee posting of a withdrawal.
pub open spec fn fee_posting(
    input: CreateTransactionInput,
    ov: WithdrawalOverrides,
    from: Account,
    fees_account: AccountId,
    id: TransactionId,
) -> NewTransaction {
    NewTransaction {
        id,
        gid: group_id(input, ov),
        user_id: input.user_id,
        dr_account_id: match ov.fee_payer_account_id {
            Some(p) => p,
            None => from.id,
        },
        cr_account_id: fees_account,
        currency: fee_currency_of(from, ov),
        value: input.fee,
        status: TransactionStatus::Done,
        blockchain_tx_id: None,
        kind: TransactionKind::Fee,
        group_kind: withdrawal_group_kind(ov),
        related_tx: None,
    }
}

/// The outcome of the broadcast of leg `j`: `None` when it failed or was not tried.
pub open spec fn outcome_at(outcomes: Seq<Option<BlockchainTransactionId>>, j: int) -> Option<
    BlockchainTransactionId,
> {
    if 0 <= j < outcomes.len() {
        outcomes[j]
    } else {
        None
    }
}

/// Same-currency transfer between two held accounts: a single `Internal` posting.
pub fn create_internal_mono_currency_tx(
    l: &mut Ledger,
    input: &CreateTransactionInput,
    from: &Account,
    to: &Account,
    now: u64,
) -> (r: Result<Transaction, ErrorKind>)
    requires
        old(l).wf(),
    ensures
        final(l).wf(),
        r matches Err(e) ==> base_tx_error(old(l), internal_posting(*input, *from, *to)) == Some(e)
            && final(l).unchanged(old(l)),
        r is Ok <==> base_tx_error(old(l), internal_posting(*input, *from, *to)) is None,
        r matches Ok(t) ==> t == Transaction::stored(internal_posting(*input, *from, *to), now)
            && final(l).transactions@ == old(l).transactions@.push(t) && final(l).same_except_postings(old(l)),
{
    let tx = NewTransaction {
        id: input.id,
        gid: input.id,
        user_id: input.user_id,
        dr_account_id: from.id,
        cr_account_id: to.id,
        currency: from.currency,
        value: input.value,
        status: TransactionStatus::Done,
        blockchain_tx_id: None,
        kind: TransactionKind::Internal,
        group_kind: TransactionGroupKind::Internal,
        related_tx: None,
    };
    l.create_base_tx(tx, now)
}

/// Cross-currency transfer between two held accounts: a `MultiFrom` leg from
/// `from` and a `MultiTo` leg from `to`, each into the liquidity account of its
/// currency. Returns the postings and the exchange the caller must then carry
/// out; if that fails the caller undoes the group with `truncate_postings`.
pub fn create_internal_multi_currency_tx(
    l: &mut Ledger,
    input: &CreateTransactionInput,
    from: &Account,
    to: &Account,
    exchange_id: ExchangeId,
    rate: ExchangeRate,
    group_kind: TransactionGroupKind,
    now: u64,
) -> (r: Result<(Vec<Transaction>, ExchangeInput), ErrorKind>)
    requires
        old(l).wf(),
    ensures
        final(l).wf(),
        r is Err ==> final(l).unchanged(old(l)),
        leg_values(*input, from.currency, to.currency, rate) matches Err(e) ==> r == Err::<
            (Vec<Transaction>, ExchangeInput),
            ErrorKind,
        >(e),
        leg_values(*input, from.currency, to.currency, rate) is Ok && !old(l).has_account(
            old(l).system.spec_liquidity(from.currency),
        ) ==> r == Err::<(Vec<Transaction>, ExchangeInput), ErrorKind>(ErrorKind::NotFound),
        leg_values(*input, from.currency, to.currency, rate) is Ok && old(l).has_account(
            old(l).system.spec_liquidity(from.currency),
        ) && !old(l).has_account(old(l).system.spec_liquidity(to.currency)) ==> r == Err::<
            (Vec<Transaction>, ExchangeInput),
            ErrorKind,
        >(ErrorKind::NotFound),
        leg_values(*input, from.currency, to.currency, rate) is Ok && old(
            l,
        ).has_account(old(l).system.spec_liquidity(from.currency)) && old(l).has_account(
            old(l).system.spec_liquidity(to.currency),
        ) ==> {
            let fv = leg_values(*input, from.currency, to.currency, rate)->Ok_0.0;
            let tv = leg_values(*input, from.currency, to.currency, rate)->Ok_0.1;
            let p1 = exchange_posting(
                *input,
                input.id,
                *from,
                old(l).system.spec_liquidity(from.currency),
                fv,
                TransactionKind::MultiFrom,
                group_kind,
            );
            let p2 = exchange_posting(
                *input,
                input.id.spec_next(),
                *to,
                old(l).system.spec_liquidity(to.currency),
                tv,
                TransactionKind::MultiTo,
                group_kind,
            );
            let s1 = old(l).transactions@.push(Transaction::stored(p1, now));
            &&& base_tx_error(old(l), p1) matches Some(e) ==> r == Err::<
                (Vec<Transaction>, ExchangeInput),
                ErrorKind,
            >(e)
            &&& base_tx_error(old(l), p1) is None ==> (post_error(old(l), s1, p2) matches Some(e)
                ==> r == Err::<(Vec<Transaction>, ExchangeInput), ErrorKind>(e))
            &&& base_tx_error(old(l), p1) is None && post_error(old(l), s1, p2) is None ==> r is Ok
        },
        r matches Ok((txs, ex)) ==> {
            let (fv, tv) = leg_values(*input, from.currency, to.currency, rate)->Ok_0;
            &&& leg_values(*input, from.currency, to.currency, rate) is Ok
            &&& final(l).transactions@ == old(l).transactions@ + txs@
            &&& final(l).same_except_postings(old(l))
            &&& txs@.len() == 2
            &&& txs@[0] == Transaction::stored(
                exchange_posting(
                    *input,
                    input.id,
                    *from,
                    old(l).system.spec_liquidity(from.currency),
                    fv,
                    TransactionKind::MultiFrom,
                    group_kind,
                ),
                now,
            )
            &&& txs@[1] == Transaction::stored(
                exchange_posting(
                    *input,
                    input.id.spec_next(),
                    *to,
                    old(l).system.spec_liquidity(to.currency),
                    tv,
                    TransactionKind::MultiTo,
                    group_kind,
                ),
                now,
            )
            &&& ex == exchange_request(*input, *from, *to, exchange_id, rate)
        },
{
    let (from_value, to_value) = match exchange_leg_values(input, from.currency, to.currency, rate) {
        Ok(p) => p,
        Err(e) => return Err(e),
    };
    let from_liquidity = l.system.liquidity(from.currency);
    if l.find_account(from_liquidity).is_none() {
        return Err(ErrorKind::NotFound);
    }
    let to_liquidity = l.system.liquidity(to.currency);
    if l.find_account(to_liquidity).is_none() {
        return Err(ErrorKind::NotFound);
    }
    let ghost l0 = *l;
    let n0 = l.transactions.len();
    let mut res: Vec<Transaction> = Vec::new();
    let from_tx = NewTransaction {
        id: input.id,
        gid: input.id,
        user_id: input.user_id,
        dr_account_id: from.id,
        cr_account_id: from_liquidity,
        currency: from.currency,
        value: from_value,
        status: TransactionStatus::Done,
        blockchain_tx_id: None,
        kind: TransactionKind::MultiFrom,
        group_kind,
        related_tx: None,
    };
    match l.create_base_tx(from_tx, now) {
        Ok(t) => res.push(t),
        Err(e) => return Err(e),
    }
    let to_tx = NewTransaction {
        id: input.id.next(),
        gid: input.id,
        user_id: input.user_id,
        dr_account_id: to.id,
        cr_account_id: to_liquidity,
        currency: to.currency,
        value: to_value,
        status: TransactionStatus::Done,
        blockchain_tx_id: None,
        kind: TransactionKind::MultiTo,
        group_kind,
        related_tx: None,
    };
    match l.create_base_tx(to_tx, now) {
        Ok(t) => res.push(t),
        Err(e) => {
            l.truncate_postings(n0);
            proof {
                assert(l.transactions@ =~= l0.transactions@);
            }
            return Err(e);
        },
    }
    proof {
        assert(l.transactions@ =~= l0.transactions@ + res@);
    }
    let ex = ExchangeInput {
        id: exchange_id,
        from: from.currency,
        to: to.currency,
        rate,
        actual_amount: input.value,
        amount_currency: input.value_currency,
    };
    Ok((res, ex))
}

/// What re-checking one selected source finds wrong, if anything: it must
/// exist and hold, as a deposit account, at least what is taken from it.
pub open spec fn take_error(l: &Ledger, s: Seq<Transaction>, t: WithdrawalTake) -> Option<ErrorKind> {
    if !l.has_account(t.account_id) || !totals_fit(s, t.account_id) {
        Some(ErrorKind::Internal)
    } else if balance_of(s, t.account_id, AccountKind::Dr) < t.value {
        Some(ErrorKind::Balance)
    } else {
        None
    }
}

/// The error of the first selected source that fails its re-check.
pub open spec fn sources_error(l: &Ledger, s: Seq<Transaction>, takes: Seq<WithdrawalTake>) -> Option<
    ErrorKind,
>
    decreases takes.len(),
{
    if takes.len() == 0 {
        None
    } else if take_error(l, s, takes[0]) is Some {
        take_error(l, s, takes[0])
    } else {
        sources_error(l, s, takes.subrange(1, takes.len() as int))
    }
}

proof fn lemma_sources_error_accounts(
    l1: &Ledger,
    l2: &Ledger,
    s: Seq<Transaction>,
    takes: Seq<WithdrawalTake>,
)
    requires
        l1.accounts@ == l2.accounts@,
    ensures
        sources_error(l1, s, takes) == sources_error(l2, s, takes),
    decreases takes.len(),
{
    if takes.len() > 0 {
        lemma_sources_error_accounts(l1, l2, s, takes.subrange(1, takes.len() as int));
    }
}

proof fn lemma_posted_count_accounts(
    l1: &Ledger,
    l2: &Ledger,
    s: Seq<Transaction>,
    legs: Seq<NewTransaction>,
    now: u64,
)
    requires
        l1.accounts@ == l2.accounts@,
    ensures
        posted_count(l1, s, legs, now) == posted_count(l2, s, legs, now),
    decreases legs.len(),
{
    if legs.len() > 0 {
        lemma_posted_count_accounts(
            l1,
            l2,
            s.push(Transaction::stored(legs[0], now)),
            legs.subrange(1, legs.len() as int),
            now,
        );
    }
}

/// What the checks made before any broadcast find wrong with a withdrawal:
/// the currencies must agree, the group id be fresh, every source cover its
/// take, the takes add up to the value, the sender hold the value, and the
/// fees account exist.
pub open spec fn withdrawal_check(
    l: &Ledger,
    input: CreateTransactionInput,
    from: Account,
    to_currency: Currency,
    ov: WithdrawalOverrides,
    takes: Seq<WithdrawalTake>,
) -> Option<ErrorKind> {
    withdrawal_check_at(l, l.transactions@, input, from, to_currency, ov, takes)
}

/// The same checks with the postings standing at `s`.
pub open spec fn withdrawal_check_at(
    l: &Ledger,
    s: Seq<Transaction>,
    input: CreateTransactionInput,
    from: Account,
    to_currency: Currency,
    ov: WithdrawalOverrides,
    takes: Seq<WithdrawalTake>,
) -> Option<ErrorKind> {
    if from.currency != to_currency || seq_has_id(s, input.id) {
        Some(ErrorKind::Internal)
    } else if sources_error(l, s, takes) is Some {
        sources_error(l, s, takes)
    } else if take_sum(takes) != input.value {
        Some(ErrorKind::Internal)
    } else if !l.has_account(from.id) || !totals_fit(s, from.id) {
        Some(ErrorKind::Internal)
    } else if balance_of(s, from.id, l.account(from.id).kind) < input.value {
        Some(ErrorKind::Balance)
    } else if !l.has_account(l.system.spec_fees(fee_currency_of(from, ov))) {
        Some(ErrorKind::NotFound)
    } else {
        None
    }
}

/// How many legs, from the first, were broadcast before one failed.
pub open spec fn broadcast_count(
    outcomes: Seq<Option<BlockchainTransactionId>>,
    i: int,
    n: int,
) -> nat
    decreases n - i,
{
    if i >= n || outcome_at(outcomes, i) is None {
        0
    } else {
        1 + broadcast_count(outcomes, i + 1, n)
    }
}

/// The withdrawal postings for the first `k` legs.
pub open spec fn withdrawal_legs(
    input: CreateTransactionInput,
    ov: WithdrawalOverrides,
    from: Account,
    currency: Currency,
    takes: Seq<WithdrawalTake>,
    outcomes: Seq<Option<BlockchainTransactionId>>,
    k: nat,
) -> Seq<NewTransaction> {
    Seq::new(
        k,
        |j: int|
            withdrawal_leg(
                input,
                ov,
                from,
                currency,
                takes[j],
                outcome_at(outcomes, j)->Some_0,
                nth_id(input.id, j as nat),
            ),
    )
}

/// How many of `legs`, in order, are written before one is refused, the
/// postings standing at `s` and the accounts being those of `l`.
pub open spec fn posted_count(l: &Ledger, s: Seq<Transaction>, legs: Seq<NewTransaction>, now: u64) -> nat
    decreases legs.len(),
{
    if legs.len() == 0 || post_error(l, s, legs[0]) is Some {
        0
    } else {
        1 + posted_count(
            l,
            s.push(Transaction::stored(legs[0], now)),
            legs.subrange(1, legs.len() as int),
            now,
        )
    }
}

/// The postings a withdrawal writes after its legs were broadcast, the postings
/// standing at `s`: the broadcast legs in order as long as each can be written,
/// then the fee if it can be written.
pub open spec fn withdrawal_postings(
    l: &Ledger,
    s: Seq<Transaction>,
    input: CreateTransactionInput,
    ov: WithdrawalOverrides,
    from: Account,
    currency: Currency,
    takes: Seq<WithdrawalTake>,
    outcomes: Seq<Option<BlockchainTransactionId>>,
    now: u64,
) -> Seq<Transaction> {
    let k = broadcast_count(outcomes, 0, takes.len() as int);
    let legs = withdrawal_legs(input, ov, from, currency, takes, outcomes, k);
    let m = posted_count(l, s, legs, now);
    let posted = Seq::new(m, |j: int| Transaction::stored(legs[j], now));
    let fee = fee_posting(
        input,
        ov,
        from,
        l.system.spec_fees(fee_currency_of(from, ov)),
        nth_id(input.id, m),
    );
    if post_error(l, s + posted, fee) is None {
        posted.push(Transaction::stored(fee, now))
    } else {
        posted
    }
}

pub proof fn lemma_posted_count_bound(l: &Ledger, s: Seq<Transaction>, legs: Seq<NewTransaction>, now: u64)
    ensures
        posted_count(l, s, legs, now) <= legs.len(),
    decreases legs.len(),
{
    if legs.len() > 0 {
        lemma_posted_count_bound(
            l,
            s.push(Transaction::stored(legs[0], now)),
            legs.subrange(1, legs.len() as int),
            now,
        );
    }
}

/// The checks made before any broadcast; the caller broadcasts only after
/// they pass.
pub fn check_withdrawal(
    l: &Ledger,
    input: &CreateTransactionInput,
    from: &Account,
    to_currency: Currency,
    ov: WithdrawalOverrides,
    takes: &Vec<WithdrawalTake>,
) -> (r: Result<(), ErrorKind>)
    requires
        l.wf(),
    ensures
        r is Ok <==> withdrawal_check(l, *input, *from, to_currency, ov, takes@) is None,
        r matches Err(e) ==> withdrawal_check(l, *input, *from, to_currency, ov, takes@) == Some(e),
{
    if from.currency != to_currency || l.contains_tx_id(input.id) {
        return Err(ErrorKind::Internal);
    }
    let mut i: usize = 0;
    proof {
        assert(takes@.subrange(0, takes@.len() as int) =~= takes@);
    }
    while i < takes.len()
        invariant
            l.wf(),
            from.currency == to_currency,
            !seq_has_id(l.transactions@, input.id),
            i <= takes@.len(),
            sources_error(l, l.transactions@, takes@) == sources_error(
                l,
                l.transactions@,
                takes@.subrange(i as int, takes@.len() as int),
            ),
        decreases takes@.len() - i,
    {
        let ghost rest = takes@.subrange(i as int, takes@.len() as int);
        proof {
            assert(rest[0] == takes@[i as int]);
            assert(rest.subrange(1, rest.len() as int) =~= takes@.subrange(
                i + 1,
                takes@.len() as int,
            ));
        }
        let t = takes[i];
        if l.find_account(t.account_id).is_none() {
            proof {
                assert(take_error(l, l.transactions@, rest[0]) == Some(ErrorKind::Internal));
            }
            return Err(ErrorKind::Internal);
        }
        let (c, d) = match l.totals(t.account_id) {
            Some(p) => p,
            None => {
                proof {
                    assert(take_error(l, l.transactions@, rest[0]) == Some(ErrorKind::Internal));
                }
                return Err(ErrorKind::Internal);
            },
        };
        if !(d >= c && d - c >= t.value) {
            proof {
                assert(take_error(l, l.transactions@, rest[0]) == Some(ErrorKind::Balance));
            }
            return Err(ErrorKind::Balance);
        }
        proof {
            assert(take_error(l, l.transactions@, rest[0]) is None);
        }
        i = i + 1;
    }
    proof {
        assert(takes@.subrange(i as int, takes@.len() as int).len() == 0);
    }
    let mut total: u128 = 0;
    let mut j: usize = 0;
    while j < takes.len()
        invariant
            l.wf(),
            from.currency == to_currency,
            !seq_has_id(l.transactions@, input.id),
            sources_error(l, l.transactions@, takes@) is None,
            j <= takes@.len(),
            total == take_sum(takes@.take(j as int)),
        decreases takes@.len() - j,
    {
        proof {
            assert(takes@.take(j + 1).drop_last() =~= takes@.take(j as int));
        }
        total = match total.checked_add(takes[j].value) {
            Some(x) => x,
            None => {
                proof {
                    lemma_take_sum_prefix(takes@, j + 1);
                }
                return Err(ErrorKind::Internal);
            },
        };
        j = j + 1;
    }
    proof {
        assert(takes@.take(takes@.len() as int) =~= takes@);
    }
    if total != input.value {
        return Err(ErrorKind::Internal);
    }
    // the sender must cover what leaves it
    let sender = match l.find_account(from.id) {
        Some(a) => a,
        None => return Err(ErrorKind::Internal),
    };
    let (c, d) = match l.totals(from.id) {
        Some(p) => p,
        None => return Err(ErrorKind::Internal),
    };
    let covered = match sender.kind {
        AccountKind::Cr => c >= d && c - d >= input.value,
        AccountKind::Dr => d >= c && d - c >= input.value,
    };
    if !covered {
        return Err(ErrorKind::Balance);
    }
    let fee_currency = match ov.fee_currency {
        Some(c) => c,
        None => from.currency,
    };
    if l.find_account(l.system.fees(fee_currency)).is_none() {
        return Err(ErrorKind::NotFound);
    }
    Ok(())
}

proof fn lemma_take_sum_prefix(takes: Seq<WithdrawalTake>, k: int)
    requires
        0 <= k <= takes.len(),
    ensures
        take_sum(takes.take(k)) <= take_sum(takes),
    decreases takes.len(),
{
    if k == takes.len() {
        assert(takes.take(k) =~= takes);
    } else {
        lemma_take_sum_prefix(takes.drop_last(), k);
        assert(takes.drop_last().take(k) =~= takes.take(k));
    }
}

/// Of `n` legs, the next to broadcast: none once one has failed or all were sent.
pub fn next_leg_to_broadcast(n: usize, outcomes: &Vec<Option<BlockchainTransactionId>>) -> (r: Option<
    usize,
>)
    ensures
        r is Some <==> outcomes@.len() < n && forall|j: int|
            0 <= j < outcomes@.len() ==> (#[trigger] outcomes@[j]) is Some,
        r matches Some(i) ==> i == outcomes@.len(),
{
    let mut j: usize = 0;
    while j < outcomes.len()
        invariant
            j <= outcomes@.len(),
            forall|q: int| 0 <= q < j ==> (#[trigger] outcomes@[q]) is Some,
        decreases outcomes@.len() - j,
    {
        if outcomes[j].is_none() {
            return None;
        }
        j = j + 1;
    }
    if outcomes.len() < n {
        Some(outcomes.len())
    } else {
        None
    }
}

/// Same-currency withdrawal to a chain address, after its legs were
/// broadcast. `takes` are the deposit accounts chosen to pay it and
/// `outcomes[j]` what broadcasting leg `j` returned. The checks made before
/// broadcasting are made again; then, if the first broadcast failed, nothing is
/// written. Otherwise the group is kept whatever follows: each broadcast leg,
/// up to the first failure, becomes a `Pending` withdrawal posting as long as
/// it can be written, the `Fee` posting closes the group if it can be written,
/// and every broadcast is remembered as pending on chain.
#[verifier::rlimit(100)]
pub fn create_external_mono_currency_tx(
    l: &mut Ledger,
    input: &CreateTransactionInput,
    from: &Account,
    to_address: &BlockchainAddress,
    to_currency: Currency,
    ov: WithdrawalOverrides,
    takes: &Vec<WithdrawalTake>,
    outcomes: &Vec<Option<BlockchainTransactionId>>,
    now: u64,
) -> (r: Result<Vec<Transaction>, ErrorKind>)
    requires
        old(l).wf(),
    ensures
        final(l).wf(),
        r is Err ==> final(l).unchanged(old(l)),
        withdrawal_check(old(l), *input, *from, to_currency, ov, takes@) matches Some(e) ==> r
            == Err::<Vec<Transaction>, ErrorKind>(e),
        withdrawal_check(old(l), *input, *from, to_currency, ov, takes@) is None && outcome_at(
            outcomes@,
            0,
        ) is None ==> r == Err::<Vec<Transaction>, ErrorKind>(ErrorKind::Internal),
        withdrawal_check(old(l), *input, *from, to_currency, ov, takes@) is None && takes@.len()
            > 0 && outcome_at(outcomes@, 0) is Some ==> r is Ok,
        r matches Ok(txs) ==> {
            let k = broadcast_count(outcomes@, 0, takes@.len() as int);
            let legs = withdrawal_legs(*input, ov, *from, to_currency, takes@, outcomes@, k);
            let m = posted_count(old(l), old(l).transactions@, legs, now);
            let fee = fee_posting(
                *input,
                ov,
                *from,
                old(l).system.spec_fees(fee_currency_of(*from, ov)),
                nth_id(input.id, m),
            );
            let fee_ok = post_error(old(l), old(l).transactions@ + txs@.take(m as int), fee) is None;
            &&& txs@ == withdrawal_postings(
                old(l),
                old(l).transactions@,
                *input,
                ov,
                *from,
                to_currency,
                takes@,
                outcomes@,
                now,
            )
            &&& withdrawal_check(old(l), *input, *from, to_currency, ov, takes@) is None
            &&& 1 <= k <= takes@.len()
            &&& m <= k
            &&& txs@.len() == m + if fee_ok {
                1int
            } else {
                0int
            }
            &&& forall|j: int|
                0 <= j < m ==> #[trigger] txs@[j] == Transaction::stored(legs[j], now)
            &&& fee_ok ==> txs@[m as int] == Transaction::stored(fee, now)
            &&& final(l).transactions@ == old(l).transactions@ + txs@
            &&& final(l).accounts@ == old(l).accounts@
            &&& final(l).chain@ == old(l).chain@
            &&& final(l).system == old(l).system
            &&& final(l).pending@.len() == old(l).pending@.len() + k
            &&& forall|j: int|
                0 <= j < old(l).pending@.len() ==> final(l).pending@[j] == old(l).pending@[j]
            &&& forall|j: int|
                0 <= j < k ==> (#[trigger] final(l).pending@[old(l).pending@.len() + j]).hash
                    == outcome_at(outcomes@, j)->Some_0 && final(l).pending@[old(l).pending@.len()
                    + j].to == *to_address
        },
{
    match check_withdrawal(l, input, from, to_currency, ov, takes) {
        Ok(()) => {},
        Err(e) => return Err(e),
    }
    let gid = match ov.gid {
        Some(g) => g,
        None => input.id,
    };
    let fee_currency = match ov.fee_currency {
        Some(c) => c,
        None => from.currency,
    };
    let kind = match ov.kind {
        Some(k) => k,
        None => TransactionKind::Withdrawal,
    };
    let group_kind = match ov.group_kind {
        Some(g) => g,
        None => TransactionGroupKind::Withdrawal,
    };
    let fee_payer = match ov.fee_payer_account_id {
        Some(p) => p,
        None => from.id,
    };
    let fees_id = l.system.fees(fee_currency);
    // legs broadcast before the first failure
    let mut k: usize = 0;
    while k < takes.len() && k < outcomes.len() && outcomes[k].is_some()
        invariant
            k <= takes@.len(),
            forall|j: int| 0 <= j < k ==> (#[trigger] outcome_at(outcomes@, j)) is Some,
            broadcast_count(outcomes@, 0, takes@.len() as int) == k + broadcast_count(
                outcomes@,
                k as int,
                takes@.len() as int,
            ),
        decreases takes@.len() - k,
    {
        k = k + 1;
    }
    proof {
        assert(broadcast_count(outcomes@, k as int, takes@.len() as int) == 0);
    }
    if k == 0 {
        return Err(ErrorKind::Internal);
    }
    let ghost l0 = *l;
    let ghost legs = withdrawal_legs(*input, ov, *from, to_currency, takes@, outcomes@, k as nat);
    let mut res: Vec<Transaction> = Vec::new();
    let mut current = input.id;
    let mut j: usize = 0;
    let mut going = true;
    proof {
        assert(legs.subrange(0, k as int) =~= legs);
    }
    while going && j < k
        invariant
            l.wf(),
            l.same_except_postings(&l0),
            l0 == *old(l),
            j <= k,
            k <= takes@.len(),
            forall|m: int| 0 <= m < k ==> (#[trigger] outcome_at(outcomes@, m)) is Some,
            legs == withdrawal_legs(*input, ov, *from, to_currency, takes@, outcomes@, k as nat),
            l.transactions@ == l0.transactions@ + res@,
            res@.len() == j,
            current == nth_id(input.id, j as nat),
            gid == group_id(*input, ov),
            group_kind == withdrawal_group_kind(ov),
            kind == (match ov.kind {
                Some(k) => k,
                None => TransactionKind::Withdrawal,
            }),
            forall|m: int| 0 <= m < j ==> #[trigger] res@[m] == Transaction::stored(legs[m], now),
            going ==> posted_count(&l0, l0.transactions@, legs, now) == j + posted_count(
                &l0,
                l.transactions@,
                legs.subrange(j as int, k as int),
                now,
            ),
            !going ==> posted_count(&l0, l0.transactions@, legs, now) == j,
        decreases k - j + if going {
            1int
        } else {
            0int
        },
    {
        let t = takes[j];
        proof {
            assert(outcome_at(outcomes@, j as int) is Some);
        }
        let hash = match &outcomes[j] {
            Some(h) => h.duplicate(),
            None => {
                assert(false);
                return Err(ErrorKind::Internal);
            },
        };
        let tx = NewTransaction {
            id: current,
            gid,
            user_id: input.user_id,
            dr_account_id: from.id,
            cr_account_id: t.account_id,
            currency: to_currency,
            value: t.value,
            status: TransactionStatus::Pending,
            blockchain_tx_id: Some(hash),
            kind,
            group_kind,
            related_tx: None,
        };
        let ghost rest = legs.subrange(j as int, k as int);
        proof {
            assert(tx == legs[j as int]);
            assert(rest[0] == legs[j as int]);
            assert(rest.subrange(1, rest.len() as int) =~= legs.subrange(j + 1, k as int));
        }
        let ghost res0 = res@;
        match l.create_base_tx(tx, now) {
            Ok(p) => {
                res.push(p);
                proof {
                    assert(l.transactions@ =~= l0.transactions@ + res@);
                    assert forall|m: int| 0 <= m < j + 1 implies #[trigger] res@[m]
                        == Transaction::stored(legs[m], now) by {
                        if m < j {
                            assert(res@[m] == res0[m]);
                        }
                    }
                }
                current = current.next();
                j = j + 1;
            },
            Err(_) => {
                going = false;
            },
        }
    }
    proof {
        if going {
            assert(legs.subrange(j as int, k as int).len() == 0);
        }
        assert(res@ =~= res@.take(j as int));
    }
    let fee_tx = NewTransaction {
        id: current,
        gid,
        user_id: input.user_id,
        dr_account_id: fee_payer,
        cr_account_id: fees_id,
        currency: fee_currency,
        value: input.fee,
        status: TransactionStatus::Done,
        blockchain_tx_id: None,
        kind: TransactionKind::Fee,
        group_kind,
        related_tx: None,
    };
    let ghost res1 = res@;
    match l.create_base_tx(fee_tx, now) {
        Ok(p) => {
            res.push(p);
            proof {
                assert(l.transactions@ =~= l0.transactions@ + res@);
                assert(res@.take(j as int) =~= res1);
                assert forall|m: int| 0 <= m < j implies #[trigger] res@[m]
                    == Transaction::stored(legs[m], now) by {
                    assert(res@[m] == res1[m]);
                }
            }
        },
        Err(_) => {},
    }
    // every broadcast is remembered until the chain confirms it
    let ghost l1 = *l;
    let mut m: usize = 0;
    while m < k
        invariant
            l.wf(),
            m <= k,
            k <= takes@.len(),
            forall|q: int| 0 <= q < k ==> (#[trigger] outcome_at(outcomes@, q)) is Some,
            l.transactions@ == l1.transactions@,
            l.accounts@ == l1.accounts@,
            l.chain@ == l1.chain@,
            l.system == l1.system,
            l.pending@.len() == l1.pending@.len() + m,
            forall|q: int| 0 <= q < l1.pending@.len() ==> l.pending@[q] == l1.pending@[q],
            forall|q: int|
                0 <= q < m ==> (#[trigger] l.pending@[l1.pending@.len() + q]).hash == outcome_at(
                    outcomes@,
                    q,
                )->Some_0 && l.pending@[l1.pending@.len() + q].to == *to_address,
        decreases k - m,
    {
        proof {
            assert(outcome_at(outcomes@, m as int) is Some);
        }
        let hash = match &outcomes[m] {
            Some(h) => h.duplicate(),
            None => {
                assert(false);
                return Err(ErrorKind::Internal);
            },
        };
        let source = match l.find_account(takes[m].account_id) {
            Some(a) => a.address,
            None => to_address.duplicate(),
        };
        let row = PendingBlockchainTransaction {
            hash,
            from: source,
            to: to_address.duplicate(),
            currency: to_currency,
            value: takes[m].value,
        };
        let ghost p0 = l.pending@;
        l.add_pending(row);
        proof {
            assert forall|q: int| 0 <= q < m + 1 implies (#[trigger] l.pending@[l1.pending@.len()
                + q]).hash == outcome_at(outcomes@, q)->Some_0 && l.pending@[l1.pending@.len()
                + q].to == *to_address by {
                if q < m {
                    assert(l.pending@[l1.pending@.len() + q] == p0[l1.pending@.len() + q]);
                }
            }
        }
        m = m + 1;
    }
    proof {
        let legs2 = withdrawal_legs(*input, ov, *from, to_currency, takes@, outcomes@, k as nat);
        assert(legs2 == legs);
        let posted = Seq::new(j as nat, |q: int| Transaction::stored(legs[q], now));
        assert(res1 =~= posted);
    }
    Ok(res)
}

/// The request the withdrawal side of a cross-currency withdrawal is made
/// with: from the transfer account, of the exchanged value, with its ids
/// following the two exchange legs.
pub open spec fn transfer_input(
    input: CreateTransactionInput,
    transfer: AccountId,
    value: u128,
    to_currency: Currency,
) -> CreateTransactionInput {
    CreateTransactionInput {
        id: input.id.spec_next().spec_next(),
        from: transfer,
        value,
        value_currency: to_currency,
        ..input
    }
}

/// The settings of the withdrawal side: one group id and group kind, and the
/// fee charged to `from` in its currency.
pub open spec fn transfer_overrides(input: CreateTransactionInput, from: Account) -> WithdrawalOverrides {
    WithdrawalOverrides {
        gid: Some(input.id),
        kind: Some(TransactionKind::Withdrawal),
        group_kind: Some(TransactionGroupKind::WithdrawalMulti),
        fee_currency: Some(from.currency),
        fee_payer_account_id: Some(from.id),
    }
}

/// Whether a cross-currency withdrawal can be carried out once its first leg
/// is broadcast: the transfer account exists, both exchange legs can be written,
/// and the withdrawal checks pass on the ledger as those legs leave it.
pub open spec fn exchange_withdrawal_ready(
    l: &Ledger,
    input: CreateTransactionInput,
    from: Account,
    to_currency: Currency,
    rate: ExchangeRate,
    takes: Seq<WithdrawalTake>,
    now: u64,
) -> bool {
    let transfer = l.account(l.system.spec_transfer(to_currency));
    let lv = leg_values(input, from.currency, to_currency, rate);
    let liq_from = l.system.spec_liquidity(from.currency);
    let liq_to = l.system.spec_liquidity(to_currency);
    let p1 = exchange_posting(
        input,
        input.id,
        from,
        liq_from,
        lv->Ok_0.0,
        TransactionKind::MultiFrom,
        TransactionGroupKind::WithdrawalMulti,
    );
    let p2 = exchange_posting(
        input,
        input.id.spec_next(),
        transfer,
        liq_to,
        lv->Ok_0.1,
        TransactionKind::MultiTo,
        TransactionGroupKind::WithdrawalMulti,
    );
    let s1 = l.transactions@.push(Transaction::stored(p1, now));
    let s2 = s1.push(Transaction::stored(p2, now));
    &&& l.has_account(l.system.spec_transfer(to_currency))
    &&& lv is Ok
    &&& l.has_account(liq_from)
    &&& l.has_account(liq_to)
    &&& base_tx_error(l, p1) is None
    &&& post_error(l, s1, p2) is None
    &&& withdrawal_check_at(
        l,
        s2,
        transfer_input(input, transfer.id, lv->Ok_0.1, to_currency),
        transfer,
        to_currency,
        transfer_overrides(input, from),
        takes,
    ) is None
}

/// The checks made before any leg of a cross-currency withdrawal is
/// broadcast. The exchange legs are written to check what follows them, then
/// taken back: the ledger is left as it was.
pub fn check_withdrawal_exchange(
    l: &mut Ledger,
    input: &CreateTransactionInput,
    from: &Account,
    to_currency: Currency,
    exchange_id: ExchangeId,
    rate: ExchangeRate,
    takes: &Vec<WithdrawalTake>,
    now: u64,
) -> (r: Result<(), ErrorKind>)
    requires
        old(l).wf(),
    ensures
        final(l).wf(),
        final(l).unchanged(old(l)),
        r is Ok <==> exchange_withdrawal_ready(old(l), *input, *from, to_currency, rate, takes@, now),
{
    let transfer = match l.find_account(l.system.transfer(to_currency)) {
        Some(a) => a,
        None => return Err(ErrorKind::NotFound),
    };
    let ghost l0 = *l;
    let n0 = l.transactions.len();
    let (res, _) = match create_internal_multi_currency_tx(
        l,
        input,
        from,
        &transfer,
        exchange_id,
        rate,
        TransactionGroupKind::WithdrawalMulti,
        now,
    ) {
        Ok(p) => p,
        Err(e) => return Err(e),
    };
    let withdrawal_value = res[1].value;
    let leg_input = CreateTransactionInput {
        id: input.id.next().next(),
        user_id: input.user_id,
        from: transfer.id,
        to: Receipt(input.to.0.clone()),
        to_type: input.to_type,
        to_currency: input.to_currency,
        value: withdrawal_value,
        value_currency: to_currency,
        fee: input.fee,
        exchange_id: input.exchange_id,
        exchange_rate: input.exchange_rate,
        hold_until: input.hold_until,
    };
    let ov = WithdrawalOverrides {
        gid: Some(input.id),
        kind: Some(TransactionKind::Withdrawal),
        group_kind: Some(TransactionGroupKind::WithdrawalMulti),
        fee_currency: Some(from.currency),
        fee_payer_account_id: Some(from.id),
    };
    let ghost l1 = *l;
    proof {
        assert(leg_input == transfer_input(*input, transfer.id, withdrawal_value, to_currency));
        assert(l1.transactions@ =~= l0.transactions@.push(res@[0]).push(res@[1]));
        lemma_sources_error_accounts(&l1, &l0, l1.transactions@, takes@);
        assert(withdrawal_check(&l1, leg_input, transfer, to_currency, ov, takes@)
            == withdrawal_check_at(&l0, l1.transactions@, leg_input, transfer, to_currency, ov, takes@));
        assert(ov == transfer_overrides(*input, *from));
    }
    let r = check_withdrawal(l, &leg_input, &transfer, to_currency, ov, takes);
    l.truncate_postings(n0);
    proof {
        assert(l.transactions@ =~= l0.transactions@);
        assert(l.accounts@ == l0.accounts@);
    }
    r
}

/// The postings a cross-currency withdrawal leaves after its first leg was
/// broadcast: the old postings, the two exchange legs, then what the withdrawal
/// from the transfer account writes.
pub open spec fn exchange_withdrawal_written(
    l: &Ledger,
    txs: Seq<Transaction>,
    input: CreateTransactionInput,
    from: Account,
    to_currency: Currency,
    rate: ExchangeRate,
    takes: Seq<WithdrawalTake>,
    outcomes: Seq<Option<BlockchainTransactionId>>,
    now: u64,
) -> bool {
    let transfer = l.account(l.system.spec_transfer(to_currency));
    let lv = leg_values(input, from.currency, to_currency, rate);
    let p1 = exchange_posting(
        input,
        input.id,
        from,
        l.system.spec_liquidity(from.currency),
        lv->Ok_0.0,
        TransactionKind::MultiFrom,
        TransactionGroupKind::WithdrawalMulti,
    );
    let p2 = exchange_posting(
        input,
        input.id.spec_next(),
        transfer,
        l.system.spec_liquidity(to_currency),
        lv->Ok_0.1,
        TransactionKind::MultiTo,
        TransactionGroupKind::WithdrawalMulti,
    );
    let s2 = l.transactions@.push(Transaction::stored(p1, now)).push(Transaction::stored(p2, now));
    txs == s2 + withdrawal_postings(
        l,
        s2,
        transfer_input(input, transfer.id, lv->Ok_0.1, to_currency),
        transfer_overrides(input, from),
        transfer,
        to_currency,
        takes,
        outcomes,
        now,
    )
}

/// Cross-currency withdrawal: an exchange into the transfer account of the
/// target currency, then a withdrawal from that account to the chain address.
/// The whole shares one group id and group kind; the fee is charged to the
/// sending account in its own currency. Returns the postings and the exchange
/// to carry out.
#[verifier::spinoff_prover]
#[verifier::rlimit(100)]
pub fn create_external_multi_currency_tx(
    l: &mut Ledger,
    input: &CreateTransactionInput,
    from: &Account,
    to_address: &BlockchainAddress,
    to_currency: Currency,
    exchange_id: ExchangeId,
    rate: ExchangeRate,
    takes: &Vec<WithdrawalTake>,
    outcomes: &Vec<Option<BlockchainTransactionId>>,
    now: u64,
) -> (r: Result<(Vec<Transaction>, ExchangeInput), ErrorKind>)
    requires
        old(l).wf(),
    ensures
        final(l).wf(),
        r is Err ==> final(l).unchanged(old(l)),
        !old(l).has_account(old(l).system.spec_transfer(to_currency)) ==> r == Err::<
            (Vec<Transaction>, ExchangeInput),
            ErrorKind,
        >(ErrorKind::NotFound),
        ({
            let transfer = old(l).account(old(l).system.spec_transfer(to_currency));
            let lv = leg_values(*input, from.currency, to_currency, rate);
            let liq_from = old(l).system.spec_liquidity(from.currency);
            let liq_to = old(l).system.spec_liquidity(to_currency);
            let p1 = exchange_posting(
                *input,
                input.id,
                *from,
                liq_from,
                lv->Ok_0.0,
                TransactionKind::MultiFrom,
                TransactionGroupKind::WithdrawalMulti,
            );
            let p2 = exchange_posting(
                *input,
                input.id.spec_next(),
                transfer,
                liq_to,
                lv->Ok_0.1,
                TransactionKind::MultiTo,
                TransactionGroupKind::WithdrawalMulti,
            );
            let s1 = old(l).transactions@.push(Transaction::stored(p1, now));
            let s2 = s1.push(Transaction::stored(p2, now));
            let w_input = transfer_input(*input, transfer.id, lv->Ok_0.1, to_currency);
            old(l).has_account(old(l).system.spec_transfer(to_currency)) && lv is Ok && old(
                l,
            ).has_account(liq_from) && old(l).has_account(liq_to) && base_tx_error(old(l), p1)
                is None && post_error(old(l), s1, p2) is None && withdrawal_check_at(
                old(l),
                s2,
                w_input,
                transfer,
                to_currency,
                transfer_overrides(*input, *from),
                takes@,
            ) is None && takes@.len() > 0 && outcome_at(outcomes@, 0) is Some ==> r is Ok
        }),
        exchange_withdrawal_ready(old(l), *input, *from, to_currency, rate, takes@, now)
            && takes@.len() > 0 && outcome_at(outcomes@, 0) is Some ==> r is Ok,
        r is Ok ==> final(l).pending@.len() > old(l).pending@.len() && final(l).pending@[old(l).pending@.len() as int].hash == outcome_at(outcomes@, 0)->Some_0,
        r is Ok ==> exchange_withdrawal_written(
            old(l),
            final(l).transactions@,
            *input,
            *from,
            to_currency,
            rate,
            takes@,
            outcomes@,
            now,
        ),
        r matches Ok((txs, ex)) ==> {
            let n = txs@.len();
            let transfer = old(l).account(old(l).system.spec_transfer(to_currency));
            let lv = leg_values(*input, from.currency, to_currency, rate);
            let w_input = transfer_input(*input, transfer.id, lv->Ok_0.1, to_currency);
            let ov = transfer_overrides(*input, *from);
            let s2 = old(l).transactions@ + txs@.take(2);
            let k = broadcast_count(outcomes@, 0, takes@.len() as int);
            let legs = withdrawal_legs(w_input, ov, transfer, to_currency, takes@, outcomes@, k);
            let m = posted_count(old(l), s2, legs, now);
            let fee = fee_posting(
                w_input,
                ov,
                transfer,
                old(l).system.spec_fees(from.currency),
                nth_id(w_input.id, m),
            );
            let fee_ok = post_error(old(l), s2 + txs@.subrange(2, 2 + m as int), fee) is None;
            &&& txs@.subrange(2, n as int) == withdrawal_postings(
                old(l),
                s2,
                w_input,
                ov,
                transfer,
                to_currency,
                takes@,
                outcomes@,
                now,
            )
            &&& old(l).has_account(old(l).system.spec_transfer(to_currency))
            &&& transfer.currency == to_currency
            &&& lv is Ok
            &&& take_sum(takes@) == lv->Ok_0.1
            &&& 1 <= k <= takes@.len()
            &&& m <= k
            &&& n == 2 + m + if fee_ok {
                1int
            } else {
                0int
            }
            &&& final(l).transactions@ == old(l).transactions@ + txs@
            &&& final(l).accounts@ == old(l).accounts@
            &&& final(l).chain@ == old(l).chain@
            &&& final(l).system == old(l).system
            &&& final(l).pending@.len() >= old(l).pending@.len()
            &&& forall|j: int|
                0 <= j < old(l).pending@.len() ==> final(l).pending@[j] == old(l).pending@[j]
            &&& txs@[0] == Transaction::stored(
                exchange_posting(
                    *input,
                    input.id,
                    *from,
                    old(l).system.spec_liquidity(from.currency),
                    lv->Ok_0.0,
                    TransactionKind::MultiFrom,
                    TransactionGroupKind::WithdrawalMulti,
                ),
                now,
            )
            &&& txs@[1] == Transaction::stored(
                exchange_posting(
                    *input,
                    input.id.spec_next(),
                    transfer,
                    old(l).system.spec_liquidity(to_currency),
                    lv->Ok_0.1,
                    TransactionKind::MultiTo,
                    TransactionGroupKind::WithdrawalMulti,
                ),
                now,
            )
            &&& forall|j: int|
                0 <= j < m ==> #[trigger] txs@[2 + j] == Transaction::stored(legs[j], now)
            &&& fee_ok ==> txs@[2 + m as int] == Transaction::stored(fee, now)
            &&& ex == exchange_request(*input, *from, transfer, exchange_id, rate)
        },
{
    let transfer_id = l.system.transfer(to_currency);
    let transfer = match l.find_account(transfer_id) {
        Some(a) => a,
        None => return Err(ErrorKind::NotFound),
    };
    let ghost l0 = *l;
    let n0 = l.transactions.len();
    let (mut res, ex) = match create_internal_multi_currency_tx(
        l,
        input,
        from,
        &transfer,
        exchange_id,
        rate,
        TransactionGroupKind::WithdrawalMulti,
        now,
    ) {
        Ok(p) => p,
        Err(e) => return Err(e),
    };
    let withdrawal_value = res[1].value;
    let leg_input = CreateTransactionInput {
        id: input.id.next().next(),
        user_id: input.user_id,
        from: transfer.id,
        to: Receipt(input.to.0.clone()),
        to_type: input.to_type,
        to_currency: input.to_currency,
        value: withdrawal_value,
        value_currency: to_currency,
        fee: input.fee,
        exchange_id: input.exchange_id,
        exchange_rate: input.exchange_rate,
        hold_until: input.hold_until,
    };
    let ov = WithdrawalOverrides {
        gid: Some(input.id),
        kind: Some(TransactionKind::Withdrawal),
        group_kind: Some(TransactionGroupKind::WithdrawalMulti),
        fee_currency: Some(from.currency),
        fee_payer_account_id: Some(from.id),
    };
    let ghost l1 = *l;
    let ghost res0 = res@;
    proof {
        assert(leg_input == transfer_input(*input, transfer.id, withdrawal_value, to_currency));
        assert(l1.transactions@ =~= l0.transactions@ + res0);
        assert(l1.transactions@ =~= l0.transactions@.push(res0[0]).push(res0[1]));
        lemma_sources_error_accounts(&l1, &l0, l1.transactions@, takes@);
        assert(withdrawal_check(&l1, leg_input, transfer, to_currency, ov, takes@)
            == withdrawal_check_at(&l0, l1.transactions@, leg_input, transfer, to_currency, ov, takes@));
        assert(ov == transfer_overrides(*input, *from));
    }
    match create_external_mono_currency_tx(
        l,
        &leg_input,
        &transfer,
        to_address,
        to_currency,
        ov,
        takes,
        outcomes,
        now,
    ) {
        Ok(mut w) => {
            let ghost w0 = w@;
            assert(l.wf());
            assert(l.pending@[l1.pending@.len() + 0int].hash == outcome_at(outcomes@, 0)->Some_0);
            res.append(&mut w);
            proof {
                assert(w0 == withdrawal_postings(
                    &l1,
                    l1.transactions@,
                    leg_input,
                    ov,
                    transfer,
                    to_currency,
                    takes@,
                    outcomes@,
                    now,
                ));
                assert(l.transactions@ =~= l0.transactions@ + res@);
                assert(res@.take(2) =~= res0);
                assert(res@.subrange(2, res@.len() as int) =~= w0);
                let k = broadcast_count(outcomes@, 0, takes@.len() as int);
                let legs = withdrawal_legs(leg_input, ov, transfer, to_currency, takes@, outcomes@, k);
                lemma_posted_count_accounts(&l1, &l0, l1.transactions@, legs, now);
                let m = posted_count(&l0, l1.transactions@, legs, now);
                assert(w0.take(m as int) =~= res@.subrange(2, 2 + m as int));
                assert forall|j: int| 0 <= j < m implies #[trigger] res@[2 + j]
                    == Transaction::stored(legs[j], now) by {
                    assert(res@[2 + j] == w0[j]);
                }
                assert(res@[0] == res0[0]);
                assert(res@[1] == res0[1]);
                assert(l.transactions@ =~= l0.transactions@.push(res@[0]).push(res@[1]) + w0);
                if res@.len() > 2 + m as int {
                    assert(res@[2 + m as int] == w0[m as int]);
                }
            }
            Ok((res, ex))
        },
        Err(e) => {
            l.truncate_postings(n0);
            proof {
                assert(l.transactions@ =~= l0.transactions@);
                assert(l.accounts@ == l0.accounts@);
                assert(l.wf());
            }
            Err(e)
        },
    }
}

} // verus!
