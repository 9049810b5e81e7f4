use vstd::prelude::*;

use crate::classifier::{spec_classify, spec_recipient_id, validate_and_classify_transaction, TransactionType};
use crate::composer::{
    create_external_mono_currency_tx, create_external_multi_currency_tx,
    create_internal_mono_currency_tx, create_internal_multi_currency_tx, exchange_request,
    internal_posting,
    leg_values, outcome_at, withdrawal_check, withdrawal_postings, ExchangeInput,
    WithdrawalOverrides, WithdrawalTake, exchange_posting, transfer_input, transfer_overrides,
    broadcast_count, withdrawal_legs, posted_count, exchange_withdrawal_ready, fee_posting,
    fee_currency_of, nth_id, lemma_posted_count_bound,
    exchange_withdrawal_written,
};
use crate::converter::{
    convert_transaction, count_exchange_legs, first_chain, first_of_kind, first_pending,
    is_exchange_leg, same_gid, spec_convert,
    TransactionOut,
};
use crate::ledger::{base_tx_error, post_error, totals_fit, Ledger};
use crate::model::{
    Account, AccountId, BlockchainTransactionId, CreateTransactionInput, ErrorKind,
    Currency, ExchangeRate, PendingBlockchainTransaction, Transaction,
    TransactionGroupKind, TransactionId, TransactionKind, TransactionStatus, UserId,
};

verus! {

/// Postings of a group are fetched at most this many per record.
pub const MAX_TRANSACTIONS_PER_TRANSACTION_OUT: usize = 3;

/// An account with its current balance.
#[derive(Clone, Debug, PartialEq, Eq)]
pub struct AccountWithBalance {
    pub account: Account,
    pub balance: u128,
}

/// `Pending` as soon as one status is `Pending`, else `Done`.
pub open spec fn folded_status(s: Seq<TransactionStatus>) -> TransactionStatus {
    if exists|i: int| 0 <= i < s.len() && s[i] == TransactionStatus::Pending {
        TransactionStatus::Pending
    } else {
        TransactionStatus::Done
    }
}

pub fn fold_statuses(statuses: &Vec<TransactionStatus>) -> (r: TransactionStatus)
    ensures
        r == folded_status(statuses@),
{
    let mut acc = TransactionStatus::Done;
    let mut i: usize = 0;
    while i < statuses.len()
        invariant
            i <= statuses@.len(),
            acc == folded_status(statuses@.take(i as int)),
        decreases statuses@.len() - i,
    {
        proof {
            let t = statuses@.take(i + 1);
            if acc == TransactionStatus::Pending {
                let k = choose|k: int|
                    0 <= k < i && statuses@.take(i as int)[k] == TransactionStatus::Pending;
                assert(t[k] == TransactionStatus::Pending);
            }
            assert(t[i as int] == statuses@[i as int]);
            if statuses@[i as int] != TransactionStatus::Pending && acc == TransactionStatus::Done {
                assert forall|k: int| 0 <= k < t.len() implies t[k] != TransactionStatus::Pending by {
                    if k < i {
                        assert(t[k] == statuses@.take(i as int)[k]);
                    }
                }
            }
        }
        if acc == TransactionStatus::Pending || statuses[i] == TransactionStatus::Pending {
            acc = TransactionStatus::Pending;
        }
        i = i + 1;
    }
    proof {
        assert(statuses@.take(statuses@.len() as int) =~= statuses@);
    }
    acc
}

/// The postings of `s` that belong to group `gid`, in order.
pub open spec fn with_gid(s: Seq<Transaction>, gid: TransactionId) -> Seq<Transaction>
    decreases s.len(),
{
    if s.len() == 0 {
        Seq::empty()
    } else if s.last().gid == gid {
        with_gid(s.drop_last(), gid).push(s.last())
    } else {
        with_gid(s.drop_last(), gid)
    }
}

proof fn lemma_with_gid_push(s: Seq<Transaction>, t: Transaction, gid: TransactionId)
    ensures
        with_gid(s.push(t), gid) == if t.gid == gid {
            with_gid(s, gid).push(t)
        } else {
            with_gid(s, gid)
        },
{
    assert(s.push(t).drop_last() =~= s);
}

proof fn lemma_with_gid_absent(s: Seq<Transaction>, gid: TransactionId)
    requires
        forall|i: int| 0 <= i < s.len() ==> s[i].gid != gid,
    ensures
        with_gid(s, gid).len() == 0,
    decreases s.len(),
{
    if s.len() > 0 {
        lemma_with_gid_absent(s.drop_last(), gid);
    }
}

proof fn lemma_with_gid_all(s: Seq<Transaction>, gid: TransactionId)
    ensures
        forall|i: int| 0 <= i < with_gid(s, gid).len() ==> (#[trigger] with_gid(s, gid)[i]).gid == gid,
    decreases s.len(),
{
    if s.len() > 0 {
        lemma_with_gid_all(s.drop_last(), gid);
    }
}

/// All postings of group `gid`.
pub fn get_by_gid(txs: &Vec<Transaction>, gid: TransactionId) -> (r: Vec<Transaction>)
    ensures
        r@ == with_gid(txs@, gid),
{
    let mut res: Vec<Transaction> = Vec::new();
    let mut i: usize = 0;
    while i < txs.len()
        invariant
            i <= txs@.len(),
            res@ == with_gid(txs@.take(i as int), gid),
        decreases txs@.len() - i,
    {
        proof {
            assert(txs@.take(i + 1) =~= txs@.take(i as int).push(txs@[i as int]));
            lemma_with_gid_push(txs@.take(i as int), txs@[i as int], gid);
        }
        if txs[i].gid == gid {
            res.push(txs[i].duplicate());
        }
        i = i + 1;
    }
    proof {
        assert(txs@.take(txs@.len() as int) =~= txs@);
    }
    res
}

proof fn lemma_with_gid_present(s: Seq<Transaction>, gid: TransactionId, m: int)
    requires
        0 <= m < s.len(),
        s[m].gid == gid,
    ensures
        with_gid(s, gid).len() > 0,
    decreases s.len(),
{
    if m < s.len() - 1 {
        lemma_with_gid_present(s.drop_last(), gid, m);
    }
}

pub open spec fn gid_used(s: Seq<Transaction>, gid: TransactionId) -> bool {
    exists|m: int| 0 <= m < s.len() && s[m].gid == gid
}

/// Whether some group of `gs` has group id `gid`.
pub open spec fn has_group(gs: Seq<Vec<Transaction>>, gid: TransactionId) -> bool {
    exists|j: int| 0 <= j < gs.len() && (#[trigger] gs[j])@[0].gid == gid
}

fn contains_gid(gids: &Vec<TransactionId>, gid: TransactionId) -> (r: bool)
    ensures
        r == gids@.contains(gid),
{
    let mut k: usize = 0;
    while k < gids.len()
        invariant
            k <= gids@.len(),
            forall|q: int| 0 <= q < k ==> gids@[q] != gid,
        decreases gids@.len() - k,
    {
        if gids[k] == gid {
            return true;
        }
        k = k + 1;
    }
    false
}

/// The group ids of `s`, each once, in the order they first appear.
pub open spec fn gid_order(s: Seq<Transaction>) -> Seq<TransactionId>
    decreases s.len(),
{
    if s.len() == 0 {
        Seq::empty()
    } else if gid_order(s.drop_last()).contains(s.last().gid) {
        gid_order(s.drop_last())
    } else {
        gid_order(s.drop_last()).push(s.last().gid)
    }
}

/// Splits postings into their groups, in the order each group first appears.
pub fn group_transactions(txs: &Vec<Transaction>) -> (r: Vec<Vec<Transaction>>)
    ensures
        forall|j: int|
            0 <= j < r@.len() ==> (#[trigger] r@[j])@.len() > 0 && r@[j]@ == with_gid(
                txs@,
                r@[j]@[0].gid,
            ),
        forall|j: int, k: int| 0 <= j < k < r@.len() ==> r@[j]@[0].gid != r@[k]@[0].gid,
        forall|i: int| 0 <= i < txs@.len() ==> has_group(r@, #[trigger] txs@[i].gid),
        r@.len() == gid_order(txs@).len(),
        forall|j: int| 0 <= j < r@.len() ==> (#[trigger] r@[j])@ == with_gid(txs@, gid_order(txs@)[j]),
{
    let mut gids: Vec<TransactionId> = Vec::new();
    let mut i: usize = 0;
    while i < txs.len()
        invariant
            i <= txs@.len(),
            gids@.no_duplicates(),
            forall|m: int| 0 <= m < i ==> gids@.contains(#[trigger] txs@[m].gid),
            forall|q: int| 0 <= q < gids@.len() ==> gid_used(txs@, #[trigger] gids@[q]),
            gids@ == gid_order(txs@.take(i as int)),
        decreases txs@.len() - i,
    {
        let gid = txs[i].gid;
        proof {
            assert(txs@.take(i + 1).drop_last() =~= txs@.take(i as int));
        }
        if !contains_gid(&gids, gid) {
            let ghost g0 = gids@;
            gids.push(gid);
            proof {
                assert forall|m: int| 0 <= m < i implies gids@.contains(#[trigger] txs@[m].gid) by {
                    let q = choose|q: int| 0 <= q < g0.len() && g0[q] == txs@[m].gid;
                    assert(gids@[q] == g0[q]);
                }
                assert(gids@[g0.len() as int] == gid);
                assert forall|q: int| 0 <= q < gids@.len() implies gid_used(txs@, #[trigger] gids@[q]) by {
                    if q < g0.len() {
                        assert(gids@[q] == g0[q]);
                    } else {
                        assert(txs@[i as int].gid == gids@[q]);
                    }
                }
            }
        }
        proof {
            assert(gids@.contains(txs@[i as int].gid));
        }
        i = i + 1;
    }
    proof {
        assert(txs@.take(txs@.len() as int) =~= txs@);
    }
    let mut groups: Vec<Vec<Transaction>> = Vec::new();
    let mut j: usize = 0;
    while j < gids.len()
        invariant
            j <= gids@.len(),
            groups@.len() == j,
            gids@.no_duplicates(),
            forall|q: int| 0 <= q < gids@.len() ==> gid_used(txs@, #[trigger] gids@[q]),
            forall|m: int| 0 <= m < txs@.len() ==> gids@.contains(#[trigger] txs@[m].gid),
            gids@ == gid_order(txs@),
            forall|q: int|
                0 <= q < j ==> (#[trigger] groups@[q])@.len() > 0 && groups@[q]@ == with_gid(
                    txs@,
                    gids@[q],
                ) && groups@[q]@[0].gid == gids@[q],
        decreases gids@.len() - j,
    {
        let g = get_by_gid(txs, gids[j]);
        proof {
            assert(gid_used(txs@, gids@[j as int]));
            let m = choose|m: int| 0 <= m < txs@.len() && txs@[m].gid == gids@[j as int];
            lemma_with_gid_present(txs@, gids@[j as int], m);
            lemma_with_gid_all(txs@, gids@[j as int]);
            assert(g@[0].gid == gids@[j as int]);
        }
        groups.push(g);
        j = j + 1;
    }
    proof {
        assert forall|i: int| 0 <= i < txs@.len() implies has_group(groups@, #[trigger] txs@[i].gid) by {
            let q = choose|q: int| 0 <= q < gids@.len() && gids@[q] == txs@[i].gid;
            assert(groups@[q]@[0].gid == txs@[i].gid);
        }
    }
    groups
}

proof fn lemma_first_of_kind_at(g: Seq<Transaction>, k: TransactionKind, idx: int)
    requires
        0 <= idx < g.len(),
        g[idx].kind == k,
        forall|j: int| 0 <= j < idx ==> (#[trigger] g[j]).kind != k,
    ensures
        first_of_kind(g, k) == Some(g[idx]),
    decreases idx,
{
    if idx > 0 {
        let rest = g.subrange(1, g.len() as int);
        assert forall|j: int| 0 <= j < idx - 1 implies (#[trigger] rest[j]).kind != k by {
            assert(rest[j] == g[j + 1]);
        }
        lemma_first_of_kind_at(rest, k, idx - 1);
    }
}

proof fn lemma_first_of_kind_none(g: Seq<Transaction>, k: TransactionKind)
    requires
        forall|j: int| 0 <= j < g.len() ==> (#[trigger] g[j]).kind != k,
    ensures
        first_of_kind(g, k) is None,
    decreases g.len(),
{
    if g.len() > 0 {
        let rest = g.subrange(1, g.len() as int);
        assert forall|j: int| 0 <= j < rest.len() implies (#[trigger] rest[j]).kind != k by {
            assert(rest[j] == g[j + 1]);
        }
        lemma_first_of_kind_none(rest, k);
    }
}

proof fn lemma_fresh_first(old_l: &Ledger, new_l: &Ledger, txs: Seq<Transaction>)
    requires
        new_l.wf(),
        new_l.transactions@ == old_l.transactions@ + txs,
        txs.len() > 0,
    ensures
        !old_l.has_tx_id(txs[0].id),
        new_l.has_tx_id(txs[0].id),
{
    let n = old_l.transactions@.len();
    assert(new_l.transactions@[n as int] == txs[0]);
    if old_l.has_tx_id(txs[0].id) {
        let p = choose|p: int|
            0 <= p < old_l.transactions@.len() && old_l.transactions@[p].id == txs[0].id;
        assert(new_l.transactions@[p] == old_l.transactions@[p]);
    }
}

proof fn lemma_first_pending_some(s: Seq<PendingBlockchainTransaction>, h: Seq<char>, i: int)
    requires
        0 <= i < s.len(),
        s[i].hash@ == h,
    ensures
        first_pending(s, h) is Some,
    decreases i,
{
    if i > 0 && s[0].hash@ != h {
        let rest = s.subrange(1, s.len() as int);
        assert(rest[i - 1] == s[i]);
        lemma_first_pending_some(rest, h, i - 1);
    }
}

proof fn lemma_count_legs_none(g: Seq<Transaction>)
    requires
        forall|j: int| 0 <= j < g.len() ==> !is_exchange_leg(#[trigger] g[j]),
    ensures
        count_exchange_legs(g) == 0,
    decreases g.len(),
{
    if g.len() > 0 {
        let rest = g.subrange(1, g.len() as int);
        assert forall|j: int| 0 <= j < rest.len() implies !is_exchange_leg(#[trigger] rest[j]) by {
            assert(rest[j] == g[j + 1]);
        }
        lemma_count_legs_none(rest);
    }
}

/// A group made of the two exchange legs, withdrawal legs and a closing fee,
/// all of one group, converts once its first hash can be located.
proof fn lemma_exchange_withdrawal_converts(l: &Ledger, g: Seq<Transaction>, h: Seq<char>, pi: int)
    requires
        l.wf(),
        g.len() >= 4,
        forall|j: int|
            0 <= j < g.len() ==> l.has_account((#[trigger] g[j]).dr_account_id) && l.has_account(
                g[j].cr_account_id,
            ),
        g[0].kind == TransactionKind::MultiFrom,
        g[1].kind == TransactionKind::MultiTo,
        forall|j: int| 2 <= j < g.len() - 1 ==> (#[trigger] g[j]).kind == TransactionKind::Withdrawal,
        g[g.len() - 1].kind == TransactionKind::Fee,
        forall|j: int| 0 <= j < g.len() ==> (#[trigger] g[j]).gid == g[0].gid,
        g[0].group_kind == TransactionGroupKind::WithdrawalMulti,
        g[2].blockchain_tx_id matches Some(x) && x@ == h,
        first_chain(l.chain@, h) is None,
        0 <= pi < l.pending@.len(),
        l.pending@[pi].hash@ == h,
    ensures
        spec_convert(l, g) is Some,
{
    let n = g.len() as int;
    lemma_first_of_kind_at(g, TransactionKind::MultiFrom, 0);
    lemma_first_of_kind_at(g, TransactionKind::MultiTo, 1);
    lemma_first_of_kind_at(g, TransactionKind::Withdrawal, 2);
    lemma_first_of_kind_at(g, TransactionKind::Fee, n - 1);
    lemma_first_pending_some(l.pending@, h, pi);
    let r1 = g.subrange(1, n);
    let r2 = r1.subrange(1, r1.len() as int);
    assert forall|j: int| 0 <= j < r2.len() implies !is_exchange_leg(#[trigger] r2[j]) by {
        assert(r2[j] == g[j + 2]);
    }
    lemma_count_legs_none(r2);
    assert(r1[0] == g[1]);
    assert(is_exchange_leg(r1[0]));
    assert(is_exchange_leg(g[0]));
    assert(count_exchange_legs(r1) == count_exchange_legs(r2) + 1);
    assert(count_exchange_legs(g) == count_exchange_legs(r1) + 1);
    assert(same_gid(g));
}

proof fn lemma_exchange_group(
    l0: &Ledger,
    l: &Ledger,
    n0: int,
    g: Seq<Transaction>,
    input: CreateTransactionInput,
    from: Account,
    c: Currency,
    rate: ExchangeRate,
    takes: Seq<WithdrawalTake>,
    outcomes: Seq<Option<BlockchainTransactionId>>,
    now: u64,
)
    requires
        l.wf(),
        n0 == l0.transactions@.len(),
        l.transactions@ == l0.transactions@ + g,
        l.chain@ == l0.chain@,
        l.accounts@ == l0.accounts@,
        l.system == l0.system,
        l.pending@.len() > l0.pending@.len() ==> l.pending@[l0.pending@.len() as int].hash
            == outcome_at(outcomes, 0)->Some_0,
        exchange_withdrawal_written(l0, l.transactions@, input, from, c, rate, takes, outcomes, now),
        outcome_at(outcomes, 0) is Some,
        l.pending@.len() > l0.pending@.len(),
    ensures
        g.len() >= 4 && g.last().kind == TransactionKind::Fee && first_chain(
            l0.chain@,
            outcome_at(outcomes, 0)->Some_0@,
        ) is None ==> spec_convert(l, g) is Some,
{
    let n = g.len() as int;
    if n >= 4 && g.last().kind == TransactionKind::Fee && first_chain(
        l0.chain@,
        outcome_at(outcomes, 0)->Some_0@,
    ) is None {
        let transfer = l0.account(l0.system.spec_transfer(c));
        let lv = leg_values(input, from.currency, c, rate);
        let w_input = transfer_input(input, transfer.id, lv->Ok_0.1, c);
        let ov = transfer_overrides(input, from);
        let p1 = exchange_posting(
            input,
            input.id,
            from,
            l0.system.spec_liquidity(from.currency),
            lv->Ok_0.0,
            TransactionKind::MultiFrom,
            TransactionGroupKind::WithdrawalMulti,
        );
        let p2 = exchange_posting(
            input,
            input.id.spec_next(),
            transfer,
            l0.system.spec_liquidity(c),
            lv->Ok_0.1,
            TransactionKind::MultiTo,
            TransactionGroupKind::WithdrawalMulti,
        );
        let s2 = l0.transactions@.push(Transaction::stored(p1, now)).push(Transaction::stored(p2, now));
        let wp = withdrawal_postings(l0, s2, w_input, ov, transfer, c, takes, outcomes, now);
        assert(l.transactions@ == s2 + wp);
        assert(g =~= seq![Transaction::stored(p1, now), Transaction::stored(p2, now)] + wp) by {
            assert(g =~= l.transactions@.subrange(n0, n0 + n));
        }
        let k = broadcast_count(outcomes, 0, takes.len() as int);
        let legs = withdrawal_legs(w_input, ov, transfer, c, takes, outcomes, k);
        let m = posted_count(l0, s2, legs, now);
        let posted = Seq::new(m, |j: int| Transaction::stored(legs[j], now));
        lemma_posted_count_bound(l0, s2, legs, now);
        let fee = fee_posting(
            w_input,
            ov,
            transfer,
            l0.system.spec_fees(fee_currency_of(transfer, ov)),
            nth_id(w_input.id, m),
        );
        let fee_ok = post_error(l0, s2 + posted, fee) is None;
        assert(wp == if fee_ok {
            posted.push(Transaction::stored(fee, now))
        } else {
            posted
        });
        assert forall|j: int| 0 <= j < m implies (#[trigger] posted[j]).kind
            == TransactionKind::Withdrawal && posted[j].gid == input.id by {}
        if !fee_ok {
            if m > 0 {
                assert(g.last() == posted[m - 1]);
            }
        }
        assert(fee_ok);
        assert(m >= 1);
        assert(g.last() == Transaction::stored(fee, now));
        assert forall|j: int| 2 <= j < n - 1 implies (#[trigger] g[j]).kind
            == TransactionKind::Withdrawal by {
            assert(g[j] == posted[j - 2]);
        }
        assert forall|j: int| 0 <= j < n implies (#[trigger] g[j]).gid == g[0].gid by {
            if j >= 2 && j < n - 1 {
                assert(g[j] == posted[j - 2]);
            }
        }
        assert(g[2] == posted[0]);
        assert forall|j: int| 0 <= j < n implies l.has_account((#[trigger] g[j]).dr_account_id)
            && l.has_account(g[j].cr_account_id) by {
            assert(g[j] == l.transactions@[n0 + j]);
        }
        lemma_exchange_withdrawal_converts(
            l,
            g,
            outcome_at(outcomes, 0)->Some_0@,
            l0.pending@.len() as int,
        );
    }
}

/// The settings of a plain withdrawal.
pub open spec fn no_overrides() -> WithdrawalOverrides {
    WithdrawalOverrides {
        gid: None,
        kind: None,
        group_kind: None,
        fee_currency: None,
        fee_payer_account_id: None,
    }
}

/// Whether a classification is one of the two withdrawals, whose group is kept
/// once a leg was broadcast.
pub open spec fn is_withdrawal(t: Result<TransactionType, ErrorKind>) -> bool {
    t matches Ok(TransactionType::Withdrawal(..)) || t matches Ok(
        TransactionType::WithdrawalExchange(..),
    )
}

/// Carries out a request: authenticates, classifies, writes the postings, and
/// returns the record rebuilt from them. A local exchange also returns the
/// request the caller must then send to the exchange provider; should that fail,
/// the caller undoes the group. `takes` are the deposit accounts chosen to pay a
/// withdrawal and `outcomes` the results of broadcasting its legs, made after
/// `check_withdrawal` passed; once a leg was broadcast its group is kept, even
/// when no record can be rebuilt from it.
#[verifier::rlimit(100)]
pub fn create_transaction(
    l: &mut Ledger,
    auth: Option<UserId>,
    input: &CreateTransactionInput,
    takes: &Vec<WithdrawalTake>,
    outcomes: &Vec<Option<BlockchainTransactionId>>,
    now: u64,
) -> (r: Result<(TransactionOut, Option<ExchangeInput>), ErrorKind>)
    requires
        old(l).wf(),
    ensures
        final(l).wf(),
        r is Err ==> final(l).unchanged(old(l)) || (auth is Some && is_withdrawal(
            spec_classify(old(l), *input, spec_recipient_id(*input)),
        ) && !old(l).has_tx_id(input.id) && outcome_at(outcomes@, 0) is Some),
        auth is None ==> r == Err::<(TransactionOut, Option<ExchangeInput>), ErrorKind>(
            ErrorKind::Unauthorized,
        ),
        auth is Some ==> (spec_classify(old(l), *input, spec_recipient_id(*input)) matches Err(e)
            ==> r == Err::<(TransactionOut, Option<ExchangeInput>), ErrorKind>(e)),
        auth is Some && spec_classify(old(l), *input, spec_recipient_id(*input)) is Ok && old(
            l,
        ).has_tx_id(input.id) ==> r == Err::<(TransactionOut, Option<ExchangeInput>), ErrorKind>(
            ErrorKind::Internal,
        ) && final(l).unchanged(old(l)),
        r is Ok ==> !old(l).has_tx_id(input.id) && final(l).has_tx_id(input.id),
        r matches Ok((out, _)) ==> old(l).transactions@.len() < final(l).transactions@.len()
            && out@ == spec_convert(
            final(l),
            final(l).transactions@.subrange(
                old(l).transactions@.len() as int,
                final(l).transactions@.len() as int,
            ),
        )->Some_0,
        auth is Some && !old(l).has_tx_id(input.id) ==> match spec_classify(
            old(l),
            *input,
            spec_recipient_id(*input),
        ) {
            Ok(TransactionType::Internal(from, to)) => {
                let p = internal_posting(*input, from, to);
                &&& r is Ok <==> base_tx_error(old(l), p) is None
                &&& r is Ok ==> final(l).transactions@ == old(l).transactions@.push(
                    Transaction::stored(p, now),
                )
            },
            Ok(TransactionType::InternalExchange(from, to, eid, rate)) => {
                let lv = leg_values(*input, from.currency, to.currency, rate);
                let liq_from = old(l).system.spec_liquidity(from.currency);
                let liq_to = old(l).system.spec_liquidity(to.currency);
                let p1 = exchange_posting(
                    *input,
                    input.id,
                    from,
                    liq_from,
                    lv->Ok_0.0,
                    TransactionKind::MultiFrom,
                    TransactionGroupKind::InternalMulti,
                );
                let p2 = exchange_posting(
                    *input,
                    input.id.spec_next(),
                    to,
                    liq_to,
                    lv->Ok_0.1,
                    TransactionKind::MultiTo,
                    TransactionGroupKind::InternalMulti,
                );
                let s1 = old(l).transactions@.push(Transaction::stored(p1, now));
                &&& lv is Ok && old(l).has_account(liq_from) && old(l).has_account(liq_to)
                    && base_tx_error(old(l), p1) is None && post_error(old(l), s1, p2) is None
                    ==> r is Ok
                &&& r is Ok ==> final(l).transactions@ == s1.push(Transaction::stored(p2, now))
            },
            Ok(TransactionType::Withdrawal(from, addr, c)) => {
                let wc = withdrawal_check(old(l), *input, from, c, no_overrides(), takes@);
                let wp = withdrawal_postings(
                    old(l),
                    old(l).transactions@,
                    *input,
                    no_overrides(),
                    from,
                    c,
                    takes@,
                    outcomes@,
                    now,
                );
                &&& wc matches Some(e) ==> r == Err::<
                    (TransactionOut, Option<ExchangeInput>),
                    ErrorKind,
                >(e)
                &&& wc is None && takes@.len() > 0 && outcome_at(outcomes@, 0) is None ==> r
                    == Err::<(TransactionOut, Option<ExchangeInput>), ErrorKind>(
                    ErrorKind::Internal,
                )
                &&& wc is None && takes@.len() > 0 && outcome_at(outcomes@, 0) is Some
                    ==> final(l).transactions@ == old(l).transactions@ + wp
                &&& wc is None && takes@.len() > 0 && outcome_at(outcomes@, 0) is Some
                    && wp.len() >= 2 && wp.last().kind == TransactionKind::Fee && first_chain(
                    old(l).chain@,
                    outcome_at(outcomes@, 0)->Some_0@,
                ) is None ==> r is Ok
            },
            Ok(TransactionType::WithdrawalExchange(from, addr, c, eid, rate)) => {
                let ready = exchange_withdrawal_ready(old(l), *input, from, c, rate, takes@, now)
                    && takes@.len() > 0 && outcome_at(outcomes@, 0) is Some;
                &&& ready ==> exchange_withdrawal_written(
                    old(l),
                    final(l).transactions@,
                    *input,
                    from,
                    c,
                    rate,
                    takes@,
                    outcomes@,
                    now,
                )
                &&& ready && final(l).transactions@.len() >= old(l).transactions@.len() + 4
                    && final(l).transactions@.last().kind == TransactionKind::Fee && first_chain(
                    old(l).chain@,
                    outcome_at(outcomes@, 0)->Some_0@,
                ) is None ==> r is Ok
            },
            _ => true,
        },
        r matches Ok((out, ex)) ==> match spec_classify(
            old(l),
            *input,
            spec_recipient_id(*input),
        ) {
            Ok(TransactionType::Internal(from, to)) => {
                &&& ex is None
                &&& out.id == input.id
                &&& out.from_value == input.value
                &&& out.to_value == input.value
                &&& out.from_currency == from.currency
                &&& out.to_currency == from.currency
                &&& out.fee == 0
                &&& out.status == TransactionStatus::Done
            },
            Ok(TransactionType::InternalExchange(from, to, eid, rate)) => {
                &&& ex == Some(exchange_request(*input, from, to, eid, rate))
                &&& out.id == input.id
                &&& out.from_value == leg_values(*input, from.currency, to.currency, rate)->Ok_0.0
                &&& out.to_value == leg_values(*input, from.currency, to.currency, rate)->Ok_0.1
                &&& out.from_currency == from.currency
                &&& out.to_currency == to.currency
                &&& out.status == TransactionStatus::Done
            },
            Ok(TransactionType::Withdrawal(from, addr, c)) => {
                &&& ex is None
                &&& out.id == input.id
                &&& out.from_value == takes@[0].value
                &&& out.from_currency == c
                &&& out.fee == input.fee
                &&& out.status == TransactionStatus::Pending
                &&& out.blockchain_tx_id == outcome_at(outcomes@, 0)
            },
            Ok(TransactionType::WithdrawalExchange(..)) => ex is Some,
            Err(_) => false,
        },
{
    if auth.is_none() {
        return Err(ErrorKind::Unauthorized);
    }
    let tx_type = match validate_and_classify_transaction(l, input) {
        Ok(t) => t,
        Err(e) => return Err(e),
    };
    if l.contains_tx_id(input.id) {
        return Err(ErrorKind::Internal);
    }
    let ghost l0 = *l;
    let n0 = l.transactions.len();
    let p0 = l.pending.len();
    let (txs, ex, kept) = match tx_type {
        TransactionType::Internal(from, to) => {
            match create_internal_mono_currency_tx(l, input, &from, &to, now) {
                Ok(t) => {
                    let mut v: Vec<Transaction> = Vec::new();
                    v.push(t);
                    proof {
                        assert(l.transactions@ =~= l0.transactions@ + v@);
                        assert(l.transactions@[n0 as int] == v@[0]);
                        assert(l.has_account(l.transactions@[n0 as int].dr_account_id));
                    }
                    (v, None, false)
                },
                Err(e) => return Err(e),
            }
        },
        TransactionType::Withdrawal(from, addr, c) => {
            let ov = WithdrawalOverrides {
                gid: None,
                kind: None,
                group_kind: None,
                fee_currency: None,
                fee_payer_account_id: None,
            };
            match create_external_mono_currency_tx(l, input, &from, &addr, c, ov, takes, outcomes, now) {
                Ok(v) => (v, None, true),
                Err(e) => return Err(e),
            }
        },
        TransactionType::InternalExchange(from, to, eid, rate) => {
            match create_internal_multi_currency_tx(
                l,
                input,
                &from,
                &to,
                eid,
                rate,
                TransactionGroupKind::InternalMulti,
                now,
            ) {
                Ok((v, ex)) => {
                    proof {
                        assert(l.transactions@[n0 as int] == v@[0]);
                        assert(l.transactions@[n0 + 1] == v@[1]);
                        assert(l.has_account(l.transactions@[n0 as int].dr_account_id));
                        assert(l.has_account(l.transactions@[n0 + 1].cr_account_id));
                    }
                    (v, Some(ex), false)
                },
                Err(e) => return Err(e),
            }
        },
        TransactionType::WithdrawalExchange(from, addr, c, eid, rate) => {
            match create_external_multi_currency_tx(
                l,
                input,
                &from,
                &addr,
                c,
                eid,
                rate,
                takes,
                outcomes,
                now,
            ) {
                Ok((v, ex)) => (v, Some(ex), true),
                Err(e) => return Err(e),
            }
        },
    };
    proof {
        assert(l.transactions@.subrange(n0 as int, l.transactions@.len() as int) =~= txs@);
        assert(l.transactions@ =~= l0.transactions@ + txs@);
        let g = txs@;
        let n = g.len() as int;
        match spec_classify(&l0, *input, spec_recipient_id(*input)) {
            Ok(TransactionType::Withdrawal(from, addr, c)) => {
                let k = broadcast_count(outcomes@, 0, takes@.len() as int);
                let legs = withdrawal_legs(*input, no_overrides(), from, c, takes@, outcomes@, k);
                let m = posted_count(&l0, l0.transactions@, legs, now);
                assert forall|j: int| 0 <= j < m implies (#[trigger] g[j]).kind
                    == TransactionKind::Withdrawal by {
                    assert(g[j] == Transaction::stored(legs[j], now));
                }
                if m >= 1 {
                    lemma_first_of_kind_at(g, TransactionKind::Withdrawal, 0);
                } else {
                    lemma_first_of_kind_none(g, TransactionKind::Withdrawal);
                }
                if n == m + 1 {
                    lemma_first_of_kind_at(g, TransactionKind::Fee, n - 1);
                } else {
                    lemma_first_of_kind_none(g, TransactionKind::Fee);
                }
                if n >= 2 && g[n - 1].kind == TransactionKind::Fee {
                    assert(l.transactions@[n0 as int] == g[0]);
                    assert(l.has_account(l.transactions@[n0 as int].dr_account_id));
                    assert(l.pending@[l0.pending@.len() + 0int].hash == outcome_at(outcomes@, 0)->Some_0);
                    lemma_first_pending_some(
                        l.pending@,
                        outcome_at(outcomes@, 0)->Some_0@,
                        l0.pending@.len() as int,
                    );
                }
            },
            Ok(TransactionType::InternalExchange(from, to, eid, rate)) => {
                lemma_first_of_kind_at(g, TransactionKind::MultiFrom, 0);
                lemma_first_of_kind_at(g, TransactionKind::MultiTo, 1);
            },
            Ok(TransactionType::WithdrawalExchange(from, addr, c, eid, rate)) => {
                lemma_exchange_group(&l0, l, n0 as int, g, *input, from, c, rate, takes@, outcomes@, now);
            },
            _ => {},
        }
    }
    match convert_transaction(l, &txs) {
        Ok(out) => {
            proof {
                lemma_fresh_first(&l0, l, txs@);
            }
            Ok((out, ex))
        },
        Err(e) => {
            if !kept {
                l.truncate_postings(n0);
                l.truncate_pending(p0);
                proof {
                    assert(l.transactions@ =~= l0.transactions@);
                    assert(l.pending@ =~= l0.pending@);
                }
            }
            Err(e)
        },
    }
}

/// Reads a transaction: the record of the group that posting `id` belongs to,
/// for its owner only.
pub fn get_transaction(l: &Ledger, auth: Option<UserId>, id: TransactionId) -> (r: Result<
    Option<TransactionOut>,
    ErrorKind,
>)
    requires
        l.wf(),
    ensures
        auth is None ==> r == Err::<Option<TransactionOut>, ErrorKind>(ErrorKind::Unauthorized),
        auth is Some && !l.has_tx_id(id) ==> r == Ok::<Option<TransactionOut>, ErrorKind>(None),
        auth matches Some(u) && l.has_tx_id(id) && l.posting(id).user_id != u ==> r == Err::<
            Option<TransactionOut>,
            ErrorKind,
        >(ErrorKind::Unauthorized),
        auth matches Some(u) && l.has_tx_id(id) && l.posting(id).user_id == u ==> {
            let group = with_gid(l.transactions@, l.posting(id).gid);
            &&& r is Ok <==> spec_convert(l, group) is Some
            &&& r is Err ==> r == Err::<Option<TransactionOut>, ErrorKind>(ErrorKind::Internal)
            &&& r matches Ok(Some(out)) ==> out@ == spec_convert(l, group)->Some_0
            &&& r matches Ok(o) ==> o is Some
        },
{
    let user = match auth {
        Some(u) => u,
        None => return Err(ErrorKind::Unauthorized),
    };
    let i = match l.find_transaction(id) {
        Some(i) => i,
        None => return Ok(None),
    };
    let tx = &l.transactions[i];
    if tx.user_id != user {
        return Err(ErrorKind::Unauthorized);
    }
    let group = get_by_gid(&l.transactions, tx.gid);
    match convert_transaction(l, &group) {
        Ok(out) => Ok(Some(out)),
        Err(e) => Err(e),
    }
}

/// The balance shown for an account: its signed balance, or zero when that is negative.
pub open spec fn shown_balance(l: &Ledger, id: AccountId) -> int {
    if l.balance(id) < 0 {
        0
    } else {
        l.balance(id)
    }
}

/// Reads an account's balance, for its owner only.
pub fn get_account_balance(l: &Ledger, auth: Option<UserId>, account_id: AccountId) -> (r: Result<
    AccountWithBalance,
    ErrorKind,
>)
    requires
        l.wf(),
    ensures
        auth is None ==> r == Err::<AccountWithBalance, ErrorKind>(ErrorKind::Unauthorized),
        auth is Some && !l.has_account(account_id) ==> r == Err::<AccountWithBalance, ErrorKind>(
            ErrorKind::NotFound,
        ),
        auth matches Some(u) && l.has_account(account_id) && l.account(account_id).user_id != u
            ==> r == Err::<AccountWithBalance, ErrorKind>(ErrorKind::Unauthorized),
        auth matches Some(u) && l.has_account(account_id) && l.account(account_id).user_id == u
            ==> {
            &&& r is Ok <==> totals_fit(l.transactions@, account_id)
            &&& r is Err ==> r == Err::<AccountWithBalance, ErrorKind>(ErrorKind::Internal)
            &&& r matches Ok(ab) ==> ab.account == l.account(account_id) && ab.balance
                == shown_balance(l, account_id)
        },
{
    let user = match auth {
        Some(u) => u,
        None => return Err(ErrorKind::Unauthorized),
    };
    let account = match l.find_account(account_id) {
        Some(a) => a,
        None => return Err(ErrorKind::NotFound),
    };
    if account.user_id != user {
        return Err(ErrorKind::Unauthorized);
    }
    let (c, d) = match l.totals(account_id) {
        Some(p) => p,
        None => return Err(ErrorKind::Internal),
    };
    let balance = match account.kind {
        crate::model::AccountKind::Cr => if c >= d {
            c - d
        } else {
            0
        },
        crate::model::AccountKind::Dr => if d >= c {
            d - c
        } else {
            0
        },
    };
    Ok(AccountWithBalance { account, balance })
}

/// The postings of `s` that `keep` selects, in order.
pub open spec fn selected(s: Seq<Transaction>, keep: spec_fn(Transaction) -> bool) -> Seq<
    Transaction,
>
    decreases s.len(),
{
    if s.len() == 0 {
        Seq::empty()
    } else if keep(s.last()) {
        selected(s.drop_last(), keep).push(s.last())
    } else {
        selected(s.drop_last(), keep)
    }
}

/// A page of `s`: at most `count` items after skipping `offset`.
pub open spec fn page(s: Seq<Transaction>, offset: int, count: int) -> Seq<Transaction> {
    let start = if offset < s.len() {
        offset
    } else {
        s.len() as int
    };
    let end = if start + count < s.len() {
        start + count
    } else {
        s.len() as int
    };
    s.subrange(start, end)
}

pub open spec fn of_user(u: UserId) -> spec_fn(Transaction) -> bool {
    |t: Transaction| t.user_id == u
}

pub open spec fn of_account(a: AccountId) -> spec_fn(Transaction) -> bool {
    |t: Transaction| t.dr_account_id == a || t.cr_account_id == a
}

/// A page of the postings of user `u` (for `Some(u)`) or of account `a`.
fn list_postings(
    txs: &Vec<Transaction>,
    user: Option<UserId>,
    account: AccountId,
    offset: usize,
    count: usize,
) -> (r: Vec<Transaction>)
    ensures
        user matches Some(u) ==> r@ == page(selected(txs@, of_user(u)), offset as int, count as int),
        user is None ==> r@ == page(
            selected(txs@, of_account(account)),
            offset as int,
            count as int,
        ),
{
    let ghost keep = match user {
        Some(u) => of_user(u),
        None => of_account(account),
    };
    let mut all: Vec<Transaction> = Vec::new();
    let mut i: usize = 0;
    while i < txs.len()
        invariant
            i <= txs@.len(),
            keep == (match user {
                Some(u) => of_user(u),
                None => of_account(account),
            }),
            all@ == selected(txs@.take(i as int), keep),
        decreases txs@.len() - i,
    {
        let t = &txs[i];
        proof {
            assert(txs@.take(i + 1).drop_last() =~= txs@.take(i as int));
        }
        let take = match user {
            Some(u) => t.user_id == u,
            None => t.dr_account_id == account || t.cr_account_id == account,
        };
        if take {
            all.push(t.duplicate());
        }
        i = i + 1;
    }
    proof {
        assert(txs@.take(txs@.len() as int) =~= txs@);
    }
    let start = if offset < all.len() {
        offset
    } else {
        all.len()
    };
    let end = if count < all.len() - start {
        start + count
    } else {
        all.len()
    };
    let mut res: Vec<Transaction> = Vec::new();
    let mut j: usize = start;
    while j < end
        invariant
            start <= j <= end,
            end <= all@.len(),
            res@ == all@.subrange(start as int, j as int),
        decreases end - j,
    {
        res.push(all[j].duplicate());
        proof {
            assert(res@ =~= all@.subrange(start as int, j + 1));
        }
        j = j + 1;
    }
    res
}

proof fn lemma_first_of_kind_in(g: Seq<Transaction>, k: TransactionKind)
    requires
        first_of_kind(g, k) is Some,
    ensures
        exists|i: int| 0 <= i < g.len() && g[i] == first_of_kind(g, k)->Some_0,
    decreases g.len(),
{
    if g[0].kind != k {
        let rest = g.subrange(1, g.len() as int);
        lemma_first_of_kind_in(rest, k);
        let i = choose|i: int| 0 <= i < rest.len() && rest[i] == first_of_kind(rest, k)->Some_0;
        assert(g[i + 1] == rest[i]);
    } else {
        assert(g[0] == first_of_kind(g, k)->Some_0);
    }
}

proof fn lemma_gid_of_kind(g: Seq<Transaction>, k: TransactionKind)
    requires
        same_gid(g),
        first_of_kind(g, k) is Some,
    ensures
        first_of_kind(g, k)->Some_0.gid == g[0].gid,
{
    lemma_first_of_kind_in(g, k);
    let i = choose|i: int| 0 <= i < g.len() && g[i] == first_of_kind(g, k)->Some_0;
    assert(g[i].gid == g[0].gid);
}

/// A record rebuilt from a group carries the group's id.
proof fn lemma_convert_id(l: &Ledger, g: Seq<Transaction>)
    requires
        spec_convert(l, g) is Some,
    ensures
        spec_convert(l, g)->Some_0.id == g[0].gid,
{
    if first_of_kind(g, TransactionKind::MultiFrom) is Some {
        lemma_gid_of_kind(g, TransactionKind::MultiFrom);
    }
    if first_of_kind(g, TransactionKind::Withdrawal) is Some {
        lemma_gid_of_kind(g, TransactionKind::Withdrawal);
    }
}

/// How many records a page of `limit` holds: one per group of `raw`, at most `limit`.
pub open spec fn page_len(raw: Seq<Transaction>, limit: int) -> int {
    if gid_order(raw).len() < limit {
        gid_order(raw).len() as int
    } else {
        limit
    }
}

/// Whether each of the first `limit` groups of `raw` yields a record.
pub open spec fn page_converts(l: &Ledger, raw: Seq<Transaction>, limit: int) -> bool {
    forall|j: int|
        0 <= j < page_len(raw, limit) ==> (#[trigger] spec_convert(
            l,
            with_gid(raw, gid_order(raw)[j]),
        )) is Some
}

/// Converts the first `limit` groups of `raw`.
fn convert_page(l: &Ledger, raw: &Vec<Transaction>, limit: usize) -> (r: Result<
    Vec<TransactionOut>,
    ErrorKind,
>)
    requires
        l.wf(),
    ensures
        r matches Ok(outs) ==> outs@.len() <= limit,
        r matches Ok(outs) ==> forall|j: int|
            0 <= j < outs@.len() ==> spec_convert(l, with_gid(raw@, (#[trigger] outs@[j]).id))
                == Some(outs@[j]@),
        r is Err ==> r == Err::<Vec<TransactionOut>, ErrorKind>(ErrorKind::Internal),
        r is Ok <==> page_converts(l, raw@, limit as int),
        r matches Ok(outs) ==> outs@.len() == page_len(raw@, limit as int) && forall|j: int|
            0 <= j < outs@.len() ==> Some((#[trigger] outs@[j])@) == spec_convert(
                l,
                with_gid(raw@, gid_order(raw@)[j]),
            ),
{
    let groups = group_transactions(raw);
    let mut outs: Vec<TransactionOut> = Vec::new();
    let mut j: usize = 0;
    while j < groups.len() && j < limit
        invariant
            l.wf(),
            outs@.len() == j,
            j <= limit,
            j <= groups@.len(),
            forall|q: int|
                0 <= q < groups@.len() ==> (#[trigger] groups@[q])@.len() > 0 && groups@[q]@
                    == with_gid(raw@, groups@[q]@[0].gid),
            forall|q: int|
                0 <= q < j ==> spec_convert(l, with_gid(raw@, (#[trigger] outs@[q]).id)) == Some(
                    outs@[q]@,
                ),
            groups@.len() == gid_order(raw@).len(),
            forall|q: int| 0 <= q < groups@.len() ==> (#[trigger] groups@[q])@ == with_gid(raw@, gid_order(raw@)[q]),
            forall|q: int|
                0 <= q < j ==> Some((#[trigger] outs@[q])@) == spec_convert(
                    l,
                    with_gid(raw@, gid_order(raw@)[q]),
                ),
        decreases groups@.len() - j,
    {
        let ghost outs0 = outs@;
        match convert_transaction(l, &groups[j]) {
            Ok(out) => {
                proof {
                    lemma_convert_id(l, groups@[j as int]@);
                }
                outs.push(out);
                proof {
                    assert forall|q: int| 0 <= q < j + 1 implies spec_convert(
                        l,
                        with_gid(raw@, (#[trigger] outs@[q]).id),
                    ) == Some(outs@[q]@) by {
                        if q < j {
                            assert(outs@[q] == outs0[q]);
                        }
                    }
                    assert forall|q: int| 0 <= q < j + 1 implies Some((#[trigger] outs@[q])@)
                        == spec_convert(l, with_gid(raw@, gid_order(raw@)[q])) by {
                        if q < j {
                            assert(outs@[q] == outs0[q]);
                        }
                    }
                }
            },
            Err(e) => {
                proof {
                    assert(spec_convert(l, with_gid(raw@, gid_order(raw@)[j as int])) is None);
                }
                return Err(e);
            },
        }
        j = j + 1;
    }
    proof {
        assert(j as int == page_len(raw@, limit as int));
        assert forall|q: int| 0 <= q < page_len(raw@, limit as int) implies (#[trigger] spec_convert(
            l,
            with_gid(raw@, gid_order(raw@)[q]),
        )) is Some by {
            assert(Some(outs@[q]@) == spec_convert(l, with_gid(raw@, gid_order(raw@)[q])));
        }
    }
    Ok(outs)
}

/// How many raw postings are read for a page of `limit` records.
pub open spec fn raw_count(limit: usize) -> int {
    if limit * MAX_TRANSACTIONS_PER_TRANSACTION_OUT <= usize::MAX {
        limit * MAX_TRANSACTIONS_PER_TRANSACTION_OUT
    } else {
        usize::MAX as int
    }
}

fn raw_limit(limit: usize) -> (r: usize)
    ensures
        r == raw_count(limit),
{
    match limit.checked_mul(MAX_TRANSACTIONS_PER_TRANSACTION_OUT) {
        Some(n) => n,
        None => usize::MAX,
    }
}

/// Lists a user's transactions, for that user only: reads up to three postings
/// per wanted record, groups them, and returns at most `limit` records.
pub fn get_transactions_for_user(
    l: &Ledger,
    auth: Option<UserId>,
    user_id: UserId,
    offset: usize,
    limit: usize,
) -> (r: Result<Vec<TransactionOut>, ErrorKind>)
    requires
        l.wf(),
    ensures
        auth is None ==> r == Err::<Vec<TransactionOut>, ErrorKind>(ErrorKind::Unauthorized),
        auth matches Some(u) && u != user_id ==> r == Err::<Vec<TransactionOut>, ErrorKind>(
            ErrorKind::Unauthorized,
        ),
        r matches Ok(outs) ==> outs@.len() <= limit,
        r matches Ok(outs) ==> forall|j: int|
            0 <= j < outs@.len() ==> spec_convert(
                l,
                with_gid(
                    page(selected(l.transactions@, of_user(user_id)), offset as int, raw_count(limit)),
                    (#[trigger] outs@[j]).id,
                ),
            ) == Some(outs@[j]@),
        auth matches Some(u) && u == user_id ==> ({
            let window = page(selected(l.transactions@, of_user(user_id)), offset as int, raw_count(limit));
            &&& r is Ok <==> page_converts(l, window, limit as int)
            &&& r matches Ok(outs) ==> outs@.len() == page_len(window, limit as int) && forall|j: int|
                0 <= j < outs@.len() ==> Some((#[trigger] outs@[j])@) == spec_convert(
                    l,
                    with_gid(window, gid_order(window)[j]),
                )
        }),
        auth matches Some(u) && u == user_id && r is Err ==> r == Err::<
            Vec<TransactionOut>,
            ErrorKind,
        >(ErrorKind::Internal),
{
    let user = match auth {
        Some(u) => u,
        None => return Err(ErrorKind::Unauthorized),
    };
    if user != user_id {
        return Err(ErrorKind::Unauthorized);
    }
    let raw = list_postings(&l.transactions, Some(user_id), AccountId(0), offset, raw_limit(limit));
    convert_page(l, &raw, limit)
}

/// Lists the transactions touching an account, for its owner only.
pub fn get_account_transactions(
    l: &Ledger,
    auth: Option<UserId>,
    account_id: AccountId,
    offset: usize,
    limit: usize,
) -> (r: Result<Vec<TransactionOut>, ErrorKind>)
    requires
        l.wf(),
    ensures
        auth is None ==> r == Err::<Vec<TransactionOut>, ErrorKind>(ErrorKind::Unauthorized),
        auth is Some && !l.has_account(account_id) ==> r == Err::<Vec<TransactionOut>, ErrorKind>(
            ErrorKind::NotFound,
        ),
        auth matches Some(u) && l.has_account(account_id) && l.account(account_id).user_id != u
            ==> r == Err::<Vec<TransactionOut>, ErrorKind>(ErrorKind::Unauthorized),
        r matches Ok(outs) ==> outs@.len() <= limit,
        r matches Ok(outs) ==> forall|j: int|
            0 <= j < outs@.len() ==> spec_convert(
                l,
                with_gid(
                    page(selected(l.transactions@, of_account(account_id)), offset as int, raw_count(limit)),
                    (#[trigger] outs@[j]).id,
                ),
            ) == Some(outs@[j]@),
        auth matches Some(u) && l.has_account(account_id) && l.account(account_id).user_id == u ==> ({
            let window = page(selected(l.transactions@, of_account(account_id)), offset as int, raw_count(limit));
            &&& r is Ok <==> page_converts(l, window, limit as int)
            &&& r matches Ok(outs) ==> outs@.len() == page_len(window, limit as int) && forall|j: int|
                0 <= j < outs@.len() ==> Some((#[trigger] outs@[j])@) == spec_convert(
                    l,
                    with_gid(window, gid_order(window)[j]),
                )
        }),
{
    let user = match auth {
        Some(u) => u,
        None => return Err(ErrorKind::Unauthorized),
    };
    let account = match l.find_account(account_id) {
        Some(a) => a,
        None => return Err(ErrorKind::NotFound),
    };
    if account.user_id != user {
        return Err(ErrorKind::Unauthorized);
    }
    let raw = list_postings(&l.transactions, None, account_id, offset, raw_limit(limit));
    convert_page(l, &raw, limit)
}

} // verus!
