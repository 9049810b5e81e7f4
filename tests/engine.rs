use payments::classifier::{validate_and_classify_transaction, TransactionType};
use payments::composer::{
    check_withdrawal, check_withdrawal_exchange, create_internal_multi_currency_tx,
    next_leg_to_broadcast, WithdrawalTake,
};
use payments::ledger::{Ledger, SystemAccounts};
use payments::model::{
    Account, AccountId, AccountKind, BlockchainAddress, BlockchainTransaction, BlockchainTransactionId,
    CreateTransactionInput, Currency, DepositFounds, ErrorKind, ExchangeId, ExchangeRate,
    NewTransaction, Receipt, ReceiptType, TransactionGroupKind, TransactionId, TransactionKind,
    TransactionStatus, UserId,
};
use payments::service::{
    create_transaction, fold_statuses, get_account_balance, get_account_transactions,
    get_transaction, get_transactions_for_user,
};

const SYSTEM: UserId = UserId(0);
const ALICE: UserId = UserId(1);
const BOB: UserId = UserId(2);

const BTC_LIQ: AccountId = AccountId(101);
const ETH_LIQ: AccountId = AccountId(102);
const STQ_LIQ: AccountId = AccountId(103);
const BTC_FEES: AccountId = AccountId(111);
const ETH_FEES: AccountId = AccountId(112);
const STQ_FEES: AccountId = AccountId(113);
const BTC_TRANSFER: AccountId = AccountId(121);
const ETH_TRANSFER: AccountId = AccountId(122);
const STQ_TRANSFER: AccountId = AccountId(123);

fn account(id: AccountId, user: UserId, currency: Currency, kind: AccountKind, address: &str) -> Account {
    Account { id, user_id: user, currency, kind, address: BlockchainAddress(address.to_string()) }
}

fn ledger() -> Ledger {
    let system = SystemAccounts {
        btc_liquidity: BTC_LIQ,
        eth_liquidity: ETH_LIQ,
        stq_liquidity: STQ_LIQ,
        btc_fees: BTC_FEES,
        eth_fees: ETH_FEES,
        stq_fees: STQ_FEES,
        btc_transfer: BTC_TRANSFER,
        eth_transfer: ETH_TRANSFER,
        stq_transfer: STQ_TRANSFER,
    };
    let mut l = Ledger::new(system);
    let sys = [
        (BTC_LIQ, Currency::Btc, "sys-btc-liq"),
        (ETH_LIQ, Currency::Eth, "sys-eth-liq"),
        (STQ_LIQ, Currency::Stq, "sys-stq-liq"),
        (BTC_FEES, Currency::Btc, "sys-btc-fees"),
        (ETH_FEES, Currency::Eth, "sys-eth-fees"),
        (STQ_FEES, Currency::Stq, "sys-stq-fees"),
        (BTC_TRANSFER, Currency::Btc, "sys-btc-transfer"),
        (ETH_TRANSFER, Currency::Eth, "sys-eth-transfer"),
        (STQ_TRANSFER, Currency::Stq, "sys-stq-transfer"),
    ];
    for (id, c, addr) in sys.iter() {
        l.add_account(account(*id, SYSTEM, *c, AccountKind::Cr, addr)).unwrap();
    }
    l
}

static NEXT_DEPOSIT: std::sync::atomic::AtomicU64 = std::sync::atomic::AtomicU64::new(1_000_000);

/// Credits `cr` with `value` through a deposit from the `Dr` account `dr`.
fn deposit(l: &mut Ledger, dr: AccountId, cr: AccountId, user: UserId, currency: Currency, value: u128) {
    let n = NEXT_DEPOSIT.fetch_add(1, std::sync::atomic::Ordering::SeqCst) as u128;
    let d = DepositFounds {
        user_id: user,
        address: BlockchainAddress(String::new()),
        currency,
        value,
        blockchain_tx_id: BlockchainTransactionId::new(format!("deposit-{}", n)),
    };
    l.add_chain_transaction(BlockchainTransaction {
        hash: d.blockchain_tx_id.clone(),
        from: vec![BlockchainAddress(format!("sender-{}", n))],
        to: vec![BlockchainAddress(format!("deposit-address-{}", n))],
    });
    let tx = NewTransaction::from_deposit(d, cr, dr, TransactionId(n));
    l.record_deposit(tx, 1).unwrap();
}

fn uuid_text(id: AccountId) -> String {
    uuid::Uuid::from_u128(id.0).to_string()
}

fn to_account(id: u128, user: UserId, from: AccountId, to: AccountId, c: Currency, value: u128) -> CreateTransactionInput {
    CreateTransactionInput {
        id: TransactionId(id),
        user_id: user,
        from,
        to: Receipt(uuid_text(to)),
        to_type: ReceiptType::Account,
        to_currency: c,
        value,
        value_currency: c,
        fee: 0,
        exchange_id: None,
        exchange_rate: None,
        hold_until: None,
    }
}

fn to_address(id: u128, user: UserId, from: AccountId, addr: &str, c: Currency, value: u128, fee: u128) -> CreateTransactionInput {
    CreateTransactionInput {
        id: TransactionId(id),
        user_id: user,
        from,
        to: Receipt(addr.to_string()),
        to_type: ReceiptType::Address,
        to_currency: c,
        value,
        value_currency: c,
        fee,
        exchange_id: None,
        exchange_rate: None,
        hold_until: None,
    }
}

const A1: AccountId = AccountId(1001);
const A1_DEP: AccountId = AccountId(1002);
const B1: AccountId = AccountId(2001);
const B2: AccountId = AccountId(2002);
const B2_DEP: AccountId = AccountId(2003);

/// Alice: ETH balance `a1` (funded through `a1_dep`); Bob: ETH `b1`, STQ `b2`.
fn two_users(a1_balance: u128) -> Ledger {
    let mut l = ledger();
    l.add_account(account(A1, ALICE, Currency::Eth, AccountKind::Cr, "0xa1")).unwrap();
    l.add_account(account(A1_DEP, ALICE, Currency::Eth, AccountKind::Dr, "0xa1dep")).unwrap();
    l.add_account(account(B1, BOB, Currency::Eth, AccountKind::Cr, "0xb1")).unwrap();
    l.add_account(account(B2, BOB, Currency::Stq, AccountKind::Cr, "0xb2")).unwrap();
    l.add_account(account(B2_DEP, BOB, Currency::Stq, AccountKind::Dr, "0xb2dep")).unwrap();
    if a1_balance > 0 {
        deposit(&mut l, A1_DEP, A1, ALICE, Currency::Eth, a1_balance);
    }
    l
}

fn balance(l: &Ledger, user: UserId, id: AccountId) -> u128 {
    get_account_balance(l, Some(user), id).unwrap().balance
}

fn no_takes() -> Vec<WithdrawalTake> {
    Vec::new()
}

fn no_outcomes() -> Vec<Option<BlockchainTransactionId>> {
    Vec::new()
}

#[test]
fn local_transfer_makes_one_internal_posting() {
    let mut l = two_users(10);
    let before = l.transactions.len();
    let input = to_account(1, ALICE, A1, B1, Currency::Eth, 3);
    let (out, ex) = create_transaction(&mut l, Some(ALICE), &input, &no_takes(), &no_outcomes(), 7).unwrap();
    assert!(ex.is_none());
    assert_eq!(l.transactions.len(), before + 1);
    let t = &l.transactions[before];
    assert_eq!(t.kind, TransactionKind::Internal);
    assert_eq!(t.status, TransactionStatus::Done);
    assert_eq!(t.dr_account_id, A1);
    assert_eq!(t.cr_account_id, B1);
    assert_eq!(out.from_value, 3);
    assert_eq!(out.to_value, 3);
    assert_eq!(out.from_currency, Currency::Eth);
    assert_eq!(out.to_currency, Currency::Eth);
    assert_eq!(out.id, TransactionId(1));
    assert_eq!(out.to.account_id, Some(B1));
    assert_eq!(balance(&l, ALICE, A1), 7);
    assert_eq!(balance(&l, BOB, B1), 3);
}

#[test]
fn internal_with_exact_balance_succeeds() {
    let mut l = two_users(10);
    let input = to_account(1, ALICE, A1, B1, Currency::Eth, 10);
    assert!(create_transaction(&mut l, Some(ALICE), &input, &no_takes(), &no_outcomes(), 7).is_ok());
    assert_eq!(balance(&l, ALICE, A1), 0);
}

#[test]
fn internal_one_over_balance_fails_with_balance() {
    let mut l = two_users(9);
    let before = l.transactions.len();
    let input = to_account(1, ALICE, A1, B1, Currency::Eth, 10);
    let r = create_transaction(&mut l, Some(ALICE), &input, &no_takes(), &no_outcomes(), 7);
    assert_eq!(r.err(), Some(ErrorKind::Balance));
    assert_eq!(l.transactions.len(), before);
}

fn exchange_input(id: u128, value: u128, value_currency: Currency) -> CreateTransactionInput {
    CreateTransactionInput {
        id: TransactionId(id),
        user_id: ALICE,
        from: A1,
        to: Receipt(uuid_text(B2)),
        to_type: ReceiptType::Account,
        to_currency: Currency::Stq,
        value,
        value_currency,
        fee: 0,
        exchange_id: Some(ExchangeId(77)),
        exchange_rate: Some(ExchangeRate { num: 200, den: 1 }),
        hold_until: None,
    }
}

#[test]
fn cross_currency_local_posts_two_legs_and_one_exchange() {
    let mut l = two_users(100);
    // the `MultiTo` leg debits the receiving account, so it must hold the converted value
    deposit(&mut l, B2_DEP, B2, BOB, Currency::Stq, 2000);
    let before = l.transactions.len();
    let input = exchange_input(50, 10, Currency::Eth);
    let (out, ex) = create_transaction(&mut l, Some(ALICE), &input, &no_takes(), &no_outcomes(), 7).unwrap();
    assert_eq!(l.transactions.len(), before + 2);
    let f = &l.transactions[before];
    let t = &l.transactions[before + 1];
    assert_eq!((f.kind, f.value, f.currency, f.dr_account_id, f.cr_account_id), (TransactionKind::MultiFrom, 10, Currency::Eth, A1, ETH_LIQ));
    assert_eq!((t.kind, t.value, t.currency, t.dr_account_id, t.cr_account_id), (TransactionKind::MultiTo, 2000, Currency::Stq, B2, STQ_LIQ));
    assert_eq!(f.gid, TransactionId(50));
    assert_eq!(t.gid, TransactionId(50));
    assert_eq!(t.id, TransactionId(51));
    let ex = ex.unwrap();
    assert_eq!(ex.id, ExchangeId(77));
    assert_eq!(ex.rate, ExchangeRate { num: 200, den: 1 });
    assert_eq!(ex.actual_amount, 10);
    assert_eq!(ex.amount_currency, Currency::Eth);
    assert_eq!((out.from_value, out.to_value), (10, 2000));
}

#[test]
fn cross_currency_local_into_empty_account_fails_with_balance() {
    let mut l = two_users(100);
    let input = exchange_input(50, 10, Currency::Eth);
    let r = create_transaction(&mut l, Some(ALICE), &input, &no_takes(), &no_outcomes(), 7);
    assert_eq!(r.err(), Some(ErrorKind::Balance));
}

#[test]
fn exchange_value_given_in_target_currency_uses_inverse_rate() {
    let mut l = two_users(100);
    deposit(&mut l, B2_DEP, B2, BOB, Currency::Stq, 2000);
    let input = exchange_input(50, 2000, Currency::Stq);
    let (out, _) = create_transaction(&mut l, Some(ALICE), &input, &no_takes(), &no_outcomes(), 7).unwrap();
    assert_eq!((out.from_value, out.to_value), (10, 2000));
}

#[test]
fn exchange_with_foreign_value_currency_is_malformed() {
    let mut l = two_users(100);
    let input = exchange_input(50, 10, Currency::Btc);
    let r = create_transaction(&mut l, Some(ALICE), &input, &no_takes(), &no_outcomes(), 7);
    assert_eq!(r.err(), Some(ErrorKind::MalformedInput));
}

#[test]
fn exchange_composer_rejects_foreign_value_currency() {
    let mut l = two_users(100);
    let input = exchange_input(50, 10, Currency::Btc);
    let from = l.find_account(A1).unwrap();
    let to = l.find_account(B2).unwrap();
    let r = create_internal_multi_currency_tx(&mut l, &input, &from, &to, ExchangeId(77), ExchangeRate { num: 200, den: 1 }, TransactionGroupKind::InternalMulti, 7);
    assert_eq!(r.err(), Some(ErrorKind::InvalidInput));
}

const D1: AccountId = AccountId(3001);
const D2: AccountId = AccountId(3002);
const W: AccountId = AccountId(3003);

/// Alice's ETH balance `W` of 10, paid in through deposit accounts holding 3 and 7.
fn withdrawal_ledger() -> Ledger {
    let mut l = ledger();
    l.add_account(account(W, ALICE, Currency::Eth, AccountKind::Cr, "0xw")).unwrap();
    l.add_account(account(D1, ALICE, Currency::Eth, AccountKind::Dr, "0xd1")).unwrap();
    l.add_account(account(D2, ALICE, Currency::Eth, AccountKind::Dr, "0xd2")).unwrap();
    deposit(&mut l, D1, W, ALICE, Currency::Eth, 3);
    deposit(&mut l, D2, W, ALICE, Currency::Eth, 7);
    l
}

fn hash(s: &str) -> Option<BlockchainTransactionId> {
    Some(BlockchainTransactionId::new(s.to_string()))
}

fn split_takes() -> Vec<WithdrawalTake> {
    vec![WithdrawalTake { account_id: D1, value: 3 }, WithdrawalTake { account_id: D2, value: 5 }]
}

#[test]
fn withdrawal_split_over_two_sources() {
    let mut l = withdrawal_ledger();
    let before = l.transactions.len();
    let input = to_address(60, ALICE, W, "0xoutside", Currency::Eth, 8, 1);
    let outcomes = vec![hash("0xh1"), hash("0xh2")];
    let (out, ex) = create_transaction(&mut l, Some(ALICE), &input, &split_takes(), &outcomes, 9).unwrap();
    assert!(ex.is_none());
    assert_eq!(l.transactions.len(), before + 3);
    let legs = &l.transactions[before..];
    assert_eq!((legs[0].kind, legs[0].value, legs[0].cr_account_id), (TransactionKind::Withdrawal, 3, D1));
    assert_eq!((legs[1].kind, legs[1].value, legs[1].cr_account_id), (TransactionKind::Withdrawal, 5, D2));
    assert_eq!((legs[2].kind, legs[2].value, legs[2].cr_account_id, legs[2].status), (TransactionKind::Fee, 1, ETH_FEES, TransactionStatus::Done));
    assert_eq!(legs[0].blockchain_tx_id, hash("0xh1"));
    assert_eq!(legs[1].blockchain_tx_id, hash("0xh2"));
    assert!(legs.iter().all(|t| t.gid == TransactionId(60) && t.group_kind == TransactionGroupKind::Withdrawal));
    let statuses: Vec<TransactionStatus> = legs.iter().map(|t| t.status).collect();
    assert_eq!(fold_statuses(&statuses), TransactionStatus::Pending);
    assert_eq!(out.status, TransactionStatus::Pending);
    assert_eq!(out.fee, 1);
    assert_eq!(out.to.blockchain_address, BlockchainAddress("0xoutside".to_string()));
    assert_eq!(l.pending.len(), 2);
    assert_eq!(balance(&l, ALICE, W), 1);
}

#[test]
fn withdrawal_second_broadcast_failure_keeps_first_leg_and_fee() {
    let mut l = withdrawal_ledger();
    let before = l.transactions.len();
    let input = to_address(60, ALICE, W, "0xoutside", Currency::Eth, 8, 1);
    let outcomes = vec![hash("0xh1"), None];
    let (out, _) = create_transaction(&mut l, Some(ALICE), &input, &split_takes(), &outcomes, 9).unwrap();
    assert_eq!(l.transactions.len(), before + 2);
    assert_eq!((l.transactions[before].kind, l.transactions[before].status), (TransactionKind::Withdrawal, TransactionStatus::Pending));
    assert_eq!((l.transactions[before + 1].kind, l.transactions[before + 1].status), (TransactionKind::Fee, TransactionStatus::Done));
    assert_eq!(out.status, TransactionStatus::Pending);
}

#[test]
fn withdrawal_first_broadcast_failure_leaves_no_postings() {
    let mut l = withdrawal_ledger();
    let before = l.transactions.len();
    let input = to_address(60, ALICE, W, "0xoutside", Currency::Eth, 8, 1);
    let outcomes = vec![None, hash("0xh2")];
    let r = create_transaction(&mut l, Some(ALICE), &input, &split_takes(), &outcomes, 9);
    assert_eq!(r.err(), Some(ErrorKind::Internal));
    assert_eq!(l.transactions.len(), before);
    assert_eq!(l.pending.len(), 0);
}

#[test]
fn withdrawal_takes_must_add_up_to_the_value() {
    let mut l = withdrawal_ledger();
    let input = to_address(60, ALICE, W, "0xoutside", Currency::Eth, 9, 1);
    let outcomes = vec![hash("0xh1"), hash("0xh2")];
    let r = create_transaction(&mut l, Some(ALICE), &input, &split_takes(), &outcomes, 9);
    assert_eq!(r.err(), Some(ErrorKind::Internal));
}

#[test]
fn withdrawal_source_without_enough_fails_with_balance() {
    let mut l = withdrawal_ledger();
    let input = to_address(60, ALICE, W, "0xoutside", Currency::Eth, 8, 1);
    let takes = vec![WithdrawalTake { account_id: D1, value: 4 }, WithdrawalTake { account_id: D2, value: 4 }];
    let outcomes = vec![hash("0xh1"), hash("0xh2")];
    let r = create_transaction(&mut l, Some(ALICE), &input, &takes, &outcomes, 9);
    assert_eq!(r.err(), Some(ErrorKind::Balance));
}

const E1: AccountId = AccountId(4001);
const E1_DEP: AccountId = AccountId(4002);
const BTC_DEP: AccountId = AccountId(4003);
const BTC_SRC: AccountId = AccountId(4004);

#[test]
fn cross_currency_withdrawal_group() {
    let mut l = ledger();
    l.add_account(account(E1, ALICE, Currency::Eth, AccountKind::Cr, "0xe1")).unwrap();
    l.add_account(account(E1_DEP, ALICE, Currency::Eth, AccountKind::Dr, "0xe1dep")).unwrap();
    l.add_account(account(BTC_DEP, SYSTEM, Currency::Btc, AccountKind::Dr, "1btcdep")).unwrap();
    l.add_account(account(BTC_SRC, SYSTEM, Currency::Btc, AccountKind::Dr, "1btcsrc")).unwrap();
    deposit(&mut l, E1_DEP, E1, ALICE, Currency::Eth, 150);
    deposit(&mut l, BTC_DEP, BTC_TRANSFER, SYSTEM, Currency::Btc, 20);
    deposit(&mut l, BTC_SRC, BTC_TRANSFER, SYSTEM, Currency::Btc, 0);
    // the source of the chain transfer must hold what it sends
    deposit(&mut l, BTC_SRC, BTC_TRANSFER, SYSTEM, Currency::Btc, 5);
    let before = l.transactions.len();
    let input = CreateTransactionInput {
        id: TransactionId(70),
        user_id: ALICE,
        from: E1,
        to: Receipt("1outsideBtc".to_string()),
        to_type: ReceiptType::Address,
        to_currency: Currency::Btc,
        value: 100,
        value_currency: Currency::Eth,
        fee: 2,
        exchange_id: Some(ExchangeId(5)),
        exchange_rate: Some(ExchangeRate { num: 1, den: 20 }),
        hold_until: None,
    };
    let takes = vec![WithdrawalTake { account_id: BTC_SRC, value: 5 }];
    let outcomes = vec![hash("btc-hash")];
    let (out, ex) = create_transaction(&mut l, Some(ALICE), &input, &takes, &outcomes, 11).unwrap();
    let g = &l.transactions[before..];
    assert_eq!(g.len(), 4);
    assert_eq!((g[0].kind, g[0].currency, g[0].dr_account_id, g[0].cr_account_id, g[0].value), (TransactionKind::MultiFrom, Currency::Eth, E1, ETH_LIQ, 100));
    assert_eq!((g[1].kind, g[1].currency, g[1].dr_account_id, g[1].cr_account_id, g[1].value), (TransactionKind::MultiTo, Currency::Btc, BTC_TRANSFER, BTC_LIQ, 5));
    assert_eq!((g[2].kind, g[2].currency, g[2].dr_account_id, g[2].status), (TransactionKind::Withdrawal, Currency::Btc, BTC_TRANSFER, TransactionStatus::Pending));
    assert_eq!((g[3].kind, g[3].currency, g[3].dr_account_id, g[3].cr_account_id, g[3].value), (TransactionKind::Fee, Currency::Eth, E1, ETH_FEES, 2));
    assert!(g.iter().all(|t| t.gid == TransactionId(70)));
    assert!(g.iter().all(|t| t.group_kind == TransactionGroupKind::WithdrawalMulti));
    assert_eq!(ex.unwrap().to, Currency::Btc);
    assert_eq!((out.from_value, out.from_currency, out.to_value, out.to_currency, out.fee), (100, Currency::Eth, 5, Currency::Btc, 2));
    assert_eq!(out.status, TransactionStatus::Pending);
}

#[test]
fn reading_someone_elses_transaction_is_unauthorized() {
    let mut l = two_users(10);
    let input = to_account(1, ALICE, A1, B1, Currency::Eth, 3);
    create_transaction(&mut l, Some(ALICE), &input, &no_takes(), &no_outcomes(), 7).unwrap();
    assert_eq!(get_transaction(&l, Some(BOB), TransactionId(1)).err(), Some(ErrorKind::Unauthorized));
    assert!(get_transaction(&l, Some(ALICE), TransactionId(1)).unwrap().is_some());
    assert_eq!(get_transaction(&l, Some(ALICE), TransactionId(999)).unwrap(), None);
    assert_eq!(get_account_balance(&l, Some(BOB), A1).err(), Some(ErrorKind::Unauthorized));
    assert_eq!(get_transactions_for_user(&l, Some(BOB), ALICE, 0, 10).err(), Some(ErrorKind::Unauthorized));
}

#[test]
fn stored_group_reads_back_as_created() {
    let mut l = withdrawal_ledger();
    let input = to_address(60, ALICE, W, "0xoutside", Currency::Eth, 8, 1);
    let outcomes = vec![hash("0xh1"), hash("0xh2")];
    let (out, _) = create_transaction(&mut l, Some(ALICE), &input, &split_takes(), &outcomes, 9).unwrap();
    let read = get_transaction(&l, Some(ALICE), TransactionId(61)).unwrap().unwrap();
    assert_eq!(read, out);
    assert_eq!(read.from_value, 3);
    assert_eq!(read.blockchain_tx_id, hash("0xh1"));
    assert_eq!(read.created_at, 9);
}

#[test]
fn same_id_twice_fails_the_second_time() {
    let mut l = two_users(10);
    let input = to_account(1, ALICE, A1, B1, Currency::Eth, 3);
    assert!(create_transaction(&mut l, Some(ALICE), &input, &no_takes(), &no_outcomes(), 7).is_ok());
    let before = l.transactions.len();
    let r = create_transaction(&mut l, Some(ALICE), &input, &no_takes(), &no_outcomes(), 8);
    assert_eq!(r.err(), Some(ErrorKind::Internal));
    assert_eq!(l.transactions.len(), before);
}

#[test]
fn listing_returns_at_most_limit_records() {
    let mut l = two_users(100);
    for i in 0..5u128 {
        let input = to_account(10 + i, ALICE, A1, B1, Currency::Eth, 1);
        create_transaction(&mut l, Some(ALICE), &input, &no_takes(), &no_outcomes(), 7).unwrap();
    }
    let page = get_transactions_for_user(&l, Some(ALICE), ALICE, 0, 2).unwrap();
    assert_eq!(page.len(), 2);
    let all = get_transactions_for_user(&l, Some(ALICE), ALICE, 0, 100).unwrap();
    // the deposit and the five transfers
    assert_eq!(all.len(), 6);
    let by_account = get_account_transactions(&l, Some(BOB), B1, 0, 3).unwrap();
    assert_eq!(by_account.len(), 3);
    assert_eq!(get_account_transactions(&l, Some(BOB), AccountId(9999), 0, 3).err(), Some(ErrorKind::NotFound));
}

#[test]
fn value_is_conserved_across_all_accounts() {
    let mut l = withdrawal_ledger();
    let input = to_address(60, ALICE, W, "0xoutside", Currency::Eth, 8, 1);
    let outcomes = vec![hash("0xh1"), hash("0xh2")];
    create_transaction(&mut l, Some(ALICE), &input, &split_takes(), &outcomes, 9).unwrap();
    let mut net: i128 = 0;
    for a in l.accounts.iter() {
        for t in l.transactions.iter() {
            if t.cr_account_id == a.id {
                net += t.value as i128;
            }
            if t.dr_account_id == a.id {
                net -= t.value as i128;
            }
        }
    }
    assert_eq!(net, 0);
}

#[test]
fn credit_accounts_never_go_negative() {
    let mut l = two_users(5);
    for i in 0..10u128 {
        let input = to_account(10 + i, ALICE, A1, B1, Currency::Eth, 2);
        let _ = create_transaction(&mut l, Some(ALICE), &input, &no_takes(), &no_outcomes(), 7);
    }
    for a in l.accounts.iter().filter(|a| a.kind == AccountKind::Cr) {
        let credits: u128 = l.transactions.iter().filter(|t| t.cr_account_id == a.id).map(|t| t.value).sum();
        let debits: u128 = l.transactions.iter().filter(|t| t.dr_account_id == a.id).map(|t| t.value).sum();
        assert!(credits >= debits);
    }
    assert_eq!(balance(&l, ALICE, A1), 1);
}

#[test]
fn missing_token_is_unauthorized() {
    let mut l = two_users(10);
    let input = to_account(1, ALICE, A1, B1, Currency::Eth, 3);
    let r = create_transaction(&mut l, None, &input, &no_takes(), &no_outcomes(), 7);
    assert_eq!(r.err(), Some(ErrorKind::Unauthorized));
}

#[test]
fn unknown_sender_is_not_found() {
    let mut l = two_users(10);
    let input = to_account(1, ALICE, AccountId(424242), B1, Currency::Eth, 3);
    let r = create_transaction(&mut l, Some(ALICE), &input, &no_takes(), &no_outcomes(), 7);
    assert_eq!(r.err(), Some(ErrorKind::NotFound));
}

#[test]
fn zero_value_is_invalid_input() {
    let mut l = two_users(10);
    let input = to_account(1, ALICE, A1, B1, Currency::Eth, 0);
    let r = create_transaction(&mut l, Some(ALICE), &input, &no_takes(), &no_outcomes(), 7);
    assert_eq!(r.err(), Some(ErrorKind::InvalidInput));
}

#[test]
fn unreadable_account_id_is_malformed() {
    let l = two_users(10);
    let mut input = to_account(1, ALICE, A1, B1, Currency::Eth, 3);
    input.to = Receipt("not-an-id".to_string());
    assert_eq!(validate_and_classify_transaction(&l, &input).err(), Some(ErrorKind::MalformedInput));
}

#[test]
fn account_id_text_is_read_as_that_account() {
    let l = two_users(10);
    let input = to_account(1, ALICE, A1, B1, Currency::Eth, 3);
    match validate_and_classify_transaction(&l, &input).unwrap() {
        TransactionType::Internal(from, to) => {
            assert_eq!(from.id, A1);
            assert_eq!(to.id, B1);
        }
        other => panic!("unexpected classification {:?}", other),
    }
}

#[test]
fn recipient_currency_mismatch_is_malformed() {
    let l = two_users(10);
    let input = to_account(1, ALICE, A1, B1, Currency::Stq, 3);
    assert_eq!(validate_and_classify_transaction(&l, &input).err(), Some(ErrorKind::MalformedInput));
}

#[test]
fn own_address_is_an_internal_transfer() {
    let l = two_users(10);
    let input = to_address(1, ALICE, A1, "0xb1", Currency::Eth, 3, 0);
    match validate_and_classify_transaction(&l, &input).unwrap() {
        TransactionType::Internal(_, to) => assert_eq!(to.id, B1),
        other => panic!("unexpected classification {:?}", other),
    }
}

#[test]
fn address_of_another_currency_is_malformed() {
    let l = two_users(10);
    let input = to_address(1, ALICE, A1, "0xb2", Currency::Eth, 3, 0);
    assert_eq!(validate_and_classify_transaction(&l, &input).err(), Some(ErrorKind::MalformedInput));
}

#[test]
fn outside_address_is_a_withdrawal() {
    let l = two_users(10);
    let input = to_address(1, ALICE, A1, "0xoutside", Currency::Eth, 3, 0);
    match validate_and_classify_transaction(&l, &input).unwrap() {
        TransactionType::Withdrawal(from, addr, c) => {
            assert_eq!(from.id, A1);
            assert_eq!(addr, BlockchainAddress("0xoutside".to_string()));
            assert_eq!(c, Currency::Eth);
        }
        other => panic!("unexpected classification {:?}", other),
    }
}

#[test]
fn cross_currency_withdrawal_without_rate_is_malformed() {
    let l = two_users(10);
    let input = to_address(1, ALICE, A1, "1outside", Currency::Btc, 3, 0);
    assert_eq!(validate_and_classify_transaction(&l, &input).err(), Some(ErrorKind::MalformedInput));
}

#[test]
fn deposit_reads_back_with_chain_senders() {
    let mut l = two_users(0);
    l.add_chain_transaction(BlockchainTransaction {
        hash: BlockchainTransactionId::new("dep-hash".to_string()),
        from: vec![BlockchainAddress("0xsender".to_string())],
        to: vec![BlockchainAddress("0xa1dep".to_string())],
    });
    let d = DepositFounds {
        user_id: ALICE,
        address: BlockchainAddress("0xa1dep".to_string()),
        currency: Currency::Eth,
        value: 42,
        blockchain_tx_id: BlockchainTransactionId::new("dep-hash".to_string()),
    };
    l.record_deposit(NewTransaction::from_deposit(d, A1, A1_DEP, TransactionId(5)), 3).unwrap();
    let out = get_transaction(&l, Some(ALICE), TransactionId(5)).unwrap().unwrap();
    assert_eq!(out.from.len(), 1);
    assert_eq!(out.from[0].blockchain_address, BlockchainAddress("0xsender".to_string()));
    assert_eq!(out.from[0].account_id, None);
    assert_eq!(out.to.account_id, Some(A1));
    assert_eq!((out.from_value, out.to_value, out.fee), (42, 42, 0));
}

#[test]
fn deposit_from_a_credit_account_is_refused() {
    let mut l = two_users(0);
    let d = DepositFounds {
        user_id: ALICE,
        address: BlockchainAddress("0xb1".to_string()),
        currency: Currency::Eth,
        value: 1,
        blockchain_tx_id: BlockchainTransactionId::new("x".to_string()),
    };
    let r = l.record_deposit(NewTransaction::from_deposit(d, A1, B1, TransactionId(5)), 3);
    assert_eq!(r.err(), Some(ErrorKind::Internal));
}

#[test]
fn duplicate_account_id_is_refused() {
    let mut l = two_users(0);
    let r = l.add_account(account(A1, ALICE, Currency::Btc, AccountKind::Cr, "x"));
    assert_eq!(r.err(), Some(ErrorKind::Internal));
}

#[test]
fn system_account_lookup() {
    let l = ledger();
    assert_eq!(l.get_system_liquidity_account(Currency::Stq).unwrap().id, STQ_LIQ);
    assert_eq!(l.get_system_fees_account(Currency::Btc).unwrap().id, BTC_FEES);
    assert_eq!(l.get_system_transfer_account(Currency::Eth).unwrap().id, ETH_TRANSFER);
    let empty = Ledger::new(l.system);
    assert_eq!(empty.get_system_fees_account(Currency::Btc).err(), Some(ErrorKind::NotFound));
}

fn plain() -> payments::composer::WithdrawalOverrides {
    payments::composer::WithdrawalOverrides { gid: None, kind: None, group_kind: None, fee_currency: None, fee_payer_account_id: None }
}

#[test]
fn withdrawal_checks_before_broadcast() {
    let l = withdrawal_ledger();
    let from = l.find_account(W).unwrap();
    let ok = to_address(60, ALICE, W, "0xoutside", Currency::Eth, 8, 1);
    assert_eq!(check_withdrawal(&l, &ok, &from, Currency::Eth, plain(), &split_takes()), Ok(()));
    let wrong_sum = to_address(60, ALICE, W, "0xoutside", Currency::Eth, 9, 1);
    assert_eq!(check_withdrawal(&l, &wrong_sum, &from, Currency::Eth, plain(), &split_takes()), Err(ErrorKind::Internal));
    let short = vec![WithdrawalTake { account_id: D1, value: 4 }, WithdrawalTake { account_id: D2, value: 4 }];
    assert_eq!(check_withdrawal(&l, &ok, &from, Currency::Eth, plain(), &short), Err(ErrorKind::Balance));
    assert_eq!(check_withdrawal(&l, &ok, &from, Currency::Btc, plain(), &split_takes()), Err(ErrorKind::Internal));
    let used_id = to_address(l.transactions[0].id.0, ALICE, W, "0xoutside", Currency::Eth, 8, 1);
    assert_eq!(check_withdrawal(&l, &used_id, &from, Currency::Eth, plain(), &split_takes()), Err(ErrorKind::Internal));
}

#[test]
fn legs_are_broadcast_in_order_until_one_fails() {
    assert_eq!(next_leg_to_broadcast(2, &vec![]), Some(0));
    assert_eq!(next_leg_to_broadcast(2, &vec![hash("a")]), Some(1));
    assert_eq!(next_leg_to_broadcast(2, &vec![hash("a"), hash("b")]), None);
    assert_eq!(next_leg_to_broadcast(3, &vec![hash("a"), None]), None);
}

#[test]
fn withdrawal_is_kept_when_its_fee_cannot_be_written() {
    let mut l = withdrawal_ledger();
    let before = l.transactions.len();
    // the balance of 10 covers the legs of 8 but not a fee of 5
    let input = to_address(60, ALICE, W, "0xoutside", Currency::Eth, 8, 5);
    let outcomes = vec![hash("0xh1"), hash("0xh2")];
    let r = create_transaction(&mut l, Some(ALICE), &input, &split_takes(), &outcomes, 9);
    assert_eq!(r.err(), Some(ErrorKind::Internal));
    assert_eq!(l.transactions.len(), before + 2);
    assert!(l.transactions[before..].iter().all(|t| t.kind == TransactionKind::Withdrawal));
    assert_eq!(l.pending.len(), 2);
}

#[test]
fn reused_group_id_is_internal_for_a_withdrawal() {
    let mut l = withdrawal_ledger();
    let used = l.transactions[0].id.0;
    let input = to_address(used, ALICE, W, "0xoutside", Currency::Eth, 8, 1);
    let outcomes = vec![hash("0xh1"), hash("0xh2")];
    let before = l.transactions.len();
    let r = create_transaction(&mut l, Some(ALICE), &input, &split_takes(), &outcomes, 9);
    assert_eq!(r.err(), Some(ErrorKind::Internal));
    assert_eq!(l.transactions.len(), before);
}

#[test]
fn withdrawal_check_needs_a_funded_sender() {
    let mut l = withdrawal_ledger();
    l.add_account(account(AccountId(3999), ALICE, Currency::Eth, AccountKind::Cr, "0xempty")).unwrap();
    let from = l.find_account(AccountId(3999)).unwrap();
    let input = to_address(60, ALICE, AccountId(3999), "0xoutside", Currency::Eth, 8, 1);
    assert_eq!(check_withdrawal(&l, &input, &from, Currency::Eth, plain(), &split_takes()), Err(ErrorKind::Balance));
}

fn exchange_withdrawal_ledger() -> Ledger {
    let mut l = ledger();
    l.add_account(account(E1, ALICE, Currency::Eth, AccountKind::Cr, "0xe1")).unwrap();
    l.add_account(account(E1_DEP, ALICE, Currency::Eth, AccountKind::Dr, "0xe1dep")).unwrap();
    l.add_account(account(BTC_DEP, SYSTEM, Currency::Btc, AccountKind::Dr, "1btcdep")).unwrap();
    l.add_account(account(BTC_SRC, SYSTEM, Currency::Btc, AccountKind::Dr, "1btcsrc")).unwrap();
    deposit(&mut l, E1_DEP, E1, ALICE, Currency::Eth, 150);
    deposit(&mut l, BTC_DEP, BTC_TRANSFER, SYSTEM, Currency::Btc, 20);
    deposit(&mut l, BTC_SRC, BTC_TRANSFER, SYSTEM, Currency::Btc, 5);
    l
}

fn exchange_withdrawal_input(value: u128) -> CreateTransactionInput {
    CreateTransactionInput {
        id: TransactionId(70),
        user_id: ALICE,
        from: E1,
        to: Receipt("1outsideBtc".to_string()),
        to_type: ReceiptType::Address,
        to_currency: Currency::Btc,
        value,
        value_currency: Currency::Eth,
        fee: 2,
        exchange_id: Some(ExchangeId(5)),
        exchange_rate: Some(ExchangeRate { num: 1, den: 20 }),
        hold_until: None,
    }
}

#[test]
fn cross_currency_withdrawal_is_checked_without_a_trace() {
    let mut l = exchange_withdrawal_ledger();
    let from = l.find_account(E1).unwrap();
    let before = l.transactions.len();
    let takes = vec![WithdrawalTake { account_id: BTC_SRC, value: 5 }];
    let rate = ExchangeRate { num: 1, den: 20 };
    assert_eq!(check_withdrawal_exchange(&mut l, &exchange_withdrawal_input(100), &from, Currency::Btc, ExchangeId(5), rate, &takes, 11), Ok(()));
    assert_eq!(l.transactions.len(), before);
    // the takes no longer add up to the exchanged value
    assert_eq!(check_withdrawal_exchange(&mut l, &exchange_withdrawal_input(120), &from, Currency::Btc, ExchangeId(5), rate, &takes, 11), Err(ErrorKind::Internal));
    assert_eq!(l.transactions.len(), before);
}
