use payments::blockchain::{
    estimate_currency, estimate_withdrawal_fee, ethereum_tx_id, fee_rate_request, next_nonce,
    nonce_initiator, CreateBlockchainTx, FeePrice, FeesOptions, RateInput,
};
use payments::model::{
    convert_amount, BlockchainAddress, BlockchainTransactionId, Currency, ErrorKind, ExchangeRate,
    TransactionId,
};
use payments::service::fold_statuses;
use payments::model::TransactionStatus;

fn options() -> FeesOptions {
    FeesOptions { fee_upside: 2, btc_transaction_size: 250, eth_gas_limit: 21_000, stq_gas_limit: 100_000 }
}

#[test]
fn fee_in_withdrawal_currency_is_divided_by_upside() {
    let e = estimate_withdrawal_fee(84_000_000, Currency::Eth, Currency::Eth, options(), None).unwrap();
    assert_eq!(e.gross_fee, 42_000_000);
    assert_eq!(e.fee_price, FeePrice::Whole(2000));
    assert_eq!(e.currency, Currency::Eth);
}

#[test]
fn small_fee_price_keeps_the_exact_ratio() {
    let e = estimate_withdrawal_fee(1_000, Currency::Btc, Currency::Btc, options(), None).unwrap();
    assert_eq!(e.gross_fee, 500);
    assert_eq!(e.fee_price, FeePrice::Ratio { num: 500, den: 250 });
}

#[test]
fn token_fees_are_estimated_in_ether() {
    assert_eq!(estimate_currency(Currency::Stq), Currency::Eth);
    assert_eq!(estimate_currency(Currency::Btc), Currency::Btc);
    let rate = ExchangeRate { num: 1, den: 100 };
    let e = estimate_withdrawal_fee(2_000_000_000, Currency::Stq, Currency::Stq, options(), Some(rate)).unwrap();
    assert_eq!(e.currency, Currency::Eth);
    assert_eq!(e.gross_fee, 10_000_000);
    assert_eq!(e.fee_price, FeePrice::Ratio { num: 10_000_000, den: 100_000 });
}

#[test]
fn fee_in_another_currency_needs_a_rate() {
    assert_eq!(estimate_withdrawal_fee(100, Currency::Btc, Currency::Eth, options(), None).err(), Some(ErrorKind::Internal));
    let q = fee_rate_request(100, Currency::Btc, Currency::Eth, options()).unwrap();
    assert_eq!(q, RateInput { from: Currency::Btc, to: Currency::Eth, amount: 50, amount_currency: Currency::Btc });
    assert_eq!(fee_rate_request(100, Currency::Eth, Currency::Stq, options()), None);
}

#[test]
fn zero_upside_or_base_is_internal() {
    let mut o = options();
    o.fee_upside = 0;
    assert_eq!(estimate_withdrawal_fee(100, Currency::Eth, Currency::Eth, o, None).err(), Some(ErrorKind::Internal));
    let mut o = options();
    o.eth_gas_limit = 0;
    assert_eq!(estimate_withdrawal_fee(100, Currency::Eth, Currency::Eth, o, None).err(), Some(ErrorKind::Internal));
}

#[test]
fn nonce_is_the_larger_and_the_next_is_stored() {
    assert_eq!(next_nonce(Some(7), 5).unwrap(), (7, 8));
    assert_eq!(next_nonce(Some(3), 5).unwrap(), (5, 6));
    assert_eq!(next_nonce(None, 5).unwrap(), (5, 6));
    assert_eq!(next_nonce(None, u64::MAX).err(), Some(ErrorKind::Internal));
}

#[test]
fn token_transfers_are_sent_from_the_fees_account() {
    let from = BlockchainAddress("0xfrom".to_string());
    let fees = BlockchainAddress("0xfees".to_string());
    assert_eq!(nonce_initiator(Currency::Stq, &from, &fees).unwrap(), fees);
    assert_eq!(nonce_initiator(Currency::Eth, &from, &fees).unwrap(), from);
    assert_eq!(nonce_initiator(Currency::Btc, &from, &fees).err(), Some(ErrorKind::InvalidInput));
}

#[test]
fn token_transfer_id_gets_the_log_index() {
    let h = BlockchainTransactionId::new("0xabc".to_string());
    assert_eq!(ethereum_tx_id(h.clone(), Currency::Stq).unwrap().inner(), "0xabc:0");
    assert_eq!(ethereum_tx_id(h.clone(), Currency::Eth).unwrap().inner(), "0xabc");
    assert_eq!(ethereum_tx_id(h, Currency::Btc).err(), Some(ErrorKind::InvalidInput));
}

#[test]
fn conversion_rounds_down_and_refuses_overflow() {
    assert_eq!(convert_amount(10, 200, 1), Some(2000));
    assert_eq!(convert_amount(7, 1, 2), Some(3));
    assert_eq!(convert_amount(7, 1, 0), None);
    assert_eq!(convert_amount(u128::MAX, 2, 1), None);
}

#[test]
fn statuses_fold_to_pending_if_any_is_pending() {
    assert_eq!(fold_statuses(&vec![]), TransactionStatus::Done);
    assert_eq!(fold_statuses(&vec![TransactionStatus::Done, TransactionStatus::Done]), TransactionStatus::Done);
    assert_eq!(fold_statuses(&vec![TransactionStatus::Done, TransactionStatus::Pending]), TransactionStatus::Pending);
}

#[test]
fn chain_id_keeps_its_text() {
    let id = BlockchainTransactionId::new("hash-1".to_string());
    assert_eq!(id.inner(), "hash-1");
}

#[test]
fn ids_step_and_wrap() {
    assert_eq!(TransactionId(5).next(), TransactionId(6));
    assert_eq!(TransactionId(u128::MAX).next(), TransactionId(0));
}

#[test]
fn signing_request_keeps_its_fields() {
    let r = CreateBlockchainTx::new(
        TransactionId(9),
        BlockchainAddress("a".to_string()),
        BlockchainAddress("b".to_string()),
        Currency::Eth,
        5,
        FeePrice::Whole(3000),
        Some(4),
        None,
    );
    assert_eq!((r.currency, r.value, r.fee_price, r.nonce), (Currency::Eth, 5, FeePrice::Whole(3000), Some(4)));
    assert_eq!(r.to, BlockchainAddress("b".to_string()));
    assert_eq!(r.id, TransactionId(9));
}
