use vstd::prelude::*;

use crate::model::{
    BitcoinUtxos, BlockchainAddress, BlockchainTransactionId, Currency, ErrorKind, ExchangeRate,
    TransactionId, convert_amount, converted,
};

verus! {

/// Fee settings: the safety factor callers add to fees, and the per-currency
/// base unit a fee is divided by to get a fee price.
#[derive(Clone, Copy, Debug, PartialEq, Eq, Structural)]
pub struct FeesOptions {
    pub fee_upside: u64,
    pub btc_transaction_size: u64,
    pub eth_gas_limit: u64,
    pub stq_gas_limit: u64,
}

/// Below this whole fee price the exact ratio is kept instead.
pub const MIN_WHOLE_FEE_PRICE: u128 = 1000;

/// A fee price per base unit: a whole number, or the exact ratio when the
/// whole part would lose too much precision.
#[derive(Clone, Copy, Debug, PartialEq, Eq, Structural)]
pub enum FeePrice {
    Whole(u128),
    Ratio { num: u128, den: u128 },
}

#[derive(Clone, Copy, Debug, PartialEq, Eq, Structural)]
pub struct FeeEstimate {
    pub gross_fee: u128,
    pub fee_price: FeePrice,
    pub currency: Currency,
}

/// The rate question put to the exchange provider when a fee must change currency.
#[derive(Clone, Copy, Debug, PartialEq, Eq, Structural)]
pub struct RateInput {
    pub from: Currency,
    pub to: Currency,
    pub amount: u128,
    pub amount_currency: Currency,
}

/// The currency chain fees are paid in: ether for STQ token transfers.
pub open spec fn spec_estimate_currency(withdrawal_currency: Currency) -> Currency {
    match withdrawal_currency {
        Currency::Btc => Currency::Btc,
        Currency::Eth => Currency::Eth,
        Currency::Stq => Currency::Eth,
    }
}

pub fn estimate_currency(withdrawal_currency: Currency) -> (r: Currency)
    ensures
        r == spec_estimate_currency(withdrawal_currency),
{
    match withdrawal_currency {
        Currency::Btc => Currency::Btc,
        Currency::Eth => Currency::Eth,
        Currency::Stq => Currency::Eth,
    }
}

pub open spec fn spec_base_unit(options: FeesOptions, withdrawal_currency: Currency) -> u64 {
    match withdrawal_currency {
        Currency::Btc => options.btc_transaction_size,
        Currency::Eth => options.eth_gas_limit,
        Currency::Stq => options.stq_gas_limit,
    }
}

/// The fee estimate, given the rate obtained when the fee changes currency.
pub open spec fn spec_estimate(
    input_gross_fee: u128,
    input_fee_currency: Currency,
    withdrawal_currency: Currency,
    options: FeesOptions,
    rate: Option<ExchangeRate>,
) -> Result<FeeEstimate, ErrorKind> {
    let est = spec_estimate_currency(withdrawal_currency);
    let base = spec_base_unit(options, withdrawal_currency) as int;
    if options.fee_upside == 0 {
        Err(ErrorKind::Internal)
    } else {
        let native = input_gross_fee as int / options.fee_upside as int;
        let fee: Option<int> = if input_fee_currency == est {
            Some(native)
        } else {
            match rate {
                Some(r) => if r.den == 0 || native * r.num > u128::MAX {
                    None
                } else {
                    Some(converted(native, r.num as int, r.den as int))
                },
                None => None,
            }
        };
        match fee {
            None => Err(ErrorKind::Internal),
            Some(f) => if base == 0 {
                Err(ErrorKind::Internal)
            } else {
                Ok(
                    FeeEstimate {
                        gross_fee: f as u128,
                        fee_price: if f / base < MIN_WHOLE_FEE_PRICE {
                            FeePrice::Ratio { num: f as u128, den: base as u128 }
                        } else {
                            FeePrice::Whole((f / base) as u128)
                        },
                        currency: est,
                    },
                )
            },
        }
    }
}

/// The rate to ask for before estimating, if the fee must change currency.
pub fn fee_rate_request(
    input_gross_fee: u128,
    input_fee_currency: Currency,
    withdrawal_currency: Currency,
    options: FeesOptions,
) -> (r: Option<RateInput>)
    ensures
        r is Some <==> options.fee_upside != 0 && input_fee_currency != spec_estimate_currency(
            withdrawal_currency,
        ),
        r matches Some(q) ==> q == (RateInput {
            from: input_fee_currency,
            to: spec_estimate_currency(withdrawal_currency),
            amount: (input_gross_fee / options.fee_upside as u128) as u128,
            amount_currency: input_fee_currency,
        }),
{
    let est = estimate_currency(withdrawal_currency);
    if options.fee_upside == 0 || input_fee_currency == est {
        return None;
    }
    Some(
        RateInput {
            from: input_fee_currency,
            to: est,
            amount: input_gross_fee / options.fee_upside as u128,
            amount_currency: input_fee_currency,
        },
    )
}

/// Estimates a withdrawal's chain fee: the caller's gross fee without its
/// safety factor, in the currency fees are paid in (converted at `rate` when
/// that differs), and the fee price per base unit of the withdrawal currency.
pub fn estimate_withdrawal_fee(
    input_gross_fee: u128,
    input_fee_currency: Currency,
    withdrawal_currency: Currency,
    options: FeesOptions,
    rate: Option<ExchangeRate>,
) -> (r: Result<FeeEstimate, ErrorKind>)
    ensures
        r == spec_estimate(input_gross_fee, input_fee_currency, withdrawal_currency, options, rate),
{
    if options.fee_upside == 0 {
        return Err(ErrorKind::Internal);
    }
    let native = input_gross_fee / options.fee_upside as u128;
    let est = estimate_currency(withdrawal_currency);
    let fee = if input_fee_currency == est {
        native
    } else {
        match rate {
            Some(r) => match convert_amount(native, r.num, r.den) {
                Some(f) => f,
                None => return Err(ErrorKind::Internal),
            },
            None => return Err(ErrorKind::Internal),
        }
    };
    let base: u64 = match withdrawal_currency {
        Currency::Btc => options.btc_transaction_size,
        Currency::Eth => options.eth_gas_limit,
        Currency::Stq => options.stq_gas_limit,
    };
    if base == 0 {
        return Err(ErrorKind::Internal);
    }
    let whole = fee / base as u128;
    let fee_price = if whole < MIN_WHOLE_FEE_PRICE {
        FeePrice::Ratio { num: fee, den: base as u128 }
    } else {
        FeePrice::Whole(whole)
    };
    Ok(FeeEstimate { gross_fee: fee, fee_price, currency: est })
}

/// The address whose nonce an ethereum transfer uses: the ether fees account
/// pays the gas of token transfers, so it sends them. Bitcoin has no nonce.
pub fn nonce_initiator(
    currency: Currency,
    from: &BlockchainAddress,
    eth_fees_address: &BlockchainAddress,
) -> (r: Result<BlockchainAddress, ErrorKind>)
    ensures
        currency == Currency::Btc ==> r == Err::<BlockchainAddress, ErrorKind>(
            ErrorKind::InvalidInput,
        ),
        currency == Currency::Eth ==> r == Ok::<BlockchainAddress, ErrorKind>(*from),
        currency == Currency::Stq ==> r == Ok::<BlockchainAddress, ErrorKind>(*eth_fees_address),
{
    match currency {
        Currency::Btc => Err(ErrorKind::InvalidInput),
        Currency::Eth => Ok(from.duplicate()),
        Currency::Stq => Ok(eth_fees_address.duplicate()),
    }
}

pub open spec fn spec_nonce(db_nonce: Option<u64>, chain_nonce: u64) -> u64 {
    match db_nonce {
        Some(d) => if d > chain_nonce {
            d
        } else {
            chain_nonce
        },
        None => chain_nonce,
    }
}

/// The nonce to send with, the larger of the stored one and the chain's, and
/// the nonce to store for the next transfer.
pub fn next_nonce(db_nonce: Option<u64>, chain_nonce: u64) -> (r: Result<(u64, u64), ErrorKind>)
    ensures
        r is Err <==> spec_nonce(db_nonce, chain_nonce) == u64::MAX,
        r is Err ==> r == Err::<(u64, u64), ErrorKind>(ErrorKind::Internal),
        r matches Ok((n, stored)) ==> n == spec_nonce(db_nonce, chain_nonce) && stored == n + 1,
{
    let n = match db_nonce {
        Some(d) => if d > chain_nonce {
            d
        } else {
            chain_nonce
        },
        None => chain_nonce,
    };
    if n == u64::MAX {
        return Err(ErrorKind::Internal);
    }
    Ok((n, n + 1))
}

/// The id recorded for a broadcast ethereum transfer: the chain hash for
/// ether, the hash with its first log index for a token transfer.
pub fn ethereum_tx_id(hash: BlockchainTransactionId, currency: Currency) -> (r: Result<
    BlockchainTransactionId,
    ErrorKind,
>)
    ensures
        currency == Currency::Btc ==> r == Err::<BlockchainTransactionId, ErrorKind>(
            ErrorKind::InvalidInput,
        ),
        currency == Currency::Eth ==> r == Ok::<BlockchainTransactionId, ErrorKind>(hash),
        currency == Currency::Stq ==> (r matches Ok(id) && id@ == hash@ + seq![':', '0']),
{
    match currency {
        Currency::Btc => Err(ErrorKind::InvalidInput),
        Currency::Eth => Ok(hash),
        Currency::Stq => Ok(hash.with_first_log_index()),
    }
}

/// What the key service is asked to sign for one broadcast.
#[derive(Clone, Debug, PartialEq, Eq)]
pub struct CreateBlockchainTx {
    pub id: TransactionId,
    pub from: BlockchainAddress,
    pub to: BlockchainAddress,
    pub currency: Currency,
    pub value: u128,
    pub fee_price: FeePrice,
    pub nonce: Option<u64>,
    pub utxos: Option<Vec<BitcoinUtxos>>,
}

impl CreateBlockchainTx {
    /// A signing request under the id `id`.
    pub fn new(
        id: TransactionId,
        from: BlockchainAddress,
        to: BlockchainAddress,
        currency: Currency,
        value: u128,
        fee_price: FeePrice,
        nonce: Option<u64>,
        utxos: Option<Vec<BitcoinUtxos>>,
    ) -> (r: Self)
        ensures
            r.id == id,
            r.from == from,
            r.to == to,
            r.currency == currency,
            r.value == value,
            r.fee_price == fee_price,
            r.nonce == nonce,
            r.utxos == utxos,
    {
        CreateBlockchainTx {
            id,
            from,
            to,
            currency,
            value,
            fee_price,
            nonce,
            utxos,
        }
    }
}

} // verus!
