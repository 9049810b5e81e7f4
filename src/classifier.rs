use vstd::prelude::*;

use crate::ledger::Ledger;
use crate::model::{
    Account, AccountId, BlockchainAddress, CreateTransactionInput, Currency, ErrorKind, ExchangeId,
    ExchangeRate, ReceiptType,
};

verus! {

/// The four ways a request can be carried out.
#[derive(Clone, Debug, PartialEq, Eq)]
pub enum TransactionType {
    /// Same currency, both accounts held here.
    Internal(Account, Account),
    /// Same currency, to an outside chain address.
    Withdrawal(Account, BlockchainAddress, Currency),
    /// Different currencies, both accounts held here.
    InternalExchange(Account, Account, ExchangeId, ExchangeRate),
    /// Different currencies, to an outside chain address.
    WithdrawalExchange(Account, BlockchainAddress, Currency, ExchangeId, ExchangeRate),
}

/// The structural rules a request must meet: it moves a positive value.
pub open spec fn input_valid(input: CreateTransactionInput) -> bool {
    input.value > 0
}

/// Between two held accounts: `Internal` when the currencies agree, else
/// `InternalExchange`, which needs the exchange fields and a value currency
/// that is one of the two.
pub open spec fn spec_between_accounts(
    input: CreateTransactionInput,
    from: Account,
    to: Account,
) -> Result<TransactionType, ErrorKind> {
    if from.currency == to.currency {
        Ok(TransactionType::Internal(from, to))
    } else {
        match (input.exchange_id, input.exchange_rate) {
            (Some(eid), Some(rate)) => {
                if input.value_currency != from.currency && input.value_currency != to.currency {
                    Err(ErrorKind::MalformedInput)
                } else {
                    Ok(TransactionType::InternalExchange(from, to, eid, rate))
                }
            },
            _ => Err(ErrorKind::MalformedInput),
        }
    }
}

/// Classification of `input`, with the recipient read as account id `to_id`.
pub open spec fn spec_classify(
    l: &Ledger,
    input: CreateTransactionInput,
    to_id: Option<AccountId>,
) -> Result<TransactionType, ErrorKind> {
    if !input_valid(input) {
        Err(ErrorKind::InvalidInput)
    } else if !l.has_account(input.from) {
        Err(ErrorKind::NotFound)
    } else {
        let from = l.account(input.from);
        match input.to_type {
            ReceiptType::Account => match to_id {
                None => Err(ErrorKind::MalformedInput),
                Some(id) => {
                    if !l.has_account(id) {
                        Err(ErrorKind::NotFound)
                    } else if l.account(id).currency != input.to_currency {
                        Err(ErrorKind::MalformedInput)
                    } else {
                        spec_between_accounts(input, from, l.account(id))
                    }
                },
            },
            ReceiptType::Address => match l.address_account(input.to@, input.to_currency) {
                Some(to) => spec_between_accounts(input, from, to),
                None => {
                    if l.foreign_at(input.to@, input.to_currency) {
                        Err(ErrorKind::MalformedInput)
                    } else if from.currency == input.to_currency {
                        Ok(
                            TransactionType::Withdrawal(
                                from,
                                BlockchainAddress(input.to.0),
                                input.to_currency,
                            ),
                        )
                    } else {
                        match (input.exchange_id, input.exchange_rate) {
                            (Some(eid), Some(rate)) => Ok(
                                TransactionType::WithdrawalExchange(
                                    from,
                                    BlockchainAddress(input.to.0),
                                    input.to_currency,
                                    eid,
                                    rate,
                                ),
                            ),
                            _ => Err(ErrorKind::MalformedInput),
                        }
                    }
                },
            },
        }
    }
}

/// The recipient as an account id, read only when the request names an account.
pub open spec fn spec_recipient_id(input: CreateTransactionInput) -> Option<AccountId> {
    match input.to_type {
        ReceiptType::Account => input.to.spec_account_id(),
        ReceiptType::Address => None,
    }
}

fn between_accounts(input: &CreateTransactionInput, from: Account, to: Account) -> (r: Result<
    TransactionType,
    ErrorKind,
>)
    ensures
        r == spec_between_accounts(*input, from, to),
{
    if from.currency == to.currency {
        Ok(TransactionType::Internal(from, to))
    } else {
        match (input.exchange_id, input.exchange_rate) {
            (Some(eid), Some(rate)) => {
                if input.value_currency != from.currency && input.value_currency != to.currency {
                    Err(ErrorKind::MalformedInput)
                } else {
                    Ok(TransactionType::InternalExchange(from, to, eid, rate))
                }
            },
            _ => Err(ErrorKind::MalformedInput),
        }
    }
}

/// Classifies a request whose recipient has already been read as `to_id`.
pub fn classify_transaction(
    l: &Ledger,
    input: &CreateTransactionInput,
    to_id: Option<AccountId>,
) -> (r: Result<TransactionType, ErrorKind>)
    requires
        l.wf(),
    ensures
        r == spec_classify(l, *input, to_id),
{
    if input.value == 0 {
        return Err(ErrorKind::InvalidInput);
    }
    let from = match l.find_account(input.from) {
        Some(a) => a,
        None => return Err(ErrorKind::NotFound),
    };
    match input.to_type {
        ReceiptType::Account => {
            let id = match to_id {
                Some(id) => id,
                None => return Err(ErrorKind::MalformedInput),
            };
            let to = match l.find_account(id) {
                Some(a) => a,
                None => return Err(ErrorKind::NotFound),
            };
            if to.currency != input.to_currency {
                return Err(ErrorKind::MalformedInput);
            }
            between_accounts(input, from, to)
        },
        ReceiptType::Address => {
            let addr = input.to.to_account_address();
            match l.get_by_address(&addr, input.to_currency) {
                Some(to) => between_accounts(input, from, to),
                None => {
                    if l.has_foreign_at(&addr, input.to_currency) {
                        return Err(ErrorKind::MalformedInput);
                    }
                    if from.currency == input.to_currency {
                        Ok(TransactionType::Withdrawal(from, addr, input.to_currency))
                    } else {
                        match (input.exchange_id, input.exchange_rate) {
                            (Some(eid), Some(rate)) => Ok(
                                TransactionType::WithdrawalExchange(
                                    from,
                                    addr,
                                    input.to_currency,
                                    eid,
                                    rate,
                                ),
                            ),
                            _ => Err(ErrorKind::MalformedInput),
                        }
                    }
                },
            }
        },
    }
}

/// Validates a request and decides which of the four kinds of transfer it is.
pub fn validate_and_classify_transaction(l: &Ledger, input: &CreateTransactionInput) -> (r: Result<
    TransactionType,
    ErrorKind,
>)
    requires
        l.wf(),
    ensures
        r == spec_classify(l, *input, spec_recipient_id(*input)),
{
    let to_id = match input.to_type {
        ReceiptType::Account => input.to.to_account_id(),
        ReceiptType::Address => None,
    };
    classify_transaction(l, input, to_id)
}

} // verus!
