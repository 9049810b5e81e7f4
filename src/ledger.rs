use vstd::prelude::*;

use crate::model::{
    Account, AccountId, AccountKind, BlockchainAddress, BlockchainTransaction, Currency, ErrorKind, NewTransaction,
    PendingBlockchainTransaction, Transaction, TransactionId,
};

verus! {

/// Sum of the values credited to account `a` by the postings of `s`.
pub open spec fn credit_total(s: Seq<Transaction>, a: AccountId) -> int
    decreases s.len(),
{
    if s.len() == 0 {
        0
    } else {
        credit_total(s.drop_last(), a) + if s.last().cr_account_id == a {
            s.last().value as int
        } else {
            0
        }
    }
}

/// Sum of the values debited from account `a` by the postings of `s`.
pub open spec fn debit_total(s: Seq<Transaction>, a: AccountId) -> int
    decreases s.len(),
{
    if s.len() == 0 {
        0
    } else {
        debit_total(s.drop_last(), a) + if s.last().dr_account_id == a {
            s.last().value as int
        } else {
            0
        }
    }
}

/// Signed balance of an account: credits minus debits for a `Cr` account,
/// debits minus credits for a `Dr` (deposit) account.
pub open spec fn balance_of(s: Seq<Transaction>, a: AccountId, kind: AccountKind) -> int {
    match kind {
        AccountKind::Cr => credit_total(s, a) - debit_total(s, a),
        AccountKind::Dr => debit_total(s, a) - credit_total(s, a),
    }
}

pub open spec fn totals_fit(s: Seq<Transaction>, a: AccountId) -> bool {
    credit_total(s, a) <= u128::MAX && debit_total(s, a) <= u128::MAX
}

pub proof fn lemma_totals_push(s: Seq<Transaction>, t: Transaction, a: AccountId)
    ensures
        credit_total(s.push(t), a) == credit_total(s, a) + if t.cr_account_id == a {
            t.value as int
        } else {
            0
        },
        debit_total(s.push(t), a) == debit_total(s, a) + if t.dr_account_id == a {
            t.value as int
        } else {
            0
        },
{
    assert(s.push(t).drop_last() =~= s);
}

pub proof fn lemma_totals_prefix(s: Seq<Transaction>, k: int, a: AccountId)
    requires
        0 <= k <= s.len(),
    ensures
        0 <= credit_total(s.take(k), a) <= credit_total(s, a),
        0 <= debit_total(s.take(k), a) <= debit_total(s, a),
    decreases s.len(),
{
    if s.len() == 0 {
        assert(s.take(k) =~= s);
    } else if k == s.len() {
        assert(s.take(k) =~= s);
        lemma_totals_prefix(s.drop_last(), s.len() - 1, a);
        assert(s.drop_last().take(s.len() - 1) =~= s.drop_last());
    } else {
        lemma_totals_prefix(s.drop_last(), k, a);
        assert(s.drop_last().take(k) =~= s.take(k));
    }
}

pub proof fn lemma_totals_untouched(s: Seq<Transaction>, a: AccountId)
    requires
        forall|i: int| 0 <= i < s.len() ==> s[i].cr_account_id != a && s[i].dr_account_id != a,
    ensures
        credit_total(s, a) == 0,
        debit_total(s, a) == 0,
    decreases s.len(),
{
    if s.len() > 0 {
        lemma_totals_untouched(s.drop_last(), a);
    }
}

/// Net inflow of account `a` over the postings of `s`.
pub open spec fn net_flow(s: Seq<Transaction>, a: AccountId) -> int {
    credit_total(s, a) - debit_total(s, a)
}

/// Sum of the net inflows of the accounts listed in `ids`.
pub open spec fn net_sum(s: Seq<Transaction>, ids: Seq<AccountId>) -> int
    decreases ids.len(),
{
    if ids.len() == 0 {
        0
    } else {
        net_sum(s, ids.drop_last()) + net_flow(s, ids.last())
    }
}

proof fn lemma_net_sum_empty(ids: Seq<AccountId>)
    ensures
        net_sum(Seq::empty(), ids) == 0,
    decreases ids.len(),
{
    if ids.len() > 0 {
        lemma_net_sum_empty(ids.drop_last());
    }
}

proof fn lemma_net_sum_push(s: Seq<Transaction>, t: Transaction, ids: Seq<AccountId>)
    requires
        ids.no_duplicates(),
    ensures
        net_sum(s.push(t), ids) == net_sum(s, ids) + (if ids.contains(t.cr_account_id) {
            t.value as int
        } else {
            0
        }) - (if ids.contains(t.dr_account_id) {
            t.value as int
        } else {
            0
        }),
    decreases ids.len(),
{
    if ids.len() > 0 {
        let rest = ids.drop_last();
        let x = ids.last();
        assert(rest.no_duplicates()) by {
            assert forall|i: int, j: int|
                0 <= i < rest.len() && 0 <= j < rest.len() && i != j implies rest[i]
                != rest[j] by {
                assert(rest[i] == ids[i] && rest[j] == ids[j]);
            }
        }
        lemma_net_sum_push(s, t, rest);
        lemma_totals_push(s, t, x);
        assert(!rest.contains(x)) by {
            if rest.contains(x) {
                let k = choose|k: int| 0 <= k < rest.len() && rest[k] == x;
                assert(ids[k] == ids[ids.len() - 1]);
            }
        }
        assert forall|y: AccountId| ids.contains(y) <==> (rest.contains(y) || y == x) by {
            if ids.contains(y) {
                let k = choose|k: int| 0 <= k < ids.len() && ids[k] == y;
                if k < ids.len() - 1 {
                    assert(rest[k] == y);
                }
            }
            if rest.contains(y) {
                let k = choose|k: int| 0 <= k < rest.len() && rest[k] == y;
                assert(ids[k] == y);
            }
            if y == x {
                assert(ids[ids.len() - 1] == y);
            }
        }
    }
}

/// Conservation: over any run of postings, the net inflows of all the accounts
/// involved add up to zero, since every posting takes from one account exactly
/// what it gives to another.
pub proof fn lemma_conservation(s: Seq<Transaction>, ids: Seq<AccountId>)
    requires
        ids.no_duplicates(),
        forall|i: int|
            0 <= i < s.len() ==> ids.contains(#[trigger] s[i].dr_account_id) && ids.contains(
                s[i].cr_account_id,
            ),
    ensures
        net_sum(s, ids) == 0,
    decreases s.len(),
{
    if s.len() == 0 {
        assert(s =~= Seq::empty());
        lemma_net_sum_empty(ids);
    } else {
        let rest = s.drop_last();
        assert forall|i: int| 0 <= i < rest.len() implies ids.contains(
            #[trigger] rest[i].dr_account_id,
        ) && ids.contains(rest[i].cr_account_id) by {
            assert(rest[i] == s[i]);
        }
        lemma_conservation(rest, ids);
        assert(rest.push(s.last()) =~= s);
        assert(ids.contains(s[s.len() - 1].dr_account_id));
        lemma_net_sum_push(rest, s.last(), ids);
    }
}

/// What inserting `tx` through the balance-checked path fails with, if anything.
pub open spec fn base_tx_error(l: &Ledger, tx: NewTransaction) -> Option<ErrorKind> {
    post_error(l, l.transactions@, tx)
}

/// Whether some posting of `s` carries `id`.
pub open spec fn seq_has_id(s: Seq<Transaction>, id: TransactionId) -> bool {
    exists|i: int| 0 <= i < s.len() && s[i].id == id
}

/// What inserting `tx` fails with when the postings stand at `s` and the
/// accounts are those of `l`.
pub open spec fn post_error(l: &Ledger, s: Seq<Transaction>, tx: NewTransaction) -> Option<
    ErrorKind,
> {
    if !l.has_account(tx.dr_account_id) || !l.has_account(tx.cr_account_id) {
        Some(ErrorKind::Internal)
    } else if l.account(tx.dr_account_id).currency != l.account(tx.cr_account_id).currency
        || tx.currency != l.account(tx.dr_account_id).currency {
        Some(ErrorKind::Internal)
    } else if seq_has_id(s, tx.id) {
        Some(ErrorKind::Internal)
    } else if !totals_fit(s, tx.dr_account_id) {
        Some(ErrorKind::Internal)
    } else if balance_of(s, tx.dr_account_id, l.account(tx.dr_account_id).kind) < tx.value {
        Some(ErrorKind::Balance)
    } else {
        None
    }
}

/// Whether a deposit posting `tx` is refused: it must move value from a known
/// `Dr` account to a known `Cr` account of its currency, under a fresh id.
pub open spec fn deposit_refused(l: &Ledger, tx: NewTransaction) -> bool {
    ||| !l.has_account(tx.dr_account_id)
    ||| !l.has_account(tx.cr_account_id)
    ||| l.account(tx.dr_account_id).kind != AccountKind::Dr
    ||| l.account(tx.cr_account_id).kind != AccountKind::Cr
    ||| l.account(tx.dr_account_id).currency != tx.currency
    ||| l.account(tx.cr_account_id).currency != tx.currency
    ||| l.has_tx_id(tx.id)
}

/// The process-wide system accounts, per currency.
#[derive(Clone, Copy, Debug, PartialEq, Eq, Structural)]
pub struct SystemAccounts {
    pub btc_liquidity: AccountId,
    pub eth_liquidity: AccountId,
    pub stq_liquidity: AccountId,
    pub btc_fees: AccountId,
    pub eth_fees: AccountId,
    pub stq_fees: AccountId,
    pub btc_transfer: AccountId,
    pub eth_transfer: AccountId,
    pub stq_transfer: AccountId,
}

impl SystemAccounts {
    pub open spec fn spec_liquidity(self, c: Currency) -> AccountId {
        match c {
            Currency::Btc => self.btc_liquidity,
            Currency::Eth => self.eth_liquidity,
            Currency::Stq => self.stq_liquidity,
        }
    }

    pub open spec fn spec_fees(self, c: Currency) -> AccountId {
        match c {
            Currency::Btc => self.btc_fees,
            Currency::Eth => self.eth_fees,
            Currency::Stq => self.stq_fees,
        }
    }

    pub open spec fn spec_transfer(self, c: Currency) -> AccountId {
        match c {
            Currency::Btc => self.btc_transfer,
            Currency::Eth => self.eth_transfer,
            Currency::Stq => self.stq_transfer,
        }
    }

    pub fn liquidity(&self, c: Currency) -> (r: AccountId)
        ensures
            r == self.spec_liquidity(c),
    {
        match c {
            Currency::Btc => self.btc_liquidity,
            Currency::Eth => self.eth_liquidity,
            Currency::Stq => self.stq_liquidity,
        }
    }

    pub fn fees(&self, c: Currency) -> (r: AccountId)
        ensures
            r == self.spec_fees(c),
    {
        match c {
            Currency::Btc => self.btc_fees,
            Currency::Eth => self.eth_fees,
            Currency::Stq => self.stq_fees,
        }
    }

    pub fn transfer(&self, c: Currency) -> (r: AccountId)
        ensures
            r == self.spec_transfer(c),
    {
        match c {
            Currency::Btc => self.btc_transfer,
            Currency::Eth => self.eth_transfer,
            Currency::Stq => self.stq_transfer,
        }
    }
}

/// The engine's store: accounts, postings, and what is known of chain transactions.
pub struct Ledger {
    pub system: SystemAccounts,
    pub accounts: Vec<Account>,
    pub transactions: Vec<Transaction>,
    pub pending: Vec<PendingBlockchainTransaction>,
    pub chain: Vec<BlockchainTransaction>,
}

impl Ledger {
    pub open spec fn has_account(&self, id: AccountId) -> bool {
        exists|i: int| 0 <= i < self.accounts@.len() && self.accounts@[i].id == id
    }

    pub open spec fn has_tx_id(&self, id: TransactionId) -> bool {
        seq_has_id(self.transactions@, id)
    }

    /// The account stored under `id` (meaningful when `has_account(id)`).
    pub open spec fn account(&self, id: AccountId) -> Account {
        let i = choose|i: int| 0 <= i < self.accounts@.len() && self.accounts@[i].id == id;
        self.accounts@[i]
    }

    pub open spec fn balance(&self, id: AccountId) -> int {
        balance_of(self.transactions@, id, self.account(id).kind)
    }

    /// Well-formedness: unique account and posting ids, every posting between
    /// known accounts, and no `Cr` account overdrawn.
    pub open spec fn wf(&self) -> bool {
        &&& forall|i: int, j: int|
            0 <= i < j < self.accounts@.len() ==> self.accounts@[i].id != self.accounts@[j].id
        &&& forall|i: int, j: int|
            0 <= i < j < self.transactions@.len() ==> self.transactions@[i].id
                != self.transactions@[j].id
        &&& forall|i: int|
            0 <= i < self.transactions@.len() ==> self.has_account(
                #[trigger] self.transactions@[i].dr_account_id,
            ) && self.has_account(self.transactions@[i].cr_account_id)
        &&& forall|i: int|
            0 <= i < self.accounts@.len() && (#[trigger] self.accounts@[i]).kind == AccountKind::Cr
                ==> credit_total(self.transactions@, self.accounts@[i].id) >= debit_total(
                self.transactions@,
                self.accounts@[i].id,
            )
    }

    /// Everything but the postings is as in `old`.
    pub open spec fn same_except_postings(&self, old: &Ledger) -> bool {
        &&& self.system == old.system
        &&& self.accounts@ == old.accounts@
        &&& self.pending@ == old.pending@
        &&& self.chain@ == old.chain@
    }

    /// The postings, accounts and chain records are those of `old`.
    pub open spec fn unchanged(&self, old: &Ledger) -> bool {
        self.transactions@ == old.transactions@ && self.same_except_postings(old)
    }

    /// Drops the postings after the first `n`: how a group whose later step
    /// failed is undone.
    pub fn truncate_postings(&mut self, n: usize)
        requires
            n <= old(self).transactions@.len(),
        ensures
            final(self).transactions@ == old(self).transactions@.take(n as int),
            final(self).same_except_postings(old(self)),
    {
        self.transactions.truncate(n);
    }

    /// Drops the pending rows after the first `n`.
    pub fn truncate_pending(&mut self, n: usize)
        requires
            n <= old(self).pending@.len(),
        ensures
            final(self).pending@ == old(self).pending@.take(n as int),
            final(self).transactions@ == old(self).transactions@,
            final(self).accounts@ == old(self).accounts@,
            final(self).chain@ == old(self).chain@,
            final(self).system == old(self).system,
    {
        self.pending.truncate(n);
    }

    pub fn new(system: SystemAccounts) -> (r: Ledger)
        ensures
            r.wf(),
            r.system == system,
            r.accounts@.len() == 0,
            r.transactions@.len() == 0,
            r.pending@.len() == 0,
            r.chain@.len() == 0,
    {
        Ledger {
            system,
            accounts: Vec::new(),
            transactions: Vec::new(),
            pending: Vec::new(),
            chain: Vec::new(),
        }
    }

    /// Looks an account up by id.
    pub fn find_account(&self, id: AccountId) -> (r: Option<Account>)
        requires
            self.wf(),
        ensures
            r is Some <==> self.has_account(id),
            r matches Some(a) ==> a == self.account(id) && a.id == id,
    {
        let mut i: usize = 0;
        while i < self.accounts.len()
            invariant
                self.wf(),
                i <= self.accounts@.len(),
                forall|k: int| 0 <= k < i ==> self.accounts@[k].id != id,
            decreases self.accounts@.len() - i,
        {
            if self.accounts[i].id == id {
                proof {
                    let j = choose|j: int|
                        0 <= j < self.accounts@.len() && self.accounts@[j].id == id;
                    assert(j == i as int) by {
                        if j != i as int {
                            if j < i {
                                assert(self.accounts@[j].id != self.accounts@[i as int].id);
                            } else {
                                assert(self.accounts@[i as int].id != self.accounts@[j].id);
                            }
                        }
                    }
                }
                return Some(self.accounts[i].duplicate());
            }
            i = i + 1;
        }
        None
    }

    pub open spec fn address_match(a: Account, addr: Seq<char>, c: Currency) -> bool {
        a.address@ == addr && a.currency == c && a.kind == AccountKind::Cr
    }

    pub open spec fn first_address_match(&self, i: int, addr: Seq<char>, c: Currency) -> bool {
        &&& 0 <= i < self.accounts@.len()
        &&& Self::address_match(self.accounts@[i], addr, c)
        &&& forall|k: int| 0 <= k < i ==> !Self::address_match(self.accounts@[k], addr, c)
    }

    /// The first `Cr` account of currency `c` at address `addr`, if any.
    pub open spec fn address_account(&self, addr: Seq<char>, c: Currency) -> Option<Account> {
        if exists|i: int| self.first_address_match(i, addr, c) {
            let i = choose|i: int| self.first_address_match(i, addr, c);
            Some(self.accounts@[i])
        } else {
            None
        }
    }

    /// Whether an account at `addr` holds a currency other than `c`.
    pub open spec fn foreign_at(&self, addr: Seq<char>, c: Currency) -> bool {
        exists|i: int|
            0 <= i < self.accounts@.len() && self.accounts@[i].address@ == addr
                && self.accounts@[i].currency != c
    }

    pub fn get_by_address(&self, addr: &BlockchainAddress, c: Currency) -> (r: Option<Account>)
        ensures
            r == self.address_account(addr@, c),
    {
        let mut i: usize = 0;
        while i < self.accounts.len()
            invariant
                i <= self.accounts@.len(),
                forall|k: int| 0 <= k < i ==> !Self::address_match(self.accounts@[k], addr@, c),
            decreases self.accounts@.len() - i,
        {
            let a = &self.accounts[i];
            if a.address.same_as(addr) && a.currency == c && a.kind == AccountKind::Cr {
                proof {
                    assert(self.first_address_match(i as int, addr@, c));
                    let j = choose|j: int| self.first_address_match(j, addr@, c);
                    if j < i {
                    } else if j > i {
                        assert(!Self::address_match(self.accounts@[i as int], addr@, c));
                    }
                }
                return Some(a.duplicate());
            }
            i = i + 1;
        }
        None
    }

    pub fn has_foreign_at(&self, addr: &BlockchainAddress, c: Currency) -> (r: bool)
        ensures
            r == self.foreign_at(addr@, c),
    {
        let mut i: usize = 0;
        while i < self.accounts.len()
            invariant
                i <= self.accounts@.len(),
                forall|k: int|
                    0 <= k < i ==> !(self.accounts@[k].address@ == addr@ && self.accounts@[k].currency
                        != c),
            decreases self.accounts@.len() - i,
        {
            let a = &self.accounts[i];
            if a.address.same_as(addr) && a.currency != c {
                return true;
            }
            i = i + 1;
        }
        false
    }

    /// The posting stored under `id` (meaningful when `has_tx_id(id)`).
    pub open spec fn posting(&self, id: TransactionId) -> Transaction {
        let i = choose|i: int| 0 <= i < self.transactions@.len() && self.transactions@[i].id == id;
        self.transactions@[i]
    }

    /// Where the posting `id` is stored.
    pub fn find_transaction(&self, id: TransactionId) -> (r: Option<usize>)
        requires
            self.wf(),
        ensures
            r is Some <==> self.has_tx_id(id),
            r matches Some(i) ==> i < self.transactions@.len() && self.transactions@[i as int]
                == self.posting(id),
    {
        let mut i: usize = 0;
        while i < self.transactions.len()
            invariant
                self.wf(),
                i <= self.transactions@.len(),
                forall|k: int| 0 <= k < i ==> self.transactions@[k].id != id,
            decreases self.transactions@.len() - i,
        {
            if self.transactions[i].id == id {
                proof {
                    let j = choose|j: int|
                        0 <= j < self.transactions@.len() && self.transactions@[j].id == id;
                    if j < i {
                        assert(self.transactions@[j].id != self.transactions@[i as int].id);
                    } else if j > i {
                        assert(self.transactions@[i as int].id != self.transactions@[j].id);
                    }
                }
                return Some(i);
            }
            i = i + 1;
        }
        None
    }

    /// The liquidity account of currency `c`, which takes one side of each exchange.
    pub fn get_system_liquidity_account(&self, c: Currency) -> (r: Result<Account, ErrorKind>)
        requires
            self.wf(),
        ensures
            r is Err <==> !self.has_account(self.system.spec_liquidity(c)),
            r is Err ==> r == Err::<Account, ErrorKind>(ErrorKind::NotFound),
            r matches Ok(a) ==> a == self.account(self.system.spec_liquidity(c)),
    {
        match self.find_account(self.system.liquidity(c)) {
            Some(a) => Ok(a),
            None => Err(ErrorKind::NotFound),
        }
    }

    /// The fees account of currency `c`, which withdrawal fees are paid into.
    pub fn get_system_fees_account(&self, c: Currency) -> (r: Result<Account, ErrorKind>)
        requires
            self.wf(),
        ensures
            r is Err <==> !self.has_account(self.system.spec_fees(c)),
            r is Err ==> r == Err::<Account, ErrorKind>(ErrorKind::NotFound),
            r matches Ok(a) ==> a == self.account(self.system.spec_fees(c)),
    {
        match self.find_account(self.system.fees(c)) {
            Some(a) => Ok(a),
            None => Err(ErrorKind::NotFound),
        }
    }

    /// The transfer account of currency `c`, the hop of cross-currency withdrawals.
    pub fn get_system_transfer_account(&self, c: Currency) -> (r: Result<Account, ErrorKind>)
        requires
            self.wf(),
        ensures
            r is Err <==> !self.has_account(self.system.spec_transfer(c)),
            r is Err ==> r == Err::<Account, ErrorKind>(ErrorKind::NotFound),
            r matches Ok(a) ==> a == self.account(self.system.spec_transfer(c)),
    {
        match self.find_account(self.system.transfer(c)) {
            Some(a) => Ok(a),
            None => Err(ErrorKind::NotFound),
        }
    }

    /// Whether some posting already carries `id`.
    pub fn contains_tx_id(&self, id: TransactionId) -> (r: bool)
        ensures
            r == self.has_tx_id(id),
    {
        let mut i: usize = 0;
        while i < self.transactions.len()
            invariant
                i <= self.transactions@.len(),
                forall|k: int| 0 <= k < i ==> self.transactions@[k].id != id,
            decreases self.transactions@.len() - i,
        {
            if self.transactions[i].id == id {
                return true;
            }
            i = i + 1;
        }
        false
    }

    /// Credit and debit totals of account `id`; `None` when one does not fit in `u128`.
    pub fn totals(&self, id: AccountId) -> (r: Option<(u128, u128)>)
        ensures
            r is Some <==> totals_fit(self.transactions@, id),
            r matches Some((c, d)) ==> c == credit_total(self.transactions@, id) && d
                == debit_total(self.transactions@, id),
    {
        let ghost s = self.transactions@;
        let mut c: u128 = 0;
        let mut d: u128 = 0;
        let mut i: usize = 0;
        while i < self.transactions.len()
            invariant
                s == self.transactions@,
                i <= s.len(),
                c == credit_total(s.take(i as int), id),
                d == debit_total(s.take(i as int), id),
            decreases s.len() - i,
        {
            let t = &self.transactions[i];
            proof {
                assert(s.take(i + 1).drop_last() =~= s.take(i as int));
                lemma_totals_prefix(s, i + 1, id);
            }
            if t.cr_account_id == id {
                match c.checked_add(t.value) {
                    Some(x) => c = x,
                    None => return None,
                }
            }
            if t.dr_account_id == id {
                match d.checked_add(t.value) {
                    Some(x) => d = x,
                    None => return None,
                }
            }
            i = i + 1;
        }
        proof {
            assert(s.take(s.len() as int) =~= s);
        }
        Some((c, d))
    }
    pub proof fn lemma_account_at(&self, i: int)
        requires
            self.wf(),
            0 <= i < self.accounts@.len(),
        ensures
            self.has_account(self.accounts@[i].id),
            self.account(self.accounts@[i].id) == self.accounts@[i],
    {
        let id = self.accounts@[i].id;
        assert(self.has_account(id));
        let j = choose|j: int| 0 <= j < self.accounts@.len() && self.accounts@[j].id == id;
        if j < i {
            assert(self.accounts@[j].id != self.accounts@[i].id);
        } else if i < j {
            assert(self.accounts@[i].id != self.accounts@[j].id);
        }
    }

    /// Inserts a posting after checking that its accounts exist and share its
    /// currency, that its id is fresh, and that the debited account holds at
    /// least its value.
    pub fn create_base_tx(&mut self, tx: NewTransaction, now: u64) -> (r: Result<
        Transaction,
        ErrorKind,
    >)
        requires
            old(self).wf(),
        ensures
            final(self).wf(),
            r matches Err(e) ==> base_tx_error(old(self), tx) == Some(e) && *final(self) == *old(self),
            r is Ok <==> base_tx_error(old(self), tx) is None,
            r matches Ok(t) ==> t == Transaction::stored(tx, now) && final(self).transactions@
                == old(self).transactions@.push(t) && final(self).same_except_postings(old(self)),
    {
        let dr = match self.find_account(tx.dr_account_id) {
            Some(a) => a,
            None => return Err(ErrorKind::Internal),
        };
        let cr = match self.find_account(tx.cr_account_id) {
            Some(a) => a,
            None => return Err(ErrorKind::Internal),
        };
        if dr.currency != cr.currency || tx.currency != dr.currency {
            return Err(ErrorKind::Internal);
        }
        if self.contains_tx_id(tx.id) {
            return Err(ErrorKind::Internal);
        }
        let (c, d) = match self.totals(tx.dr_account_id) {
            Some(p) => p,
            None => return Err(ErrorKind::Internal),
        };
        let enough = match dr.kind {
            AccountKind::Cr => c >= d && c - d >= tx.value,
            AccountKind::Dr => d >= c && d - c >= tx.value,
        };
        if !enough {
            return Err(ErrorKind::Balance);
        }
        let t = Transaction::from_new(tx, now);
        let ghost s0 = self.transactions@;
        let ghost pre = *self;
        self.transactions.push(t.duplicate());
        proof {
            let s1 = self.transactions@;
            assert(s1 == s0.push(t));
            assert forall|i: int, j: int| 0 <= i < j < s1.len() implies s1[i].id != s1[j].id by {
                if j == s1.len() - 1 {
                    assert(s1[i] == s0[i]);
                    assert(!pre.has_tx_id(t.id));
                }
            }
            assert forall|i: int| 0 <= i < s1.len() implies self.has_account(
                #[trigger] s1[i].dr_account_id,
            ) && self.has_account(s1[i].cr_account_id) by {
                if i < s0.len() {
                    assert(s1[i] == s0[i]);
                    assert(pre.has_account(s0[i].dr_account_id));
                }
            }
            assert forall|i: int|
                0 <= i < self.accounts@.len() && (#[trigger] self.accounts@[i]).kind
                    == AccountKind::Cr implies credit_total(s1, self.accounts@[i].id)
                >= debit_total(s1, self.accounts@[i].id) by {
                lemma_totals_push(s0, t, self.accounts@[i].id);
                pre.lemma_account_at(i);
            }
        }
        Ok(t)
    }

    /// Adds an account under a fresh id.
    pub fn add_account(&mut self, acc: Account) -> (r: Result<(), ErrorKind>)
        requires
            old(self).wf(),
        ensures
            final(self).wf(),
            r is Err <==> old(self).has_account(acc.id),
            r is Err ==> *final(self) == *old(self),
            r is Ok ==> final(self).accounts@ == old(self).accounts@.push(acc),
            r is Ok ==> final(self).transactions@ == old(self).transactions@,
            final(self).pending@ == old(self).pending@,
            final(self).chain@ == old(self).chain@,
            final(self).system == old(self).system,
    {
        if self.find_account(acc.id).is_some() {
            return Err(ErrorKind::Internal);
        }
        let ghost pre = *self;
        let ghost id = acc.id;
        self.accounts.push(acc);
        proof {
            let a1 = self.accounts@;
            let s = self.transactions@;
            assert forall|i: int| 0 <= i < s.len() implies s[i].cr_account_id != id
                && s[i].dr_account_id != id by {
                assert(pre.has_account(s[i].dr_account_id));
                assert(pre.has_account(s[i].cr_account_id));
            }
            lemma_totals_untouched(s, id);
            assert forall|i: int, j: int| 0 <= i < j < a1.len() implies a1[i].id != a1[j].id by {
                if j == a1.len() - 1 {
                    assert(a1[i] == pre.accounts@[i]);
                }
            }
            assert forall|i: int| 0 <= i < s.len() implies self.has_account(
                #[trigger] s[i].dr_account_id,
            ) && self.has_account(s[i].cr_account_id) by {
                assert(pre.has_account(s[i].dr_account_id));
                assert(pre.has_account(s[i].cr_account_id));
                let k1 = choose|k: int| 0 <= k < pre.accounts@.len() && pre.accounts@[k].id == s[i].dr_account_id;
                let k2 = choose|k: int| 0 <= k < pre.accounts@.len() && pre.accounts@[k].id == s[i].cr_account_id;
                assert(a1[k1] == pre.accounts@[k1]);
                assert(a1[k2] == pre.accounts@[k2]);
            }
            assert forall|i: int|
                0 <= i < a1.len() && (#[trigger] a1[i]).kind == AccountKind::Cr implies credit_total(
                s,
                a1[i].id,
            ) >= debit_total(s, a1[i].id) by {
                if i < a1.len() - 1 {
                    assert(a1[i] == pre.accounts@[i]);
                }
            }
        }
        Ok(())
    }

    /// Records a deposit observed on chain: a posting from a `Dr` deposit
    /// account to a `Cr` account, taken as given without a balance check.
    pub fn record_deposit(&mut self, tx: NewTransaction, now: u64) -> (r: Result<
        Transaction,
        ErrorKind,
    >)
        requires
            old(self).wf(),
        ensures
            final(self).wf(),
            r is Err <==> deposit_refused(old(self), tx),
            r is Err ==> *final(self) == *old(self) && r == Err::<Transaction, ErrorKind>(
                ErrorKind::Internal,
            ),
            r matches Ok(t) ==> t == Transaction::stored(tx, now) && final(self).transactions@
                == old(self).transactions@.push(t) && final(self).same_except_postings(old(self)),
    {
        let dr = match self.find_account(tx.dr_account_id) {
            Some(a) => a,
            None => return Err(ErrorKind::Internal),
        };
        let cr = match self.find_account(tx.cr_account_id) {
            Some(a) => a,
            None => return Err(ErrorKind::Internal),
        };
        if dr.kind != AccountKind::Dr || cr.kind != AccountKind::Cr || dr.currency != tx.currency
            || cr.currency != tx.currency {
            return Err(ErrorKind::Internal);
        }
        if self.contains_tx_id(tx.id) {
            return Err(ErrorKind::Internal);
        }
        let t = Transaction::from_new(tx, now);
        let ghost s0 = self.transactions@;
        let ghost pre = *self;
        self.transactions.push(t.duplicate());
        proof {
            let s1 = self.transactions@;
            assert(s1 == s0.push(t));
            assert forall|i: int, j: int| 0 <= i < j < s1.len() implies s1[i].id != s1[j].id by {
                if j == s1.len() - 1 {
                    assert(s1[i] == s0[i]);
                    assert(!pre.has_tx_id(t.id));
                }
            }
            assert forall|i: int| 0 <= i < s1.len() implies self.has_account(
                #[trigger] s1[i].dr_account_id,
            ) && self.has_account(s1[i].cr_account_id) by {
                if i < s0.len() {
                    assert(s1[i] == s0[i]);
                    assert(pre.has_account(s0[i].dr_account_id));
                }
            }
            assert forall|i: int|
                0 <= i < self.accounts@.len() && (#[trigger] self.accounts@[i]).kind
                    == AccountKind::Cr implies credit_total(s1, self.accounts@[i].id)
                >= debit_total(s1, self.accounts@[i].id) by {
                lemma_totals_push(s0, t, self.accounts@[i].id);
                pre.lemma_account_at(i);
            }
        }
        Ok(t)
    }

    /// Records a transaction this service broadcast and awaits.
    pub fn add_pending(&mut self, p: PendingBlockchainTransaction)
        requires
            old(self).wf(),
        ensures
            final(self).wf(),
            final(self).pending@ == old(self).pending@.push(p),
            final(self).accounts@ == old(self).accounts@,
            final(self).transactions@ == old(self).transactions@,
            final(self).chain@ == old(self).chain@,
            final(self).system == old(self).system,
    {
        self.pending.push(p);
    }

    /// Records a transaction observed on a blockchain.
    pub fn add_chain_transaction(&mut self, t: BlockchainTransaction)
        requires
            old(self).wf(),
        ensures
            final(self).wf(),
            final(self).chain@ == old(self).chain@.push(t),
            final(self).accounts@ == old(self).accounts@,
            final(self).transactions@ == old(self).transactions@,
            final(self).pending@ == old(self).pending@,
            final(self).system == old(self).system,
    {
        self.chain.push(t);
    }

    /// The ids of all accounts, in order.
    pub open spec fn account_ids(&self) -> Seq<AccountId> {
        self.accounts@.map_values(|a: Account| a.id)
    }

    /// Conservation for a stored group: over the postings from `start` on (a
    /// group the composer appended, say) the net inflows of all accounts add up
    /// to zero.
    pub proof fn lemma_group_conservation(&self, start: int)
        requires
            self.wf(),
            0 <= start <= self.transactions@.len(),
        ensures
            net_sum(
                self.transactions@.subrange(start, self.transactions@.len() as int),
                self.account_ids(),
            ) == 0,
    {
        let ids = self.account_ids();
        let g = self.transactions@.subrange(start, self.transactions@.len() as int);
        assert forall|i: int, j: int| 0 <= i < ids.len() && 0 <= j < ids.len() && i != j implies ids[i]
            != ids[j] by {
            if i < j {
                assert(self.accounts@[i].id != self.accounts@[j].id);
            } else {
                assert(self.accounts@[j].id != self.accounts@[i].id);
            }
        }
        assert forall|i: int| 0 <= i < g.len() implies ids.contains(#[trigger] g[i].dr_account_id)
            && ids.contains(g[i].cr_account_id) by {
            assert(g[i] == self.transactions@[start + i]);
            assert(self.has_account(self.transactions@[start + i].dr_account_id));
            let a = choose|a: int|
                0 <= a < self.accounts@.len() && self.accounts@[a].id == g[i].dr_account_id;
            let b = choose|b: int|
                0 <= b < self.accounts@.len() && self.accounts@[b].id == g[i].cr_account_id;
            assert(ids[a] == g[i].dr_account_id);
            assert(ids[b] == g[i].cr_account_id);
        }
        lemma_conservation(g, ids);
    }

    /// Conservation per currency: over the postings of currency `c` from
    /// `start` on, the net inflows of all accounts add up to zero.
    pub proof fn lemma_group_conservation_in(&self, start: int, c: Currency)
        requires
            self.wf(),
            0 <= start <= self.transactions@.len(),
        ensures
            net_sum(
                self.transactions@.subrange(start, self.transactions@.len() as int).filter(
                    |t: Transaction| t.currency == c,
                ),
                self.account_ids(),
            ) == 0,
    {
        let ids = self.account_ids();
        let g = self.transactions@.subrange(start, self.transactions@.len() as int);
        let pred = |t: Transaction| t.currency == c;
        let gc = g.filter(pred);
        assert forall|i: int, j: int| 0 <= i < ids.len() && 0 <= j < ids.len() && i != j implies ids[i]
            != ids[j] by {
            if i < j {
                assert(self.accounts@[i].id != self.accounts@[j].id);
            } else {
                assert(self.accounts@[j].id != self.accounts@[i].id);
            }
        }
        assert forall|i: int| 0 <= i < gc.len() implies ids.contains(#[trigger] gc[i].dr_account_id)
            && ids.contains(gc[i].cr_account_id) by {
            assert(gc.contains(gc[i]));
            g.lemma_filter_contains_rev(pred, gc[i]);
            let k = choose|k: int| 0 <= k < g.len() && g[k] == gc[i];
            assert(g[k] == self.transactions@[start + k]);
            assert(self.has_account(self.transactions@[start + k].dr_account_id));
            let a = choose|a: int|
                0 <= a < self.accounts@.len() && self.accounts@[a].id == gc[i].dr_account_id;
            let b = choose|b: int|
                0 <= b < self.accounts@.len() && self.accounts@[b].id == gc[i].cr_account_id;
            assert(ids[a] == gc[i].dr_account_id);
            assert(ids[b] == gc[i].cr_account_id);
        }
        lemma_conservation(gc, ids);
    }

    /// No overdraft: in a well-formed ledger no `Cr` account has been debited
    /// more than it was credited.
    pub proof fn lemma_no_overdraft(&self, id: AccountId)
        requires
            self.wf(),
            self.has_account(id),
            self.account(id).kind == AccountKind::Cr,
        ensures
            credit_total(self.transactions@, id) >= debit_total(self.transactions@, id),
            self.balance(id) >= 0,
    {
        let j = choose|j: int| 0 <= j < self.accounts@.len() && self.accounts@[j].id == id;
        assert(self.accounts@[j].kind == AccountKind::Cr);
    }
}

} // verus!
