//! The token ledger's operations: account creation, metadata validation,
//! transfer, burn, transfer-with-notification and the balance and metadata
//! queries.

use vstd::prelude::*;
use vstd::string::StringSliceAdditionalSpecFns;
use vstd::utf8::encode_utf8;

use crate::error::ContractError;
use crate::ledger::{
    amount_sum, bal_of, balances_burned, balances_moved, holders_unique, moved_bal, rows,
};
use crate::ledger::{debit_impl, lookup_balance, transfer_impl};
use crate::ledger::{
    lemma_amount_sum_nonneg, lemma_amount_sum_take_le, lemma_amount_sum_take_step,
    lemma_bal_of_le_sum, lemma_bal_of_push,
};
use crate::msg::{BalanceResponse, InitialBalance, ReceiveNotification, TokenInfoResponse,
    TokenInstantiateInfo};
use crate::state::{Dao, DaoView, TokenInfoView};

verus! {

/// The two states agree on everything but the balance list.
pub open spec fn only_balances_changed(pre: DaoView, post: DaoView) -> bool {
    &&& post.token == pre.token
    &&& post.config == pre.config
    &&& post.proposals == pre.proposals
    &&& post.items == pre.items
    &&& post.contract_addr == pre.contract_addr
}

/// What a successful transfer (or send) of `amount` from `sender` to
/// `recipient` did, and when it was owed.
pub open spec fn transfer_ok(
    pre: DaoView,
    post: DaoView,
    sender: Seq<char>,
    recipient: Seq<char>,
    amount: u128,
) -> bool {
    &&& amount > 0
    &&& bal_of(pre.balances, sender) >= amount
    &&& only_balances_changed(pre, post)
    &&& balances_moved(pre.balances, post.balances, sender, recipient, amount)
}

/// When a transfer, burn or send of `amount` by `sender` must fail.
pub open spec fn transfer_fails(pre: DaoView, sender: Seq<char>, amount: u128) -> bool {
    amount == 0 || bal_of(pre.balances, sender) < amount
}

/// Which error a failing transfer, burn or send reports.
pub open spec fn transfer_err(pre: DaoView, sender: Seq<char>, amount: u128) -> ContractError {
    if amount == 0 {
        ContractError::InvalidZeroAmount
    } else {
        ContractError::Overflow
    }
}

/// What a successful burn of `amount` by `sender` did: the sender's balance
/// and the total supply both shrink by `amount`.
pub open spec fn burn_ok(pre: DaoView, post: DaoView, sender: Seq<char>, amount: u128) -> bool {
    &&& amount > 0
    &&& bal_of(pre.balances, sender) >= amount
    &&& post.token == (TokenInfoView {
        total_supply: (pre.token.total_supply - amount) as u128,
        ..pre.token
    })
    &&& post.config == pre.config
    &&& post.proposals == pre.proposals
    &&& post.items == pre.items
    &&& post.contract_addr == pre.contract_addr
    &&& balances_burned(pre.balances, post.balances, sender, amount)
}

/// A token name is 3 to 50 bytes of UTF-8.
pub open spec fn valid_name(s: Seq<char>) -> bool {
    3 <= encode_utf8(s).len() <= 50
}

/// A symbol byte: `-`, `A` to `Z`, or `a` to `z`.
pub open spec fn symbol_byte_ok(b: u8) -> bool {
    b == 45 || (65 <= b && b <= 90) || (97 <= b && b <= 122)
}

/// A ticker symbol is 3 to 12 bytes, each of `[a-zA-Z-]`.
pub open spec fn valid_symbol(s: Seq<char>) -> bool {
    &&& 3 <= encode_utf8(s).len() <= 12
    &&& forall|i: int|
        0 <= i < encode_utf8(s).len() ==> symbol_byte_ok(#[trigger] encode_utf8(s)[i])
}

/// Whether a token name has the expected shape (3 to 50 UTF-8 bytes).
pub fn is_valid_name(name: &str) -> (r: bool)
    ensures
        r == valid_name(name@),
{
    let bytes = name.as_bytes();
    let l = bytes.len();
    if l < 3 || l > 50 {
        return false;
    }
    true
}

/// Whether a ticker symbol has the expected shape (`[a-zA-Z-]{3,12}`).
pub fn is_valid_symbol(symbol: &str) -> (r: bool)
    ensures
        r == valid_symbol(symbol@),
{
    let bytes = symbol.as_bytes();
    let l = bytes.len();
    if l < 3 || l > 12 {
        return false;
    }
    let mut i: usize = 0;
    while i < l
        invariant
            l == bytes@.len(),
            bytes@ == encode_utf8(symbol@),
            i <= l,
            forall|j: int| 0 <= j < i ==> symbol_byte_ok(#[trigger] encode_utf8(symbol@)[j]),
        decreases l - i,
    {
        let byte = bytes[i];
        if (byte != 45) && (byte < 65 || byte > 90) && (byte < 97 || byte > 122) {
            return false;
        }
        i = i + 1;
    }
    true
}

impl TokenInstantiateInfo {
    /// Checks name, symbol and decimals, in that order.
    pub fn validate(&self) -> (r: Result<(), ContractError>)
        ensures
            match r {
                Ok(_) => valid_name(self.name@) && valid_symbol(self.symbol@) && self.decimals
                    <= 18,
                Err(e) => {
                    &&& !(valid_name(self.name@) && valid_symbol(self.symbol@) && self.decimals
                        <= 18)
                    &&& e == (if !valid_name(self.name@) {
                        ContractError::InvalidName
                    } else if !valid_symbol(self.symbol@) {
                        ContractError::InvalidSymbol
                    } else {
                        ContractError::InvalidDecimals
                    })
                },
            },
    {
        if !is_valid_name(self.name.as_str()) {
            return Err(ContractError::InvalidName);
        }
        if !is_valid_symbol(self.symbol.as_str()) {
            return Err(ContractError::InvalidSymbol);
        }
        if self.decimals > 18 {
            return Err(ContractError::InvalidDecimals);
        }
        Ok(())
    }
}

/// Turn the initial balance list into a balance ledger and its total supply.
///
/// A repeated holder is rejected with `DuplicateHolder`; a supply beyond the
/// integer range with `Overflow`.
pub fn create_accounts(accounts: &Vec<InitialBalance>) -> (r: Result<
    (Vec<(String, u128)>, u128),
    ContractError,
>)
    ensures
        match r {
            Ok((balances, total)) => {
                &&& holders_unique(accounts.deep_view())
                &&& amount_sum(accounts.deep_view()) <= u128::MAX
                &&& rows(balances) == accounts.deep_view()
                &&& total as int == amount_sum(accounts.deep_view())
            },
            Err(e) => {
                &&& !(holders_unique(accounts.deep_view()) && amount_sum(accounts.deep_view())
                    <= u128::MAX)
                &&& e == (if !holders_unique(accounts.deep_view()) {
                    ContractError::DuplicateHolder
                } else {
                    ContractError::Overflow
                })
            },
        },
{
    let ghost s = accounts.deep_view();
    let n = accounts.len();
    // First pass: no holder may appear twice.
    let mut i: usize = 1;
    while i < n
        invariant
            n == accounts@.len(),
            1 <= i,
            i <= n || n <= 1,
            s == accounts.deep_view(),
            forall|a: int, b: int| 0 <= a < b < i ==> s[a].0 != s[b].0,
        decreases n - i,
    {
        let mut j: usize = 0;
        while j < i
            invariant
                n == accounts@.len(),
                s == accounts.deep_view(),
                i < n,
                j <= i,
                forall|b: int| 0 <= b < j ==> s[b].0 != s[i as int].0,
            decreases i - j,
        {
            if accounts[j].address == accounts[i].address {
                assert(s[j as int].0 == s[i as int].0);
                return Err(ContractError::DuplicateHolder);
            }
            j = j + 1;
        }
        i = i + 1;
    }
    assert(holders_unique(s));
    // Second pass: build the ledger and sum the supply.
    let mut balances: Vec<(String, u128)> = Vec::new();
    let mut total: u128 = 0;
    let mut k: usize = 0;
    proof {
        assert(s.take(0) =~= Seq::<(Seq<char>, u128)>::empty());
    }
    while k < n
        invariant
            n == accounts@.len(),
            s == accounts.deep_view(),
            holders_unique(s),
            k <= n,
            rows(balances) =~= s.take(k as int),
            total as int == amount_sum(s.take(k as int)),
        decreases n - k,
    {
        proof {
            lemma_amount_sum_take_step(s, k as int);
            lemma_amount_sum_nonneg(s.take(k as int));
            assert(s[k as int] == (accounts@[k as int].address@, accounts@[k as int].amount));
        }
        let amount = accounts[k].amount;
        if total > u128::MAX - amount {
            proof {
                lemma_amount_sum_take_le(s, k as int + 1);
            }
            return Err(ContractError::Overflow);
        }
        total = total + amount;
        balances.push((accounts[k].address.clone(), amount));
        proof {
            assert(rows(balances) =~= s.take(k as int).push(s[k as int]));
            assert(s.take(k as int).push(s[k as int]) =~= s.take(k as int + 1));
        }
        k = k + 1;
    }
    proof {
        assert(s.take(n as int) =~= s);
    }
    Ok((balances, total))
}

impl Dao {
    /// Move `amount` tokens from `sender` to `recipient`. The total supply
    /// and everything outside the balance list are untouched.
    ///
    /// Fails with `InvalidZeroAmount` on a zero amount and with `Overflow`
    /// when the sender's balance cannot cover it; on failure nothing
    /// changes. The engine's own account is no external caller, so `sender`
    /// is never the contract address.
    pub fn execute_transfer(&mut self, sender: &String, recipient: &String, amount: u128) -> (r:
        Result<(), ContractError>)
        requires
            old(self).wf(),
            sender@ != old(self)@.contract_addr,
        ensures
            final(self).wf(),
            match r {
                Ok(_) => transfer_ok(old(self)@, final(self)@, sender@, recipient@, amount),
                Err(e) => {
                    &&& final(self)@ == old(self)@
                    &&& transfer_fails(old(self)@, sender@, amount)
                    &&& e == transfer_err(old(self)@, sender@, amount)
                },
            },
    {
        let ghost pre = self@;
        match transfer_impl(&mut self.balances, sender, recipient, amount) {
            Ok(_) => {
                proof {
                    assert(bal_of(self@.balances, pre.contract_addr) == moved_bal(
                        pre.balances,
                        sender@,
                        recipient@,
                        amount,
                        pre.contract_addr,
                    ));
                }
                Ok(())
            },
            Err(e) => Err(e),
        }
    }

    /// Destroy `amount` of `sender`'s tokens, shrinking the total supply by
    /// the same amount. Failure behaviour matches [`Dao::execute_transfer`].
    pub fn execute_burn(&mut self, sender: &String, amount: u128) -> (r: Result<
        (),
        ContractError,
    >)
        requires
            old(self).wf(),
            sender@ != old(self)@.contract_addr,
        ensures
            final(self).wf(),
            match r {
                Ok(_) => burn_ok(old(self)@, final(self)@, sender@, amount),
                Err(e) => {
                    &&& final(self)@ == old(self)@
                    &&& transfer_fails(old(self)@, sender@, amount)
                    &&& e == transfer_err(old(self)@, sender@, amount)
                },
            },
    {
        let ghost pre = self@;
        match debit_impl(&mut self.balances, sender, amount) {
            Ok(_) => {},
            Err(e) => {
                return Err(e);
            },
        }
        proof {
            lemma_bal_of_le_sum(pre.balances, sender@);
            assert(bal_of(self@.balances, pre.contract_addr) == bal_of(
                pre.balances,
                pre.contract_addr,
            ) - 0);
        }
        let new_supply = self.token_info.total_supply - amount;
        self.token_info.total_supply = new_supply;
        Ok(())
    }

    /// Transfer `amount` to `contract` as [`Dao::execute_transfer`] does,
    /// and hand back the notification the host must deliver to `contract`.
    pub fn execute_send(&mut self, sender: &String, contract: &String, amount: u128, msg: Vec<u8>)
        -> (r: Result<ReceiveNotification, ContractError>)
        requires
            old(self).wf(),
            sender@ != old(self)@.contract_addr,
        ensures
            final(self).wf(),
            match r {
                Ok(n) => {
                    &&& transfer_ok(old(self)@, final(self)@, sender@, contract@, amount)
                    &&& n.contract@ == contract@
                    &&& n.sender@ == sender@
                    &&& n.amount == amount
                    &&& n.msg == msg
                },
                Err(e) => {
                    &&& final(self)@ == old(self)@
                    &&& transfer_fails(old(self)@, sender@, amount)
                    &&& e == transfer_err(old(self)@, sender@, amount)
                },
            },
    {
        match self.execute_transfer(sender, contract, amount) {
            Ok(_) => Ok(
                ReceiveNotification {
                    contract: contract.clone(),
                    sender: sender.clone(),
                    amount,
                    msg,
                },
            ),
            Err(e) => Err(e),
        }
    }

    /// How many tokens `address` holds; zero when it has no row.
    pub fn query_balance(&self, address: &String) -> (r: BalanceResponse)
        requires
            holders_unique(self@.balances),
        ensures
            r.balance as int == bal_of(self@.balances, address@),
    {
        BalanceResponse { balance: lookup_balance(&self.balances, address) }
    }

    /// The token's name, symbol, decimals and total supply.
    pub fn query_token_info(&self) -> (r: TokenInfoResponse)
        ensures
            r.name@ == self@.token.name,
            r.symbol@ == self@.token.symbol,
            r.decimals == self@.token.decimals,
            r.total_supply == self@.token.total_supply,
    {
        TokenInfoResponse {
            name: self.token_info.name.clone(),
            symbol: self.token_info.symbol.clone(),
            decimals: self.token_info.decimals,
            total_supply: self.token_info.total_supply,
        }
    }
}

} // verus!
