//! The core's boundary: initialization, the dispatcher for state-changing
//! operations, and the read-only queries.

use vstd::prelude::*;

use crate::actions::{
    propose_err, propose_fails, propose_ok, vote_err, vote_fails, vote_ok, withdraw_err,
    withdraw_fails, withdraw_ok,
};
use crate::error::ContractError;
use crate::ledger::{amount_sum, bal_of, holders_unique, lemma_bal_of_nonneg, rows};
use crate::msg::{
    BalanceResponse, ExecuteMsg, InstantiateMsg, QueryMsg, ReceiveNotification,
    TokenInfoResponse, WebItem, WebItemView,
};
use crate::state::{Dao, Proposal, ProposalView, State, TokenInfo, TokenInfoView};
use crate::tokens::{
    burn_ok, create_accounts, transfer_err, transfer_fails, transfer_ok, valid_name, valid_symbol,
};

verus! {

/// When initialization must fail.
pub open spec fn instantiate_fails(msg: InstantiateMsg) -> bool {
    let s = msg.token_info.initial_balances.deep_view();
    ||| !valid_name(msg.token_info.name@)
    ||| !valid_symbol(msg.token_info.symbol@)
    ||| msg.token_info.decimals > 18
    ||| !holders_unique(s)
    ||| amount_sum(s) > u128::MAX
    ||| msg.quorum == 0
    ||| msg.quorum > amount_sum(s)
}

/// Which error a failing initialization reports, in the order the checks
/// run: metadata first, then the account list, then the quorum.
pub open spec fn instantiate_err(msg: InstantiateMsg) -> ContractError {
    let s = msg.token_info.initial_balances.deep_view();
    if !valid_name(msg.token_info.name@) {
        ContractError::InvalidName
    } else if !valid_symbol(msg.token_info.symbol@) {
        ContractError::InvalidSymbol
    } else if msg.token_info.decimals > 18 {
        ContractError::InvalidDecimals
    } else if !holders_unique(s) {
        ContractError::DuplicateHolder
    } else if amount_sum(s) > u128::MAX {
        ContractError::Overflow
    } else {
        ContractError::InvalidQuorum
    }
}

/// What a state-changing operation hands back on success.
#[derive(Debug)]
pub enum ExecuteOutcome {
    /// The operation completed with nothing more to deliver.
    Done,
    /// A proposal was created; its identifier is its list position.
    Proposed { proposal_id: u64 },
    /// Tokens moved to a contract; the host must deliver this notification.
    Notify(ReceiveNotification),
}

/// What a read-only query hands back.
#[derive(Debug)]
pub enum QueryResponse {
    Proposals(Vec<Proposal>),
    Proposal(Proposal),
    Items(Vec<WebItem>),
    Item(WebItem),
    Quorum(u128),
    ProposalCost(u128),
    Balance(BalanceResponse),
    TokenInfo(TokenInfoResponse),
}

/// Copy a window of the proposal list.
fn clone_proposals(v: &Vec<Proposal>, start: usize, count: usize) -> (out: Vec<Proposal>)
    requires
        start + count <= v@.len(),
    ensures
        out.deep_view() == v.deep_view().subrange(start as int, start as int + count as int),
{
    let mut out: Vec<Proposal> = Vec::new();
    let n = v.len();
    let mut k: usize = 0;
    while k < count
        invariant
            n == v@.len(),
            start + count <= n,
            k <= count,
            out@.len() == k,
            forall|j: int| 0 <= j < k ==> out.deep_view()[j] == v.deep_view()[start + j],
        decreases count - k,
    {
        let ghost out_pre = out.deep_view();
        let p = v[start + k].clone();
        let ghost pv = p@;
        out.push(p);
        proof {
            assert(out.deep_view() =~= out_pre.push(pv));
        }
        k = k + 1;
    }
    proof {
        assert(out.deep_view() =~= v.deep_view().subrange(
            start as int,
            start as int + count as int,
        ));
    }
    out
}

/// Copy the whole item list.
fn clone_items(v: &Vec<WebItem>) -> (out: Vec<WebItem>)
    ensures
        out@ == v@,
{
    let mut out: Vec<WebItem> = Vec::new();
    let mut k: usize = 0;
    let n = v.len();
    while k < n
        invariant
            n == v@.len(),
            k <= n,
            out@.len() == k,
            forall|j: int| 0 <= j < k ==> out@[j] == v@[j],
        decreases n - k,
    {
        out.push(v[k].clone());
        k = k + 1;
    }
    proof {
        assert(out@ =~= v@);
    }
    out
}

impl Dao {
    /// Build the initial state: validate the token metadata, open the
    /// initial accounts (the total supply is their sum), and check that the
    /// quorum is positive and within the supply. `contract_addr` is the
    /// engine's own identity, whose balance is the holding account.
    pub fn instantiate(contract_addr: String, msg: InstantiateMsg) -> (r: Result<
        Dao,
        ContractError,
    >)
        ensures
            match r {
                Ok(dao) => {
                    let s = msg.token_info.initial_balances.deep_view();
                    &&& !instantiate_fails(msg)
                    &&& dao.wf()
                    &&& dao@.balances == s
                    &&& dao@.token == (TokenInfoView {
                        name: msg.token_info.name@,
                        symbol: msg.token_info.symbol@,
                        decimals: msg.token_info.decimals,
                        total_supply: amount_sum(s) as u128,
                    })
                    &&& dao@.config == (State {
                        quorum: msg.quorum,
                        proposal_cost: msg.proposal_cost,
                    })
                    &&& dao@.proposals == Seq::<ProposalView>::empty()
                    &&& dao@.items == Seq::<WebItemView>::empty()
                    &&& dao@.contract_addr == contract_addr@
                },
                Err(e) => {
                    &&& instantiate_fails(msg)
                    &&& e == instantiate_err(msg)
                },
            },
    {
        let InstantiateMsg { quorum, proposal_cost, token_info } = msg;
        match token_info.validate() {
            Ok(_) => {},
            Err(e) => {
                return Err(e);
            },
        }
        let (balances, total_supply) = match create_accounts(&token_info.initial_balances) {
            Ok(x) => x,
            Err(e) => {
                return Err(e);
            },
        };
        if quorum == 0 || quorum > total_supply {
            return Err(ContractError::InvalidQuorum);
        }
        let crate::msg::TokenInstantiateInfo { name, symbol, decimals, initial_balances: _ } =
            token_info;
        let dao = Dao {
            token_info: TokenInfo { name, symbol, decimals, total_supply },
            config: State { quorum, proposal_cost },
            proposals: Vec::new(),
            items: Vec::new(),
            balances,
            contract_addr,
        };
        proof {
            assert(dao@.proposals =~= Seq::<ProposalView>::empty());
            assert(dao@.items =~= Seq::<WebItemView>::empty());
            lemma_bal_of_nonneg(dao@.balances, dao@.contract_addr);
        }
        Ok(dao)
    }

    /// Dispatch one state-changing operation on behalf of `sender`. Each
    /// arm behaves exactly as the operation it routes to; a failing call
    /// leaves the state untouched.
    ///
    /// The engine's own account is no external caller, so `sender` is never
    /// the contract address.
    pub fn execute(&mut self, sender: &String, msg: ExecuteMsg) -> (r: Result<
        ExecuteOutcome,
        ContractError,
    >)
        requires
            old(self).wf(),
            sender@ != old(self)@.contract_addr,
        ensures
            final(self).wf(),
            match msg {
                ExecuteMsg::Withdraw(w) => match r {
                    Ok(o) => o is Done && withdraw_ok(
                        old(self)@,
                        final(self)@,
                        sender@,
                        w.proposal_id,
                    ),
                    Err(e) => {
                        &&& final(self)@ == old(self)@
                        &&& withdraw_fails(old(self)@, sender@, w.proposal_id)
                        &&& e == withdraw_err(old(self)@, sender@, w.proposal_id)
                    },
                },
                ExecuteMsg::Propose(m) => match r {
                    Ok(o) => {
                        &&& o == (ExecuteOutcome::Proposed {
                            proposal_id: old(self)@.proposals.len() as u64,
                        })
                        &&& propose_ok(
                            old(self)@,
                            final(self)@,
                            sender@,
                            old(self)@.config.proposal_cost,
                            m@,
                        )
                    },
                    Err(e) => {
                        &&& final(self)@ == old(self)@
                        &&& propose_fails(old(self)@, sender@, old(self)@.config.proposal_cost)
                        &&& e == propose_err(old(self)@, sender@, old(self)@.config.proposal_cost)
                    },
                },
                ExecuteMsg::Vote(v) => match r {
                    Ok(o) => o is Done && vote_ok(old(self)@, final(self)@, sender@, v),
                    Err(e) => {
                        &&& final(self)@ == old(self)@
                        &&& vote_fails(old(self)@, sender@, v)
                        &&& e == vote_err(old(self)@, sender@, v)
                    },
                },
                ExecuteMsg::Transfer { recipient, amount } => match r {
                    Ok(o) => o is Done && transfer_ok(
                        old(self)@,
                        final(self)@,
                        sender@,
                        recipient@,
                        amount,
                    ),
                    Err(e) => {
                        &&& final(self)@ == old(self)@
                        &&& transfer_fails(old(self)@, sender@, amount)
                        &&& e == transfer_err(old(self)@, sender@, amount)
                    },
                },
                ExecuteMsg::Burn { amount } => match r {
                    Ok(o) => o is Done && burn_ok(old(self)@, final(self)@, sender@, amount),
                    Err(e) => {
                        &&& final(self)@ == old(self)@
                        &&& transfer_fails(old(self)@, sender@, amount)
                        &&& e == transfer_err(old(self)@, sender@, amount)
                    },
                },
                ExecuteMsg::Send { contract, amount, msg: payload } => match r {
                    Ok(o) => {
                        &&& o matches ExecuteOutcome::Notify(n)
                        &&& transfer_ok(old(self)@, final(self)@, sender@, contract@, amount)
                        &&& (o matches ExecuteOutcome::Notify(n) ==> n.contract@ == contract@
                            && n.sender@ == sender@ && n.amount == amount && n.msg == payload)
                    },
                    Err(e) => {
                        &&& final(self)@ == old(self)@
                        &&& transfer_fails(old(self)@, sender@, amount)
                        &&& e == transfer_err(old(self)@, sender@, amount)
                    },
                },
            },
    {
        match msg {
            ExecuteMsg::Withdraw(w) => match self.handle_withdrawal(sender, &w) {
                Ok(_) => Ok(ExecuteOutcome::Done),
                Err(e) => Err(e),
            },
            ExecuteMsg::Propose(m) => {
                let cost = self.config.proposal_cost;
                match self.handle_propose(sender, cost, m) {
                    Ok(idx) => Ok(ExecuteOutcome::Proposed { proposal_id: idx }),
                    Err(e) => Err(e),
                }
            },
            ExecuteMsg::Vote(v) => match self.handle_vote(sender, &v) {
                Ok(_) => Ok(ExecuteOutcome::Done),
                Err(e) => Err(e),
            },
            ExecuteMsg::Transfer { recipient, amount } => match self.execute_transfer(
                sender,
                &recipient,
                amount,
            ) {
                Ok(_) => Ok(ExecuteOutcome::Done),
                Err(e) => Err(e),
            },
            ExecuteMsg::Burn { amount } => match self.execute_burn(sender, amount) {
                Ok(_) => Ok(ExecuteOutcome::Done),
                Err(e) => Err(e),
            },
            ExecuteMsg::Send { contract, amount, msg: payload } => match self.execute_send(
                sender,
                &contract,
                amount,
                payload,
            ) {
                Ok(n) => Ok(ExecuteOutcome::Notify(n)),
                Err(e) => Err(e),
            },
        }
    }

    /// Answer one read-only query. The state is borrowed, never mutated.
    /// Identifier lookups past the end fail with `NotFound`; a balance
    /// lookup for an unknown holder is not an error and answers zero.
    pub fn query(&self, msg: &QueryMsg) -> (r: Result<QueryResponse, ContractError>)
        requires
            self.wf(),
        ensures
            match msg {
                QueryMsg::ListProposals(w) => {
                    let len = self@.proposals.len() as int;
                    let lo: int = if w.start <= len {
                        w.start as int
                    } else {
                        len
                    };
                    let hi: int = if w.start + w.count <= len {
                        w.start + w.count
                    } else {
                        len
                    };
                    &&& r matches Ok(QueryResponse::Proposals(ps))
                    &&& (r matches Ok(QueryResponse::Proposals(ps)) ==> ps.deep_view()
                        == self@.proposals.subrange(lo, hi))
                },
                QueryMsg::GetProposal { proposal_id } => {
                    if proposal_id < self@.proposals.len() {
                        &&& r matches Ok(QueryResponse::Proposal(p))
                        &&& (r matches Ok(QueryResponse::Proposal(p)) ==> p@
                            == self@.proposals[*proposal_id as int])
                    } else {
                        r == Err::<QueryResponse, ContractError>(ContractError::NotFound)
                    }
                },
                QueryMsg::ListItems => {
                    &&& r matches Ok(QueryResponse::Items(items))
                    &&& (r matches Ok(QueryResponse::Items(items)) ==> items.deep_view()
                        == self@.items)
                },
                QueryMsg::GetItem { item_id } => {
                    if item_id < self@.items.len() {
                        &&& r matches Ok(QueryResponse::Item(it))
                        &&& (r matches Ok(QueryResponse::Item(it)) ==> it@
                            == self@.items[*item_id as int])
                    } else {
                        r == Err::<QueryResponse, ContractError>(ContractError::NotFound)
                    }
                },
                QueryMsg::GetQuorum => r == Ok::<QueryResponse, ContractError>(
                    QueryResponse::Quorum(self@.config.quorum),
                ),
                QueryMsg::GetProposalCost => r == Ok::<QueryResponse, ContractError>(
                    QueryResponse::ProposalCost(self@.config.proposal_cost),
                ),
                QueryMsg::Balance { address } => {
                    &&& r matches Ok(QueryResponse::Balance(b))
                    &&& (r matches Ok(QueryResponse::Balance(b)) ==> b.balance as int == bal_of(
                        self@.balances,
                        address@,
                    ))
                },
                QueryMsg::TokenInfo => {
                    &&& r matches Ok(QueryResponse::TokenInfo(t))
                    &&& (r matches Ok(QueryResponse::TokenInfo(t)) ==> t.name@ == self@.token.name
                        && t.symbol@ == self@.token.symbol && t.decimals == self@.token.decimals
                        && t.total_supply == self@.token.total_supply)
                },
            },
    {
        match msg {
            QueryMsg::ListProposals(w) => {
                let n = self.proposals.len();
                let start: usize = if w.start > n as u64 {
                    n
                } else {
                    w.start as usize
                };
                let remaining = n - start;
                let count: usize = if w.count > remaining as u64 {
                    remaining
                } else {
                    w.count as usize
                };
                Ok(QueryResponse::Proposals(clone_proposals(&self.proposals, start, count)))
            },
            QueryMsg::GetProposal { proposal_id } => {
                if *proposal_id >= self.proposals.len() as u64 {
                    return Err(ContractError::NotFound);
                }
                let id = *proposal_id as usize;
                Ok(QueryResponse::Proposal(self.proposals[id].clone()))
            },
            QueryMsg::ListItems => Ok(QueryResponse::Items(clone_items(&self.items))),
            QueryMsg::GetItem { item_id } => {
                if *item_id >= self.items.len() as u64 {
                    return Err(ContractError::NotFound);
                }
                let id = *item_id as usize;
                Ok(QueryResponse::Item(self.items[id].clone()))
            },
            QueryMsg::GetQuorum => Ok(QueryResponse::Quorum(self.config.quorum)),
            QueryMsg::GetProposalCost => Ok(QueryResponse::ProposalCost(self.config.proposal_cost)),
            QueryMsg::Balance { address } => Ok(
                QueryResponse::Balance(self.query_balance(address)),
            ),
            QueryMsg::TokenInfo => Ok(QueryResponse::TokenInfo(self.query_token_info())),
        }
    }
}

} // verus!
