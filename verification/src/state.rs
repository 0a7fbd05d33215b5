//! The durable state of the core: shared configuration, token metadata,
//! the proposal list with its per-position stake ledgers, the governance
//! items and the balance ledger, all gathered in one [`Dao`] value.

use vstd::prelude::*;

use crate::ledger::{amount_sum, addr_total, bal_of, holders_unique, rows, sum_amounts};
use crate::ledger::lemma_amount_sum_nonneg;
use crate::msg::{ActionView, ProposeAction, ProposeMsg, VotePosition, WebItem, WebItemView};

verus! {

/// The shared configuration every proposal is measured against.
#[derive(Debug, Clone, Copy, PartialEq, Eq, Structural)]
pub struct State {
    /// Minimum total stake across all positions for a proposal to resolve.
    pub quorum: u128,
    /// The number of tokens locked to create a proposal.
    pub proposal_cost: u128,
}

/// Where a proposal stands. `Passed` and `Failed` are terminal: a proposal
/// never leaves them.
#[derive(Debug, Clone, Copy, PartialEq, Eq, Structural)]
pub enum ProposalStatus {
    /// The quorum was reached and yes outweighed no.
    Passed,
    /// The quorum was reached and yes did not outweigh no.
    Failed,
    /// Still accepting votes; the quorum has not been reached.
    Pending,
}

/// The voting token's metadata. Only burning changes the total supply.
#[derive(Debug)]
pub struct TokenInfo {
    pub name: String,
    pub symbol: String,
    pub decimals: u8,
    pub total_supply: u128,
}

pub struct TokenInfoView {
    pub name: Seq<char>,
    pub symbol: Seq<char>,
    pub decimals: u8,
    pub total_supply: u128,
}

impl View for TokenInfo {
    type V = TokenInfoView;

    open spec fn view(&self) -> TokenInfoView {
        TokenInfoView {
            name: self.name@,
            symbol: self.symbol@,
            decimals: self.decimals,
            total_supply: self.total_supply,
        }
    }
}

impl Clone for TokenInfo {
    fn clone(&self) -> (res: Self)
        ensures
            res == *self,
    {
        TokenInfo {
            name: self.name.clone(),
            symbol: self.symbol.clone(),
            decimals: self.decimals,
            total_supply: self.total_supply,
        }
    }
}

/// One proposal: its text and action, its status, one stake ledger per
/// position (a voter may hold several rows; withdrawn rows stay with amount
/// zero so positions keep their indices), and what the proposer locked.
#[derive(Debug, PartialEq)]
pub struct Proposal {
    pub title: String,
    pub body: String,
    pub action: ProposeAction,
    pub status: ProposalStatus,
    pub yes: Vec<(String, u128)>,
    pub no: Vec<(String, u128)>,
    pub abstain: Vec<(String, u128)>,
    pub proposer: String,
    pub proposal_cost: u128,
}

pub struct ProposalView {
    pub title: Seq<char>,
    pub body: Seq<char>,
    pub action: ActionView,
    pub status: ProposalStatus,
    pub yes: Seq<(Seq<char>, u128)>,
    pub no: Seq<(Seq<char>, u128)>,
    pub abstain: Seq<(Seq<char>, u128)>,
    pub proposer: Seq<char>,
    pub proposal_cost: u128,
}

impl View for Proposal {
    type V = ProposalView;

    open spec fn view(&self) -> ProposalView {
        ProposalView {
            title: self.title@,
            body: self.body@,
            action: self.action@,
            status: self.status,
            yes: rows(self.yes),
            no: rows(self.no),
            abstain: rows(self.abstain),
            proposer: self.proposer@,
            proposal_cost: self.proposal_cost,
        }
    }
}

impl DeepView for Proposal {
    type V = ProposalView;

    open spec fn deep_view(&self) -> ProposalView {
        self.view()
    }
}

/// Copy a stake or balance list row by row.
fn clone_rows(v: &Vec<(String, u128)>) -> (out: Vec<(String, u128)>)
    ensures
        rows(out) == rows(*v),
{
    let n = v.len();
    let mut out: Vec<(String, u128)> = Vec::new();
    let mut i: usize = 0;
    while i < n
        invariant
            n == v@.len(),
            i <= n,
            out@.len() == i,
            forall|j: int| 0 <= j < i ==> rows(out)[j] == rows(*v)[j],
        decreases n - i,
    {
        let row = &v[i];
        out.push((row.0.clone(), row.1));
        i = i + 1;
    }
    proof {
        assert(rows(out) =~= rows(*v));
    }
    out
}

impl Clone for Proposal {
    fn clone(&self) -> (res: Self)
        ensures
            res@ == self@,
    {
        Proposal {
            title: self.title.clone(),
            body: self.body.clone(),
            action: self.action.clone(),
            status: self.status,
            yes: clone_rows(&self.yes),
            no: clone_rows(&self.no),
            abstain: clone_rows(&self.abstain),
            proposer: self.proposer.clone(),
            proposal_cost: self.proposal_cost,
        }
    }
}

/// The stake ledger of one position.
pub open spec fn pos_rows(p: ProposalView, position: VotePosition) -> Seq<(Seq<char>, u128)> {
    match position {
        VotePosition::Yes => p.yes,
        VotePosition::No => p.no,
        VotePosition::Abstain => p.abstain,
    }
}

/// Everything staked on a proposal, across all three positions.
pub open spec fn stake_total(p: ProposalView) -> int {
    amount_sum(p.yes) + amount_sum(p.no) + amount_sum(p.abstain)
}

/// What the engine's holding account owes for this proposal: its stakes
/// plus the proposer's locked cost while it is pending, nothing once it
/// has resolved and refunded.
pub open spec fn locked_of(p: ProposalView) -> int {
    if p.status is Pending {
        p.proposal_cost + stake_total(p)
    } else {
        0
    }
}

/// What the holding account owes across the whole proposal list.
pub open spec fn locked_sum(ps: Seq<ProposalView>) -> int
    decreases ps.len(),
{
    if ps.len() == 0 {
        0
    } else {
        locked_sum(ps.drop_last()) + locked_of(ps.last())
    }
}

/// What each participant is owed back when the proposal resolves: the
/// proposer's locked cost and every stake row of `who`.
pub open spec fn refund_credit(p: ProposalView, who: Seq<char>) -> int {
    (if who == p.proposer {
        p.proposal_cost as int
    } else {
        0
    }) + addr_total(p.yes, who) + addr_total(p.no, who) + addr_total(p.abstain, who)
}

/// A proposal with one more stake row on the given position.
pub open spec fn with_vote(
    p: ProposalView,
    who: Seq<char>,
    position: VotePosition,
    staked: u128,
) -> ProposalView {
    match position {
        VotePosition::Yes => ProposalView { yes: p.yes.push((who, staked)), ..p },
        VotePosition::No => ProposalView { no: p.no.push((who, staked)), ..p },
        VotePosition::Abstain => ProposalView { abstain: p.abstain.push((who, staked)), ..p },
    }
}

pub proof fn lemma_locked_of_nonneg(p: ProposalView)
    ensures
        locked_of(p) >= 0,
        stake_total(p) >= 0,
{
    lemma_amount_sum_nonneg(p.yes);
    lemma_amount_sum_nonneg(p.no);
    lemma_amount_sum_nonneg(p.abstain);
}

pub proof fn lemma_locked_sum_nonneg(ps: Seq<ProposalView>)
    ensures
        locked_sum(ps) >= 0,
    decreases ps.len(),
{
    if ps.len() > 0 {
        lemma_locked_sum_nonneg(ps.drop_last());
        lemma_locked_of_nonneg(ps.last());
    }
}

pub proof fn lemma_locked_sum_push(ps: Seq<ProposalView>, p: ProposalView)
    ensures
        locked_sum(ps.push(p)) == locked_sum(ps) + locked_of(p),
{
    assert(ps.push(p).drop_last() =~= ps);
}

pub proof fn lemma_locked_sum_update(ps: Seq<ProposalView>, i: int, p: ProposalView)
    requires
        0 <= i < ps.len(),
    ensures
        locked_sum(ps.update(i, p)) == locked_sum(ps) - locked_of(ps[i]) + locked_of(p),
    decreases ps.len(),
{
    let t = ps.update(i, p);
    if i == ps.len() - 1 {
        assert(t.drop_last() =~= ps.drop_last());
    } else {
        assert(t.drop_last() =~= ps.drop_last().update(i, p));
        lemma_locked_sum_update(ps.drop_last(), i, p);
    }
}

/// Each pending proposal's lock is covered by the sum over the list.
pub proof fn lemma_locked_of_le_sum(ps: Seq<ProposalView>, i: int)
    requires
        0 <= i < ps.len(),
    ensures
        locked_of(ps[i]) <= locked_sum(ps),
    decreases ps.len(),
{
    lemma_locked_of_nonneg(ps.last());
    if i == ps.len() - 1 {
        lemma_locked_sum_nonneg(ps.drop_last());
    } else {
        lemma_locked_of_le_sum(ps.drop_last(), i);
    }
}

impl Proposal {
    /// A fresh pending proposal with empty stake ledgers.
    pub fn new(msg: ProposeMsg, proposer: String, proposal_cost: u128) -> (p: Proposal)
        ensures
            p@ == (ProposalView {
                title: msg@.title,
                body: msg@.body,
                action: msg@.action,
                status: ProposalStatus::Pending,
                yes: Seq::empty(),
                no: Seq::empty(),
                abstain: Seq::empty(),
                proposer: proposer@,
                proposal_cost: proposal_cost,
            }),
    {
        let p = Proposal {
            title: msg.title,
            body: msg.body,
            action: msg.action,
            status: ProposalStatus::Pending,
            yes: Vec::new(),
            no: Vec::new(),
            abstain: Vec::new(),
            proposer,
            proposal_cost,
        };
        proof {
            assert(rows(p.yes) =~= Seq::<(Seq<char>, u128)>::empty());
            assert(rows(p.no) =~= Seq::<(Seq<char>, u128)>::empty());
            assert(rows(p.abstain) =~= Seq::<(Seq<char>, u128)>::empty());
        }
        p
    }

    /// Record a stake of `staked` by `addr` on `position`.
    pub fn add_vote(&mut self, addr: &String, position: VotePosition, staked: u128)
        ensures
            final(self)@ == with_vote(old(self)@, addr@, position, staked),
    {
        let ghost pre = self@;
        match position {
            VotePosition::Yes => {
                self.yes.push((addr.clone(), staked));
                proof {
                    assert(rows(self.yes) =~= pre.yes.push((addr@, staked)));
                }
            },
            VotePosition::No => {
                self.no.push((addr.clone(), staked));
                proof {
                    assert(rows(self.no) =~= pre.no.push((addr@, staked)));
                }
            },
            VotePosition::Abstain => {
                self.abstain.push((addr.clone(), staked));
                proof {
                    assert(rows(self.abstain) =~= pre.abstain.push((addr@, staked)));
                }
            },
        }
    }

    /// Everything staked on one position.
    pub fn get_votes(&self, position: VotePosition) -> (total: u128)
        requires
            amount_sum(pos_rows(self@, position)) <= u128::MAX,
        ensures
            total as int == amount_sum(pos_rows(self@, position)),
    {
        match position {
            VotePosition::Yes => sum_amounts(&self.yes),
            VotePosition::No => sum_amounts(&self.no),
            VotePosition::Abstain => sum_amounts(&self.abstain),
        }
    }

    /// Everything staked on the proposal, across all three positions.
    pub fn get_total_votes(&self) -> (total: u128)
        requires
            stake_total(self@) <= u128::MAX,
        ensures
            total as int == stake_total(self@),
    {
        proof {
            lemma_amount_sum_nonneg(self@.yes);
            lemma_amount_sum_nonneg(self@.no);
            lemma_amount_sum_nonneg(self@.abstain);
        }
        let yes = sum_amounts(&self.yes);
        let no = sum_amounts(&self.no);
        let abstain = sum_amounts(&self.abstain);
        yes + abstain + no
    }
}

/// The whole durable state of the core. The embedding host loads it, runs
/// one operation, and persists it again only when the operation succeeded.
#[derive(Debug)]
pub struct Dao {
    /// The voting token's metadata.
    pub token_info: TokenInfo,
    /// Quorum and proposal cost; mutable only by a resolved proposal.
    pub config: State,
    /// Every proposal ever created, in creation order; never reordered.
    pub proposals: Vec<Proposal>,
    /// The governance items, addressed by position.
    pub items: Vec<WebItem>,
    /// Every holder's balance, including the engine's own holding account.
    pub balances: Vec<(String, u128)>,
    /// The engine's own identity: the holder of the holding account.
    pub contract_addr: String,
}

pub struct DaoView {
    pub token: TokenInfoView,
    pub config: State,
    pub proposals: Seq<ProposalView>,
    pub items: Seq<WebItemView>,
    pub balances: Seq<(Seq<char>, u128)>,
    pub contract_addr: Seq<char>,
}

impl View for Dao {
    type V = DaoView;

    open spec fn view(&self) -> DaoView {
        DaoView {
            token: self.token_info@,
            config: self.config,
            proposals: self.proposals.deep_view(),
            items: self.items.deep_view(),
            balances: rows(self.balances),
            contract_addr: self.contract_addr@,
        }
    }
}

impl Dao {
    /// The invariant every operation preserves: each holder has one row,
    /// the balances sum to the total supply (conservation), and the
    /// engine's holding account covers everything currently locked.
    pub open spec fn wf(&self) -> bool {
        &&& holders_unique(self@.balances)
        &&& amount_sum(self@.balances) == self@.token.total_supply
        &&& bal_of(self@.balances, self@.contract_addr) >= locked_sum(self@.proposals)
    }
}

} // verus!
