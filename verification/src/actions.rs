//! The proposal engine: proposal creation, vote accumulation,
//! quorum-triggered resolution with governance effects and refunds, and
//! vote withdrawal.

use vstd::prelude::*;

use crate::error::ContractError;
use crate::ledger::{
    addr_total, amount_sum, bal_of, balances_moved, holders_unique, moved_bal, rows, zeroed,
};
use crate::ledger::{lookup_balance, refund_entries, sum_amounts, transfer_impl, zero_entries};
use crate::ledger::{
    lemma_addr_total_le_sum, lemma_addr_total_nonneg, lemma_amount_sum_nonneg, lemma_bal_of_le_sum,
    lemma_bal_of_nonneg, lemma_two_bal_le_sum, lemma_zeroed_sums,
};
use crate::msg::{ActionView, ProposeAction, ProposeMsg, ProposeMsgView, VoteMsg, VotePosition,
    WebItemView, WithdrawVoteMsg};
use crate::state::{
    lemma_locked_of_le_sum, lemma_locked_sum_nonneg, lemma_locked_sum_push,
    lemma_locked_sum_update,
};
use crate::state::{refund_credit, stake_total, with_vote};
use crate::state::{Dao, DaoView, Proposal, ProposalStatus, ProposalView, State};

verus! {

/// Statuses only move from `Pending` to a terminal state, and a proposal
/// that has resolved is never touched again.
pub open spec fn proposals_monotone(pre: Seq<ProposalView>, post: Seq<ProposalView>) -> bool {
    &&& pre.len() <= post.len()
    &&& forall|j: int|
        0 <= j < pre.len() && !(pre[j].status is Pending) ==> post[j] == pre[j]
}

/// A freshly created proposal: pending, with empty stake ledgers, owing
/// `cost` back to `proposer` on resolution.
pub open spec fn fresh_proposal(m: ProposeMsgView, proposer: Seq<char>, cost: u128) -> ProposalView {
    ProposalView {
        title: m.title,
        body: m.body,
        action: m.action,
        status: ProposalStatus::Pending,
        yes: Seq::empty(),
        no: Seq::empty(),
        abstain: Seq::empty(),
        proposer: proposer,
        proposal_cost: cost,
    }
}

/// What a successful proposal creation did: `cost_paid` covered the
/// configured cost, moved from the proposer into the holding account, and a
/// fresh pending proposal was appended.
pub open spec fn propose_ok(
    pre: DaoView,
    post: DaoView,
    proposer: Seq<char>,
    cost_paid: u128,
    m: ProposeMsgView,
) -> bool {
    &&& cost_paid >= pre.config.proposal_cost
    &&& cost_paid > 0
    &&& bal_of(pre.balances, proposer) >= cost_paid
    &&& post.proposals == pre.proposals.push(fresh_proposal(m, proposer, cost_paid))
    &&& balances_moved(pre.balances, post.balances, proposer, pre.contract_addr, cost_paid)
    &&& post.token == pre.token
    &&& post.config == pre.config
    &&& post.items == pre.items
    &&& post.contract_addr == pre.contract_addr
}

/// When creating a proposal must fail.
pub open spec fn propose_fails(pre: DaoView, proposer: Seq<char>, cost_paid: u128) -> bool {
    ||| cost_paid < pre.config.proposal_cost
    ||| cost_paid == 0
    ||| bal_of(pre.balances, proposer) < cost_paid
}

/// Which error a failing proposal creation reports: too little delivered,
/// then a zero transfer, then an uncovered transfer.
pub open spec fn propose_err(pre: DaoView, proposer: Seq<char>, cost_paid: u128) -> ContractError {
    if cost_paid < pre.config.proposal_cost {
        ContractError::InsufficentProposalFunds {
            needed: pre.config.proposal_cost,
            got: cost_paid,
        }
    } else if cost_paid == 0 {
        ContractError::InvalidZeroAmount
    } else {
        ContractError::Overflow
    }
}

/// Everything `who` has staked on `p`, across all three positions.
pub open spec fn withdraw_total(p: ProposalView, who: Seq<char>) -> int {
    addr_total(p.yes, who) + addr_total(p.no, who) + addr_total(p.abstain, who)
}

/// `p` with every stake row of `who` zeroed out (rows are kept so ledger
/// positions stay stable).
pub open spec fn zero_votes_of(p: ProposalView, who: Seq<char>) -> ProposalView {
    ProposalView {
        yes: zeroed(p.yes, who),
        no: zeroed(p.no, who),
        abstain: zeroed(p.abstain, who),
        ..p
    }
}

/// What a successful withdrawal did: the sender's stake rows were zeroed
/// and their total moved from the holding account back to the sender. The
/// proposal stays pending; no resolution re-check happens, since a
/// withdrawal cannot reach the quorum.
pub open spec fn withdraw_ok(pre: DaoView, post: DaoView, sender: Seq<char>, id: u64) -> bool {
    let p0 = pre.proposals[id as int];
    let w = withdraw_total(p0, sender);
    &&& id < pre.proposals.len()
    &&& p0.status is Pending
    &&& w > 0
    &&& post.proposals == pre.proposals.update(id as int, zero_votes_of(p0, sender))
    &&& holders_unique(post.balances)
    &&& amount_sum(post.balances) == amount_sum(pre.balances)
    &&& forall|who: Seq<char>| #[trigger] bal_of(post.balances, who) == bal_of(pre.balances, who)
        - (if who == pre.contract_addr {
            w
        } else {
            0
        }) + (if who == sender {
            w
        } else {
            0
        })
    &&& post.token == pre.token
    &&& post.config == pre.config
    &&& post.items == pre.items
    &&& post.contract_addr == pre.contract_addr
}

/// When a withdrawal must fail: no such proposal, a resolved proposal, or
/// nothing staked — the refund would be a zero transfer.
pub open spec fn withdraw_fails(pre: DaoView, sender: Seq<char>, id: u64) -> bool {
    ||| id >= pre.proposals.len()
    ||| !(pre.proposals[id as int].status is Pending)
    ||| withdraw_total(pre.proposals[id as int], sender) == 0
}

/// Which error a failing withdrawal reports.
pub open spec fn withdraw_err(pre: DaoView, sender: Seq<char>, id: u64) -> ContractError {
    if id >= pre.proposals.len() {
        ContractError::NotFound
    } else if !(pre.proposals[id as int].status is Pending) {
        ContractError::VoteOnCompletedProposal
    } else {
        ContractError::InvalidZeroAmount
    }
}

/// The status a pending proposal takes once a vote has landed: at or past
/// the quorum, yes must strictly outweigh no to pass — a tie or a
/// no-plurality fails; below the quorum it stays pending.
pub open spec fn resolved_status(p: ProposalView, quorum: u128) -> ProposalStatus {
    if stake_total(p) >= quorum {
        if amount_sum(p.yes) > amount_sum(p.no) {
            ProposalStatus::Passed
        } else {
            ProposalStatus::Failed
        }
    } else {
        ProposalStatus::Pending
    }
}

/// Whether a governance action can apply to the current item list.
pub open spec fn action_applies(a: ActionView, items: Seq<WebItemView>) -> bool {
    match a {
        ActionView::RemoveItem { id } => id < items.len(),
        _ => true,
    }
}

/// The configuration after an action applies.
pub open spec fn config_after(a: ActionView, c: State) -> State {
    match a {
        ActionView::ChangeQuorum { new_quorum } => State { quorum: new_quorum, ..c },
        ActionView::ChangeProposalCost { new_proposal_cost } => State {
            proposal_cost: new_proposal_cost,
            ..c
        },
        _ => c,
    }
}

/// The item list after an action applies.
pub open spec fn items_after(a: ActionView, items: Seq<WebItemView>) -> Seq<WebItemView> {
    match a {
        ActionView::AddItem(item) => items.push(item),
        ActionView::RemoveItem { id } => items.remove(id as int),
        _ => items,
    }
}

/// When a vote must fail: a zero amount, an uncovered stake, no such
/// proposal, a resolved proposal, or a resolution whose RemoveItem action
/// points past the item list — the whole call then aborts unchanged.
pub open spec fn vote_fails(pre: DaoView, voter: Seq<char>, vote: VoteMsg) -> bool {
    ||| vote.amount == 0
    ||| bal_of(pre.balances, voter) < vote.amount
    ||| vote.proposal_id >= pre.proposals.len()
    ||| !(pre.proposals[vote.proposal_id as int].status is Pending)
    ||| {
        let p0 = pre.proposals[vote.proposal_id as int];
        let p1 = with_vote(p0, voter, vote.position, vote.amount);
        !(resolved_status(p1, pre.config.quorum) is Pending) && !action_applies(
            p0.action,
            pre.items,
        )
    }
}

/// Which error a failing vote reports, in the order the checks run.
pub open spec fn vote_err(pre: DaoView, voter: Seq<char>, vote: VoteMsg) -> ContractError {
    if vote.amount == 0 {
        ContractError::InvalidZeroAmount
    } else if bal_of(pre.balances, voter) < vote.amount {
        ContractError::Overflow
    } else if vote.proposal_id >= pre.proposals.len() {
        ContractError::NotFound
    } else if !(pre.proposals[vote.proposal_id as int].status is Pending) {
        ContractError::VoteOnCompletedProposal
    } else {
        ContractError::NotFound
    }
}

/// Balances after a resolution: the vote's stake moved into the holding
/// account, which then paid back the proposer's cost and every stake row.
pub open spec fn resolution_balances(
    pre: Seq<(Seq<char>, u128)>,
    post: Seq<(Seq<char>, u128)>,
    voter: Seq<char>,
    c: Seq<char>,
    amount: u128,
    p1: ProposalView,
) -> bool {
    &&& holders_unique(post)
    &&& amount_sum(post) == amount_sum(pre)
    &&& forall|who: Seq<char>| #[trigger] bal_of(post, who) == moved_bal(pre, voter, c, amount, who)
        - (if who == c {
            p1.proposal_cost + stake_total(p1)
        } else {
            0
        }) + refund_credit(p1, who)
}

/// What a successful vote did. Below the quorum the stake moved into the
/// holding account and the vote was recorded; at or past it the proposal
/// resolved in the same call: its status became terminal, the governance
/// action applied, and every lock — the proposer's cost and each stake
/// row, the new one among them — flowed back to its owner.
pub open spec fn vote_ok(pre: DaoView, post: DaoView, voter: Seq<char>, vote: VoteMsg) -> bool {
    let p0 = pre.proposals[vote.proposal_id as int];
    let p1 = with_vote(p0, voter, vote.position, vote.amount);
    let st = resolved_status(p1, pre.config.quorum);
    &&& vote.proposal_id < pre.proposals.len()
    &&& p0.status is Pending
    &&& vote.amount > 0
    &&& bal_of(pre.balances, voter) >= vote.amount
    &&& post.token == pre.token
    &&& post.contract_addr == pre.contract_addr
    &&& if st is Pending {
        &&& post.proposals == pre.proposals.update(vote.proposal_id as int, p1)
        &&& post.config == pre.config
        &&& post.items == pre.items
        &&& balances_moved(pre.balances, post.balances, voter, pre.contract_addr, vote.amount)
    } else {
        &&& post.proposals == pre.proposals.update(
            vote.proposal_id as int,
            (ProposalView { status: st, ..p1 }),
        )
        &&& post.config == config_after(p0.action, pre.config)
        &&& post.items == items_after(p0.action, pre.items)
        &&& resolution_balances(
            pre.balances,
            post.balances,
            voter,
            pre.contract_addr,
            vote.amount,
            p1,
        )
    }
}

impl Dao {
    /// Create a proposal. `cost_paid` is what the proposer delivers; it
    /// must cover the configured proposal cost, is locked in full in the
    /// holding account, and comes back when the proposal resolves. Returns
    /// the new proposal's identifier: its position in the proposal list.
    ///
    /// The engine's own account is no external caller, so `proposer` is
    /// never the contract address.
    pub fn handle_propose(&mut self, proposer: &String, cost_paid: u128, msg: ProposeMsg) -> (r:
        Result<u64, ContractError>)
        requires
            old(self).wf(),
            proposer@ != old(self)@.contract_addr,
        ensures
            final(self).wf(),
            proposals_monotone(old(self)@.proposals, final(self)@.proposals),
            match r {
                Ok(idx) => {
                    &&& propose_ok(old(self)@, final(self)@, proposer@, cost_paid, msg@)
                    &&& idx == old(self)@.proposals.len()
                },
                Err(e) => {
                    &&& final(self)@ == old(self)@
                    &&& propose_fails(old(self)@, proposer@, cost_paid)
                    &&& e == propose_err(old(self)@, proposer@, cost_paid)
                },
            },
    {
        let ghost pre = self@;
        let cost = self.config.proposal_cost;
        if cost_paid < cost {
            return Err(ContractError::InsufficentProposalFunds { needed: cost, got: cost_paid });
        }
        match transfer_impl(&mut self.balances, proposer, &self.contract_addr, cost_paid) {
            Ok(_) => {},
            Err(e) => {
                return Err(e);
            },
        }
        let idx = self.proposals.len() as u64;
        let p = Proposal::new(msg, proposer.clone(), cost_paid);
        self.proposals.push(p);
        proof {
            assert(self@.proposals =~= pre.proposals.push(fresh_proposal(msg@, proposer@,
                cost_paid)));
            lemma_locked_sum_push(pre.proposals, fresh_proposal(msg@, proposer@, cost_paid));
            assert(bal_of(self@.balances, pre.contract_addr) == moved_bal(
                pre.balances,
                proposer@,
                pre.contract_addr,
                cost_paid,
                pre.contract_addr,
            ));
        }
        Ok(idx)
    }

    /// Zero every stake the sender holds on a pending proposal and move the
    /// total back out of the holding account to them. A sender with nothing
    /// staked is refused: the refund would be a zero transfer.
    pub fn handle_withdrawal(&mut self, sender: &String, msg: &WithdrawVoteMsg) -> (r: Result<
        (),
        ContractError,
    >)
        requires
            old(self).wf(),
        ensures
            final(self).wf(),
            proposals_monotone(old(self)@.proposals, final(self)@.proposals),
            match r {
                Ok(_) => withdraw_ok(old(self)@, final(self)@, sender@, msg.proposal_id),
                Err(e) => {
                    &&& final(self)@ == old(self)@
                    &&& withdraw_fails(old(self)@, sender@, msg.proposal_id)
                    &&& e == withdraw_err(old(self)@, sender@, msg.proposal_id)
                },
            },
    {
        let ghost pre = self@;
        if msg.proposal_id >= self.proposals.len() as u64 {
            return Err(ContractError::NotFound);
        }
        let id = msg.proposal_id as usize;
        if !(self.proposals[id].status == ProposalStatus::Pending) {
            return Err(ContractError::VoteOnCompletedProposal);
        }
        let ghost p0 = pre.proposals[id as int];
        proof {
            // Every stake ledger fits in `u128`: it is covered by the
            // holding account, which is covered by the total supply.
            lemma_locked_of_le_sum(pre.proposals, id as int);
            lemma_bal_of_le_sum(pre.balances, pre.contract_addr);
            lemma_amount_sum_nonneg(p0.yes);
            lemma_amount_sum_nonneg(p0.no);
            lemma_amount_sum_nonneg(p0.abstain);
            lemma_addr_total_nonneg(p0.yes, sender@);
            lemma_addr_total_nonneg(p0.no, sender@);
            lemma_addr_total_nonneg(p0.abstain, sender@);
            lemma_addr_total_le_sum(p0.yes, sender@);
            lemma_addr_total_le_sum(p0.no, sender@);
            lemma_addr_total_le_sum(p0.abstain, sender@);
        }
        let (new_yes, w_yes) = zero_entries(&self.proposals[id].yes, sender);
        let (new_no, w_no) = zero_entries(&self.proposals[id].no, sender);
        let (new_abstain, w_abstain) = zero_entries(&self.proposals[id].abstain, sender);
        let withdrawn = w_yes + w_no + w_abstain;
        if withdrawn == 0 {
            return Err(ContractError::InvalidZeroAmount);
        }
        match transfer_impl(&mut self.balances, &self.contract_addr, sender, withdrawn) {
            Ok(_) => {},
            Err(_) => {
                proof {
                    assert(false);
                }
                return Err(ContractError::Overflow);
            },
        }
        let p = &mut self.proposals[id];
        p.yes = new_yes;
        p.no = new_no;
        p.abstain = new_abstain;
        proof {
            let p_z = zero_votes_of(p0, sender@);
            assert(self@.proposals =~= pre.proposals.update(id as int, p_z));
            lemma_zeroed_sums(p0.yes, sender@);
            lemma_zeroed_sums(p0.no, sender@);
            lemma_zeroed_sums(p0.abstain, sender@);
            lemma_locked_sum_update(pre.proposals, id as int, p_z);
            assert(bal_of(self@.balances, pre.contract_addr) == moved_bal(
                pre.balances,
                pre.contract_addr,
                sender@,
                withdrawn,
                pre.contract_addr,
            ));
        }
        Ok(())
    }

    /// Lock `vote.amount` of the voter's tokens on a position of a pending
    /// proposal. When the recorded stakes then reach the quorum, the
    /// proposal resolves in this same call: yes must strictly outweigh no
    /// to pass; the governance action applies; the proposer's cost and
    /// every stake row are refunded, yes before no before abstain, zeroed
    /// rows skipped.
    ///
    /// The engine's own account is no external caller, so `voter` is never
    /// the contract address.
    pub fn handle_vote(&mut self, voter: &String, vote: &VoteMsg) -> (r: Result<
        (),
        ContractError,
    >)
        requires
            old(self).wf(),
            voter@ != old(self)@.contract_addr,
        ensures
            final(self).wf(),
            proposals_monotone(old(self)@.proposals, final(self)@.proposals),
            match r {
                Ok(_) => vote_ok(old(self)@, final(self)@, voter@, *vote),
                Err(e) => {
                    &&& final(self)@ == old(self)@
                    &&& vote_fails(old(self)@, voter@, *vote)
                    &&& e == vote_err(old(self)@, voter@, *vote)
                },
            },
    {
        let ghost pre = self@;
        let amount = vote.amount;
        if amount == 0 {
            return Err(ContractError::InvalidZeroAmount);
        }
        let voter_bal = lookup_balance(&self.balances, voter);
        if voter_bal < amount {
            return Err(ContractError::Overflow);
        }
        if vote.proposal_id >= self.proposals.len() as u64 {
            return Err(ContractError::NotFound);
        }
        let id = vote.proposal_id as usize;
        if !(self.proposals[id].status == ProposalStatus::Pending) {
            return Err(ContractError::VoteOnCompletedProposal);
        }
        let ghost p0 = pre.proposals[id as int];
        let ghost p1 = with_vote(p0, voter@, vote.position, amount);
        proof {
            // Every sum in sight is covered by the holding account plus the
            // voter's balance, which two distinct holders keep within the
            // total supply.
            lemma_locked_of_le_sum(pre.proposals, id as int);
            lemma_bal_of_le_sum(pre.balances, pre.contract_addr);
            lemma_two_bal_le_sum(pre.balances, pre.contract_addr, voter@);
            lemma_amount_sum_nonneg(p0.yes);
            lemma_amount_sum_nonneg(p0.no);
            lemma_amount_sum_nonneg(p0.abstain);
            lemma_bal_of_nonneg(pre.balances, voter@);
        }
        let yes_sum = sum_amounts(&self.proposals[id].yes);
        let no_sum = sum_amounts(&self.proposals[id].no);
        let abstain_sum = sum_amounts(&self.proposals[id].abstain);
        proof {
            // Recording the vote grows exactly one position's sum.
            match vote.position {
                VotePosition::Yes => {
                    assert(p1.yes.drop_last() =~= p0.yes);
                },
                VotePosition::No => {
                    assert(p1.no.drop_last() =~= p0.no);
                },
                VotePosition::Abstain => {
                    assert(p1.abstain.drop_last() =~= p0.abstain);
                },
            }
            assert(stake_total(p1) == stake_total(p0) + amount);
        }
        let new_total = yes_sum + no_sum + abstain_sum + amount;
        let quorum = self.config.quorum;
        if new_total < quorum {
            // Below the quorum: move the stake in and record the vote.
            match transfer_impl(&mut self.balances, voter, &self.contract_addr, amount) {
                Ok(_) => {},
                Err(_) => {
                    proof {
                        assert(false);
                    }
                    return Err(ContractError::Overflow);
                },
            }
            let p = &mut self.proposals[id];
            p.add_vote(voter, vote.position, amount);
            proof {
                assert(self@.proposals =~= pre.proposals.update(id as int, p1));
                lemma_locked_sum_update(pre.proposals, id as int, p1);
                assert(bal_of(self@.balances, pre.contract_addr) == moved_bal(
                    pre.balances,
                    voter@,
                    pre.contract_addr,
                    amount,
                    pre.contract_addr,
                ));
            }
            return Ok(());
        }
        // The quorum is reached: the proposal resolves in this call.
        let new_yes = match vote.position {
            VotePosition::Yes => yes_sum + amount,
            _ => yes_sum,
        };
        let new_no = match vote.position {
            VotePosition::No => no_sum + amount,
            _ => no_sum,
        };
        let passed = new_yes > new_no;
        // The action must be applicable before anything is mutated.
        let applies = match &self.proposals[id].action {
            ProposeAction::RemoveItem { id: item_id } => *item_id < self.items.len() as u64,
            _ => true,
        };
        if !applies {
            return Err(ContractError::NotFound);
        }
        let ghost st = resolved_status(p1, pre.config.quorum);
        proof {
            assert(amount_sum(p1.yes) == new_yes);
            assert(amount_sum(p1.no) == new_no);
            assert(!(st is Pending));
            assert(st is Passed <==> passed);
        }
        self.resolve_with_vote(voter, id, vote.position, amount, passed);
        Ok(())
    }

    /// The resolution half of [`Dao::handle_vote`]: move the stake in,
    /// record the vote and the terminal status, apply the governance
    /// action, and refund every lock.
    #[verifier::rlimit(100)]
    fn resolve_with_vote(
        &mut self,
        voter: &String,
        id: usize,
        position: VotePosition,
        amount: u128,
        passed: bool,
    )
        requires
            old(self).wf(),
            voter@ != old(self)@.contract_addr,
            id < old(self)@.proposals.len(),
            old(self)@.proposals[id as int].status is Pending,
            amount > 0,
            bal_of(old(self)@.balances, voter@) >= amount,
            action_applies(old(self)@.proposals[id as int].action, old(self)@.items),
            !(resolved_status(
                with_vote(old(self)@.proposals[id as int], voter@, position, amount),
                old(self)@.config.quorum,
            ) is Pending),
            passed == (resolved_status(
                with_vote(old(self)@.proposals[id as int], voter@, position, amount),
                old(self)@.config.quorum,
            ) is Passed),
        ensures
            final(self).wf(),
            ({
                let pre = old(self)@;
                let post = final(self)@;
                let p0 = pre.proposals[id as int];
                let p1 = with_vote(p0, voter@, position, amount);
                let st = resolved_status(p1, pre.config.quorum);
                &&& post.proposals == pre.proposals.update(
                    id as int,
                    (ProposalView { status: st, ..p1 }),
                )
                &&& post.config == config_after(p0.action, pre.config)
                &&& post.items == items_after(p0.action, pre.items)
                &&& post.token == pre.token
                &&& post.contract_addr == pre.contract_addr
                &&& resolution_balances(
                    pre.balances,
                    post.balances,
                    voter@,
                    pre.contract_addr,
                    amount,
                    p1,
                )
            }),
    {
        let ghost pre = self@;
        let ghost p0 = pre.proposals[id as int];
        let ghost p1 = with_vote(p0, voter@, position, amount);
        let ghost st = resolved_status(p1, pre.config.quorum);
        proof {
            lemma_locked_of_le_sum(pre.proposals, id as int);
            lemma_bal_of_le_sum(pre.balances, pre.contract_addr);
            lemma_two_bal_le_sum(pre.balances, pre.contract_addr, voter@);
            lemma_amount_sum_nonneg(p0.yes);
            lemma_amount_sum_nonneg(p0.no);
            lemma_amount_sum_nonneg(p0.abstain);
            lemma_bal_of_nonneg(pre.balances, voter@);
            match position {
                VotePosition::Yes => {
                    assert(p1.yes.drop_last() =~= p0.yes);
                },
                VotePosition::No => {
                    assert(p1.no.drop_last() =~= p0.no);
                },
                VotePosition::Abstain => {
                    assert(p1.abstain.drop_last() =~= p0.abstain);
                },
            }
            assert(stake_total(p1) == stake_total(p0) + amount);
        }
        // Commit: move the stake into the holding account.
        match transfer_impl(&mut self.balances, voter, &self.contract_addr, amount) {
            Ok(_) => {},
            Err(_) => {
                proof {
                    assert(false);
                }
            },
        }
        let ghost b1 = self@.balances;
        // Record the vote and the outcome.
        let status = if passed {
            ProposalStatus::Passed
        } else {
            ProposalStatus::Failed
        };
        let p = &mut self.proposals[id];
        p.add_vote(voter, position, amount);
        p.status = status;
        let ghost p_res = ProposalView { status: st, ..p1 };
        proof {
            assert(self@.proposals =~= pre.proposals.update(id as int, p_res));
            lemma_locked_sum_update(pre.proposals, id as int, p_res);
            lemma_locked_sum_nonneg(self@.proposals);
            assert(bal_of(b1, pre.contract_addr) == moved_bal(
                pre.balances,
                voter@,
                pre.contract_addr,
                amount,
                pre.contract_addr,
            ));
        }
        // Apply the governance action; per the resolution rules it fires on
        // any terminal transition, whatever the outcome.
        let action = self.proposals[id].action.clone();
        match action {
            ProposeAction::ChangeQuorum { new_quorum } => {
                self.config.quorum = new_quorum;
            },
            ProposeAction::ChangeProposalCost { new_proposal_cost } => {
                self.config.proposal_cost = new_proposal_cost;
            },
            ProposeAction::AddItem(item) => {
                let ghost item_view = item@;
                self.items.push(item);
                proof {
                    assert(self@.items =~= pre.items.push(item_view));
                }
            },
            ProposeAction::RemoveItem { id: item_id } => {
                proof {
                    assert(p0.action == ActionView::RemoveItem { id: item_id });
                    assert(item_id < pre.items.len());
                    assert(self.items.len() == pre.items.len());
                }
                let _removed = self.items.remove(item_id as usize);
                proof {
                    assert(self@.items =~= pre.items.remove(item_id as int));
                }
            },
        }
        proof {
            assert(self@.config == config_after(p0.action, pre.config));
            assert(self@.items == items_after(p0.action, pre.items));
        }
        // Refunds: the proposer's locked cost first, then every stake row.
        let cost = self.proposals[id].proposal_cost;
        proof {
            // After the stake moved in, the holding account covers what the
            // rest of the list needs plus this proposal's full refund.
            lemma_addr_total_nonneg(p1.yes, pre.contract_addr);
            lemma_addr_total_nonneg(p1.no, pre.contract_addr);
            lemma_addr_total_nonneg(p1.abstain, pre.contract_addr);
        }
        if cost > 0 {
            match transfer_impl(
                &mut self.balances,
                &self.contract_addr,
                &self.proposals[id].proposer,
                cost,
            ) {
                Ok(_) => {},
                Err(_) => {
                    proof {
                        assert(false);
                    }
                },
            }
        }
        let ghost b2 = self@.balances;
        proof {
            // Whether or not a cost refund ran, its effect is the same
            // pointwise formula.
            assert forall|who: Seq<char>| #[trigger] bal_of(b2, who) == bal_of(b1, who) - (if who
                == pre.contract_addr {
                cost as int
            } else {
                0
            }) + (if who == p1.proposer {
                cost as int
            } else {
                0
            }) by {
                if cost > 0 {
                    assert(bal_of(b2, who) == moved_bal(b1, pre.contract_addr, p1.proposer, cost,
                        who));
                } else {
                    assert(bal_of(b2, who) == bal_of(b1, who));
                }
            }
            lemma_amount_sum_nonneg(p1.no);
            lemma_amount_sum_nonneg(p1.abstain);
        }
        refund_entries(&mut self.balances, &self.contract_addr, &self.proposals[id].yes);
        let ghost b3 = self@.balances;
        proof {
            lemma_amount_sum_nonneg(p1.yes);
            lemma_addr_total_nonneg(p1.yes, pre.contract_addr);
        }
        refund_entries(&mut self.balances, &self.contract_addr, &self.proposals[id].no);
        let ghost b4 = self@.balances;
        proof {
            lemma_addr_total_nonneg(p1.no, pre.contract_addr);
        }
        refund_entries(&mut self.balances, &self.contract_addr, &self.proposals[id].abstain);
        let ghost b5 = self@.balances;
        proof {
            // Compose the five balance moves into the resolution formula.
            assert forall|who: Seq<char>| #[trigger] bal_of(b5, who) == moved_bal(
                pre.balances,
                voter@,
                pre.contract_addr,
                amount,
                who,
            ) - (if who == pre.contract_addr {
                p1.proposal_cost + stake_total(p1)
            } else {
                0
            }) + refund_credit(p1, who) by {
                assert(bal_of(b1, who) == moved_bal(pre.balances, voter@, pre.contract_addr,
                    amount, who));
                assert(bal_of(b2, who) == bal_of(b1, who) - (if who == pre.contract_addr {
                    cost as int
                } else {
                    0
                }) + (if who == p1.proposer {
                    cost as int
                } else {
                    0
                }));
                assert(bal_of(b3, who) == bal_of(b2, who) - (if who == pre.contract_addr {
                    amount_sum(p1.yes)
                } else {
                    0
                }) + addr_total(p1.yes, who));
                assert(bal_of(b4, who) == bal_of(b3, who) - (if who == pre.contract_addr {
                    amount_sum(p1.no)
                } else {
                    0
                }) + addr_total(p1.no, who));
                assert(bal_of(b5, who) == bal_of(b4, who) - (if who == pre.contract_addr {
                    amount_sum(p1.abstain)
                } else {
                    0
                }) + addr_total(p1.abstain, who));
            }
            // The holding account still covers what the rest of the list
            // has locked.
            lemma_addr_total_nonneg(p1.abstain, pre.contract_addr);
        }
    }
}

/// Conservation: in a well-formed state the holder balances — the engine's
/// holding account among them — sum to exactly the total supply. Every
/// operation requires and re-establishes [`Dao::wf`], so this holds between
/// any two calls, whatever their sequence.
pub proof fn lemma_conservation(d: &Dao)
    requires
        d.wf(),
    ensures
        amount_sum(d@.balances) == d@.token.total_supply,
{
}

/// At-most-one resolution: [`proposals_monotone`] composes across calls, so
/// once a proposal has left `Pending` no later sequence of operations
/// changes it again. Each mutating operation ensures the relation between
/// its pre- and post-state.
pub proof fn lemma_proposals_monotone_trans(
    a: Seq<ProposalView>,
    b: Seq<ProposalView>,
    c: Seq<ProposalView>,
)
    requires
        proposals_monotone(a, b),
        proposals_monotone(b, c),
    ensures
        proposals_monotone(a, c),
{
    assert forall|j: int| 0 <= j < a.len() && !(a[j].status is Pending) implies c[j] == a[j] by {
        assert(b[j] == a[j]);
    }
}

/// Tie policy: with the quorum reached and yes equal to no, a proposal
/// resolves to `Failed`, deterministically — never to `Passed`.
pub proof fn lemma_tie_resolves_failed(p: ProposalView, quorum: u128)
    requires
        stake_total(p) >= quorum,
        amount_sum(p.yes) == amount_sum(p.no),
    ensures
        resolved_status(p, quorum) is Failed,
{
}

/// Refund completeness: balances satisfying the resolution relation hand
/// every participant other than the engine their pre-call balance back,
/// plus the proposer's locked cost if they proposed and every stake row
/// recorded for them — rows zeroed by a withdrawal contribute nothing, a
/// voter with several rows gets each of them back. The voter who triggered
/// the resolution also paid their final stake, which returns among their
/// credits, so the books balance for them too.
pub proof fn lemma_refund_completeness(
    pre: Seq<(Seq<char>, u128)>,
    post: Seq<(Seq<char>, u128)>,
    voter: Seq<char>,
    c: Seq<char>,
    amount: u128,
    p1: ProposalView,
    who: Seq<char>,
)
    requires
        resolution_balances(pre, post, voter, c, amount, p1),
        who != c,
    ensures
        who != voter ==> bal_of(post, who) == bal_of(pre, who) + refund_credit(p1, who),
        who == voter ==> bal_of(post, who) == bal_of(pre, who) - amount + refund_credit(p1, who),
{
}

/// The stake that triggers a resolution is itself refunded: recording it
/// raises the voter's credit by exactly that amount.
pub proof fn lemma_trigger_stake_refunded(
    p0: ProposalView,
    voter: Seq<char>,
    position: VotePosition,
    amount: u128,
)
    ensures
        refund_credit(with_vote(p0, voter, position, amount), voter) == refund_credit(p0, voter)
            + amount,
{
    let p1 = with_vote(p0, voter, position, amount);
    match position {
        VotePosition::Yes => {
            assert(p1.yes.drop_last() =~= p0.yes);
        },
        VotePosition::No => {
            assert(p1.no.drop_last() =~= p0.no);
        },
        VotePosition::Abstain => {
            assert(p1.abstain.drop_last() =~= p0.abstain);
        },
    }
}

} // verus!
