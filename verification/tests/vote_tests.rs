//! Voting, quorum-triggered resolution, refunds and withdrawal.

use webdao::contract::QueryResponse;
use webdao::msg::{
    ExecuteMsg, InitialBalance, InstantiateMsg, ProposeAction, ProposeMsg, QueryMsg,
    TokenInstantiateInfo, VoteMsg, VotePosition, WebItem, WithdrawVoteMsg,
};
use webdao::state::{Dao, Proposal, ProposalStatus};
use webdao::ContractError;

const CONTRACT: &str = "contract";

fn vote_instantiate(quorum: u128, cost: u128, holders: &[(&str, u128)]) -> Dao {
    let msg = InstantiateMsg {
        quorum,
        proposal_cost: cost,
        token_info: TokenInstantiateInfo {
            name: "item-dao".to_string(),
            symbol: "IDAO".to_string(),
            decimals: 3,
            initial_balances: holders
                .iter()
                .map(|(a, n)| InitialBalance { address: a.to_string(), amount: *n })
                .collect(),
        },
    };
    Dao::instantiate(CONTRACT.to_string(), msg).unwrap()
}

fn vote_balance(dao: &Dao, who: &str) -> u128 {
    dao.query_balance(&who.to_string()).balance
}

fn vote_get(dao: &Dao, id: u64) -> Proposal {
    match dao.query(&QueryMsg::GetProposal { proposal_id: id }).unwrap() {
        QueryResponse::Proposal(p) => p,
        _ => panic!("unexpected response"),
    }
}

fn vote_proposal() -> ProposeMsg {
    ProposeMsg {
        title: "🦄!".to_string(),
        body: "everyone should use a unicorn emoji for their twitter profile!".to_string(),
        action: ProposeAction::AddItem(WebItem {
            name: "unicorn emojis must be used for all profile photos".to_string(),
            contents: "unicorn emoji shall be defined as being 🦄".to_string(),
        }),
    }
}

/// Quorum 98, cost 1, one holder with 100,000; a proposal and a 97-token
/// yes vote leave the proposal one token short of the quorum.
fn setup_near_pass() -> (Dao, String) {
    let sender = "🦄".to_string();
    let mut dao = vote_instantiate(98, 1, &[("🦄", 100000)]);

    dao.execute(&sender, ExecuteMsg::Propose(vote_proposal())).unwrap();

    // A vote that does not reach the quorum.
    let vote = VoteMsg { proposal_id: 0, position: VotePosition::Yes, amount: 97 };
    dao.execute(&sender, ExecuteMsg::Vote(vote)).unwrap();

    // The proposal is still pending with the vote recorded.
    let prop = vote_get(&dao, 0);
    assert_eq!(prop.status, ProposalStatus::Pending);
    assert_eq!(prop.get_votes(VotePosition::Yes), 97);

    // 1 token is locked for the proposal and 97 for the vote.
    assert_eq!(vote_balance(&dao, "🦄"), 99902);

    // The locked tokens sit in the engine's holding account.
    assert_eq!(vote_balance(&dao, CONTRACT), 98);

    (dao, sender)
}

#[test]
fn vote_yes_yes() {
    let (mut dao, sender) = setup_near_pass();

    // One more yes reaches the quorum and passes the proposal.
    let vote = VoteMsg { proposal_id: 0, position: VotePosition::Yes, amount: 1 };
    dao.execute(&sender, ExecuteMsg::Vote(vote)).unwrap();

    let prop = vote_get(&dao, 0);
    assert_eq!(prop.status, ProposalStatus::Passed);
    assert_eq!(prop.get_votes(VotePosition::Yes), 98);

    // Everything locked has been returned.
    assert_eq!(vote_balance(&dao, "🦄"), 100000);
}

#[test]
fn vote_yes_no_pass() {
    let (mut dao, sender) = setup_near_pass();

    // A one-token no reaches the quorum; yes still outweighs no.
    let vote = VoteMsg { proposal_id: 0, position: VotePosition::No, amount: 1 };
    dao.execute(&sender, ExecuteMsg::Vote(vote)).unwrap();

    let prop = vote_get(&dao, 0);
    assert_eq!(prop.status, ProposalStatus::Passed);
    assert_eq!(prop.get_votes(VotePosition::Yes), 97);

    assert_eq!(vote_balance(&dao, "🦄"), 100000);
}

#[test]
fn vote_yes_no_fail() {
    let (mut dao, sender) = setup_near_pass();

    // A matching no makes it a tie, which fails deterministically.
    let vote = VoteMsg { proposal_id: 0, position: VotePosition::No, amount: 97 };
    dao.execute(&sender, ExecuteMsg::Vote(vote)).unwrap();

    let prop = vote_get(&dao, 0);
    assert_eq!(prop.status, ProposalStatus::Failed);
    assert_eq!(prop.get_votes(VotePosition::Yes), 97);
    assert_eq!(prop.get_votes(VotePosition::No), 97);

    assert_eq!(vote_balance(&dao, "🦄"), 100000);
}

#[test]
fn vote_yes_abstain_pass() {
    let (mut dao, sender) = setup_near_pass();

    // An abstention counts towards the quorum but not the outcome.
    let vote = VoteMsg { proposal_id: 0, position: VotePosition::Abstain, amount: 1 };
    dao.execute(&sender, ExecuteMsg::Vote(vote)).unwrap();

    let prop = vote_get(&dao, 0);
    assert_eq!(prop.status, ProposalStatus::Passed);
    assert_eq!(prop.get_votes(VotePosition::Yes), 97);
    assert_eq!(prop.get_votes(VotePosition::Abstain), 1);

    assert_eq!(vote_balance(&dao, "🦄"), 100000);
}

#[test]
fn vote_yes_withdraw() {
    let (mut dao, sender) = setup_near_pass();

    // Withdraw all votes; the proposal cost stays locked.
    let msg = WithdrawVoteMsg { proposal_id: 0 };
    dao.execute(&sender, ExecuteMsg::Withdraw(msg)).unwrap();

    assert_eq!(vote_balance(&dao, "🦄"), 99999);

    let prop = vote_get(&dao, 0);
    assert_eq!(prop.status, ProposalStatus::Pending);
    assert_eq!(prop.get_votes(VotePosition::Yes), 0);
}

#[test]
#[should_panic]
fn vote_yes_no_pass_withdraw() {
    let (mut dao, sender) = setup_near_pass();

    // Resolve the proposal.
    let vote = VoteMsg { proposal_id: 0, position: VotePosition::No, amount: 1 };
    dao.execute(&sender, ExecuteMsg::Vote(vote)).unwrap();

    let prop = vote_get(&dao, 0);
    assert_eq!(prop.status, ProposalStatus::Passed);
    assert_eq!(prop.get_votes(VotePosition::Yes), 97);
    assert_eq!(vote_balance(&dao, "🦄"), 100000);

    // Withdrawing from a completed proposal always fails.
    let msg = WithdrawVoteMsg { proposal_id: 0 };
    dao.execute(&sender, ExecuteMsg::Withdraw(msg)).unwrap();
}

#[test]
fn vote_zero_amount_rejected() {
    let (mut dao, sender) = setup_near_pass();
    let before = vote_balance(&dao, "🦄");

    let vote = VoteMsg { proposal_id: 0, position: VotePosition::Yes, amount: 0 };
    let err = dao.execute(&sender, ExecuteMsg::Vote(vote)).unwrap_err();
    assert_eq!(err, ContractError::InvalidZeroAmount);
    assert_eq!(vote_balance(&dao, "🦄"), before);
}

#[test]
fn vote_on_missing_proposal() {
    let (mut dao, sender) = setup_near_pass();

    let vote = VoteMsg { proposal_id: 7, position: VotePosition::Yes, amount: 1 };
    let err = dao.execute(&sender, ExecuteMsg::Vote(vote)).unwrap_err();
    assert_eq!(err, ContractError::NotFound);
}

#[test]
fn vote_without_funds() {
    let (mut dao, _) = setup_near_pass();

    let poor = "beggar".to_string();
    let vote = VoteMsg { proposal_id: 0, position: VotePosition::Yes, amount: 1 };
    let err = dao.execute(&poor, ExecuteMsg::Vote(vote)).unwrap_err();
    assert_eq!(err, ContractError::Overflow);
}

#[test]
fn vote_on_completed_proposal() {
    let (mut dao, sender) = setup_near_pass();

    let vote = VoteMsg { proposal_id: 0, position: VotePosition::Yes, amount: 1 };
    dao.execute(&sender, ExecuteMsg::Vote(vote)).unwrap();
    assert_eq!(vote_get(&dao, 0).status, ProposalStatus::Passed);

    let before = vote_balance(&dao, "🦄");
    let vote = VoteMsg { proposal_id: 0, position: VotePosition::Yes, amount: 1 };
    let err = dao.execute(&sender, ExecuteMsg::Vote(vote)).unwrap_err();
    assert_eq!(err, ContractError::VoteOnCompletedProposal);
    assert_eq!(vote_balance(&dao, "🦄"), before);
}

#[test]
fn withdraw_from_missing_proposal() {
    let (mut dao, sender) = setup_near_pass();

    let msg = WithdrawVoteMsg { proposal_id: 7 };
    let err = dao.execute(&sender, ExecuteMsg::Withdraw(msg)).unwrap_err();
    assert_eq!(err, ContractError::NotFound);
}

#[test]
fn withdraw_nothing_staked() {
    let (mut dao, _) = setup_near_pass();

    // A holder with no stake gets a zero refund, which the ledger refuses.
    let other = "bystander".to_string();
    let msg = WithdrawVoteMsg { proposal_id: 0 };
    let err = dao.execute(&other, ExecuteMsg::Withdraw(msg)).unwrap_err();
    assert_eq!(err, ContractError::InvalidZeroAmount);
}

#[test]
fn withdraw_then_resolve() {
    // Two holders; one stakes, withdraws, and the other resolves the
    // proposal. The withdrawn rows stay, with amount zero, and are skipped
    // by the refunds.
    let a = "alice".to_string();
    let b = "bob".to_string();
    let mut dao = vote_instantiate(100, 1, &[("alice", 500), ("bob", 600)]);

    dao.execute(&a, ExecuteMsg::Propose(vote_proposal())).unwrap();
    assert_eq!(vote_balance(&dao, "alice"), 499);

    let vote = VoteMsg { proposal_id: 0, position: VotePosition::Yes, amount: 50 };
    dao.execute(&a, ExecuteMsg::Vote(vote)).unwrap();
    assert_eq!(vote_balance(&dao, "alice"), 449);

    let msg = WithdrawVoteMsg { proposal_id: 0 };
    dao.execute(&a, ExecuteMsg::Withdraw(msg)).unwrap();
    assert_eq!(vote_balance(&dao, "alice"), 499);
    assert_eq!(vote_get(&dao, 0).status, ProposalStatus::Pending);

    let vote = VoteMsg { proposal_id: 0, position: VotePosition::Yes, amount: 100 };
    dao.execute(&b, ExecuteMsg::Vote(vote)).unwrap();

    let prop = vote_get(&dao, 0);
    assert_eq!(prop.status, ProposalStatus::Passed);
    assert_eq!(vote_balance(&dao, "alice"), 500);
    assert_eq!(vote_balance(&dao, "bob"), 600);
    assert_eq!(vote_balance(&dao, CONTRACT), 0);
}

#[test]
fn abstain_only_tie_fails() {
    // The quorum reached by abstentions alone is a zero-zero tie, which
    // fails.
    let a = "alice".to_string();
    let mut dao = vote_instantiate(100, 1, &[("alice", 500)]);

    dao.execute(&a, ExecuteMsg::Propose(vote_proposal())).unwrap();
    let vote = VoteMsg { proposal_id: 0, position: VotePosition::Abstain, amount: 100 };
    dao.execute(&a, ExecuteMsg::Vote(vote)).unwrap();

    let prop = vote_get(&dao, 0);
    assert_eq!(prop.status, ProposalStatus::Failed);
    assert_eq!(vote_balance(&dao, "alice"), 500);
}

#[test]
fn multiple_stakes_refunded_separately() {
    // A voter who stakes several times gets each row back on resolution.
    let a = "alice".to_string();
    let mut dao = vote_instantiate(100, 1, &[("alice", 500)]);

    dao.execute(&a, ExecuteMsg::Propose(vote_proposal())).unwrap();
    for _ in 0..4 {
        let vote = VoteMsg { proposal_id: 0, position: VotePosition::Yes, amount: 20 };
        dao.execute(&a, ExecuteMsg::Vote(vote)).unwrap();
    }
    assert_eq!(vote_get(&dao, 0).status, ProposalStatus::Pending);
    assert_eq!(vote_balance(&dao, "alice"), 419);

    let vote = VoteMsg { proposal_id: 0, position: VotePosition::Yes, amount: 20 };
    dao.execute(&a, ExecuteMsg::Vote(vote)).unwrap();

    let prop = vote_get(&dao, 0);
    assert_eq!(prop.status, ProposalStatus::Passed);
    assert_eq!(prop.yes.len(), 5);
    assert_eq!(vote_balance(&dao, "alice"), 500);
}
