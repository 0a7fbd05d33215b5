//! Proposal creation, lookup, listing and governance actions.

use webdao::contract::{ExecuteOutcome, QueryResponse};
use webdao::msg::{
    ExecuteMsg, InitialBalance, InstantiateMsg, ListProposalsMsg, ProposeAction, ProposeMsg,
    QueryMsg, TokenInstantiateInfo, VoteMsg, VotePosition, WebItem,
};
use webdao::state::{Dao, Proposal};
use webdao::ContractError;

const CONTRACT: &str = "contract";

fn prop_msg(quorum: u128, cost: u128, holders: &[(&str, u128)]) -> InstantiateMsg {
    InstantiateMsg {
        quorum,
        proposal_cost: cost,
        token_info: TokenInstantiateInfo {
            name: "item-dao".to_string(),
            symbol: "IDAO".to_string(),
            decimals: 3,
            initial_balances: holders
                .iter()
                .map(|(a, n)| InitialBalance { address: a.to_string(), amount: *n })
                .collect(),
        },
    }
}

fn prop_setup(quorum: u128, cost: u128, holders: &[(&str, u128)]) -> Dao {
    Dao::instantiate(CONTRACT.to_string(), prop_msg(quorum, cost, holders)).unwrap()
}

fn prop_balance(dao: &Dao, who: &str) -> u128 {
    dao.query_balance(&who.to_string()).balance
}

fn prop_get(dao: &Dao, id: u64) -> Proposal {
    match dao.query(&QueryMsg::GetProposal { proposal_id: id }).unwrap() {
        QueryResponse::Proposal(p) => p,
        _ => panic!("unexpected response"),
    }
}

fn unicorn_proposal() -> ProposeMsg {
    ProposeMsg {
        title: "🦄!".to_string(),
        body: "everyone should use a unicorn emoji for their twitter profile!".to_string(),
        action: ProposeAction::AddItem(WebItem {
            name: "unicorn emojis must be used for all profile photos".to_string(),
            contents: "unicorn emoji shall be defined as being 🦄".to_string(),
        }),
    }
}

#[test]
fn make_proposal() {
    let sender = "🦄".to_string();
    let mut dao = prop_setup(98, 1, &[("🦄", 100000)]);

    let proposal = unicorn_proposal();
    let outcome = dao.execute(&sender, ExecuteMsg::Propose(proposal.clone())).unwrap();
    match outcome {
        ExecuteOutcome::Proposed { proposal_id } => assert_eq!(proposal_id, 0),
        _ => panic!("propose must report the new identifier"),
    }

    let stored = prop_get(&dao, 0);
    assert_eq!(stored.title, proposal.title);
    assert_eq!(stored.body, proposal.body);
    assert_eq!(stored.action, proposal.action);

    assert_eq!(prop_balance(&dao, "🦄"), 99999);
}

#[test]
#[should_panic]
fn invalid_proposal_lookup() {
    let dao = prop_setup(99, 1, &[("awallet", 100000)]);
    dao.query(&QueryMsg::GetProposal { proposal_id: 0 }).unwrap();
}

#[test]
#[should_panic]
fn insufficent_token_funds() {
    // The unicorn wallet has no funds at all.
    let sender = "🦄".to_string();
    let mut dao = prop_setup(99, 100, &[("awallet", 100000)]);
    dao.execute(&sender, ExecuteMsg::Propose(unicorn_proposal())).unwrap();
}

#[test]
fn propose_with_zero_cost_rejected() {
    // With the proposal cost configured to zero the stake transfer is a
    // zero transfer, which the ledger refuses.
    let sender = "🦄".to_string();
    let mut dao = prop_setup(99, 0, &[("🦄", 100000)]);
    let err = dao.execute(&sender, ExecuteMsg::Propose(unicorn_proposal())).unwrap_err();
    assert_eq!(err, ContractError::InvalidZeroAmount);
}

#[test]
fn list_proposals() {
    let sender = "🦄".to_string();
    let mut dao = prop_setup(99, 100, &[("🦄", 100000)]);

    for _ in 0..4 {
        dao.execute(&sender, ExecuteMsg::Propose(unicorn_proposal())).unwrap();
    }

    let msg = QueryMsg::ListProposals(ListProposalsMsg { start: 0, count: 100 });
    match dao.query(&msg).unwrap() {
        QueryResponse::Proposals(ps) => assert_eq!(4, ps.len()),
        _ => panic!("unexpected response"),
    }
}

#[test]
fn list_proposals_window() {
    let sender = "🦄".to_string();
    let mut dao = prop_setup(99, 100, &[("🦄", 100000)]);
    for _ in 0..4 {
        dao.execute(&sender, ExecuteMsg::Propose(unicorn_proposal())).unwrap();
    }

    let msg = QueryMsg::ListProposals(ListProposalsMsg { start: 1, count: 2 });
    match dao.query(&msg).unwrap() {
        QueryResponse::Proposals(ps) => assert_eq!(2, ps.len()),
        _ => panic!("unexpected response"),
    }

    let msg = QueryMsg::ListProposals(ListProposalsMsg { start: 10, count: 2 });
    match dao.query(&msg).unwrap() {
        QueryResponse::Proposals(ps) => assert_eq!(0, ps.len()),
        _ => panic!("unexpected response"),
    }
}

#[test]
fn proposal_actions() {
    let sender = "🦄".to_string();
    let mut dao = prop_setup(98, 1, &[("🦄", 100000)]);

    // Pass a proposal adding the unicorn page.
    dao.execute(&sender, ExecuteMsg::Propose(unicorn_proposal())).unwrap();
    let vote = VoteMsg { proposal_id: 0, position: VotePosition::Yes, amount: 100 };
    dao.execute(&sender, ExecuteMsg::Vote(vote)).unwrap();

    // Pass a proposal adding the cow page.
    let proposal = ProposeMsg {
        title: "🐮!".to_string(),
        body: "everyone should use a cow emoji for their twitter profile!".to_string(),
        action: ProposeAction::AddItem(WebItem {
            name: "cow emojis must be used for all profile photos".to_string(),
            contents: "cow emoji shall be defined as being 🐮".to_string(),
        }),
    };
    dao.execute(&sender, ExecuteMsg::Propose(proposal)).unwrap();
    let vote = VoteMsg { proposal_id: 1, position: VotePosition::Yes, amount: 100 };
    dao.execute(&sender, ExecuteMsg::Vote(vote)).unwrap();

    match dao.query(&QueryMsg::ListItems).unwrap() {
        QueryResponse::Items(items) => {
            assert_eq!(items.len(), 2);
            assert_eq!(
                items[0].name,
                "unicorn emojis must be used for all profile photos".to_string()
            );
            assert_eq!(items[1].contents, "cow emoji shall be defined as being 🐮".to_string());
        },
        _ => panic!("unexpected response"),
    }

    match dao.query(&QueryMsg::GetItem { item_id: 0 }).unwrap() {
        QueryResponse::Item(unicorn) => {
            assert_eq!(unicorn.name, "unicorn emojis must be used for all profile photos");
            assert_eq!(
                unicorn.contents,
                "unicorn emoji shall be defined as being 🦄".to_string()
            );
        },
        _ => panic!("unexpected response"),
    }

    // Pass a proposal removing the unicorn page; the cow page shifts down.
    let proposal = ProposeMsg {
        title: "🦄!".to_string(),
        body: "everyone should not use a unicorn emoji for their twitter profile!".to_string(),
        action: ProposeAction::RemoveItem { id: 0 },
    };
    dao.execute(&sender, ExecuteMsg::Propose(proposal)).unwrap();
    let vote = VoteMsg { proposal_id: 2, position: VotePosition::Yes, amount: 100 };
    dao.execute(&sender, ExecuteMsg::Vote(vote)).unwrap();

    match dao.query(&QueryMsg::ListItems).unwrap() {
        QueryResponse::Items(items) => {
            assert_eq!(items.len(), 1);
            assert_eq!(items[0].name, "cow emojis must be used for all profile photos".to_string());
            assert_eq!(items[0].contents, "cow emoji shall be defined as being 🐮".to_string());
        },
        _ => panic!("unexpected response"),
    }

    match dao.query(&QueryMsg::GetItem { item_id: 0 }).unwrap() {
        QueryResponse::Item(cow) => {
            assert_eq!(cow.name, "cow emojis must be used for all profile photos");
            assert_eq!(cow.contents, "cow emoji shall be defined as being 🐮".to_string());
        },
        _ => panic!("unexpected response"),
    }

    // Pass a proposal raising the quorum.
    let proposal = ProposeMsg {
        title: "change the quorum to 1000".to_string(),
        body: "this will mean more people have to vote which is good".to_string(),
        action: ProposeAction::ChangeQuorum { new_quorum: 1000 },
    };
    dao.execute(&sender, ExecuteMsg::Propose(proposal)).unwrap();
    let vote = VoteMsg { proposal_id: 3, position: VotePosition::Yes, amount: 100 };
    dao.execute(&sender, ExecuteMsg::Vote(vote)).unwrap();

    match dao.query(&QueryMsg::GetQuorum).unwrap() {
        QueryResponse::Quorum(q) => assert_eq!(q, 1000),
        _ => panic!("unexpected response"),
    }

    // Pass a proposal raising the proposal cost; the new quorum applies.
    let proposal = ProposeMsg {
        title: "change the proposal cost to 1000".to_string(),
        body: "fewer people can submit proposals which is good".to_string(),
        action: ProposeAction::ChangeProposalCost { new_proposal_cost: 1000 },
    };
    dao.execute(&sender, ExecuteMsg::Propose(proposal)).unwrap();
    let vote = VoteMsg { proposal_id: 4, position: VotePosition::Yes, amount: 1000 };
    dao.execute(&sender, ExecuteMsg::Vote(vote)).unwrap();

    match dao.query(&QueryMsg::GetProposalCost).unwrap() {
        QueryResponse::ProposalCost(c) => assert_eq!(c, 1000),
        _ => panic!("unexpected response"),
    }
}

#[test]
fn propose_underpaid_rejected() {
    // Delivering less than the configured cost is refused with the amounts.
    let sender = "🦄".to_string();
    let mut dao = prop_setup(99, 10, &[("🦄", 100000)]);
    let err = dao.handle_propose(&sender, 5, unicorn_proposal()).unwrap_err();
    assert_eq!(err, ContractError::InsufficentProposalFunds { needed: 10, got: 5 });
    assert_eq!(prop_balance(&dao, "🦄"), 100000);
}

#[test]
fn proposal_stake_accounting() {
    // The stake ledgers can be driven directly.
    let mut p = webdao::state::Proposal::new(unicorn_proposal(), "🦄".to_string(), 1);
    assert_eq!(p.status, webdao::state::ProposalStatus::Pending);
    assert_eq!(p.get_total_votes(), 0);

    p.add_vote(&"🦄".to_string(), VotePosition::Yes, 40);
    p.add_vote(&"🦄".to_string(), VotePosition::No, 30);
    p.add_vote(&"other".to_string(), VotePosition::Abstain, 5);
    assert_eq!(p.get_votes(VotePosition::Yes), 40);
    assert_eq!(p.get_votes(VotePosition::No), 30);
    assert_eq!(p.get_votes(VotePosition::Abstain), 5);
    assert_eq!(p.get_total_votes(), 75);
}

#[test]
fn remove_item_out_of_range_aborts_resolution() {
    let sender = "🦄".to_string();
    let mut dao = prop_setup(98, 1, &[("🦄", 100000)]);

    // No items exist, so this action can never apply.
    let proposal = ProposeMsg {
        title: "remove a page that is not there".to_string(),
        body: "this cannot work".to_string(),
        action: ProposeAction::RemoveItem { id: 5 },
    };
    dao.execute(&sender, ExecuteMsg::Propose(proposal)).unwrap();
    let before = prop_balance(&dao, "🦄");

    // The vote would reach the quorum, but the whole call aborts and the
    // proposal stays pending, the stake untaken.
    let vote = VoteMsg { proposal_id: 0, position: VotePosition::Yes, amount: 100 };
    let err = dao.execute(&sender, ExecuteMsg::Vote(vote)).unwrap_err();
    assert_eq!(err, ContractError::NotFound);
    assert_eq!(prop_balance(&dao, "🦄"), before);
    assert_eq!(prop_get(&dao, 0).status, webdao::state::ProposalStatus::Pending);
}
