//! The typed operations the core exposes, and the payloads they carry.
//!
//! Everything here is plain data: amounts are `u128`, holder identities are
//! `String`. Types with `String` or `Vec` fields get a mathematical view
//! (`...View`) that contracts speak about.

use vstd::prelude::*;

verus! {

/// An opaque named content record managed through governance actions.
#[derive(Debug, PartialEq)]
pub struct WebItem {
    /// The name of the item.
    pub name: String,
    /// The contents of the item.
    pub contents: String,
}

pub struct WebItemView {
    pub name: Seq<char>,
    pub contents: Seq<char>,
}

impl View for WebItem {
    type V = WebItemView;

    open spec fn view(&self) -> WebItemView {
        WebItemView { name: self.name@, contents: self.contents@ }
    }
}

impl DeepView for WebItem {
    type V = WebItemView;

    open spec fn deep_view(&self) -> WebItemView {
        self.view()
    }
}

impl Clone for WebItem {
    fn clone(&self) -> (res: Self)
        ensures
            res == *self,
    {
        WebItem { name: self.name.clone(), contents: self.contents.clone() }
    }
}

/// The effect a resolved proposal applies.
#[derive(Debug, PartialEq)]
pub enum ProposeAction {
    /// Change the quorum to a new value (unvalidated at this layer).
    ChangeQuorum { new_quorum: u128 },
    /// Change the cost of creating a new proposal.
    ChangeProposalCost { new_proposal_cost: u128 },
    /// Append a new item to the governance item collection.
    AddItem(WebItem),
    /// Remove the item at position `id`, shifting later items down.
    RemoveItem { id: u64 },
}

pub enum ActionView {
    ChangeQuorum { new_quorum: u128 },
    ChangeProposalCost { new_proposal_cost: u128 },
    AddItem(WebItemView),
    RemoveItem { id: u64 },
}

impl View for ProposeAction {
    type V = ActionView;

    open spec fn view(&self) -> ActionView {
        match self {
            ProposeAction::ChangeQuorum { new_quorum } => ActionView::ChangeQuorum {
                new_quorum: *new_quorum,
            },
            ProposeAction::ChangeProposalCost { new_proposal_cost } => {
                ActionView::ChangeProposalCost { new_proposal_cost: *new_proposal_cost }
            },
            ProposeAction::AddItem(item) => ActionView::AddItem(item@),
            ProposeAction::RemoveItem { id } => ActionView::RemoveItem { id: *id },
        }
    }
}

impl Clone for ProposeAction {
    fn clone(&self) -> (res: Self)
        ensures
            res == *self,
    {
        match self {
            ProposeAction::ChangeQuorum { new_quorum } => ProposeAction::ChangeQuorum {
                new_quorum: *new_quorum,
            },
            ProposeAction::ChangeProposalCost { new_proposal_cost } => {
                ProposeAction::ChangeProposalCost { new_proposal_cost: *new_proposal_cost }
            },
            ProposeAction::AddItem(item) => ProposeAction::AddItem(item.clone()),
            ProposeAction::RemoveItem { id } => ProposeAction::RemoveItem { id: *id },
        }
    }
}

/// A request to create a new proposal.
#[derive(Debug, PartialEq)]
pub struct ProposeMsg {
    /// The title of the proposal.
    pub title: String,
    /// The body of the proposal.
    pub body: String,
    /// The action executed when the proposal resolves.
    pub action: ProposeAction,
}

pub struct ProposeMsgView {
    pub title: Seq<char>,
    pub body: Seq<char>,
    pub action: ActionView,
}

impl View for ProposeMsg {
    type V = ProposeMsgView;

    open spec fn view(&self) -> ProposeMsgView {
        ProposeMsgView { title: self.title@, body: self.body@, action: self.action@ }
    }
}

impl Clone for ProposeMsg {
    fn clone(&self) -> (res: Self)
        ensures
            res == *self,
    {
        ProposeMsg {
            title: self.title.clone(),
            body: self.body.clone(),
            action: self.action.clone(),
        }
    }
}

/// A position a voter can lock tokens to.
#[derive(Debug, Clone, Copy, PartialEq, Eq, Structural)]
pub enum VotePosition {
    /// In favour of executing the proposal.
    Yes,
    /// Against executing the proposal.
    No,
    /// No position; the stake still counts towards the quorum.
    Abstain,
}

/// A request to lock tokens on a position of an existing proposal.
#[derive(Debug, Clone, Copy, PartialEq, Eq, Structural)]
pub struct VoteMsg {
    /// The proposal the sender locks tokens on.
    pub proposal_id: u64,
    /// The position the tokens are locked to.
    pub position: VotePosition,
    /// How many tokens are staked on this vote.
    pub amount: u128,
}

/// A request to unlock every token the sender staked on a proposal.
#[derive(Debug, Clone, Copy, PartialEq, Eq, Structural)]
pub struct WithdrawVoteMsg {
    /// The proposal the sender's stakes are withdrawn from.
    pub proposal_id: u64,
}

/// One initial balance: a holder and the amount it starts with.
#[derive(Debug)]
pub struct InitialBalance {
    /// The holder's identity.
    pub address: String,
    /// The number of tokens the holder starts with.
    pub amount: u128,
}

impl View for InitialBalance {
    type V = (Seq<char>, u128);

    open spec fn view(&self) -> (Seq<char>, u128) {
        (self.address@, self.amount)
    }
}

impl DeepView for InitialBalance {
    type V = (Seq<char>, u128);

    open spec fn deep_view(&self) -> (Seq<char>, u128) {
        self.view()
    }
}

/// Metadata and initial distribution of the voting token.
#[derive(Debug)]
pub struct TokenInstantiateInfo {
    /// The name of the token, 3 to 50 bytes.
    pub name: String,
    /// The ticker symbol, 3 to 12 bytes of `[a-zA-Z-]`.
    pub symbol: String,
    /// How many decimals frontends should display; at most 18.
    pub decimals: u8,
    /// The initial balances; their sum is the total supply.
    pub initial_balances: Vec<InitialBalance>,
}

/// Everything initialization needs.
#[derive(Debug)]
pub struct InstantiateMsg {
    /// Minimum total stake for a proposal to resolve; must be positive and
    /// at most the total supply.
    pub quorum: u128,
    /// The number of tokens locked to create a proposal.
    pub proposal_cost: u128,
    /// The voting token's metadata and initial distribution.
    pub token_info: TokenInstantiateInfo,
}

/// An operation delivered inside a token-send notification: the historical
/// "push" calling convention, where the moved amount is the stake.
#[derive(Debug)]
pub enum TokenMsg {
    /// Create a new proposal; the delivered amount pays the proposal cost.
    Propose(ProposeMsg),
    /// Vote on an existing proposal with the delivered amount as stake.
    Vote(VoteMsg),
}

/// A state-changing operation.
#[derive(Debug)]
pub enum ExecuteMsg {
    /// Unlock the tokens the sender has staked on a proposal.
    Withdraw(WithdrawVoteMsg),
    /// Create a new proposal.
    Propose(ProposeMsg),
    /// Vote on an existing proposal.
    Vote(VoteMsg),
    /// Move tokens to another holder without triggering actions.
    Transfer { recipient: String, amount: u128 },
    /// Destroy tokens forever, shrinking the total supply.
    Burn { amount: u128 },
    /// Move tokens to a contract and notify it with an opaque payload.
    Send { contract: String, amount: u128, msg: Vec<u8> },
}

/// A paginated listing of proposals.
#[derive(Debug, Clone, Copy, PartialEq, Eq, Structural)]
pub struct ListProposalsMsg {
    /// The position of the first proposal to return.
    pub start: u64,
    /// How many proposals to return from that position on.
    pub count: u64,
}

/// A read-only query; never mutates state.
#[derive(Debug)]
pub enum QueryMsg {
    /// List a window of the proposal list.
    ListProposals(ListProposalsMsg),
    /// Get one proposal by its position.
    GetProposal { proposal_id: u64 },
    /// List every governance item.
    ListItems,
    /// Get one governance item by its position.
    GetItem { item_id: u64 },
    /// The current quorum.
    GetQuorum,
    /// The current proposal cost.
    GetProposalCost,
    /// How many tokens an address holds (zero when it holds none).
    Balance { address: String },
    /// The token's name, symbol, decimals and total supply.
    TokenInfo,
}

/// Answer to [`QueryMsg::Balance`].
#[derive(Debug, Clone, Copy, PartialEq, Eq, Structural)]
pub struct BalanceResponse {
    pub balance: u128,
}

/// Answer to [`QueryMsg::TokenInfo`].
#[derive(Debug)]
pub struct TokenInfoResponse {
    pub name: String,
    pub symbol: String,
    pub decimals: u8,
    pub total_supply: u128,
}

/// The notification a [`ExecuteMsg::Send`] emits for its recipient,
/// to be delivered by the host.
#[derive(Debug)]
pub struct ReceiveNotification {
    /// Where the notification goes.
    pub contract: String,
    /// Who sent the tokens.
    pub sender: String,
    /// How many tokens arrived.
    pub amount: u128,
    /// The opaque payload handed along.
    pub msg: Vec<u8>,
}

} // verus!
