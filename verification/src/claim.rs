//! Source-chain events and the claims validators make about them.

use crate::amount::Amount;
use vstd::prelude::*;

verus! {

/// One ether in wei: the amount every claim built by [`create_claim`] carries.
pub const ONE_ETH: u128 = 1_000_000_000_000_000_000;

/// What happened on the source chain.
#[derive(Clone, Copy, Debug, PartialEq, Eq, Structural)]
pub enum EventKind {
    Deposit,
    BatchExecuted,
    ValsetUpdated,
}

/// An event of the source chain. It never changes once observed.
#[derive(Debug)]
pub struct Event {
    pub nonce: u64,
    pub block_height: u64,
    pub kind: EventKind,
    pub token_contract: String,
    pub amount: Amount,
    pub sender: String,
    pub receiver: String,
}

/// The mathematical content of an [`Event`].
pub struct EventView {
    pub nonce: u64,
    pub block_height: u64,
    pub kind: EventKind,
    pub token_contract: Seq<char>,
    pub amount: Amount,
    pub sender: Seq<char>,
    pub receiver: Seq<char>,
}

impl View for Event {
    type V = EventView;

    open spec fn view(&self) -> EventView {
        EventView {
            nonce: self.nonce,
            block_height: self.block_height,
            kind: self.kind,
            token_contract: self.token_contract@,
            amount: self.amount,
            sender: self.sender@,
            receiver: self.receiver@,
        }
    }
}

impl Event {
    /// Whether two events have the same content, field by field.
    pub fn same_content(&self, other: &Event) -> (r: bool)
        ensures
            r == (self@ == other@),
    {
        self.nonce == other.nonce && self.block_height == other.block_height && self.kind
            == other.kind && self.amount == other.amount && self.token_contract
            == other.token_contract && self.sender == other.sender && self.receiver
            == other.receiver
    }

    /// A copy of the event.
    pub fn duplicate(&self) -> (r: Event)
        ensures
            r@ == self@,
    {
        Event {
            nonce: self.nonce,
            block_height: self.block_height,
            kind: self.kind,
            token_contract: self.token_contract.clone(),
            amount: self.amount,
            sender: self.sender.clone(),
            receiver: self.receiver.clone(),
        }
    }
}

/// The views of a sequence of events.
pub open spec fn event_views(s: Seq<Event>) -> Seq<EventView> {
    Seq::new(s.len(), |i: int| s[i]@)
}

/// A validator's assertion about one event, with the orchestrator that makes it.
#[derive(Debug)]
pub struct Claim {
    pub event: Event,
    pub orchestrator: String,
}

/// The mathematical content of a [`Claim`].
pub struct ClaimView {
    pub event: EventView,
    pub orchestrator: Seq<char>,
}

impl View for Claim {
    type V = ClaimView;

    open spec fn view(&self) -> ClaimView {
        ClaimView { event: self.event@, orchestrator: self.orchestrator@ }
    }
}

/// The claim that `orchestrator_addr` makes of a deposit of one ether of
/// `token_contract`, sent by `initiator_eth_addr` to `receiver_cosmos_addr`,
/// seen at block `height` as event number `nonce`.
pub fn create_claim(
    nonce: u64,
    height: u64,
    token_contract: String,
    initiator_eth_addr: String,
    receiver_cosmos_addr: String,
    orchestrator_addr: String,
) -> (claim: Claim)
    ensures
        claim@ == (ClaimView {
            event: EventView {
                nonce,
                block_height: height,
                kind: EventKind::Deposit,
                token_contract: token_contract@,
                amount: Amount { hi: 0, lo: ONE_ETH },
                sender: initiator_eth_addr@,
                receiver: receiver_cosmos_addr@,
            },
            orchestrator: orchestrator_addr@,
        }),
{
    Claim {
        event: Event {
            nonce,
            block_height: height,
            kind: EventKind::Deposit,
            token_contract,
            amount: Amount::from_u128(ONE_ETH),
            sender: initiator_eth_addr,
            receiver: receiver_cosmos_addr,
        },
        orchestrator: orchestrator_addr,
    }
}

/// The views of a sequence of claims.
pub open spec fn claim_views(s: Seq<Claim>) -> Seq<ClaimView> {
    Seq::new(s.len(), |i: int| s[i]@)
}

/// The claims that [`false_claims`] builds: one for every orchestrator but
/// the first, each as [`create_claim`] builds it.
pub open spec fn false_claim_views(
    orchestrators: Seq<Seq<char>>,
    nonce: u64,
    height: u64,
    token_contract: Seq<char>,
    initiator_eth_addr: Seq<char>,
    receiver_cosmos_addr: Seq<char>,
) -> Seq<ClaimView> {
    Seq::new(
        if orchestrators.len() == 0 {
            0nat
        } else {
            (orchestrators.len() - 1) as nat
        },
        |i: int|
            ClaimView {
                event: EventView {
                    nonce,
                    block_height: height,
                    kind: EventKind::Deposit,
                    token_contract,
                    amount: Amount { hi: 0, lo: ONE_ETH },
                    sender: initiator_eth_addr,
                    receiver: receiver_cosmos_addr,
                },
                orchestrator: orchestrators[i + 1],
            },
    )
}

/// The addresses that a sequence of strings holds.
pub open spec fn texts(s: Seq<String>) -> Seq<Seq<char>> {
    Seq::new(s.len(), |i: int| s[i]@)
}

/// The claims of a deposit that never happened, one for every orchestrator
/// but the first, in their order: all of the same event, so that they gather
/// in one attestation.
pub fn false_claims(
    orchestrators: &Vec<String>,
    nonce: u64,
    height: u64,
    token_contract: &String,
    initiator_eth_addr: &String,
    receiver_cosmos_addr: &String,
) -> (claims: Vec<Claim>)
    ensures
        claim_views(claims@) == false_claim_views(
            texts(orchestrators@),
            nonce,
            height,
            token_contract@,
            initiator_eth_addr@,
            receiver_cosmos_addr@,
        ),
{
    let ghost goal = false_claim_views(
        texts(orchestrators@),
        nonce,
        height,
        token_contract@,
        initiator_eth_addr@,
        receiver_cosmos_addr@,
    );
    let mut claims: Vec<Claim> = Vec::new();
    let mut i: usize = 1;
    while i < orchestrators.len()
        invariant
            1 <= i,
            orchestrators.len() == 0 ==> i == 1,
            orchestrators.len() > 0 ==> i <= orchestrators.len(),
            claims@.len() == i - 1,
            goal == false_claim_views(
                texts(orchestrators@),
                nonce,
                height,
                token_contract@,
                initiator_eth_addr@,
                receiver_cosmos_addr@,
            ),
            forall|k: int| 0 <= k < claims@.len() ==> (#[trigger] claims@[k])@ == goal[k],
        decreases orchestrators.len() - i,
    {
        let claim = create_claim(
            nonce,
            height,
            token_contract.clone(),
            initiator_eth_addr.clone(),
            receiver_cosmos_addr.clone(),
            orchestrators[i].clone(),
        );
        assert(claim@ == goal[i - 1]);
        claims.push(claim);
        i = i + 1;
    }
    assert(claim_views(claims@) =~= goal);
    claims
}

/// The type URL of the message that carries a deposit claim.
pub open spec fn deposit_claim_url() -> Seq<char> {
    "/gravity.v1.MsgSendToCosmosClaim"@
}

/// What to do with the claim held by an attestation that was read back.
#[derive(Clone, Copy, Debug, PartialEq, Eq, Structural)]
pub enum Observation {
    /// Show the attestation as it is.
    ShowRaw,
    /// Decode the claim as a deposit claim and show it with its votes.
    Decode,
}

/// Decides by the claim's type URL how to show an attestation: claims of
/// other kinds are shown raw where `print_others` asks for it; everything
/// else is decoded as a deposit claim.
pub fn observation(print_others: bool, type_url: &String) -> (r: Observation)
    ensures
        r == if print_others && type_url@ != deposit_claim_url() {
            Observation::ShowRaw
        } else {
            Observation::Decode
        },
{
    let url: String = "/gravity.v1.MsgSendToCosmosClaim".to_owned();
    if print_others && *type_url != url {
        Observation::ShowRaw
    } else {
        Observation::Decode
    }
}

} // verus!
