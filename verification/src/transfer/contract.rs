//! The transfer contract: a ledger of pending requests under sequential
//! identifiers, and their settlement on the oracle's verdict.

use crate::assoc::{
    distinct_keys, has_key, lemma_to_map_keys, lemma_to_map_push, lemma_to_map_remove,
    lemma_to_map_value, to_map,
};
use crate::error::ContractError;
use crate::response::{
    result_view, BankMsg, BankMsgView, Coin, CoinView, Event, EventView, MessageInfo, Response,
    ResponseView,
};
use crate::text::{bool_text, decimal, render_bool, render_u128, render_u64};
use vstd::prelude::*;

verus! {

#[derive(Clone, Debug, PartialEq, Eq)]
pub struct InstantiateMsg {}

#[derive(Clone, Debug, PartialEq, Eq)]
pub enum ExecuteMsg {
    /// Ask for `amount` to be paid to `recipient` once the oracle approves.
    RequestTransfer { recipient: String, amount: Coin },
    /// The oracle's verdict on the request `request_id`.
    OracleResponse { request_id: u64, approved: bool, flagged: bool, reason: String, risk_score: u64 },
}

#[derive(Clone, Debug, PartialEq, Eq)]
pub enum QueryMsg {
    /// The pending request under `id`.
    GetPendingTx { id: u64 },
    /// The settlement pointer.
    GetNextId {},
}

/// The answer to a [`QueryMsg`], one variant for each question.
#[derive(Clone, Debug, PartialEq, Eq)]
pub enum QueryResponse {
    PendingTx(Option<PendingTx>),
    NextId(u64),
}

/// A transfer that waits for the oracle's verdict.
#[derive(Clone, Debug, PartialEq, Eq)]
pub struct PendingTx {
    pub sender: String,
    pub recipient: String,
    pub amount: Coin,
}

/// What a [`PendingTx`] holds.
#[verifier::ext_equal]
pub struct PendingTxView {
    pub sender: Seq<char>,
    pub recipient: Seq<char>,
    pub amount: CoinView,
}

impl View for PendingTx {
    type V = PendingTxView;

    open spec fn view(&self) -> PendingTxView {
        PendingTxView { sender: self.sender@, recipient: self.recipient@, amount: self.amount@ }
    }
}

impl DeepView for PendingTx {
    type V = PendingTxView;

    open spec fn deep_view(&self) -> PendingTxView {
        self@
    }
}

impl PendingTx {
    /// A copy of this request.
    pub fn duplicate(&self) -> (tx: PendingTx)
        ensures
            tx@ == self@,
    {
        PendingTx {
            sender: self.sender.clone(),
            recipient: self.recipient.clone(),
            amount: self.amount.duplicate(),
        }
    }
}

/// The view of an optional request.
pub open spec fn opt_tx_view(tx: Option<PendingTx>) -> Option<PendingTxView> {
    match tx {
        Some(tx) => Some(tx@),
        None => None,
    }
}

/// Everything the transfer contract keeps between calls.
#[derive(Clone, Debug, PartialEq, Eq)]
pub struct TransferState {
    /// The pending requests in ascending order of identifier.
    pending: Vec<(u64, PendingTx)>,
    index: u64,
    next_id: u64,
}

/// The state as the contracts speak of it.
#[verifier::ext_equal]
pub struct TransferStateView {
    /// The requests that were issued and are not yet settled.
    pub pending: Map<nat, PendingTxView>,
    /// The identifier that the next request gets.
    pub index: nat,
    /// The settlement pointer.
    pub next_id: nat,
}

/// The stored pairs with their identifiers as natural numbers.
pub open spec fn ledger_pairs(stored: Seq<(u64, PendingTxView)>) -> Seq<(nat, PendingTxView)> {
    stored.map_values(|p: (u64, PendingTxView)| (p.0 as nat, p.1))
}

/// The stored pairs stand in strictly ascending order of identifier.
pub open spec fn ascending_ids(stored: Seq<(u64, PendingTxView)>) -> bool {
    forall|i: int, j: int|
        0 <= i < j < stored.len() ==> (#[trigger] stored[i]).0 < (#[trigger] stored[j]).0
}

/// What stored parts must satisfy to be a ledger's state: identifiers start
/// at 1, every pending identifier was issued, and the settlement pointer has
/// not passed the issuance counter.
pub open spec fn parts_valid(stored: Seq<(u64, PendingTxView)>, index: u64, next_id: u64) -> bool {
    &&& ascending_ids(stored)
    &&& forall|i: int| 0 <= i < stored.len() ==> 1 <= (#[trigger] stored[i]).0 < index
    &&& 1 <= next_id <= index
}

impl TransferStateView {
    /// What holds of every state that the contract reaches.
    pub open spec fn inv(self) -> bool {
        &&& 1 <= self.next_id <= self.index
        &&& forall|id: nat| self.pending.contains_key(id) ==> 1 <= id < self.index
    }

    /// The state of a new contract.
    pub open spec fn initial() -> TransferStateView {
        TransferStateView { pending: Map::empty(), index: 1, next_id: 1 }
    }
}

impl View for TransferState {
    type V = TransferStateView;

    closed spec fn view(&self) -> TransferStateView {
        TransferStateView {
            pending: to_map(ledger_pairs(self.pending.deep_view())),
            index: self.index as nat,
            next_id: self.next_id as nat,
        }
    }
}

/// The response to an accepted request.
pub open spec fn requested_response(
    id: nat,
    sender: Seq<char>,
    recipient: Seq<char>,
    amount: CoinView,
) -> ResponseView {
    ResponseView::empty().with_event(
        EventView::named("aml_check_requested"@).with_attribute(
            "index"@,
            decimal(id),
        ).with_attribute("sender"@, sender).with_attribute("recipient"@, recipient).with_attribute(
            "amount"@,
            decimal(amount.amount as nat),
        ).with_attribute("denom"@, amount.denom),
    )
}

/// The event that records a settlement: the request, and the oracle's
/// findings on it.
pub open spec fn verdict_event(
    name: Seq<char>,
    id: nat,
    tx: PendingTxView,
    flagged: bool,
    reason: Seq<char>,
    risk_score: nat,
) -> EventView {
    EventView::named(name).with_attribute("request_id"@, decimal(id)).with_attribute(
        "sender"@,
        tx.sender,
    ).with_attribute("recipient"@, tx.recipient).with_attribute(
        "amount"@,
        decimal(tx.amount.amount as nat),
    ).with_attribute("denom"@, tx.amount.denom).with_attribute(
        "flagged"@,
        bool_text(flagged),
    ).with_attribute("reason"@, reason).with_attribute("risk_score"@, decimal(risk_score))
}

/// The response to an approval: one payment of the stored amount to the
/// stored recipient, and the audit event.
pub open spec fn approved_response(
    id: nat,
    tx: PendingTxView,
    flagged: bool,
    reason: Seq<char>,
    risk_score: nat,
) -> ResponseView {
    ResponseView::empty().with_message(
        BankMsgView::Send { to_address: tx.recipient, amount: seq![tx.amount] },
    ).with_event(verdict_event("aml_approved"@, id, tx, flagged, reason, risk_score))
}

/// The response to a denial: the audit event and no payment.
pub open spec fn denied_response(
    id: nat,
    tx: PendingTxView,
    flagged: bool,
    reason: Seq<char>,
    risk_score: nat,
) -> ResponseView {
    ResponseView::empty().with_event(
        verdict_event("aml_denied"@, id, tx, flagged, reason, risk_score),
    )
}

/// The response to a verdict on a request that is not pending.
pub open spec fn unknown_response() -> ResponseView {
    ResponseView::empty().with_attribute("error"@, "no such request_id"@)
}

/// Why a request is refused, if it is: the recipient's address is tested
/// before the amount.
pub open spec fn request_refusal(recipient_valid: bool, amount: CoinView) -> Option<
    ContractError,
> {
    if !recipient_valid {
        Some(ContractError::InvalidRecipient)
    } else if amount.amount == 0 {
        Some(ContractError::InvalidAmount)
    } else {
        None
    }
}

/// The state and the result after a request: an accepted request is stored
/// under the current value of the issuance counter, which then goes up by
/// one; a refused request changes nothing.
pub open spec fn submit_step(
    s: TransferStateView,
    sender: Seq<char>,
    recipient: Seq<char>,
    recipient_valid: bool,
    amount: CoinView,
) -> (TransferStateView, Result<ResponseView, ContractError>) {
    match request_refusal(recipient_valid, amount) {
        Some(e) => (s, Err(e)),
        None => (
            TransferStateView {
                pending: s.pending.insert(s.index, PendingTxView { sender, recipient, amount }),
                index: s.index + 1,
                next_id: s.next_id,
            },
            Ok(requested_response(s.index, sender, recipient, amount)),
        ),
    }
}

/// The state and the response after a verdict. A verdict on a request that
/// is not pending changes nothing. Otherwise the request leaves the ledger,
/// and the settlement pointer goes up by one if it stood at this request.
pub open spec fn resolve_step(
    s: TransferStateView,
    id: nat,
    approved: bool,
    flagged: bool,
    reason: Seq<char>,
    risk_score: nat,
) -> (TransferStateView, ResponseView) {
    if !s.pending.contains_key(id) {
        (s, unknown_response())
    } else {
        (
            TransferStateView {
                pending: s.pending.remove(id),
                index: s.index,
                next_id: if s.next_id == id {
                    id + 1
                } else {
                    s.next_id
                },
            },
            if approved {
                approved_response(id, s.pending[id], flagged, reason, risk_score)
            } else {
                denied_response(id, s.pending[id], flagged, reason, risk_score)
            },
        )
    }
}

impl TransferState {
    /// The pending requests stand in ascending order of identifier, each
    /// identifier was issued, and the settlement pointer has not passed the
    /// issuance counter.
    pub closed spec fn wf(&self) -> bool {
        parts_valid(self.pending.deep_view(), self.index, self.next_id)
    }

    /// A well-formed state satisfies the invariant of the model.
    pub proof fn lemma_wf_inv(&self)
        requires
            self.wf(),
        ensures
            self@.inv(),
    {
        let stored = self.pending.deep_view();
        let pairs = ledger_pairs(stored);
        assert forall|id: nat| self@.pending.contains_key(id) implies 1 <= id < self@.index by {
            lemma_to_map_keys(pairs, id);
            let i = choose|i: int| 0 <= i < pairs.len() && (#[trigger] pairs[i]).0 == id;
            assert(1 <= stored[i].0 < self.index);
        }
    }

    /// The state with which a contract starts: nothing pending, both
    /// counters at 1.
    pub fn new() -> (state: TransferState)
        ensures
            state.wf(),
            state@ == TransferStateView::initial(),
    {
        let state = TransferState { pending: Vec::new(), index: 1, next_id: 1 };
        assert(ledger_pairs(state.pending.deep_view()) =~= Seq::empty());
        state
    }

    /// Rebuilds a state from its parts as they were stored, or `None` where
    /// they are not the parts of any state.
    pub fn restore(pending: Vec<(u64, PendingTx)>, index: u64, next_id: u64) -> (r: Option<
        TransferState,
    >)
        ensures
            r is Some <==> parts_valid(pending.deep_view(), index, next_id),
            r matches Some(state) ==> state.wf() && state@ == (TransferStateView {
                pending: to_map(ledger_pairs(pending.deep_view())),
                index: index as nat,
                next_id: next_id as nat,
            }),
    {
        if next_id < 1 || next_id > index {
            return None;
        }
        let ghost stored = pending.deep_view();
        let mut i: usize = 0;
        while i < pending.len()
            invariant
                i <= pending@.len(),
                stored == pending.deep_view(),
                forall|j: int| 0 <= j < i ==> 1 <= (#[trigger] stored[j]).0 < index,
                forall|j: int, k: int|
                    0 <= j < k < i ==> (#[trigger] stored[j]).0 < (#[trigger] stored[k]).0,
            decreases pending@.len() - i,
        {
            let id: u64 = pending[i].0;
            assert(stored[i as int].0 == id);
            if id < 1 || id >= index {
                return None;
            }
            if i > 0 {
                let below: u64 = pending[i - 1].0;
                assert(stored[i - 1].0 == below);
                if below >= id {
                    return None;
                }
                assert forall|j: int, k: int| 0 <= j < k < i + 1 implies (#[trigger] stored[j]).0
                    < (#[trigger] stored[k]).0 by {
                    if k == i && j < i - 1 {
                        assert(stored[j].0 < stored[i - 1].0);
                    }
                }
            }
            i = i + 1;
        }
        Some(TransferState { pending, index, next_id })
    }

    /// The identifier that the next request gets.
    pub fn index(&self) -> (index: u64)
        ensures
            index == self@.index,
    {
        self.index
    }

    /// The settlement pointer.
    pub fn next_id(&self) -> (next_id: u64)
        ensures
            next_id == self@.next_id,
    {
        self.next_id
    }

    /// The pending requests in ascending order of identifier.
    pub fn pending(&self) -> (out: Vec<(u64, PendingTx)>)
        requires
            self.wf(),
        ensures
            ascending_ids(out.deep_view()),
            to_map(ledger_pairs(out.deep_view())) == self@.pending,
    {
        let mut out: Vec<(u64, PendingTx)> = Vec::new();
        let mut i: usize = 0;
        while i < self.pending.len()
            invariant
                i <= self.pending@.len(),
                out@.len() == i,
                forall|j: int|
                    0 <= j < i ==> out@[j].0 == self.pending@[j].0 && out@[j].1@
                        == self.pending@[j].1@,
            decreases self.pending@.len() - i,
        {
            let entry: &(u64, PendingTx) = &self.pending[i];
            out.push((entry.0, entry.1.duplicate()));
            i = i + 1;
        }
        assert(out.deep_view() =~= self.pending.deep_view());
        out
    }

    /// Where the request `id` stands among the pending ones. Found by
    /// halving the range in which it can stand.
    fn find(&self, id: u64) -> (r: Option<usize>)
        requires
            self.wf(),
        ensures
            r is Some <==> self@.pending.contains_key(id as nat),
            r matches Some(at) ==> at < self.pending@.len() && self.pending@[at as int].0 == id
                && self.pending@[at as int].1@ == self@.pending[id as nat],
    {
        let ghost stored = self.pending.deep_view();
        let ghost pairs = ledger_pairs(stored);
        proof {
            lemma_ids_distinct(stored);
        }
        let mut lo: usize = 0;
        let mut hi: usize = self.pending.len();
        while lo < hi
            invariant
                stored == self.pending.deep_view(),
                ascending_ids(stored),
                pairs == ledger_pairs(stored),
                distinct_keys(pairs),
                lo <= hi <= stored.len(),
                forall|j: int| 0 <= j < lo ==> (#[trigger] stored[j]).0 < id,
                forall|j: int| hi <= j < stored.len() ==> id < (#[trigger] stored[j]).0,
            decreases hi - lo,
        {
            let mid: usize = lo + (hi - lo) / 2;
            let here: u64 = self.pending[mid].0;
            assert(stored[mid as int].0 == here);
            if here == id {
                proof {
                    lemma_to_map_value(pairs, mid as int);
                }
                return Some(mid);
            } else if here < id {
                assert forall|j: int| 0 <= j < mid + 1 implies (#[trigger] stored[j]).0 < id by {
                    if j < mid {
                        assert(stored[j].0 < stored[mid as int].0);
                    }
                }
                lo = mid + 1;
            } else {
                assert forall|j: int| mid <= j < stored.len() implies id < (
                #[trigger] stored[j]).0 by {
                    if j > mid {
                        assert(stored[mid as int].0 < stored[j].0);
                    }
                }
                hi = mid;
            }
        }
        proof {
            lemma_to_map_keys(pairs, id as nat);
            if has_key(pairs, id as nat) {
                let j = choose|j: int| 0 <= j < pairs.len() && (#[trigger] pairs[j]).0 == id as nat;
                assert(stored[j].0 != id);
            }
        }
        None
    }
}

/// Stored pairs in ascending order hold no identifier twice.
proof fn lemma_ids_distinct(stored: Seq<(u64, PendingTxView)>)
    requires
        ascending_ids(stored),
    ensures
        distinct_keys(ledger_pairs(stored)),
{
    let pairs = ledger_pairs(stored);
    assert forall|i: int, j: int| 0 <= i < j < pairs.len() implies (#[trigger] pairs[i]).0 != (
    #[trigger] pairs[j]).0 by {
        assert(stored[i].0 < stored[j].0);
    }
}

proof fn lemma_drop_last_id(stored: Seq<(u64, PendingTxView)>)
    requires
        ascending_ids(stored),
        stored.len() > 0,
    ensures
        ascending_ids(stored.drop_last()),
        to_map(ledger_pairs(stored.drop_last())) == to_map(ledger_pairs(stored)).remove(
            stored.last().0 as nat,
        ),
{
    let rest = stored.drop_last();
    let last = stored.last();
    assert forall|i: int, j: int| 0 <= i < j < rest.len() implies (#[trigger] rest[i]).0 < (
    #[trigger] rest[j]).0 by {
        assert(stored[i].0 < stored[j].0);
    }
    assert(ledger_pairs(stored).drop_last() =~= ledger_pairs(rest));
    lemma_to_map_keys(ledger_pairs(rest), last.0 as nat);
    if has_key(ledger_pairs(rest), last.0 as nat) {
        let pairs = ledger_pairs(rest);
        let i = choose|i: int| 0 <= i < pairs.len() && (#[trigger] pairs[i]).0 == last.0 as nat;
        assert(stored[i].0 < stored[stored.len() - 1].0);
    }
    assert(to_map(ledger_pairs(rest)) =~= to_map(ledger_pairs(stored)).remove(last.0 as nat));
}

/// A ledger has one ascending listing: two ascending sequences of stored
/// pairs that stand for the same mapping are the same sequence.
pub proof fn lemma_pending_listing_unique(
    a: Seq<(u64, PendingTxView)>,
    b: Seq<(u64, PendingTxView)>,
)
    requires
        ascending_ids(a),
        ascending_ids(b),
        to_map(ledger_pairs(a)) == to_map(ledger_pairs(b)),
    ensures
        a == b,
    decreases a.len(),
{
    let pa = ledger_pairs(a);
    let pb = ledger_pairs(b);
    lemma_ids_distinct(a);
    lemma_ids_distinct(b);
    if a.len() == 0 {
        if b.len() > 0 {
            lemma_to_map_value(pb, 0);
            lemma_to_map_keys(pa, pb[0].0);
        }
        assert(a =~= b);
    } else {
        let x = a.last();
        lemma_to_map_value(pa, a.len() - 1);
        lemma_to_map_keys(pb, x.0 as nat);
        let j = choose|j: int| 0 <= j < pb.len() && (#[trigger] pb[j]).0 == x.0 as nat;
        lemma_to_map_value(pb, j);
        let y = b.last();
        lemma_to_map_value(pb, b.len() - 1);
        lemma_to_map_keys(pa, y.0 as nat);
        let i = choose|i: int| 0 <= i < pa.len() && (#[trigger] pa[i]).0 == y.0 as nat;
        lemma_to_map_value(pa, i);
        if j < b.len() - 1 && i < a.len() - 1 {
            assert(b[j].0 < b[b.len() - 1].0);
            assert(a[i].0 < a[a.len() - 1].0);
        }
        assert(x == y);
        lemma_drop_last_id(a);
        lemma_drop_last_id(b);
        lemma_pending_listing_unique(a.drop_last(), b.drop_last());
        assert(a =~= a.drop_last().push(x));
        assert(b =~= b.drop_last().push(y));
    }
}

/// Creates the contract: nothing is pending, and both counters stand at 1.
pub fn instantiate(info: MessageInfo, msg: InstantiateMsg) -> (r: Result<
    (TransferState, Response),
    ContractError,
>)
    ensures
        r matches Ok((state, response)) && state.wf() && state@ == TransferStateView::initial()
            && response@ == ResponseView::empty(),
{
    Ok((TransferState::new(), Response::new()))
}

/// Takes in a request to pay `amount` to `recipient`. `recipient_valid` is
/// the host's verdict on the recipient's address. The request gets the
/// current value of the issuance counter as its identifier and waits for the
/// oracle; nothing is paid yet. The counter must have room for one more
/// identifier where the request is accepted.
pub fn request_transfer(
    state: &mut TransferState,
    info: MessageInfo,
    recipient: String,
    recipient_valid: bool,
    amount: Coin,
) -> (r: Result<Response, ContractError>)
    requires
        old(state).wf(),
        request_refusal(recipient_valid, amount@) is None ==> old(state)@.index < u64::MAX,
    ensures
        final(state).wf(),
        (final(state)@, result_view(r)) == submit_step(
            old(state)@,
            info.sender@,
            recipient@,
            recipient_valid,
            amount@,
        ),
{
    if !recipient_valid {
        return Err(ContractError::InvalidRecipient);
    }
    if amount.amount == 0 {
        return Err(ContractError::InvalidAmount);
    }
    let id: u64 = state.index;
    let event = Event::new("aml_check_requested").add_attribute(
        "index",
        render_u64(id),
    ).add_attribute("sender", info.sender.clone()).add_attribute(
        "recipient",
        recipient.clone(),
    ).add_attribute("amount", render_u128(amount.amount)).add_attribute(
        "denom",
        amount.denom.clone(),
    );
    let tx = PendingTx { sender: info.sender, recipient, amount };
    let ghost before = state.pending.deep_view();
    proof {
        lemma_ids_distinct(before);
        lemma_to_map_push(ledger_pairs(before), id as nat, tx@);
    }
    state.pending.push((id, tx));
    state.index = id + 1;
    proof {
        let after = state.pending.deep_view();
        assert(after =~= before.push((id, tx@)));
        assert(ledger_pairs(after) =~= ledger_pairs(before).push((id as nat, tx@)));
        assert forall|i: int, j: int| 0 <= i < j < after.len() implies (#[trigger] after[i]).0 < (
        #[trigger] after[j]).0 by {
            if j == before.len() {
                assert(before[i].0 < id);
            } else {
                assert(before[i].0 < before[j].0);
            }
        }
        assert forall|i: int| 0 <= i < after.len() implies 1 <= (#[trigger] after[i]).0 < id
            + 1 by {
            if i < before.len() {
                assert(1 <= before[i].0 < id);
            }
        }
    }
    Ok(Response::new().add_event(event))
}

fn verdict(
    name: &str,
    request_id: u64,
    tx: PendingTx,
    flagged: bool,
    reason: String,
    risk_score: u64,
) -> (event: Event)
    ensures
        event@ == verdict_event(
            name@,
            request_id as nat,
            tx@,
            flagged,
            reason@,
            risk_score as nat,
        ),
{
    Event::new(name).add_attribute("request_id", render_u64(request_id)).add_attribute(
        "sender",
        tx.sender,
    ).add_attribute("recipient", tx.recipient).add_attribute(
        "amount",
        render_u128(tx.amount.amount),
    ).add_attribute("denom", tx.amount.denom).add_attribute(
        "flagged",
        render_bool(flagged),
    ).add_attribute("reason", reason).add_attribute("risk_score", render_u64(risk_score))
}

/// Settles the request `request_id` on the oracle's verdict. An approved
/// request is paid out, a denied one is dropped; either way it leaves the
/// ledger. A verdict on a request that is not pending is answered with a
/// note and changes nothing.
pub fn oracle_response(
    state: &mut TransferState,
    request_id: u64,
    approved: bool,
    flagged: bool,
    reason: String,
    risk_score: u64,
) -> (r: Result<Response, ContractError>)
    requires
        old(state).wf(),
    ensures
        final(state).wf(),
        r matches Ok(response) && (final(state)@, response@) == resolve_step(
            old(state)@,
            request_id as nat,
            approved,
            flagged,
            reason@,
            risk_score as nat,
        ),
{
    let at: usize = match state.find(request_id) {
        Some(at) => at,
        None => {
            return Ok(Response::new().add_attribute("error", "no such request_id".to_owned()));
        },
    };
    let ghost before = state.pending.deep_view();
    proof {
        lemma_ids_distinct(before);
        lemma_to_map_remove(ledger_pairs(before), at as int);
        assert(before[at as int].0 == request_id);
        assert(1 <= before[at as int].0 < state.index);
    }
    let entry: (u64, PendingTx) = state.pending.remove(at);
    let tx: PendingTx = entry.1;
    proof {
        let after = state.pending.deep_view();
        assert(after =~= before.remove(at as int));
        assert(ledger_pairs(after) =~= ledger_pairs(before).remove(at as int));
        assert forall|i: int, j: int| 0 <= i < j < after.len() implies (#[trigger] after[i]).0 < (
        #[trigger] after[j]).0 by {
            let oi = if i < at { i } else { i + 1 };
            let oj = if j < at { j } else { j + 1 };
            assert(before[oi].0 < before[oj].0);
        }
        assert forall|i: int| 0 <= i < after.len() implies 1 <= (#[trigger] after[i]).0
            < state.index by {
            let oi = if i < at { i } else { i + 1 };
            assert(1 <= before[oi].0 < state.index);
        }
    }
    if state.next_id == request_id {
        state.next_id = request_id + 1;
    }
    if approved {
        let msg = BankMsg::Send {
            to_address: tx.recipient.clone(),
            amount: vec![tx.amount.duplicate()],
        };
        assert(msg@ =~= BankMsgView::Send { to_address: tx@.recipient, amount: seq![tx@.amount] });
        let event = verdict("aml_approved", request_id, tx, flagged, reason, risk_score);
        Ok(Response::new().add_message(msg).add_event(event))
    } else {
        let event = verdict("aml_denied", request_id, tx, flagged, reason, risk_score);
        Ok(Response::new().add_event(event))
    }
}

/// Carries out one message. `recipient_valid` is the host's verdict on the
/// recipient's address of a `RequestTransfer`; a verdict does not read it.
pub fn execute(
    state: &mut TransferState,
    info: MessageInfo,
    msg: ExecuteMsg,
    recipient_valid: bool,
) -> (r: Result<Response, ContractError>)
    requires
        old(state).wf(),
        msg matches ExecuteMsg::RequestTransfer { amount, .. } ==> request_refusal(
            recipient_valid,
            amount@,
        ) is None ==> old(state)@.index < u64::MAX,
    ensures
        final(state).wf(),
        match msg {
            ExecuteMsg::RequestTransfer { recipient, amount } => (final(state)@, result_view(r))
                == submit_step(old(state)@, info.sender@, recipient@, recipient_valid, amount@),
            ExecuteMsg::OracleResponse { request_id, approved, flagged, reason, risk_score } => r
                matches Ok(response) && (final(state)@, response@) == resolve_step(
                old(state)@,
                request_id as nat,
                approved,
                flagged,
                reason@,
                risk_score as nat,
            ),
        },
{
    match msg {
        ExecuteMsg::RequestTransfer { recipient, amount } => request_transfer(
            state,
            info,
            recipient,
            recipient_valid,
            amount,
        ),
        ExecuteMsg::OracleResponse {
            request_id,
            approved,
            flagged,
            reason,
            risk_score,
        } => oracle_response(state, request_id, approved, flagged, reason, risk_score),
    }
}

/// The pending request under `id`, if there is one.
pub fn query_pending_tx(state: &TransferState, id: u64) -> (r: Option<PendingTx>)
    requires
        state.wf(),
    ensures
        r is Some <==> state@.pending.contains_key(id as nat),
        r matches Some(tx) ==> tx@ == state@.pending[id as nat],
{
    match state.find(id) {
        Some(at) => Some(state.pending[at].1.duplicate()),
        None => None,
    }
}

/// The settlement pointer.
pub fn query_next_id(state: &TransferState) -> (next_id: u64)
    ensures
        next_id == state@.next_id,
{
    state.next_id
}

/// Answers a question about the state.
pub fn query(state: &TransferState, msg: QueryMsg) -> (r: QueryResponse)
    requires
        state.wf(),
    ensures
        match msg {
            QueryMsg::GetPendingTx { id } => r matches QueryResponse::PendingTx(tx) && (tx is Some
                <==> state@.pending.contains_key(id as nat)) && (tx matches Some(found)
                ==> found@ == state@.pending[id as nat]),
            QueryMsg::GetNextId {  } => r matches QueryResponse::NextId(next_id) && next_id
                == state@.next_id,
        },
{
    match msg {
        QueryMsg::GetPendingTx { id } => QueryResponse::PendingTx(query_pending_tx(state, id)),
        QueryMsg::GetNextId {  } => QueryResponse::NextId(query_next_id(state)),
    }
}

} // verus!
