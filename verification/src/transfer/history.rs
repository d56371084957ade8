//! What holds of the ledger over whole sequences of calls.

use crate::response::{BankMsgView, CoinView};
use crate::transfer::contract::{
    request_refusal, resolve_step, submit_step, unknown_response, TransferStateView,
};
use vstd::prelude::*;

verus! {

/// One call to the contract, with the host's verdict on the recipient's
/// address where the call is a request.
pub enum Command {
    Request { sender: Seq<char>, recipient: Seq<char>, recipient_valid: bool, amount: CoinView },
    Verdict { id: nat, approved: bool, flagged: bool, reason: Seq<char>, risk_score: nat },
}

/// The state after one call.
pub open spec fn step(s: TransferStateView, c: Command) -> TransferStateView {
    match c {
        Command::Request { sender, recipient, recipient_valid, amount } => submit_step(
            s,
            sender,
            recipient,
            recipient_valid,
            amount,
        ).0,
        Command::Verdict { id, approved, flagged, reason, risk_score } => resolve_step(
            s,
            id,
            approved,
            flagged,
            reason,
            risk_score,
        ).0,
    }
}

/// The identifier that a call issues, if it issues one: an accepted request
/// gets the value of the issuance counter.
pub open spec fn issues(s: TransferStateView, c: Command) -> Option<nat> {
    match c {
        Command::Request { recipient_valid, amount, .. } => if request_refusal(
            recipient_valid,
            amount,
        ) is None {
            Some(s.index)
        } else {
            None
        },
        Command::Verdict { .. } => None,
    }
}

/// The request that a call settles, if it settles one.
pub open spec fn settles(s: TransferStateView, c: Command) -> Option<nat> {
    match c {
        Command::Request { .. } => None,
        Command::Verdict { id, .. } => if s.pending.contains_key(id) {
            Some(id)
        } else {
            None
        },
    }
}

/// The state after a sequence of calls.
pub open spec fn run(s: TransferStateView, calls: Seq<Command>) -> TransferStateView
    decreases calls.len(),
{
    if calls.len() == 0 {
        s
    } else {
        step(run(s, calls.drop_last()), calls.last())
    }
}

/// The identifiers that a sequence of calls issues, in the order of issue.
pub open spec fn issued(s: TransferStateView, calls: Seq<Command>) -> Seq<nat>
    decreases calls.len(),
{
    if calls.len() == 0 {
        Seq::empty()
    } else {
        let before = issued(s, calls.drop_last());
        match issues(run(s, calls.drop_last()), calls.last()) {
            Some(id) => before.push(id),
            None => before,
        }
    }
}

/// The requests that a sequence of calls settles.
pub open spec fn settled(s: TransferStateView, calls: Seq<Command>) -> Set<nat>
    decreases calls.len(),
{
    if calls.len() == 0 {
        Set::empty()
    } else {
        let before = settled(s, calls.drop_last());
        match settles(run(s, calls.drop_last()), calls.last()) {
            Some(id) => before.insert(id),
            None => before,
        }
    }
}

/// A refused request changes nothing and issues no identifier.
pub proof fn lemma_refused_request_changes_nothing(
    s: TransferStateView,
    sender: Seq<char>,
    recipient: Seq<char>,
    recipient_valid: bool,
    amount: CoinView,
)
    ensures
        submit_step(s, sender, recipient, recipient_valid, amount).1 is Err ==> submit_step(
            s,
            sender,
            recipient,
            recipient_valid,
            amount,
        ).0 == s,
        submit_step(s, sender, recipient, recipient_valid, amount).1 is Err <==> issues(
            s,
            Command::Request { sender, recipient, recipient_valid, amount },
        ) is None,
{
}

/// Every call keeps the invariant.
pub proof fn lemma_step_keeps_inv(s: TransferStateView, c: Command)
    requires
        s.inv(),
    ensures
        step(s, c).inv(),
{
}

/// Every sequence of calls keeps the invariant; the new contract's state
/// satisfies it.
pub proof fn lemma_run_keeps_inv(s: TransferStateView, calls: Seq<Command>)
    requires
        s.inv(),
    ensures
        run(s, calls).inv(),
        TransferStateView::initial().inv(),
    decreases calls.len(),
{
    if calls.len() > 0 {
        lemma_run_keeps_inv(s, calls.drop_last());
        lemma_step_keeps_inv(run(s, calls.drop_last()), calls.last());
    }
}

/// The issuance counter counts the identifiers issued, and each identifier
/// lies between the counter's value before the calls and its value after.
pub proof fn lemma_issued_bounds(s: TransferStateView, calls: Seq<Command>)
    ensures
        run(s, calls).index == s.index + issued(s, calls).len(),
        forall|i: int|
            0 <= i < issued(s, calls).len() ==> #[trigger] issued(s, calls)[i] == s.index + i,
    decreases calls.len(),
{
    if calls.len() > 0 {
        lemma_issued_bounds(s, calls.drop_last());
    }
}

/// Whatever the calls are, requests and verdicts in any order, the
/// identifiers issued are strictly increasing, and so no identifier is
/// issued twice.
pub proof fn lemma_issued_ids_increase(s: TransferStateView, calls: Seq<Command>)
    ensures
        forall|i: int, j: int|
            0 <= i < j < issued(s, calls).len() ==> issued(s, calls)[i] < issued(s, calls)[j],
        issued(s, calls).no_duplicates(),
{
    lemma_issued_bounds(s, calls);
}

/// A verdict on a request that is not pending changes nothing and is
/// answered with the note alone.
pub proof fn lemma_unknown_verdict_is_noop(
    s: TransferStateView,
    id: nat,
    approved: bool,
    flagged: bool,
    reason: Seq<char>,
    risk_score: nat,
)
    requires
        !s.pending.contains_key(id),
    ensures
        resolve_step(s, id, approved, flagged, reason, risk_score) == (s, unknown_response()),
{
}

/// After a verdict on `id`, whatever it was, any further verdict on `id`
/// changes nothing and is answered with the note alone: the first repeat
/// and every later one behave alike.
pub proof fn lemma_repeated_verdict_is_noop(
    s: TransferStateView,
    id: nat,
    first: (bool, bool, Seq<char>, nat),
    second: (bool, bool, Seq<char>, nat),
    third: (bool, bool, Seq<char>, nat),
)
    ensures
        ({
            let s1 = resolve_step(s, id, first.0, first.1, first.2, first.3).0;
            let again = resolve_step(s1, id, second.0, second.1, second.2, second.3);
            let once_more = resolve_step(again.0, id, third.0, third.1, third.2, third.3);
            again == (s1, unknown_response()) && once_more == again
        }),
{
}

/// A payment is instructed on approval only, and then exactly one: a denial,
/// a verdict on a request that is not pending, and a request instruct none.
pub proof fn lemma_one_payment_per_approval(
    s: TransferStateView,
    id: nat,
    approved: bool,
    flagged: bool,
    reason: Seq<char>,
    risk_score: nat,
    request: (Seq<char>, Seq<char>, bool, CoinView),
)
    ensures
        resolve_step(s, id, approved, flagged, reason, risk_score).1.messages.len() == if approved
            && s.pending.contains_key(id) {
            1nat
        } else {
            0nat
        },
        approved && s.pending.contains_key(id) ==> resolve_step(
            s,
            id,
            approved,
            flagged,
            reason,
            risk_score,
        ).1.messages[0] == (BankMsgView::Send {
            to_address: s.pending[id].recipient,
            amount: seq![s.pending[id].amount],
        }),
        submit_step(s, request.0, request.1, request.2, request.3).1 matches Ok(response)
            ==> response.messages.len() == 0,
{
}

/// The settlement pointer moves only when a verdict settles the very
/// request it stands at, and then by one.
pub proof fn lemma_pointer_moves_on_match_only(
    s: TransferStateView,
    id: nat,
    approved: bool,
    flagged: bool,
    reason: Seq<char>,
    risk_score: nat,
)
    ensures
        ({
            let after = resolve_step(s, id, approved, flagged, reason, risk_score).0;
            if s.pending.contains_key(id) && id == s.next_id {
                after.next_id == s.next_id + 1
            } else {
                after.next_id == s.next_id
            }
        }),
{
}

/// What a sequence of calls issues, a longer sequence issues too.
proof fn lemma_issued_grows(s: TransferStateView, calls: Seq<Command>, id: nat)
    requires
        calls.len() > 0,
        issued(s, calls.drop_last()).contains(id),
    ensures
        issued(s, calls).contains(id),
{
    let ids = issued(s, calls);
    let ids_before = issued(s, calls.drop_last());
    let i = choose|i: int| 0 <= i < ids_before.len() && ids_before[i] == id;
    assert(ids[i] == id);
}

/// A settled request has an identifier below the issuance counter.
pub proof fn lemma_settled_below_index(s: TransferStateView, calls: Seq<Command>, id: nat)
    requires
        s.inv(),
        settled(s, calls).contains(id),
    ensures
        id < run(s, calls).index,
    decreases calls.len(),
{
    if calls.len() > 0 {
        let before = calls.drop_last();
        lemma_run_keeps_inv(s, before);
        if settled(s, before).contains(id) {
            lemma_settled_below_index(s, before, id);
        }
    }
}

/// A request is pending exactly if it was pending before the calls or was
/// issued by one of them, and none of them settled it.
pub proof fn lemma_pending_is_issued_and_unsettled(
    s: TransferStateView,
    calls: Seq<Command>,
    id: nat,
)
    requires
        s.inv(),
    ensures
        run(s, calls).pending.contains_key(id) <==> (s.pending.contains_key(id) || issued(
            s,
            calls,
        ).contains(id)) && !settled(s, calls).contains(id),
    decreases calls.len(),
{
    if calls.len() > 0 {
        let before = calls.drop_last();
        let mid = run(s, before);
        lemma_pending_is_issued_and_unsettled(s, before, id);
        lemma_run_keeps_inv(s, before);
        let ids = issued(s, calls);
        let ids_before = issued(s, before);
        if ids_before.contains(id) {
            lemma_issued_grows(s, calls, id);
        }
        match issues(mid, calls.last()) {
            Some(new_id) => {
                assert(ids[ids.len() - 1] == new_id);
                if ids.contains(id) && id != new_id {
                    let i = choose|i: int| 0 <= i < ids.len() && ids[i] == id;
                    assert(ids_before[i] == id);
                }
                if id == new_id && settled(s, before).contains(id) {
                    lemma_settled_below_index(s, before, id);
                }
            },
            None => {},
        }
    }
}

/// Only requests that were pending before the calls or were issued by them
/// are settled by them.
pub proof fn lemma_settled_was_issued(s: TransferStateView, calls: Seq<Command>, id: nat)
    requires
        s.inv(),
        settled(s, calls).contains(id),
    ensures
        s.pending.contains_key(id) || issued(s, calls).contains(id),
    decreases calls.len(),
{
    if calls.len() > 0 {
        let before = calls.drop_last();
        if settled(s, before).contains(id) {
            lemma_settled_was_issued(s, before, id);
        } else {
            lemma_pending_is_issued_and_unsettled(s, before, id);
        }
        if issued(s, before).contains(id) {
            lemma_issued_grows(s, calls, id);
        }
    }
}

} // verus!
