//! What an operation hands back to the host ledger: audit events, plain
//! attributes and payment instructions, with the caller's identity and funds
//! as the host reports them.

use crate::error::ContractError;
use crate::text::{decimal, render_u128};
use vstd::prelude::*;

verus! {

/// An amount of one denomination.
#[derive(Clone, Debug, PartialEq, Eq)]
pub struct Coin {
    pub denom: String,
    pub amount: u128,
}

/// What a [`Coin`] holds.
#[verifier::ext_equal]
pub struct CoinView {
    pub denom: Seq<char>,
    pub amount: u128,
}

impl View for Coin {
    type V = CoinView;

    open spec fn view(&self) -> CoinView {
        CoinView { denom: self.denom@, amount: self.amount }
    }
}

impl DeepView for Coin {
    type V = CoinView;

    open spec fn deep_view(&self) -> CoinView {
        self@
    }
}

impl Coin {
    pub fn new(amount: u128, denom: &str) -> (c: Coin)
        ensures
            c@ == (CoinView { denom: denom@, amount }),
    {
        Coin { denom: denom.to_owned(), amount }
    }

    /// A copy of this coin.
    pub fn duplicate(&self) -> (c: Coin)
        ensures
            c@ == self@,
    {
        Coin { denom: self.denom.clone(), amount: self.amount }
    }
}

/// Copies a list of coins.
pub fn duplicate_coins(coins: &Vec<Coin>) -> (out: Vec<Coin>)
    ensures
        out.deep_view() == coins.deep_view(),
{
    let mut out: Vec<Coin> = Vec::new();
    let mut i: usize = 0;
    while i < coins.len()
        invariant
            i <= coins@.len(),
            out@.len() == i,
            forall|j: int| 0 <= j < i ==> out@[j]@ == coins@[j]@,
        decreases coins@.len() - i,
    {
        out.push(coins[i].duplicate());
        i = i + 1;
    }
    assert(out.deep_view() =~= coins.deep_view());
    out
}

/// One coin as a list of funds shows it: the amount, then the denomination
/// in double quotes.
pub open spec fn coin_text(c: CoinView) -> Seq<char> {
    "Coin { "@ + decimal(c.amount as nat) + " \""@ + c.denom + "\" }"@
}

/// The coins of a list, each as [`coin_text`] gives it, with a comma and a
/// space between two.
pub open spec fn coins_list_text(coins: Seq<CoinView>) -> Seq<char>
    decreases coins.len(),
{
    if coins.len() == 0 {
        Seq::empty()
    } else if coins.len() == 1 {
        coin_text(coins[0])
    } else {
        coins_list_text(coins.drop_last()) + ", "@ + coin_text(coins.last())
    }
}

/// A list of funds as audit events show it: [`coins_list_text`] in square
/// brackets.
pub open spec fn coins_text(coins: Seq<CoinView>) -> Seq<char> {
    "["@ + coins_list_text(coins) + "]"@
}

/// Renders a list of funds for an audit event.
pub fn render_coins(coins: &Vec<Coin>) -> (s: String)
    ensures
        s@ == coins_text(coins.deep_view()),
{
    let ghost all = coins.deep_view();
    let mut s: String = "[".to_owned();
    let mut i: usize = 0;
    assert(all.take(0) =~= Seq::empty());
    while i < coins.len()
        invariant
            i <= coins@.len(),
            all == coins.deep_view(),
            s@ == "["@ + coins_list_text(all.take(i as int)),
        decreases coins@.len() - i,
    {
        let ghost before = s@;
        if i > 0 {
            s.append(", ");
        }
        let coin: &Coin = &coins[i];
        s.append("Coin { ");
        let amount: String = render_u128(coin.amount);
        s.append(amount.as_str());
        s.append(" \"");
        s.append(coin.denom.as_str());
        s.append("\" }");
        proof {
            let next = all.take(i + 1);
            assert(next.drop_last() =~= all.take(i as int));
            assert(next.last() == coin@);
            if i == 0 {
                assert(s@ =~= "["@ + coin_text(coin@));
            } else {
                assert(s@ =~= "["@ + (coins_list_text(all.take(i as int)) + ", "@ + coin_text(
                    coin@,
                )));
            }
        }
        i = i + 1;
    }
    assert(all.take(i as int) =~= all);
    s.append("]");
    s
}

/// Who called, and with which funds attached.
#[derive(Clone, Debug, PartialEq, Eq)]
pub struct MessageInfo {
    pub sender: String,
    pub funds: Vec<Coin>,
}

/// A key with its value, as events and responses carry them.
#[derive(Clone, Debug, PartialEq, Eq)]
pub struct Attribute {
    pub key: String,
    pub value: String,
}

/// What an [`Attribute`] holds.
#[verifier::ext_equal]
pub struct AttributeView {
    pub key: Seq<char>,
    pub value: Seq<char>,
}

impl View for Attribute {
    type V = AttributeView;

    open spec fn view(&self) -> AttributeView {
        AttributeView { key: self.key@, value: self.value@ }
    }
}

impl DeepView for Attribute {
    type V = AttributeView;

    open spec fn deep_view(&self) -> AttributeView {
        self@
    }
}

/// The attribute `key = value`.
pub open spec fn attr(key: Seq<char>, value: Seq<char>) -> AttributeView {
    AttributeView { key, value }
}

/// A named audit record.
#[derive(Clone, Debug, PartialEq, Eq)]
pub struct Event {
    pub ty: String,
    pub attributes: Vec<Attribute>,
}

/// What an [`Event`] holds.
#[verifier::ext_equal]
pub struct EventView {
    pub ty: Seq<char>,
    pub attributes: Seq<AttributeView>,
}

impl View for Event {
    type V = EventView;

    open spec fn view(&self) -> EventView {
        EventView { ty: self.ty@, attributes: self.attributes.deep_view() }
    }
}

impl DeepView for Event {
    type V = EventView;

    open spec fn deep_view(&self) -> EventView {
        self@
    }
}

/// The event named `ty` with the given attributes.
pub open spec fn event(ty: Seq<char>, attributes: Seq<AttributeView>) -> EventView {
    EventView { ty, attributes }
}

impl EventView {
    /// The event named `ty` without attributes.
    pub open spec fn named(ty: Seq<char>) -> EventView {
        event(ty, Seq::empty())
    }

    pub open spec fn with_attribute(self, key: Seq<char>, value: Seq<char>) -> EventView {
        event(self.ty, self.attributes.push(attr(key, value)))
    }
}

impl Event {
    /// An event of the given name without attributes.
    pub fn new(ty: &str) -> (e: Event)
        ensures
            e@ == EventView::named(ty@),
    {
        let e = Event { ty: ty.to_owned(), attributes: Vec::new() };
        assert(e.attributes.deep_view() =~= Seq::empty());
        e
    }

    /// The event with `key = value` added after its other attributes.
    pub fn add_attribute(self, key: &str, value: String) -> (e: Event)
        ensures
            e@ == self@.with_attribute(key@, value@),
    {
        let mut e = self;
        let ghost before = e.attributes.deep_view();
        e.attributes.push(Attribute { key: key.to_owned(), value });
        assert(e.attributes.deep_view() =~= before.push(attr(key@, value@)));
        e
    }
}

/// An instruction to the host ledger.
#[derive(Clone, Debug, PartialEq, Eq)]
pub enum BankMsg {
    /// Pay `amount` to `to_address`.
    Send { to_address: String, amount: Vec<Coin> },
}

/// What a [`BankMsg`] holds.
#[verifier::ext_equal]
pub enum BankMsgView {
    Send { to_address: Seq<char>, amount: Seq<CoinView> },
}

impl View for BankMsg {
    type V = BankMsgView;

    open spec fn view(&self) -> BankMsgView {
        match self {
            BankMsg::Send { to_address, amount } => BankMsgView::Send {
                to_address: to_address@,
                amount: amount.deep_view(),
            },
        }
    }
}

impl DeepView for BankMsg {
    type V = BankMsgView;

    open spec fn deep_view(&self) -> BankMsgView {
        self@
    }
}

/// The outcome of a state transition: payment instructions for the host,
/// attributes of the call itself, and audit events, each in the order added.
#[derive(Clone, Debug, PartialEq, Eq)]
pub struct Response {
    pub messages: Vec<BankMsg>,
    pub attributes: Vec<Attribute>,
    pub events: Vec<Event>,
}

/// What a [`Response`] holds.
#[verifier::ext_equal]
pub struct ResponseView {
    pub messages: Seq<BankMsgView>,
    pub attributes: Seq<AttributeView>,
    pub events: Seq<EventView>,
}

impl View for Response {
    type V = ResponseView;

    open spec fn view(&self) -> ResponseView {
        ResponseView {
            messages: self.messages.deep_view(),
            attributes: self.attributes.deep_view(),
            events: self.events.deep_view(),
        }
    }
}

impl DeepView for Response {
    type V = ResponseView;

    open spec fn deep_view(&self) -> ResponseView {
        self@
    }
}

impl ResponseView {
    /// The response that carries nothing.
    pub open spec fn empty() -> ResponseView {
        ResponseView { messages: Seq::empty(), attributes: Seq::empty(), events: Seq::empty() }
    }

    pub open spec fn with_attribute(self, key: Seq<char>, value: Seq<char>) -> ResponseView {
        ResponseView { attributes: self.attributes.push(attr(key, value)), ..self }
    }

    pub open spec fn with_event(self, e: EventView) -> ResponseView {
        ResponseView { events: self.events.push(e), ..self }
    }

    pub open spec fn with_message(self, m: BankMsgView) -> ResponseView {
        ResponseView { messages: self.messages.push(m), ..self }
    }
}

impl Response {
    /// A response that carries nothing.
    pub fn new() -> (r: Response)
        ensures
            r@ == ResponseView::empty(),
    {
        let r = Response { messages: Vec::new(), attributes: Vec::new(), events: Vec::new() };
        assert(r.messages.deep_view() =~= Seq::empty());
        assert(r.attributes.deep_view() =~= Seq::empty());
        assert(r.events.deep_view() =~= Seq::empty());
        r
    }

    /// The response with `key = value` added after its other attributes.
    pub fn add_attribute(self, key: &str, value: String) -> (r: Response)
        ensures
            r@ == self@.with_attribute(key@, value@),
    {
        let mut r = self;
        let ghost before = r.attributes.deep_view();
        r.attributes.push(Attribute { key: key.to_owned(), value });
        assert(r.attributes.deep_view() =~= before.push(attr(key@, value@)));
        r
    }

    /// The response with `e` added after its other events.
    pub fn add_event(self, e: Event) -> (r: Response)
        ensures
            r@ == self@.with_event(e@),
    {
        let mut r = self;
        let ghost before = r.events.deep_view();
        r.events.push(e);
        assert(r.events.deep_view() =~= before.push(e@));
        r
    }

    /// The response with `m` added after its other payment instructions.
    pub fn add_message(self, m: BankMsg) -> (r: Response)
        ensures
            r@ == self@.with_message(m@),
    {
        let mut r = self;
        let ghost before = r.messages.deep_view();
        r.messages.push(m);
        assert(r.messages.deep_view() =~= before.push(m@));
        r
    }
}

/// A result with the response seen through its view.
pub open spec fn result_view(r: Result<Response, ContractError>) -> Result<
    ResponseView,
    ContractError,
> {
    match r {
        Ok(response) => Ok(response@),
        Err(e) => Err(e),
    }
}

} // verus!
