//! The oracle contract: who administers it, which key the oracle signs
//! with, which wallets are flagged, and how payments are screened against
//! them.

use crate::crypto::{
    base64_text, encode_base64, key_shape_ok, secp256k1_sha256_accepts, secp256k1_sha256_verify,
    signature_shape_ok,
};
use crate::error::ContractError;
use crate::oracle::msg::{
    AdminResponse, AmlStatus, AmlStatusView, EntryView, ExecuteMsg, InstantiateMsg,
    OracleDataEntry, OracleDataResponse, OraclePubkeyResponse, QueryMsg, QueryResponse,
};
use crate::oracle::registry::{dataset_map, listing_of, ComplianceRegistry};
use crate::order::same_text;
use crate::response::{
    coins_text, duplicate_coins, render_coins, result_view, BankMsg, BankMsgView, Coin, CoinView,
    Event, EventView, MessageInfo, Response, ResponseView,
};
use crate::state::{canonical_name, normalize, KeyType};
use crate::text::{decimal, render_u128};
use vstd::prelude::*;

verus! {

/// Amounts above this many units are held back as suspicious.
pub const LARGE_AMOUNT: u128 = 10000;

/// Everything the oracle contract keeps between calls.
#[derive(Clone, Debug, PartialEq, Eq)]
pub struct OracleState {
    admin: String,
    pubkey: Vec<u8>,
    key_type: KeyType,
    registry: ComplianceRegistry,
}

/// The state as the contracts speak of it.
#[verifier::ext_equal]
pub struct OracleStateView {
    /// Who may replace the oracle's key.
    pub admin: Seq<char>,
    /// The oracle's public key.
    pub pubkey: Seq<u8>,
    /// The algorithm the key belongs to.
    pub key_type: KeyType,
    /// The flagged wallets, each with its entry.
    pub registry: Map<Seq<char>, EntryView>,
}

impl View for OracleState {
    type V = OracleStateView;

    closed spec fn view(&self) -> OracleStateView {
        OracleStateView {
            admin: self.admin@,
            pubkey: self.pubkey@,
            key_type: self.key_type,
            registry: self.registry@,
        }
    }
}

/// The oracle's key accepts `signature` for `payload`: the key is a
/// secp256k1 key and the signature is valid over the payload's SHA-256
/// digest. Signatures under an ed25519 key are never accepted.
pub open spec fn signature_accepted(
    s: OracleStateView,
    payload: Seq<u8>,
    signature: Seq<u8>,
) -> bool {
    s.key_type == KeyType::Secp256k1 && secp256k1_sha256_accepts(s.pubkey, payload, signature)
}

/// The response to a successful creation.
pub open spec fn instantiate_response(
    admin: Seq<char>,
    pubkey: Seq<u8>,
    key_type: KeyType,
) -> ResponseView {
    ResponseView::empty().with_attribute("action"@, "instantiate"@).with_attribute(
        "admin"@,
        admin,
    ).with_attribute("oracle_pubkey"@, base64_text(pubkey)).with_attribute(
        "oracle_key_type"@,
        canonical_name(key_type),
    )
}

/// What creating the contract gives: the first state and the response, or
/// `InvalidKeyType` where the key type is no known alias.
pub open spec fn instantiate_outcome(
    sender: Seq<char>,
    pubkey: Seq<u8>,
    key_type: Seq<char>,
) -> Result<(OracleStateView, ResponseView), ContractError> {
    match normalize(key_type) {
        Some(k) => Ok(
            (
                OracleStateView { admin: sender, pubkey, key_type: k, registry: Map::empty() },
                instantiate_response(sender, pubkey, k),
            ),
        ),
        None => Err(ContractError::InvalidKeyType),
    }
}

/// The response that reports a flagged wallet.
pub open spec fn flagged_response(wallet: Seq<char>, reason: Seq<char>) -> ResponseView {
    ResponseView::empty().with_attribute("flagged_wallet"@, wallet).with_attribute(
        "reason"@,
        reason,
    ).with_attribute("status"@, "AML check failed"@)
}

/// The response that reports a suspiciously large amount.
pub open spec fn large_amount_response(
    sender: Seq<char>,
    recipient: Seq<char>,
    amount: u128,
) -> ResponseView {
    ResponseView::empty().with_attribute("sender"@, sender).with_attribute(
        "recipient"@,
        recipient,
    ).with_attribute("amount"@, decimal(amount as nat)).with_attribute(
        "status"@,
        "AML check failed"@,
    ).with_attribute("reason"@, "suspiciously large amount"@)
}

/// The response that pays `funds` to `recipient`.
pub open spec fn sent_response(
    sender: Seq<char>,
    recipient: Seq<char>,
    funds: Seq<CoinView>,
) -> ResponseView {
    ResponseView::empty().with_message(
        BankMsgView::Send { to_address: recipient, amount: funds },
    ).with_event(
        EventView::named("send"@).with_attribute("action"@, "send"@).with_attribute(
            "from"@,
            sender,
        ).with_attribute("to"@, recipient).with_attribute("amount"@, coins_text(funds)),
    ).with_attribute("status"@, "success"@)
}

/// The response to a transfer that passed screening.
pub open spec fn transfer_response(recipient: Seq<char>, amount: u128) -> ResponseView {
    ResponseView::empty().with_attribute("action"@, "transfer"@).with_attribute(
        "status"@,
        "success"@,
    ).with_attribute("to"@, recipient).with_attribute("amount"@, decimal(amount as nat))
}

/// The response to an accepted dataset.
pub open spec fn dataset_response(sender: Seq<char>) -> ResponseView {
    ResponseView::empty().with_event(
        EventView::named("oracle_data_update"@).with_attribute(
            "action"@,
            "oracle_data_update"@,
        ).with_attribute("sender"@, sender).with_attribute("entries"@, "bulk_updated"@),
    )
}

/// The response to a key rotation.
pub open spec fn rotate_response(
    admin: Seq<char>,
    new_pubkey: Seq<u8>,
    key_type: KeyType,
) -> ResponseView {
    ResponseView::empty().with_event(
        EventView::named("oracle_admin_update"@).with_attribute(
            "action"@,
            "oracle_update"@,
        ).with_attribute("admin"@, admin).with_attribute(
            "new_pubkey"@,
            base64_text(new_pubkey),
        ).with_attribute("new_key_type"@, canonical_name(key_type)),
    )
}

/// A coin that alone makes a payment suspicious.
pub open spec fn is_large(c: CoinView) -> bool {
    c.denom == "ustake"@ && c.amount > LARGE_AMOUNT
}

/// The first suspicious coin among the funds.
pub open spec fn first_large(funds: Seq<CoinView>) -> Option<CoinView>
    decreases funds.len(),
{
    if funds.len() == 0 {
        None
    } else if is_large(funds[0]) {
        Some(funds[0])
    } else {
        first_large(funds.drop_first())
    }
}

/// What screening a payment of the attached funds gives. A flagged sender
/// is reported first, then a flagged recipient; only then are the recipient's
/// address and the funds looked at.
pub open spec fn send_outcome(
    s: OracleStateView,
    sender: Seq<char>,
    funds: Seq<CoinView>,
    recipient: Seq<char>,
    recipient_valid: bool,
) -> Result<ResponseView, ContractError> {
    if s.registry.contains_key(sender) {
        Ok(flagged_response(sender, s.registry[sender].reason))
    } else if s.registry.contains_key(recipient) {
        Ok(flagged_response(recipient, s.registry[recipient].reason))
    } else if !recipient_valid {
        Err(ContractError::InvalidRecipient)
    } else if funds.len() == 0 {
        Err(ContractError::InvalidAmount)
    } else {
        match first_large(funds) {
            Some(coin) => Ok(large_amount_response(sender, recipient, coin.amount)),
            None => Ok(sent_response(sender, recipient, funds)),
        }
    }
}

/// What screening a transfer of `amount` gives.
pub open spec fn transfer_outcome(
    s: OracleStateView,
    sender: Seq<char>,
    recipient: Seq<char>,
    amount: u128,
) -> ResponseView {
    if s.registry.contains_key(sender) {
        flagged_response(sender, s.registry[sender].reason)
    } else if s.registry.contains_key(recipient) {
        flagged_response(recipient, s.registry[recipient].reason)
    } else if amount > LARGE_AMOUNT {
        large_amount_response(sender, recipient, amount)
    } else {
        transfer_response(recipient, amount)
    }
}

/// The state and the result after the oracle has pushed a dataset whose
/// signature check came out as `verified`.
pub open spec fn dataset_step(
    s: OracleStateView,
    sender: Seq<char>,
    data: Seq<EntryView>,
    verified: bool,
) -> (OracleStateView, Result<ResponseView, ContractError>) {
    if verified {
        (OracleStateView { registry: dataset_map(data), ..s }, Ok(dataset_response(sender)))
    } else {
        (s, Err(ContractError::SignatureInvalid))
    }
}

/// The algorithm that holds after a rotation asked for by `sender`, or why
/// the rotation is refused. The caller's identity is tested before the key
/// type is.
pub open spec fn rotate_key_type(
    s: OracleStateView,
    sender: Seq<char>,
    new_key_type: Option<Seq<char>>,
) -> Result<KeyType, ContractError> {
    if sender != s.admin {
        Err(ContractError::Unauthorized)
    } else {
        match new_key_type {
            None => Ok(s.key_type),
            Some(name) => match normalize(name) {
                Some(k) => Ok(k),
                None => Err(ContractError::InvalidKeyType),
            },
        }
    }
}

/// The state and the result after `sender` has asked for a key rotation.
pub open spec fn rotate_step(
    s: OracleStateView,
    sender: Seq<char>,
    new_pubkey: Seq<u8>,
    new_key_type: Option<Seq<char>>,
) -> (OracleStateView, Result<ResponseView, ContractError>) {
    match rotate_key_type(s, sender, new_key_type) {
        Ok(k) => (
            OracleStateView { pubkey: new_pubkey, key_type: k, ..s },
            Ok(rotate_response(s.admin, new_pubkey, k)),
        ),
        Err(e) => (s, Err(e)),
    }
}

/// The screening verdict on `wallet`.
pub open spec fn aml_status(s: OracleStateView, wallet: Seq<char>) -> AmlStatusView {
    if s.registry.contains_key(wallet) {
        AmlStatusView { wallet, reason: s.registry[wallet].reason, status: "AML check failed"@ }
    } else {
        AmlStatusView { wallet, reason: "No suspicious activity"@, status: "OK"@ }
    }
}

/// The text of an optional string.
pub open spec fn opt_text(s: Option<String>) -> Option<Seq<char>> {
    match s {
        Some(text) => Some(text@),
        None => None,
    }
}

/// A dataset whose signature the oracle's key does not accept is refused
/// and leaves the state as it was: the registry holds what it held, and its
/// listing reads as before.
pub proof fn lemma_rejected_dataset_changes_nothing(
    s: OracleStateView,
    sender: Seq<char>,
    payload: Seq<u8>,
    data: Seq<EntryView>,
    signature: Seq<u8>,
)
    requires
        !signature_accepted(s, payload, signature),
    ensures
        ({
            let after = dataset_step(s, sender, data, signature_accepted(s, payload, signature));
            &&& after.0 == s
            &&& listing_of(after.0.registry) == listing_of(s.registry)
            &&& after.1 == Err::<ResponseView, ContractError>(ContractError::SignatureInvalid)
        }),
{
}

/// An accepted dataset replaces the registry as a whole: what it held
/// before does not show in what it holds after.
pub proof fn lemma_accepted_dataset_replaces_registry(
    s: OracleStateView,
    t: OracleStateView,
    sender: Seq<char>,
    data: Seq<EntryView>,
)
    ensures
        dataset_step(s, sender, data, true).0.registry == dataset_step(
            t,
            sender,
            data,
            true,
        ).0.registry,
        dataset_step(s, sender, data, true).0.registry == dataset_map(data),
{
}

/// A rotation that names an unknown key type leaves key and key type as
/// they were, whoever asks for it.
pub proof fn lemma_unknown_key_type_changes_nothing(
    s: OracleStateView,
    sender: Seq<char>,
    new_pubkey: Seq<u8>,
    name: Seq<char>,
)
    requires
        normalize(name) is None,
    ensures
        rotate_step(s, sender, new_pubkey, Some(name)).0 == s,
        rotate_step(s, sender, new_pubkey, Some(name)).1 is Err,
{
}

/// A refused operation changes nothing, whatever it was refused for.
pub proof fn lemma_refusal_changes_nothing(
    s: OracleStateView,
    sender: Seq<char>,
    new_pubkey: Seq<u8>,
    new_key_type: Option<Seq<char>>,
    data: Seq<EntryView>,
    verified: bool,
)
    ensures
        rotate_step(s, sender, new_pubkey, new_key_type).1 is Err ==> rotate_step(
            s,
            sender,
            new_pubkey,
            new_key_type,
        ).0 == s,
        dataset_step(s, sender, data, verified).1 is Err ==> dataset_step(
            s,
            sender,
            data,
            verified,
        ).0 == s,
{
}

/// Only the administrator rotates the key: for any other caller the state
/// stays as it was.
pub proof fn lemma_rotation_needs_admin(
    s: OracleStateView,
    sender: Seq<char>,
    new_pubkey: Seq<u8>,
    new_key_type: Option<Seq<char>>,
)
    requires
        sender != s.admin,
    ensures
        rotate_step(s, sender, new_pubkey, new_key_type) == (
            s,
            Err::<ResponseView, ContractError>(ContractError::Unauthorized),
        ),
{
}

impl OracleState {
    /// The registry lists its entries in ascending order of wallet.
    pub closed spec fn wf(&self) -> bool {
        self.registry.wf()
    }

    /// Rebuilds a state from its parts as they were stored: the entries are
    /// recorded one after the other.
    pub fn restore(
        admin: String,
        pubkey: Vec<u8>,
        key_type: KeyType,
        entries: &Vec<OracleDataEntry>,
    ) -> (state: OracleState)
        ensures
            state.wf(),
            state@ == (OracleStateView {
                admin: admin@,
                pubkey: pubkey@,
                key_type,
                registry: dataset_map(entries.deep_view()),
            }),
    {
        let mut registry = ComplianceRegistry::new();
        registry.replace_all(entries);
        OracleState { admin, pubkey, key_type, registry }
    }

    /// The administrator.
    pub fn admin(&self) -> (admin: &String)
        ensures
            admin@ == self@.admin,
    {
        &self.admin
    }

    /// The oracle's public key.
    pub fn pubkey(&self) -> (pubkey: &Vec<u8>)
        ensures
            pubkey@ == self@.pubkey,
    {
        &self.pubkey
    }

    /// The algorithm of the oracle's key.
    pub fn key_type(&self) -> (key_type: KeyType)
        ensures
            key_type == self@.key_type,
    {
        self.key_type
    }

    /// All flagged wallets, in ascending order of wallet.
    pub fn records(&self) -> (out: Vec<OracleDataEntry>)
        requires
            self.wf(),
        ensures
            out.deep_view() == listing_of(self@.registry),
    {
        self.registry.list()
    }

    /// The entry for `wallet`, if it is flagged.
    pub fn check_wallet(&self, wallet: &str) -> (r: Option<&OracleDataEntry>)
        requires
            self.wf(),
        ensures
            r is Some <==> self@.registry.contains_key(wallet@),
            r matches Some(entry) ==> entry@ == self@.registry[wallet@],
    {
        self.registry.lookup(wallet)
    }

    /// The guard of the key registry: passes the administrator and nobody
    /// else.
    pub fn require_admin(&self, sender: &str) -> (r: Result<(), ContractError>)
        ensures
            r == if sender@ == self@.admin {
                Ok::<(), ContractError>(())
            } else {
                Err::<(), ContractError>(ContractError::Unauthorized)
            },
    {
        if same_text(sender, self.admin.as_str()) {
            Ok(())
        } else {
            Err(ContractError::Unauthorized)
        }
    }

    /// The guard of the compliance registry: whether the oracle's key
    /// accepts `signature` for `payload`.
    pub fn verify(&self, payload: &[u8], signature: &[u8]) -> (ok: bool)
        ensures
            ok == signature_accepted(self@, payload@, signature@),
            ok ==> signature_shape_ok(signature@) && key_shape_ok(self@.pubkey),
    {
        match self.key_type {
            KeyType::Secp256k1 => secp256k1_sha256_verify(
                self.pubkey.as_slice(),
                payload,
                signature,
            ),
            KeyType::Ed25519 => false,
        }
    }
}

/// Creates the contract: the caller becomes the administrator, and the
/// oracle's key is stored under the canonical name of its algorithm.
pub fn instantiate(info: MessageInfo, msg: InstantiateMsg) -> (r: Result<
    (OracleState, Response),
    ContractError,
>)
    ensures
        match instantiate_outcome(info.sender@, msg.oracle_pubkey@, msg.oracle_key_type@) {
            Ok((s, response)) => r matches Ok((state, resp)) && state.wf() && state@ == s && resp@
                == response,
            Err(e) => r matches Err(err) && err == e,
        },
{
    let key_type = match KeyType::parse(msg.oracle_key_type.as_str()) {
        Some(k) => k,
        None => {
            return Err(ContractError::InvalidKeyType);
        },
    };
    let response = Response::new().add_attribute("action", "instantiate".to_owned()).add_attribute(
        "admin",
        info.sender.clone(),
    ).add_attribute("oracle_pubkey", encode_base64(msg.oracle_pubkey.as_slice())).add_attribute(
        "oracle_key_type",
        key_type.as_str().to_owned(),
    );
    let state = OracleState {
        admin: info.sender,
        pubkey: msg.oracle_pubkey,
        key_type,
        registry: ComplianceRegistry::new(),
    };
    Ok((state, response))
}

fn flagged(wallet: &String, entry: &OracleDataEntry) -> (response: Response)
    ensures
        response@ == flagged_response(wallet@, entry@.reason),
{
    Response::new().add_attribute("flagged_wallet", wallet.clone()).add_attribute(
        "reason",
        entry.reason.clone(),
    ).add_attribute("status", "AML check failed".to_owned())
}

fn large_amount(sender: &String, recipient: &String, amount: u128) -> (response: Response)
    ensures
        response@ == large_amount_response(sender@, recipient@, amount),
{
    Response::new().add_attribute("sender", sender.clone()).add_attribute(
        "recipient",
        recipient.clone(),
    ).add_attribute("amount", render_u128(amount)).add_attribute(
        "status",
        "AML check failed".to_owned(),
    ).add_attribute("reason", "suspiciously large amount".to_owned())
}

/// The amount of the first suspicious coin among `funds`.
fn find_large(funds: &Vec<Coin>) -> (r: Option<u128>)
    ensures
        r is Some <==> first_large(funds.deep_view()) is Some,
        r matches Some(amount) ==> first_large(funds.deep_view()).unwrap().amount == amount,
{
    let ghost all = funds.deep_view();
    let mut i: usize = 0;
    assert(all.skip(0) =~= all);
    while i < funds.len()
        invariant
            i <= funds@.len(),
            all == funds.deep_view(),
            first_large(all) == first_large(all.skip(i as int)),
        decreases funds@.len() - i,
    {
        let coin: &Coin = &funds[i];
        assert(all.skip(i as int)[0] == coin@);
        if same_text(coin.denom.as_str(), "ustake") && coin.amount > LARGE_AMOUNT {
            return Some(coin.amount);
        }
        assert(all.skip(i as int).drop_first() =~= all.skip(i + 1));
        i = i + 1;
    }
    None
}

/// Screens a payment of the attached funds to `recipient` and, if nothing
/// speaks against it, instructs the host to pay. `recipient_valid` is the
/// host's verdict on the recipient's address.
pub fn execute_send(
    state: &OracleState,
    info: MessageInfo,
    recipient: String,
    recipient_valid: bool,
) -> (r: Result<Response, ContractError>)
    requires
        state.wf(),
    ensures
        result_view(r) == send_outcome(
            state@,
            info.sender@,
            info.funds.deep_view(),
            recipient@,
            recipient_valid,
        ),
{
    if let Some(entry) = state.registry.lookup(info.sender.as_str()) {
        return Ok(flagged(&info.sender, entry));
    }
    if let Some(entry) = state.registry.lookup(recipient.as_str()) {
        return Ok(flagged(&recipient, entry));
    }
    if !recipient_valid {
        return Err(ContractError::InvalidRecipient);
    }
    if info.funds.len() == 0 {
        return Err(ContractError::InvalidAmount);
    }
    if let Some(amount) = find_large(&info.funds) {
        return Ok(large_amount(&info.sender, &recipient, amount));
    }
    let msg = BankMsg::Send { to_address: recipient.clone(), amount: duplicate_coins(&info.funds) };
    let event = Event::new("send").add_attribute("action", "send".to_owned()).add_attribute(
        "from",
        info.sender,
    ).add_attribute("to", recipient).add_attribute("amount", render_coins(&info.funds));
    Ok(Response::new().add_message(msg).add_event(event).add_attribute(
        "status",
        "success".to_owned(),
    ))
}

/// Screens a transfer of `amount` to `recipient`. Nothing is paid: the
/// response says whether the transfer may go ahead.
pub fn execute_transfer(
    state: &OracleState,
    info: MessageInfo,
    recipient: String,
    amount: u128,
) -> (r: Result<Response, ContractError>)
    requires
        state.wf(),
    ensures
        result_view(r) == Ok::<ResponseView, ContractError>(
            transfer_outcome(state@, info.sender@, recipient@, amount),
        ),
{
    if let Some(entry) = state.registry.lookup(info.sender.as_str()) {
        return Ok(flagged(&info.sender, entry));
    }
    if let Some(entry) = state.registry.lookup(recipient.as_str()) {
        return Ok(flagged(&recipient, entry));
    }
    if amount > LARGE_AMOUNT {
        return Ok(large_amount(&info.sender, &recipient, amount));
    }
    Ok(
        Response::new().add_attribute("action", "transfer".to_owned()).add_attribute(
            "status",
            "success".to_owned(),
        ).add_attribute("to", recipient).add_attribute("amount", render_u128(amount)),
    )
}

/// Replaces the registry by `data` if the signature check passed, and
/// refuses the dataset otherwise.
pub fn apply_oracle_update(
    state: &mut OracleState,
    info: MessageInfo,
    data: Vec<OracleDataEntry>,
    verified: bool,
) -> (r: Result<Response, ContractError>)
    requires
        old(state).wf(),
    ensures
        final(state).wf(),
        (final(state)@, result_view(r)) == dataset_step(
            old(state)@,
            info.sender@,
            data.deep_view(),
            verified,
        ),
{
    if !verified {
        return Err(ContractError::SignatureInvalid);
    }
    state.registry.replace_all(&data);
    let event = Event::new("oracle_data_update").add_attribute(
        "action",
        "oracle_data_update".to_owned(),
    ).add_attribute("sender", info.sender).add_attribute("entries", "bulk_updated".to_owned());
    Ok(Response::new().add_event(event))
}

/// Takes in a dataset from the oracle: `payload` is what the oracle signed,
/// `data` the entries it holds. The registry is replaced as a whole if the
/// oracle's key accepts the signature, and stays untouched if not; a
/// signature or a key of a wrong shape is never accepted.
pub fn execute_oracle_update(
    state: &mut OracleState,
    info: MessageInfo,
    payload: Vec<u8>,
    data: Vec<OracleDataEntry>,
    signature: Vec<u8>,
) -> (r: Result<Response, ContractError>)
    requires
        old(state).wf(),
    ensures
        final(state).wf(),
        (final(state)@, result_view(r)) == dataset_step(
            old(state)@,
            info.sender@,
            data.deep_view(),
            signature_accepted(old(state)@, payload@, signature@),
        ),
        r is Ok ==> signature_shape_ok(signature@) && key_shape_ok(old(state)@.pubkey),
{
    let verified = state.verify(payload.as_slice(), signature.as_slice());
    apply_oracle_update(state, info, data, verified)
}

/// Replaces the oracle's key, and its algorithm where one is named. Only
/// the administrator may do so; a refused rotation changes nothing.
pub fn execute_update_oracle(
    state: &mut OracleState,
    info: MessageInfo,
    new_pubkey: Vec<u8>,
    new_key_type: Option<String>,
) -> (r: Result<Response, ContractError>)
    requires
        old(state).wf(),
    ensures
        final(state).wf(),
        (final(state)@, result_view(r)) == rotate_step(
            old(state)@,
            info.sender@,
            new_pubkey@,
            opt_text(new_key_type),
        ),
{
    if let Err(e) = state.require_admin(info.sender.as_str()) {
        return Err(e);
    }
    let key_type = match &new_key_type {
        Some(name) => match KeyType::parse(name.as_str()) {
            Some(k) => k,
            None => {
                return Err(ContractError::InvalidKeyType);
            },
        },
        None => state.key_type,
    };
    let event = Event::new("oracle_admin_update").add_attribute(
        "action",
        "oracle_update".to_owned(),
    ).add_attribute("admin", state.admin.clone()).add_attribute(
        "new_pubkey",
        encode_base64(new_pubkey.as_slice()),
    ).add_attribute("new_key_type", key_type.as_str().to_owned());
    state.key_type = key_type;
    state.pubkey = new_pubkey;
    Ok(Response::new().add_event(event))
}

/// Carries out one message. `recipient_valid` is the host's verdict on the
/// recipient's address of a `Send`; no other message reads it.
pub fn execute(
    state: &mut OracleState,
    info: MessageInfo,
    msg: ExecuteMsg,
    recipient_valid: bool,
) -> (r: Result<Response, ContractError>)
    requires
        old(state).wf(),
    ensures
        final(state).wf(),
        match msg {
            ExecuteMsg::Send { recipient } => final(state)@ == old(state)@ && result_view(r)
                == send_outcome(
                old(state)@,
                info.sender@,
                info.funds.deep_view(),
                recipient@,
                recipient_valid,
            ),
            ExecuteMsg::Transfer { recipient, amount } => final(state)@ == old(state)@
                && result_view(r) == Ok::<ResponseView, ContractError>(
                transfer_outcome(old(state)@, info.sender@, recipient@, amount),
            ),
            ExecuteMsg::OracleDataUpdate { payload, data, signature } => (
                final(state)@,
                result_view(r),
            ) == dataset_step(
                old(state)@,
                info.sender@,
                data.deep_view(),
                signature_accepted(old(state)@, payload@, signature@),
            ) && (r is Ok ==> signature_shape_ok(signature@) && key_shape_ok(
                old(state)@.pubkey,
            )),
            ExecuteMsg::UpdateOracle { new_pubkey, new_key_type } => (
                final(state)@,
                result_view(r),
            ) == rotate_step(old(state)@, info.sender@, new_pubkey@, opt_text(new_key_type)),
        },
{
    match msg {
        ExecuteMsg::Send { recipient } => execute_send(state, info, recipient, recipient_valid),
        ExecuteMsg::Transfer { recipient, amount } => execute_transfer(
            state,
            info,
            recipient,
            amount,
        ),
        ExecuteMsg::OracleDataUpdate { payload, data, signature } => execute_oracle_update(
            state,
            info,
            payload,
            data,
            signature,
        ),
        ExecuteMsg::UpdateOracle { new_pubkey, new_key_type } => execute_update_oracle(
            state,
            info,
            new_pubkey,
            new_key_type,
        ),
    }
}

/// Answers a question about the state.
pub fn query(state: &OracleState, msg: QueryMsg) -> (r: QueryResponse)
    requires
        state.wf(),
    ensures
        match msg {
            QueryMsg::GetOracleData {  } => r matches QueryResponse::OracleData(resp)
                && resp.data.deep_view() == listing_of(state@.registry),
            QueryMsg::GetOraclePubkey {  } => r matches QueryResponse::OraclePubkey(resp)
                && resp.pubkey@ == state@.pubkey && resp.key_type@ == canonical_name(
                state@.key_type,
            ),
            QueryMsg::GetAdmin {  } => r matches QueryResponse::Admin(resp) && resp.admin@
                == state@.admin,
            QueryMsg::GetBalance { address } => r matches QueryResponse::Balance(balance)
                && balance == 0,
            QueryMsg::CheckAML { wallet } => r matches QueryResponse::Aml(status) && status@
                == aml_status(state@, wallet@),
        },
{
    match msg {
        QueryMsg::GetOracleData {  } => QueryResponse::OracleData(
            OracleDataResponse { data: state.registry.list() },
        ),
        QueryMsg::GetOraclePubkey {  } => QueryResponse::OraclePubkey(
            OraclePubkeyResponse {
                pubkey: state.pubkey.clone(),
                key_type: state.key_type.as_str().to_owned(),
            },
        ),
        QueryMsg::GetAdmin {  } => QueryResponse::Admin(
            AdminResponse { admin: state.admin.clone() },
        ),
        QueryMsg::GetBalance { address: _ } => QueryResponse::Balance(0),
        QueryMsg::CheckAML { wallet } => {
            let status = match state.registry.lookup(wallet.as_str()) {
                Some(entry) => AmlStatus {
                    wallet: wallet.clone(),
                    reason: entry.reason.clone(),
                    status: "AML check failed".to_owned(),
                },
                None => AmlStatus {
                    wallet: wallet.clone(),
                    reason: "No suspicious activity".to_owned(),
                    status: "OK".to_owned(),
                },
            };
            QueryResponse::Aml(status)
        },
    }
}

} // verus!
