//! Messages to the oracle contract and its answers.

use vstd::prelude::*;

verus! {

/// One flagged wallet: why it is flagged, and how risky the oracle holds it
/// to be, where it says so.
#[derive(Clone, Debug, PartialEq, Eq)]
pub struct OracleDataEntry {
    pub wallet: String,
    pub reason: String,
    pub risk_score: Option<u64>,
}

/// What an [`OracleDataEntry`] holds.
#[verifier::ext_equal]
pub struct EntryView {
    pub wallet: Seq<char>,
    pub reason: Seq<char>,
    pub risk_score: Option<u64>,
}

impl View for OracleDataEntry {
    type V = EntryView;

    open spec fn view(&self) -> EntryView {
        EntryView { wallet: self.wallet@, reason: self.reason@, risk_score: self.risk_score }
    }
}

impl DeepView for OracleDataEntry {
    type V = EntryView;

    open spec fn deep_view(&self) -> EntryView {
        self@
    }
}

impl OracleDataEntry {
    /// A copy of this entry.
    pub fn duplicate(&self) -> (e: OracleDataEntry)
        ensures
            e@ == self@,
    {
        OracleDataEntry {
            wallet: self.wallet.clone(),
            reason: self.reason.clone(),
            risk_score: self.risk_score,
        }
    }
}

/// All flagged wallets, in ascending order of wallet.
#[derive(Clone, Debug, PartialEq, Eq)]
pub struct OracleDataResponse {
    pub data: Vec<OracleDataEntry>,
}

/// The oracle's public key and the canonical name of its algorithm.
#[derive(Clone, Debug, PartialEq, Eq)]
pub struct OraclePubkeyResponse {
    pub pubkey: Vec<u8>,
    pub key_type: String,
}

#[derive(Clone, Debug, PartialEq, Eq)]
pub struct AdminResponse {
    pub admin: String,
}

/// The screening verdict on one wallet.
#[derive(Clone, Debug, PartialEq, Eq)]
pub struct AmlStatus {
    pub wallet: String,
    pub reason: String,
    pub status: String,
}

/// What an [`AmlStatus`] holds.
#[verifier::ext_equal]
pub struct AmlStatusView {
    pub wallet: Seq<char>,
    pub reason: Seq<char>,
    pub status: Seq<char>,
}

impl View for AmlStatus {
    type V = AmlStatusView;

    open spec fn view(&self) -> AmlStatusView {
        AmlStatusView { wallet: self.wallet@, reason: self.reason@, status: self.status@ }
    }
}

#[derive(Clone, Debug, PartialEq, Eq)]
pub struct InstantiateMsg {
    pub oracle_pubkey: Vec<u8>,
    /// Any alias of `secp256k1` or `ed25519`, in any letter case.
    pub oracle_key_type: String,
}

#[derive(Clone, Debug, PartialEq, Eq)]
pub enum ExecuteMsg {
    /// Screen a transfer of `amount` to `recipient`.
    Transfer { recipient: String, amount: u128 },
    /// Screen the attached funds and pay them to `recipient`.
    Send { recipient: String },
    /// The oracle's new dataset: `payload` is the byte string that the
    /// oracle signed, `data` the entries it holds.
    OracleDataUpdate { payload: Vec<u8>, data: Vec<OracleDataEntry>, signature: Vec<u8> },
    /// The administrator replaces the oracle's key.
    UpdateOracle { new_pubkey: Vec<u8>, new_key_type: Option<String> },
}

#[derive(Clone, Debug, PartialEq, Eq)]
pub enum QueryMsg {
    /// All flagged wallets.
    GetOracleData {},
    /// The oracle's key and algorithm.
    GetOraclePubkey {},
    /// The administrator.
    GetAdmin {},
    /// The balance of an address; accounts are kept by the host, so the
    /// answer is always zero.
    GetBalance { address: String },
    /// Whether a wallet is flagged.
    CheckAML { wallet: String },
}

/// The answer to a [`QueryMsg`], one variant for each question.
#[derive(Clone, Debug, PartialEq, Eq)]
pub enum QueryResponse {
    OracleData(OracleDataResponse),
    OraclePubkey(OraclePubkeyResponse),
    Admin(AdminResponse),
    Balance(u128),
    Aml(AmlStatus),
}

} // verus!
