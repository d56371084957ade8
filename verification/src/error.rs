//! Why an operation was refused. A refused operation changes nothing.

use vstd::prelude::*;

verus! {

#[derive(Clone, Copy, Debug, PartialEq, Eq, Structural)]
pub enum ContractError {
    /// The caller is not the administrator.
    Unauthorized,
    /// The text names no known signature algorithm.
    InvalidKeyType,
    /// The oracle's dataset does not carry a valid signature.
    SignatureInvalid,
    /// The recipient is not a valid address.
    InvalidRecipient,
    /// No funds, or an amount of zero.
    InvalidAmount,
}

impl ContractError {
    pub open spec fn text(self) -> Seq<char> {
        match self {
            ContractError::Unauthorized => "unauthorized"@,
            ContractError::InvalidKeyType => "invalid key type: use 'secp256k1' or 'ed25519'"@,
            ContractError::SignatureInvalid => "oracle signature invalid"@,
            ContractError::InvalidRecipient => "invalid recipient address"@,
            ContractError::InvalidAmount => "no funds or zero amount"@,
        }
    }

    /// A short description for the caller.
    pub fn message(&self) -> (s: &'static str)
        ensures
            s@ == self.text(),
    {
        match self {
            ContractError::Unauthorized => "unauthorized",
            ContractError::InvalidKeyType => "invalid key type: use 'secp256k1' or 'ed25519'",
            ContractError::SignatureInvalid => "oracle signature invalid",
            ContractError::InvalidRecipient => "invalid recipient address",
            ContractError::InvalidAmount => "no funds or zero amount",
        }
    }
}

} // verus!
