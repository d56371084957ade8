//! The signature algorithms an oracle key may belong to, and the names they
//! go by.

use crate::order::same_text;
use crate::text::{lowercase, to_lowercase};
use vstd::prelude::*;

verus! {

/// A signature algorithm family.
#[derive(Clone, Copy, Debug, PartialEq, Eq, Structural)]
pub enum KeyType {
    Secp256k1,
    Ed25519,
}

/// The one name under which an algorithm is stored and reported.
pub open spec fn canonical_name(key_type: KeyType) -> Seq<char> {
    match key_type {
        KeyType::Secp256k1 => "secp256k1"@,
        KeyType::Ed25519 => "ed25519"@,
    }
}

/// The algorithm that a lower-case alias stands for.
pub open spec fn alias_key_type(lower: Seq<char>) -> Option<KeyType> {
    if lower == "secp256k1"@ || lower == "k256"@ || lower == "ecdsa"@ {
        Some(KeyType::Secp256k1)
    } else if lower == "ed25519"@ || lower == "ed"@ {
        Some(KeyType::Ed25519)
    } else {
        None
    }
}

/// The algorithm that `s` names, whatever its letter case.
pub open spec fn normalize(s: Seq<char>) -> Option<KeyType> {
    alias_key_type(lowercase(s))
}

impl KeyType {
    /// Looks up an alias that is already in lower case.
    pub fn from_lowercase(lower: &str) -> (r: Option<KeyType>)
        ensures
            r == alias_key_type(lower@),
    {
        if same_text(lower, "secp256k1") || same_text(lower, "k256") || same_text(lower, "ecdsa") {
            Some(KeyType::Secp256k1)
        } else if same_text(lower, "ed25519") || same_text(lower, "ed") {
            Some(KeyType::Ed25519)
        } else {
            None
        }
    }

    /// Normalizes an algorithm name: any letter case of a known alias.
    pub fn parse(s: &str) -> (r: Option<KeyType>)
        ensures
            r == normalize(s@),
    {
        let lower: String = to_lowercase(s);
        KeyType::from_lowercase(lower.as_str())
    }

    /// The canonical name of the algorithm.
    pub fn as_str(&self) -> (name: &'static str)
        ensures
            name@ == canonical_name(*self),
    {
        match self {
            KeyType::Secp256k1 => "secp256k1",
            KeyType::Ed25519 => "ed25519",
        }
    }
}

/// The canonical name of the algorithm that `s` names, or `None` for a text
/// that is no alias of any.
pub fn parse_key_type(s: &str) -> (r: Option<&'static str>)
    ensures
        r is Some <==> normalize(s@) is Some,
        r matches Some(name) ==> name@ == canonical_name(normalize(s@).unwrap()),
{
    match KeyType::parse(s) {
        Some(key_type) => Some(key_type.as_str()),
        None => None,
    }
}

/// A text whose lower-case form is none of the five aliases names no
/// algorithm, and no other text fails to.
pub proof fn lemma_only_aliases_normalize(s: Seq<char>)
    ensures
        normalize(s) is None <==> lowercase(s) != "secp256k1"@ && lowercase(s) != "k256"@
            && lowercase(s) != "ecdsa"@ && lowercase(s) != "ed25519"@ && lowercase(s) != "ed"@,
{
}

/// Texts with the same lower-case form name the same algorithm or none.
pub proof fn lemma_normalize_ignores_case(s: Seq<char>, t: Seq<char>)
    requires
        lowercase(s) == lowercase(t),
    ensures
        normalize(s) == normalize(t),
{
}

/// The table of aliases: three names for one algorithm, two for the other.
pub proof fn lemma_alias_table()
    ensures
        alias_key_type("secp256k1"@) == Some(KeyType::Secp256k1),
        alias_key_type("k256"@) == Some(KeyType::Secp256k1),
        alias_key_type("ecdsa"@) == Some(KeyType::Secp256k1),
        alias_key_type("ed25519"@) == Some(KeyType::Ed25519),
        alias_key_type("ed"@) == Some(KeyType::Ed25519),
{
    reveal_strlit("secp256k1");
    reveal_strlit("k256");
    reveal_strlit("ecdsa");
    reveal_strlit("ed25519");
    reveal_strlit("ed");
    assert("secp256k1"@.len() == 9);
    assert("k256"@.len() == 4);
    assert("ecdsa"@.len() == 5);
    assert("ed25519"@.len() == 7);
    assert("ed"@.len() == 2);
}

/// The canonical name of an algorithm is an alias of that algorithm, so a
/// stored name reads back as what was stored.
pub proof fn lemma_canonical_name_is_alias(key_type: KeyType)
    ensures
        alias_key_type(canonical_name(key_type)) == Some(key_type),
{
    lemma_alias_table();
}

} // verus!
