//! The address that a recovered phrase must lead to.

use crate::error::SearchError;
use vstd::prelude::*;

verus! {

/// Why the `bitcoin` crate could not decode a Base58Check text.
#[verifier::external_type_specification]
#[verifier::external_body]
pub struct ExBase58Error(bitcoin::base58::Error);

/// The bytes that `bitcoin::base58::decode_check` gives for a text: the
/// payload in front of the four checksum bytes, or nothing where the text is
/// no valid Base58Check.
pub uninterp spec fn base58check_payload(text: Seq<char>) -> Option<Seq<u8>>;

/// Calls `bitcoin::base58::decode_check`. Trusted: it succeeds exactly where
/// `base58check_payload` holds bytes, and then returns them.
#[verifier::external_body]
fn decode_check(text: &str) -> (decoded: Result<Vec<u8>, bitcoin::base58::Error>)
    ensures
        match decoded {
            Ok(bytes) => base58check_payload(text@) == Some(bytes@),
            Err(_) => base58check_payload(text@) is None,
        },
{
    bitcoin::base58::decode_check(text)
}

/// A payload of a legacy mainnet address: the version byte 0 and the twenty
/// bytes of a public key's hash.
pub open spec fn is_legacy_payload(payload: Seq<u8>) -> bool {
    payload.len() == 21 && payload[0] == 0
}

/// What parsing a target address gives, by the payload that the text decodes to.
pub open spec fn target_check(payload: Option<Seq<u8>>) -> Result<(), SearchError> {
    match payload {
        None => Err(SearchError::InvalidAddress),
        Some(bytes) => if is_legacy_payload(bytes) {
            Ok(())
        } else {
            Err(SearchError::UnsupportedAddress)
        },
    }
}

/// A legacy (P2PKH) mainnet address, as its Base58Check text.
#[derive(Clone, Debug)]
pub struct TargetAddress {
    text: String,
}

impl TargetAddress {
    /// The address text.
    pub closed spec fn view(&self) -> Seq<char> {
        self.text@
    }

    /// The text decodes to a legacy mainnet payload.
    pub open spec fn wf(&self) -> bool {
        target_check(base58check_payload(self@)) is Ok
    }

    /// Whether an address text is this address, character by character.
    pub fn matches(&self, address: &String) -> (same: bool)
        ensures
            same == (address@ == self@),
    {
        self.text == *address
    }

    /// The address text.
    pub fn as_str(&self) -> (text: &str)
        ensures
            text@ == self@,
    {
        self.text.as_str()
    }
}

/// Whether the decoded bytes are the payload of a legacy mainnet address.
pub fn is_mainnet_legacy(payload: &Vec<u8>) -> (legacy: bool)
    ensures
        legacy == is_legacy_payload(payload@),
{
    payload.len() == 21 && payload[0] == 0
}

/// Parses a target address: the text must be valid Base58Check and decode to
/// a legacy mainnet payload.
pub fn parse_target(text: &str) -> (target: Result<TargetAddress, SearchError>)
    ensures
        match target {
            Ok(address) => address@ == text@ && address.wf(),
            Err(e) => target_check(base58check_payload(text@)) == Err::<(), SearchError>(e),
        },
        target is Ok == target_check(base58check_payload(text@)) is Ok,
{
    match decode_check(text) {
        Err(_) => Err(SearchError::InvalidAddress),
        Ok(payload) => {
            if is_mainnet_legacy(&payload) {
                Ok(TargetAddress { text: text.to_owned() })
            } else {
                Err(SearchError::UnsupportedAddress)
            }
        },
    }
}

} // verus!
