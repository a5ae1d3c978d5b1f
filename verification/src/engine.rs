//! From a candidate phrase to the address at the fixed derivation path.

use crate::error::SearchError;
use crate::language::Language;
use vstd::prelude::*;

verus! {

/// A checked mnemonic of the `bip39` crate, carried from parsing to the seed.
#[verifier::external_type_specification]
#[verifier::external_body]
pub struct ExMnemonic(bip39::Mnemonic);

/// Why the `bip39` crate refused a phrase.
#[verifier::external_type_specification]
#[verifier::external_body]
pub struct ExMnemonicError(bip39::Error);

/// An extended private key of the `bitcoin` crate.
#[verifier::external_type_specification]
#[verifier::external_body]
pub struct ExXpriv(bitcoin::bip32::Xpriv);

/// Why the `bitcoin` crate could not make a key.
#[verifier::external_type_specification]
#[verifier::external_body]
pub struct ExBip32Error(bitcoin::bip32::Error);

/// A public key of the `bitcoin` crate.
#[verifier::external_type_specification]
#[verifier::external_body]
pub struct ExPublicKey(bitcoin::PublicKey);

/// A Bitcoin network.
#[derive(Clone, Copy, Debug, PartialEq, Eq, Structural)]
pub enum Network {
    Mainnet,
    Testnet,
    Signet,
    Regtest,
}

/// One step of a derivation path.
#[derive(Clone, Copy, Debug, PartialEq, Eq, Structural)]
pub enum PathStep {
    Normal(u32),
    Hardened(u32),
}

impl PathStep {
    /// The index lies below 2^31, as BIP-32 asks of both kinds of step.
    pub open spec fn wf(self) -> bool {
        match self {
            PathStep::Normal(index) => index < 0x8000_0000,
            PathStep::Hardened(index) => index < 0x8000_0000,
        }
    }
}

/// The path `m/44'/0'/0'/0/0`: the first receive address of account 0 on mainnet.
pub open spec fn receive_steps() -> Seq<PathStep> {
    seq![
        PathStep::Hardened(44),
        PathStep::Hardened(0),
        PathStep::Hardened(0),
        PathStep::Normal(0),
        PathStep::Normal(0),
    ]
}

/// The path `m/44'/0'/0'/0/0`.
pub fn receive_path() -> (path: Vec<PathStep>)
    ensures
        path@ == receive_steps(),
        forall|i: int| 0 <= i < path@.len() ==> (#[trigger] path@[i]).wf(),
{
    let path = vec![
        PathStep::Hardened(44),
        PathStep::Hardened(0),
        PathStep::Hardened(0),
        PathStep::Normal(0),
        PathStep::Normal(0),
    ];
    assert(path@ =~= receive_steps());
    path
}

/// What `bip39::Mnemonic::parse_in_normalized` returns for a language and a phrase.
pub uninterp spec fn parsed_phrase(language: Language, phrase: Seq<char>) -> Result<
    bip39::Mnemonic,
    bip39::Error,
>;

/// What `bip39::Mnemonic::to_seed` returns for a mnemonic and a passphrase.
pub uninterp spec fn seed_of(mnemonic: bip39::Mnemonic, passphrase: Seq<char>) -> Seq<u8>;

/// What `bitcoin::bip32::Xpriv::new_master` returns for a network and a seed.
pub uninterp spec fn master_of(network: Network, seed: Seq<u8>) -> Result<
    bitcoin::bip32::Xpriv,
    bitcoin::bip32::Error,
>;

/// What `bitcoin::bip32::Xpriv::derive_priv` returns for a key and a path.
pub uninterp spec fn child_of(parent: bitcoin::bip32::Xpriv, path: Seq<PathStep>) -> Result<
    bitcoin::bip32::Xpriv,
    bitcoin::bip32::Error,
>;

/// The compressed public key that `secp256k1::SecretKey::public_key` and
/// `bitcoin::PublicKey::new` give for the private key of an extended key.
pub uninterp spec fn public_key_of(key: bitcoin::bip32::Xpriv) -> bitcoin::PublicKey;

/// The text of the address that `bitcoin::Address::p2pkh` makes of a public
/// key for a network.
pub uninterp spec fn p2pkh_text(key: bitcoin::PublicKey, network: Network) -> Seq<char>;

/// Calls `bip39::Mnemonic::parse_in_normalized`. Trusted: the outcome is
/// `parsed_phrase`, a function of the language and the phrase alone.
#[verifier::external_body]
fn parse_phrase(language: Language, phrase: &str) -> (parsed: Result<bip39::Mnemonic, bip39::Error>)
    ensures
        parsed == parsed_phrase(language, phrase@),
{
    let wordlist = match language {
        Language::English => bip39::Language::English,
        Language::Portuguese => bip39::Language::Portuguese,
        Language::Spanish => bip39::Language::Spanish,
        Language::French => bip39::Language::French,
        Language::Italian => bip39::Language::Italian,
        Language::Czech => bip39::Language::Czech,
        Language::Korean => bip39::Language::Korean,
        Language::Japanese => bip39::Language::Japanese,
        Language::SimplifiedChinese => bip39::Language::SimplifiedChinese,
        Language::TraditionalChinese => bip39::Language::TraditionalChinese,
    };
    bip39::Mnemonic::parse_in_normalized(wordlist, phrase)
}

/// Calls `bip39::Mnemonic::to_seed`. Trusted: the 64 bytes returned are
/// `seed_of` of the mnemonic and the passphrase.
#[verifier::external_body]
fn seed_bytes(mnemonic: &bip39::Mnemonic, passphrase: &str) -> (seed: Vec<u8>)
    ensures
        seed@ == seed_of(*mnemonic, passphrase@),
{
    mnemonic.to_seed(passphrase).to_vec()
}

/// Calls `bitcoin::bip32::Xpriv::new_master`. Trusted: the outcome is
/// `master_of` of the network and the seed.
#[verifier::external_body]
fn master_key(network: Network, seed: &Vec<u8>) -> (master: Result<
    bitcoin::bip32::Xpriv,
    bitcoin::bip32::Error,
>)
    ensures
        master == master_of(network, seed@),
{
    let outside = match network {
        Network::Mainnet => bitcoin::Network::Bitcoin,
        Network::Testnet => bitcoin::Network::Testnet,
        Network::Signet => bitcoin::Network::Signet,
        Network::Regtest => bitcoin::Network::Regtest,
    };
    bitcoin::bip32::Xpriv::new_master(outside, seed.as_slice())
}

/// Calls `bitcoin::bip32::Xpriv::derive_priv` with a fresh secp256k1 context.
/// Trusted: the outcome is `child_of` of the key and the path. The call
/// stops the program where an intermediate scalar falls outside the curve
/// order, which the outside crate documents as statistically impossible.
#[verifier::external_body]
fn child_key(parent: &bitcoin::bip32::Xpriv, path: &Vec<PathStep>) -> (child: Result<
    bitcoin::bip32::Xpriv,
    bitcoin::bip32::Error,
>)
    requires
        forall|i: int| 0 <= i < path@.len() ==> (#[trigger] path@[i]).wf(),
    ensures
        child == child_of(*parent, path@),
{
    let steps: Vec<bitcoin::bip32::ChildNumber> = path.iter().map(|step| match *step {
        PathStep::Normal(index) => bitcoin::bip32::ChildNumber::Normal { index },
        PathStep::Hardened(index) => bitcoin::bip32::ChildNumber::Hardened { index },
    }).collect();
    parent.derive_priv(&bitcoin::secp256k1::Secp256k1::new(), &steps)
}

/// Calls `secp256k1::SecretKey::public_key` on the private key of an
/// extended key and wraps the point with `bitcoin::PublicKey::new`.
/// Trusted: the result is `public_key_of` of the key.
#[verifier::external_body]
fn public_key(key: &bitcoin::bip32::Xpriv) -> (public: bitcoin::PublicKey)
    ensures
        public == public_key_of(*key),
{
    bitcoin::PublicKey::new(key.private_key.public_key(&bitcoin::secp256k1::Secp256k1::new()))
}

/// Calls `bitcoin::Address::p2pkh` and writes the address out. Trusted: the
/// text is `p2pkh_text` of the public key and the network.
#[verifier::external_body]
fn p2pkh_address(key: &bitcoin::PublicKey, network: Network) -> (text: String)
    ensures
        text@ == p2pkh_text(*key, network),
{
    let outside = match network {
        Network::Mainnet => bitcoin::Network::Bitcoin,
        Network::Testnet => bitcoin::Network::Testnet,
        Network::Signet => bitcoin::Network::Signet,
        Network::Regtest => bitcoin::Network::Regtest,
    };
    bitcoin::Address::p2pkh(key, outside).to_string()
}

/// What a candidate phrase leads to.
pub enum Candidate {
    /// The phrase is no valid mnemonic of the language.
    Invalid,
    /// The phrase is valid, and this is the text of its address.
    Address(Seq<char>),
    /// The phrase is valid, but a key could not be made.
    Failed(SearchError),
}

/// What a candidate phrase leads to: with the empty passphrase, the seed
/// of a valid mnemonic gives a master key, the master key gives the child
/// key at the fixed path, and the child's public key gives the legacy
/// address.
pub open spec fn candidate_of(
    network: Network,
    language: Language,
    phrase: Seq<char>,
) -> Candidate {
    match parsed_phrase(language, phrase) {
        Err(_) => Candidate::Invalid,
        Ok(mnemonic) => match master_of(network, seed_of(mnemonic, Seq::empty())) {
            Err(_) => Candidate::Failed(SearchError::MasterKey),
            Ok(master) => match child_of(master, receive_steps()) {
                Err(_) => Candidate::Failed(SearchError::ChildKey),
                Ok(child) => Candidate::Address(p2pkh_text(public_key_of(child), network)),
            },
        },
    }
}

/// `derived` is what deriving from a candidate phrase returns.
pub open spec fn is_derivation(
    network: Network,
    language: Language,
    phrase: Seq<char>,
    derived: Result<Option<String>, SearchError>,
) -> bool {
    match derived {
        Ok(Some(address)) => candidate_of(network, language, phrase) == Candidate::Address(
            address@,
        ),
        Ok(None) => candidate_of(network, language, phrase) == Candidate::Invalid,
        Err(e) => candidate_of(network, language, phrase) == Candidate::Failed(e),
    }
}

/// Takes a candidate phrase through checking, seed, master key, child key,
/// public key and address. The result depends on the network, the language
/// and the phrase alone.
pub fn derive_address(network: Network, language: Language, phrase: &str) -> (derived: Result<
    Option<String>,
    SearchError,
>)
    ensures
        is_derivation(network, language, phrase@, derived),
{
    match parse_phrase(language, phrase) {
        Err(_) => Ok(None),
        Ok(mnemonic) => {
            proof {
                reveal_strlit("");
                assert(""@ =~= Seq::<char>::empty());
            }
            let seed = seed_bytes(&mnemonic, "");
            match master_key(network, &seed) {
                Err(_) => Err(SearchError::MasterKey),
                Ok(master) => {
                    let path = receive_path();
                    match child_key(&master, &path) {
                        Err(_) => Err(SearchError::ChildKey),
                        Ok(child) => {
                            let public = public_key(&child);
                            Ok(Some(p2pkh_address(&public, network)))
                        },
                    }
                },
            }
        },
    }
}

/// Deriving twice from one phrase gives the same address both times, or
/// no address both times, or the same error.
pub proof fn derivation_is_repeatable(
    network: Network,
    language: Language,
    phrase: Seq<char>,
    first: Result<Option<String>, SearchError>,
    second: Result<Option<String>, SearchError>,
)
    requires
        is_derivation(network, language, phrase, first),
        is_derivation(network, language, phrase, second),
    ensures
        match (first, second) {
            (Ok(Some(a1)), Ok(Some(a2))) => a1@ == a2@,
            (Ok(None), Ok(None)) => true,
            (Err(e1), Err(e2)) => e1 == e2,
            _ => false,
        },
{
}

} // verus!
