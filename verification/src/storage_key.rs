//! Namespaced storage keys.  Every persisted entity of the registry is
//! located under a distinct key derived from a fixed short prefix plus the
//! appchain identifier, so that any entity can be found by direct lookup.

use vstd::prelude::*;
use vstd::string::StrSliceExecFns;
use vstd::string::StringExecFns;
use crate::types::AppchainId;

verus! {

/// Storage keys for the collections and sub-entities of the registry.
pub enum StorageKey {
    AppchainIds,
    AppchainBasedatas,
    UpvoteDeposits,
    DownvoteDeposits,
    RegistrySettings,
    RegistryRoles,
    RegistryContractWasm,
    AppchainMetadata(AppchainId),
    AppchainAnchorCode(AppchainId),
    AppchainVotingScore(AppchainId),
}

impl StorageKey {
    /// The character sequence this key renders to: a fixed short tag,
    /// prefixed by the appchain id for per-appchain entities.
    pub open spec fn spec_str(&self) -> Seq<char> {
        match self {
            StorageKey::AppchainIds => "i"@,
            StorageKey::AppchainBasedatas => "a"@,
            StorageKey::UpvoteDeposits => "u"@,
            StorageKey::DownvoteDeposits => "d"@,
            StorageKey::RegistrySettings => "rs"@,
            StorageKey::RegistryRoles => "rr"@,
            StorageKey::RegistryContractWasm => "rcw"@,
            StorageKey::AppchainMetadata(appchain_id) => appchain_id@ + "md"@,
            StorageKey::AppchainAnchorCode(appchain_id) => appchain_id@ + "ac"@,
            StorageKey::AppchainVotingScore(appchain_id) => appchain_id@ + "vs"@,
        }
    }

    pub fn to_string(&self) -> (r: String)
        ensures
            r@ == self.spec_str(),
    {
        match self {
            StorageKey::AppchainIds => String::from_str("i"),
            StorageKey::AppchainBasedatas => String::from_str("a"),
            StorageKey::UpvoteDeposits => String::from_str("u"),
            StorageKey::DownvoteDeposits => String::from_str("d"),
            StorageKey::RegistrySettings => String::from_str("rs"),
            StorageKey::RegistryRoles => String::from_str("rr"),
            StorageKey::RegistryContractWasm => String::from_str("rcw"),
            StorageKey::AppchainMetadata(appchain_id) => appchain_id.clone().concat("md"),
            StorageKey::AppchainAnchorCode(appchain_id) => appchain_id.clone().concat("ac"),
            StorageKey::AppchainVotingScore(appchain_id) => appchain_id.clone().concat("vs"),
        }
    }

    pub fn into_bytes(&self) -> (r: Vec<u8>)
        ensures
            r@ == vstd::utf8::encode_utf8(self.spec_str()),
    {
        let s = self.to_string();
        s.as_str().as_bytes_vec()
    }
}

} // verus!
