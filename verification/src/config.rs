//! Explicit configuration for the external-collaborator invocation layer.
//!
//! The surrounding pipeline hands chain and storage credentials to its
//! collaborators through process environment variables.  Which variables
//! are exported, under which names, and in which order is decided here as
//! a pure function of the configuration record; the unverified shell only
//! performs the exports it is handed.

use vstd::prelude::*;

use crate::text::dec_string;
use crate::text::spec_dec_str;

verus! {

/// Credentials and endpoints for the external collaborators, passed by
/// value instead of living in ambient process state.
pub struct CollaboratorConfig {
    pub private_key: String,
    pub rpc_url: String,
    pub chain_id: u32,
    pub etherscan_api_key: String,
    pub dkim_registry_address: String,
}

/// The exports for a configuration: structured logging is always switched
/// on, and each credential is exported only when it is present (nonempty,
/// or nonzero for the chain id), in this fixed order.
pub open spec fn spec_env_assignments(cfg: CollaboratorConfig) -> Seq<(Seq<char>, Seq<char>)> {
    let base = seq![("JSON_LOGGER"@, "true"@)];
    let s1 = if cfg.private_key@.len() > 0 {
        base.push(("PRIVATE_KEY"@, cfg.private_key@))
    } else {
        base
    };
    let s2 = if cfg.rpc_url@.len() > 0 {
        s1.push(("RPC_URL"@, cfg.rpc_url@))
    } else {
        s1
    };
    let s3 = if cfg.chain_id != 0 {
        s2.push(("CHAIN_ID"@, spec_dec_str(cfg.chain_id as int)))
    } else {
        s2
    };
    let s4 = if cfg.etherscan_api_key@.len() > 0 {
        s3.push(("ETHERSCAN_API_KEY"@, cfg.etherscan_api_key@))
    } else {
        s3
    };
    if cfg.dkim_registry_address@.len() > 0 {
        s4.push(("DKIM_REGISTRY"@, cfg.dkim_registry_address@))
    } else {
        s4
    }
}

/// Computes the environment exports for a configuration, name and value
/// pairs in the order `spec_env_assignments` fixes.
pub fn env_assignments(cfg: &CollaboratorConfig) -> (r: Vec<(String, String)>)
    ensures
        r@.len() == spec_env_assignments(*cfg).len(),
        forall|i: int|
            0 <= i < r@.len() ==> (#[trigger] r@[i]).0@ == spec_env_assignments(*cfg)[i].0
                && r@[i].1@ == spec_env_assignments(*cfg)[i].1,
{
    let mut r: Vec<(String, String)> = Vec::new();
    r.push(("JSON_LOGGER".to_owned(), "true".to_owned()));
    if !cfg.private_key.as_str().is_empty() {
        r.push(("PRIVATE_KEY".to_owned(), cfg.private_key.clone()));
    }
    if !cfg.rpc_url.as_str().is_empty() {
        r.push(("RPC_URL".to_owned(), cfg.rpc_url.clone()));
    }
    if cfg.chain_id != 0 {
        r.push(("CHAIN_ID".to_owned(), dec_string(cfg.chain_id as usize)));
    }
    if !cfg.etherscan_api_key.as_str().is_empty() {
        r.push(("ETHERSCAN_API_KEY".to_owned(), cfg.etherscan_api_key.clone()));
    }
    if !cfg.dkim_registry_address.as_str().is_empty() {
        r.push(("DKIM_REGISTRY".to_owned(), cfg.dkim_registry_address.clone()));
    }
    r
}

} // verus!
