//! Which TLS server names this server answers for.
//!
//! Without configured names, any name that a name of the certificate covers
//! is accepted. With configured names, each must be covered by a name of the
//! certificate, and a client's name is accepted when a configured name covers
//! it.

use crate::wildcard::{any_match, has_match, views};
use vstd::prelude::*;

verus! {

/// Why the server names cannot be set up.
#[derive(Debug)]
pub enum TlsSetupError {
    /// The certificate names no DNS names.
    SanMissing,
    /// A configured name that no name of the certificate covers.
    SniNotInSan(String),
}

pub struct SniPolicy {
    patterns: Vec<String>,
}

impl SniPolicy {
    /// The names a client's server name is matched against.
    pub closed spec fn patterns(&self) -> Seq<Seq<char>> {
        views(self.patterns@)
    }

    /// Checks the configured names against the certificate's names; the first
    /// configured name that none covers is the error.
    pub fn new(config_sni: Vec<String>, cert_names: Option<Vec<String>>) -> (r: Result<
        SniPolicy,
        TlsSetupError,
    >)
        ensures
            cert_names is None ==> r matches Err(TlsSetupError::SanMissing),
            cert_names matches Some(san) ==> {
                let config = views(config_sni@);
                let names = views(san@);
                match r {
                    Ok(p) => (forall|i: int|
                        0 <= i < config.len() ==> any_match(#[trigger] config[i], names)) && p.patterns()
                        == if config.len() == 0 {
                        names
                    } else {
                        config
                    },
                    Err(TlsSetupError::SniNotInSan(name)) => exists|i: int|
                        0 <= i < config.len() && name@ == #[trigger] config[i] && !any_match(
                            config[i],
                            names,
                        ) && forall|j: int| 0 <= j < i ==> any_match(#[trigger] config[j], names),
                    Err(TlsSetupError::SanMissing) => false,
                }
            },
    {
        let san = match cert_names {
            Some(san) => san,
            None => {
                return Err(TlsSetupError::SanMissing);
            },
        };
        if config_sni.len() == 0 {
            return Ok(SniPolicy { patterns: san });
        }
        let mut i: usize = 0;
        while i < config_sni.len()
            invariant
                cert_names == Some(san),
                i <= config_sni@.len(),
                forall|j: int| 0 <= j < i ==> any_match(#[trigger] views(config_sni@)[j], views(san@)),
            decreases config_sni@.len() - i,
        {
            if !has_match(config_sni[i].as_str(), &san) {
                assert(views(config_sni@)[i as int] == config_sni@[i as int]@);
                return Err(TlsSetupError::SniNotInSan(config_sni[i].clone()));
            }
            i = i + 1;
        }
        Ok(SniPolicy { patterns: config_sni })
    }

    /// Whether a client that sent `server_name` (or none) reached a name this
    /// server answers for.
    pub fn sni_matched(&self, server_name: Option<&str>) -> (r: bool)
        ensures
            r == (server_name matches Some(n) && any_match(n@, self.patterns())),
    {
        match server_name {
            Some(n) => has_match(n, &self.patterns),
            None => false,
        }
    }
}

} // verus!
