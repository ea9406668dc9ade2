//! Configuration of the networking core, with its validation rules and
//! the normalization of the optional secret key.

use vstd::prelude::*;

verus! {

/// A configuration value that is rejected at construction.
#[derive(Debug, Clone, PartialEq, Eq, Structural)]
pub enum ConfigError {
    /// The secret key must be absent, empty (meaning "generate a random
    /// key"), or exactly 32 bytes long; this one has another length.
    InvalidSecretKeyLength(usize),
}

/// The recognized options of the networking core. Timeouts are in
/// seconds; the bootstrap peer is the textual form of a multiaddress,
/// which must include the peer's id.
#[derive(Debug, Clone)]
pub struct NetworkConfig {
    /// Listen port for TCP.
    pub tcp_port: u16,
    /// Listen port for QUIC.
    pub quic_port: u16,
    /// Max lifetime in seconds of any SQMR session.
    pub session_timeout: u64,
    /// Close a connection after this many seconds with no active sessions.
    pub idle_connection_timeout: u64,
    /// Read-ahead window of the server-side query executor for headers.
    pub header_buffer_size: usize,
    /// Optional bootstrap peer to dial at startup.
    pub bootstrap_peer_multiaddr: Option<String>,
    /// Optional 32-byte seed for the local keypair; absent or empty means
    /// a random key is generated.
    pub secret_key: Option<Vec<u8>>,
}

impl NetworkConfig {
    /// A configuration is valid when its secret key, if present, is empty
    /// or exactly 32 bytes long.
    pub open spec fn is_valid(self) -> bool {
        match self.secret_key {
            None => true,
            Some(k) => k@.len() == 0 || k@.len() == 32,
        }
    }

    /// The seed actually used for the local keypair: `None` (absent or
    /// empty key) means "generate a random keypair".
    pub open spec fn effective_seed(self) -> Option<Seq<u8>> {
        match self.secret_key {
            None => None,
            Some(k) => if k@.len() == 0 {
                None
            } else {
                Some(k@)
            },
        }
    }

    /// Checks the configuration; construction of the manager is refused
    /// on any error.
    pub fn validate(&self) -> (r: Result<(), ConfigError>)
        ensures
            r is Ok <==> self.is_valid(),
            r is Err ==> (match self.secret_key {
                Some(k) => r->Err_0 == ConfigError::InvalidSecretKeyLength(k@.len() as usize),
                None => false,
            }),
    {
        match &self.secret_key {
            None => Ok(()),
            Some(k) => {
                if k.len() == 0 || k.len() == 32 {
                    Ok(())
                } else {
                    Err(ConfigError::InvalidSecretKeyLength(k.len()))
                }
            },
        }
    }

    /// The normalized secret key: an empty key is treated exactly as an
    /// absent one, so `None` here means "generate a random keypair".
    pub fn effective_secret_key(&self) -> (r: Option<&Vec<u8>>)
        ensures
            match r {
                Some(k) => self.effective_seed() == Some(k@),
                None => self.effective_seed() is None,
            },
    {
        match &self.secret_key {
            None => None,
            Some(k) => {
                if k.len() == 0 {
                    None
                } else {
                    Some(k)
                }
            },
        }
    }
}

impl Default for NetworkConfig {
    /// The default configuration: TCP on 10000, QUIC on 10001, both
    /// timeouts at 120 seconds, a header read-ahead of 100000 items, no
    /// bootstrap peer and a randomly generated key.
    fn default() -> (c: NetworkConfig)
        ensures
            c.tcp_port == 10000,
            c.quic_port == 10001,
            c.session_timeout == 120,
            c.idle_connection_timeout == 120,
            c.header_buffer_size == 100000,
            c.bootstrap_peer_multiaddr is None,
            c.secret_key is None,
            c.is_valid(),
    {
        NetworkConfig {
            tcp_port: 10000,
            quic_port: 10001,
            session_timeout: 120,
            idle_connection_timeout: 120,
            header_buffer_size: 100000,
            bootstrap_peer_multiaddr: None,
            secret_key: None,
        }
    }
}

} // verus!
