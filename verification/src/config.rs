//! The settings a machine node is started with, and what starting a node
//! with them sets up.
use vstd::prelude::*;

use crate::text::{decimal_chars, u64_to_decimal};

verus! {

/// beemesh host agent settings.
#[derive(Debug, Clone)]
pub struct Cli {
    /// Store keypair in memory only (ephemeral node).
    pub ephemeral: bool,
    /// Host address for REST API.
    pub rest_api_host: String,
    /// Port for REST API.
    pub rest_api_port: u16,
    /// Disable REST API server.
    pub disable_rest_api: bool,
    /// Disable machine API server.
    pub disable_machine_api: bool,
    /// Custom node name (optional).
    pub node_name: Option<String>,
    /// Socket of the machine API.
    pub api_socket: Option<String>,
    /// Directory to store machine keypair.
    pub key_dir: String,
    /// Bootstrap peer addresses for explicit peer discovery.
    pub bootstrap_peer: Vec<String>,
    /// Port for libp2p TCP transport (0 for auto-assignment).
    pub libp2p_tcp_port: u16,
    /// Port for libp2p UDP/QUIC transport (0 for auto-assignment).
    pub libp2p_quic_port: u16,
    /// Host address for libp2p listeners.
    pub libp2p_host: String,
}

impl Default for Cli {
    /// The settings when no flag is given.
    fn default() -> (c: Self)
        ensures
            !c.ephemeral,
            c.rest_api_host@ == "127.0.0.1"@,
            c.rest_api_port == 3000,
            !c.disable_rest_api,
            !c.disable_machine_api,
            c.node_name is None,
            c.api_socket matches Some(s) && s@ == "/run/beemesh/host.sock"@,
            c.key_dir@ == "/etc/beemesh/machine"@,
            c.bootstrap_peer@.len() == 0,
            c.libp2p_tcp_port == 0,
            c.libp2p_quic_port == 0,
            c.libp2p_host@ == "0.0.0.0"@,
    {
        Cli {
            ephemeral: false,
            rest_api_host: String::from_str("127.0.0.1"),
            rest_api_port: 3000,
            disable_rest_api: false,
            disable_machine_api: false,
            node_name: None,
            api_socket: Some(String::from_str("/run/beemesh/host.sock")),
            key_dir: String::from_str("/etc/beemesh/machine"),
            bootstrap_peer: Vec::new(),
            libp2p_tcp_port: 0,
            libp2p_quic_port: 0,
            libp2p_host: String::from_str("0.0.0.0"),
        }
    }
}


/// What a node started with some settings sets up: the shared keystore
/// name (ephemeral nodes only), whether its keys live in memory only, the
/// address of its REST server (if it runs one) and the socket of its
/// machine API (if it serves one).
#[derive(Debug, Clone)]
pub struct StartupPlan {
    pub keystore_shared_name: Option<String>,
    pub ephemeral_keys: bool,
    pub rest_bind_addr: Option<String>,
    pub host_api_socket: Option<String>,
}

/// The shared keystore name of an ephemeral node: `node_<REST port>`.
pub open spec fn shared_name_text(port: u16) -> Seq<char> {
    "node_"@ + decimal_chars(port as nat)
}

impl Cli {
    /// What starting a node with these settings sets up.
    pub fn startup_plan(&self) -> (p: StartupPlan)
        ensures
            p.ephemeral_keys == self.ephemeral,
            match p.keystore_shared_name {
                Some(n) => self.ephemeral && n@ == shared_name_text(self.rest_api_port),
                None => !self.ephemeral,
            },
            match p.rest_bind_addr {
                Some(a) => !self.disable_rest_api && a@ == self.rest_api_host@ + ":"@ + decimal_chars(
                    self.rest_api_port as nat,
                ),
                None => self.disable_rest_api,
            },
            match p.host_api_socket {
                Some(s) => !self.disable_machine_api && (self.api_socket matches Some(t) && s@ == t@),
                None => self.disable_machine_api || self.api_socket is None,
            },
    {
        let keystore_shared_name = if self.ephemeral {
            Some(String::from_str("node_").concat(u64_to_decimal(self.rest_api_port as u64).as_str()))
        } else {
            None
        };
        let rest_bind_addr = if self.disable_rest_api {
            None
        } else {
            Some(
                self.rest_api_host.clone().concat(":").concat(
                    u64_to_decimal(self.rest_api_port as u64).as_str(),
                ),
            )
        };
        let host_api_socket = if self.disable_machine_api {
            None
        } else {
            match &self.api_socket {
                Some(s) => Some(s.clone()),
                None => None,
            }
        };
        StartupPlan {
            keystore_shared_name,
            ephemeral_keys: self.ephemeral,
            rest_bind_addr,
            host_api_socket,
        }
    }
}

} // verus!
