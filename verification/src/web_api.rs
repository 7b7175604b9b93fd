use vstd::prelude::*;
use crate::configuration::network::NetworkConfig;

verus! {

/// The flag value the administrative surface reads and writes.
#[derive(Debug, Clone, Copy, PartialEq, Eq, Structural)]
pub struct BlockingEnabled(pub bool);

/// The network settings the administrative surface may change: the TLS
/// paths and the listen URL are not settable there and come from the
/// current configuration.
#[derive(Debug, Clone, PartialEq, Eq)]
pub struct NetworkConfigRequest {
    /// Bind address for both listeners.
    pub bind_addr: String,
    /// Port of the proxy listener.
    pub proxy_port: u16,
    /// Port of the web listener.
    pub web_port: u16,
    /// Whether the web listener uses TLS.
    pub tls: bool,
}

impl From<NetworkConfigRequest> for NetworkConfig {
    /// The request as a configuration, paths and listen URL unset.
    fn from(req: NetworkConfigRequest) -> (r: NetworkConfig) {
        NetworkConfig {
            bind_addr: req.bind_addr,
            proxy_port: req.proxy_port,
            web_port: req.web_port,
            tls: req.tls,
            tls_cert_path: None,
            tls_key_path: None,
            listen_url: None,
        }
    }
}

impl vstd::std_specs::convert::FromSpecImpl<NetworkConfigRequest> for NetworkConfig {
    open spec fn obeys_from_spec() -> bool {
        true
    }

    open spec fn from_spec(req: NetworkConfigRequest) -> NetworkConfig {
        NetworkConfig {
            bind_addr: req.bind_addr,
            proxy_port: req.proxy_port,
            web_port: req.web_port,
            tls: req.tls,
            tls_cert_path: None,
            tls_key_path: None,
            listen_url: None,
        }
    }
}

} // verus!
