//! Configuration records: where the server listens and where the client
//! connects.
use vstd::prelude::*;

verus! {

/// A host and port.
#[derive(Debug, Clone)]
pub struct NetworkConfig {
    pub host: String,
    pub port: u16,
}

/// The port used when none is configured.
pub const DEFAULT_PORT: u16 = 3100;

impl Default for NetworkConfig {
    /// All interfaces, on [`DEFAULT_PORT`].
    fn default() -> (r: NetworkConfig)
        ensures
            r.host@ == "0.0.0.0"@,
            r.port == DEFAULT_PORT,
    {
        NetworkConfig { host: String::from_str("0.0.0.0"), port: DEFAULT_PORT }
    }
}

/// The server's configuration.
#[derive(Debug, Clone)]
pub struct ServerConfig {
    pub network: NetworkConfig,
}

/// The client's configuration.
#[derive(Debug, Clone)]
pub struct ClientConfig {
    pub network: NetworkConfig,
}

impl Default for ServerConfig {
    fn default() -> (r: ServerConfig)
        ensures
            r.network.host@ == "0.0.0.0"@,
            r.network.port == DEFAULT_PORT,
    {
        ServerConfig { network: NetworkConfig::default() }
    }
}

impl Default for ClientConfig {
    fn default() -> (r: ClientConfig)
        ensures
            r.network.host@ == "0.0.0.0"@,
            r.network.port == DEFAULT_PORT,
    {
        ClientConfig { network: NetworkConfig::default() }
    }
}

impl ServerConfig {
    /// The name of the server's configuration file.
    pub fn file_name() -> (r: &'static str)
        ensures
            r@ == "server.toml"@,
    {
        "server.toml"
    }
}

impl ClientConfig {
    /// The name of the client's configuration file.
    pub fn file_name() -> (r: &'static str)
        ensures
            r@ == "client.toml"@,
    {
        "client.toml"
    }
}

/// A configuration that holds network settings.
pub trait HasNetworkConfig {
    spec fn network_spec(&self) -> NetworkConfig;

    fn network(&self) -> (r: &NetworkConfig)
        ensures
            *r == self.network_spec(),
    ;
}

impl HasNetworkConfig for ServerConfig {
    open spec fn network_spec(&self) -> NetworkConfig {
        self.network
    }

    fn network(&self) -> (r: &NetworkConfig) {
        &self.network
    }
}

impl HasNetworkConfig for ClientConfig {
    open spec fn network_spec(&self) -> NetworkConfig {
        self.network
    }

    fn network(&self) -> (r: &NetworkConfig) {
        &self.network
    }
}

} // verus!
