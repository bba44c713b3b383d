use vstd::prelude::*;

verus! {

/// An IP address, held as its numeric parts: the four octets of an IPv4
/// address or the eight 16-bit segments of an IPv6 address.
#[derive(Clone, Copy, Debug, PartialEq, Eq, Structural)]
pub enum IpAddress {
    V4(u8, u8, u8, u8),
    V6(u16, u16, u16, u16, u16, u16, u16, u16),
}

/// The IPv4 loopback address, 127.0.0.1.
pub open spec fn loopback_v4() -> IpAddress {
    IpAddress::V4(127, 0, 0, 1)
}

/// The port the server listens on unless it is told otherwise.
pub const DEFAULT_PORT: u16 = 8080;

/// Where the web server listens: an address and a port.
#[derive(Clone, Copy, Debug, PartialEq, Eq, Structural)]
pub struct WebServerConfig {
    pub ip: IpAddress,
    pub port: u16,
}

/// The configuration used when the application gives none: the IPv4
/// loopback address and port 8080.
pub open spec fn default_config() -> WebServerConfig {
    WebServerConfig { ip: loopback_v4(), port: DEFAULT_PORT }
}

impl Default for WebServerConfig {
    fn default() -> (config: Self)
        ensures
            config == default_config(),
    {
        WebServerConfig { ip: IpAddress::V4(127, 0, 0, 1), port: DEFAULT_PORT }
    }
}

impl WebServerConfig {
    /// The configuration the server starts with: the one the application
    /// provided, or the default where it provided none.
    pub fn chosen(provided: Option<WebServerConfig>) -> (config: WebServerConfig)
        ensures
            config == (match provided {
                Some(c) => c,
                None => default_config(),
            }),
    {
        match provided {
            Some(c) => c,
            None => WebServerConfig::default(),
        }
    }
}

} // verus!
