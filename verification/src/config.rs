//! Application configuration handed in by any entry point.

use vstd::prelude::*;
use crate::network::Network;

verus! {

/// What the application should show: a network to visualize, or the
/// demonstration scene when none is given.
#[derive(Debug)]
pub struct AppConfig {
    pub network: Option<Network>,
}

impl AppConfig {
    /// A config showing the demonstration scene.
    pub fn new() -> (c: AppConfig)
        ensures
            c.network is None,
    {
        AppConfig { network: None }
    }

    /// A config showing the given network.
    pub fn with_network(network: Network) -> (c: AppConfig)
        ensures
            c.network == Some(network),
    {
        AppConfig { network: Some(network) }
    }
}

} // verus!
