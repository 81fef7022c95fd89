//! Start-up configuration and the data of the boot event.
use vstd::prelude::*;

verus! {

/// The port the remote API listens on unless told otherwise.
pub const DEFAULT_PORT: u16 = 7878;

/// The engine's command-line configuration.
pub struct GlobalConfig {
    /// Run without a window.
    pub headless: bool,
    /// The port of the remote API.
    pub port: u16,
}

impl Default for GlobalConfig {
    /// The configuration when no option is given: with a window, on the
    /// default port.
    fn default() -> (config: Self)
        ensures
            !config.headless,
            config.port == DEFAULT_PORT,
    {
        GlobalConfig { headless: false, port: DEFAULT_PORT }
    }
}

/// What the boot-ready event reports.
pub struct OnGameBootReadyEventData {
    pub headless: bool,
}

} // verus!
