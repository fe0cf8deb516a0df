//! The configuration of the daemon.

use crate::error::{InputError, OrcError};
use vstd::prelude::*;

verus! {

/// The lowest port that the daemon may listen on.
pub const MIN_PORT: u16 = 1024;

/// The highest port that the daemon may listen on.
pub const MAX_PORT: u16 = 65535;

/// The port that the daemon listens on unless it is told otherwise.
pub const DEFAULT_LISTEN_PORT: u16 = 49000;

/// The configuration of the daemon.
#[derive(Debug, Clone, Copy, PartialEq, Eq, Structural)]
pub struct DaemonConfig {
    pub listen_port: u16,
}

/// The port that the daemon listens on unless it is told otherwise.
pub fn default_listen_port() -> (port: u16)
    ensures
        port == DEFAULT_LISTEN_PORT,
{
    DEFAULT_LISTEN_PORT
}

impl Default for DaemonConfig {
    fn default() -> (c: Self)
        ensures
            c.listen_port == DEFAULT_LISTEN_PORT,
    {
        DaemonConfig { listen_port: default_listen_port() }
    }
}

/// Accepts a configuration whose port lies between [`MIN_PORT`] and
/// [`MAX_PORT`].
pub fn validate_config(config: &DaemonConfig) -> (r: Result<(), OrcError>)
    ensures
        r == if MIN_PORT <= config.listen_port <= MAX_PORT {
            Ok::<(), OrcError>(())
        } else {
            Err(OrcError::InvalidInput(InputError::InvalidPort))
        },
{
    if config.listen_port < MIN_PORT || config.listen_port > MAX_PORT {
        return Err(OrcError::InvalidInput(InputError::InvalidPort));
    }
    Ok(())
}

} // verus!
