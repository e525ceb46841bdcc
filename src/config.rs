//! The service's configuration as a whole: where it listens, and the
//! protocol settings.
use crate::app_params::AppParams;
use vstd::prelude::*;

verus! {

/// Where the service accepts connections.
pub enum Listen {
    Tcp { addr: String },
    Unix { path: String },
}

/// The loaded configuration file.
pub struct Config {
    pub listen: Listen,
    pub app: AppParams,
}

} // verus!
