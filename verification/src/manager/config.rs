//! The manager's configuration file, as values.

use crate::data_core::manager_api::{ScheduleData, WorkerInfo};
use vstd::prelude::*;

verus! {

/// The whole configuration.
#[derive(Debug)]
pub struct Config {
    pub general: General,
    pub workers: Vec<WorkerInfo>,
    pub jobs: Vec<ConfigScheduleData>,
    pub player_tracking: PlayerTracking,
    pub api_settings: ApiSettings,
}

/// Where the database is, and how workers are reached.
#[derive(Clone, Debug, PartialEq, Eq)]
pub struct General {
    pub database_url: Option<String>,
    pub use_tls_for_workers: bool,
    pub manager_cert_key_path: Option<String>,
    pub manager_cert_pem_path: Option<String>,
    pub ca_cert_pem_path: Option<String>,
}

impl Default for General {
    /// No database, no TLS, no certificates.
    fn default() -> (r: General)
        ensures
            r.database_url is None,
            !r.use_tls_for_workers,
            r.manager_cert_key_path is None,
            r.manager_cert_pem_path is None,
            r.ca_cert_pem_path is None,
    {
        General {
            database_url: None,
            use_tls_for_workers: false,
            manager_cert_key_path: None,
            manager_cert_pem_path: None,
            ca_cert_pem_path: None,
        }
    }
}

/// A scheduled job of the configuration, and whether it starts when the
/// configuration is loaded.
#[derive(Debug)]
pub struct ConfigScheduleData {
    pub data: ScheduleData,
    pub run_on_load: bool,
}

/// Whether players are tracked, and how often.
#[derive(Clone, Copy, Debug, PartialEq, Eq, Structural)]
pub struct PlayerTracking {
    pub enabled: bool,
    pub interval_secs: u64,
}

impl Default for PlayerTracking {
    /// Off, every [`default_player_track_interval`] seconds.
    fn default() -> (r: PlayerTracking)
        ensures
            !r.enabled,
            r.interval_secs == 30,
    {
        PlayerTracking { enabled: false, interval_secs: default_player_track_interval() }
    }
}

/// Whether the HTTP API runs, where, and with which token.
#[derive(Clone, Debug, PartialEq, Eq)]
pub struct ApiSettings {
    pub enabled: bool,
    pub bind_address: Option<String>,
    pub use_api_token: Option<bool>,
    pub api_token: Option<String>,
}

impl Default for ApiSettings {
    /// Off, with nothing set.
    fn default() -> (r: ApiSettings)
        ensures
            !r.enabled,
            r.bind_address is None,
            r.use_api_token is None,
            r.api_token is None,
    {
        ApiSettings { enabled: false, bind_address: None, use_api_token: None, api_token: None }
    }
}

/// The value of a flag that is on unless the file says otherwise.
pub fn default_true() -> (r: bool)
    ensures
        r,
{
    true
}

/// Seconds between two rounds of player tracking, unless the file says
/// otherwise.
pub fn default_player_track_interval() -> (r: u64)
    ensures
        r == 30,
{
    30
}

} // verus!
