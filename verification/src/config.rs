//! The versioned runner configuration.
//!
//! The crate and the Bun runner exchange one v1 JSON document: the runner
//! passes `initialState` through to Simulacat Core, binds the requested
//! loopback host on an ephemeral port, and reports the selected port back
//! over stdout. This module builds that document; writing it out as JSON
//! into the owned temporary directory happens at the I/O edge.

use vstd::prelude::*;

verus! {

/// App ID seeded into the simulator state.
pub const SEED_APP_ID: u64 = 1;

/// Installation ID seeded into the simulator state.
pub const SEED_INSTALLATION_ID: u64 = 2000;

/// The account and organization login of the seeded installation.
pub const SEED_ACCOUNT: &'static str = "rentaneko";

/// The name of the configuration file in the owned temporary directory.
pub const CONFIG_FILE_NAME: &'static str = "config.json";

/// The v1 runner configuration document.
#[derive(Debug)]
pub struct RunnerConfig {
    pub version: u32,
    pub initial_state: InitialState,
    pub bind: Bind,
}

/// The state passed through to Simulacat Core.
#[derive(Debug)]
pub struct InitialState {
    pub users: Vec<Empty>,
    pub installations: Vec<Installation>,
    pub organizations: Vec<Organization>,
    pub repositories: Vec<Empty>,
    pub branches: Vec<Empty>,
    pub blobs: Vec<Empty>,
}

/// A GitHub App installation row.
#[derive(Debug)]
pub struct Installation {
    pub id: u64,
    pub account: String,
    pub app_id: u64,
}

/// An organization row.
#[derive(Debug)]
pub struct Organization {
    pub login: String,
}

/// The listener the runner binds.
#[derive(Debug)]
pub struct Bind {
    pub host: String,
    pub port: u16,
}

/// A placeholder for the intentionally empty seed collections: the seed
/// carries no users, repositories, branches, or blobs, but the runner still
/// expects the keys to be present as empty arrays.
#[derive(Debug)]
pub struct Empty {}

impl RunnerConfig {
    /// The configuration satisfies the v1 contract of the runner: version
    /// `1`, bound to the loopback host on port `0` so that the runner owns
    /// port selection.
    pub open spec fn satisfies_v1_contract(&self) -> bool {
        &&& self.version == 1
        &&& self.bind.host@ == "127.0.0.1"@
        &&& self.bind.port == 0
    }

    /// The configuration is the minimal seed: one installation of the
    /// seeded app, the one organization row that shapes its token payload,
    /// and every other collection empty.
    pub open spec fn is_seed(&self) -> bool {
        let state = self.initial_state;
        &&& self.satisfies_v1_contract()
        &&& state.users@.len() == 0
        &&& state.installations@.len() == 1
        &&& state.installations@[0].id == SEED_INSTALLATION_ID
        &&& state.installations@[0].account@ == SEED_ACCOUNT@
        &&& state.installations@[0].app_id == SEED_APP_ID
        &&& state.organizations@.len() == 1
        &&& state.organizations@[0].login@ == SEED_ACCOUNT@
        &&& state.repositories@.len() == 0
        &&& state.branches@.len() == 0
        &&& state.blobs@.len() == 0
    }

    /// Builds the minimal seed. The single `organizations` row is needed
    /// because Simulacat Core requires it to shape the installation-token
    /// payload.
    pub fn seed() -> (config: Self)
        ensures
            config.is_seed(),
    {
        let mut installations = Vec::new();
        installations.push(
            Installation {
                id: SEED_INSTALLATION_ID,
                account: SEED_ACCOUNT.to_owned(),
                app_id: SEED_APP_ID,
            },
        );
        let mut organizations = Vec::new();
        organizations.push(Organization { login: SEED_ACCOUNT.to_owned() });
        RunnerConfig {
            version: 1,
            initial_state: InitialState {
                users: Vec::new(),
                installations,
                organizations,
                repositories: Vec::new(),
                branches: Vec::new(),
                blobs: Vec::new(),
            },
            bind: Bind { host: "127.0.0.1".to_owned(), port: 0 },
        }
    }
}

} // verus!
