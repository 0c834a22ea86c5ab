//! Tests of the seed runner configuration.

use rentaneko::{RunnerConfig, CONFIG_FILE_NAME, SEED_APP_ID, SEED_INSTALLATION_ID};

#[test]
fn seed_holds_one_installation_and_one_organization() {
    let config = RunnerConfig::seed();
    assert_eq!(config.version, 1);
    let state = &config.initial_state;
    assert!(state.users.is_empty());
    assert_eq!(state.installations.len(), 1);
    assert_eq!(state.installations[0].id, 2000);
    assert_eq!(state.installations[0].id, SEED_INSTALLATION_ID);
    assert_eq!(state.installations[0].account, "rentaneko");
    assert_eq!(state.installations[0].app_id, 1);
    assert_eq!(state.installations[0].app_id, SEED_APP_ID);
    assert_eq!(state.organizations.len(), 1);
    assert_eq!(state.organizations[0].login, "rentaneko");
    assert!(state.repositories.is_empty());
    assert!(state.branches.is_empty());
    assert!(state.blobs.is_empty());
}

#[test]
fn seed_binds_the_loopback_host_on_port_zero() {
    let config = RunnerConfig::seed();
    assert_eq!(config.bind.host, "127.0.0.1");
    assert_eq!(config.bind.port, 0);
    assert_eq!(CONFIG_FILE_NAME, "config.json");
}
