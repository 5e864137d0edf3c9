//! The app's configuration and the store that holds the current one.
use vstd::prelude::*;

use std::sync::Arc;

verus! {

/// Settings of the diff view.
#[derive(Clone, Debug, PartialEq, Eq)]
pub struct DiffConfig {
    pub tree_file_list: bool,
}

/// Settings of usage statistics.
#[derive(Clone, Debug, PartialEq, Eq)]
pub struct TelemetryConfig {
    pub enabled: bool,
}

/// The external programs the app opens.
#[derive(Clone, Debug, PartialEq, Eq)]
pub struct ToolsConfig {
    pub external_editor: String,
    pub custom_editor_command: String,
    pub terminal: String,
    pub custom_terminal_command: String,
}

/// The app's configuration.
#[derive(Clone, Debug, PartialEq, Eq)]
pub struct AppConfig {
    pub diff: DiffConfig,
    pub telemetry: TelemetryConfig,
    pub tools: ToolsConfig,
}

/// The current configuration, and whether changes to it are saved to the
/// user's configuration file.
pub struct AppConfigStore {
    pub config: Arc<AppConfig>,
    persist: bool,
}

/// Another handle to the same configuration, by std's `Arc::clone`; the
/// contract claims the new handle points to an equal value (the docs: it
/// points to the same allocation).
#[verifier::external_body]
fn share(config: &Arc<AppConfig>) -> (r: Arc<AppConfig>)
    ensures
        *r == **config,
{
    Arc::clone(config)
}

impl AppConfigStore {
    /// Whether changes are saved to the user's configuration file.
    pub closed spec fn persists(&self) -> bool {
        self.persist
    }

    /// The configuration the store holds.
    pub closed spec fn held(&self) -> AppConfig {
        *self.config
    }

    /// A store whose changes are saved.
    pub fn new(config: AppConfig) -> (r: Self)
        ensures
            r.held() == config,
            r.persists(),
    {
        AppConfigStore { config: Arc::new(config), persist: true }
    }

    /// A store whose changes are never saved, for tests and previews that
    /// must not write the user's configuration file.
    pub fn new_ephemeral(config: AppConfig) -> (r: Self)
        ensures
            r.held() == config,
            !r.persists(),
    {
        AppConfigStore { config: Arc::new(config), persist: false }
    }

    /// Whether changes are saved to the user's configuration file.
    pub fn persist(&self) -> (r: bool)
        ensures
            r == self.persists(),
    {
        self.persist
    }
}

/// The current configuration.
pub fn current(store: &AppConfigStore) -> (r: Arc<AppConfig>)
    ensures
        *r == store.held(),
{
    share(&store.config)
}

/// Makes `next` the current configuration; the result says whether it is to
/// be saved to the user's configuration file.
pub fn update(store: &mut AppConfigStore, next: AppConfig) -> (save: bool)
    ensures
        final(store).held() == next,
        final(store).persists() == old(store).persists(),
        save == old(store).persists(),
{
    store.config = Arc::new(next);
    store.persist
}

/// Switches the diff's file list between tree and flat.
pub fn toggle_tree_file_list(config: &mut AppConfig)
    ensures
        final(config).diff.tree_file_list == !old(config).diff.tree_file_list,
        final(config).telemetry == old(config).telemetry,
        final(config).tools == old(config).tools,
{
    config.diff.tree_file_list = !config.diff.tree_file_list;
}

/// Switches anonymous usage statistics on or off.
pub fn toggle_telemetry(config: &mut AppConfig)
    ensures
        final(config).telemetry.enabled == !old(config).telemetry.enabled,
        final(config).diff == old(config).diff,
        final(config).tools == old(config).tools,
{
    config.telemetry.enabled = !config.telemetry.enabled;
}

/// Toggling a setting twice gives back the configuration it started from.
pub proof fn law_toggle_twice_restores(c: AppConfig, once: AppConfig, twice: AppConfig)
    requires
        once.diff.tree_file_list == !c.diff.tree_file_list,
        once.telemetry == c.telemetry,
        once.tools == c.tools,
        twice.diff.tree_file_list == !once.diff.tree_file_list,
        twice.telemetry == once.telemetry,
        twice.tools == once.tools,
    ensures
        twice == c,
{
}

} // verus!
