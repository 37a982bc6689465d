//! The configuration of the remote service, and the store that keeps it.
//! The store is a value: what it holds is written to disk by its owner.

use vstd::prelude::*;
use crate::text::{trim, trim_end_matches, trimmed, without_trailing};

verus! {

/// The name of the directory, inside the user's configuration directory,
/// that holds the configuration file.
pub const CONFIG_DIR_NAME: &'static str = "CodeSensei";

/// The name of the configuration file.
pub const CONFIG_FILE_NAME: &'static str = "opencode-config.json";

/// Where the remote service is and how to sign in to it.
#[derive(Debug, Clone, PartialEq, Eq)]
pub struct OpenCodeConfig {
    pub server_url: String,
    pub username: String,
    pub password: Option<String>,
    pub default_provider: Option<String>,
    pub default_model: Option<String>,
}

/// The mathematical value of a configuration.
pub struct ConfigModel {
    pub server_url: Seq<char>,
    pub username: Seq<char>,
    pub password: Option<Seq<char>>,
    pub default_provider: Option<Seq<char>>,
    pub default_model: Option<Seq<char>>,
}

impl View for OpenCodeConfig {
    type V = ConfigModel;

    open spec fn view(&self) -> ConfigModel {
        ConfigModel {
            server_url: self.server_url@,
            username: self.username@,
            password: self.password.deep_view(),
            default_provider: self.default_provider.deep_view(),
            default_model: self.default_model.deep_view(),
        }
    }
}

/// The configuration of a first run: a local service, the user `opencode`,
/// no password and no defaults.
pub open spec fn default_config() -> ConfigModel {
    ConfigModel {
        server_url: "http://localhost:4096"@,
        username: "opencode"@,
        password: None,
        default_provider: None,
        default_model: None,
    }
}

/// A copy of an optional text.
pub fn copy_of(text: &Option<String>) -> (r: Option<String>)
    ensures
        r.deep_view() == text.deep_view(),
{
    match text {
        Some(t) => Some(t.clone()),
        None => None,
    }
}

impl Default for OpenCodeConfig {
    fn default() -> (r: OpenCodeConfig)
        ensures
            r@ == default_config(),
    {
        OpenCodeConfig {
            server_url: String::from_str("http://localhost:4096"),
            username: String::from_str("opencode"),
            password: None,
            default_provider: None,
            default_model: None,
        }
    }
}

impl OpenCodeConfig {
    /// A copy of the configuration.
    pub fn duplicate(&self) -> (r: OpenCodeConfig)
        ensures
            r@ == self@,
    {
        OpenCodeConfig {
            server_url: self.server_url.clone(),
            username: self.username.clone(),
            password: copy_of(&self.password),
            default_provider: copy_of(&self.default_provider),
            default_model: copy_of(&self.default_model),
        }
    }
}

/// What the configuration file held when it was last read or written.
#[derive(Debug, Clone, PartialEq, Eq)]
pub enum StoredConfig {
    /// There is no file.
    Absent,
    /// The file could not be read or does not hold a configuration.
    Unreadable,
    Holds(OpenCodeConfig),
}

/// The mathematical value of a [`StoredConfig`].
pub enum StoredModel {
    Absent,
    Unreadable,
    Holds(ConfigModel),
}

impl View for StoredConfig {
    type V = StoredModel;

    open spec fn view(&self) -> StoredModel {
        match self {
            StoredConfig::Absent => StoredModel::Absent,
            StoredConfig::Unreadable => StoredModel::Unreadable,
            StoredConfig::Holds(c) => StoredModel::Holds(c@),
        }
    }
}

/// The mathematical value of a [`ConfigManager`].
pub struct ManagerModel {
    pub config_path: Seq<char>,
    pub stored: StoredModel,
    /// Whether the store holds a configuration that is not yet on disk.
    pub unsaved: bool,
}

impl ManagerModel {
    /// The configuration that the store gives out: the one it holds, else
    /// the default.
    pub open spec fn config(self) -> ConfigModel {
        match self.stored {
            StoredModel::Holds(c) => c,
            _ => default_config(),
        }
    }

    /// The store after its configuration was asked for: a store without a
    /// file takes up the default, to be written.
    pub open spec fn loaded(self) -> ManagerModel {
        match self.stored {
            StoredModel::Absent => ManagerModel {
                stored: StoredModel::Holds(default_config()),
                unsaved: true,
                ..self
            },
            _ => self,
        }
    }

    /// The store after `config` was saved to it.
    pub open spec fn saved(self, config: ConfigModel) -> ManagerModel {
        ManagerModel { stored: StoredModel::Holds(config), unsaved: true, ..self }
    }
}

/// The store of the configuration.
pub struct ConfigManager {
    config_path: String,
    stored: StoredConfig,
    unsaved: bool,
}

impl View for ConfigManager {
    type V = ManagerModel;

    closed spec fn view(&self) -> ManagerModel {
        ManagerModel { config_path: self.config_path@, stored: self.stored@, unsaved: self.unsaved }
    }
}

impl ConfigManager {
    /// The store for the file at `config_path`, which held `stored` when it
    /// was read.
    pub fn new(config_path: String, stored: StoredConfig) -> (manager: ConfigManager)
        ensures
            manager@ == (ManagerModel { config_path: config_path@, stored: stored@, unsaved: false }),
    {
        ConfigManager { config_path, stored, unsaved: false }
    }

    /// The configuration in force. Where there is no file yet, the default
    /// is taken up and is to be written.
    pub fn load_config(&mut self) -> (config: OpenCodeConfig)
        ensures
            config@ == old(self)@.config(),
            final(self)@ == old(self)@.loaded(),
    {
        match &self.stored {
            StoredConfig::Holds(c) => c.duplicate(),
            StoredConfig::Unreadable => OpenCodeConfig::default(),
            StoredConfig::Absent => {
                self.stored = StoredConfig::Holds(OpenCodeConfig::default());
                self.unsaved = true;
                OpenCodeConfig::default()
            },
        }
    }

    /// Puts `config` in force; it is to be written.
    pub fn save_config(&mut self, config: &OpenCodeConfig)
        ensures
            final(self)@ == old(self)@.saved(config@),
    {
        self.stored = StoredConfig::Holds(config.duplicate());
        self.unsaved = true;
    }

    /// Sets the address of the service, without white space around it and
    /// without slashes at its end.
    pub fn update_server_url(&mut self, url: String)
        ensures
            final(self)@ == old(self)@.saved(
                ConfigModel {
                    server_url: without_trailing(trimmed(url@), '/'),
                    ..old(self)@.config()
                },
            ),
    {
        let mut config = self.load_config();
        let bare = trim(url.as_str());
        config.server_url = trim_end_matches(bare.as_str(), '/');
        self.save_config(&config)
    }

    /// Sets the user and the password.
    pub fn update_auth(&mut self, username: String, password: Option<String>)
        ensures
            final(self)@ == old(self)@.saved(
                ConfigModel {
                    username: username@,
                    password: password.deep_view(),
                    ..old(self)@.config()
                },
            ),
    {
        let mut config = self.load_config();
        config.username = username;
        config.password = password;
        self.save_config(&config)
    }

    /// Sets the default provider and model.
    pub fn update_provider(&mut self, provider: Option<String>, model: Option<String>)
        ensures
            final(self)@ == old(self)@.saved(
                ConfigModel {
                    default_provider: provider.deep_view(),
                    default_model: model.deep_view(),
                    ..old(self)@.config()
                },
            ),
    {
        let mut config = self.load_config();
        config.default_provider = provider;
        config.default_model = model;
        self.save_config(&config)
    }

    /// The path of the configuration file.
    pub fn config_path(&self) -> (path: &String)
        ensures
            path@ == self@.config_path,
    {
        &self.config_path
    }

    /// The configuration that is to be written to the file, if any.
    pub fn unsaved(&self) -> (config: Option<&OpenCodeConfig>)
        ensures
            match config {
                Some(c) => self@.unsaved && self@.stored == StoredModel::Holds(c@),
                None => !self@.unsaved || !(self@.stored is Holds),
            },
    {
        if self.unsaved {
            match &self.stored {
                StoredConfig::Holds(c) => Some(c),
                _ => None,
            }
        } else {
            None
        }
    }

    /// Records that what the store holds is on disk.
    pub fn mark_saved(&mut self)
        ensures
            final(self)@ == (ManagerModel { unsaved: false, ..old(self)@ }),
    {
        self.unsaved = false;
    }
}

/// Puts a store in the place of the one in `manager`, if any.
pub fn init_config_manager(manager: &mut Option<ConfigManager>, config_path: String, stored: StoredConfig)
    ensures
        (*final(manager)) matches Some(m) && m@ == (ManagerModel {
            config_path: config_path@,
            stored: stored@,
            unsaved: false,
        }),
{
    *manager = Some(ConfigManager::new(config_path, stored));
}

/// The configuration in force: the default where there is no store.
pub fn get_config(manager: &mut Option<ConfigManager>) -> (config: OpenCodeConfig)
    ensures
        match *old(manager) {
            Some(m) => config@ == m@.config() && (*final(manager)) is Some && (*final(manager))->0@ == m@.loaded(),
            None => config@ == default_config() && (*final(manager)) is None,
        },
{
    match manager {
        Some(m) => m.load_config(),
        None => OpenCodeConfig::default(),
    }
}

/// The message for a store that was never set up.
pub open spec fn not_initialized() -> Seq<char> {
    "配置管理器未初始化"@
}

/// Saves `config` to the store, or fails where there is none.
pub fn save_config(manager: &mut Option<ConfigManager>, config: &OpenCodeConfig) -> (r: Result<(), String>)
    ensures
        match *old(manager) {
            Some(m) => r is Ok && (*final(manager)) is Some && (*final(manager))->0@ == m@.saved(config@),
            None => r is Err && r->Err_0@ == not_initialized() && (*final(manager)) is None,
        },
{
    match manager {
        Some(m) => {
            m.save_config(config);
            Ok(())
        },
        None => Err(String::from_str("配置管理器未初始化")),
    }
}

/// Keeps an API key. The key is managed outside this program, so there is
/// nothing to do, and nothing that can fail.
pub fn save_api_key(_api_key: String) -> (r: Result<(), String>)
    ensures
        r is Ok,
{
    Ok(())
}

} // verus!
