//! The configuration of the tool, and the secrets that its environment holds.

use crate::text::{blank, is_blank};
use vstd::prelude::*;
use vstd::string::*;

verus! {

/// How to authenticate with the console.
#[derive(Debug, Clone, Copy, PartialEq, Eq, Structural)]
pub enum AuthMethod {
    /// By API key where there is one, else by password.
    Auto,
    /// By API key.
    ApiKey,
    /// By user name and password.
    Password,
}

/// The settings of the tool.
#[derive(Debug, Clone)]
pub struct Config {
    /// Base URL of the console.
    pub controller: String,
    pub auth_method: AuthMethod,
    /// Environment variable that holds the API key.
    pub api_key_env: String,
    /// Environment variable that holds the user name.
    pub username_env: String,
    /// Environment variable that holds the password.
    pub password_env: String,
    /// Kind of storage to archive to.
    pub archive_destination: String,
    /// Host of the storage.
    pub archive_host: String,
    /// Share of the storage.
    pub archive_shared_drive: String,
    /// Ids or names of the cameras to archive; empty for all cameras.
    pub camera_ids: Vec<String>,
    /// Length of one archive.
    pub segment_seconds: u64,
    /// How far back a pass without a range reaches.
    pub lookback_seconds: u64,
    /// How old footage must be for a pass without a range.
    pub minimum_age_seconds: u64,
    /// Delay between two passes.
    pub poll_seconds: u64,
    /// Delay between two looks at the pending archives.
    pub archive_status_poll_seconds: u64,
    /// Whether a pass waits for each archive before the next one.
    pub wait_for_archive_completion: bool,
    /// Whether archived footage is deleted from the console.
    pub delete_after_archive: bool,
    /// Confirms the deletion.
    pub delete_after_archive_confirmation: String,
    /// Whether the certificate of the console is verified.
    pub verify_tls: bool,
}

/// A user name and its password.
#[derive(Debug, Clone)]
pub struct Credentials {
    pub username: String,
    pub password: String,
}

/// Why the environment does not give what the configuration asks of it.
#[derive(Debug, Clone)]
pub enum ConfigError {
    /// The variable holds no credential, nor does its alternative hold an API key.
    MissingCredential { api_key_env: String, variable: String, reason: String },
}

impl ConfigError {
    /// The text shown for the error.
    pub open spec fn message(&self) -> Seq<char> {
        match self {
            ConfigError::MissingCredential { api_key_env, variable, .. } =>
                "set $"@ + api_key_env@ + " or $"@ + variable@,
        }
    }

    /// The text shown for the error.
    pub fn to_string(&self) -> (result: String)
        ensures
            result@ == self.message(),
    {
        match self {
            ConfigError::MissingCredential { api_key_env, variable, .. } =>
                "set $".to_owned().concat(api_key_env.as_str()).concat(" or $").concat(
                    variable.as_str(),
                ),
        }
    }

    /// The text of what caused the error.
    pub fn cause(&self) -> (result: Option<String>)
        ensures
            result matches Some(told) && told == self->MissingCredential_reason,
    {
        match self {
            ConfigError::MissingCredential { reason, .. } => Some(reason.clone()),
        }
    }
}

impl Config {
    /// The settings that hold where a configuration says nothing else.
    pub open spec fn has_defaults_but_tls(self) -> bool {
        &&& self.controller@ == "https://unifi-console.example.invalid"@
        &&& self.auth_method == AuthMethod::Auto
        &&& self.api_key_env@ == "UNIFI_PROTECT_API_KEY"@
        &&& self.username_env@ == "UNIFI_PROTECT_USERNAME"@
        &&& self.password_env@ == "UNIFI_PROTECT_PASSWORD"@
        &&& self.archive_destination@ == "NAS"@
        &&& self.archive_host@ == "nas.example.invalid"@
        &&& self.archive_shared_drive@ == "ProtectArchive"@
        &&& self.camera_ids@ == Seq::<String>::empty()
        &&& self.segment_seconds == 900
        &&& self.lookback_seconds == 3600
        &&& self.minimum_age_seconds == 120
        &&& self.poll_seconds == 300
        &&& self.archive_status_poll_seconds == 15
        &&& self.wait_for_archive_completion
        &&& !self.delete_after_archive
        &&& self.delete_after_archive_confirmation@ == Seq::<char>::empty()
    }
}

impl Default for Config {
    fn default() -> (result: Self)
        ensures
            result.has_defaults_but_tls(),
            result.verify_tls,
    {
        Config {
            controller: "https://unifi-console.example.invalid".to_owned(),
            auth_method: AuthMethod::Auto,
            api_key_env: "UNIFI_PROTECT_API_KEY".to_owned(),
            username_env: "UNIFI_PROTECT_USERNAME".to_owned(),
            password_env: "UNIFI_PROTECT_PASSWORD".to_owned(),
            archive_destination: "NAS".to_owned(),
            archive_host: "nas.example.invalid".to_owned(),
            archive_shared_drive: "ProtectArchive".to_owned(),
            camera_ids: Vec::new(),
            segment_seconds: 15 * 60,
            lookback_seconds: 60 * 60,
            minimum_age_seconds: 2 * 60,
            poll_seconds: 5 * 60,
            archive_status_poll_seconds: 15,
            wait_for_archive_completion: true,
            delete_after_archive: false,
            delete_after_archive_confirmation: String::new(),
            verify_tls: true,
        }
    }
}

impl Config {
    /// The configuration to start from: the defaults, for a console with a certificate of its own.
    pub fn sample() -> (result: Config)
        ensures
            result.has_defaults_but_tls(),
            !result.verify_tls,
    {
        Config { verify_tls: false, ..Config::default() }
    }

    /// The API key, given what the variable `api_key_env` holds: a blank value is none.
    pub fn api_key(&self, value: Option<String>) -> (result: Option<String>)
        ensures
            result == (match value {
                Some(key) => if blank(key@) { None } else { Some(key) },
                None => None,
            }),
    {
        match value {
            Some(key) => if is_blank(key.as_str()) { None } else { Some(key) },
            None => None,
        }
    }

    /// The credentials, given what the variables `username_env` and `password_env` hold, or why they
    /// hold nothing.
    pub fn credentials(
        &self,
        username: Result<String, String>,
        password: Result<String, String>,
    ) -> (result: Result<Credentials, ConfigError>)
        ensures
            result == (match (username, password) {
                (Err(reason), _) => Err(
                    ConfigError::MissingCredential {
                        api_key_env: self.api_key_env,
                        variable: self.username_env,
                        reason,
                    },
                ),
                (Ok(_), Err(reason)) => Err(
                    ConfigError::MissingCredential {
                        api_key_env: self.api_key_env,
                        variable: self.password_env,
                        reason,
                    },
                ),
                (Ok(username), Ok(password)) => Ok(Credentials { username, password }),
            }),
    {
        match (username, password) {
            (Err(reason), _) => Err(
                ConfigError::MissingCredential {
                    api_key_env: self.api_key_env.clone(),
                    variable: self.username_env.clone(),
                    reason,
                },
            ),
            (Ok(_), Err(reason)) => Err(
                ConfigError::MissingCredential {
                    api_key_env: self.api_key_env.clone(),
                    variable: self.password_env.clone(),
                    reason,
                },
            ),
            (Ok(username), Ok(password)) => Ok(Credentials { username, password }),
        }
    }
}

} // verus!
