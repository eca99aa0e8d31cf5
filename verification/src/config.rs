//! Settings of the service and how they are read from the environment's variables.

use crate::utils::text::{copy_optional_text, parse_unsigned, parsed_unsigned};
use vstd::prelude::*;
use vstd::string::*;

verus! {

/// The settings of the service.
#[derive(Debug, PartialEq, Eq)]
pub struct Config {
    pub database_url: String,
    pub bind_address: String,
    pub port: u16,
    pub base_url: String,
    pub static_dir: String,
    pub template_dir: String,
    pub max_upload_size: usize,
    pub bugzilla_url: String,
    pub email: EmailConfig,
}

/// The settings for outgoing mail.
#[derive(Debug, PartialEq, Eq)]
pub struct EmailConfig {
    pub host: String,
    pub port: u16,
    pub username: Option<String>,
    pub password: Option<String>,
    pub from_address: String,
}

/// Why the settings could not be read.
#[derive(Clone, Copy, Debug, PartialEq, Eq)]
pub enum ConfigError {
    MissingEnvVar(&'static str),
    InvalidPort,
    InvalidEmailPort,
    InvalidUploadSize,
}

impl ConfigError {
    /// The sentence that tells a person what is wrong.
    pub open spec fn message_text(self) -> Seq<char> {
        match self {
            ConfigError::MissingEnvVar(name) => "Missing required environment variable: "@
                + name@,
            ConfigError::InvalidPort => "Invalid port number"@,
            ConfigError::InvalidEmailPort => "Invalid email port number"@,
            ConfigError::InvalidUploadSize => "Invalid upload size"@,
        }
    }

    /// The sentence that tells a person what is wrong.
    pub fn message(&self) -> (text: String)
        ensures
            text@ == self.message_text(),
    {
        match self {
            ConfigError::MissingEnvVar(name) => {
                let mut text = String::from_str("Missing required environment variable: ");
                text.append(name);
                text
            },
            ConfigError::InvalidPort => String::from_str("Invalid port number"),
            ConfigError::InvalidEmailPort => String::from_str("Invalid email port number"),
            ConfigError::InvalidUploadSize => String::from_str("Invalid upload size"),
        }
    }
}

/// The values of the variables from which the settings are read, each as it was
/// found: `None` for a variable that is not set.
#[derive(Debug, PartialEq, Eq)]
pub struct ConfigVars {
    pub database_url: Option<String>,
    pub bind_address: Option<String>,
    pub port: Option<String>,
    pub base_url: Option<String>,
    pub static_dir: Option<String>,
    pub template_dir: Option<String>,
    pub max_upload_size: Option<String>,
    pub bugzilla_url: Option<String>,
    pub email_host: Option<String>,
    pub email_port: Option<String>,
    pub email_username: Option<String>,
    pub email_password: Option<String>,
    pub email_from: Option<String>,
}

/// The text of a variable, or `fallback` where the variable is not set.
pub open spec fn text_or(value: Option<String>, fallback: Seq<char>) -> Seq<char> {
    match value {
        Some(text) => text@,
        None => fallback,
    }
}

/// The port that the variables name, where they name one.
pub open spec fn port_of(value: Option<String>, fallback: Seq<char>) -> Option<nat> {
    parsed_unsigned(text_or(value, fallback), u16::MAX as nat)
}

/// The upload limit that the variables name, where they name one.
pub open spec fn upload_size_of(value: Option<String>) -> Option<nat> {
    parsed_unsigned(text_or(value, "10485760"@), usize::MAX as nat)
}

/// The first reason for which no settings can be read from `vars`, in the order in
/// which the settings are read; `None` where they can be read.
pub open spec fn first_config_error(vars: ConfigVars) -> Option<ConfigError> {
    if vars.database_url is None {
        Some(ConfigError::MissingEnvVar("DATABASE_URL"))
    } else if port_of(vars.port, "8000"@) is None {
        Some(ConfigError::InvalidPort)
    } else if vars.base_url is None {
        Some(ConfigError::MissingEnvVar("BASE_URL"))
    } else if upload_size_of(vars.max_upload_size) is None {
        Some(ConfigError::InvalidUploadSize)
    } else if port_of(vars.email_port, "587"@) is None {
        Some(ConfigError::InvalidEmailPort)
    } else if vars.email_from is None {
        Some(ConfigError::MissingEnvVar("EMAIL_FROM"))
    } else {
        None
    }
}

/// Whether `config` holds the settings that `vars` names, with the defaults for what
/// `vars` leaves out.
pub open spec fn is_config_of(config: Config, vars: ConfigVars) -> bool {
    &&& Some(config.database_url) == vars.database_url
    &&& config.bind_address@ == text_or(vars.bind_address, "127.0.0.1"@)
    &&& Some(config.port as nat) == port_of(vars.port, "8000"@)
    &&& Some(config.base_url) == vars.base_url
    &&& config.static_dir@ == text_or(vars.static_dir, "./static"@)
    &&& config.template_dir@ == text_or(vars.template_dir, "./templates"@)
    &&& Some(config.max_upload_size as nat) == upload_size_of(vars.max_upload_size)
    &&& config.bugzilla_url@ == text_or(vars.bugzilla_url, "https://bugzilla.yoctoproject.org"@)
    &&& config.email.host@ == text_or(vars.email_host, "localhost"@)
    &&& Some(config.email.port as nat) == port_of(vars.email_port, "587"@)
    &&& config.email.username == vars.email_username
    &&& config.email.password == vars.email_password
    &&& Some(config.email.from_address) == vars.email_from
}

fn value_or(value: &Option<String>, fallback: &str) -> (text: String)
    ensures
        text@ == text_or(*value, fallback@),
{
    match value {
        Some(text) => text.clone(),
        None => fallback.to_owned(),
    }
}

fn read_port(value: &Option<String>, fallback: &str) -> (port: Option<u16>)
    ensures
        port matches Some(p) ==> port_of(*value, fallback@) == Some(p as nat),
        port is None ==> port_of(*value, fallback@) is None,
{
    let text = value_or(value, fallback);
    match parse_unsigned(text.as_str(), u16::MAX as u64) {
        Some(number) => Some(number as u16),
        None => None,
    }
}

fn read_upload_size(value: &Option<String>) -> (size: Option<usize>)
    ensures
        size matches Some(s) ==> upload_size_of(*value) == Some(s as nat),
        size is None ==> upload_size_of(*value) is None,
{
    let text = value_or(value, "10485760");
    match parse_unsigned(text.as_str(), usize::MAX as u64) {
        Some(number) => Some(number as usize),
        None => None,
    }
}

impl Config {
    /// Reads the settings from the values of the variables. A variable that is not
    /// set takes its default, but for the database URL, the base URL and the sender's
    /// address, which have none.
    pub fn from_vars(vars: &ConfigVars) -> (made: Result<Config, ConfigError>)
        ensures
            match made {
                Ok(config) => first_config_error(*vars) is None && is_config_of(config, *vars),
                Err(error) => first_config_error(*vars) == Some(error),
            },
    {
        let database_url = match &vars.database_url {
            Some(text) => text.clone(),
            None => {
                return Err(ConfigError::MissingEnvVar("DATABASE_URL"));
            },
        };
        let bind_address = value_or(&vars.bind_address, "127.0.0.1");
        let port = match read_port(&vars.port, "8000") {
            Some(port) => port,
            None => {
                return Err(ConfigError::InvalidPort);
            },
        };
        let base_url = match &vars.base_url {
            Some(text) => text.clone(),
            None => {
                return Err(ConfigError::MissingEnvVar("BASE_URL"));
            },
        };
        let static_dir = value_or(&vars.static_dir, "./static");
        let template_dir = value_or(&vars.template_dir, "./templates");
        let max_upload_size = match read_upload_size(&vars.max_upload_size) {
            Some(size) => size,
            None => {
                return Err(ConfigError::InvalidUploadSize);
            },
        };
        let bugzilla_url = value_or(&vars.bugzilla_url, "https://bugzilla.yoctoproject.org");
        let host = value_or(&vars.email_host, "localhost");
        let email_port = match read_port(&vars.email_port, "587") {
            Some(port) => port,
            None => {
                return Err(ConfigError::InvalidEmailPort);
            },
        };
        let from_address = match &vars.email_from {
            Some(text) => text.clone(),
            None => {
                return Err(ConfigError::MissingEnvVar("EMAIL_FROM"));
            },
        };
        Ok(
            Config {
                database_url,
                bind_address,
                port,
                base_url,
                static_dir,
                template_dir,
                max_upload_size,
                bugzilla_url,
                email: EmailConfig {
                    host,
                    port: email_port,
                    username: copy_optional_text(&vars.email_username),
                    password: copy_optional_text(&vars.email_password),
                    from_address,
                },
            },
        )
    }
}

} // verus!
