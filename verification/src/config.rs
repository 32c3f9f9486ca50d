//! An application's configuration and the rules it has to meet.

use crate::text::{
    chars_of, contains_text, lowercase_of, occurs_in, pieces_of, split_at_char, str_eq,
    to_lowercase, trim, trimmed,
};
use vstd::prelude::*;
use vstd::string::*;

verus! {

/// The mode an application runs in.
#[derive(Debug, Clone, Copy, PartialEq, Eq, Structural)]
pub enum Mode {
    Development,
    Production,
    Testing,
}

/// The mode that a name stands for, read without regard to case.
pub open spec fn mode_named(name: Seq<char>) -> Option<Mode> {
    let lower = lowercase_of(name);
    if lower == "development"@ {
        Some(Mode::Development)
    } else if lower == "production"@ {
        Some(Mode::Production)
    } else if lower == "testing"@ {
        Some(Mode::Testing)
    } else {
        None
    }
}

impl Mode {
    /// Reads a mode from its name, in any mix of upper and lower case.
    pub fn from_name(name: &str) -> (mode: Option<Mode>)
        ensures
            mode == mode_named(name@),
    {
        let lower = to_lowercase(name);
        if str_eq(lower.as_str(), "development") {
            Some(Mode::Development)
        } else if str_eq(lower.as_str(), "production") {
            Some(Mode::Production)
        } else if str_eq(lower.as_str(), "testing") {
            Some(Mode::Testing)
        } else {
            None
        }
    }
}

/// Settings that a configuration may leave out.
#[derive(Debug)]
pub struct Settings {
    pub theme: Option<String>,
    pub max_connections: Option<u32>,
}

impl Default for Settings {
    fn default() -> (s: Settings)
        ensures
            s.theme matches Some(theme) && theme@ == "default"@,
            s.max_connections == Some(10u32),
    {
        Settings { theme: Some("default".to_owned()), max_connections: Some(10u32) }
    }
}

#[derive(Debug)]
pub struct Config {
    pub name: Option<String>,
    pub version: Option<String>,
    pub settings: Option<Settings>,
    pub features: Option<Vec<String>>,
    pub mode: Option<Mode>,
}

/// Why a configuration is refused.
#[derive(Debug)]
pub enum ConfigError {
    EmptyName,
    EmptyVersion,
    InvalidVersion,
    EmptyFeatures,
    InvalidSettings(String),
    InvalidMode,
}

impl ConfigError {
    /// The error that stands for a decoder's complaint: a complaint that
    /// speaks of the mode is an invalid mode, any other is kept as it is.
    pub fn from_decoder_message(message: String) -> (e: ConfigError)
        ensures
            occurs_in(message@, "mode"@) ==> e matches ConfigError::InvalidMode,
            !occurs_in(message@, "mode"@) ==> e == ConfigError::InvalidSettings(message),
    {
        if contains_text(message.as_str(), "mode") {
            ConfigError::InvalidMode
        } else {
            ConfigError::InvalidSettings(message)
        }
    }

    /// The message of the error.
    pub fn to_string(&self) -> (text: String)
        ensures
            text@ == match *self {
                ConfigError::EmptyName => "Name CANNOT be empty"@,
                ConfigError::EmptyVersion => "Version CANNOT be empty"@,
                ConfigError::InvalidVersion => "Version must follow X.Y.Z format"@,
                ConfigError::EmptyFeatures => "No Feature is found"@,
                ConfigError::InvalidSettings(msg) => "Invalid settings: "@ + msg@,
                ConfigError::InvalidMode => "Invalid mode: must be Devlopment, Testing, or Production"@,
            },
    {
        match self {
            ConfigError::EmptyName => "Name CANNOT be empty".to_owned(),
            ConfigError::EmptyVersion => "Version CANNOT be empty".to_owned(),
            ConfigError::InvalidVersion => "Version must follow X.Y.Z format".to_owned(),
            ConfigError::EmptyFeatures => "No Feature is found".to_owned(),
            ConfigError::InvalidSettings(msg) => {
                let mut text = "Invalid settings: ".to_owned();
                text.append(msg.as_str());
                text
            },
            ConfigError::InvalidMode => "Invalid mode: must be Devlopment, Testing, or Production".to_owned(),
        }
    }
}

/// A value that can be checked against its rules, and completed with
/// defaults where it passes.
pub trait Validate {
    fn validate(&mut self) -> Result<(), ConfigError>;
}

/// A text is blank where nothing but whitespace is in it.
pub open spec fn blank(s: Seq<char>) -> bool {
    trimmed(s).len() == 0
}

pub open spec fn is_digit(c: char) -> bool {
    '0' <= c && c <= '9'
}

pub open spec fn all_digits(s: Seq<char>) -> bool {
    forall|i: int| 0 <= i < s.len() ==> is_digit(#[trigger] s[i])
}

/// A version is three runs of digits with a dot between each two.
pub open spec fn version_ok(version: Seq<char>) -> bool {
    let parts = pieces_of(version, '.');
    parts.len() == 3 && forall|i: int| 0 <= i < parts.len() ==> all_digits(#[trigger] parts[i])
}

/// What validation says of a configuration. The first rule that fails
/// decides: the name, then the version, then the features.
pub open spec fn verdict(config: Config) -> Result<(), ConfigError> {
    if config.name is None || blank(config.name->0@) {
        Err(ConfigError::EmptyName)
    } else if config.version is None || blank(config.version->0@) {
        Err(ConfigError::EmptyVersion)
    } else if !version_ok(config.version->0@) {
        Err(ConfigError::InvalidVersion)
    } else if config.features is None || config.features->0@.len() == 0 {
        Err(ConfigError::EmptyFeatures)
    } else {
        Ok(())
    }
}

/// The theme that a validated configuration has.
pub open spec fn theme_of(settings: Option<Settings>) -> Seq<char> {
    match settings {
        Some(Settings { theme: Some(theme), .. }) => theme@,
        _ => "default"@,
    }
}

/// The connection limit that a validated configuration has.
pub open spec fn max_connections_of(settings: Option<Settings>) -> u32 {
    match settings {
        Some(Settings { max_connections: Some(n), .. }) => n,
        _ => 10u32,
    }
}

fn digits_only(s: &str) -> (r: bool)
    ensures
        r == all_digits(s@),
{
    let chars = chars_of(s);
    let mut i: usize = 0;
    while i < chars.len()
        invariant
            i <= chars.len(),
            chars@ == s@,
            forall|j: int| 0 <= j < i ==> is_digit(#[trigger] s@[j]),
        decreases chars.len() - i,
    {
        let c = chars[i];
        if !('0' <= c && c <= '9') {
            return false;
        }
        i += 1;
    }
    true
}

fn version_follows_format(version: &str) -> (r: bool)
    ensures
        r == version_ok(version@),
{
    let parts = split_at_char(version, '.');
    let ghost pieces = parts@.map_values(|w: String| w@);
    if parts.len() != 3 {
        return false;
    }
    let mut i: usize = 0;
    while i < parts.len()
        invariant
            i <= parts.len(),
            pieces == parts@.map_values(|w: String| w@),
            pieces == pieces_of(version@, '.'),
            forall|j: int| 0 <= j < i ==> all_digits(#[trigger] pieces[j]),
        decreases parts.len() - i,
    {
        assert(pieces[i as int] == parts[i as int]@);
        if !digits_only(parts[i].as_str()) {
            return false;
        }
        i += 1;
    }
    true
}

impl Validate for Config {
    /// Checks the configuration. Where it passes, the settings it left out
    /// are filled in with the defaults; where it fails, nothing changes.
    fn validate(&mut self) -> (r: Result<(), ConfigError>)
        ensures
            r == verdict(*old(self)),
            r is Err ==> *final(self) == *old(self),
            final(self).name == old(self).name,
            final(self).version == old(self).version,
            final(self).features == old(self).features,
            final(self).mode == old(self).mode,
            r is Ok ==> (final(self).settings matches Some(s) && (s.theme matches Some(theme)
                && theme@ == theme_of(old(self).settings)) && s.max_connections == Some(
                max_connections_of(old(self).settings),
            )),
    {
        match &self.name {
            None => {
                return Err(ConfigError::EmptyName);
            },
            Some(name) => {
                if trim(name.as_str()).is_empty() {
                    return Err(ConfigError::EmptyName);
                }
            },
        }
        match &self.version {
            None => {
                return Err(ConfigError::EmptyVersion);
            },
            Some(version) => {
                if trim(version.as_str()).is_empty() {
                    return Err(ConfigError::EmptyVersion);
                }
                if !version_follows_format(version.as_str()) {
                    return Err(ConfigError::InvalidVersion);
                }
            },
        }
        match &self.features {
            None => {
                return Err(ConfigError::EmptyFeatures);
            },
            Some(features) => {
                if features.len() == 0 {
                    return Err(ConfigError::EmptyFeatures);
                }
            },
        }
        let mut defaults = Settings::default();
        match &self.settings {
            Some(s) => {
                match &s.theme {
                    Some(theme) => {
                        defaults.theme = Some(theme.clone());
                    },
                    None => {},
                }
                match s.max_connections {
                    Some(n) => {
                        defaults.max_connections = Some(n);
                    },
                    None => {},
                }
            },
            None => {},
        }
        self.settings = Some(defaults);
        Ok(())
    }
}

} // verus!
