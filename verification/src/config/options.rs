//! The options as the user gave them, on the command line or in the
//! configuration file, before defaults are filled in.

use vstd::prelude::*;
use vstd::string::StringExecFns;
use crate::config::{ConfigError, EnvError};

verus! {

/// The colours that the user chose, each one optional.
#[derive(Debug)]
pub struct Colors {
    /// Colour of the bar when the lock is initialised.
    pub color_init: Option<u32>,
    /// Colour of the bar during typing.
    pub color_input: Option<u32>,
    /// Colour of the bar after a wrong password.
    pub color_fail: Option<u32>,
    /// Colour of the background.
    pub color_bg: Option<u32>,
    /// Colour of the text.
    pub color_text: Option<u32>,
}

impl Default for Colors {
    fn default() -> (out: Colors)
        ensures
            out == (Colors {
                color_init: None,
                color_input: None,
                color_fail: None,
                color_bg: None,
                color_text: None,
            }),
    {
        Colors {
            color_init: None,
            color_input: None,
            color_fail: None,
            color_bg: None,
            color_text: None,
        }
    }
}

/// How much the program logs.
#[derive(Clone, Copy, PartialEq, Eq, Structural, Debug)]
pub enum LogLevel {
    Off,
    Error,
    Warn,
    Info,
    Debug,
    Trace,
}

/// The options of the program.
#[derive(Debug)]
pub struct Options {
    /// Command to be executed on a wrong entry of a password.
    pub fail_command: Option<String>,
    /// How often the flag for more logging was given.
    pub log_level: u64,
    /// Path to a configuration file.
    pub config: Option<String>,
    /// Font of the text.
    pub font: Option<String>,
    /// How many restarts the supervisor remembers.
    pub max_restarts: Option<usize>,
    /// The colours.
    pub colors: Colors,
}

/// `first` where it holds a value, else `second`.
pub open spec fn or_else<T>(first: Option<T>, second: Option<T>) -> Option<T> {
    if first is Some {
        first
    } else {
        second
    }
}

/// The log level for a number of flags: none switches logging off, each
/// further flag lets one more level through, and five or more let all
/// through.
pub open spec fn level_of(flags: u64) -> LogLevel {
    if flags == 0 {
        LogLevel::Off
    } else if flags == 1 {
        LogLevel::Error
    } else if flags == 2 {
        LogLevel::Warn
    } else if flags == 3 {
        LogLevel::Info
    } else if flags == 4 {
        LogLevel::Debug
    } else {
        LogLevel::Trace
    }
}

/// The path of the configuration file below the directory `base`.
pub open spec fn config_file_in(base: Seq<char>) -> Seq<char> {
    base + "/waylock/waylock.toml"@
}

/// The default path of the configuration file, given the values of the
/// variables `XDG_CONFIG_HOME` and `HOME`.
pub open spec fn default_path(
    xdg_config_home: Result<Seq<char>, EnvError>,
    home: Result<Seq<char>, EnvError>,
) -> Result<Seq<char>, EnvError> {
    match xdg_config_home {
        Ok(dir) => Ok(config_file_in(dir)),
        Err(_) => match home {
            Ok(dir) => Ok(config_file_in(dir + "/.config"@)),
            Err(e) => Err(e),
        },
    }
}

/// The default path of the configuration file: `waylock/waylock.toml`
/// below `XDG_CONFIG_HOME`, or below `.config` in `HOME` where the first
/// variable has no value. Where the second has none either, the error is
/// the one of the second.
pub fn default_config_path(
    xdg_config_home: Result<String, EnvError>,
    home: Result<String, EnvError>,
) -> (out: Result<String, ConfigError>)
    ensures
        match default_path(text_of(xdg_config_home), text_of(home)) {
            Ok(path) => out matches Ok(p) && p@ == path,
            Err(e) => out matches Err(ConfigError::Env(err)) && err == e,
        },
{
    let base = match xdg_config_home {
        Ok(dir) => dir,
        Err(_) => match home {
            Ok(dir) => dir.concat("/.config"),
            Err(e) => return Err(ConfigError::Env(e)),
        },
    };
    Ok(base.concat("/waylock/waylock.toml"))
}

/// The value of a variable as a sequence of characters.
pub open spec fn text_of(value: Result<String, EnvError>) -> Result<Seq<char>, EnvError> {
    match value {
        Ok(s) => Ok(s@),
        Err(e) => Err(e),
    }
}

impl Options {
    /// The options of `self`, each one that is missing taken from `other`.
    /// This holds for the fail command, the font and the colours; the
    /// other options are those of `self`.
    pub fn or(self, other: Self) -> (out: Self)
        ensures
            out.fail_command == or_else(self.fail_command, other.fail_command),
            out.font == or_else(self.font, other.font),
            out.colors.color_init == or_else(self.colors.color_init, other.colors.color_init),
            out.colors.color_input == or_else(self.colors.color_input, other.colors.color_input),
            out.colors.color_fail == or_else(self.colors.color_fail, other.colors.color_fail),
            out.colors.color_bg == or_else(self.colors.color_bg, other.colors.color_bg),
            out.colors.color_text == or_else(self.colors.color_text, other.colors.color_text),
            out.log_level == self.log_level,
            out.config == self.config,
            out.max_restarts == self.max_restarts,
    {
        let mut this = self;
        if this.fail_command.is_none() {
            this.fail_command = other.fail_command;
        }
        if this.font.is_none() {
            this.font = other.font;
        }
        if this.colors.color_init.is_none() {
            this.colors.color_init = other.colors.color_init;
        }
        if this.colors.color_input.is_none() {
            this.colors.color_input = other.colors.color_input;
        }
        if this.colors.color_fail.is_none() {
            this.colors.color_fail = other.colors.color_fail;
        }
        if this.colors.color_bg.is_none() {
            this.colors.color_bg = other.colors.color_bg;
        }
        if this.colors.color_text.is_none() {
            this.colors.color_text = other.colors.color_text;
        }
        this
    }

    /// How much the program is to log.
    pub fn level(&self) -> (out: LogLevel)
        ensures
            out == level_of(self.log_level),
    {
        match self.log_level {
            0 => LogLevel::Off,
            1 => LogLevel::Error,
            2 => LogLevel::Warn,
            3 => LogLevel::Info,
            4 => LogLevel::Debug,
            _ => LogLevel::Trace,
        }
    }
}

} // verus!
