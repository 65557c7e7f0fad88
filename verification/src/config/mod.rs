//! The configuration of a lock session.

use vstd::prelude::*;
use vstd::string::StringExecFns;
use crate::config::options::Options;
use crate::strings::{decimal, push_decimal};

pub mod color;
pub mod options;

verus! {

/// What a file could not be read for.
#[derive(Clone, Copy, PartialEq, Eq, Structural, Debug)]
pub enum IoKind {
    /// There is no such file.
    NotFound,
    /// The file may not be read.
    PermissionDenied,
    /// The file does not hold UTF-8.
    InvalidData,
    /// The file does not hold UTF-8.
    InvalidInput,
    /// Any other failure.
    Other,
}

/// Why a variable of the environment has no value.
#[derive(Clone, Copy, PartialEq, Eq, Structural, Debug)]
pub enum EnvError {
    /// The variable is not set.
    NotPresent,
    /// The variable's value is not Unicode.
    NotUnicode,
}

/// Why no configuration could be had.
#[derive(Debug)]
pub enum ConfigError {
    /// The configuration file could not be read.
    IO(IoKind),
    /// The configuration file is not TOML; the place of the fault, counted
    /// from zero, where it is known.
    Toml(Option<(usize, usize)>),
    /// An option names a colour that is none.
    Color(color::Error),
    /// The command line was not understood; the message says why.
    Params(String),
    /// The place of the configuration file is not known.
    Env(EnvError),
    /// The configuration file holds something else than options.
    Serde(String),
}

impl ConfigError {
    /// What the user is told of the error.
    pub open spec fn message_text(self) -> Seq<char> {
        match self {
            ConfigError::IO(kind) => match kind {
                IoKind::NotFound => "Could not find the specified config file."@,
                IoKind::PermissionDenied => "Could not access the specified config file."@,
                IoKind::InvalidData | IoKind::InvalidInput =>
                    "Configuration file seems to contain invalid utf-8 data."@,
                IoKind::Other => "An unknown issue occurred while trying to read the config file."@,
            },
            ConfigError::Toml(place) => match place {
                None => "Unknown error occurred while reading the configuration."@,
                Some((line, column)) => "Error occurred while parsing the config file at line "@
                    + decimal((line + 1) as nat) + ", column "@ + decimal((column + 1) as nat)
                    + "."@,
            },
            ConfigError::Color(err) => match err {
                color::Error::InvalidLength =>
                    "Error while parsing the flags. A color seems to have invalid length"@,
                color::Error::InvalidPrefix =>
                    "Error while parsing the flags. A color seems to have an invalid prefix"@,
                color::Error::ParseInt(_) =>
                    "Error while parsing the flags. A color seems to be ill formated."@,
            },
            ConfigError::Params(message) => message@,
            ConfigError::Env(err) => match err {
                EnvError::NotPresent => "Both $XDG_CONFIG_HOME and $HOME don't seem to be present."@,
                EnvError::NotUnicode => "Either $XDG_CONFIG_HOME or $HOME are not in Unicode."@,
            },
            ConfigError::Serde(err) => "Could not parse the config file. Error: "@ + err@,
        }
    }

    /// What the user is told of the error. Lines and columns are counted
    /// from one.
    pub fn message(&self) -> (out: String)
        ensures
            out@ == self.message_text(),
    {
        match self {
            ConfigError::IO(kind) => match kind {
                IoKind::NotFound => String::from_str("Could not find the specified config file."),
                IoKind::PermissionDenied => String::from_str(
                    "Could not access the specified config file.",
                ),
                IoKind::InvalidData | IoKind::InvalidInput => String::from_str(
                    "Configuration file seems to contain invalid utf-8 data.",
                ),
                IoKind::Other => String::from_str(
                    "An unknown issue occurred while trying to read the config file.",
                ),
            },
            ConfigError::Toml(place) => match place {
                None => String::from_str("Unknown error occurred while reading the configuration."),
                Some((line, column)) => {
                    let mut out = String::from_str(
                        "Error occurred while parsing the config file at line ",
                    );
                    push_decimal(&mut out, *line as u128 + 1);
                    out.append(", column ");
                    push_decimal(&mut out, *column as u128 + 1);
                    out.append(".");
                    out
                },
            },
            ConfigError::Color(err) => match err {
                color::Error::InvalidLength => String::from_str(
                    "Error while parsing the flags. A color seems to have invalid length",
                ),
                color::Error::InvalidPrefix => String::from_str(
                    "Error while parsing the flags. A color seems to have an invalid prefix",
                ),
                color::Error::ParseInt(_) => String::from_str(
                    "Error while parsing the flags. A color seems to be ill formated.",
                ),
            },
            ConfigError::Params(message) => message.clone(),
            ConfigError::Env(err) => match err {
                EnvError::NotPresent => String::from_str(
                    "Both $XDG_CONFIG_HOME and $HOME don't seem to be present.",
                ),
                EnvError::NotUnicode => String::from_str(
                    "Either $XDG_CONFIG_HOME or $HOME are not in Unicode.",
                ),
            },
            ConfigError::Serde(err) => {
                let mut out = String::from_str("Could not parse the config file. Error: ");
                out.append(err.as_str());
                out
            },
        }
    }
}

/// Colour of the bar when the lock is initialised, unless the user chose
/// one.
pub const DEFAULT_INIT_COLOR: u32 = 0xffff_ffff;

/// Colour of the bar during typing, unless the user chose one.
pub const DEFAULT_INPUT_COLOR: u32 = 0xff00_00ff;

/// Colour of the bar after a wrong password, unless the user chose one.
pub const DEFAULT_FAIL_COLOR: u32 = 0xffff_0000;

/// Colour of the background, unless the user chose one.
pub const DEFAULT_BG_COLOR: u32 = 0xff00_0000;

/// Colour of the text, unless the user chose one.
pub const DEFAULT_TEXT_COLOR: u32 = 0xffff_ffff;

/// The bits of the alpha channel.
pub const ALPHA: u32 = 0xff00_0000;

/// How many restarts the supervisor remembers, unless the user chose a
/// number.
pub const DEFAULT_MAX_RESTARTS: usize = 3;

/// The chosen colour, or the default where none was chosen, made fully
/// opaque.
pub open spec fn resolved(chosen: Option<u32>, default: u32) -> u32 {
    (match chosen {
        Some(c) => c,
        None => default,
    }) | ALPHA
}

/// The alpha channel of the colour says fully opaque.
pub open spec fn is_opaque(color: u32) -> bool {
    color & ALPHA == ALPHA
}

/// Every colour that `resolved` gives is fully opaque, and a colour that is
/// fully opaque already is given unchanged.
pub proof fn resolved_is_opaque(chosen: Option<u32>, default: u32)
    ensures
        is_opaque(resolved(chosen, default)),
        resolved(chosen, default) >= ALPHA,
        chosen matches Some(c) ==> (is_opaque(c) ==> resolved(chosen, default) == c),
{
    let c = match chosen {
        Some(c) => c,
        None => default,
    };
    assert((c | 0xff00_0000u32) & 0xff00_0000u32 == 0xff00_0000u32) by (bit_vector);
    assert((c | 0xff00_0000u32) >= 0xff00_0000u32) by (bit_vector);
    assert(c & 0xff00_0000u32 == 0xff00_0000u32 ==> (c | 0xff00_0000u32) == c) by (bit_vector);
}

fn resolve(chosen: Option<u32>, default: u32) -> (out: u32)
    ensures
        out == resolved(chosen, default),
        is_opaque(out),
{
    proof {
        resolved_is_opaque(chosen, default);
    }
    match chosen {
        Some(c) => c | ALPHA,
        None => default | ALPHA,
    }
}

/// The colours of a session.
#[derive(Clone, Copy, Debug)]
pub struct Colors {
    /// Colour of the bar when the lock is initialised.
    pub init_color: u32,
    /// Colour of the bar during typing.
    pub input_color: u32,
    /// Colour of the bar after a wrong password.
    pub fail_color: u32,
    /// Colour of the background.
    pub bg_color: u32,
    /// Colour of the text.
    pub text_color: u32,
}

impl Colors {
    /// Every colour is fully opaque.
    pub open spec fn wf(self) -> bool {
        &&& is_opaque(self.init_color)
        &&& is_opaque(self.input_color)
        &&& is_opaque(self.fail_color)
        &&& is_opaque(self.bg_color)
        &&& is_opaque(self.text_color)
    }

    /// The colours that stand for what the user chose.
    pub open spec fn of(chosen: options::Colors) -> Colors {
        Colors {
            init_color: resolved(chosen.color_init, DEFAULT_INIT_COLOR),
            input_color: resolved(chosen.color_input, DEFAULT_INPUT_COLOR),
            fail_color: resolved(chosen.color_fail, DEFAULT_FAIL_COLOR),
            bg_color: resolved(chosen.color_bg, DEFAULT_BG_COLOR),
            text_color: resolved(chosen.color_text, DEFAULT_TEXT_COLOR),
        }
    }

    /// The colours of a session: each one as the user chose it, or its
    /// default, and each one made fully opaque.
    pub fn new(chosen: &options::Colors) -> (out: Colors)
        ensures
            out == Colors::of(*chosen),
            out.wf(),
    {
        Colors {
            init_color: resolve(chosen.color_init, DEFAULT_INIT_COLOR),
            input_color: resolve(chosen.color_input, DEFAULT_INPUT_COLOR),
            fail_color: resolve(chosen.color_fail, DEFAULT_FAIL_COLOR),
            bg_color: resolve(chosen.color_bg, DEFAULT_BG_COLOR),
            text_color: resolve(chosen.color_text, DEFAULT_TEXT_COLOR),
        }
    }
}

/// The configuration of a session. It does not change while the session
/// runs.
#[derive(Debug)]
pub struct Config {
    /// Command to be executed on a wrong entry of a password.
    pub fail_command: Option<String>,
    /// Name of the user whose password unlocks.
    pub user: String,
    /// The colours.
    pub colors: Colors,
    /// How many restarts the supervisor remembers.
    pub max_restarts: usize,
}

/// `users::get_current_username`: the name of the user who runs the
/// process, where the system knows one and the name is Unicode. Nothing is
/// claimed of the name.
#[verifier::external_body]
fn current_username() -> (name: Option<String>) {
    match users::get_current_username() {
        Some(name) => match name.into_string() {
            Ok(name) => Some(name),
            Err(_) => None,
        },
        None => None,
    }
}

impl Config {
    /// The configuration has opaque colours.
    pub open spec fn wf(self) -> bool {
        self.colors.wf()
    }

    /// The configuration that stands for the options, for the user `user`.
    pub open spec fn of(options: Options, user: String) -> Config {
        Config {
            fail_command: options.fail_command,
            user,
            colors: Colors::of(options.colors),
            max_restarts: match options.max_restarts {
                Some(n) => n,
                None => DEFAULT_MAX_RESTARTS,
            },
        }
    }

    /// The configuration of a session of the user `user`: the options with
    /// the defaults filled in.
    pub fn with_user(options: Options, user: String) -> (out: Config)
        ensures
            out == Config::of(options, user),
            out.wf(),
    {
        let colors = Colors::new(&options.colors);
        let max_restarts = match options.max_restarts {
            Some(n) => n,
            None => DEFAULT_MAX_RESTARTS,
        };
        Config { fail_command: options.fail_command, user, colors, max_restarts }
    }

    /// The configuration of a session of the user who runs the process, or
    /// `None` where the system does not know that user's name.
    pub fn from(options: Options) -> (out: Option<Config>)
        ensures
            out matches Some(config) ==> config.wf() && config == Config::of(options, config.user),
    {
        Config::for_user(options, current_username())
    }

    /// The configuration that stands for the options, given what the
    /// system said of the user's name: none where it knew no name.
    pub open spec fn resolved(options: Options, user: Option<String>) -> Option<Config> {
        match user {
            Some(name) => Some(Config::of(options, name)),
            None => None,
        }
    }

    /// The configuration of a session, given what the system said of the
    /// name of the user who runs the process: the options with the
    /// defaults filled in for that user, or `None` where the system knew
    /// no name.
    pub fn for_user(options: Options, user: Option<String>) -> (out: Option<Config>)
        ensures
            out == Config::resolved(options, user),
            out matches Some(config) ==> config.wf(),
    {
        match user {
            Some(name) => Some(Config::with_user(options, name)),
            None => None,
        }
    }
}

} // verus!
