use waylock::config::color::Error;
use waylock::config::options::{default_config_path, Colors as Chosen, LogLevel, Options};
use waylock::config::{
    Colors, Config, ConfigError, EnvError, IoKind, DEFAULT_BG_COLOR, DEFAULT_FAIL_COLOR,
    DEFAULT_INIT_COLOR, DEFAULT_INPUT_COLOR, DEFAULT_MAX_RESTARTS, DEFAULT_TEXT_COLOR,
};

fn options() -> Options {
    Options {
        fail_command: None,
        log_level: 0,
        config: None,
        font: None,
        max_restarts: None,
        colors: Chosen::default(),
    }
}

#[test]
fn default_colours_choose_nothing() {
    let chosen = Chosen::default();
    assert_eq!(chosen.color_init, None);
    assert_eq!(chosen.color_input, None);
    assert_eq!(chosen.color_fail, None);
    assert_eq!(chosen.color_bg, None);
    assert_eq!(chosen.color_text, None);
}

#[test]
fn defaults_fill_what_was_not_chosen() {
    let config = Config::with_user(options(), "alice".to_owned());
    assert_eq!(config.user, "alice");
    assert_eq!(config.fail_command, None);
    assert_eq!(config.max_restarts, DEFAULT_MAX_RESTARTS);
    assert_eq!(config.colors.init_color, 0xffff_ffff);
    assert_eq!(config.colors.input_color, 0xff00_00ff);
    assert_eq!(config.colors.fail_color, 0xffff_0000);
    assert_eq!(config.colors.bg_color, 0xff00_0000);
    assert_eq!(config.colors.text_color, 0xffff_ffff);
    assert_eq!(DEFAULT_INIT_COLOR, 0xffff_ffff);
    assert_eq!(DEFAULT_INPUT_COLOR, 0xff00_00ff);
    assert_eq!(DEFAULT_FAIL_COLOR, 0xffff_0000);
    assert_eq!(DEFAULT_BG_COLOR, 0xff00_0000);
    assert_eq!(DEFAULT_TEXT_COLOR, 0xffff_ffff);
}

#[test]
fn chosen_colours_are_made_opaque() {
    let chosen = Chosen {
        color_init: Some(0x0012_3456),
        color_input: Some(0x7f00_0000),
        color_fail: Some(0),
        color_bg: Some(0xffff_ffff),
        color_text: Some(0x00ab_cdef),
    };
    let colors = Colors::new(&chosen);
    assert_eq!(colors.init_color, 0xff12_3456);
    assert_eq!(colors.input_color, 0xff00_0000);
    assert_eq!(colors.fail_color, 0xff00_0000);
    assert_eq!(colors.bg_color, 0xffff_ffff);
    assert_eq!(colors.text_color, 0xffab_cdef);
}

#[test]
fn options_are_carried_into_the_configuration() {
    let mut options = options();
    options.fail_command = Some("beep".to_owned());
    options.max_restarts = Some(7);
    let config = Config::with_user(options, "bob".to_owned());
    assert_eq!(config.fail_command.as_deref(), Some("beep"));
    assert_eq!(config.max_restarts, 7);
}

#[test]
fn configuration_of_the_current_user_has_defaults() {
    if let Some(config) = Config::from(options()) {
        assert_eq!(config.colors.init_color, 0xffff_ffff);
        assert_eq!(config.max_restarts, DEFAULT_MAX_RESTARTS);
        assert_eq!(config.fail_command, None);
    }
}

#[test]
fn merge_prefers_the_first_options() {
    let mut first = options();
    first.fail_command = Some("first".to_owned());
    first.colors.color_init = Some(1);
    first.colors.color_bg = Some(4);
    first.log_level = 2;
    first.max_restarts = None;
    let mut second = options();
    second.fail_command = Some("second".to_owned());
    second.font = Some("mono".to_owned());
    second.colors.color_init = Some(10);
    second.colors.color_input = Some(20);
    second.colors.color_fail = Some(30);
    second.colors.color_text = Some(50);
    second.log_level = 5;
    second.config = Some("/etc/other.toml".to_owned());
    second.max_restarts = Some(9);
    let merged = first.or(second);
    assert_eq!(merged.fail_command.as_deref(), Some("first"));
    assert_eq!(merged.font.as_deref(), Some("mono"));
    assert_eq!(merged.colors.color_init, Some(1));
    assert_eq!(merged.colors.color_input, Some(20));
    assert_eq!(merged.colors.color_fail, Some(30));
    assert_eq!(merged.colors.color_bg, Some(4));
    assert_eq!(merged.colors.color_text, Some(50));
    assert_eq!(merged.log_level, 2);
    assert_eq!(merged.config, None);
    assert_eq!(merged.max_restarts, None);
}

#[test]
fn merge_of_nothing_is_nothing() {
    let merged = options().or(options());
    assert_eq!(merged.fail_command, None);
    assert_eq!(merged.font, None);
    assert_eq!(merged.colors.color_init, None);
}

#[test]
fn log_level_follows_the_number_of_flags() {
    let levels = [
        (0, LogLevel::Off),
        (1, LogLevel::Error),
        (2, LogLevel::Warn),
        (3, LogLevel::Info),
        (4, LogLevel::Debug),
        (5, LogLevel::Trace),
        (6, LogLevel::Trace),
        (u64::MAX, LogLevel::Trace),
    ];
    for (flags, level) in levels {
        let mut options = options();
        options.log_level = flags;
        assert_eq!(options.level(), level);
    }
}

#[test]
fn default_path_prefers_the_xdg_directory() {
    let path = default_config_path(Ok("/xdg".to_owned()), Ok("/home/u".to_owned()));
    assert_eq!(path.unwrap(), "/xdg/waylock/waylock.toml");
    let path = default_config_path(Err(EnvError::NotPresent), Ok("/home/u".to_owned()));
    assert_eq!(path.unwrap(), "/home/u/.config/waylock/waylock.toml");
    let path = default_config_path(Err(EnvError::NotUnicode), Ok("/home/u".to_owned()));
    assert_eq!(path.unwrap(), "/home/u/.config/waylock/waylock.toml");
    let path = default_config_path(Ok("/xdg".to_owned()), Err(EnvError::NotPresent));
    assert_eq!(path.unwrap(), "/xdg/waylock/waylock.toml");
}

#[test]
fn default_path_fails_with_the_error_of_home() {
    let path = default_config_path(Err(EnvError::NotUnicode), Err(EnvError::NotPresent));
    assert!(matches!(path, Err(ConfigError::Env(EnvError::NotPresent))));
    let path = default_config_path(Err(EnvError::NotPresent), Err(EnvError::NotUnicode));
    assert!(matches!(path, Err(ConfigError::Env(EnvError::NotUnicode))));
}

#[test]
fn io_errors_have_messages() {
    assert_eq!(
        ConfigError::IO(IoKind::NotFound).message(),
        "Could not find the specified config file."
    );
    assert_eq!(
        ConfigError::IO(IoKind::PermissionDenied).message(),
        "Could not access the specified config file."
    );
    assert_eq!(
        ConfigError::IO(IoKind::InvalidData).message(),
        "Configuration file seems to contain invalid utf-8 data."
    );
    assert_eq!(
        ConfigError::IO(IoKind::InvalidInput).message(),
        "Configuration file seems to contain invalid utf-8 data."
    );
    assert_eq!(
        ConfigError::IO(IoKind::Other).message(),
        "An unknown issue occurred while trying to read the config file."
    );
}

#[test]
fn toml_errors_count_lines_from_one() {
    assert_eq!(
        ConfigError::Toml(None).message(),
        "Unknown error occurred while reading the configuration."
    );
    assert_eq!(
        ConfigError::Toml(Some((0, 0))).message(),
        "Error occurred while parsing the config file at line 1, column 1."
    );
    assert_eq!(
        ConfigError::Toml(Some((11, 41))).message(),
        "Error occurred while parsing the config file at line 12, column 42."
    );
    assert_eq!(
        ConfigError::Toml(Some((usize::MAX, 9))).message(),
        format!(
            "Error occurred while parsing the config file at line {}, column 10.",
            usize::MAX as u128 + 1
        )
    );
}

#[test]
fn colour_errors_have_messages() {
    assert_eq!(
        ConfigError::Color(Error::InvalidLength).message(),
        "Error while parsing the flags. A color seems to have invalid length"
    );
    assert_eq!(
        ConfigError::Color(Error::InvalidPrefix).message(),
        "Error while parsing the flags. A color seems to have an invalid prefix"
    );
    let err = "zz".parse::<u32>().unwrap_err();
    assert_eq!(
        ConfigError::Color(Error::ParseInt(err.clone())).message(),
        "Error while parsing the flags. A color seems to be ill formated."
    );
    assert_eq!(
        Error::InvalidLength.message(),
        "invalid length, color must have exactly 6 digits"
    );
    assert_eq!(
        Error::InvalidPrefix.message(),
        "invalid color prefix, must start with '#' or '0x'"
    );
    assert_eq!(Error::ParseInt(err.clone()).message(), format!("parse error: {}", err));
}

#[test]
fn other_errors_have_messages() {
    assert_eq!(ConfigError::Params("unknown flag".to_owned()).message(), "unknown flag");
    assert_eq!(
        ConfigError::Env(EnvError::NotPresent).message(),
        "Both $XDG_CONFIG_HOME and $HOME don't seem to be present."
    );
    assert_eq!(
        ConfigError::Env(EnvError::NotUnicode).message(),
        "Either $XDG_CONFIG_HOME or $HOME are not in Unicode."
    );
    assert_eq!(
        ConfigError::Serde("missing field".to_owned()).message(),
        "Could not parse the config file. Error: missing field"
    );
}

#[test]
fn configuration_needs_a_user() {
    assert!(Config::for_user(options(), None).is_none());
    let mut chosen = options();
    chosen.fail_command = Some("beep".to_owned());
    chosen.colors.color_fail = Some(0x0000_00ff);
    let config = Config::for_user(chosen, Some("carol".to_owned())).unwrap();
    assert_eq!(config.user, "carol");
    assert_eq!(config.fail_command.as_deref(), Some("beep"));
    assert_eq!(config.colors.fail_color, 0xff00_00ff);
    assert_eq!(config.colors.init_color, DEFAULT_INIT_COLOR);
    assert_eq!(config.max_restarts, DEFAULT_MAX_RESTARTS);
}
