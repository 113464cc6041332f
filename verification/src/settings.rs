//! The options in force: command line first, then configuration file, then defaults.

use std::str::FromStr;

use vstd::prelude::*;

use crate::config::{text_of, Config};
use crate::passthrough::{mode_named, the_modes_have_these_names, Passthrough};

verus! {

/// The port when none is set.
pub const DEFAULT_PORT: u16 = 1337;

/// The options given on the command line.
pub struct Cli {
    /// The port to listen on.
    pub port: Option<u16>,
    /// The command that requests are piped into.
    pub command: Option<String>,
    /// Whether the flag to keep running after the first request was given.
    pub persistent: bool,
    /// The passthrough mode.
    pub passthrough: Option<Passthrough>,
    /// The log level.
    pub log_level: Option<String>,
}

/// The options in force.
pub struct Settings {
    /// The port to listen on.
    pub port: u16,
    /// The command that requests are piped into; without one they go to stdout.
    pub command: Option<String>,
    /// Whether the server keeps running after the first request.
    pub persistent: bool,
    /// The passthrough mode.
    pub passthrough: Passthrough,
    /// The log level.
    pub log_level: String,
}

/// What [`Settings`] hold.
pub struct SettingsView {
    /// The port to listen on.
    pub port: u16,
    /// The command that requests are piped into; without one they go to stdout.
    pub command: Option<Seq<char>>,
    /// Whether the server keeps running after the first request.
    pub persistent: bool,
    /// The passthrough mode.
    pub passthrough: Passthrough,
    /// The log level.
    pub log_level: Seq<char>,
}

impl View for Settings {
    type V = SettingsView;

    open spec fn view(&self) -> SettingsView {
        SettingsView {
            port: self.port,
            command: text_of(self.command),
            persistent: self.persistent,
            passthrough: self.passthrough,
            log_level: self.log_level@,
        }
    }
}

/// `first` if it is set, else `second`.
pub open spec fn either<T>(first: Option<T>, second: Option<T>) -> Option<T> {
    match first {
        Some(_) => first,
        None => second,
    }
}

/// The value of `o`, or `default` when it is not set.
pub open spec fn value_or<T>(o: Option<T>, default: T) -> T {
    match o {
        Some(v) => v,
        None => default,
    }
}

/// The mode that a configuration file asks for: none when it names no mode.
pub open spec fn mode_in(config: Config) -> Option<Passthrough> {
    match config.passthrough {
        Some(name) => mode_named(name@),
        None => None,
    }
}

/// The options in force under a command line and a configuration file.
pub open spec fn resolved(cli: Cli, config: Config) -> SettingsView {
    SettingsView {
        port: value_or(either(cli.port, config.port), DEFAULT_PORT),
        command: either(text_of(cli.command), text_of(config.command)),
        persistent: cli.persistent || config.persistent == Some(true),
        passthrough: value_or(either(cli.passthrough, mode_in(config)), Passthrough::Body),
        log_level: value_or(either(text_of(cli.log_level), text_of(config.log_level)), "info"@),
    }
}

/// The options in force under a command line and a configuration file.
pub fn resolve(cli: Cli, config: Config) -> (res: Settings)
    ensures
        res@ == resolved(cli, config),
        cli.port matches Some(port) ==> res.port == port,
        cli.port is None ==> (config.port matches Some(port) ==> res.port == port),
        cli.port is None && config.port is None ==> res.port == 1337,
        cli.command matches Some(command) ==> (res.command matches Some(same) && same@ == command@),
        cli.command is None ==> (config.command matches Some(command) ==> (
        res.command matches Some(same) && same@ == command@)),
        cli.command is None && config.command is None ==> res.command is None,
        res.persistent <==> cli.persistent || (config.persistent matches Some(flag) && flag),
        cli.passthrough matches Some(mode) ==> res.passthrough == mode,
        cli.passthrough is None ==> (config.passthrough matches Some(name) ==> (name@ == "full"@
            <==> res.passthrough == Passthrough::Full)),
        cli.passthrough is None && config.passthrough is None ==> res.passthrough
            == Passthrough::Body,
        cli.log_level matches Some(level) ==> res.log_level@ == level@,
        cli.log_level is None ==> (config.log_level matches Some(level)
            ==> res.log_level@ == level@),
        cli.log_level is None && config.log_level is None ==> res.log_level@ == "info"@,
{
    proof {
        if config.passthrough is Some {
            the_modes_have_these_names(config.passthrough->0@);
        }
    }
    let port: u16 = match cli.port {
        Some(port) => port,
        None => config.port.unwrap_or(DEFAULT_PORT),
    };
    let command: Option<String> = match cli.command {
        Some(command) => Some(command),
        None => config.command,
    };
    let persistent: bool = cli.persistent || config.persistent.unwrap_or(false);
    let passthrough: Passthrough = match cli.passthrough {
        Some(mode) => mode,
        None => match config.passthrough {
            Some(name) => match Passthrough::from_str(name.as_str()) {
                Ok(mode) => mode,
                Err(_) => Passthrough::Body,
            },
            None => Passthrough::Body,
        },
    };
    let log_level: String = match cli.log_level {
        Some(level) => level,
        None => match config.log_level {
            Some(level) => level,
            None => "info".to_owned(),
        },
    };
    Settings { port, command, persistent, passthrough, log_level }
}

/// An option that the command line gives is in force, whatever the configuration file says.
pub proof fn command_line_overrides_file(cli: Cli, config: Config)
    ensures
        cli.port matches Some(port) ==> resolved(cli, config).port == port,
        cli.command matches Some(command) ==> resolved(cli, config).command == Some(command@),
        cli.persistent ==> resolved(cli, config).persistent,
        cli.passthrough matches Some(mode) ==> resolved(cli, config).passthrough == mode,
        cli.log_level matches Some(level) ==> resolved(cli, config).log_level == level@,
{
}

/// An option that the configuration file sets is in force when the command line does not give
/// it.
pub proof fn file_counts_without_command_line(cli: Cli, config: Config)
    ensures
        cli.port is None ==> (config.port matches Some(port)
            ==> resolved(cli, config).port == port),
        cli.command is None ==> resolved(cli, config).command == text_of(config.command),
        !cli.persistent ==> (config.persistent matches Some(persistent) ==> resolved(
            cli,
            config,
        ).persistent == persistent),
        cli.passthrough is None ==> (mode_in(config) matches Some(mode) ==> resolved(
            cli,
            config,
        ).passthrough == mode),
        cli.log_level is None ==> (config.log_level matches Some(level) ==> resolved(
            cli,
            config,
        ).log_level == level@),
{
}

/// An option that neither sets has its default. A mode that the file names and that does not
/// exist counts as not set.
pub proof fn defaults_fill_the_rest(cli: Cli, config: Config)
    ensures
        cli.port is None && config.port is None ==> resolved(cli, config).port == 1337,
        cli.command is None && config.command is None ==> resolved(cli, config).command is None,
        !cli.persistent && config.persistent is None ==> !resolved(cli, config).persistent,
        cli.passthrough is None && mode_in(config) is None ==> resolved(cli, config).passthrough
            == Passthrough::Body,
        cli.log_level is None && config.log_level is None ==> resolved(cli, config).log_level
            == "info"@,
{
}

/// Without a mode on the command line, the mode in force is the one that the file names: `body` or
/// `full`. A file that names no mode, or none that there is, leaves it at the body mode.
pub proof fn file_names_the_mode_in_force(cli: Cli, config: Config)
    requires
        cli.passthrough is None,
    ensures
        config.passthrough matches Some(name) ==> (name@ == "body"@ ==> resolved(
            cli,
            config,
        ).passthrough == Passthrough::Body),
        config.passthrough matches Some(name) ==> (name@ == "full"@ ==> resolved(
            cli,
            config,
        ).passthrough == Passthrough::Full),
        config.passthrough matches Some(name) ==> (name@ != "body"@ && name@ != "full"@
            ==> resolved(
            cli,
            config,
        ).passthrough == Passthrough::Body),
        config.passthrough is None ==> resolved(cli, config).passthrough == Passthrough::Body,
{
    if config.passthrough is Some {
        the_modes_have_these_names(config.passthrough->0@);
    }
}

/// Each option in force depends on that option on the command line and in the file alone: two
/// command lines and two files that agree on an option give it the same value.
pub proof fn options_do_not_mix(cli: Cli, config: Config, cli2: Cli, config2: Config)
    ensures
        cli.port == cli2.port && config.port == config2.port ==> resolved(cli, config).port
            == resolved(cli2, config2).port,
        cli.command == cli2.command && config.command == config2.command ==> resolved(
            cli,
            config,
        ).command == resolved(cli2, config2).command,
        cli.persistent == cli2.persistent && config.persistent == config2.persistent ==> resolved(
            cli,
            config,
        ).persistent == resolved(cli2, config2).persistent,
        cli.passthrough == cli2.passthrough && config.passthrough == config2.passthrough
            ==> resolved(cli, config).passthrough == resolved(cli2, config2).passthrough,
        cli.log_level == cli2.log_level && config.log_level == config2.log_level ==> resolved(
            cli,
            config,
        ).log_level == resolved(cli2, config2).log_level,
{
}

/// A command of the file is the one in force, character by character, when the command line gives
/// none.
pub proof fn command_of_the_file_is_taken_as_it_is(cli: Cli, config: Config)
    requires
        cli.command is None,
    ensures
        config.command matches Some(command) ==> resolved(cli, config).command == Some(command@),
        config.command is None ==> resolved(cli, config).command is None,
{
}

/// The view of the settings shows every one of them.
pub proof fn settings_view_shows_all(settings: Settings)
    ensures
        settings@.port == settings.port,
        settings.command matches Some(command) ==> settings@.command == Some(command@),
        settings.command is None ==> settings@.command is None,
        settings@.persistent == settings.persistent,
        settings@.passthrough == settings.passthrough,
        settings@.log_level == settings.log_level@,
{
}

} // verus!
