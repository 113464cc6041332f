//! The configuration file: default options in TOML.

use vstd::prelude::*;

use crate::json::{json_of, member, members_of, Json};

verus! {

/// The text of an optional string.
pub open spec fn text_of(o: Option<String>) -> Option<Seq<char>> {
    match o {
        Some(s) => Some(s@),
        None => None,
    }
}

/// A document that was read.
pub open spec fn as_read(table: Map<Seq<char>, Json>) -> Result<Map<Seq<char>, Json>, Seq<char>> {
    Ok(table)
}

/// A document that was refused.
pub open spec fn as_refused(message: Seq<char>) -> Result<Map<Seq<char>, Json>, Seq<char>> {
    Err(message)
}

/// The top-level entries that `toml::from_str` reads from `text`, as JSON values, or the text of
/// its error. A date is an object there.
pub uninterp spec fn toml_read(text: Seq<char>) -> Result<Map<Seq<char>, Json>, Seq<char>>;

/// `toml::from_str` into a `serde_json::Map`: reads a TOML document. Which texts are one, what
/// entries they have and what the error says of the others depends on the text alone, and is
/// named by `toml_read`. The error is handed on by its text.
#[verifier::external_body]
fn read_table(text: &str) -> (res: Result<serde_json::Map<String, serde_json::Value>, String>)
    ensures
        res matches Ok(table) ==> toml_read(text@) == as_read(members_of(table)),
        res matches Err(message) ==> toml_read(text@) == as_refused(message@),
{
    match toml::from_str::<serde_json::Map<String, serde_json::Value>>(text) {
        Ok(table) => Ok(table),
        Err(error) => Err(error.to_string()),
    }
}

/// Default options. What is `None` is not set.
pub struct Config {
    /// The port to listen on.
    pub port: Option<u16>,
    /// The command that requests are piped into.
    pub command: Option<String>,
    /// Whether the server keeps running after the first request.
    pub persistent: Option<bool>,
    /// The name of the passthrough mode.
    pub passthrough: Option<String>,
    /// The log level.
    pub log_level: Option<String>,
}

/// What a [`Config`] holds.
pub struct ConfigView {
    /// The port to listen on.
    pub port: Option<int>,
    /// The command that requests are piped into.
    pub command: Option<Seq<char>>,
    /// Whether the server keeps running after the first request.
    pub persistent: Option<bool>,
    /// The name of the passthrough mode.
    pub passthrough: Option<Seq<char>>,
    /// The log level.
    pub log_level: Option<Seq<char>>,
}

impl View for Config {
    type V = ConfigView;

    open spec fn view(&self) -> ConfigView {
        ConfigView {
            port: match self.port {
                Some(n) => Some(n as int),
                None => None,
            },
            command: text_of(self.command),
            persistent: self.persistent,
            passthrough: text_of(self.passthrough),
            log_level: text_of(self.log_level),
        }
    }
}

/// A configuration that sets nothing.
pub open spec fn nothing_set() -> ConfigView {
    ConfigView { port: None, command: None, persistent: None, passthrough: None, log_level: None }
}

impl Default for Config {
    /// A configuration that sets nothing.
    fn default() -> (res: Config)
        ensures
            res@ == nothing_set(),
    {
        Config { port: None, command: None, persistent: None, passthrough: None, log_level: None }
    }
}

/// Why a configuration file is not used.
#[derive(Debug, PartialEq, Eq)]
pub enum ConfigError {
    /// It is not TOML. The text tells what is wrong with it.
    NotToml(String),
    /// The option with this name has a value of the wrong type, or one that is out of range.
    WrongType(String),
}

/// What a [`ConfigError`] holds.
pub enum ConfigErrorView {
    /// It is not TOML.
    NotToml(Seq<char>),
    /// The option with this name has a value of the wrong type, or one that is out of range.
    WrongType(Seq<char>),
}

impl View for ConfigError {
    type V = ConfigErrorView;

    open spec fn view(&self) -> ConfigErrorView {
        match *self {
            ConfigError::NotToml(message) => ConfigErrorView::NotToml(message@),
            ConfigError::WrongType(option) => ConfigErrorView::WrongType(option@),
        }
    }
}

/// No entry at `key`, or an integer that is a port.
pub open spec fn port_entry(table: Map<Seq<char>, Json>, key: Seq<char>) -> bool {
    table.dom().contains(key) ==> table[key] is Integer && 0 <= table[key]->Integer_0 <= u16::MAX
}

/// No entry at `key`, or a boolean.
pub open spec fn flag_entry(table: Map<Seq<char>, Json>, key: Seq<char>) -> bool {
    table.dom().contains(key) ==> table[key] is Boolean
}

/// No entry at `key`, or a string.
pub open spec fn text_entry(table: Map<Seq<char>, Json>, key: Seq<char>) -> bool {
    table.dom().contains(key) ==> table[key] is Text
}

/// The integer at `key`, if there is an entry.
pub open spec fn port_at(table: Map<Seq<char>, Json>, key: Seq<char>) -> Option<int> {
    if table.dom().contains(key) {
        Some(table[key]->Integer_0)
    } else {
        None
    }
}

/// The boolean at `key`, if there is an entry.
pub open spec fn flag_at(table: Map<Seq<char>, Json>, key: Seq<char>) -> Option<bool> {
    if table.dom().contains(key) {
        Some(table[key]->Boolean_0)
    } else {
        None
    }
}

/// The string at `key`, if there is an entry.
pub open spec fn text_at(table: Map<Seq<char>, Json>, key: Seq<char>) -> Option<Seq<char>> {
    if table.dom().contains(key) {
        Some(table[key]->Text_0)
    } else {
        None
    }
}

/// The first option, in the order of [`Config`], whose value is not of its type. Entries that are
/// no option count for nothing.
pub open spec fn wrong_option(table: Map<Seq<char>, Json>) -> Option<Seq<char>> {
    if !port_entry(table, "port"@) {
        Some("port"@)
    } else if !text_entry(table, "command"@) {
        Some("command"@)
    } else if !flag_entry(table, "persistent"@) {
        Some("persistent"@)
    } else if !text_entry(table, "passthrough"@) {
        Some("passthrough"@)
    } else if !text_entry(table, "log_level"@) {
        Some("log_level"@)
    } else {
        None
    }
}

/// The options that a table sets in which each is of its type.
pub open spec fn options_in(table: Map<Seq<char>, Json>) -> ConfigView {
    ConfigView {
        port: port_at(table, "port"@),
        command: text_at(table, "command"@),
        persistent: flag_at(table, "persistent"@),
        passthrough: text_at(table, "passthrough"@),
        log_level: text_at(table, "log_level"@),
    }
}

/// The port at `key`: `None` when there is no entry, and an error when it is no port.
fn port_option(table: &serde_json::Map<String, serde_json::Value>, key: &str) -> (res: Result<
    Option<u16>,
    ConfigError,
>)
    ensures
        port_entry(members_of(*table), key@) ==> res is Ok && (match res->Ok_0 {
            Some(port) => port_at(members_of(*table), key@) == Some(port as int),
            None => port_at(members_of(*table), key@) is None,
        }),
        !port_entry(members_of(*table), key@) ==> res is Err && res->Err_0@
            == ConfigErrorView::WrongType(key@),
{
    match member(table, key) {
        None => Ok(None),
        Some(value) => match value.as_i64() {
            Some(n) => if 0 <= n && n <= 0xffff {
                Ok(Some(n as u16))
            } else {
                Err(ConfigError::WrongType(key.to_owned()))
            },
            None => Err(ConfigError::WrongType(key.to_owned())),
        },
    }
}

/// The boolean at `key`: `None` when there is no entry, and an error when it is no boolean.
fn flag_option(table: &serde_json::Map<String, serde_json::Value>, key: &str) -> (res: Result<
    Option<bool>,
    ConfigError,
>)
    ensures
        flag_entry(members_of(*table), key@) ==> res is Ok && res->Ok_0 == flag_at(
            members_of(*table),
            key@,
        ),
        !flag_entry(members_of(*table), key@) ==> res is Err && res->Err_0@
            == ConfigErrorView::WrongType(key@),
{
    match member(table, key) {
        None => Ok(None),
        Some(value) => match value.as_bool() {
            Some(b) => Ok(Some(b)),
            None => Err(ConfigError::WrongType(key.to_owned())),
        },
    }
}

/// The string at `key`: `None` when there is no entry, and an error when it is no string.
fn text_option(table: &serde_json::Map<String, serde_json::Value>, key: &str) -> (res: Result<
    Option<String>,
    ConfigError,
>)
    ensures
        text_entry(members_of(*table), key@) ==> res is Ok && text_of(res->Ok_0) == text_at(
            members_of(*table),
            key@,
        ),
        !text_entry(members_of(*table), key@) ==> res is Err && res->Err_0@
            == ConfigErrorView::WrongType(key@),
{
    match member(table, key) {
        None => Ok(None),
        Some(value) => match value.as_str() {
            Some(s) => Ok(Some(s.to_owned())),
            None => Err(ConfigError::WrongType(key.to_owned())),
        },
    }
}

impl Config {
    /// The options that a table sets. The whole table is refused when one of them has a value of
    /// the wrong type.
    pub fn from_table(table: &serde_json::Map<String, serde_json::Value>) -> (res: Result<
        Config,
        ConfigError,
    >)
        ensures
            wrong_option(members_of(*table)) is None ==> res is Ok && res->Ok_0@ == options_in(
                members_of(*table),
            ),
            wrong_option(members_of(*table)) matches Some(option) ==> res is Err && res->Err_0@
                == ConfigErrorView::WrongType(option),
            res is Ok <==> (members_of(*table).dom().contains("port"@)
                ==> (members_of(*table)["port"@] matches Json::Integer(n) && 0 <= n
                <= 65535)) && (members_of(*table).dom().contains("command"@)
                    ==> members_of(*table)["command"@] is Text) && (
            members_of(*table).dom().contains("persistent"@)
                ==> members_of(*table)["persistent"@] is Boolean)
                && (members_of(*table).dom().contains(
                "passthrough"@,
            ) ==> members_of(*table)["passthrough"@] is Text)
                && (members_of(*table).dom().contains("log_level"@)
                ==> members_of(*table)["log_level"@] is Text),
            res matches Ok(config) ==> (match config.port {
                Some(port) => members_of(*table).dom().contains("port"@)
                    && members_of(*table)["port"@] == Json::Integer(port as int),
                None => !members_of(*table).dom().contains("port"@),
            }),
            res matches Ok(config) ==> (match config.persistent {
                Some(flag) => members_of(*table).dom().contains("persistent"@)
                    && members_of(*table)["persistent"@] == Json::Boolean(flag),
                None => !members_of(*table).dom().contains("persistent"@),
            }),
            res matches Ok(config) ==> (match config.command {
                Some(text) => members_of(*table).dom().contains("command"@)
                    && members_of(*table)["command"@] == Json::Text(text@),
                None => !members_of(*table).dom().contains("command"@),
            }),
            res matches Ok(config) ==> (match config.passthrough {
                Some(text) => members_of(*table).dom().contains("passthrough"@)
                    && members_of(*table)["passthrough"@] == Json::Text(text@),
                None => !members_of(*table).dom().contains("passthrough"@),
            }),
            res matches Ok(config) ==> (match config.log_level {
                Some(text) => members_of(*table).dom().contains("log_level"@)
                    && members_of(*table)["log_level"@] == Json::Text(text@),
                None => !members_of(*table).dom().contains("log_level"@),
            }),
            res matches Err(error) ==> (error matches ConfigError::WrongType(option)
                && members_of(*table).dom().contains(option@)),
    {
        proof {
            every_option_is_read_from_its_own_key(members_of(*table));
        }
        let port: Option<u16> = port_option(table, "port")?;
        let command: Option<String> = text_option(table, "command")?;
        let persistent: Option<bool> = flag_option(table, "persistent")?;
        let passthrough: Option<String> = text_option(table, "passthrough")?;
        let log_level: Option<String> = text_option(table, "log_level")?;
        Ok(Config { port, command, persistent, passthrough, log_level })
    }

    /// The options that a TOML document sets.
    pub fn from_toml(text: &str) -> (res: Result<Config, ConfigError>)
        ensures
            problem_in_file(text@) is None ==> res is Ok && res->Ok_0@ == options_in_file(text@),
            problem_in_file(text@) matches Some(problem) ==> res is Err && res->Err_0@ == problem,
            toml_read(text@) matches Err(message) ==> (res matches Err(error)
                && (error matches ConfigError::NotToml(same) && same@ == message)),
            toml_read(text@) matches Ok(table) ==> (res is Ok
                <==> (table.dom().contains("port"@) ==> (table["port"@] matches Json::Integer(n)
                && 0 <= n
                <= 65535)) && (table.dom().contains("command"@) ==> table["command"@] is Text) && (
            table.dom().contains("persistent"@) ==> table["persistent"@] is Boolean)
                && (table.dom().contains(
                "passthrough"@,
            ) ==> table["passthrough"@] is Text) && (table.dom().contains("log_level"@)
                ==> table["log_level"@] is Text)),
            toml_read(text@) matches Ok(table) ==> res matches Ok(config) ==> (match config.port {
                Some(port) => table.dom().contains("port"@)
                    && table["port"@] == Json::Integer(port as int),
                None => !table.dom().contains("port"@),
            }),
            toml_read(text@) matches Ok(table) ==> res matches Ok(config)
                ==> (match config.persistent {
                Some(flag) => table.dom().contains("persistent"@)
                    && table["persistent"@] == Json::Boolean(flag),
                None => !table.dom().contains("persistent"@),
            }),
            toml_read(text@) matches Ok(table) ==> res matches Ok(config)
                ==> (match config.command {
                Some(text) => table.dom().contains("command"@)
                    && table["command"@] == Json::Text(text@),
                None => !table.dom().contains("command"@),
            }),
            toml_read(text@) matches Ok(table) ==> res matches Ok(config)
                ==> (match config.passthrough {
                Some(text) => table.dom().contains("passthrough"@)
                    && table["passthrough"@] == Json::Text(text@),
                None => !table.dom().contains("passthrough"@),
            }),
            toml_read(text@) matches Ok(table) ==> res matches Ok(config)
                ==> (match config.log_level {
                Some(text) => table.dom().contains("log_level"@)
                    && table["log_level"@] == Json::Text(text@),
                None => !table.dom().contains("log_level"@),
            }),
    {
        match read_table(text) {
            Ok(table) => Config::from_table(&table),
            Err(message) => Err(ConfigError::NotToml(message)),
        }
    }
}

/// The options of a configuration file, and what is wrong with the file, if anything is.
pub struct LoadedConfig {
    /// The options.
    pub config: Config,
    /// Why the file is not used.
    pub problem: Option<ConfigError>,
}

/// What is wrong with a configuration file with the given contents.
pub open spec fn problem_in_file(text: Seq<char>) -> Option<ConfigErrorView> {
    match toml_read(text) {
        Ok(table) => match wrong_option(table) {
            Some(option) => Some(ConfigErrorView::WrongType(option)),
            None => None,
        },
        Err(message) => Some(ConfigErrorView::NotToml(message)),
    }
}

/// The options that a configuration file with the given contents sets. A file that is no TOML
/// document, or that gives an option a value of the wrong type, sets nothing.
pub open spec fn options_in_file(text: Seq<char>) -> ConfigView {
    match toml_read(text) {
        Ok(table) => if wrong_option(table) is None {
            options_in(table)
        } else {
            nothing_set()
        },
        Err(_) => nothing_set(),
    }
}

/// What a problem holds, if there is one.
pub open spec fn problem_of(problem: Option<ConfigError>) -> Option<ConfigErrorView> {
    match problem {
        Some(error) => Some(error@),
        None => None,
    }
}

/// The options of a configuration file, given its contents, or `None` when it could not be read.
/// A file that cannot be read or used counts as one that sets nothing.
pub fn load_config_from(contents: Option<&str>) -> (res: LoadedConfig)
    ensures
        contents is None ==> res.config@ == nothing_set() && res.problem is None,
        contents is None || res.problem is Some ==> res.config.port is None
            && res.config.command is None && res.config.persistent is None
            && res.config.passthrough is None
                && res.config.log_level is None,
        contents matches Some(text) ==> (toml_read(text@) matches Err(message) ==> (
        res.problem matches Some(ConfigError::NotToml(same)) && same@ == message)),
        contents matches Some(text) ==> (toml_read(text@) matches Ok(table) ==> (res.problem is None
            <==> (table.dom().contains("port"@) ==> (table["port"@] matches Json::Integer(n)
                && 0 <= n
                <= 65535)) && (table.dom().contains("command"@) ==> table["command"@] is Text) && (
            table.dom().contains("persistent"@) ==> table["persistent"@] is Boolean)
                && (table.dom().contains(
                "passthrough"@,
            ) ==> table["passthrough"@] is Text) && (table.dom().contains("log_level"@)
                ==> table["log_level"@] is Text))),
        contents matches Some(text) ==> (toml_read(text@) is Ok
            ==> (res.problem matches Some(problem)
            ==> problem is WrongType)),
        contents matches Some(text) ==> (toml_read(text@) matches Ok(table)
            ==> (res.problem is None ==> (match res.config.port {
            Some(port) => table.dom().contains("port"@)
                && table["port"@] == Json::Integer(port as int),
            None => !table.dom().contains("port"@),
        }))),
        contents matches Some(text) ==> (toml_read(text@) matches Ok(table)
            ==> (res.problem is None ==> (match res.config.persistent {
            Some(flag) => table.dom().contains("persistent"@)
                && table["persistent"@] == Json::Boolean(flag),
            None => !table.dom().contains("persistent"@),
        }))),
        contents matches Some(text) ==> (toml_read(text@) matches Ok(table)
            ==> (res.problem is None ==> (match res.config.command {
            Some(text) => table.dom().contains("command"@)
                && table["command"@] == Json::Text(text@),
            None => !table.dom().contains("command"@),
        }))),
        contents matches Some(text) ==> (toml_read(text@) matches Ok(table)
            ==> (res.problem is None ==> (match res.config.passthrough {
            Some(text) => table.dom().contains("passthrough"@)
                && table["passthrough"@] == Json::Text(text@),
            None => !table.dom().contains("passthrough"@),
        }))),
        contents matches Some(text) ==> (toml_read(text@) matches Ok(table)
            ==> (res.problem is None ==> (match res.config.log_level {
            Some(text) => table.dom().contains("log_level"@)
                && table["log_level"@] == Json::Text(text@),
            None => !table.dom().contains("log_level"@),
        }))),
        contents matches Some(text) ==> res.config@ == options_in_file(text@) && problem_of(
            res.problem,
        ) == problem_in_file(text@),
{
    match contents {
        None => LoadedConfig { config: Config::default(), problem: None },
        Some(text) => match Config::from_toml(text) {
            Ok(config) => LoadedConfig { config, problem: None },
            Err(e) => LoadedConfig { config: Config::default(), problem: Some(e) },
        },
    }
}

/// Where every option has a value of its type, each field is read from the key of its own name and
/// from no other: it is set if and only if the key is there, and holds the value at that key.
pub proof fn every_option_is_read_from_its_own_key(table: Map<Seq<char>, Json>)
    ensures
        wrong_option(table) is None <==> (table.dom().contains("port"@)
            ==> (table["port"@] matches Json::Integer(n) && 0 <= n
                <= 65535)) && (table.dom().contains("command"@) ==> table["command"@] is Text) && (
            table.dom().contains("persistent"@) ==> table["persistent"@] is Boolean)
                && (table.dom().contains(
                "passthrough"@,
            ) ==> table["passthrough"@] is Text) && (table.dom().contains("log_level"@)
                ==> table["log_level"@] is Text),
        wrong_option(table) is None ==> (match options_in(table).port {
            Some(port) => table.dom().contains("port"@) && table["port"@] == Json::Integer(port),
            None => !table.dom().contains("port"@),
        }),
        wrong_option(table) is None ==> (match options_in(table).persistent {
            Some(flag) => table.dom().contains("persistent"@)
                && table["persistent"@] == Json::Boolean(flag),
            None => !table.dom().contains("persistent"@),
        }),
        wrong_option(table) is None ==> (match options_in(table).command {
            Some(text) => table.dom().contains("command"@) && table["command"@] == Json::Text(text),
            None => !table.dom().contains("command"@),
        }),
        wrong_option(table) is None ==> (match options_in(table).passthrough {
            Some(text) => table.dom().contains("passthrough"@)
                && table["passthrough"@] == Json::Text(text),
            None => !table.dom().contains("passthrough"@),
        }),
        wrong_option(table) is None ==> (match options_in(table).log_level {
            Some(text) => table.dom().contains("log_level"@)
                && table["log_level"@] == Json::Text(text),
            None => !table.dom().contains("log_level"@),
        }),
        wrong_option(table) matches Some(option) ==> table.dom().contains(option),
{
}

/// The option that is reported is one whose value is not of its type, and those before it are of
/// theirs.
pub proof fn first_wrong_option_is_reported(table: Map<Seq<char>, Json>)
    ensures
        wrong_option(table) == Some("port"@) <==> table.dom().contains("port"@) && !(
        table["port"@] matches Json::Integer(n) && 0 <= n <= 65535),
        wrong_option(table) == Some("command"@) ==> table.dom().contains("command"@)
            && !(table["command"@] is Text),
        wrong_option(table) == Some("persistent"@) ==> table.dom().contains("persistent"@)
            && !(table["persistent"@] is Boolean) && (table.dom().contains("command"@)
            ==> table["command"@] is Text),
        wrong_option(table) == Some("passthrough"@) ==> table.dom().contains("passthrough"@)
            && !(table["passthrough"@] is Text) && (table.dom().contains("command"@)
            ==> table["command"@] is Text) && (table.dom().contains("persistent"@)
            ==> table["persistent"@] is Boolean),
        wrong_option(table) == Some("log_level"@) ==> table.dom().contains("log_level"@)
            && !(table["log_level"@] is Text) && (table.dom().contains("command"@)
            ==> table["command"@] is Text) && (table.dom().contains("persistent"@)
            ==> table["persistent"@] is Boolean) && (table.dom().contains("passthrough"@)
            ==> table["passthrough"@] is Text),
        wrong_option(table) matches Some(option) ==> option == "port"@ || option == "command"@
            || option == "persistent"@ || option == "passthrough"@ || option == "log_level"@,
{
    reveal_strlit("port");
    reveal_strlit("command");
    reveal_strlit("persistent");
    reveal_strlit("passthrough");
    reveal_strlit("log_level");
    assert("port"@.len() == 4);
    assert("command"@.len() == 7);
    assert("persistent"@.len() == 10);
    assert("passthrough"@.len() == 11);
    assert("log_level"@.len() == 9);
}

/// A table that differs in nothing but entries that are no option sets the same.
pub proof fn other_entries_count_for_nothing(
    table: Map<Seq<char>, Json>,
    key: Seq<char>,
    value: Json,
)
    requires
        key != "port"@,
        key != "command"@,
        key != "persistent"@,
        key != "passthrough"@,
        key != "log_level"@,
    ensures
        wrong_option(table.insert(key, value)) == wrong_option(table),
        options_in(table.insert(key, value)) == options_in(table),
{
}

/// A file sets what the table in it sets. One that is refused, or that gives an option a value of
/// the wrong type, sets nothing, and what is wrong with it is told.
pub proof fn file_sets_what_its_table_sets(text: Seq<char>)
    ensures
        toml_read(text) matches Ok(table) ==> (wrong_option(table) is None ==> options_in_file(text)
            == options_in(table) && problem_in_file(text) is None),
        toml_read(text) matches Ok(table) ==> (wrong_option(table) matches Some(option)
            ==> problem_in_file(text) == Some(ConfigErrorView::WrongType(option))),
        toml_read(text) matches Err(message) ==> problem_in_file(text) == Some(
            ConfigErrorView::NotToml(message),
        ),
        problem_in_file(text) is Some ==> options_in_file(text).port is None && options_in_file(
            text,
        ).command is None && options_in_file(text).persistent is None && options_in_file(
            text,
        ).passthrough is None && options_in_file(text).log_level is None,
{
}

/// The view of a configuration shows every field.
pub proof fn config_view_shows_all(config: Config)
    ensures
        config.port matches Some(port) ==> config@.port == Some(port as int),
        config.port is None ==> config@.port is None,
        config.command matches Some(text) ==> config@.command == Some(text@),
        config.command is None ==> config@.command is None,
        config@.persistent == config.persistent,
        config.passthrough matches Some(text) ==> config@.passthrough == Some(text@),
        config.passthrough is None ==> config@.passthrough is None,
        config.log_level matches Some(text) ==> config@.log_level == Some(text@),
        config.log_level is None ==> config@.log_level is None,
        nothing_set().port is None && nothing_set().command is None
            && nothing_set().persistent is None
            && nothing_set().passthrough is None && nothing_set().log_level is None,
{
}

/// The view of an error shows which it is and what it says.
pub proof fn error_view_shows_all(text: String)
    ensures
        ConfigError::NotToml(text)@ == ConfigErrorView::NotToml(text@),
        ConfigError::WrongType(text)@ == ConfigErrorView::WrongType(text@),
        problem_of(Some(ConfigError::NotToml(text))) == Some(ConfigErrorView::NotToml(text@)),
        problem_of(Some(ConfigError::WrongType(text))) == Some(ConfigErrorView::WrongType(text@)),
        problem_of(None) is None,
{
}

} // verus!
