//! Where the configuration file and the logs are kept.

use vstd::prelude::*;

use crate::text::texts;

verus! {

/// The directory that a location starts from.
pub enum Root {
    /// A given directory.
    Given(String),
    /// The home directory of the user.
    Home,
}

/// A place in the file system: a directory, and the names that lead from there to the place.
pub struct Location {
    /// Where to start.
    pub root: Root,
    /// The names to follow, outermost first.
    pub names: Vec<String>,
}

/// What a [`Location`] holds. Without a root it starts from the home directory.
pub struct LocationView {
    /// The directory to start from, unless it is the home directory.
    pub root: Option<Seq<char>>,
    /// The names to follow, outermost first.
    pub names: Seq<Seq<char>>,
}

impl View for Location {
    type V = LocationView;

    open spec fn view(&self) -> LocationView {
        LocationView {
            root: match self.root {
                Root::Given(dir) => Some(dir@),
                Root::Home => None,
            },
            names: texts(self.names@),
        }
    }
}

/// The location of the configuration file: `api2cli/config.toml` in the XDG configuration
/// directory, which is `.config` in the home directory unless it is given.
pub fn config_path(xdg_config_home: Option<String>) -> (res: Location)
    ensures
        xdg_config_home matches Some(dir) ==> res@.root == Some(dir@) && res@.names == seq![
            "api2cli"@,
            "config.toml"@,
        ],
        xdg_config_home is None ==> res@.root is None && res@.names == seq![
            ".config"@,
            "api2cli"@,
            "config.toml"@,
        ],
        xdg_config_home matches Some(dir) ==> (res.root matches Root::Given(same) && same@ == dir@),
        xdg_config_home is Some ==> res.names@.len() == 2 && res.names@[0]@ == "api2cli"@
            && res.names@[1]@ == "config.toml"@,
        xdg_config_home is None ==> res.root is Home && res.names@.len() == 3
            && res.names@[0]@ == ".config"@ && res.names@[1]@ == "api2cli"@
            && res.names@[2]@ == "config.toml"@,
{
    let mut names: Vec<String> = Vec::new();
    let root: Root = match xdg_config_home {
        Some(dir) => Root::Given(dir),
        None => {
            names.push(".config".to_owned());
            Root::Home
        },
    };
    names.push("api2cli".to_owned());
    names.push("config.toml".to_owned());
    Location { root, names }
}

/// The directory of the logs: `api2cli` in the XDG state directory, which is `.local/state` in
/// the home directory unless it is given.
pub fn log_dir_path(xdg_state_home: Option<String>) -> (res: Location)
    ensures
        xdg_state_home matches Some(dir) ==> res@.root == Some(dir@) && res@.names == seq![
            "api2cli"@,
        ],
        xdg_state_home is None ==> res@.root is None && res@.names == seq![
            ".local"@,
            "state"@,
            "api2cli"@,
        ],
        xdg_state_home matches Some(dir) ==> (res.root matches Root::Given(same) && same@ == dir@),
        xdg_state_home is Some ==> res.names@.len() == 1 && res.names@[0]@ == "api2cli"@,
        xdg_state_home is None ==> res.root is Home && res.names@.len() == 3
            && res.names@[0]@ == ".local"@ && res.names@[1]@ == "state"@
            && res.names@[2]@ == "api2cli"@,
{
    let mut names: Vec<String> = Vec::new();
    let root: Root = match xdg_state_home {
        Some(dir) => Root::Given(dir),
        None => {
            names.push(".local".to_owned());
            names.push("state".to_owned());
            Root::Home
        },
    };
    names.push("api2cli".to_owned());
    Location { root, names }
}

} // verus!
