//! The server's settings, and how they are read from and written to a table
//! of keys and values.

use crate::number::{decimal, decimal_chars, parse_number, parse_unsigned};
use crate::path::{child_path, join_path};
use crate::text::{chars_of, string_of, string_views};
use vstd::prelude::*;

verus! {

/// How often a client refreshes its metrics.
#[derive(Debug)]
pub struct MetricsConfig {
    pub auto_refresh_interval_secs: u64,
}

/// Where the server listens.
#[derive(Debug)]
pub struct ServerConfig {
    pub host: String,
    pub port: u16,
}

/// Where the conda installation lies and which environment jobs use.
#[derive(Debug)]
pub struct IsaacLabConfig {
    pub conda_path: String,
    pub default_conda_env: String,
}

/// Where job output goes.
#[derive(Debug)]
pub struct StorageConfig {
    pub output_path: String,
}

/// The directory that synchronisation mirrors, and what it leaves out.
#[derive(Debug)]
pub struct SyncConfig {
    pub target_path: String,
    pub default_excludes: Vec<String>,
}

/// Where jobs start.
#[derive(Debug)]
pub struct TaskConfig {
    pub working_directory: String,
}

/// All settings.
#[derive(Debug)]
pub struct Config {
    pub server: ServerConfig,
    pub isaaclab: IsaacLabConfig,
    pub storage: StorageConfig,
    pub sync: SyncConfig,
    pub tasks: TaskConfig,
    pub metrics: MetricsConfig,
}

/// The list of strings that a JSON text holds, where it is a JSON array of
/// strings.
pub uninterp spec fn json_string_list(text: Seq<char>) -> Option<Seq<Seq<char>>>;

/// The JSON text of a list of strings.
pub uninterp spec fn json_of_string_list(list: Seq<Seq<char>>) -> Seq<char>;

/// Reads a JSON array of strings.
///
/// Trusted: stands for `serde_json::from_str` at the type `Vec<String>`. The
/// claim is that the outcome depends on the text alone, named
/// [`json_string_list`].
#[verifier::external_body]
fn read_string_list(text: &str) -> (r: Option<Vec<String>>)
    ensures
        match json_string_list(text@) {
            Some(list) => r matches Some(v) && string_views(v@) == list,
            None => r is None,
        },
{
    match serde_json::from_str::<Vec<String>>(text) {
        Ok(list) => Some(list),
        Err(_) => None,
    }
}

/// Writes a list of strings as a JSON array.
///
/// Trusted: stands for `serde_json::to_string` at the type `Vec<String>`. The
/// claims are that the call succeeds, since writing strings into memory has
/// nothing that can fail, and that the text depends on the strings alone,
/// named [`json_of_string_list`].
#[verifier::external_body]
fn write_string_list(list: &Vec<String>) -> (r: Option<String>)
    ensures
        r is Some,
        r->0@ == json_of_string_list(string_views(list@)),
{
    match serde_json::to_string(list) {
        Ok(text) => Some(text),
        Err(_) => None,
    }
}

/// The views of a table of keys and values.
pub open spec fn pair_views(pairs: Seq<(String, String)>) -> Seq<(Seq<char>, Seq<char>)> {
    Seq::new(pairs.len(), |i: int| (pairs[i].0@, pairs[i].1@))
}

/// The value a table gives for a key: that of the last row with the key.
pub open spec fn lookup(pairs: Seq<(Seq<char>, Seq<char>)>, key: Seq<char>) -> Option<Seq<char>>
    decreases pairs.len(),
{
    if pairs.len() == 0 {
        None
    } else if pairs.last().0 == key {
        Some(pairs.last().1)
    } else {
        lookup(pairs.drop_last(), key)
    }
}

/// A text setting: the table's value, or the default where it has none.
pub open spec fn text_setting(
    pairs: Seq<(Seq<char>, Seq<char>)>,
    key: Seq<char>,
    default: Seq<char>,
) -> Seq<char> {
    match lookup(pairs, key) {
        Some(v) => v,
        None => default,
    }
}

/// A numeric setting: the table's value where it is a number of at most
/// `max`, and otherwise the default.
pub open spec fn number_setting(
    pairs: Seq<(Seq<char>, Seq<char>)>,
    key: Seq<char>,
    max: nat,
    default: nat,
) -> nat {
    match lookup(pairs, key) {
        Some(v) => match parse_unsigned(v, max) {
            Some(n) => n,
            None => default,
        },
        None => default,
    }
}

/// A list setting: the table's value where it is a JSON array of strings,
/// and otherwise the default.
pub open spec fn list_setting(
    pairs: Seq<(Seq<char>, Seq<char>)>,
    key: Seq<char>,
    default: Seq<Seq<char>>,
) -> Seq<Seq<char>> {
    match lookup(pairs, key) {
        Some(v) => match json_string_list(v) {
            Some(list) => list,
            None => default,
        },
        None => default,
    }
}

/// The exclusion rules of a fresh installation.
pub open spec fn default_excludes() -> Seq<Seq<char>> {
    seq![
        "__pycache__"@,
        "*.pyc"@,
        ".git"@,
        "logs/"@,
        "outputs/"@,
        ".vscode/"@,
        "*.tmp"@,
        ".DS_Store"@,
        "target"@,
    ]
}

/// The key is one under which a setting is stored.
pub open spec fn known_key(key: Seq<char>) -> bool {
    key == "server_host"@ || key == "server_port"@ || key == "isaaclab_conda_path"@ || key
        == "isaaclab_default_conda_env"@ || key == "storage_output_path"@ || key
        == "sync_target_path"@ || key == "sync_default_excludes"@ || key
        == "tasks_working_directory"@ || key == "metrics_auto_refresh_interval_secs"@
}

/// Why settings were refused.
#[derive(Debug, Clone, Copy, PartialEq, Eq, Structural)]
pub enum ConfigError {
    /// The conda installation directory does not exist.
    CondaPathMissing,
    /// The conda installation lacks its activation script.
    CondaScriptMissing,
}

fn find(pairs: &Vec<(String, String)>, key: &str) -> (r: Option<usize>)
    ensures
        match r {
            Some(i) => i < pairs@.len() && lookup(pair_views(pairs@), key@) == Some(pairs@[i as int].1@),
            None => lookup(pair_views(pairs@), key@) is None,
        },
{
    let wanted = key.to_owned();
    let mut i: usize = pairs.len();
    assert(pair_views(pairs@).take(pairs.len() as int) == pair_views(pairs@));
    while i > 0
        invariant
            i <= pairs.len(),
            wanted@ == key@,
            lookup(pair_views(pairs@), key@) == lookup(pair_views(pairs@).take(i as int), key@),
        decreases i,
    {
        i -= 1;
        proof {
            let upto = pair_views(pairs@).take(i + 1);
            assert(upto.last() == (pairs@[i as int].0@, pairs@[i as int].1@));
            assert(upto.drop_last() == pair_views(pairs@).take(i as int));
        }
        if pairs[i].0 == wanted {
            return Some(i);
        }
    }
    None
}

fn text_or(pairs: &Vec<(String, String)>, key: &str, default: &str) -> (r: String)
    ensures
        r@ == text_setting(pair_views(pairs@), key@, default@),
{
    match find(pairs, key) {
        Some(i) => pairs[i].1.clone(),
        None => default.to_owned(),
    }
}

fn number_or(pairs: &Vec<(String, String)>, key: &str, max: u64, default: u64) -> (r: u64)
    requires
        default <= max,
    ensures
        r == number_setting(pair_views(pairs@), key@, max as nat, default as nat),
        r <= max,
{
    match find(pairs, key) {
        Some(i) => {
            let v = chars_of(pairs[i].1.as_str());
            match parse_number(&v, max) {
                Some(n) => n,
                None => default,
            }
        },
        None => default,
    }
}

fn fresh_excludes() -> (list: Vec<String>)
    ensures
        string_views(list@) == default_excludes(),
{
    let mut list: Vec<String> = Vec::new();
    list.push("__pycache__".to_owned());
    list.push("*.pyc".to_owned());
    list.push(".git".to_owned());
    list.push("logs/".to_owned());
    list.push("outputs/".to_owned());
    list.push(".vscode/".to_owned());
    list.push("*.tmp".to_owned());
    list.push(".DS_Store".to_owned());
    list.push("target".to_owned());
    assert(string_views(list@) =~= default_excludes());
    list
}

impl Default for Config {
    /// The settings of a fresh installation.
    fn default() -> (c: Config)
        ensures
            c.server.host@ == "0.0.0.0"@,
            c.server.port == 6006,
            c.isaaclab.conda_path@ == "/home/ecs-user/anaconda3"@,
            c.isaaclab.default_conda_env@ == "isaaclab"@,
            c.storage.output_path@ == "/home/ecs-user/outputs"@,
            c.sync.target_path@ == "/home/ecs-user/moves"@,
            string_views(c.sync.default_excludes@) == default_excludes(),
            c.tasks.working_directory@ == "/home/ecs-user"@,
            c.metrics.auto_refresh_interval_secs == 30,
    {
        Config {
            server: ServerConfig { host: "0.0.0.0".to_owned(), port: 6006 },
            isaaclab: IsaacLabConfig {
                conda_path: "/home/ecs-user/anaconda3".to_owned(),
                default_conda_env: "isaaclab".to_owned(),
            },
            storage: StorageConfig { output_path: "/home/ecs-user/outputs".to_owned() },
            sync: SyncConfig {
                target_path: "/home/ecs-user/moves".to_owned(),
                default_excludes: fresh_excludes(),
            },
            tasks: TaskConfig { working_directory: "/home/ecs-user".to_owned() },
            metrics: MetricsConfig { auto_refresh_interval_secs: 30 },
        }
    }
}

impl Config {
    /// The settings that a table of keys and values gives. Each setting is
    /// the value of the last row with its key; where the table has no such
    /// row, or the value cannot be read as the setting's type, the setting
    /// has its default.
    pub fn from_pairs(pairs: &Vec<(String, String)>) -> (c: Config)
        ensures
            c.server.host@ == text_setting(pair_views(pairs@), "server_host"@, "0.0.0.0"@),
            c.server.port == number_setting(pair_views(pairs@), "server_port"@, 65535, 6006),
            c.isaaclab.conda_path@ == text_setting(
                pair_views(pairs@),
                "isaaclab_conda_path"@,
                "/home/ecs-user/anaconda3"@,
            ),
            c.isaaclab.default_conda_env@ == text_setting(
                pair_views(pairs@),
                "isaaclab_default_conda_env"@,
                "isaaclab"@,
            ),
            c.storage.output_path@ == text_setting(
                pair_views(pairs@),
                "storage_output_path"@,
                "/home/ecs-user/outputs"@,
            ),
            c.sync.target_path@ == text_setting(
                pair_views(pairs@),
                "sync_target_path"@,
                "/home/ecs-user/moves"@,
            ),
            string_views(c.sync.default_excludes@) == list_setting(
                pair_views(pairs@),
                "sync_default_excludes"@,
                default_excludes(),
            ),
            c.tasks.working_directory@ == text_setting(
                pair_views(pairs@),
                "tasks_working_directory"@,
                "/home/ecs-user"@,
            ),
            c.metrics.auto_refresh_interval_secs == number_setting(
                pair_views(pairs@),
                "metrics_auto_refresh_interval_secs"@,
                u64::MAX as nat,
                30,
            ),
    {
        let port = number_or(pairs, "server_port", 65535, 6006);
        let excludes = match find(pairs, "sync_default_excludes") {
            Some(i) => match read_string_list(pairs[i].1.as_str()) {
                Some(list) => list,
                None => fresh_excludes(),
            },
            None => fresh_excludes(),
        };
        Config {
            server: ServerConfig {
                host: text_or(pairs, "server_host", "0.0.0.0"),
                port: port as u16,
            },
            isaaclab: IsaacLabConfig {
                conda_path: text_or(pairs, "isaaclab_conda_path", "/home/ecs-user/anaconda3"),
                default_conda_env: text_or(pairs, "isaaclab_default_conda_env", "isaaclab"),
            },
            storage: StorageConfig {
                output_path: text_or(pairs, "storage_output_path", "/home/ecs-user/outputs"),
            },
            sync: SyncConfig {
                target_path: text_or(pairs, "sync_target_path", "/home/ecs-user/moves"),
                default_excludes: excludes,
            },
            tasks: TaskConfig {
                working_directory: text_or(pairs, "tasks_working_directory", "/home/ecs-user"),
            },
            metrics: MetricsConfig {
                auto_refresh_interval_secs: number_or(
                    pairs,
                    "metrics_auto_refresh_interval_secs",
                    u64::MAX,
                    30,
                ),
            },
        }
    }

    /// The rows under which the settings are stored, given the JSON text of
    /// the exclusion rules: nine rows, each setting under its key, numbers
    /// in decimal.
    pub open spec fn rows_for(&self, excludes_json: Seq<char>) -> Seq<(Seq<char>, Seq<char>)> {
        seq![
            ("server_host"@, self.server.host@),
            ("server_port"@, decimal(self.server.port as nat)),
            ("isaaclab_conda_path"@, self.isaaclab.conda_path@),
            ("isaaclab_default_conda_env"@, self.isaaclab.default_conda_env@),
            ("storage_output_path"@, self.storage.output_path@),
            ("sync_target_path"@, self.sync.target_path@),
            ("sync_default_excludes"@, excludes_json),
            ("tasks_working_directory"@, self.tasks.working_directory@),
            (
                "metrics_auto_refresh_interval_secs"@,
                decimal(self.metrics.auto_refresh_interval_secs as nat),
            ),
        ]
    }

    /// The rows under which the settings are stored, given the JSON text of
    /// the exclusion rules.
    pub fn rows_with(&self, excludes_json: String) -> (rows: Vec<(String, String)>)
        ensures
            pair_views(rows@) == self.rows_for(excludes_json@),
    {
        let mut rows: Vec<(String, String)> = Vec::new();
        rows.push(("server_host".to_owned(), self.server.host.clone()));
        rows.push(("server_port".to_owned(), string_of(&decimal_chars(self.server.port as u64))));
        rows.push(("isaaclab_conda_path".to_owned(), self.isaaclab.conda_path.clone()));
        rows.push(
            ("isaaclab_default_conda_env".to_owned(), self.isaaclab.default_conda_env.clone()),
        );
        rows.push(("storage_output_path".to_owned(), self.storage.output_path.clone()));
        rows.push(("sync_target_path".to_owned(), self.sync.target_path.clone()));
        rows.push(("sync_default_excludes".to_owned(), excludes_json));
        rows.push(("tasks_working_directory".to_owned(), self.tasks.working_directory.clone()));
        rows.push(
            (
                "metrics_auto_refresh_interval_secs".to_owned(),
                string_of(&decimal_chars(self.metrics.auto_refresh_interval_secs)),
            ),
        );
        assert(pair_views(rows@) =~= self.rows_for(excludes_json@));
        rows
    }

    /// The rows under which the settings are stored: the exclusion rules as
    /// a JSON array, every other setting as it is.
    pub fn to_pairs(&self) -> (rows: Vec<(String, String)>)
        ensures
            pair_views(rows@) == self.rows_for(
                json_of_string_list(string_views(self.sync.default_excludes@)),
            ),
    {
        match write_string_list(&self.sync.default_excludes) {
            Some(json) => self.rows_with(json),
            None => Vec::new(),
        }
    }

    /// The path of the script that activates conda, below the conda
    /// installation.
    pub fn conda_script(&self) -> (path: String)
        ensures
            path@ == child_path(self.isaaclab.conda_path@, "etc/profile.d/conda.sh"@),
    {
        join_path(self.isaaclab.conda_path.as_str(), "etc/profile.d/conda.sh")
    }

    /// Judges the settings by what was found on disk: the conda installation
    /// must exist, and its activation script too.
    pub fn validate(&self, conda_path_exists: bool, conda_script_exists: bool) -> (r: Result<
        (),
        ConfigError,
    >)
        ensures
            r == (if !conda_path_exists {
                Err::<(), ConfigError>(ConfigError::CondaPathMissing)
            } else if !conda_script_exists {
                Err(ConfigError::CondaScriptMissing)
            } else {
                Ok(())
            }),
    {
        if !conda_path_exists {
            Err(ConfigError::CondaPathMissing)
        } else if !conda_script_exists {
            Err(ConfigError::CondaScriptMissing)
        } else {
            Ok(())
        }
    }
}

/// The keys of a table under which no setting is stored, in the table's
/// order.
pub open spec fn unknown_keys(pairs: Seq<(Seq<char>, Seq<char>)>) -> Seq<Seq<char>>
    decreases pairs.len(),
{
    if pairs.len() == 0 {
        Seq::empty()
    } else if known_key(pairs.last().0) {
        unknown_keys(pairs.drop_last())
    } else {
        unknown_keys(pairs.drop_last()).push(pairs.last().0)
    }
}

/// The keys of a table that name no setting, in the table's order.
pub fn unused_keys(pairs: &Vec<(String, String)>) -> (keys: Vec<String>)
    ensures
        string_views(keys@) == unknown_keys(pair_views(pairs@)),
{
    let mut keys: Vec<String> = Vec::new();
    let mut i: usize = 0;
    assert(string_views(keys@) =~= unknown_keys(pair_views(pairs@).take(0)));
    while i < pairs.len()
        invariant
            i <= pairs.len(),
            string_views(keys@) == unknown_keys(pair_views(pairs@).take(i as int)),
        decreases pairs.len() - i,
    {
        let key = &pairs[i].0;
        proof {
            let upto = pair_views(pairs@).take(i + 1);
            assert(upto.last().0 == key@);
            assert(upto.drop_last() == pair_views(pairs@).take(i as int));
        }
        if !is_known(key) {
            let ghost before = keys@;
            keys.push(key.clone());
            assert(string_views(keys@) =~= string_views(before).push(key@));
        }
        i += 1;
    }
    assert(pair_views(pairs@).take(pairs.len() as int) == pair_views(pairs@));
    keys
}

fn is_known(key: &String) -> (r: bool)
    ensures
        r == known_key(key@),
{
    *key == "server_host".to_owned() || *key == "server_port".to_owned() || *key
        == "isaaclab_conda_path".to_owned() || *key == "isaaclab_default_conda_env".to_owned()
        || *key == "storage_output_path".to_owned() || *key == "sync_target_path".to_owned()
        || *key == "sync_default_excludes".to_owned() || *key
        == "tasks_working_directory".to_owned() || *key
        == "metrics_auto_refresh_interval_secs".to_owned()
}

} // verus!
