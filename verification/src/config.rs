//! The configuration surface the client consumes, and the validation
//! of the parsed configuration file. The file itself is read, written
//! and parsed outside; the parsed value arrives here as the plain
//! `TomlValue` model, and `update_config` holds it to the rules the
//! loader enforces.

use vstd::prelude::*;
use vstd::string::StringExecFns;

use crate::error::Error;
use crate::error::ErrorKind;
use crate::text::str_eq;

verus! {

/// This is the main configuration file for tor
#[derive(Debug)]
pub struct TorConfig {
    /// Location of the config file
    pub config_file: String,
    /// Version of the configuration file
    pub version: String,
    /// Directory Servers
    pub directory_servers: Vec<String>,
    /// Root directory of the embedded store
    pub db_root: String,
    /// Staleness bound of a cached snapshot, in milliseconds
    pub ds_refresh_timeout: u64,
    /// Cadence of the background refresh, in milliseconds
    pub ds_refresh_frequency: u64,
    /// Path of the main log file
    pub mainlog: String,
    /// Log rotation size, in bytes
    pub mainlog_rotationsize: u64,
    /// Log rotation age, in milliseconds
    pub mainlog_rotationtime: u64,
    /// Print debugging info
    pub debug: bool,
}

/// A parsed configuration value, as plain data: what the loader reads
/// of the configuration file after the TOML parser outside has done
/// its work.
#[derive(Debug)]
pub enum TomlValue {
    Str(String),
    Int(i64),
    Boolean(bool),
    Arr(Vec<TomlValue>),
    Table(Vec<(String, TomlValue)>),
}

/// The first value under `key` in a table's entries.
pub open spec fn spec_table_get(entries: Seq<(String, TomlValue)>, key: Seq<char>) -> Option<
    TomlValue,
>
    decreases entries.len(),
{
    if entries.len() == 0 {
        None
    } else if entries[0].0@ == key {
        Some(entries[0].1)
    } else {
        spec_table_get(entries.drop_first(), key)
    }
}

/// The value under `key` when `value` is a table; nothing otherwise.
pub open spec fn spec_value_get(value: TomlValue, key: Seq<char>) -> Option<TomlValue> {
    match value {
        TomlValue::Table(entries) => spec_table_get(entries@, key),
        _ => None,
    }
}

/// The strings of an array of string values; nothing when any element
/// is not a string.
pub open spec fn spec_string_items(items: Seq<TomlValue>) -> Option<Seq<Seq<char>>>
    decreases items.len(),
{
    if items.len() == 0 {
        Some(Seq::<Seq<char>>::empty())
    } else {
        match spec_string_items(items.drop_last()) {
            None => None,
            Some(rest) => match items.last() {
                TomlValue::Str(s) => Some(rest.push(s@)),
                _ => None,
            },
        }
    }
}

/// What `update_config` does with a parsed value: accept it, yielding
/// the version and the directory servers, or reject it with the exact
/// message of the rule it breaks.
pub enum ConfigUpdate {
    Accepted { version: Seq<char>, directory_servers: Seq<Seq<char>> },
    Rejected { message: Seq<char> },
}

/// The validation rules of the configuration file: a table with a
/// `general` section, whose `version` is a string and whose
/// `directory_servers` is an array of strings.
pub open spec fn spec_update_config(value: TomlValue) -> ConfigUpdate {
    match value {
        TomlValue::Table(entries) => match spec_table_get(entries@, "general"@) {
            None => ConfigUpdate::Rejected { message: "general section must be specified"@ },
            Some(general) => match spec_value_get(general, "version"@) {
                None => ConfigUpdate::Rejected { message: "general.version must be specified"@ },
                Some(TomlValue::Str(version)) => match spec_value_get(
                    general,
                    "directory_servers"@,
                ) {
                    None => ConfigUpdate::Rejected {
                        message: "general.version must be a string"@,
                    },
                    Some(TomlValue::Arr(items)) => match spec_string_items(items@) {
                        Some(ds) => ConfigUpdate::Accepted {
                            version: version@,
                            directory_servers: ds,
                        },
                        None => ConfigUpdate::Rejected {
                            message: "general.directory_servers must be an array of strings"@,
                        },
                    },
                    Some(_) => ConfigUpdate::Rejected {
                        message: "general.directory_servers must be an array"@,
                    },
                },
                Some(_) => ConfigUpdate::Rejected {
                    message: "general.version must be a string"@,
                },
            },
        },
        _ => ConfigUpdate::Rejected { message: "Invalid TOML File"@ },
    }
}

/// The text of the default configuration file before the version.
pub open spec fn spec_toml_head() -> Seq<char> {
    "\n##############################################################################\n### TOR CONFIGURATION                                                      ###\n##############################################################################\n[general]\n\n##############################################################################\n### GENERAL CONFIGURATION                                                  ###\n##############################################################################\n\nversion = \""@
}

/// The text between the version and the store root.
pub open spec fn spec_toml_mid() -> Seq<char> {
    "\"\n\ndb_root = \""@
}

/// The text after the store root: the default directory servers, the
/// staleness and cadence defaults, and the logging defaults.
pub open spec fn spec_toml_tail() -> Seq<char> {
    "\"\n\ndirectory_servers = [\n\t\"45.66.33.45\",\n\t\"66.111.2.131\",\n\t\"128.31.0.34\",\n\t\"86.59.21.38\",\n\t\"204.13.164.118\",\n\t\"171.25.193.9\",\n\t\"193.23.244.244\",\n\t\"154.35.175.225\",\n\t\"131.188.40.189\",\n\t\"199.58.81.140\",\n]\n\n# Two weeks\nds_refresh_timeout = 1209600000\n\n# Ten minutes\nds_refresh_frequency = 600000\n\n[logging]\n\n##############################################################################\n### LOGGING CONFIGURATION                                                  ###\n##############################################################################\n\n# 1 hour\nmainlog_rotationtime = 3600000\n\n# 10 mb\nmainlog_rotationsize = 10485760\n\n"@
}

/// The default configuration file text, with the version and the store
/// root filled in; `build_toml` outside writes it to disk when no
/// configuration file exists yet.
pub fn default_toml_text(version: &str, db_root: &str) -> (r: String)
    ensures
        r@ == spec_toml_head() + version@ + spec_toml_mid() + db_root@ + spec_toml_tail(),
{
    let mut r =
        "\n##############################################################################\n### TOR CONFIGURATION                                                      ###\n##############################################################################\n[general]\n\n##############################################################################\n### GENERAL CONFIGURATION                                                  ###\n##############################################################################\n\nversion = \"".to_owned();
    r.append(version);
    r.append("\"\n\ndb_root = \"");
    r.append(db_root);
    r.append(
        "\"\n\ndirectory_servers = [\n\t\"45.66.33.45\",\n\t\"66.111.2.131\",\n\t\"128.31.0.34\",\n\t\"86.59.21.38\",\n\t\"204.13.164.118\",\n\t\"171.25.193.9\",\n\t\"193.23.244.244\",\n\t\"154.35.175.225\",\n\t\"131.188.40.189\",\n\t\"199.58.81.140\",\n]\n\n# Two weeks\nds_refresh_timeout = 1209600000\n\n# Ten minutes\nds_refresh_frequency = 600000\n\n[logging]\n\n##############################################################################\n### LOGGING CONFIGURATION                                                  ###\n##############################################################################\n\n# 1 hour\nmainlog_rotationtime = 3600000\n\n# 10 mb\nmainlog_rotationsize = 10485760\n\n",
    );
    r
}

/// Look one key up in a table's entries.
fn table_get<'a>(entries: &'a Vec<(String, TomlValue)>, key: &str) -> (r: Option<&'a TomlValue>)
    ensures
        spec_table_get(entries@, key@) matches Some(v) ==> (r matches Some(rv) && *rv == v),
        spec_table_get(entries@, key@) is None ==> r is None,
{
    let mut i: usize = 0;
    proof {
        assert(entries@.skip(0) =~~= entries@);
    }
    while i < entries.len()
        invariant
            0 <= i <= entries@.len(),
            spec_table_get(entries@, key@) == spec_table_get(entries@.skip(i as int), key@),
        decreases entries@.len() - i,
    {
        if str_eq(entries[i].0.as_str(), key) {
            proof {
                assert(entries@.skip(i as int)[0] == entries@[i as int]);
            }
            return Some(&entries[i].1);
        }
        proof {
            assert(entries@.skip(i as int).drop_first() =~~= entries@.skip(i + 1));
        }
        i += 1;
    }
    None
}

/// Look one key up under a value that may be a table.
fn value_get<'a>(value: &'a TomlValue, key: &str) -> (r: Option<&'a TomlValue>)
    ensures
        spec_value_get(*value, key@) matches Some(v) ==> (r matches Some(rv) && *rv == v),
        spec_value_get(*value, key@) is None ==> r is None,
{
    match value {
        TomlValue::Table(entries) => table_get(entries, key),
        _ => None,
    }
}

/// An array element that is not a string spoils the whole array.
proof fn lemma_string_items_none(items: Seq<TomlValue>, i: int)
    requires
        0 <= i < items.len(),
        !(items[i] matches TomlValue::Str(_)),
    ensures
        spec_string_items(items) is None,
    decreases items.len(),
{
    if i < items.len() - 1 {
        lemma_string_items_none(items.drop_last(), i);
    }
}

/// Update the config object from the parsed file value: the file must
/// be a table holding a `general` section with a string `version` and
/// an array of string `directory_servers`. On acceptance those two
/// fields are replaced and the rest kept; on rejection the config is
/// left untouched and the broken rule is named.
#[verifier::loop_isolation(false)]
pub fn update_config(config: &mut TorConfig, value: &TomlValue) -> (r: Result<(), Error>)
    ensures
        spec_update_config(*value) matches ConfigUpdate::Accepted { version, directory_servers }
            ==> (r is Ok && final(config).version@ == version
            && final(config).directory_servers.deep_view() == directory_servers),
        spec_update_config(*value) matches ConfigUpdate::Rejected { message } ==> (r matches Err(e)
            && e.kind matches ErrorKind::TomlError(m) && m@ == message
            && *final(config) == *old(config)),
        final(config).config_file == old(config).config_file,
        final(config).db_root == old(config).db_root,
        final(config).ds_refresh_timeout == old(config).ds_refresh_timeout,
        final(config).ds_refresh_frequency == old(config).ds_refresh_frequency,
        final(config).mainlog == old(config).mainlog,
        final(config).mainlog_rotationsize == old(config).mainlog_rotationsize,
        final(config).mainlog_rotationtime == old(config).mainlog_rotationtime,
        final(config).debug == old(config).debug,
{
    let entries = match value {
        TomlValue::Table(entries) => entries,
        _ => {
            return Err(Error { kind: ErrorKind::TomlError("Invalid TOML File".to_owned()) });
        },
    };
    let general = match table_get(entries, "general") {
        Some(general) => general,
        None => {
            return Err(
                Error {
                    kind: ErrorKind::TomlError("general section must be specified".to_owned()),
                },
            );
        },
    };
    let version = match value_get(general, "version") {
        Some(TomlValue::Str(version)) => version,
        Some(_) => {
            return Err(
                Error { kind: ErrorKind::TomlError("general.version must be a string".to_owned()) },
            );
        },
        None => {
            return Err(
                Error {
                    kind: ErrorKind::TomlError("general.version must be specified".to_owned()),
                },
            );
        },
    };
    let items = match value_get(general, "directory_servers") {
        Some(TomlValue::Arr(items)) => items,
        Some(_) => {
            return Err(
                Error {
                    kind: ErrorKind::TomlError(
                        "general.directory_servers must be an array".to_owned(),
                    ),
                },
            );
        },
        None => {
            return Err(
                Error { kind: ErrorKind::TomlError("general.version must be a string".to_owned()) },
            );
        },
    };
    let mut directory_servers: Vec<String> = Vec::new();
    let mut i: usize = 0;
    proof {
        assert(directory_servers.deep_view() =~~= Seq::<Seq<char>>::empty());
        assert(spec_string_items(items@.take(0)) == Some(directory_servers.deep_view()));
    }
    while i < items.len()
        invariant
            0 <= i <= items@.len(),
            spec_string_items(items@.take(i as int)) == Some(directory_servers.deep_view()),
        decreases items@.len() - i,
    {
        let s = match &items[i] {
            TomlValue::Str(s) => s,
            _ => {
                proof {
                    lemma_string_items_none(items@, i as int);
                }
                return Err(
                    Error {
                        kind: ErrorKind::TomlError(
                            "general.directory_servers must be an array of strings".to_owned(),
                        ),
                    },
                );
            },
        };
        let ghost prev = directory_servers.deep_view();
        directory_servers.push(s.clone());
        proof {
            assert(directory_servers.deep_view() =~~= prev.push(s@));
            assert(items@.take(i + 1).drop_last() =~~= items@.take(i as int));
            assert(items@.take(i + 1).last() == items@[i as int]);
        }
        i += 1;
    }
    proof {
        assert(items@.take(items@.len() as int) =~~= items@);
    }
    config.version = version.clone();
    config.directory_servers = directory_servers;
    Ok(())
}

} // verus!
