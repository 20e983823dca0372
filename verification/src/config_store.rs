//! Where the configuration file lives and how a load turned out.

use vstd::prelude::*;

use crate::config::CONFIG_FILE_NAME;

verus! {

/// How a config load turned out.
#[derive(Debug, Clone, Copy, PartialEq, Eq, Structural)]
pub enum ConfigOrigin {
    /// No config file exists. This is a first run.
    Missing,
    /// A config file was read and parsed.
    Loaded,
    /// A config file exists but could not be read or parsed.
    Corrupt,
}

/// What reading the config file gave.
#[derive(Debug, Clone, Copy, PartialEq, Eq, Structural)]
pub enum ReadOutcome {
    /// The file does not exist.
    NotFound,
    /// The file could not be read for another reason.
    Unreadable,
    /// The file was read; whether its contents parsed.
    Read { parsed: bool },
}

/// The origin of a load: only a missing file is a first run; a file that
/// exists but cannot be used belongs to someone who has run Tile before.
pub fn origin_of(outcome: ReadOutcome) -> (r: ConfigOrigin)
    ensures
        r == (match outcome {
            ReadOutcome::NotFound => ConfigOrigin::Missing,
            ReadOutcome::Read { parsed: true } => ConfigOrigin::Loaded,
            _ => ConfigOrigin::Corrupt,
        }),
{
    match outcome {
        ReadOutcome::NotFound => ConfigOrigin::Missing,
        ReadOutcome::Read { parsed } => if parsed {
            ConfigOrigin::Loaded
        } else {
            ConfigOrigin::Corrupt
        },
        ReadOutcome::Unreadable => ConfigOrigin::Corrupt,
    }
}

/// Whether a load is a genuine first run.
pub fn is_first_run(origin: ConfigOrigin) -> (r: bool)
    ensures
        r == (origin == ConfigOrigin::Missing),
{
    origin == ConfigOrigin::Missing
}

/// Whether `dir` starts with the verbatim prefix `\\?\` that Windows
/// paths can carry.
pub open spec fn verbatim(dir: Seq<char>) -> bool {
    dir.len() >= 4 && dir[0] == '\\' && dir[1] == '\\' && dir[2] == '?' && dir[3] == '\\'
}

/// `Path::join` of a plain file name (no separator, no drive colon) onto a
/// directory, read back as a string. The name is adjoined, so it ends the
/// result. The separator it inserts, if any, is the platform's, so only this
/// more is stated: unless the directory carries a verbatim prefix (whose
/// joined path Windows normalizes), the directory comes first and at most
/// one separator (`/` or `\\`) stands between it and the name. What precedes
/// the name after a verbatim directory is left unsaid.
#[verifier::external_body]
fn join_path(dir: &str, name: &str) -> (r: String)
    requires
        forall|i: int|
            0 <= i < name@.len() ==> #[trigger] name@[i] != '/' && name@[i] != '\\' && name@[i]
                != ':',
    ensures
        name@.len() <= r@.len() && r@.subrange(r@.len() - name@.len(), r@.len() as int) == name@,
        !verbatim(dir@) ==> (r@ == dir@ + name@ || r@ == dir@ + seq!['/'] + name@ || r@ == dir@
            + seq!['\\'] + name@),
{
    std::path::Path::new(dir).join(name).to_string_lossy().into_owned()
}

/// Full path to the config file inside `dir`: it ends with the file name,
/// and, unless `dir` is a verbatim Windows directory, it is `dir` and the
/// name with at most one separator between them.
pub fn config_file_path(dir: &str) -> (r: String)
    ensures
        CONFIG_FILE_NAME@.len() <= r@.len() && r@.subrange(
            r@.len() - CONFIG_FILE_NAME@.len(),
            r@.len() as int,
        ) == CONFIG_FILE_NAME@,
        !verbatim(dir@) ==> (r@ == dir@ + CONFIG_FILE_NAME@ || r@ == dir@ + seq!['/']
            + CONFIG_FILE_NAME@ || r@ == dir@ + seq!['\\'] + CONFIG_FILE_NAME@),
{
    proof {
        reveal_strlit("config.json");
    }
    join_path(dir, CONFIG_FILE_NAME)
}

} // verus!
