use vstd::prelude::*;
use vstd::string::StringExecFns;

use crate::config::{effective_min_age, Config, PathConfig};
use crate::scan::{joined, moves_view, plan_moves, planned, Entry, FileMove};

verus! {

/// The options of one run: where the configuration lives, and whether files
/// are really moved or the moves are only shown.
#[derive(Debug, Clone, PartialEq, Eq)]
pub struct Cli {
    pub config: Option<String>,
    pub execute: bool,
}

/// Why a watched path, a move, or the run as a whole failed.
#[derive(Debug, Clone, PartialEq, Eq)]
pub enum ShiftError {
    /// The watched path of the named entry is missing or not a directory.
    NotADirectory { name: String, path: String },
    /// The watched path is a directory, but listing it failed.
    ListFailed { name: String, path: String, reason: String },
    /// Renaming `from` to `to` failed.
    MoveFailed { from: String, to: String, reason: String },
    /// No configuration path was given and the home directory is unknown.
    NoHomeDirectory,
}

/// What one look at a watched path found.
#[derive(Debug, Clone, PartialEq, Eq)]
pub enum Listing {
    /// The path does not exist or is not a directory.
    NotADirectory,
    /// The path is a directory whose listing failed, for the reason given.
    Unreadable(String),
    /// The immediate entries of the directory.
    Entries(Vec<Entry>),
}

/// What to do with one planned move.
#[derive(Debug, Clone, PartialEq, Eq)]
pub enum FileAction {
    /// Rename `from` to `to`.
    Rename { from: String, to: String },
    /// Only report that `from` would go to `to`.
    Preview { from: String, to: String },
}

/// The file name that a configuration is read from inside a home directory.
pub open spec fn config_file_name() -> Seq<char> {
    seq!['s', 'h', 'i', 'f', 't', '.', 't', 'o', 'm', 'l']
}

/// Relies on `dirs::home_dir`: the current user's home directory, if one is
/// known, which on Unix is never empty. It is kept only when it is valid UTF-8.
#[verifier::external_body]
fn home_dir() -> (r: Option<String>)
    ensures
        r matches Some(h) ==> h@.len() > 0,
{
    dirs::home_dir().and_then(|p| p.into_os_string().into_string().ok())
}

/// The configuration file inside the home directory `home`, or the error for
/// an unknown home directory.
pub fn config_path_in(home: Option<String>) -> (r: Result<String, ShiftError>)
    ensures
        match home {
            Some(h) => r matches Ok(p) && p@ == joined(h@, config_file_name()),
            None => r matches Err(ShiftError::NoHomeDirectory),
        },
{
    match home {
        Some(h) => {
            let name = String::from_str("shift.toml");
            proof {
                reveal_strlit("shift.toml");
                assert(name@ == config_file_name());
            }
            Ok(crate::scan::join_path(&h, &name))
        },
        None => Err(ShiftError::NoHomeDirectory),
    }
}

/// The configuration file in the current user's home directory.
pub fn default_config_path() -> (r: Result<String, ShiftError>)
    ensures
        match r {
            Ok(p) => exists|h: Seq<char>| h.len() > 0 && p@ == joined(h, config_file_name()),
            Err(e) => e is NoHomeDirectory,
        },
{
    let home = home_dir();
    config_path_in(home)
}

/// Combines the outcomes of work that has all finished: success when every
/// part succeeded, and otherwise the first failure, in the order given.
pub fn settle(outcomes: Vec<Result<(), ShiftError>>) -> (r: Result<(), ShiftError>)
    ensures
        r is Ok <==> forall|i: int| 0 <= i < outcomes@.len() ==> outcomes@[i] is Ok,
        r is Err ==> exists|i: int|
            0 <= i < outcomes@.len() && r == outcomes@[i]
            && forall|j: int| 0 <= j < i ==> outcomes@[j] is Ok,
{
    let mut pending = outcomes;
    let ghost all = pending@;
    let mut i: usize = 0;
    while i < pending.len()
        invariant
            pending@ == all,
            all == outcomes@,
            i <= all.len(),
            forall|j: int| 0 <= j < i ==> all[j] is Ok,
        decreases all.len() - i,
    {
        if pending[i].is_err() {
            let failure = pending.remove(i);
            assert(failure == all[i as int] && failure is Err);
            return failure;
        }
        i = i + 1;
    }
    Ok(())
}

/// What `shift` owes for the watched path `conf`, called `name`, given one
/// listing of it.
pub open spec fn shift_outcome(
    name: Seq<char>,
    conf: PathConfig,
    time: i64,
    listing: Listing,
    r: Result<Vec<FileMove>, ShiftError>,
) -> bool {
    match listing {
        Listing::NotADirectory => r matches Err(ShiftError::NotADirectory { name: n, path: p })
            && n@ == name && p@ == conf.path@,
        Listing::Unreadable(why) => r matches Err(
            ShiftError::ListFailed { name: n, path: p, reason: w },
        ) && n@ == name && p@ == conf.path@ && w@ == why@,
        Listing::Entries(entries) => r matches Ok(moves) && moves_view(moves@) == planned(
            conf.path@,
            conf.dest@,
            effective_min_age(conf),
            time,
            entries@,
        ),
    }
}

/// The action for one planned move: a rename when executing, and otherwise
/// only a report.
pub open spec fn action_for(execute: bool, from: String, to: String) -> FileAction {
    if execute {
        FileAction::Rename { from, to }
    } else {
        FileAction::Preview { from, to }
    }
}

/// Without execution, no planned move ever becomes a rename: a dry run
/// leaves every file where it is.
pub proof fn dry_run_renames_nothing(cli: Cli)
    requires
        !cli.execute,
    ensures
        forall|from: String, to: String| !(#[trigger] action_for(cli.execute, from, to) is Rename),
{
}

/// A watched path that is missing fails on its own: every other watched path
/// whose listing succeeded still has all of its moves planned.
pub proof fn missing_path_fails_only_its_watch(
    config: Config,
    time: i64,
    listings: Seq<Listing>,
    results: Seq<Result<Vec<FileMove>, ShiftError>>,
    k: int,
)
    requires
        listings.len() == config.paths@.len(),
        results.len() == config.paths@.len(),
        forall|i: int|
            0 <= i < results.len() ==> shift_outcome(
                config.paths@[i].0@,
                config.paths@[i].1,
                time,
                listings[i],
                #[trigger] results[i],
            ),
        0 <= k < listings.len(),
        listings[k] is NotADirectory,
    ensures
        results[k] matches Err(ShiftError::NotADirectory { name: n, path: p })
            && n@ == config.paths@[k].0@ && p@ == config.paths@[k].1.path@,
        forall|j: int|
            0 <= j < results.len() && j != k && listings[j] is Entries ==> ((#[trigger] results[j])
                matches Ok(moves) && moves_view(moves@) == planned(
                config.paths@[j].1.path@,
                config.paths@[j].1.dest@,
                effective_min_age(config.paths@[j].1),
                time,
                listings[j]->Entries_0@,
            )),
{
    assert(shift_outcome(config.paths@[k].0@, config.paths@[k].1, time, listings[k], results[k]));
}

impl Cli {
    /// The configuration file to read: the one given, or `shift.toml` in the
    /// home directory `home`.
    pub fn config_path_with(&self, home: Option<String>) -> (r: Result<String, ShiftError>)
        ensures
            match self.config {
                Some(c) => r matches Ok(p) && p@ == c@,
                None => match home {
                    Some(h) => r matches Ok(p) && p@ == joined(h@, config_file_name()),
                    None => r matches Err(ShiftError::NoHomeDirectory),
                },
            },
    {
        match &self.config {
            Some(c) => Ok(c.clone()),
            None => config_path_in(home),
        }
    }

    /// The configuration file to read: the one given, or `shift.toml` in the
    /// current user's home directory.
    pub fn config_path(&self) -> (r: Result<String, ShiftError>)
        ensures
            match self.config {
                Some(c) => r matches Ok(p) && p@ == c@,
                None => match r {
                    Ok(p) => exists|h: Seq<char>| h.len() > 0 && p@ == joined(h, config_file_name()),
                    Err(e) => e is NoHomeDirectory,
                },
            },
    {
        match &self.config {
            Some(c) => Ok(c.clone()),
            None => default_config_path(),
        }
    }

    /// Decides the moves for the watched path `conf`, called `name`, from one
    /// listing of it taken against the reference time `time`.
    pub fn shift(&self, name: &String, conf: &PathConfig, time: i64, listing: &Listing) -> (r:
        Result<Vec<FileMove>, ShiftError>)
        requires
            conf.min_age_seconds is Some,
        ensures
            shift_outcome(name@, *conf, time, *listing, r),
    {
        match listing {
            Listing::NotADirectory => Err(
                ShiftError::NotADirectory { name: name.clone(), path: conf.path.clone() },
            ),
            Listing::Unreadable(why) => Err(
                ShiftError::ListFailed {
                    name: name.clone(),
                    path: conf.path.clone(),
                    reason: why.clone(),
                },
            ),
            Listing::Entries(entries) => Ok(
                plan_moves(&conf.path, &conf.dest, conf.min_age(), time, entries),
            ),
        }
    }

    /// Decides the moves of every watched path of `config`, each from its own
    /// listing, at the reference time `time` shared by the whole run.
    pub fn shift_all(&self, config: &Config, time: i64, listings: &Vec<Listing>) -> (r: Vec<
        Result<Vec<FileMove>, ShiftError>,
    >)
        requires
            config.resolved(),
            listings@.len() == config.paths@.len(),
        ensures
            r@.len() == config.paths@.len(),
            forall|i: int|
                0 <= i < r@.len() ==> shift_outcome(
                    config.paths@[i].0@,
                    config.paths@[i].1,
                    time,
                    listings@[i],
                    #[trigger] r@[i],
                ),
    {
        let mut r: Vec<Result<Vec<FileMove>, ShiftError>> = Vec::new();
        let mut i: usize = 0;
        while i < config.paths.len()
            invariant
                config.resolved(),
                listings@.len() == config.paths@.len(),
                i <= config.paths@.len(),
                r@.len() == i,
                forall|k: int|
                    0 <= k < i ==> shift_outcome(
                        config.paths@[k].0@,
                        config.paths@[k].1,
                        time,
                        listings@[k],
                        #[trigger] r@[k],
                    ),
            decreases config.paths@.len() - i,
        {
            let entry = &config.paths[i];
            let outcome = self.shift(&entry.0, &entry.1, time, &listings[i]);
            r.push(outcome);
            i = i + 1;
        }
        r
    }

    /// What to do with the move of `from` to `to`: rename the file when
    /// executing, and otherwise only report it.
    pub fn shift_file(&self, from: String, to: String) -> (r: FileAction)
        ensures
            r == action_for(self.execute, from, to),
    {
        if self.execute {
            FileAction::Rename { from, to }
        } else {
            FileAction::Preview { from, to }
        }
    }
}

} // verus!
