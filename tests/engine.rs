use shifters::cli::{settle, config_path_in, Cli, FileAction, Listing, ShiftError};
use shifters::config::{Config, Global, PathConfig};
use shifters::scan::{check_valid_entry, join_path, plan_moves, Entry, FileMove};

const NOW: i64 = 1_700_000_000;

fn file(name: &str, modified: i64) -> Entry {
    Entry { name: name.to_string(), is_file: true, modified: Some(modified) }
}

fn dir(name: &str, modified: i64) -> Entry {
    Entry { name: name.to_string(), is_file: false, modified: Some(modified) }
}

fn path_config(path: &str, dest: &str, min_age_seconds: Option<u32>) -> PathConfig {
    PathConfig { path: path.to_string(), dest: dest.to_string(), min_age_seconds }
}

fn mv(from: &str, to: &str) -> FileMove {
    FileMove { from: from.to_string(), to: to.to_string() }
}

#[test]
fn age_exactly_at_threshold_is_eligible() {
    assert!(check_valid_entry(&file("a", NOW - 500), 500, NOW));
    assert!(check_valid_entry(&file("a", NOW - 501), 500, NOW));
    assert!(!check_valid_entry(&file("a", NOW - 499), 500, NOW));
}

#[test]
fn unreadable_metadata_is_not_eligible() {
    let e = Entry { name: "a".to_string(), is_file: true, modified: None };
    assert!(!check_valid_entry(&e, 0, NOW));
}

#[test]
fn extreme_times_do_not_overflow() {
    assert!(check_valid_entry(&file("a", i64::MIN), u32::MAX, i64::MIN + i64::from(u32::MAX)));
    assert!(!check_valid_entry(&file("a", i64::MIN + 1), u32::MAX, i64::MIN + i64::from(u32::MAX)));
    assert!(check_valid_entry(&file("a", i64::MAX), 0, i64::MAX));
}

#[test]
fn zero_threshold_makes_every_file_eligible() {
    let entries = vec![file("new", NOW), file("old", 0), file("older", -5)];
    let moves = plan_moves(&"src".to_string(), &"dst".to_string(), 0, NOW, &entries);
    assert_eq!(
        moves,
        vec![mv("src/new", "dst/new"), mv("src/old", "dst/old"), mv("src/older", "dst/older")]
    );
}

#[test]
fn directories_are_never_eligible() {
    assert!(!check_valid_entry(&dir("sub", 0), 0, NOW));
    assert!(!check_valid_entry(&dir("sub", i64::MIN), 500, NOW));
}

#[test]
fn nested_files_are_not_moved() {
    // "bar" is a subdirectory of the watched path; its file4.txt never appears
    // in the listing and the directory itself is not moved.
    let entries = vec![file("file3.txt", NOW - 600), dir("bar", NOW - 600)];
    let moves = plan_moves(&"foo".to_string(), &"bar".to_string(), 500, NOW, &entries);
    assert_eq!(moves, vec![mv("foo/file3.txt", "bar/file3.txt")]);
}

#[test]
fn dry_run_only_previews() {
    let cli = Cli { config: None, execute: false };
    let action = cli.shift_file("foo/a".to_string(), "bar/a".to_string());
    assert_eq!(
        action,
        FileAction::Preview { from: "foo/a".to_string(), to: "bar/a".to_string() }
    );
}

#[test]
fn execute_renames() {
    let cli = Cli { config: None, execute: true };
    let action = cli.shift_file("foo/a".to_string(), "bar/a".to_string());
    assert_eq!(
        action,
        FileAction::Rename { from: "foo/a".to_string(), to: "bar/a".to_string() }
    );
}

#[test]
fn second_run_has_nothing_to_do() {
    let entries = vec![file("old.txt", NOW - 900), file("new.txt", NOW)];
    let first = plan_moves(&"foo".to_string(), &"bar".to_string(), 500, NOW, &entries);
    assert_eq!(first, vec![mv("foo/old.txt", "bar/old.txt")]);
    let left = vec![file("new.txt", NOW)];
    let second = plan_moves(&"foo".to_string(), &"bar".to_string(), 500, NOW, &left);
    assert!(second.is_empty());
}

#[test]
fn missing_source_fails_only_its_watch() {
    let config = Config {
        global: Global { min_age_seconds: 0 },
        paths: vec![
            ("gone".to_string(), path_config("/nope", "/dst", Some(0))),
            ("here".to_string(), path_config("/src", "/dst", Some(0))),
        ],
    };
    let cli = Cli { config: None, execute: true };
    let listings = vec![Listing::NotADirectory, Listing::Entries(vec![file("a", NOW)])];
    let results = cli.shift_all(&config, NOW, &listings);
    assert_eq!(
        results[0],
        Err(ShiftError::NotADirectory { name: "gone".to_string(), path: "/nope".to_string() })
    );
    assert_eq!(results[1], Ok(vec![mv("/src/a", "/dst/a")]));
}

#[test]
fn unreadable_listing_fails_its_watch() {
    let cli = Cli { config: None, execute: false };
    let conf = path_config("/src", "/dst", Some(0));
    let r = cli.shift(&"w".to_string(), &conf, NOW, &Listing::Unreadable("denied".to_string()));
    assert_eq!(
        r,
        Err(ShiftError::ListFailed {
            name: "w".to_string(),
            path: "/src".to_string(),
            reason: "denied".to_string(),
        })
    );
}

#[test]
fn empty_listing_is_nothing_to_do() {
    let cli = Cli { config: None, execute: true };
    let conf = path_config("/src", "/dst", Some(10));
    let r = cli.shift(&"w".to_string(), &conf, NOW, &Listing::Entries(vec![]));
    assert_eq!(r, Ok(vec![]));
}

#[test]
fn base_name_is_kept() {
    assert_eq!(join_path(&"dest_dir".to_string(), &"file one.txt".to_string()), "dest_dir/file one.txt");
    assert_eq!(join_path(&"dest_dir/".to_string(), &"file one.txt".to_string()), "dest_dir/file one.txt");
    assert_eq!(join_path(&"".to_string(), &"file one.txt".to_string()), "file one.txt");
    let moves = plan_moves(
        &"source_dir".to_string(),
        &"dest_dir".to_string(),
        0,
        NOW,
        &vec![file("file one.txt", NOW)],
    );
    assert_eq!(moves, vec![mv("source_dir/file one.txt", "dest_dir/file one.txt")]);
}

#[test]
fn settle_reports_first_failure() {
    assert_eq!(settle(vec![]), Ok(()));
    assert_eq!(settle(vec![Ok(()), Ok(())]), Ok(()));
    let first = ShiftError::MoveFailed {
        from: "a".to_string(),
        to: "b".to_string(),
        reason: "x".to_string(),
    };
    let second = ShiftError::NotADirectory { name: "n".to_string(), path: "p".to_string() };
    assert_eq!(settle(vec![Ok(()), Err(first.clone()), Err(second)]), Err(first));
}

#[test]
fn resolution_fills_missing_thresholds() {
    let mut config = Config {
        global: Global { min_age_seconds: 500 },
        paths: vec![
            ("a".to_string(), path_config("x", "y", None)),
            ("b".to_string(), path_config("x", "y", Some(0))),
            ("c".to_string(), path_config("x", "y", Some(7))),
        ],
    };
    config.resolve_min_ages();
    assert_eq!(config.paths[0].1.min_age_seconds, Some(500));
    assert_eq!(config.paths[1].1.min_age_seconds, Some(0));
    assert_eq!(config.paths[2].1.min_age_seconds, Some(7));
    assert_eq!(config.paths[0].1.min_age(), 500);
}

#[test]
fn zero_global_gives_zero_threshold() {
    let mut config = Config {
        global: Global::default(),
        paths: vec![
            ("a".to_string(), path_config("x", "y", None)),
            ("b".to_string(), path_config("x", "y", Some(9))),
        ],
    };
    config.resolve_min_ages();
    assert_eq!(config.paths[0].1.min_age_seconds, Some(0));
    assert_eq!(config.paths[0].1.min_age(), 0);
    assert_eq!(config.paths[1].1.min_age_seconds, Some(9));
}

#[test]
fn config_path_from_home() {
    assert_eq!(config_path_in(Some("/home/u".to_string())), Ok("/home/u/shift.toml".to_string()));
    assert_eq!(config_path_in(None), Err(ShiftError::NoHomeDirectory));
    let cli = Cli { config: None, execute: false };
    assert_eq!(cli.config_path_with(Some("/h".to_string())), Ok("/h/shift.toml".to_string()));
    assert_eq!(cli.config_path_with(None), Err(ShiftError::NoHomeDirectory));
}

#[test]
fn given_config_path_wins() {
    let cli = Cli { config: Some("/etc/x.toml".to_string()), execute: false };
    assert_eq!(cli.config_path(), Ok("/etc/x.toml".to_string()));
    assert_eq!(cli.config_path_with(None), Ok("/etc/x.toml".to_string()));
}

#[test]
fn default_config_path_is_in_home() {
    let cli = Cli { config: None, execute: false };
    match cli.config_path() {
        Ok(p) => assert!(p.ends_with("/shift.toml") && p.len() > "/shift.toml".len()),
        Err(e) => assert_eq!(e, ShiftError::NoHomeDirectory),
    }
}

#[test]
fn happy_path() {
    let mut config = Config {
        global: Global { min_age_seconds: 500 },
        paths: vec![
            ("test1".to_string(), path_config("foo", "bar", None)),
            ("test2".to_string(), path_config("mydir/baz", "mydir/buz space", Some(0))),
        ],
    };
    config.resolve_min_ages();
    let cli = Cli { config: Some("shift.toml".to_string()), execute: true };
    let listings = vec![
        Listing::Entries(vec![
            file("file one.txt", NOW - 600),
            file("file2.txt", NOW),
            file("file3.txt", NOW - 600),
            dir("bar", NOW),
        ]),
        Listing::Entries(vec![file("file1.txt", NOW), file("file2.txt", NOW)]),
    ];
    let results = cli.shift_all(&config, NOW, &listings);
    assert_eq!(
        results[0],
        Ok(vec![mv("foo/file one.txt", "bar/file one.txt"), mv("foo/file3.txt", "bar/file3.txt")])
    );
    assert_eq!(
        results[1],
        Ok(vec![
            mv("mydir/baz/file1.txt", "mydir/buz space/file1.txt"),
            mv("mydir/baz/file2.txt", "mydir/buz space/file2.txt"),
        ])
    );
    let actions: Vec<FileAction> = match &results[0] {
        Ok(moves) => moves.iter().map(|m| cli.shift_file(m.from.clone(), m.to.clone())).collect(),
        Err(_) => vec![],
    };
    assert!(actions.iter().all(|a| matches!(a, FileAction::Rename { .. })));
}
