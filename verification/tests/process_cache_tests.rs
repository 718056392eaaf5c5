use moon_core::process_cache::{ProcessCache, ProcessCacheError};
use std::path::PathBuf;

#[test]
fn new_cache_is_empty_and_commands_run_from_root() {
    let cache = ProcessCache::new("git", PathBuf::from("/repo"));
    assert_eq!(cache.bin, "git");
    assert_eq!(cache.root, PathBuf::from("/repo"));
    assert!(cache.needs_run(&"k".to_string()));
    let command = cache.create_command(vec!["status".to_string(), "--short".to_string()]);
    assert_eq!(command.bin, "git");
    assert_eq!(command.args, vec!["status", "--short"]);
    assert_eq!(command.cwd, PathBuf::from("/repo"));
}

#[test]
fn first_run_stores_formatted_output() {
    let mut cache = ProcessCache::new("git", PathBuf::from("/repo"));
    let out = cache
        .run_command_with_formatter("k".to_string(), Some(" main \n".to_string()), false, |s| s.to_uppercase())
        .unwrap()
        .to_string();
    assert_eq!(out, " MAIN \n");
    assert!(!cache.needs_run(&"k".to_string()));
}

#[test]
fn later_runs_read_the_cache() {
    let mut cache = ProcessCache::new("git", PathBuf::from("/repo"));
    cache.run_command("k".to_string(), Some("first\n".to_string()), true).unwrap();
    let again = cache.run_command("k".to_string(), Some("second".to_string()), true).unwrap();
    assert_eq!(again, "first");
    let untrimmed = cache.run_command("k".to_string(), None, false).unwrap();
    assert_eq!(untrimmed, "first\n");
}

#[test]
fn trim_applies_to_the_answer() {
    let mut cache = ProcessCache::new("git", PathBuf::from("/repo"));
    let out = cache.run_command("k".to_string(), Some("  abc  ".to_string()), true).unwrap().to_string();
    assert_eq!(out, "abc");
}

#[test]
fn missing_output_is_an_error() {
    let mut cache = ProcessCache::new("git", PathBuf::from("/repo"));
    assert_eq!(cache.run_command("k".to_string(), None, false).err(), Some(ProcessCacheError::MissingOutput));
    assert!(cache.needs_run(&"k".to_string()));
}

#[test]
fn keys_are_independent() {
    let mut cache = ProcessCache::new("git", PathBuf::from("/repo"));
    cache.run_command("a".to_string(), Some("A".to_string()), false).unwrap();
    cache.run_command("b".to_string(), Some("B".to_string()), false).unwrap();
    assert_eq!(cache.run_command("a".to_string(), None, false).unwrap(), "A");
    assert_eq!(cache.run_command("b".to_string(), None, false).unwrap(), "B");
}

#[test]
fn trimmed_answer_is_the_stored_output_trimmed() {
    let mut cache = ProcessCache::new("git", PathBuf::from("/repo"));
    let first = cache.run_command("k".to_string(), Some("  v \n".to_string()), true).unwrap().to_string();
    cache.run_command("other".to_string(), Some("o".to_string()), true).unwrap();
    let whole = cache.run_command("k".to_string(), Some("new".to_string()), false).unwrap().to_string();
    assert_eq!(whole, "  v \n");
    assert_eq!(first, whole.trim());
}

#[test]
fn commands_keep_their_arguments_and_root() {
    let root = PathBuf::from("/work/space");
    let cache = ProcessCache::new("git", root.clone());
    let command = cache.create_command(vec!["log", "-1"]);
    assert_eq!(command.args, vec!["log", "-1"]);
    assert_eq!(command.cwd, root);
}
