use where_cmd::index::{sorted_strings, PathIndex};
use where_cmd::paths::split_search_path;

#[test]
fn test_env_path_and_deep() {
    // `--env-path <base> --deep 3`: the walk of <base> finds base/deep/nested/python.
    let dirs = split_search_path("/tmp/t/base");
    let mut index = PathIndex::new();
    index.add("python".to_string(), format!("{}/deep/nested/python", dirs[0]));
    let matches = index.paths_named("python");
    assert_eq!(matches.len(), 1);
    assert!(matches[0].contains("deep/nested/python"));
}

#[test]
fn lookups_keep_search_order() {
    let mut index = PathIndex::new();
    index.add("ls".to_string(), "/usr/bin/ls".to_string());
    index.add("cat".to_string(), "/usr/bin/cat".to_string());
    index.add("ls".to_string(), "/bin/ls".to_string());
    assert_eq!(index.len(), 3);
    assert_eq!(index.paths_named("ls"), vec!["/usr/bin/ls".to_string(), "/bin/ls".to_string()]);
    assert_eq!(index.paths_named("cat"), vec!["/usr/bin/cat".to_string()]);
    assert!(index.paths_named("dog").is_empty());
    assert_eq!(index.names(), vec!["cat".to_string(), "ls".to_string()]);
}

#[test]
fn sorted_without_repeats() {
    let items: Vec<String> = ["pip", "python3", "python", "pip", "Python"].iter().map(|s| s.to_string()).collect();
    let sorted = sorted_strings(&items);
    assert_eq!(sorted, vec!["Python", "pip", "python", "python3"]);
    let mut expected = items.clone();
    expected.sort();
    expected.dedup();
    assert_eq!(sorted, expected);
}

#[test]
fn sorting_matches_byte_order_beyond_ascii() {
    let items: Vec<String> = ["é", "z", "ä", "a", "é"].iter().map(|s| s.to_string()).collect();
    let mut expected = items.clone();
    expected.sort();
    expected.dedup();
    assert_eq!(sorted_strings(&items), expected);
}

#[test]
fn listed_names_are_exactly_the_found_ones() {
    let mut index = PathIndex::new();
    index.add("vim".to_string(), "/usr/bin/vim".to_string());
    index.add("ls".to_string(), "/usr/bin/ls".to_string());
    index.add("vim".to_string(), "/bin/vim".to_string());
    let names = index.names();
    assert_eq!(names, vec!["ls", "vim"]);
    for n in &names {
        assert!(!index.paths_named(n).is_empty());
    }
    assert!(index.paths_named("emacs").is_empty());
    assert_eq!(index.paths_named("vim"), vec!["/usr/bin/vim", "/bin/vim"]);
}
