use where_cmd::dedup::{group_candidates, Candidate};

fn cand(path: &str, id: Option<(u64, u64)>) -> Candidate {
    Candidate { path: path.to_string(), executable: true, identity: id }
}

#[test]
fn test_deduplication() {
    // A symlink in bin/ and its target in usr_bin/ reach the same inode.
    let cands = vec![cand("/tmp/x/bin/python", Some((10, 77))), cand("/tmp/x/usr_bin/python", Some((10, 77)))];
    let g = group_candidates(&cands, false);
    assert_eq!(g.groups.len(), 1);
    assert_eq!(g.groups[0].path, "/tmp/x/bin/python");
    assert_eq!(g.groups[0].aliases, vec!["/tmp/x/usr_bin/python".to_string()]);
    assert_eq!(g.removed, 1);
}

#[test]
fn distinct_files_stay_separate() {
    let cands = vec![
        cand("/a/x", Some((1, 1))),
        cand("/b/x", Some((1, 2))),
        cand("/c/x", Some((1, 1))),
        cand("/d/x", None),
        cand("/e/x", None),
    ];
    let g = group_candidates(&cands, false);
    let paths: Vec<&str> = g.groups.iter().map(|m| m.path.as_str()).collect();
    assert_eq!(paths, vec!["/a/x", "/b/x", "/d/x", "/e/x"]);
    assert_eq!(g.groups[0].aliases, vec!["/c/x".to_string()]);
    assert_eq!(g.removed, 1);
    assert_eq!(g.groups.len() + g.removed, cands.len());
}

#[test]
fn first_only_stops_at_first_match() {
    let cands = vec![cand("/a/x", Some((1, 1))), cand("/b/x", Some((1, 1))), cand("/c/x", Some((2, 1)))];
    let g = group_candidates(&cands, true);
    assert_eq!(g.groups.len(), 1);
    assert!(g.groups[0].aliases.is_empty());
    assert_eq!(g.removed, 0);
}

#[test]
fn no_candidates_no_matches() {
    let g = group_candidates(&Vec::new(), false);
    assert!(g.groups.is_empty());
    assert_eq!(g.removed, 0);
}

#[test]
fn every_path_found_is_reported() {
    let cands = vec![
        cand("/a/x", Some((1, 1))),
        cand("/b/x", Some((1, 2))),
        cand("/c/x", Some((1, 1))),
        cand("/d/x", Some((1, 2))),
        cand("/e/x", None),
    ];
    let g = group_candidates(&cands, false);
    for c in &cands {
        let placed = g.groups.iter().any(|m| {
            m.identity == c.identity && (m.path == c.path || m.aliases.contains(&c.path))
        });
        assert!(placed, "{} not reported", c.path);
    }
}
