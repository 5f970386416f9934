use flint::snapshot::{fnv1a_hash, repo_path_for, repos_to_prune, workspace_hash, MAX_SNAPSHOT_REPOS};

fn fnv1a(bytes: &[u8]) -> u64 {
    let mut h: u64 = 0xcbf29ce484222325;
    for b in bytes {
        h ^= *b as u64;
        h = h.wrapping_mul(0x100000001b3);
    }
    h
}

#[test]
fn fnv1a_matches_the_reference_values() {
    assert_eq!(fnv1a_hash(b""), 0xcbf29ce484222325);
    assert_eq!(fnv1a_hash(b"a"), 0xaf63dc4c8601ec8c);
    assert_eq!(fnv1a_hash(b"foobar"), 0x85944171f73967e8);
}

#[test]
fn workspace_hash_is_sixteen_hex_digits_of_fnv1a() {
    let ws = "/Users/ana/projét";
    let expected = format!("{:016x}", fnv1a(ws.as_bytes()));
    let got = workspace_hash(ws);
    assert_eq!(got, expected);
    assert_eq!(got.len(), 16);
    assert_eq!(workspace_hash(ws), got, "stable for one path");
    assert_ne!(workspace_hash("/Users/ana/other"), got);
    assert_eq!(workspace_hash(""), "cbf29ce484222325");
}

#[test]
fn repo_path_sits_under_the_root() {
    let root = "/Users/ana/.flint/snapshots";
    let p = repo_path_for(root, "/w");
    assert_eq!(p, format!("{root}/{}", workspace_hash("/w")));
}

#[test]
fn at_most_ten_repos_means_no_eviction() {
    assert_eq!(MAX_SNAPSHOT_REPOS, 10);
    let times: Vec<Option<u128>> = (0..10).map(|t| Some(t as u128)).collect();
    assert!(repos_to_prune(&times, 10).is_empty());
    assert!(repos_to_prune(&Vec::new(), 0).is_empty());
}

#[test]
fn oldest_beyond_ten_are_evicted_oldest_first() {
    // Twelve repositories, listed out of age order.
    let times: Vec<Option<u128>> = vec![
        Some(50), Some(10), Some(70), None, Some(20), Some(80),
        Some(90), Some(100), Some(110), Some(120), Some(130), Some(140),
    ];
    // The unknown time sorts first, then 10.
    assert_eq!(repos_to_prune(&times, 12), vec![3, 1]);
    // The repository just snapshotted is never evicted, however old its directory.
    assert_eq!(repos_to_prune(&times, 3), vec![1, 4]);
    assert_eq!(repos_to_prune(&times, 11), vec![3, 1]);
}

#[test]
fn ties_are_evicted_in_listing_order() {
    let mut times: Vec<Option<u128>> = vec![Some(5); 13];
    times[7] = Some(1);
    assert_eq!(repos_to_prune(&times, 99), vec![7, 0, 1]);
    assert_eq!(repos_to_prune(&times, 0), vec![7, 1, 2]);
}
