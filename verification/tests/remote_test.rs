use moon::remote::{
    download_plan,
    assign_stdio, connect_allowed, get_max_batch_size, partition_into_groups, save_action_needed,
    should_update_action_result, upload_succeeded, CacheCapabilities, Digest, ServerCapabilities,
};

fn digest(hash: &str, size: i64) -> Digest {
    Digest { hash: hash.into(), size_bytes: size }
}

#[test]
fn partitions_blobs_into_batches() {
    let items = vec!["a", "b", "c", "d", "e"];
    let sizes = vec![4, 7, 3, 12, 2];
    let keep = vec![true, true, true, true, false];
    let groups = partition_into_groups(items, &sizes, &keep, 10);
    let summary: Vec<(Vec<&str>, usize, bool)> =
        groups.into_iter().map(|g| (g.items, g.size, g.stream)).collect();
    assert_eq!(
        summary,
        vec![(vec!["a", "c"], 7, false), (vec!["b"], 7, false), (vec!["d"], 12, true)]
    );
}

#[test]
fn computes_batch_sizes() {
    let caps = |max| ServerCapabilities {
        cache_capabilities: Some(CacheCapabilities {
            digest_functions: vec![1],
            supported_compressors: vec![],
            supported_batch_update_compressors: vec![],
            action_cache_update_enabled: None,
            max_batch_total_size_bytes: max,
        }),
    };
    assert_eq!(get_max_batch_size(&caps(0)), 4194304 - 25600);
    assert_eq!(get_max_batch_size(&caps(1_000_000)), 1_000_000 - 25600);
    assert_eq!(get_max_batch_size(&ServerCapabilities { cache_capabilities: None }), 4194304 - 25600);
}

#[test]
fn decides_remote_steps() {
    assert!(!connect_allowed(true, true));
    assert!(connect_allowed(true, false));
    assert!(connect_allowed(false, true));
    assert!(save_action_needed(&vec![digest("x", 1), digest("y", 2)], &digest("y", 2)));
    assert!(!save_action_needed(&vec![digest("y", 3)], &digest("y", 2)));
    assert!(upload_succeeded(0, &vec![]));
    assert!(!upload_succeeded(2, &vec![]));
    assert!(upload_succeeded(2, &vec![true, true]));
    assert!(!upload_succeeded(2, &vec![true, false]));
    assert!(should_update_action_result(false, false));
    assert!(!should_update_action_result(true, false));
}

#[test]
fn assigns_fetched_stdio_blobs() {
    let err = Some(digest("e", 3));
    let out = Some(digest("o", 2));
    let blobs = vec![(digest("o", 2), b"hi".to_vec()), (digest("z", 1), b"?".to_vec()), (digest("e", 3), b"bad".to_vec())];
    assert_eq!(assign_stdio(&err, &out, blobs), (Some(b"bad".to_vec()), Some(b"hi".to_vec())));
    assert_eq!(assign_stdio(&None, &None, vec![(digest("e", 3), b"x".to_vec())]), (None, None));
}

#[test]
fn plans_output_downloads() {
    let files = vec![
        ("dist/a.js".to_string(), Some(digest("h1", 10))),
        ("dist/skip".to_string(), None),
        ("dist/b.js".to_string(), Some(digest("h2", 20))),
        ("dist/c.js".to_string(), Some(digest("h1", 10))),
    ];
    let (map, digests) = download_plan(&files);
    assert_eq!(map, vec![("h1".to_string(), "dist/c.js".to_string()), ("h2".to_string(), "dist/b.js".to_string())]);
    assert_eq!(digests, vec![digest("h1", 10), digest("h2", 20), digest("h1", 10)]);
}
