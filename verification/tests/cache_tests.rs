use gitnav::cache::{fingerprint, is_cache_file_name, Cache};
use gitnav::records::{decode_records, encode_records, GitRepo};

#[test]
fn test_cache_file_path_deterministic() {
    let cache = Cache { cache_dir: String::from("/tmp/test"), ttl_seconds: 300 };

    let path1 = cache.cache_file_path("/home/user");
    let path2 = cache.cache_file_path("/home/user");
    assert_eq!(path1, path2);
}

#[test]
fn test_cache_file_path_different_paths() {
    let cache = Cache { cache_dir: String::from("/tmp/test"), ttl_seconds: 300 };

    let path1 = cache.cache_file_path("/home/user");
    let path2 = cache.cache_file_path("/home/other");
    assert_ne!(path1, path2);
}

#[test]
fn test_cache_file_path_contains_hash_prefix() {
    let cache = Cache { cache_dir: String::from("/tmp/test"), ttl_seconds: 300 };

    let path = cache.cache_file_path("/home/user");
    let filename = path.rsplit('/').next().unwrap();
    assert!(filename.starts_with("repos_"));
    assert!(filename.ends_with(".cache"));
}

#[test]
fn test_cache_file_path_hash_length() {
    let cache = Cache { cache_dir: String::from("/tmp/test"), ttl_seconds: 300 };

    let path = cache.cache_file_path("/home/user");
    let filename = path.rsplit('/').next().unwrap();
    // Should be "repos_" (6 chars) + 16 hex chars + ".cache" (6 chars) = 28 chars total
    assert_eq!(filename.len(), 28);
}

#[test]
fn test_cache_save_and_load_roundtrip() {
    let repos = vec![
        GitRepo {
            name: "test-repo".to_string(),
            path: String::from("/home/user/repos/test-repo"),
        },
        GitRepo {
            name: "another-repo".to_string(),
            path: String::from("/home/user/repos/another-repo"),
        },
    ];

    let cache_dir = String::from("/tmp/test");
    let _cache = Cache { cache_dir, ttl_seconds: 300 };

    let contents = encode_records(&repos);

    // Verify format
    assert!(contents.contains("test-repo"));
    assert!(contents.contains("another-repo"));
    assert!(contents.contains('\t'));
}

#[test]
fn test_cache_parse_tsv_format() {
    let contents = "repo1\t/path/to/repo1\nrepo2\t/path/to/repo2";

    let repos = decode_records(contents);

    assert_eq!(repos.len(), 2);
    assert_eq!(repos[0].name, "repo1");
    assert_eq!(repos[1].name, "repo2");
}

#[test]
fn test_cache_parse_ignores_malformed_lines() {
    let contents = "repo1\t/path/to/repo1\nmalformed_line\nrepo2\t/path/to/repo2";

    let repos = decode_records(contents);

    assert_eq!(repos.len(), 2);
    assert_eq!(repos[0].name, "repo1");
    assert_eq!(repos[1].name, "repo2");
}

#[test]
fn test_git_repo_construction() {
    let repo = GitRepo { name: "test-repo".to_string(), path: String::from("/home/user/test-repo") };

    assert_eq!(repo.name, "test-repo");
    assert_eq!(repo.path, String::from("/home/user/test-repo"));
}

#[test]
fn test_cache_ttl_parameter() {
    let cache_short = Cache { cache_dir: String::from("/tmp/test"), ttl_seconds: 60 };

    let cache_long = Cache { cache_dir: String::from("/tmp/test"), ttl_seconds: 3600 };

    assert_eq!(cache_short.ttl_seconds, 60);
    assert_eq!(cache_long.ttl_seconds, 3600);
    assert_ne!(cache_short.ttl_seconds, cache_long.ttl_seconds);
}

#[test]
fn test_cache_file_path_multiple_hash_consistency() {
    let cache = Cache { cache_dir: String::from("/tmp/test"), ttl_seconds: 300 };

    // Same path should always generate same hash
    let paths: Vec<_> = (0..5).map(|_| cache.cache_file_path("/home/user/projects")).collect();

    for path in &paths[1..] {
        assert_eq!(paths[0], *path);
    }
}

#[test]
fn test_cache_file_path_unicode_paths() {
    let cache = Cache { cache_dir: String::from("/tmp/test"), ttl_seconds: 300 };

    let path1 = cache.cache_file_path("/home/用户/项目");
    let path2 = cache.cache_file_path("/home/用户/项目");
    assert_eq!(path1, path2);

    let path3 = cache.cache_file_path("/home/different/项目");
    assert_ne!(path1, path3);
}

#[test]
fn test_cache_file_path_similar_paths() {
    let cache = Cache { cache_dir: String::from("/tmp/test"), ttl_seconds: 300 };

    // Similar paths should produce different hashes
    let path1 = cache.cache_file_path("/home/user");
    let path2 = cache.cache_file_path("/home/user/");
    let path3 = cache.cache_file_path("/home/user2");

    assert_ne!(path1, path2);
    assert_ne!(path1, path3);
    assert_ne!(path2, path3);
}

#[test]
fn test_cache_roundtrip_multiple_repos() {
    let repos = vec![
        GitRepo { name: "repo1".to_string(), path: String::from("/path/1") },
        GitRepo { name: "repo2".to_string(), path: String::from("/path/2") },
        GitRepo { name: "repo3".to_string(), path: String::from("/path/3") },
    ];

    let _cache_dir = String::from("/tmp/test");

    // Format as cache would save
    let contents = encode_records(&repos);

    // Parse back
    let parsed = decode_records(&contents);

    assert_eq!(repos.len(), parsed.len());
    for (original, parsed_repo) in repos.iter().zip(parsed.iter()) {
        assert_eq!(original.name, parsed_repo.name);
        assert_eq!(original.path, parsed_repo.path);
    }
}

#[test]
fn test_cache_handles_empty_repository_list() {
    let repos: Vec<GitRepo> = vec![];

    let contents = encode_records(&repos);

    assert_eq!(contents, "");

    let parsed = decode_records(&contents);

    assert_eq!(parsed.len(), 0);
}

#[test]
fn test_fingerprint_is_sixteen_hex_chars() {
    let fp = fingerprint("/home/user");
    assert_eq!(fp.len(), 16);
    assert!(fp.chars().all(|c| c.is_ascii_hexdigit()));
}

#[test]
fn test_fingerprint_of_empty_path_matches_sha256() {
    // The SHA-256 digest of the empty input starts with e3b0c44298fc1c14.
    let fp = fingerprint("");
    assert_eq!(fp, "e3b0c44298fc1c14");
}

#[test]
fn test_fingerprint_differs_for_trailing_separator() {
    assert_ne!(fingerprint("/home/user"), fingerprint("/home/user/"));
}

#[test]
fn test_cache_file_name_uses_fingerprint() {
    let cache = Cache { cache_dir: String::from("/tmp/test"), ttl_seconds: 300 };
    let name = cache.cache_file_name("/home/user");
    let expected = format!("repos_{}.cache", fingerprint("/home/user"));
    assert_eq!(name, expected);
}

#[test]
fn test_is_fresh_strictly_below_ttl() {
    let cache = Cache { cache_dir: String::from("/tmp/test"), ttl_seconds: 10 };
    assert!(cache.is_fresh(0));
    assert!(cache.is_fresh(9));
    assert!(!cache.is_fresh(10));
    assert!(!cache.is_fresh(11));
}

#[test]
fn test_zero_ttl_is_always_stale() {
    let cache = Cache { cache_dir: String::from("/tmp/test"), ttl_seconds: 0 };
    assert!(!cache.is_fresh(0));
    assert!(!cache.is_fresh(1));
}

#[test]
fn test_is_cache_file_name_convention() {
    assert!(is_cache_file_name("repos_0123456789abcdef.cache"));
    assert!(is_cache_file_name("x.cache"));
    assert!(!is_cache_file_name(".cache"));
    assert!(!is_cache_file_name("repos_0123456789abcdef.txt"));
    assert!(!is_cache_file_name("repos_0123456789abcdef"));
}

#[test]
fn test_decode_keeps_line_with_empty_fields() {
    // A line with exactly one tab has two fields, even empty ones.
    let repos = decode_records("\t");
    assert_eq!(repos.len(), 1);
    assert_eq!(repos[0].name, "");
    assert_eq!(repos[0].path, "");
}

#[test]
fn test_decode_drops_line_with_two_tabs() {
    let repos = decode_records("a\tb\tc\nok\t/p");
    assert_eq!(repos.len(), 1);
    assert_eq!(repos[0].name, "ok");
}
