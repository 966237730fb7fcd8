use gitnav::records::GitRepo;
use gitnav::scanner::{format_for_fzf, scan_tree, sort_records, DirEntry};

fn dir(name: &str, entries: Vec<DirEntry>) -> DirEntry {
    DirEntry::Directory { name: name.to_string(), entries }
}

fn file(name: &str) -> DirEntry {
    DirEntry::Other { name: name.to_string() }
}

#[test]
fn test_format_for_fzf() {
    let repos = vec![
        GitRepo { name: "repo1".to_string(), path: String::from("/home/user/repo1") },
        GitRepo { name: "repo2".to_string(), path: String::from("/home/user/repo2") },
    ];

    let output = format_for_fzf(&repos);
    assert!(output.contains("repo1\t/home/user/repo1"));
    assert!(output.contains("repo2\t/home/user/repo2"));
}

#[test]
fn test_format_for_fzf_empty_repos() {
    let repos: Vec<GitRepo> = vec![];
    let output = format_for_fzf(&repos);
    assert_eq!(output, "");
}

#[test]
fn test_format_for_fzf_single_repo() {
    let repos = vec![GitRepo {
        name: "single-repo".to_string(),
        path: String::from("/home/user/single-repo"),
    }];

    let output = format_for_fzf(&repos);
    assert_eq!(output, "single-repo\t/home/user/single-repo");
}

#[test]
fn test_format_for_fzf_tab_separated() {
    let repos = vec![GitRepo { name: "test".to_string(), path: String::from("/path/to/test") }];

    let output = format_for_fzf(&repos);
    let lines: Vec<&str> = output.lines().collect();
    assert_eq!(lines.len(), 1);
    assert!(lines[0].contains('\t'));

    let parts: Vec<&str> = lines[0].split('\t').collect();
    assert_eq!(parts.len(), 2);
    assert_eq!(parts[0], "test");
    assert_eq!(parts[1], "/path/to/test");
}

#[test]
fn test_format_for_fzf_newline_separated() {
    let repos = vec![
        GitRepo { name: "repo1".to_string(), path: String::from("/path/to/repo1") },
        GitRepo { name: "repo2".to_string(), path: String::from("/path/to/repo2") },
        GitRepo { name: "repo3".to_string(), path: String::from("/path/to/repo3") },
    ];

    let output = format_for_fzf(&repos);
    let lines: Vec<&str> = output.lines().collect();
    assert_eq!(lines.len(), 3);
}

#[test]
fn test_git_repo_new_extracts_name() {
    let repo = GitRepo::new(String::from("/home/user/my-awesome-repo"));
    assert_eq!(repo.name, "my-awesome-repo");
    assert_eq!(repo.path, String::from("/home/user/my-awesome-repo"));
}

#[test]
fn test_git_repo_new_with_single_component_path() {
    let repo = GitRepo::new(String::from("repo"));
    assert_eq!(repo.name, "repo");
}

#[test]
fn test_git_repo_new_handles_unicode_names() {
    let repo = GitRepo::new(String::from("/home/user/мой-репозиторий"));
    assert_eq!(repo.name, "мой-репозиторий");
}

#[test]
fn test_git_repo_clone() {
    let repo1 = GitRepo { name: "test".to_string(), path: String::from("/path/to/test") };

    let repo2 = repo1.clone();
    assert_eq!(repo1.name, repo2.name);
    assert_eq!(repo1.path, repo2.path);
}

#[test]
fn test_format_for_fzf_preserves_order() {
    let repos = vec![
        GitRepo { name: "zebra".to_string(), path: String::from("/path/to/zebra") },
        GitRepo { name: "apple".to_string(), path: String::from("/path/to/apple") },
        GitRepo { name: "middle".to_string(), path: String::from("/path/to/middle") },
    ];

    let output = format_for_fzf(&repos);
    let lines: Vec<&str> = output.lines().collect();
    assert_eq!(lines[0], "zebra\t/path/to/zebra");
    assert_eq!(lines[1], "apple\t/path/to/apple");
    assert_eq!(lines[2], "middle\t/path/to/middle");
}

#[test]
fn test_git_repo_path_with_spaces() {
    let repo = GitRepo {
        name: "my repo".to_string(),
        path: String::from("/path/with spaces/my repo"),
    };

    let output = format_for_fzf(&[repo]);
    assert!(output.contains("my repo\t/path/with spaces/my repo"));
}

#[test]
fn test_git_repo_path_with_special_chars() {
    let repo = GitRepo {
        name: "repo-name_123".to_string(),
        path: String::from("/path/to/repo-name_123"),
    };

    let output = format_for_fzf(&[repo]);
    assert!(output.contains("repo-name_123\t/path/to/repo-name_123"));
}

#[test]
fn test_git_repo_debug_trait() {
    let repo = GitRepo { name: "test".to_string(), path: String::from("/test") };

    let debug_str = format!("{:?}", repo);
    assert!(debug_str.contains("test"));
}

#[test]
fn test_git_repo_equality() {
    let repo1 = GitRepo { name: "test".to_string(), path: String::from("/test") };

    let repo2 = GitRepo { name: "test".to_string(), path: String::from("/test") };

    let repo3 = GitRepo { name: "different".to_string(), path: String::from("/test") };

    assert_eq!(repo1, repo2);
    assert_ne!(repo1, repo3);
}

#[test]
fn test_format_for_fzf_with_long_paths() {
    let long_path = "/very/long/path/to/some/deeply/nested/repository/directory/with/many/levels";
    let repo = GitRepo { name: "deep-repo".to_string(), path: String::from(long_path) };

    let output = format_for_fzf(&[repo]);
    assert!(output.contains("deep-repo"));
    assert!(output.contains(long_path));
}

#[test]
fn test_git_repo_new_with_path_ending_in_slash() {
    let repo = GitRepo::new(String::from("/home/user/repo/"));
    assert_eq!(repo.name, "repo");
}

#[test]
fn test_format_for_fzf_many_repos() {
    let repos: Vec<GitRepo> = (0..100)
        .map(|i| GitRepo {
            name: format!("repo{}", i),
            path: format!("/path/to/repo{}", i),
        })
        .collect();

    let output = format_for_fzf(&repos);
    let lines: Vec<&str> = output.lines().collect();
    assert_eq!(lines.len(), 100);

    // Check first and last
    assert!(lines[0].contains("repo0"));
    assert!(lines[99].contains("repo99"));
}

#[test]
fn test_git_repo_with_dot_names() {
    let repo = GitRepo { name: ".config".to_string(), path: String::from("/home/user/.config") };

    let output = format_for_fzf(&[repo]);
    assert!(output.contains(".config\t/home/user/.config"));
}

#[test]
fn test_git_repo_with_numeric_names() {
    let repo = GitRepo { name: "12345".to_string(), path: String::from("/path/12345") };

    let output = format_for_fzf(&[repo]);
    assert!(output.contains("12345\t/path/12345"));
}

#[test]
fn test_format_for_fzf_tab_character_in_output() {
    let repos = vec![
        GitRepo { name: "repo1".to_string(), path: String::from("/path/1") },
        GitRepo { name: "repo2".to_string(), path: String::from("/path/2") },
    ];

    let output = format_for_fzf(&repos);
    let tab_count = output.matches('\t').count();
    assert_eq!(tab_count, 2); // One tab per repo
}

#[test]
fn test_git_repo_new_extracts_correct_name_from_nested_path() {
    let paths = vec![
        ("/a/b/c/d/repo", "repo"),
        ("/deep/nested/path/my-project", "my-project"),
        ("/x/y/z/test_repo", "test_repo"),
    ];

    for (path, expected_name) in paths {
        let repo = GitRepo::new(String::from(path));
        assert_eq!(repo.name, expected_name);
    }
}

#[test]
fn test_git_repo_new_handles_non_ascii_gracefully() {
    let repo = GitRepo::new(String::from("/home/user/🚀-project"));
    assert_eq!(repo.name, "🚀-project");
}

#[test]
fn test_format_for_fzf_with_similar_names() {
    let repos = vec![
        GitRepo { name: "project".to_string(), path: String::from("/path/1/project") },
        GitRepo { name: "project".to_string(), path: String::from("/path/2/project") },
        GitRepo { name: "project".to_string(), path: String::from("/path/3/project") },
    ];

    let output = format_for_fzf(&repos);
    let lines: Vec<&str> = output.lines().collect();
    assert_eq!(lines.len(), 3);

    // All should have same name but different paths
    for line in lines {
        assert!(line.starts_with("project\t"));
    }
}

#[test]
fn test_scan_depth_one_finds_shallow_repo_only() {
    // root/a/.git and root/b/c/.git: with a depth bound of 1 only root/a
    // is within reach.
    let entries = vec![
        dir("a", vec![dir(".git", vec![])]),
        dir("b", vec![dir("c", vec![dir(".git", vec![])])]),
    ];
    let repos = scan_tree("root", &entries, 1);
    assert_eq!(repos.len(), 1);
    assert_eq!(repos[0].name, "a");
    assert_eq!(repos[0].path, "root/a");
}

#[test]
fn test_scan_depth_two_finds_both_sorted() {
    let entries = vec![
        dir("b", vec![dir("c", vec![dir(".git", vec![])])]),
        dir("a", vec![dir(".git", vec![])]),
    ];
    let repos = scan_tree("root", &entries, 2);
    assert_eq!(repos.len(), 2);
    assert_eq!(repos[0].name, "a");
    assert_eq!(repos[0].path, "root/a");
    assert_eq!(repos[1].name, "c");
    assert_eq!(repos[1].path, "root/b/c");
}

#[test]
fn test_scan_plain_file_named_git_is_no_repo() {
    let entries = vec![
        dir("a", vec![file(".git")]),
        dir("b", vec![dir("c", vec![file(".git")])]),
        file(".git"),
    ];
    let repos = scan_tree("root", &entries, 5);
    assert_eq!(repos.len(), 0);
}

#[test]
fn test_scan_root_itself_can_be_a_repo() {
    let entries = vec![dir(".git", vec![]), dir("sub", vec![dir(".git", vec![])])];
    let repos = scan_tree("/home/user/proj", &entries, 1);
    assert_eq!(repos.len(), 2);
    // sorted by name: "proj" < "sub"
    assert_eq!(repos[0].name, "proj");
    assert_eq!(repos[0].path, "/home/user/proj");
    assert_eq!(repos[1].name, "sub");
    assert_eq!(repos[1].path, "/home/user/proj/sub");
}

#[test]
fn test_scan_empty_directory_yields_nothing() {
    let entries: Vec<DirEntry> = vec![];
    let repos = scan_tree("root", &entries, 3);
    assert_eq!(repos.len(), 0);
}

#[test]
fn test_scan_skips_unreadable_entries() {
    let entries = vec![DirEntry::Unreadable, dir("a", vec![dir(".git", vec![]), DirEntry::Unreadable])];
    let repos = scan_tree("root", &entries, 2);
    assert_eq!(repos.len(), 1);
    assert_eq!(repos[0].path, "root/a");
}

#[test]
fn test_scan_does_not_prune_nested_repos() {
    // A repository inside a repository is still reported.
    let entries = vec![dir(
        "outer",
        vec![dir(".git", vec![]), dir("inner", vec![dir(".git", vec![])])],
    )];
    let repos = scan_tree("root", &entries, 3);
    assert_eq!(repos.len(), 2);
    assert_eq!(repos[0].name, "inner");
    assert_eq!(repos[1].name, "outer");
}

#[test]
fn test_scan_depth_zero_checks_root_only() {
    let entries = vec![dir(".git", vec![]), dir("a", vec![dir(".git", vec![])])];
    let repos = scan_tree("top", &entries, 0);
    assert_eq!(repos.len(), 1);
    assert_eq!(repos[0].name, "top");
    assert_eq!(repos[0].path, "top");
}

#[test]
fn test_sort_records_is_stable_for_equal_names() {
    let repos = vec![
        GitRepo { name: "same".to_string(), path: String::from("/first") },
        GitRepo { name: "aaa".to_string(), path: String::from("/third") },
        GitRepo { name: "same".to_string(), path: String::from("/second") },
    ];
    let sorted = sort_records(&repos);
    assert_eq!(sorted[0].name, "aaa");
    assert_eq!(sorted[1].path, "/first");
    assert_eq!(sorted[2].path, "/second");
}
