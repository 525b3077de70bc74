use codex_monitor::naming::{
    is_safe_char, join_path, normalize_git_path, sanitize_worktree_name, should_skip_dir,
    unique_worktree_name, unique_worktree_path, worktree_candidate,
};
use codex_monitor::text::{decimal, is_blank, is_whitespace, join, same_text, split, trim};

fn all_safe(name: &str) -> bool {
    name.chars().all(|c| c.is_ascii_alphanumeric() || c == '-' || c == '_' || c == '.')
}

#[test]
fn sanitize_replaces_slashes_and_spaces() {
    assert_eq!(sanitize_worktree_name("feature/x"), "feature-x");
    assert_eq!(sanitize_worktree_name("my branch name"), "my-branch-name");
    assert_eq!(sanitize_worktree_name("release_1.2-rc"), "release_1.2-rc");
}

#[test]
fn sanitize_trims_dashes_at_both_ends() {
    assert_eq!(sanitize_worktree_name("/feature/"), "feature");
    assert_eq!(sanitize_worktree_name("--a--b--"), "a--b");
    assert_eq!(sanitize_worktree_name(" x "), "x");
}

#[test]
fn sanitize_handles_unicode() {
    assert_eq!(sanitize_worktree_name("f\u{e9}ature/\u{65e5}\u{672c}"), "f-ature");
    assert_eq!(sanitize_worktree_name("\u{1F600}fix\u{1F600}"), "fix");
    assert_eq!(sanitize_worktree_name("a\u{e9}b"), "a-b");
}

#[test]
fn sanitize_falls_back_to_placeholder() {
    assert_eq!(sanitize_worktree_name(""), "worktree");
    assert_eq!(sanitize_worktree_name("///"), "worktree");
    assert_eq!(sanitize_worktree_name("\u{65e5}\u{672c}\u{8a9e}"), "worktree");
    assert_eq!(sanitize_worktree_name("---"), "worktree");
}

#[test]
fn sanitized_names_are_safe_and_not_empty() {
    let branches = [
        "feature/x",
        "a b",
        "",
        "\u{fc}ber/cool",
        "..",
        "-",
        "x",
        "refs/heads/main",
        "tab\there",
        "emoji\u{1F680}",
        "UPPER/lower_09",
    ];
    for branch in branches {
        let name = sanitize_worktree_name(branch);
        assert!(!name.is_empty(), "{:?}", branch);
        assert!(all_safe(&name), "{:?} -> {:?}", branch, name);
    }
}

#[test]
fn safe_chars_are_ascii_letters_digits_and_three_marks() {
    for n in 0u32..0x3000 {
        if let Some(c) = char::from_u32(n) {
            let expected = c.is_ascii_alphanumeric() || c == '-' || c == '_' || c == '.';
            assert_eq!(is_safe_char(c), expected, "{:?}", c);
        }
    }
}

#[test]
fn colliding_names_get_numbered_directories() {
    let mut taken: Vec<String> = Vec::new();
    let first = unique_worktree_name("feature-x", &taken);
    assert_eq!(first, "feature-x");
    taken.push(first.clone());
    let second = unique_worktree_name("feature-x", &taken);
    assert_eq!(second, "feature-x-2");
    taken.push(second.clone());
    let third = unique_worktree_name("feature-x", &taken);
    assert_eq!(third, "feature-x-3");
    assert!(first != second && second != third && first != third);
}

#[test]
fn unique_name_skips_taken_numbers_only() {
    let taken = vec!["a".to_string(), "a-2".to_string(), "a-4".to_string()];
    assert_eq!(unique_worktree_name("a", &taken), "a-3");
    let others = vec!["b".to_string(), "a-2".to_string()];
    assert_eq!(unique_worktree_name("a", &others), "a");
}

#[test]
fn unique_name_gives_up_after_999() {
    let mut taken = vec!["n".to_string()];
    for k in 2..1000 {
        taken.push(format!("n-{}", k));
    }
    assert_eq!(unique_worktree_name("n", &taken), "n");
    taken.pop();
    assert_eq!(unique_worktree_name("n", &taken), "n-999");
}

#[test]
fn unique_path_is_under_the_base_directory() {
    let none: Vec<String> = Vec::new();
    assert_eq!(
        unique_worktree_path("/repo/.codex-worktrees", "feature-x", &none),
        "/repo/.codex-worktrees/feature-x"
    );
    let taken = vec!["feature-x".to_string()];
    assert_eq!(
        unique_worktree_path("/repo/.codex-worktrees", "feature-x", &taken),
        "/repo/.codex-worktrees/feature-x-2"
    );
}

#[test]
fn candidates_are_numbered_from_two() {
    assert_eq!(worktree_candidate("w", 0), "w");
    assert_eq!(worktree_candidate("w", 1), "w");
    assert_eq!(worktree_candidate("w", 2), "w-2");
    assert_eq!(worktree_candidate("w", 10), "w-10");
    assert_eq!(worktree_candidate("w", 999), "w-999");
}

#[test]
fn join_path_behaves_like_unix_paths() {
    let cases = [
        ("/repo", "x"),
        ("/repo/", "x"),
        ("", "x"),
        ("/repo", "/abs"),
        ("rel", "a/b"),
        ("/", "x"),
    ];
    for (base, name) in cases {
        let expected = std::path::Path::new(base).join(name).to_string_lossy().to_string();
        assert_eq!(join_path(base, name), expected, "{:?} {:?}", base, name);
    }
}

#[test]
fn normalize_turns_backslashes_into_slashes() {
    assert_eq!(normalize_git_path("src\\main.rs"), "src/main.rs");
    assert_eq!(normalize_git_path("a\\b\\c"), "a/b/c");
    assert_eq!(normalize_git_path("a/b"), "a/b");
    assert_eq!(normalize_git_path(""), "");
    assert_eq!(normalize_git_path("\\"), "/");
}

#[test]
fn skipped_directories_are_the_five_noise_directories() {
    for name in [".git", "node_modules", "dist", "target", "release-artifacts"] {
        assert!(should_skip_dir(name));
    }
    for name in ["src", ".github", "Target", "dist2", "", "node_modules/"] {
        assert!(!should_skip_dir(name));
    }
}

#[test]
fn whitespace_is_what_std_calls_whitespace() {
    for n in 0u32..=0x10FFFF {
        if let Some(c) = char::from_u32(n) {
            assert_eq!(is_whitespace(c), c.is_whitespace(), "U+{:04X}", n);
        }
    }
}

#[test]
fn trim_matches_std_trim() {
    let cases = [
        "",
        " ",
        "  a  ",
        "\t\nx y\r\n",
        "no-space",
        "\u{a0}nbsp\u{a0}",
        "\u{3000}wide\u{2003}",
        " \u{1F600} ",
        "a ",
        " a",
    ];
    for case in cases {
        assert_eq!(trim(case), case.trim(), "{:?}", case);
        assert_eq!(is_blank(case), case.trim().is_empty(), "{:?}", case);
    }
}

#[test]
fn split_and_join_match_std() {
    let cases = ["", "a", "a:b", ":a", "a:", "::", "/usr/bin:/bin::/sbin"];
    for case in cases {
        let expected: Vec<String> = case.split(':').map(|s| s.to_string()).collect();
        let parts = split(case, ':');
        assert_eq!(parts, expected, "{:?}", case);
        assert_eq!(join(&parts, ':'), case);
    }
    let none: Vec<String> = Vec::new();
    assert_eq!(join(&none, ':'), "");
}

#[test]
fn decimal_writes_numbers_without_leading_zeros() {
    for n in [0u64, 1, 9, 10, 11, 99, 100, 999, 1000, 123456789, u64::MAX] {
        let text: String = decimal(n).into_iter().collect();
        assert_eq!(text, n.to_string());
    }
}

#[test]
fn same_text_compares_characters() {
    assert!(same_text("", ""));
    assert!(same_text("abc", "abc"));
    assert!(!same_text("abc", "abd"));
    assert!(!same_text("abc", "ab"));
    assert!(same_text("\u{e9}", "\u{e9}"));
}
