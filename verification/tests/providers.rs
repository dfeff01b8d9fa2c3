use dashboard::providers::{normalize_github_remote, shell_url_encode};
use dashboard::runtime::{sanitize_runtime_key, shell_escape_arg, shell_escape_path, target_runtime_key};

#[test]
fn refactor_providers_github_url_handling() {
    assert_eq!(
        normalize_github_remote("git@github.com:owner/repo.git"),
        Some("https://github.com/owner/repo".to_owned())
    );
    assert_eq!(
        normalize_github_remote("https://github.com/owner/repo.git"),
        Some("https://github.com/owner/repo".to_owned())
    );
    assert_eq!(normalize_github_remote("https://gitlab.com/owner/repo.git"), None);
    assert_eq!(shell_url_encode("feature/a b"), "feature%2Fa%20b");
}

#[test]
fn refactor_runtime_shell_quoting() {
    assert_eq!(shell_escape_arg("a'b"), "'a'\\''b'");
    assert_eq!(shell_escape_path("a b"), "'a b'");
}

#[test]
fn url_encoding_keeps_unreserved_and_encodes_utf8_bytes() {
    assert_eq!(shell_url_encode("A-z_0.9~"), "A-z_0.9~");
    assert_eq!(shell_url_encode("é"), "%C3%A9");
    assert_eq!(shell_url_encode(""), "");
}

#[test]
fn https_remote_without_suffix_is_kept() {
    assert_eq!(
        normalize_github_remote("https://github.com/owner/repo"),
        Some("https://github.com/owner/repo".to_owned())
    );
    assert_eq!(normalize_github_remote("owner/repo"), None);
}

#[test]
fn runtime_keys_replace_other_characters_by_underscores() {
    assert_eq!(sanitize_runtime_key("a-b/c d"), "a_b_c_d");
    assert_eq!(sanitize_runtime_key("é1"), "_1");
    assert_eq!(target_runtime_key("/w/p", "bin", "app"), "_w_p__bin__app");
}
