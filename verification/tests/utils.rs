use renovate_manager::repo::extract_repo_name_from_url;

#[test]
fn check_repo_name_is_correctly_extracted() {
    let cases = [
        ("https://api.github.com/repos/org/repo", Some("repo".to_string())),
        ("https://api.github.com/repos/org/repo/", Some("repo".to_string())),
        ("https://api.github.com/repos/org/repo/issues", Some("repo".to_string())),
        ("https://api.github.com/repos/org", None),
        ("https://api.github.com/repos/", None),
        ("https://notgithub.com/org/repo", None),
    ];
    for (url, expected) in cases {
        assert_eq!(extract_repo_name_from_url(url), expected);
    }
}
