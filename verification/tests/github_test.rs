use looptask::github::{
    api_base_from, api_url_from, branch_url_from, repository_from_url, check_branch_sha, classify_metadata_status, existing_pull_request, github_error,
    open_pull_request_query,
    parse_allowed_repositories, parse_repository, pulls_path, repository_path, valid_branch,
    GitHubClient, GitHubRepository, MetadataAnswer, PullRequest, Repository,
};
use looptask::urls::UrlParts;
use looptask::Error;

#[test]
fn parses_strict_github_urls() {
    assert_eq!(
        parse_repository("https://github.com/acme/widget.git")
            .unwrap()
            .name,
        "widget"
    );
    assert!(parse_repository("git@github.com:acme/widget.git").is_err());
    assert!(parse_repository("https://github.com/acme/widget/issues").is_err());
    assert!(parse_repository("https://evil.example/acme/widget").is_err());
}

#[test]
fn allowlist_accepts_only_exact_repository() {
    let allowed = parse_allowed_repositories("Acme/widget,other/repo").unwrap();
    let client =
        GitHubClient::new_with_allowed("http://localhost:9999", "token".to_string(), allowed)
            .unwrap();
    assert!(
        client
            .ensure_repository_allowed(&parse_repository("https://github.com/acme/WIDGET").unwrap())
            .is_ok()
    );
    assert!(
        client
            .ensure_repository_allowed(&parse_repository("https://github.com/acme/other").unwrap())
            .is_err()
    );
    assert!(parse_allowed_repositories("").is_err());
}

fn config_message(error: Error) -> String {
    match error {
        Error::Config(message) => message,
        other => panic!("expected a configuration error, got {:?}", other),
    }
}

#[test]
fn repository_url_is_trimmed_and_host_case_is_ignored() {
    let repo = parse_repository("  https://GitHub.com/acme/widget  ").unwrap();
    assert_eq!(repo.owner, "acme");
    assert_eq!(repo.name, "widget");
}

#[test]
fn repository_url_rejects_extras() {
    let format = "repository must be https://github.com/{owner}/{repo}";
    for url in [
        "http://github.com/acme/widget",
        "https://user@github.com/acme/widget",
        "https://user:pw@github.com/acme/widget",
        "https://github.com/acme/widget?x=1",
        "https://github.com/acme/widget#top",
        "https://github.com/acme/widget/",
        "https://github.com/acme",
        "not a url",
    ] {
        assert_eq!(config_message(parse_repository(url).unwrap_err()), format, "{url}");
    }
    assert_eq!(
        config_message(parse_repository("https://github.com/acme/wid%20get").unwrap_err()),
        "repository owner and name contain invalid characters"
    );
    assert_eq!(
        config_message(parse_repository("https://github.com/acme/.git").unwrap_err()),
        "repository owner and name contain invalid characters"
    );
}

#[test]
fn allowlist_entries_must_be_owner_and_name() {
    let repos = parse_allowed_repositories(" acme/widget , ,other/repo ").unwrap();
    assert_eq!(
        repos,
        vec![
            Repository { owner: "acme".to_string(), name: "widget".to_string() },
            Repository { owner: "other".to_string(), name: "repo".to_string() },
        ]
    );
    assert_eq!(
        config_message(parse_allowed_repositories("acme/widget,acme").unwrap_err()),
        "LOOPTASK_GITHUB_ALLOWED_REPOSITORIES must contain exact owner/repo entries"
    );
    assert_eq!(
        config_message(parse_allowed_repositories("a/b/c").unwrap_err()),
        "LOOPTASK_GITHUB_ALLOWED_REPOSITORIES must contain exact owner/repo entries"
    );
    assert_eq!(
        config_message(parse_allowed_repositories(" , ").unwrap_err()),
        "LOOPTASK_GITHUB_ALLOWED_REPOSITORIES must not be empty"
    );
}

#[test]
fn empty_allowlist_allows_nothing() {
    let client = GitHubClient::new("https://api.github.com/", "token".to_string()).unwrap();
    let repo = parse_repository("https://github.com/acme/widget").unwrap();
    assert_eq!(
        config_message(client.ensure_repository_allowed(&repo).unwrap_err()),
        "repository is not allowed by LOOPTASK_GITHUB_ALLOWED_REPOSITORIES"
    );
}

#[test]
fn api_base_must_be_https_unless_local_and_gets_trailing_slash() {
    let client = GitHubClient::new("https://api.example.com/v3", "t".to_string()).unwrap();
    assert_eq!(client.base(), "https://api.example.com/v3/");
    let client = GitHubClient::new("http://127.0.0.1:8080", "t".to_string()).unwrap();
    assert_eq!(client.base(), "http://127.0.0.1:8080/");
    assert_eq!(client.token(), "t");
    assert!(client.allowed_repositories().is_empty());
    assert_eq!(
        config_message(GitHubClient::new("http://evil.example", "t".to_string()).unwrap_err()),
        "GitHub API base must use HTTPS"
    );
    assert_eq!(
        config_message(GitHubClient::new("::", "t".to_string()).unwrap_err()),
        "invalid GitHub API base URL"
    );
}

#[test]
fn branch_names_are_checked() {
    assert!(valid_branch("agent/change"));
    assert!(valid_branch("main"));
    assert!(!valid_branch(""));
    assert!(!valid_branch("/lead"));
    assert!(!valid_branch("trail/"));
    assert!(!valid_branch("a..b"));
    assert!(!valid_branch("a@{b"));
    assert!(!valid_branch("sp ace"));
    assert!(!valid_branch(&"a".repeat(256)));
    assert!(valid_branch(&"a".repeat(255)));
}

#[test]
fn pull_request_checks_allow_list_then_branches() {
    let allowed = parse_allowed_repositories("acme/widget").unwrap();
    let client = GitHubClient::new_with_allowed("https://api.github.com/", "t".to_string(), allowed)
        .unwrap();
    let repo = parse_repository("https://github.com/acme/widget").unwrap();
    assert!(client.check_pull_request(&repo, "agent/change", "main").is_ok());
    assert_eq!(
        config_message(client.check_pull_request(&repo, "bad..name", "main").unwrap_err()),
        "invalid Git branch name"
    );
    let other = parse_repository("https://github.com/acme/other").unwrap();
    assert_eq!(
        config_message(client.check_pull_request(&other, "bad..name", "main").unwrap_err()),
        "repository is not allowed by LOOPTASK_GITHUB_ALLOWED_REPOSITORIES"
    );
}

#[test]
fn request_paths_and_queries() {
    let repo = Repository { owner: "acme".to_string(), name: "widget".to_string() };
    assert_eq!(repository_path(&repo), "repos/acme/widget");
    assert_eq!(pulls_path(&repo), "repos/acme/widget/pulls");
    let query = open_pull_request_query(&repo, "agent/change", "main");
    assert_eq!(
        query,
        vec![
            ("state".to_string(), "open".to_string()),
            ("head".to_string(), "acme:agent/change".to_string()),
            ("base".to_string(), "main".to_string()),
        ]
    );
    assert_eq!(
        looptask::github::branch_path_segments(&repo, "agent/x"),
        vec!["repos", "acme", "widget", "branches", "agent/x"]
    );
}

#[test]
fn first_open_pull_request_is_reused() {
    let prs = vec![
        PullRequest { number: 7, html_url: "u7".to_string() },
        PullRequest { number: 9, html_url: "u9".to_string() },
    ];
    assert_eq!(existing_pull_request(prs).unwrap().number, 7);
    assert!(existing_pull_request(Vec::new()).is_none());
}

#[test]
fn branch_sha_compares_without_case() {
    assert!(check_branch_sha("ABCdef", "abcDEF").is_ok());
    assert_eq!(
        config_message(check_branch_sha("abc", "abd").unwrap_err()),
        "executor headSha does not match the GitHub branch head"
    );
}

#[test]
fn repository_metadata_reports_push_permission() {
    let writable = GitHubRepository::from_metadata(
        "acme/writable".to_string(),
        "https://github.com/acme/writable".to_string(),
        "trunk".to_string(),
        true,
        Some(true),
    );
    assert!(writable.can_push);
    assert_eq!(writable.default_branch, "trunk");
    let unknown = GitHubRepository::from_metadata(
        "a/b".to_string(),
        "u".to_string(),
        "main".to_string(),
        false,
        None,
    );
    assert!(!unknown.can_push);
    assert_eq!(classify_metadata_status(404), MetadataAnswer::Missing);
    assert_eq!(classify_metadata_status(200), MetadataAnswer::Found);
    assert_eq!(classify_metadata_status(500), MetadataAnswer::Failed);
}

#[test]
fn api_urls_are_built_from_the_base() {
    let repo = Repository { owner: "acme".to_string(), name: "widget".to_string() };
    let client = GitHubClient::new("https://api.github.com", "t".to_string()).unwrap();
    assert_eq!(
        client.repository_url(&repo).unwrap(),
        "https://api.github.com/repos/acme/widget"
    );
    assert_eq!(
        client.pulls_url(&repo).unwrap(),
        "https://api.github.com/repos/acme/widget/pulls"
    );
    let nested = GitHubClient::new("http://localhost:9999/api/v3", "t".to_string()).unwrap();
    assert_eq!(
        nested.pulls_url(&repo).unwrap(),
        "http://localhost:9999/api/v3/repos/acme/widget/pulls"
    );
    assert_eq!(
        nested.branch_url(&repo, "agent/change").unwrap(),
        "http://localhost:9999/api/v3/repos/acme/widget/branches/agent%2Fchange"
    );
    assert_eq!(config_message(nested.branch_url(&repo, "bad..name").unwrap_err()), "invalid Git branch name");
}

#[test]
fn client_settings_come_from_values() {
    match GitHubClient::from_values(None, Some("acme/widget".to_string()), None) {
        Err(e) => assert_eq!(config_message(e), "GITHUB_TOKEN is required to create pull requests"),
        Ok(_) => panic!("a token is required"),
    }
    match GitHubClient::from_values(Some("t".to_string()), None, None) {
        Err(e) => assert_eq!(
            config_message(e),
            "LOOPTASK_GITHUB_ALLOWED_REPOSITORIES must not be empty"
        ),
        Ok(_) => panic!("an allow-list is required"),
    }
    let client =
        GitHubClient::from_values(Some("t".to_string()), Some("acme/widget".to_string()), None)
            .unwrap();
    assert_eq!(client.base(), "https://api.github.com/");
    assert_eq!(client.token(), "t");
    assert_eq!(client.allowed_repositories().len(), 1);
    match GitHubClient::from_values(
        Some("t".to_string()),
        Some("acme/widget".to_string()),
        Some("http://example.com".to_string()),
    ) {
        Err(e) => assert_eq!(config_message(e), "GitHub API base must use HTTPS"),
        Ok(_) => panic!("plain HTTP is refused"),
    }
}

#[test]
fn github_errors_carry_status_and_body() {
    match github_error("422 Unprocessable Entity", "{}") {
        Error::Internal(m) => assert_eq!(m, "GitHub API responded with 422 Unprocessable Entity: {}"),
        other => panic!("unexpected {other:?}"),
    }
}

fn parts(scheme: &str, host: &str, path: &str, serialization: &str) -> UrlParts {
    UrlParts {
        scheme: scheme.to_string(),
        username: String::new(),
        password: None,
        host: Some(host.to_string()),
        path: path.to_string(),
        query: None,
        fragment: None,
        serialization: serialization.to_string(),
    }
}

#[test]
fn repository_is_read_from_url_parts() {
    let repo = repository_from_url(Some(parts(
        "https",
        "GitHub.com",
        "/acme/widget.git",
        "https://github.com/acme/widget.git",
    )))
    .unwrap();
    assert_eq!(repo.owner, "acme");
    assert_eq!(repo.name, "widget");
    let format = "repository must be https://github.com/{owner}/{repo}";
    assert_eq!(config_message(repository_from_url(None).unwrap_err()), format);
    assert_eq!(
        config_message(
            repository_from_url(Some(parts("http", "github.com", "/a/b", "http://github.com/a/b")))
                .unwrap_err()
        ),
        format
    );
    let mut with_query = parts("https", "github.com", "/a/b", "https://github.com/a/b?x");
    with_query.query = Some("x".to_string());
    assert_eq!(config_message(repository_from_url(Some(with_query)).unwrap_err()), format);
    assert_eq!(
        config_message(
            repository_from_url(Some(parts("https", "github.com", "/a/b c", "https://github.com/a/b%20c")))
                .unwrap_err()
        ),
        "repository owner and name contain invalid characters"
    );
}

#[test]
fn api_base_is_read_from_url_parts() {
    assert_eq!(
        api_base_from(
            Some(parts("https", "api.github.com", "/", "https://api.github.com/")),
            None
        )
        .unwrap(),
        "https://api.github.com/"
    );
    assert_eq!(
        api_base_from(
            Some(parts("http", "localhost", "/api", "http://localhost/api")),
            Some("http://localhost/api/".to_string())
        )
        .unwrap(),
        "http://localhost/api/"
    );
    assert_eq!(
        config_message(
            api_base_from(Some(parts("http", "example.com", "/", "http://example.com/")), None)
                .unwrap_err()
        ),
        "GitHub API base must use HTTPS"
    );
    assert_eq!(
        config_message(api_base_from(None, None).unwrap_err()),
        "invalid GitHub API base URL"
    );
}

#[test]
fn url_outcomes_become_errors() {
    assert_eq!(api_url_from(Ok("u".to_string())).unwrap(), "u");
    assert!(matches!(api_url_from(Err("bad".to_string())), Err(Error::Internal(m)) if m == "bad"));
    assert_eq!(branch_url_from(Ok("b".to_string())).unwrap(), "b");
    assert_eq!(
        config_message(branch_url_from(Err(None)).unwrap_err()),
        "GitHub API base must support path segments"
    );
    assert!(matches!(branch_url_from(Err(Some("x".to_string()))), Err(Error::Internal(m)) if m == "x"));
}
