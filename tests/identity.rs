use github_pr_context::github_api::{GithubError, PullRequest, User};
use github_pr_context::git::{get_current_branch, get_repo};
use github_pr_context::github_context::{
    completion_label, completion_text, first_pull_request_number, parse_pr_args, parse_pr_link,
    PrIdentity,
};

fn invalid(m: &str) -> GithubError {
    GithubError::InvalidIdentity(m.to_string())
}

fn id(owner: &str, repo: &str, number: u32) -> PrIdentity {
    PrIdentity { owner: owner.to_string(), repo: repo.to_string(), number }
}

#[test]
fn pr_link_is_read() {
    assert_eq!(parse_pr_link("https://github.com/zed/zed/pull/123"), Ok(id("zed", "zed", 123)));
    assert!(matches!(
        parse_pr_link("https://github.com/zed/zed/pull/abc"),
        Err(GithubError::InvalidIdentity(_))
    ));
    assert!(matches!(
        parse_pr_link("https://gitlab.com/a/b/pull/1"),
        Err(GithubError::InvalidIdentity(_))
    ));
    assert!(matches!(parse_pr_link("github.com/1"), Err(GithubError::InvalidIdentity(_))));
}

#[test]
fn pr_args_are_read() {
    assert_eq!(parse_pr_args(Some("o,r,5")), Ok(id("o", "r", 5)));
    assert!(matches!(parse_pr_args(None), Err(GithubError::InvalidIdentity(_))));
    assert!(matches!(parse_pr_args(Some("o")), Err(GithubError::InvalidIdentity(_))));
    assert!(matches!(parse_pr_args(Some("o,r")), Err(GithubError::InvalidIdentity(_))));
    assert!(matches!(parse_pr_args(Some("o,r,x")), Err(GithubError::InvalidIdentity(_))));
}

#[test]
fn remote_urls_are_read() {
    let pair = ("owner".to_string(), "repo".to_string());
    assert_eq!(get_repo("git@github.com:owner/repo.git\n"), Ok(pair.clone()));
    assert_eq!(get_repo("  https://github.com/owner/repo.git"), Ok(pair.clone()));
    assert_eq!(get_repo("https://github.com/owner/repo"), Ok(pair));
    assert!(matches!(
        get_repo("git@gitlab.com:o/r.git"),
        Err(GithubError::InvalidIdentity(_))
    ));
    assert!(matches!(
        get_repo("ssh://git@github.com/o/r.git"),
        Err(GithubError::InvalidIdentity(_))
    ));
    assert!(matches!(
        get_repo("https://github.com/onlyowner.git"),
        Err(GithubError::InvalidIdentity(_))
    ));
}

#[test]
fn branch_is_trimmed() {
    assert_eq!(get_current_branch(" main\n"), "main");
}

#[test]
fn first_listed_pull_request_is_chosen() {
    let pr = |n: u32| PullRequest {
        number: n,
        title: "t".to_string(),
        state: "open".to_string(),
        html_url: "h".to_string(),
        body: None,
        user: User { login: "a".to_string(), id: 1, avatar_url: "x".to_string() },
        created_at: "c".to_string(),
        updated_at: "u".to_string(),
    };
    assert_eq!(first_pull_request_number(&vec![pr(9), pr(3)], Some("main")), Ok(9));
    assert!(matches!(
        first_pull_request_number(&vec![], Some("main")),
        Err(GithubError::NoMatchingPullRequest(_))
    ));
}

#[test]
fn identity_errors_say_what_is_wrong() {
    assert_eq!(
        parse_pr_link("https://github.com/o/r/pull/abc"),
        Err(invalid("Invalid PR number in URL"))
    );
    assert_eq!(
        parse_pr_link("https://gitlab.com/o/r/pull/1"),
        Err(invalid("Invalid GitHub PR URL format"))
    );
    assert_eq!(parse_pr_link("https://github.com/o/99999999999"), Err(invalid("Invalid PR number in URL")));
    assert_eq!(parse_pr_args(None), Err(invalid("Owner not provided in args")));
    assert_eq!(parse_pr_args(Some("o")), Err(invalid("Owner not provided in args")));
    assert_eq!(
        parse_pr_args(Some("o,r")),
        Err(invalid("No PR number provided. Please provide a PR number."))
    );
    assert_eq!(parse_pr_args(Some("o,r,x")), Err(invalid("Invalid PR number")));
    assert_eq!(
        first_pull_request_number(&vec![], Some("main")),
        Err(GithubError::NoMatchingPullRequest(
            "No open pull requests found for branch: main".to_string()
        ))
    );
}

#[test]
fn remote_url_errors_say_what_is_wrong() {
    assert_eq!(
        get_repo("https://gitlab.com/o/r.git"),
        Err(invalid("Only GitHub repositories are supported"))
    );
    assert_eq!(
        get_repo("ssh://git@github.com/o/r.git"),
        Err(invalid("Unsupported GitHub URL format"))
    );
    assert_eq!(
        get_repo("git@github.com:owner"),
        Err(invalid("Could not extract owner and repo from URL"))
    );
}

#[test]
fn completions_are_written() {
    let pr = PullRequest {
        number: 12,
        title: "Speed up".to_string(),
        state: "open".to_string(),
        html_url: "h".to_string(),
        body: None,
        user: User { login: "a".to_string(), id: 1, avatar_url: "x".to_string() },
        created_at: "c".to_string(),
        updated_at: "u".to_string(),
    };
    assert_eq!(completion_label(&pr), "#12: Speed up");
    assert_eq!(completion_text("zed-industries", "zed", 12), "zed-industries,zed,12");
}
