use github_pr_context::commands::pr_data;
use github_pr_context::github_api::{PullRequest, PullRequestComment, User};

fn user(login: &str) -> User {
    User { login: login.to_string(), id: 7, avatar_url: "https://a/7".to_string() }
}

fn pull_request(body: Option<&str>) -> PullRequest {
    PullRequest {
        number: 42,
        title: "Fix bug".to_string(),
        state: "open".to_string(),
        html_url: "https://github.com/o/r/pull/42".to_string(),
        body: body.map(|b| b.to_string()),
        user: user("alice"),
        created_at: "2024-01-01T00:00:00Z".to_string(),
        updated_at: "2024-01-02T00:00:00Z".to_string(),
    }
}

fn comment(login: &str, in_reply_to_id: u64) -> PullRequestComment {
    PullRequestComment {
        id: 1,
        body: "nice".to_string(),
        user: user(login),
        created_at: "c".to_string(),
        updated_at: "u".to_string(),
        html_url: "h".to_string(),
        path: "src/lib.rs".to_string(),
        diff_hunk: "foo".to_string(),
        in_reply_to_id,
    }
}

#[test]
fn absent_body_gives_fallback() {
    let parts = pr_data(&pull_request(None), &vec![]);
    assert_eq!(parts.len(), 1);
    assert_eq!(parts[0].content, "No description provided.");
    assert_eq!(parts[0].label, "PR #42: Fix bug");
    assert_eq!(parts[0].length, parts[0].content.len());
}

#[test]
fn body_is_the_first_content() {
    let parts = pr_data(&pull_request(Some("desc")), &vec![]);
    assert_eq!(parts[0].content, "desc");
}

#[test]
fn replies_are_marked() {
    let comments = vec![comment("bob", 0), comment("carol", 99), comment("dan", 1 << 32)];
    let parts = pr_data(&pull_request(Some("d")), &comments);
    assert_eq!(parts.len(), 4);
    assert_eq!(parts[3].label, "↪ Reply to comment by @dan");
    assert_eq!(parts[1].label, "Comment by @bob");
    assert!(!parts[1].label.starts_with("↪"));
    assert_eq!(parts[2].label, "↪ Reply to comment by @carol");
    assert!(parts[2].label.starts_with("↪"));
}

#[test]
fn comment_content_fences_the_diff() {
    let parts = pr_data(&pull_request(Some("d")), &vec![comment("bob", 0)]);
    assert_eq!(parts[1].content, "```diff\nfoo\n```\n\nnice");
    assert_eq!(parts[1].length, parts[1].content.len());
}
