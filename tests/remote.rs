use github_pr_context::config::Config;
use github_pr_context::github_api::{
    get_github_open_pull_requests, get_github_pr_comments, get_github_pull_request, GithubError,
};
use github_pr_context::json::{decode_json, Json};
use github_pr_context::request::{
    open_pull_requests_url, pr_comments_url, pull_request_url, request_headers,
};
use github_pr_context::status::status_code;

fn headers(status: &str) -> Vec<(String, String)> {
    vec![
        ("Content-Type".to_string(), "application/json".to_string()),
        ("Status".to_string(), status.to_string()),
    ]
}

const PR: &str = r#"{"number":42,"title":"Fix bug","state":"open","html_url":"https://github.com/o/r/pull/42",
"body":null,"user":{"login":"alice","id":7,"avatar_url":"https://a/7"},
"created_at":"2024-01-01","updated_at":"2024-01-02","head":{"ref":"main"}}"#;

#[test]
fn not_found_is_an_api_error() {
    let body = br#"{"message":"Not Found"}"#.to_vec();
    let e = get_github_pull_request(&headers("404 Not Found"), &body).unwrap_err();
    assert_eq!(e, GithubError::Api { status: 404, message: "Not Found".to_string() });
    assert!(e.message().contains("Not Found"));
    assert_eq!(e.message(), "GitHub API error: Not Found (404)");
    let e = get_github_pr_comments(&headers("404"), &body).unwrap_err();
    assert_eq!(e, GithubError::Api { status: 404, message: "Not Found".to_string() });
    let e = get_github_open_pull_requests(&headers("404"), &body, None).unwrap_err();
    assert_eq!(e, GithubError::Api { status: 404, message: "Not Found".to_string() });
}

#[test]
fn error_without_message_is_generic() {
    let e = get_github_pull_request(&headers("500"), &b"oops".to_vec()).unwrap_err();
    assert_eq!(
        e,
        GithubError::Api { status: 500, message: "Unknown GitHub API error".to_string() }
    );
}

#[test]
fn pull_request_is_read() {
    let pr = get_github_pull_request(&headers("200 OK"), &PR.as_bytes().to_vec()).unwrap();
    assert_eq!(pr.number, 42);
    assert_eq!(pr.title, "Fix bug");
    assert_eq!(pr.body, None);
    assert_eq!(pr.user.login, "alice");
    assert_eq!(pr.user.id, 7);
}

#[test]
fn missing_field_is_malformed() {
    let body = r#"{"number":1,"state":"open","html_url":"h","user":{"login":"a","id":1,"avatar_url":"x"},
"created_at":"c","updated_at":"u"}"#;
    let e = get_github_pull_request(&headers("200"), &body.as_bytes().to_vec()).unwrap_err();
    assert!(matches!(e, GithubError::MalformedResponse(_)));
    let e = get_github_pull_request(&headers("200"), &b"not json".to_vec()).unwrap_err();
    assert!(matches!(e, GithubError::MalformedResponse(_)));
}

#[test]
fn comments_are_read_in_order() {
    let body = r#"[
{"id":1,"body":"first","user":{"login":"bob","id":2,"avatar_url":"x"},"created_at":"c","updated_at":"u",
 "html_url":"h","path":"p","diff_hunk":"@@ -1 +1 @@"},
{"id":2,"body":"second","user":{"login":"eve","id":3,"avatar_url":"y"},"created_at":"c","updated_at":"u",
 "html_url":"h","path":"p","diff_hunk":"d","in_reply_to_id":1}]"#;
    let cs = get_github_pr_comments(&headers("200"), &body.as_bytes().to_vec()).unwrap();
    assert_eq!(cs.len(), 2);
    assert_eq!(cs[0].body, "first");
    assert_eq!(cs[0].in_reply_to_id, 0);
    assert_eq!(cs[1].user.login, "eve");
    assert_eq!(cs[1].in_reply_to_id, 1);
}

#[test]
fn malformed_comment_fails_the_fetch() {
    let body = r#"[{"id":1,"user":{"login":"bob","id":2,"avatar_url":"x"}}]"#;
    let e = get_github_pr_comments(&headers("200"), &body.as_bytes().to_vec()).unwrap_err();
    assert!(matches!(e, GithubError::MalformedResponse(_)));
}

#[test]
fn listing_keeps_only_the_branch() {
    let feature = PR.replace("\"main\"", "\"feature\"").replace("42", "43");
    let broken = PR.replace("\"title\":\"Fix bug\",", "").replace("42", "44");
    let body = format!("[{},{},{},{}]", PR, feature, broken, r#"{"number":5}"#);
    let listing =
        get_github_open_pull_requests(&headers("200"), &body.into_bytes(), Some("main")).unwrap();
    assert_eq!(listing.pull_requests.len(), 1);
    assert_eq!(listing.pull_requests[0].number, 42);
    assert_eq!(listing.skipped, vec![malformed("Missing PR title")]);
}

#[test]
fn listing_without_branch_skips_malformed() {
    let feature = PR.replace("\"main\"", "\"feature\"").replace("42", "43");
    let body = format!("[{},{},{}]", PR, r#"{"number":5}"#, feature);
    let listing = get_github_open_pull_requests(&headers("200"), &body.into_bytes(), None).unwrap();
    let numbers: Vec<u32> = listing.pull_requests.iter().map(|p| p.number).collect();
    assert_eq!(numbers, vec![42, 43]);
    assert_eq!(listing.skipped, vec![malformed("Missing user field")]);
}

#[test]
fn status_header_is_read() {
    assert_eq!(status_code(&headers("  201 Created")), 201);
    assert_eq!(status_code(&vec![("STATUS".to_string(), "+404".to_string())]), 404);
    assert_eq!(status_code(&vec![("status".to_string(), "70000".to_string())]), 0);
    assert_eq!(status_code(&vec![("status".to_string(), "abc".to_string())]), 0);
    assert_eq!(status_code(&vec![]), 0);
}

#[test]
fn json_is_decoded() {
    let j = decode_json(br#"{"a":[1,-2,"x",null,true]}"#).unwrap();
    let a = j.get("a").unwrap();
    assert_eq!(
        *a,
        Json::Array(vec![
            Json::Number(Some(1)),
            Json::Number(None),
            Json::Str("x".to_string()),
            Json::Null,
            Json::Bool(true),
        ])
    );
    assert_eq!(decode_json(b"{"), None);
}

#[test]
fn request_urls_and_headers() {
    assert_eq!(pull_request_url("o", "r", 42), "https://api.github.com/repos/o/r/pulls/42");
    assert_eq!(
        pr_comments_url("o", "r", 7),
        "https://api.github.com/repos/o/r/pulls/7/comments"
    );
    assert_eq!(open_pull_requests_url("o", "r"), "https://api.github.com/repos/o/r/pulls?state=open");
    let h = request_headers(&Config::default());
    assert_eq!(h.len(), 2);
    assert_eq!(h[0], ("Accept".to_string(), "application/vnd.github.v3+json".to_string()));
    let h = request_headers(&Config { github_token: Some("t0k".to_string()) });
    assert_eq!(h[2], ("Authorization".to_string(), "Bearer t0k".to_string()));
}

#[test]
fn token_comes_from_the_environment() {
    assert_eq!(Config::from_worktree(None).github_token, None);
    let env = vec![
        ("PATH".to_string(), "/bin".to_string()),
        ("GITHUB_TOKEN".to_string(), "one".to_string()),
        ("GITHUB_TOKEN".to_string(), "two".to_string()),
    ];
    assert_eq!(Config::from_worktree(Some(env)).github_token, Some("two".to_string()));
    let env = vec![("HOME".to_string(), "/h".to_string())];
    assert_eq!(Config::from_worktree(Some(env)).github_token, None);
}

fn malformed(message: &str) -> GithubError {
    GithubError::MalformedResponse(message.to_string())
}

#[test]
fn missing_member_is_named() {
    let body = r#"{"user":{"login":"a","id":1,"avatar_url":"u"},"number":1,"state":"open"}"#;
    let e = get_github_pull_request(&headers("200"), &body.as_bytes().to_vec()).unwrap_err();
    assert_eq!(e, malformed("Missing PR title"));
    let body = r#"{"user":{"login":"a","avatar_url":"u"},"number":1}"#;
    let e = get_github_pull_request(&headers("200"), &body.as_bytes().to_vec()).unwrap_err();
    assert_eq!(e, malformed("Missing user id"));
    let e = get_github_pull_request(&headers("200"), &b"[".to_vec()).unwrap_err();
    assert_eq!(e, malformed("Response is not a JSON document"));
    let body = r#"[{"id":1,"body":"b","user":{"login":"bob","id":2,"avatar_url":"x"},"created_at":"c",
"updated_at":"u","html_url":"h","path":"p"}]"#;
    let e = get_github_pr_comments(&headers("200"), &body.as_bytes().to_vec()).unwrap_err();
    assert_eq!(e, malformed("Missing comment diff_hunk"));
}

#[test]
fn numbers_beyond_u32_are_refused() {
    let big = PR.replace("\"id\":7", "\"id\":4294967296");
    let e = get_github_pull_request(&headers("200"), &big.into_bytes()).unwrap_err();
    assert_eq!(e, malformed("Missing user id"));
    let big = PR.replace("\"number\":42", "\"number\":4294967338");
    let e = get_github_pull_request(&headers("200"), &big.into_bytes()).unwrap_err();
    assert_eq!(e, malformed("Missing PR number"));
}

#[test]
fn reply_ids_are_optional() {
    let comment = |reply: &str| {
        format!(
            r#"[{{"id":1,"body":"b","user":{{"login":"bob","id":2,"avatar_url":"x"}},"created_at":"c",
"updated_at":"u","html_url":"h","path":"p","diff_hunk":"d"{}}}]"#,
            reply
        )
    };
    let reply_of = |reply: &str| {
        get_github_pr_comments(&headers("200"), &comment(reply).into_bytes()).unwrap()[0]
            .in_reply_to_id
    };
    assert_eq!(reply_of(""), 0);
    assert_eq!(reply_of(r#","in_reply_to_id":null"#), 0);
    assert_eq!(reply_of(r#","in_reply_to_id":true"#), 0);
    assert_eq!(reply_of(r#","in_reply_to_id":-3"#), 0);
    assert_eq!(reply_of(r#","in_reply_to_id":5"#), 5);
    assert_eq!(reply_of(r#","in_reply_to_id":4294967296"#), 4294967296);
}
