//! The requests sent to the GitHub REST API: endpoint URLs and headers.

use vstd::prelude::*;
use crate::config::Config;
use crate::text::{concat, decimal, decimal_string};

verus! {

pub const API_ROOT: &'static str = "https://api.github.com/repos/";

pub const ACCEPT: &'static str = "application/vnd.github.v3+json";

pub const USER_AGENT: &'static str = "zed-app";

/// `https://api.github.com/repos/{owner}/{repo}/pulls`
pub open spec fn pulls_url(owner: Seq<char>, repo: Seq<char>) -> Seq<char> {
    API_ROOT@ + owner + "/"@ + repo + "/pulls"@
}

fn pulls(owner: &str, repo: &str) -> (r: String)
    ensures
        r@ == pulls_url(owner@, repo@),
{
    let a = concat(API_ROOT, owner);
    let b = concat(a.as_str(), "/");
    let c = concat(b.as_str(), repo);
    concat(c.as_str(), "/pulls")
}

/// URL of one pull request.
pub fn pull_request_url(owner: &str, repo: &str, number: u32) -> (r: String)
    ensures
        r@ == pulls_url(owner@, repo@) + "/"@ + decimal(number as nat),
{
    let p = pulls(owner, repo);
    let a = concat(p.as_str(), "/");
    let n = decimal_string(number as u64);
    concat(a.as_str(), n.as_str())
}

/// URL of a pull request's review comments (not its issue comments, so that
/// comments on outdated lines are included).
pub fn pr_comments_url(owner: &str, repo: &str, number: u32) -> (r: String)
    ensures
        r@ == pulls_url(owner@, repo@) + "/"@ + decimal(number as nat) + "/comments"@,
{
    let p = pull_request_url(owner, repo, number);
    concat(p.as_str(), "/comments")
}

/// URL of the listing of a repository's open pull requests.
pub fn open_pull_requests_url(owner: &str, repo: &str) -> (r: String)
    ensures
        r@ == pulls_url(owner@, repo@) + "?state=open"@,
{
    let p = pulls(owner, repo);
    concat(p.as_str(), "?state=open")
}

/// The headers of every request: the versioned JSON media type, a user
/// agent, and a bearer token only when one is configured.
pub fn request_headers(config: &Config) -> (r: Vec<(String, String)>)
    ensures
        r.len() == if config.github_token is Some {
            3nat
        } else {
            2nat
        },
        r[0].0@ == "Accept"@,
        r[0].1@ == ACCEPT@,
        r[1].0@ == "User-Agent"@,
        r[1].1@ == USER_AGENT@,
        config.github_token matches Some(t) ==> r[2].0@ == "Authorization"@ && r[2].1@
            == "Bearer "@ + t@,
{
    let mut r: Vec<(String, String)> = Vec::new();
    r.push(("Accept".to_owned(), ACCEPT.to_owned()));
    r.push(("User-Agent".to_owned(), USER_AGENT.to_owned()));
    match &config.github_token {
        Some(t) => {
            r.push(("Authorization".to_owned(), concat("Bearer ", t.as_str())));
        },
        None => {},
    }
    r
}

} // verus!
