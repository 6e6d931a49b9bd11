//! GitHub REST records (pull requests, review comments, users) and the
//! reading of API responses into them.
//!
//! Decoding is strict: a record with a required member missing or of the
//! wrong JSON type is refused, never filled with a default. The only
//! optional members are a pull request's `body` and a comment's
//! `in_reply_to_id` (0 when absent or not a non-negative integer).

use vstd::prelude::*;
use crate::json::{decode_json, decoded_json, field, str_field, u64_field, Json};
use crate::status::{status_code, status_of};
use crate::text::{concat, decimal, decimal_string};

verus! {

/// An account on GitHub.
#[derive(Debug, Clone, PartialEq, Eq)]
pub struct User {
    pub login: String,
    pub id: u32,
    pub avatar_url: String,
}

/// A pull request, as the single-resource and listing endpoints return it.
#[derive(Debug, Clone, PartialEq, Eq)]
pub struct PullRequest {
    pub number: u32,
    pub title: String,
    pub state: String,
    pub html_url: String,
    pub body: Option<String>,
    pub user: User,
    pub created_at: String,
    pub updated_at: String,
}

/// A review comment, anchored to a diff hunk. `in_reply_to_id` is 0 for a
/// comment that starts a thread.
#[derive(Debug, Clone, PartialEq, Eq)]
pub struct PullRequestComment {
    pub id: u32,
    pub body: String,
    pub user: User,
    pub created_at: String,
    pub updated_at: String,
    pub html_url: String,
    pub path: String,
    pub diff_hunk: String,
    pub in_reply_to_id: u64,
}

/// Why a request for GitHub data did not give a result.
#[derive(Debug, Clone, PartialEq, Eq)]
pub enum GithubError {
    /// The request could not be made or answered.
    Transport(String),
    /// GitHub answered with a status of 400 or more.
    Api { status: u16, message: String },
    /// The answer is not JSON, or a required member is missing or mistyped.
    MalformedResponse(String),
    /// A URL or argument does not name an owner, a repository and a number.
    InvalidIdentity(String),
    /// No open pull request has the given head branch.
    NoMatchingPullRequest(String),
}

/// The text shown to the user for an error.
pub open spec fn error_text(e: GithubError) -> Seq<char> {
    match e {
        GithubError::Api { status, message } => "GitHub API error: "@ + message@ + " ("@ + decimal(
            status as nat,
        ) + ")"@,
        GithubError::Transport(m) => m@,
        GithubError::MalformedResponse(m) => m@,
        GithubError::InvalidIdentity(m) => m@,
        GithubError::NoMatchingPullRequest(m) => m@,
    }
}

impl GithubError {
    /// The text shown to the user: for an error answer, its message and
    /// status; else the description held.
    pub fn message(&self) -> (r: String)
        ensures
            r@ == error_text(*self),
    {
        match self {
            GithubError::Api { status, message } => {
                let a = concat("GitHub API error: ", message.as_str());
                let b = concat(a.as_str(), " (");
                let n = decimal_string(*status as u64);
                let c = concat(b.as_str(), n.as_str());
                concat(c.as_str(), ")")
            },
            GithubError::Transport(m) => m.clone(),
            GithubError::MalformedResponse(m) => m.clone(),
            GithubError::InvalidIdentity(m) => m.clone(),
            GithubError::NoMatchingPullRequest(m) => m.clone(),
        }
    }
}

/// A string member that is present.
pub open spec fn has_str(j: Json, key: Seq<char>) -> bool {
    str_field(j, key) is Some
}

/// A member that is a non-negative integer fitting in `u32`.
pub open spec fn has_u32(j: Json, key: Seq<char>) -> bool {
    u64_field(j, key) matches Some(n) && n <= u32::MAX
}

/// `s` is the string member `key` of `j`.
pub open spec fn str_is(s: String, j: Json, key: Seq<char>) -> bool {
    str_field(j, key) == Some(s@)
}

/// `n` is the integer member `key` of `j`.
pub open spec fn u32_is(n: u32, j: Json, key: Seq<char>) -> bool {
    u64_field(j, key) == Some(n as u64)
}

/// `e` reports a malformed answer with this message.
pub open spec fn is_malformed(e: GithubError, message: Seq<char>) -> bool {
    e matches GithubError::MalformedResponse(m) && m@ == message
}

/// There is something missing or mistyped, and `e` carries its message.
pub open spec fn fails_on(e: GithubError, what: Option<Seq<char>>) -> bool {
    what matches Some(w) && is_malformed(e, w)
}

/// The message for the first member of the record's `user` that is
/// missing or mistyped.
pub open spec fn user_error(j: Json) -> Option<Seq<char>> {
    match field(j, "user"@) {
        None => Some("Missing user field"@),
        Some(u) => if !has_str(u, "login"@) {
            Some("Missing user login"@)
        } else if !has_u32(u, "id"@) {
            Some("Missing user id"@)
        } else if !has_str(u, "avatar_url"@) {
            Some("Missing avatar_url"@)
        } else {
            None
        },
    }
}

pub open spec fn user_from(u: User, j: Json) -> bool {
    str_is(u.login, j, "login"@) && u32_is(u.id, j, "id"@) && str_is(u.avatar_url, j, "avatar_url"@)
}

/// The message for the first required member of a pull request that is
/// missing or mistyped, in the order `user`, `number`, `title`, `state`, `html_url`,
/// `created_at`, `updated_at`.
pub open spec fn pull_request_error(j: Json) -> Option<Seq<char>> {
    if user_error(j) is Some {
        user_error(j)
    } else if !has_u32(j, "number"@) {
        Some("Missing PR number"@)
    } else if !has_str(j, "title"@) {
        Some("Missing PR title"@)
    } else if !has_str(j, "state"@) {
        Some("Missing PR state"@)
    } else if !has_str(j, "html_url"@) {
        Some("Missing PR html_url"@)
    } else if !has_str(j, "created_at"@) {
        Some("Missing PR created_at"@)
    } else if !has_str(j, "updated_at"@) {
        Some("Missing PR updated_at"@)
    } else {
        None
    }
}

/// `j` has every member that a pull request requires.
pub open spec fn pull_request_ok(j: Json) -> bool {
    pull_request_error(j) is None
}

/// `p` holds what `j` says of a pull request; `body` is absent exactly when
/// `j` has no string member `body`.
pub open spec fn pull_request_from(p: PullRequest, j: Json) -> bool {
    &&& user_from(p.user, field(j, "user"@).unwrap())
    &&& u32_is(p.number, j, "number"@)
    &&& str_is(p.title, j, "title"@)
    &&& str_is(p.state, j, "state"@)
    &&& str_is(p.html_url, j, "html_url"@)
    &&& str_is(p.created_at, j, "created_at"@)
    &&& str_is(p.updated_at, j, "updated_at"@)
    &&& match p.body {
        Some(b) => str_field(j, "body"@) == Some(b@),
        None => str_field(j, "body"@) is None,
    }
}

/// The message for the first required member of a review comment that is
/// missing or mistyped, in the order `user`, `id`, `body`, `created_at`,
/// `updated_at`, `html_url`, `path`, `diff_hunk`.
pub open spec fn comment_error(j: Json) -> Option<Seq<char>> {
    if user_error(j) is Some {
        user_error(j)
    } else if !has_u32(j, "id"@) {
        Some("Missing comment id"@)
    } else if !has_str(j, "body"@) {
        Some("Missing comment body"@)
    } else if !has_str(j, "created_at"@) {
        Some("Missing comment created_at"@)
    } else if !has_str(j, "updated_at"@) {
        Some("Missing comment updated_at"@)
    } else if !has_str(j, "html_url"@) {
        Some("Missing comment html_url"@)
    } else if !has_str(j, "path"@) {
        Some("Missing comment path"@)
    } else if !has_str(j, "diff_hunk"@) {
        Some("Missing comment diff_hunk"@)
    } else {
        None
    }
}

/// `j` has every member that a review comment requires.
pub open spec fn comment_ok(j: Json) -> bool {
    comment_error(j) is None
}

/// `c` holds what `j` says of a review comment; `in_reply_to_id` is 0 when
/// `j` has no such member that is a non-negative integer.
pub open spec fn comment_from(c: PullRequestComment, j: Json) -> bool {
    &&& user_from(c.user, field(j, "user"@).unwrap())
    &&& u32_is(c.id, j, "id"@)
    &&& str_is(c.body, j, "body"@)
    &&& str_is(c.created_at, j, "created_at"@)
    &&& str_is(c.updated_at, j, "updated_at"@)
    &&& str_is(c.html_url, j, "html_url"@)
    &&& str_is(c.path, j, "path"@)
    &&& str_is(c.diff_hunk, j, "diff_hunk"@)
    &&& c.in_reply_to_id == match u64_field(j, "in_reply_to_id"@) {
        Some(n) => n,
        None => 0u64,
    }
}

fn malformed(message: &str) -> (r: GithubError)
    ensures
        is_malformed(r, message@),
{
    GithubError::MalformedResponse(message.to_owned())
}

/// The string member `key`; a missing one is reported with `message`.
fn required_str(j: &Json, key: &str, message: &str) -> (r: Result<String, GithubError>)
    ensures
        match r {
            Ok(s) => str_is(s, *j, key@),
            Err(e) => !has_str(*j, key@) && is_malformed(e, message@),
        },
{
    match j.get_str(key) {
        Some(s) => Ok(s),
        None => Err(malformed(message)),
    }
}

/// The integer member `key`, which must fit in `u32`; a missing one is
/// reported with `message`.
fn required_u32(j: &Json, key: &str, message: &str) -> (r: Result<u32, GithubError>)
    ensures
        match r {
            Ok(n) => u32_is(n, *j, key@),
            Err(e) => !has_u32(*j, key@) && is_malformed(e, message@),
        },
{
    match j.get_u64(key) {
        Some(n) => if n <= 0xffff_ffff {
            Ok(n as u32)
        } else {
            Err(malformed(message))
        },
        None => Err(malformed(message)),
    }
}

/// Reads the `user` member of a record.
fn parse_user(j: &Json) -> (r: Result<User, GithubError>)
    ensures
        match r {
            Ok(u) => user_error(*j) is None && user_from(u, field(*j, "user"@).unwrap()),
            Err(e) => fails_on(e, user_error(*j)),
        },
{
    let u = match j.get("user") {
        Some(u) => u,
        None => {
            return Err(malformed("Missing user field"));
        },
    };
    let login = required_str(u, "login", "Missing user login")?;
    let id = required_u32(u, "id", "Missing user id")?;
    let avatar_url = required_str(u, "avatar_url", "Missing avatar_url")?;
    Ok(User { login, id, avatar_url })
}

/// Reads one pull request; fails exactly when a required member is missing
/// or mistyped, naming the first such member.
pub fn parse_github_pull_request(data: &Json) -> (r: Result<PullRequest, GithubError>)
    ensures
        match r {
            Ok(p) => pull_request_ok(*data) && pull_request_from(p, *data),
            Err(e) => fails_on(e, pull_request_error(*data)),
        },
{
    let user = parse_user(data)?;
    let number = required_u32(data, "number", "Missing PR number")?;
    let title = required_str(data, "title", "Missing PR title")?;
    let state = required_str(data, "state", "Missing PR state")?;
    let html_url = required_str(data, "html_url", "Missing PR html_url")?;
    let body = data.get_str("body");
    let created_at = required_str(data, "created_at", "Missing PR created_at")?;
    let updated_at = required_str(data, "updated_at", "Missing PR updated_at")?;
    Ok(PullRequest { number, title, state, html_url, body, user, created_at, updated_at })
}

/// Reads one review comment; fails exactly when a required member is
/// missing or mistyped, naming the first such member.
pub fn parse_github_pr_comment(data: &Json) -> (r: Result<PullRequestComment, GithubError>)
    ensures
        match r {
            Ok(c) => comment_ok(*data) && comment_from(c, *data),
            Err(e) => fails_on(e, comment_error(*data)),
        },
{
    let user = parse_user(data)?;
    let id = required_u32(data, "id", "Missing comment id")?;
    let body = required_str(data, "body", "Missing comment body")?;
    let created_at = required_str(data, "created_at", "Missing comment created_at")?;
    let updated_at = required_str(data, "updated_at", "Missing comment updated_at")?;
    let html_url = required_str(data, "html_url", "Missing comment html_url")?;
    let path = required_str(data, "path", "Missing comment path")?;
    let diff_hunk = required_str(data, "diff_hunk", "Missing comment diff_hunk")?;
    let in_reply_to_id = match data.get_u64("in_reply_to_id") {
        Some(n) => n,
        None => 0,
    };
    Ok(
        PullRequestComment {
            id,
            body,
            user,
            created_at,
            updated_at,
            html_url,
            path,
            diff_hunk,
            in_reply_to_id,
        },
    )
}

/// Reads every review comment, in order; fails when any one is malformed.
pub fn parse_github_pr_comments(data: &Vec<Json>) -> (r: Result<
    Vec<PullRequestComment>,
    GithubError,
>)
    ensures
        match r {
            Ok(cs) => {
                &&& forall|i: int| 0 <= i < data.len() ==> #[trigger] comment_ok(data[i])
                &&& cs.len() == data.len()
                &&& forall|i: int| 0 <= i < data.len() ==> #[trigger] comment_from(cs[i], data[i])
            },
            Err(e) => exists|i: int|
                0 <= i < data.len() && (forall|k: int| 0 <= k < i ==> comment_ok(data[k])) && fails_on(
                    e,
                    #[trigger] comment_error(data[i]),
                ),
        },
{
    let mut comments: Vec<PullRequestComment> = Vec::new();
    let mut i: usize = 0;
    while i < data.len()
        invariant
            0 <= i <= data.len(),
            comments.len() == i,
            forall|k: int| 0 <= k < i ==> #[trigger] comment_ok(data[k]),
            forall|k: int| 0 <= k < i ==> #[trigger] comment_from(comments[k], data[k]),
        decreases data.len() - i,
    {
        let c = match parse_github_pr_comment(&data[i]) {
            Ok(c) => c,
            Err(e) => {
                assert(comment_error(data[i as int]) is Some);
                return Err(e);
            },
        };
        comments.push(c);
        i = i + 1;
    }
    Ok(comments)
}

/// Message of an error answer whose body carries none.
pub const UNKNOWN_API_ERROR: &'static str = "Unknown GitHub API error";

/// The message of an error answer: the body's string member `message`,
/// else a generic one.
pub open spec fn error_message(body: Option<Json>) -> Seq<char> {
    match body {
        Some(j) => match str_field(j, "message"@) {
            Some(m) => m,
            None => UNKNOWN_API_ERROR@,
        },
        None => UNKNOWN_API_ERROR@,
    }
}

/// `e` reports an error answer with this status and body.
pub open spec fn is_api_error(e: GithubError, status: u16, body: Option<Json>) -> bool {
    e matches GithubError::Api { status: s, message: m } && s == status && m@ == error_message(
        body,
    )
}

fn api_error(status: u16, body: &Option<Json>) -> (r: GithubError)
    ensures
        is_api_error(r, status, *body),
{
    let message = match body {
        Some(j) => match j.get_str("message") {
            Some(m) => m,
            None => UNKNOWN_API_ERROR.to_owned(),
        },
        None => UNKNOWN_API_ERROR.to_owned(),
    };
    GithubError::Api { status, message }
}

/// `r` is what the answer to a request for one pull request gives: an
/// error for a status of 400 or more, else the record that the body holds.
pub open spec fn pull_request_answer(
    status: u16,
    body: Option<Json>,
    r: Result<PullRequest, GithubError>,
) -> bool {
    if status >= 400 {
        r matches Err(e) && is_api_error(e, status, body)
    } else {
        match body {
            None => r matches Err(e) && is_malformed(e, "Response is not a JSON document"@),
            Some(j) => match r {
                Ok(p) => pull_request_ok(j) && pull_request_from(p, j),
                Err(e) => fails_on(e, pull_request_error(j)),
            },
        }
    }
}

/// Reads the answer to a request for one pull request.
pub fn read_pull_request(status: u16, body: &Option<Json>) -> (r: Result<
    PullRequest,
    GithubError,
>)
    ensures
        pull_request_answer(status, *body, r),
{
    if status >= 400 {
        return Err(api_error(status, body));
    }
    match body {
        Some(j) => parse_github_pull_request(j),
        None => Err(malformed("Response is not a JSON document")),
    }
}

/// Reads a response to `GET /repos/{owner}/{repo}/pulls/{number}`.
pub fn get_github_pull_request(headers: &Vec<(String, String)>, body: &Vec<u8>) -> (r: Result<
    PullRequest,
    GithubError,
>)
    ensures
        pull_request_answer(status_of(headers@), decoded_json(body@), r),
{
    let status = status_code(headers);
    let data = decode_json(body.as_slice());
    read_pull_request(status, &data)
}

/// `r` is what the answer to a request for review comments gives: an error
/// for a status of 400 or more; else every comment of the body's array,
/// failing when the body is no array or any comment is malformed.
pub open spec fn comments_answer(
    status: u16,
    body: Option<Json>,
    r: Result<Vec<PullRequestComment>, GithubError>,
) -> bool {
    if status >= 400 {
        r matches Err(e) && is_api_error(e, status, body)
    } else {
        match body {
            Some(Json::Array(items)) => match r {
                Ok(cs) => {
                    &&& forall|i: int| 0 <= i < items.len() ==> #[trigger] comment_ok(items[i])
                    &&& cs.len() == items.len()
                    &&& forall|i: int|
                        0 <= i < items.len() ==> #[trigger] comment_from(cs[i], items[i])
                },
                Err(e) => exists|i: int|
                    0 <= i < items.len() && (forall|k: int| 0 <= k < i ==> comment_ok(items[k]))
                        && fails_on(e, #[trigger] comment_error(items[i])),
            },
            _ => r matches Err(e) && is_malformed(e, "Response is not a JSON array"@),
        }
    }
}

/// Reads the answer to a request for review comments.
pub fn read_pr_comments(status: u16, body: &Option<Json>) -> (r: Result<
    Vec<PullRequestComment>,
    GithubError,
>)
    ensures
        comments_answer(status, *body, r),
{
    if status >= 400 {
        return Err(api_error(status, body));
    }
    match body {
        Some(Json::Array(items)) => parse_github_pr_comments(items),
        _ => Err(malformed("Response is not a JSON array")),
    }
}

/// Reads a response to `GET /repos/{owner}/{repo}/pulls/{number}/comments`.
pub fn get_github_pr_comments(headers: &Vec<(String, String)>, body: &Vec<u8>) -> (r: Result<
    Vec<PullRequestComment>,
    GithubError,
>)
    ensures
        comments_answer(status_of(headers@), decoded_json(body@), r),
{
    let status = status_code(headers);
    let data = decode_json(body.as_slice());
    read_pr_comments(status, &data)
}

/// The string member `ref` of the member `head`.
pub open spec fn head_ref(j: Json) -> Option<Seq<char>> {
    match field(j, "head"@) {
        Some(h) => str_field(h, "ref"@),
        None => None,
    }
}

pub open spec fn branch_view(branch: Option<&str>) -> Option<Seq<char>> {
    match branch {
        Some(b) => Some(b@),
        None => None,
    }
}

/// An entry of the listing is kept: its head branch is the one asked for
/// (any, when none is), and it is a well-formed pull request.
pub open spec fn listed(j: Json, branch: Option<Seq<char>>) -> bool {
    &&& (branch is None || head_ref(j) == branch)
    &&& pull_request_ok(j)
}

/// An entry of the listing is passed over: its head branch is the one
/// asked for, but it is no well-formed pull request.
pub open spec fn skipped(j: Json, branch: Option<Seq<char>>) -> bool {
    &&& (branch is None || head_ref(j) == branch)
    &&& !pull_request_ok(j)
}

/// The entries that are passed over, in order.
pub open spec fn skipped_entries(items: Seq<Json>, branch: Option<Seq<char>>) -> Seq<Json>
    decreases items.len(),
{
    if items.len() == 0 {
        Seq::empty()
    } else {
        let rest = skipped_entries(items.drop_last(), branch);
        if skipped(items.last(), branch) {
            rest.push(items.last())
        } else {
            rest
        }
    }
}

/// The open pull requests that a listing gives, and the reason for each
/// entry on the branch that was passed over.
#[derive(Debug, Clone, PartialEq, Eq)]
pub struct Listing {
    pub pull_requests: Vec<PullRequest>,
    pub skipped: Vec<GithubError>,
}

/// `l` holds the kept entries of `items` as pull requests, and one error for
/// each entry that was passed over, naming what it lacks.
pub open spec fn is_listing(l: Listing, items: Seq<Json>, branch: Option<Seq<char>>) -> bool {
    &&& l.pull_requests.len() == listed_entries(items, branch).len()
    &&& forall|i: int|
        0 <= i < l.pull_requests.len() ==> #[trigger] pull_request_from(
            l.pull_requests[i],
            listed_entries(items, branch)[i],
        )
    &&& l.skipped.len() == skipped_entries(items, branch).len()
    &&& forall|i: int|
        0 <= i < l.skipped.len() ==> fails_on(
            #[trigger] l.skipped[i],
            pull_request_error(skipped_entries(items, branch)[i]),
        )
}

/// The entries that are kept, in order.
pub open spec fn listed_entries(items: Seq<Json>, branch: Option<Seq<char>>) -> Seq<Json>
    decreases items.len(),
{
    if items.len() == 0 {
        Seq::empty()
    } else {
        let rest = listed_entries(items.drop_last(), branch);
        if listed(items.last(), branch) {
            rest.push(items.last())
        } else {
            rest
        }
    }
}

/// Keeps, in order, the well-formed pull requests of a listing whose head
/// branch is `branch` (all of them when `branch` is absent). A malformed
/// entry is passed over, with its error kept for a warning; it fails
/// nothing.
pub fn open_pull_requests(items: &Vec<Json>, branch: Option<&str>) -> (r: Listing)
    ensures
        is_listing(r, items@, branch_view(branch)),
{
    let ghost b = branch_view(branch);
    let wanted: Option<String> = match branch {
        Some(s) => Some(s.to_owned()),
        None => None,
    };
    let mut out: Vec<PullRequest> = Vec::new();
    let mut passed: Vec<GithubError> = Vec::new();
    let mut i: usize = 0;
    assert(items@.take(0) =~= Seq::<Json>::empty());
    while i < items.len()
        invariant
            0 <= i <= items.len(),
            b == branch_view(branch),
            match wanted {
                Some(w) => b == Some(w@),
                None => b is None,
            },
            out.len() == listed_entries(items@.take(i as int), b).len(),
            forall|k: int|
                0 <= k < out.len() ==> #[trigger] pull_request_from(
                    out[k],
                    listed_entries(items@.take(i as int), b)[k],
                ),
            passed.len() == skipped_entries(items@.take(i as int), b).len(),
            forall|k: int|
                0 <= k < passed.len() ==> fails_on(
                    #[trigger] passed[k],
                    pull_request_error(skipped_entries(items@.take(i as int), b)[k]),
                ),
        decreases items.len() - i,
    {
        let j = &items[i];
        let ghost prev = listed_entries(items@.take(i as int), b);
        let ghost prev_skipped = skipped_entries(items@.take(i as int), b);
        assert(items@.take(i + 1).drop_last() =~= items@.take(i as int));
        assert(items@.take(i + 1).last() == *j);
        let on_branch = match &wanted {
            Some(w) => match j.get("head") {
                Some(h) => match h.get_str("ref") {
                    Some(r) => r == *w,
                    None => false,
                },
                None => false,
            },
            None => true,
        };
        assert(on_branch == (b is None || head_ref(*j) == b));
        if on_branch {
            match parse_github_pull_request(j) {
                Ok(p) => {
                    out.push(p);
                    assert(listed_entries(items@.take(i + 1), b) == prev.push(*j));
                    assert(skipped_entries(items@.take(i + 1), b) == prev_skipped);
                    assert forall|k: int| 0 <= k < out.len() implies #[trigger] pull_request_from(
                        out[k],
                        listed_entries(items@.take(i + 1), b)[k],
                    ) by {
                        if k < out.len() - 1 {
                            assert(pull_request_from(out[k], prev[k]));
                        }
                    }
                },
                Err(e) => {
                    passed.push(e);
                    assert(listed_entries(items@.take(i + 1), b) == prev);
                    assert(skipped_entries(items@.take(i + 1), b) == prev_skipped.push(*j));
                    assert forall|k: int| 0 <= k < passed.len() implies fails_on(
                        #[trigger] passed[k],
                        pull_request_error(skipped_entries(items@.take(i + 1), b)[k]),
                    ) by {
                        if k < passed.len() - 1 {
                            assert(fails_on(passed[k], pull_request_error(prev_skipped[k])));
                        }
                    }
                },
            }
        } else {
            assert(listed_entries(items@.take(i + 1), b) == prev);
            assert(skipped_entries(items@.take(i + 1), b) == prev_skipped);
        }
        i = i + 1;
    }
    assert(items@.take(items.len() as int) =~= items@);
    Listing { pull_requests: out, skipped: passed }
}

/// `r` is what the answer to a listing of open pull requests gives: an
/// error for a status of 400 or more; else the kept and passed-over entries
/// of the body's array, failing only when the body is no array.
pub open spec fn listing_answer(
    status: u16,
    body: Option<Json>,
    branch: Option<Seq<char>>,
    r: Result<Listing, GithubError>,
) -> bool {
    if status >= 400 {
        r matches Err(e) && is_api_error(e, status, body)
    } else {
        match body {
            Some(Json::Array(items)) => r matches Ok(l) && is_listing(l, items@, branch),
            _ => r matches Err(e) && is_malformed(e, "Response is not a JSON array"@),
        }
    }
}

/// Reads the answer to a listing of open pull requests.
pub fn read_open_pull_requests(status: u16, body: &Option<Json>, branch: Option<&str>) -> (r:
    Result<Listing, GithubError>)
    ensures
        listing_answer(status, *body, branch_view(branch), r),
{
    if status >= 400 {
        return Err(api_error(status, body));
    }
    match body {
        Some(Json::Array(items)) => Ok(open_pull_requests(items, branch)),
        _ => Err(malformed("Response is not a JSON array")),
    }
}

/// Reads a response to `GET /repos/{owner}/{repo}/pulls?state=open`,
/// keeping the pull requests whose head branch is `branch`, if given.
pub fn get_github_open_pull_requests(
    headers: &Vec<(String, String)>,
    body: &Vec<u8>,
    branch: Option<&str>,
) -> (r: Result<Listing, GithubError>)
    ensures
        listing_answer(status_of(headers@), decoded_json(body@), branch_view(branch), r),
{
    let status = status_code(headers);
    let data = decode_json(body.as_slice());
    read_open_pull_requests(status, &data, branch)
}

/// Every pull request that a listing keeps for a branch has that branch as
/// its head, whatever malformed entries the listing also holds.
pub proof fn lemma_listing_on_branch(items: Seq<Json>, branch: Seq<char>)
    ensures
        forall|i: int|
            0 <= i < listed_entries(items, Some(branch)).len() ==> head_ref(
                #[trigger] listed_entries(items, Some(branch))[i],
            ) == Some(branch) && pull_request_ok(listed_entries(items, Some(branch))[i]),
    decreases items.len(),
{
    if items.len() > 0 {
        lemma_listing_on_branch(items.drop_last(), branch);
    }
}

} // verus!
