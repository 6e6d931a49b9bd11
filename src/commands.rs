//! The fragment extractor: turns a pull request and its review comments
//! into the labelled fragments of the document, in the API's order.

use vstd::prelude::*;
use crate::github_api::{PullRequest, PullRequestComment};
use crate::prompt_utils::PromptPart;
use crate::text::{concat, decimal, decimal_string};

verus! {

/// Content of the first fragment when the pull request has no description.
pub const NO_DESCRIPTION: &'static str = "No description provided.";

/// Marker that starts the label of a reply.
pub const REPLY_MARKER: &'static str = "↪";

/// `PR #<number>: <title>`
pub open spec fn pr_label(number: u32, title: Seq<char>) -> Seq<char> {
    "PR #"@ + decimal(number as nat) + ": "@ + title
}

/// The description, or the fallback text when there is none.
pub open spec fn pr_content(body: Option<String>) -> Seq<char> {
    match body {
        Some(b) => b@,
        None => NO_DESCRIPTION@,
    }
}

/// `Comment by @<login>`, or for a reply (a non-zero `in_reply_to_id`)
/// `↪ Reply to comment by @<login>`.
pub open spec fn comment_label(login: Seq<char>, in_reply_to_id: u64) -> Seq<char> {
    if in_reply_to_id != 0 {
        "↪ Reply to comment by @"@ + login
    } else {
        "Comment by @"@ + login
    }
}

/// The diff hunk in a fenced `diff` block, a blank line, then the body.
pub open spec fn comment_content(diff_hunk: Seq<char>, body: Seq<char>) -> Seq<char> {
    "```diff\n"@ + diff_hunk + "\n```\n\n"@ + body
}

/// A fragment with this label and content and a matching length.
pub open spec fn is_fragment(p: PromptPart, label: Seq<char>, content: Seq<char>) -> bool {
    p.label@ == label && p.content@ == content && p.wf()
}

fn pr_fragment(pull_request: &PullRequest) -> (r: PromptPart)
    ensures
        is_fragment(
            r,
            pr_label(pull_request.number, pull_request.title@),
            pr_content(pull_request.body),
        ),
{
    let n = decimal_string(pull_request.number as u64);
    let a = concat("PR #", n.as_str());
    let b = concat(a.as_str(), ": ");
    let label = concat(b.as_str(), pull_request.title.as_str());
    let content = match &pull_request.body {
        Some(body) => body.clone(),
        None => NO_DESCRIPTION.to_owned(),
    };
    PromptPart::new(label, content)
}

fn comment_fragment(comment: &PullRequestComment) -> (r: PromptPart)
    ensures
        is_fragment(
            r,
            comment_label(comment.user.login@, comment.in_reply_to_id),
            comment_content(comment.diff_hunk@, comment.body@),
        ),
{
    let a = concat("```diff\n", comment.diff_hunk.as_str());
    let b = concat(a.as_str(), "\n```\n\n");
    let content = concat(b.as_str(), comment.body.as_str());
    let label = if comment.in_reply_to_id != 0 {
        concat("↪ Reply to comment by @", comment.user.login.as_str())
    } else {
        concat("Comment by @", comment.user.login.as_str())
    };
    PromptPart::new(label, content)
}

/// The fragments of a pull request's document: first the description,
/// then one per review comment in the given order.
pub fn pr_data(pull_request: &PullRequest, comments: &Vec<PullRequestComment>) -> (r: Vec<
    PromptPart,
>)
    ensures
        r.len() == comments.len() + 1,
        is_fragment(
            r[0],
            pr_label(pull_request.number, pull_request.title@),
            pr_content(pull_request.body),
        ),
        pull_request.body is None ==> r[0].content@ == NO_DESCRIPTION@,
        forall|i: int|
            0 <= i < comments.len() ==> #[trigger] is_fragment(
                r[i + 1],
                comment_label(comments[i].user.login@, comments[i].in_reply_to_id),
                comment_content(comments[i].diff_hunk@, comments[i].body@),
            ),
{
    let mut parts: Vec<PromptPart> = Vec::new();
    parts.push(pr_fragment(pull_request));
    let mut i: usize = 0;
    while i < comments.len()
        invariant
            0 <= i <= comments.len(),
            parts.len() == i + 1,
            is_fragment(
                parts[0],
                pr_label(pull_request.number, pull_request.title@),
                pr_content(pull_request.body),
            ),
            forall|k: int|
                0 <= k < i ==> #[trigger] is_fragment(
                    parts[k + 1],
                    comment_label(comments[k].user.login@, comments[k].in_reply_to_id),
                    comment_content(comments[k].diff_hunk@, comments[k].body@),
                ),
        decreases comments.len() - i,
    {
        parts.push(comment_fragment(&comments[i]));
        i = i + 1;
    }
    parts
}

/// A comment's label starts with the reply marker exactly when its
/// `in_reply_to_id` is non-zero.
pub proof fn lemma_reply_label(login: Seq<char>, in_reply_to_id: u64)
    ensures
        (comment_label(login, in_reply_to_id).len() > 0 && comment_label(login, in_reply_to_id)[0]
            == REPLY_MARKER@[0]) == (in_reply_to_id != 0),
{
    reveal_strlit("↪");
    reveal_strlit("↪ Reply to comment by @");
    reveal_strlit("Comment by @");
    if in_reply_to_id != 0 {
        assert(comment_label(login, in_reply_to_id)[0] == '↪');
    } else {
        assert(comment_label(login, in_reply_to_id)[0] == 'C');
    }
}

} // verus!
