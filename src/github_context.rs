//! Resolving which pull request a command is about: from a pull request
//! URL, from an `owner,repo,number` argument, or from the open pull
//! requests of the checked-out branch.

use vstd::prelude::*;
use crate::github_api::{branch_view, GithubError, PullRequest};
use crate::text::{
    chars_equal, chars_of, concat, decimal, decimal_string, lemma_split_nonempty, parse_unsigned, parse_unsigned_chars, split,
    split_chars, string_of, views,
};

verus! {

/// The host that every accepted URL names.
pub const HOST: &'static str = "github.com";

/// Which pull request a command is about.
#[derive(Debug, Clone, PartialEq, Eq)]
pub struct PrIdentity {
    pub owner: String,
    pub repo: String,
    pub number: u32,
}

/// Largest pull request number.
pub open spec fn max_number() -> nat {
    0xffff_ffff
}

/// Position `k` holds the host, and no earlier position does.
pub open spec fn is_host_index(parts: Seq<Seq<char>>, k: int) -> bool {
    &&& 0 <= k < parts.len()
    &&& parts[k] == HOST@
    &&& forall|j: int| 0 <= j < k ==> parts[j] != HOST@
}

/// `e` reports an unusable identity with this message.
pub open spec fn is_invalid(e: GithubError, message: Seq<char>) -> bool {
    e matches GithubError::InvalidIdentity(m) && m@ == message
}

pub(crate) fn invalid(message: &str) -> (r: GithubError)
    ensures
        is_invalid(r, message@),
{
    GithubError::InvalidIdentity(message.to_owned())
}

/// Reads a pull request URL such as
/// `https://github.com/owner/repo/pull/42`: the number is the last path
/// segment, owner and repository the two segments after the host.
pub fn parse_pr_link(url: &str) -> (r: Result<PrIdentity, GithubError>)
    ensures
        ({
            let parts = split(url@, '/');
            match r {
                Ok(id) => parse_unsigned(parts.last(), max_number()) == Some(id.number as nat) && (
                exists|k: int|
                    is_host_index(parts, k) && k + 2 < parts.len() && id.owner@ == parts[k + 1]
                        && id.repo@ == parts[k + 2]),
                Err(e) => if parse_unsigned(parts.last(), max_number()) is None {
                    is_invalid(e, "Invalid PR number in URL"@)
                } else {
                    (forall|k: int| is_host_index(parts, k) ==> k + 2 >= parts.len()) && is_invalid(
                        e,
                        "Invalid GitHub PR URL format"@,
                    )
                },
            }
        }),
{
    let s = chars_of(url);
    let parts = split_chars(s.as_slice(), '/');
    let ghost ps = split(url@, '/');
    proof {
        lemma_split_nonempty(url@, '/');
    }
    assert(views(parts@) == ps);
    assert(parts@.len() == ps.len());
    let last = &parts[parts.len() - 1];
    assert(last@ == ps.last());
    let number = match parse_unsigned_chars(last.as_slice(), 0xffff_ffff) {
        Some(n) => n,
        None => {
            return Err(invalid("Invalid PR number in URL"));
        },
    };
    let host = chars_of(HOST);
    let mut k: usize = 0;
    while k < parts.len() && !chars_equal(parts[k].as_slice(), host.as_slice())
        invariant
            0 <= k <= parts.len(),
            views(parts@) == ps,
            host@ == HOST@,
            forall|j: int| 0 <= j < k ==> ps[j] != HOST@,
        decreases parts.len() - k,
    {
        assert(parts@[k as int]@ == ps[k as int]);
        k = k + 1;
    }
    assert(k < parts.len() ==> parts@[k as int]@ == ps[k as int]);
    if k == parts.len() || parts.len() - k <= 2 {
        proof {
            assert forall|j: int| is_host_index(ps, j) implies j + 2 >= ps.len() by {
                if j < k {
                }
            }
        }
        return Err(invalid("Invalid GitHub PR URL format"));
    }
    assert(is_host_index(ps, k as int));
    assert(parts@[k + 1]@ == ps[k + 1]);
    assert(parts@[k + 2]@ == ps[k + 2]);
    let owner = string_of(parts[k + 1].as_slice());
    let repo = string_of(parts[k + 2].as_slice());
    Ok(PrIdentity { owner, repo, number })
}

/// Reads an `owner,repo,number` argument.
pub fn parse_pr_args(arg: Option<&str>) -> (r: Result<PrIdentity, GithubError>)
    ensures
        match arg {
            None => r matches Err(e) && is_invalid(e, "Owner not provided in args"@),
            Some(a) => {
                let parts = split(a@, ',');
                match r {
                    Ok(id) => parts.len() >= 3 && id.owner@ == parts[0] && id.repo@ == parts[1]
                        && parse_unsigned(parts[2], max_number()) == Some(id.number as nat),
                    Err(e) => if parts.len() < 2 {
                        is_invalid(e, "Owner not provided in args"@)
                    } else if parts.len() == 2 {
                        is_invalid(e, "No PR number provided. Please provide a PR number."@)
                    } else {
                        parse_unsigned(parts[2], max_number()) is None && is_invalid(
                            e,
                            "Invalid PR number"@,
                        )
                    },
                }
            },
        },
{
    let a = match arg {
        Some(a) => a,
        None => {
            return Err(invalid("Owner not provided in args"));
        },
    };
    let s = chars_of(a);
    let parts = split_chars(s.as_slice(), ',');
    let ghost ps = split(a@, ',');
    assert(views(parts@) == ps);
    assert(parts@.len() == ps.len());
    if parts.len() < 2 {
        return Err(invalid("Owner not provided in args"));
    }
    if parts.len() < 3 {
        return Err(invalid("No PR number provided. Please provide a PR number."));
    }
    assert(parts@[2]@ == ps[2]);
    let number = match parse_unsigned_chars(parts[2].as_slice(), 0xffff_ffff) {
        Some(n) => n,
        None => {
            return Err(invalid("Invalid PR number"));
        },
    };
    assert(parts@[0]@ == ps[0]);
    assert(parts@[1]@ == ps[1]);
    let owner = string_of(parts[0].as_slice());
    let repo = string_of(parts[1].as_slice());
    Ok(PrIdentity { owner, repo, number })
}

/// The message when no open pull request has the branch.
pub open spec fn no_match_message(branch: Option<Seq<char>>) -> Seq<char> {
    match branch {
        Some(b) => "No open pull requests found for branch: "@ + b,
        None => "No open pull requests found for branch: (unknown)"@,
    }
}

/// The number of the first open pull request of a listing (the most
/// recent); fails when the listing is empty.
pub fn first_pull_request_number(prs: &Vec<PullRequest>, branch: Option<&str>) -> (r: Result<
    u32,
    GithubError,
>)
    ensures
        prs.len() > 0 ==> r == Ok::<u32, GithubError>(prs[0].number),
        prs.len() == 0 ==> (r matches Err(GithubError::NoMatchingPullRequest(m)) && m@
            == no_match_message(branch_view(branch))),
{
    if prs.len() > 0 {
        return Ok(prs[0].number);
    }
    let message = match branch {
        Some(b) => concat("No open pull requests found for branch: ", b),
        None => "No open pull requests found for branch: (unknown)".to_owned(),
    };
    Err(GithubError::NoMatchingPullRequest(message))
}

/// `#<number>: <title>`, how an open pull request is offered for completion.
pub fn completion_label(pr: &PullRequest) -> (r: String)
    ensures
        r@ == "#"@ + decimal(pr.number as nat) + ": "@ + pr.title@,
{
    let n = decimal_string(pr.number as u64);
    let a = concat("#", n.as_str());
    let b = concat(a.as_str(), ": ");
    concat(b.as_str(), pr.title.as_str())
}

/// `owner,repo,number`, the argument that a completion inserts.
pub fn completion_text(owner: &str, repo: &str, number: u32) -> (r: String)
    ensures
        r@ == owner@ + ","@ + repo@ + ","@ + decimal(number as nat),
{
    let a = concat(owner, ",");
    let b = concat(a.as_str(), repo);
    let c = concat(b.as_str(), ",");
    let n = decimal_string(number as u64);
    concat(c.as_str(), n.as_str())
}

} // verus!
