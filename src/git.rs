//! What the local git checkout says about itself: the owner and repository
//! of its `origin` remote, and the branch checked out. The functions read
//! the output of the git commands; running them is the host's part.

use vstd::prelude::*;
use crate::github_api::GithubError;
use crate::github_context::{invalid, is_invalid, HOST};
use crate::text::{
    chars_of, contains, contains_chars, split, split_chars, starts_with_chars, string_of,
    strip_both, strip_prefixes, strip_suffixes, trim, trim_chars, views,
};

verus! {

/// Prefix of an SSH remote URL.
pub const SSH_PREFIX: &'static str = "git@github.com:";

/// Prefix of an HTTPS remote URL.
pub const HTTPS_PREFIX: &'static str = "https://github.com/";

/// The path of a trimmed remote URL, after its SSH or HTTPS prefix and
/// without trailing `.git`; none for another form.
pub open spec fn remote_path(url: Seq<char>) -> Option<Seq<char>> {
    if SSH_PREFIX@.len() <= url.len() && url.subrange(0, SSH_PREFIX@.len() as int) == SSH_PREFIX@ {
        Some(strip_suffixes(strip_prefixes(url, SSH_PREFIX@), ".git"@))
    } else if HTTPS_PREFIX@.len() <= url.len() && url.subrange(0, HTTPS_PREFIX@.len() as int)
        == HTTPS_PREFIX@ {
        Some(strip_suffixes(strip_prefixes(url, HTTPS_PREFIX@), ".git"@))
    } else {
        None
    }
}

/// Reads owner and repository from the output of
/// `git config --get remote.origin.url`, in SSH form
/// (`git@github.com:owner/repo.git`) or HTTPS form
/// (`https://github.com/owner/repo.git`).
pub fn get_repo(output: &str) -> (r: Result<(String, String), GithubError>)
    ensures
        ({
            let url = trim(output@);
            match r {
                Ok((owner, repo)) => contains(url, HOST@) && remote_path(url) is Some && split(
                    remote_path(url).unwrap(),
                    '/',
                ).len() >= 2 && owner@ == split(remote_path(url).unwrap(), '/')[0] && repo@
                    == split(remote_path(url).unwrap(), '/')[1],
                Err(e) => if !contains(url, HOST@) {
                    is_invalid(e, "Only GitHub repositories are supported"@)
                } else if remote_path(url) is None {
                    is_invalid(e, "Unsupported GitHub URL format"@)
                } else {
                    split(remote_path(url).unwrap(), '/').len() < 2 && is_invalid(
                        e,
                        "Could not extract owner and repo from URL"@,
                    )
                },
            }
        }),
{
    let raw = chars_of(output);
    let url = trim_chars(raw.as_slice());
    let host = chars_of(HOST);
    if !contains_chars(url.as_slice(), host.as_slice()) {
        return Err(invalid("Only GitHub repositories are supported"));
    }
    let ssh = chars_of(SSH_PREFIX);
    let https = chars_of(HTTPS_PREFIX);
    let suffix = chars_of(".git");
    let path = if starts_with_chars(url.as_slice(), ssh.as_slice()) {
        strip_both(url.as_slice(), ssh.as_slice(), suffix.as_slice())
    } else if starts_with_chars(url.as_slice(), https.as_slice()) {
        strip_both(url.as_slice(), https.as_slice(), suffix.as_slice())
    } else {
        return Err(invalid("Unsupported GitHub URL format"));
    };
    assert(remote_path(url@) == Some(path@));
    let parts = split_chars(path.as_slice(), '/');
    assert(views(parts@) == split(path@, '/'));
    assert(parts@.len() == split(path@, '/').len());
    if parts.len() < 2 {
        return Err(invalid("Could not extract owner and repo from URL"));
    }
    assert(parts@[0]@ == split(path@, '/')[0]);
    assert(parts@[1]@ == split(path@, '/')[1]);
    let owner = string_of(parts[0].as_slice());
    let repo = string_of(parts[1].as_slice());
    Ok((owner, repo))
}

/// The current branch from the output of `git rev-parse --abbrev-ref HEAD`.
pub fn get_current_branch(output: &str) -> (r: String)
    ensures
        r@ == trim(output@),
{
    let raw = chars_of(output);
    let t = trim_chars(raw.as_slice());
    string_of(t.as_slice())
}

} // verus!
