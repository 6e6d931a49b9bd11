//! Settings for talking to the GitHub API, read from the environment that
//! the editor's worktree reports.

use vstd::prelude::*;

verus! {

/// Name of the variable that may hold a GitHub token.
pub const ENV_GITHUB_TOKEN: &'static str = "GITHUB_TOKEN";

/// The value of `name` in an environment given as pairs; the last pair
/// with that name wins, as when the pairs are gathered into a map.
pub open spec fn env_value(env: Seq<(String, String)>, name: Seq<char>) -> Option<Seq<char>>
    decreases env.len(),
{
    if env.len() == 0 {
        None
    } else if env.last().0@ == name {
        Some(env.last().1@)
    } else {
        env_value(env.drop_last(), name)
    }
}

#[derive(Debug, Clone, PartialEq, Eq)]
pub struct Config {
    /// Bearer token for the API; requests go unauthenticated without one.
    pub github_token: Option<String>,
}

impl Config {
    /// Reads the token from the worktree's shell environment, when there is
    /// a worktree.
    pub fn from_worktree(shell_env: Option<Vec<(String, String)>>) -> (r: Config)
        ensures
            match shell_env {
                None => r.github_token is None,
                Some(env) => match env_value(env@, ENV_GITHUB_TOKEN@) {
                    Some(t) => r.github_token matches Some(g) && g@ == t,
                    None => r.github_token is None,
                },
            },
    {
        let env = match shell_env {
            Some(env) => env,
            None => {
                return Config { github_token: None };
            },
        };
        let name = ENV_GITHUB_TOKEN.to_owned();
        let mut token: Option<String> = None;
        let mut i: usize = 0;
        assert(env@.take(0) =~= Seq::<(String, String)>::empty());
        while i < env.len()
            invariant
                0 <= i <= env.len(),
                name@ == ENV_GITHUB_TOKEN@,
                match env_value(env@.take(i as int), ENV_GITHUB_TOKEN@) {
                    Some(t) => token matches Some(g) && g@ == t,
                    None => token is None,
                },
            decreases env.len() - i,
        {
            assert(env@.take(i + 1).drop_last() =~= env@.take(i as int));
            assert(env@.take(i + 1).last() == env@[i as int]);
            if env[i].0 == name {
                token = Some(env[i].1.clone());
            }
            i = i + 1;
        }
        assert(env@.take(env.len() as int) =~= env@);
        Config { github_token: token }
    }

    /// No token.
    pub fn default() -> (r: Config)
        ensures
            r.github_token is None,
    {
        Config { github_token: None }
    }
}

} // verus!
