//! The data the application shows: the signed-in user, repositories and credentials.
use vstd::prelude::*;

verus! {

/// The profile of the signed-in GitHub user.
#[derive(Debug, Clone)]
pub struct User {
    pub login: String,
    pub name: Option<String>,
    pub bio: Option<String>,
    pub public_repos: u32,
    pub followers: u32,
    pub following: u32,
}

/// One repository of the signed-in user.
#[derive(Debug, Clone)]
pub struct Repo {
    pub name: String,
    pub full_name: String,
    pub html_url: String,
    pub clone_url: String,
    pub description: Option<String>,
    pub stargazers_count: u32,
    pub open_issues_count: u32,
}

/// The personal access token kept between runs.
#[derive(Debug, Clone)]
pub struct GitHubCredentials {
    pub token: String,
}

/// The stored credentials to use at start, or none when the user must be asked for a
/// token: asked when re-authentication was requested or nothing is stored.
pub fn credentials_to_use(reauthenticate: bool, stored: Option<GitHubCredentials>) -> (r: Option<GitHubCredentials>)
    ensures
        r == (if reauthenticate { None } else { stored }),
{
    if reauthenticate {
        None
    } else {
        stored
    }
}

/// A result delivered to the application by a background fetch.
#[derive(Debug)]
pub enum AppUpdate {
    User(User),
    Repos(Vec<Repo>),
    UserError(String),
    ReposError(String),
}

} // verus!
