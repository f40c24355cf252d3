//! The text the screen shows: the profile pane, the repository details and the bodies of
//! the popups.
use vstd::prelude::*;

use crate::app::{selected_repo_of, App, AppMode, AppView};
use crate::model::{Repo, User};

verus! {

/// The decimal digit for `d` (below 10).
pub open spec fn digit_char(d: nat) -> char {
    (('0' as u32) + d) as char
}

/// The decimal writing of `n`, without leading zeros.
pub open spec fn decimal_spec(n: nat) -> Seq<char>
    decreases n,
{
    if n < 10 {
        seq![digit_char(n)]
    } else {
        decimal_spec(n / 10).push(digit_char(n % 10))
    }
}

fn push_decimal(s: &mut String, n: u32)
    ensures
        final(s)@ == old(s)@ + decimal_spec(n as nat),
    decreases n,
{
    if n >= 10 {
        push_decimal(s, n / 10);
    }
    let d = (n % 10) as u8;
    let c = (48u8 + d) as char;
    assert(c == digit_char((n % 10) as nat));
    s.push(c);
}

/// `n` written in decimal.
pub fn decimal(n: u32) -> (s: String)
    ensures
        s@ == decimal_spec(n as nat),
{
    let mut s = String::new();
    push_decimal(&mut s, n);
    s
}

/// The text of an optional field, or `fallback` when it is missing.
pub open spec fn text_or(o: Option<String>, fallback: Seq<char>) -> Seq<char> {
    match o {
        Some(t) => t@,
        None => fallback,
    }
}

fn owned_or(o: &Option<String>, fallback: &str) -> (s: String)
    ensures
        s@ == text_or(*o, fallback@),
{
    match o {
        Some(t) => t.clone(),
        None => fallback.to_owned(),
    }
}

/// The values of the profile pane.
#[derive(Debug)]
pub struct ProfileText {
    pub login: String,
    pub name: String,
    pub bio: String,
    pub followers: String,
    pub public_repos: String,
}

/// What the profile pane shows of `user`: the login, the name and bio (`N/A` when
/// missing), the number of followers and the number of public repositories.
pub fn profile_text(user: &User) -> (p: ProfileText)
    ensures
        p.login@ == user.login@,
        p.name@ == text_or(user.name, "N/A"@),
        p.bio@ == text_or(user.bio, "N/A"@),
        p.followers@ == decimal_spec(user.followers as nat),
        p.public_repos@ == decimal_spec(user.public_repos as nat),
{
    ProfileText {
        login: user.login.clone(),
        name: owned_or(&user.name, "N/A"),
        bio: owned_or(&user.bio, "N/A"),
        followers: decimal(user.followers),
        public_repos: decimal(user.public_repos),
    }
}

/// The values of the repository details pane.
#[derive(Debug)]
pub struct RepoText {
    pub name: String,
    pub url: String,
    pub stars: String,
    pub open_issues: String,
    pub description: String,
}

/// What the details pane shows of `repo`: name, page, stars, open issues, and the
/// description (`No description provided.` when missing).
pub fn repo_text(repo: &Repo) -> (r: RepoText)
    ensures
        r.name@ == repo.name@,
        r.url@ == repo.html_url@,
        r.stars@ == decimal_spec(repo.stargazers_count as nat),
        r.open_issues@ == decimal_spec(repo.open_issues_count as nat),
        r.description@ == text_or(repo.description, "No description provided."@),
{
    RepoText {
        name: repo.name.clone(),
        url: repo.html_url.clone(),
        stars: decimal(repo.stargazers_count),
        open_issues: decimal(repo.open_issues_count),
        description: owned_or(&repo.description, "No description provided."),
    }
}

/// The two choices of the visibility popup, the chosen one marked `[X]`.
pub fn visibility_items(private: bool) -> (items: (String, String))
    ensures
        items.0@ == (if private { "[ ] Public"@ } else { "[X] Public"@ }),
        items.1@ == (if private { "[X] Private"@ } else { "[ ] Private"@ }),
{
    if private {
        (String::from_str("[ ] Public"), String::from_str("[X] Private"))
    } else {
        (String::from_str("[X] Public"), String::from_str("[ ] Private"))
    }
}

/// The title of the visibility popup for the repository `name`.
pub fn visibility_title(name: &str) -> (t: String)
    ensures
        t@ == "Visibility for '"@ + name@ + "' (Use Up/Down to toggle, Enter to submit)"@,
{
    String::from_str("Visibility for '").concat(name).concat("' (Use Up/Down to toggle, Enter to submit)")
}

/// The line of the deletion popup that says what to type.
pub fn delete_prompt(full_name: &str) -> (t: String)
    ensures
        t@ == "Type '"@ + full_name@ + "' to confirm deletion:"@,
{
    String::from_str("Type '").concat(full_name).concat("' to confirm deletion:")
}

/// The body of the popup that `mode` shows as one paragraph, given the text of the
/// line-editing field; none for the other modes.
pub open spec fn popup_body_spec(mode: AppMode, field: Seq<char>) -> Option<Seq<char>> {
    match mode {
        AppMode::Error(e) => Some(e@),
        AppMode::Message(m) => Some(m@),
        AppMode::CloningRepoPath => Some(
            "Path: "@ + field + "\n\nPress Enter to proceed. To use default `.`, just press Enter."@,
        ),
        AppMode::CloningRepoRename => Some(
            "Rename: "@ + field
                + "\n\nPress Enter to proceed. To keep original name, leave blank and press Enter."@,
        ),
        AppMode::AddingRemoteName => Some("Remote: "@ + field + "\n\nPress Enter to proceed."@),
        AppMode::Searching => Some(
            "Query: "@ + field
                + "\n\nType to search. Selection moves to the first match. Press Enter or Esc to dismiss."@,
        ),
        AppMode::PromptInitGit { remote_name, .. } => Some(
            "Current directory is not a git repository.\n\nInitialize git in current directory and add remote '"@
                + remote_name@ + "'?\n\nPress Enter to accept, Esc to cancel."@,
        ),
        _ => None,
    }
}

/// The body of the paragraph popup of the current mode (see `popup_body_spec`).
pub fn popup_body(app: &App) -> (b: Option<String>)
    ensures
        match b {
            Some(t) => popup_body_spec(app.mode, app.input.value@) == Some(t@),
            None => popup_body_spec(app.mode, app.input.value@) is None,
        },
{
    let field = app.input.value.as_str();
    match &app.mode {
        AppMode::Error(e) => Some(e.clone()),
        AppMode::Message(m) => Some(m.clone()),
        AppMode::CloningRepoPath => Some(
            String::from_str("Path: ").concat(field).concat(
                "\n\nPress Enter to proceed. To use default `.`, just press Enter.",
            ),
        ),
        AppMode::CloningRepoRename => Some(
            String::from_str("Rename: ").concat(field).concat(
                "\n\nPress Enter to proceed. To keep original name, leave blank and press Enter.",
            ),
        ),
        AppMode::AddingRemoteName => Some(
            String::from_str("Remote: ").concat(field).concat("\n\nPress Enter to proceed."),
        ),
        AppMode::Searching => Some(
            String::from_str("Query: ").concat(field).concat(
                "\n\nType to search. Selection moves to the first match. Press Enter or Esc to dismiss.",
            ),
        ),
        AppMode::PromptInitGit { remote_name, .. } => Some(
            String::from_str(
                "Current directory is not a git repository.\n\nInitialize git in current directory and add remote '",
            ).concat(remote_name.as_str()).concat("'?\n\nPress Enter to accept, Esc to cancel."),
        ),
        _ => None,
    }
}

/// How a popup is laid out.
#[derive(Debug, Clone, Copy, PartialEq, Eq, Structural)]
pub enum PopupKind {
    /// The name of a new repository, typed on an underlined line.
    NameEntry,
    /// The public/private choice.
    VisibilityChoice,
    /// The warning and the full name to type before a deletion.
    DeleteConfirmation,
    /// An error, in red.
    Failure,
    /// A success notice, in green.
    Success,
    /// A paragraph whose first line is a label of `label_width` characters followed by the
    /// text being typed, with the cursor in it.
    Entry { label_width: u16 },
    /// A question answered with Enter or Esc.
    Question,
}

/// The popup drawn over the panes: its layout, its title, and its share of the screen's
/// width and height in percent.
#[derive(Debug)]
pub struct PopupFrame {
    pub kind: PopupKind,
    pub title: String,
    pub width_percent: u16,
    pub height_percent: u16,
}

/// The popup of the state `v`: one per popup mode, the deletion popup only while a
/// repository is selected, none in normal mode and in the modes that are never entered.
pub open spec fn popup_frame_spec(v: AppView) -> Option<(PopupKind, Seq<char>, u16, u16)> {
    match v.mode {
        AppMode::CreatingRepoName => Some((PopupKind::NameEntry, "Create New Repository"@, 60u16, 20u16)),
        AppMode::CreatingRepoVisibility => Some(
            (PopupKind::VisibilityChoice, "Repository Visibility"@, 60u16, 20u16),
        ),
        AppMode::DeletingRepoConfirmation => if selected_repo_of(v) is Some {
            Some((PopupKind::DeleteConfirmation, "Delete Repository"@, 60u16, 20u16))
        } else {
            None
        },
        AppMode::Error(_) => Some((PopupKind::Failure, "Error"@, 60u16, 30u16)),
        AppMode::Message(_) => Some((PopupKind::Success, "Success"@, 50u16, 20u16)),
        AppMode::CloningRepoPath => Some(
            (PopupKind::Entry { label_width: 6 }, "Clone to Path (default: .)"@, 50u16, 20u16),
        ),
        AppMode::CloningRepoRename => Some(
            (
                PopupKind::Entry { label_width: 8 },
                "Rename cloned directory (default: same as repo)"@,
                50u16,
                20u16,
            ),
        ),
        AppMode::AddingRemoteName => Some(
            (PopupKind::Entry { label_width: 8 }, "Add remote name (default: origin)"@, 50u16, 20u16),
        ),
        AppMode::Searching => Some(
            (PopupKind::Entry { label_width: 7 }, "Search Repositories"@, 50u16, 20u16),
        ),
        AppMode::PromptInitGit { .. } => Some((PopupKind::Question, "Not a Git Repository"@, 50u16, 20u16)),
        _ => None,
    }
}

fn frame(kind: PopupKind, title: &str, width_percent: u16, height_percent: u16) -> (f: PopupFrame)
    ensures
        f.kind == kind,
        f.title@ == title@,
        f.width_percent == width_percent,
        f.height_percent == height_percent,
{
    PopupFrame { kind, title: title.to_owned(), width_percent, height_percent }
}

/// The popup to draw for the current state (see `popup_frame_spec`).
pub fn popup_frame(app: &App) -> (r: Option<PopupFrame>)
    ensures
        match r {
            Some(f) => popup_frame_spec(app@) == Some((f.kind, f.title@, f.width_percent, f.height_percent)),
            None => popup_frame_spec(app@) is None,
        },
{
    match &app.mode {
        AppMode::CreatingRepoName => Some(frame(PopupKind::NameEntry, "Create New Repository", 60, 20)),
        AppMode::CreatingRepoVisibility => Some(
            frame(PopupKind::VisibilityChoice, "Repository Visibility", 60, 20),
        ),
        AppMode::DeletingRepoConfirmation => if app.selected_repo().is_some() {
            Some(frame(PopupKind::DeleteConfirmation, "Delete Repository", 60, 20))
        } else {
            None
        },
        AppMode::Error(_) => Some(frame(PopupKind::Failure, "Error", 60, 30)),
        AppMode::Message(_) => Some(frame(PopupKind::Success, "Success", 50, 20)),
        AppMode::CloningRepoPath => Some(
            frame(PopupKind::Entry { label_width: 6 }, "Clone to Path (default: .)", 50, 20),
        ),
        AppMode::CloningRepoRename => Some(
            frame(
                PopupKind::Entry { label_width: 8 },
                "Rename cloned directory (default: same as repo)",
                50,
                20,
            ),
        ),
        AppMode::AddingRemoteName => Some(
            frame(PopupKind::Entry { label_width: 8 }, "Add remote name (default: origin)", 50, 20),
        ),
        AppMode::Searching => Some(frame(PopupKind::Entry { label_width: 7 }, "Search Repositories", 50, 20)),
        AppMode::PromptInitGit { .. } => Some(frame(PopupKind::Question, "Not a Git Repository", 50, 20)),
        _ => None,
    }
}

} // verus!
