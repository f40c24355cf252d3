use ghcli::app::{App, AppMode};
use ghcli::field::InputField;
use ghcli::model::{Repo, User};
use ghcli::screen::{
    decimal, delete_prompt, popup_body, popup_frame, profile_text, repo_text, visibility_items,
    visibility_title, PopupKind,
};

#[test]
fn decimal_numbers() {
    assert_eq!(decimal(0), "0");
    assert_eq!(decimal(7), "7");
    assert_eq!(decimal(10), "10");
    assert_eq!(decimal(4096), "4096");
    assert_eq!(decimal(u32::MAX), "4294967295");
}

#[test]
fn profile_fallbacks() {
    let u = User {
        login: "octo".into(),
        name: None,
        bio: Some("hi".into()),
        public_repos: 12,
        followers: 1,
        following: 2,
    };
    let p = profile_text(&u);
    assert_eq!(p.login, "octo");
    assert_eq!(p.name, "N/A");
    assert_eq!(p.bio, "hi");
    assert_eq!(p.followers, "1");
    assert_eq!(p.public_repos, "12");
}

#[test]
fn repo_details() {
    let r = Repo {
        name: "hello".into(),
        full_name: "octo/hello".into(),
        html_url: "https://github.com/octo/hello".into(),
        clone_url: "https://github.com/octo/hello.git".into(),
        description: None,
        stargazers_count: 42,
        open_issues_count: 3,
    };
    let t = repo_text(&r);
    assert_eq!(t.name, "hello");
    assert_eq!(t.url, "https://github.com/octo/hello");
    assert_eq!(t.stars, "42");
    assert_eq!(t.open_issues, "3");
    assert_eq!(t.description, "No description provided.");
}

#[test]
fn visibility_popup_text() {
    assert_eq!(visibility_items(false), ("[X] Public".to_string(), "[ ] Private".to_string()));
    assert_eq!(visibility_items(true), ("[ ] Public".to_string(), "[X] Private".to_string()));
    assert_eq!(visibility_title("x"), "Visibility for 'x' (Use Up/Down to toggle, Enter to submit)");
    assert_eq!(delete_prompt("octo/x"), "Type 'octo/x' to confirm deletion:");
}

#[test]
fn popup_bodies() {
    let mut app = App::new();
    assert_eq!(popup_body(&app), None);
    app.mode = AppMode::AddingRemoteName;
    app.input = InputField::new("up".into());
    assert_eq!(popup_body(&app).unwrap(), "Remote: up\n\nPress Enter to proceed.");
    app.mode = AppMode::PromptInitGit { remote_name: "origin".into(), clone_url: "u".into() };
    assert_eq!(
        popup_body(&app).unwrap(),
        "Current directory is not a git repository.\n\nInitialize git in current directory and add remote 'origin'?\n\nPress Enter to accept, Esc to cancel."
    );
    app.mode = AppMode::Error("bad".into());
    assert_eq!(popup_body(&app).unwrap(), "bad");
    app.mode = AppMode::Searching;
    assert!(popup_body(&app).unwrap().starts_with("Query: up\n\n"));
}

#[test]
fn popup_frames() {
    let mut app = App::new();
    assert!(popup_frame(&app).is_none());
    app.mode = AppMode::Searching;
    let f = popup_frame(&app).unwrap();
    assert_eq!(f.kind, PopupKind::Entry { label_width: 7 });
    assert_eq!(f.title, "Search Repositories");
    assert_eq!((f.width_percent, f.height_percent), (50, 20));
    app.mode = AppMode::Error("x".into());
    let f = popup_frame(&app).unwrap();
    assert_eq!(f.kind, PopupKind::Failure);
    assert_eq!((f.title.as_str(), f.width_percent, f.height_percent), ("Error", 60, 30));
    app.mode = AppMode::DeletingRepoConfirmation;
    assert!(popup_frame(&app).is_none());
    app.load_repos(vec![Repo {
        name: "n".into(),
        full_name: "o/n".into(),
        html_url: String::new(),
        clone_url: String::new(),
        description: None,
        stargazers_count: 0,
        open_issues_count: 0,
    }]);
    let f = popup_frame(&app).unwrap();
    assert_eq!(f.kind, PopupKind::DeleteConfirmation);
    assert_eq!(f.title, "Delete Repository");
    app.mode = AppMode::CloningRepoRename;
    assert_eq!(popup_frame(&app).unwrap().kind, PopupKind::Entry { label_width: 8 });
    app.mode = AppMode::PromptInitGit { remote_name: "o".into(), clone_url: "u".into() };
    assert_eq!(popup_frame(&app).unwrap().kind, PopupKind::Question);
}
