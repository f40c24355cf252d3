use ghcli::app::{App, AppMode, Effect, Key, ListState};
use ghcli::field::{EditRequest, InputField};
use ghcli::model::{credentials_to_use, GitHubCredentials, Repo};

fn repo(name: &str) -> Repo {
    Repo {
        name: name.to_string(),
        full_name: format!("octo/{}", name),
        html_url: format!("https://github.com/octo/{}", name),
        clone_url: format!("https://github.com/octo/{}.git", name),
        description: None,
        stargazers_count: 1,
        open_issues_count: 0,
    }
}

/// Types `text` into the field of the current popup, key by key.
fn type_text(app: &mut App, text: &str) {
    for c in text.chars() {
        assert!(matches!(app.handle_key(Key::Char(c)), Effect::EditInput));
        app.edit_input(Some(EditRequest::InsertChar(c)));
    }
}

fn app_with(names: &[&str]) -> App {
    let mut app = App::new();
    app.load_repos(names.iter().map(|n| repo(n)).collect());
    app
}

#[test]
fn new_app_is_empty() {
    let app = App::new();
    assert!(app.user.is_none());
    assert!(app.repos.is_empty());
    assert_eq!(app.state.selected(), None);
    assert!(matches!(app.mode, AppMode::Normal));
    assert_eq!(app.input.value, "");
    assert!(!app.new_repo_private);
}

#[test]
fn list_state_select() {
    let mut s = ListState::new();
    assert_eq!(s.selected(), None);
    s.select(Some(3));
    assert_eq!(s.selected(), Some(3));
}

#[test]
fn load_repos_selects_first() {
    let mut app = App::new();
    app.load_repos(vec![repo("a"), repo("b")]);
    assert_eq!(app.state.selected(), Some(0));
    app.state.select(Some(1));
    app.load_repos(vec![]);
    assert!(app.repos.is_empty());
    assert_eq!(app.state.selected(), Some(1));
}

#[test]
fn next_and_previous_wrap_around() {
    let mut app = app_with(&["a", "b", "c"]);
    app.next();
    assert_eq!(app.state.selected(), Some(1));
    app.next();
    app.next();
    assert_eq!(app.state.selected(), Some(0));
    app.previous();
    assert_eq!(app.state.selected(), Some(2));
    app.previous();
    assert_eq!(app.state.selected(), Some(1));
}

#[test]
fn next_then_previous_restores_selection() {
    for start in 0..4 {
        let mut app = app_with(&["a", "b", "c", "d"]);
        app.state.select(Some(start));
        app.next();
        app.previous();
        assert_eq!(app.state.selected(), Some(start));
        app.previous();
        app.next();
        assert_eq!(app.state.selected(), Some(start));
    }
}

#[test]
fn moving_on_empty_list_does_nothing() {
    let mut app = App::new();
    app.next();
    assert_eq!(app.state.selected(), None);
    app.previous();
    assert_eq!(app.state.selected(), None);
}

#[test]
fn moving_without_selection_selects_first() {
    let mut app = app_with(&["a", "b"]);
    app.state.select(None);
    app.previous();
    assert_eq!(app.state.selected(), Some(0));
    app.state.select(None);
    app.next();
    assert_eq!(app.state.selected(), Some(0));
}

#[test]
fn selection_past_the_end() {
    let mut app = app_with(&["a", "b"]);
    app.state.select(Some(7));
    assert!(app.selected_repo().is_none());
    app.next();
    assert_eq!(app.state.selected(), Some(0));
    app.state.select(Some(7));
    app.previous();
    assert_eq!(app.state.selected(), Some(6));
}

#[test]
fn search_moves_to_first_match() {
    let mut app = app_with(&["Alpha", "beta", "GammaBeta", "delta"]);
    app.search_query = "  BETA ".to_string();
    app.search_repos();
    assert_eq!(app.state.selected(), Some(1));
    app.search_query = "mab".to_string();
    app.search_repos();
    assert_eq!(app.state.selected(), Some(2));
}

#[test]
fn search_without_match_or_query_keeps_selection() {
    let mut app = app_with(&["alpha", "beta"]);
    app.state.select(Some(1));
    app.search_query = "zzz".to_string();
    app.search_repos();
    assert_eq!(app.state.selected(), Some(1));
    app.search_query = "   ".to_string();
    app.search_repos();
    assert_eq!(app.state.selected(), Some(1));
}

#[test]
fn normal_mode_keys() {
    let mut app = app_with(&["a", "b"]);
    assert!(matches!(app.handle_key(Key::Char('j')), Effect::Nothing));
    assert_eq!(app.state.selected(), Some(1));
    assert!(matches!(app.handle_key(Key::Up), Effect::Nothing));
    assert_eq!(app.state.selected(), Some(0));
    assert!(matches!(app.handle_key(Key::Char('q')), Effect::Quit));
    match app.handle_key(Key::Char('o')) {
        Effect::OpenInBrowser { url } => assert_eq!(url, "https://github.com/octo/a"),
        _ => panic!("expected a browser request"),
    }
    assert!(matches!(app.handle_key(Key::Char('z')), Effect::Nothing));
    assert!(matches!(app.mode, AppMode::Normal));
}

#[test]
fn popups_need_repositories() {
    let mut app = App::new();
    for k in [Key::Char('x'), Key::Delete, Key::Enter, Key::Char('d'), Key::Char('r')] {
        app.handle_key(k);
        assert!(matches!(app.mode, AppMode::Normal));
    }
    assert!(matches!(app.handle_key(Key::Char('o')), Effect::Nothing));
}

#[test]
fn escape_closes_every_popup() {
    let mut app = app_with(&["a"]);
    let openers = [Key::Char('c'), Key::Char('x'), Key::Char('d'), Key::Char('r'), Key::Char('/')];
    for opener in openers {
        app.handle_key(opener);
        assert!(!matches!(app.mode, AppMode::Normal));
        assert!(matches!(app.handle_key(Key::Esc), Effect::Nothing));
        assert!(matches!(app.mode, AppMode::Normal));
    }
    app.mode = AppMode::Error("boom".to_string());
    app.handle_key(Key::Esc);
    assert!(matches!(app.mode, AppMode::Normal));
    app.mode = AppMode::PromptInitGit { remote_name: "origin".into(), clone_url: "u".into() };
    app.handle_key(Key::Esc);
    assert!(matches!(app.mode, AppMode::Normal));
}

#[test]
fn creating_a_repository() {
    let mut app = app_with(&["a"]);
    app.handle_key(Key::Char('c'));
    assert!(matches!(app.mode, AppMode::CreatingRepoName));
    assert!(matches!(app.handle_key(Key::Char('n')), Effect::EditInput));
    type_text(&mut app, "newrepo");
    app.handle_key(Key::Enter);
    assert!(matches!(app.mode, AppMode::CreatingRepoVisibility));
    assert_eq!(app.new_repo_name, "newrepo");
    app.handle_key(Key::Down);
    assert!(app.new_repo_private);
    match app.handle_key(Key::Enter) {
        Effect::CreateRepo { name, private } => {
            assert_eq!(name, "newrepo");
            assert!(private);
        }
        _ => panic!("expected a creation request"),
    }
    assert!(app.finish_create_repo(Ok(())));
    assert!(matches!(app.mode, AppMode::Normal));
    assert_eq!(app.new_repo_name, "");
    assert_eq!(app.input.value, "");
}

#[test]
fn empty_name_is_not_submitted() {
    let mut app = App::new();
    app.handle_key(Key::Char('c'));
    app.handle_key(Key::Enter);
    assert!(matches!(app.mode, AppMode::CreatingRepoName));
    app.mode = AppMode::CreatingRepoVisibility;
    assert!(matches!(app.handle_key(Key::Enter), Effect::Nothing));
    assert!(matches!(app.create_repo(), Effect::Nothing));
}

#[test]
fn failed_creation_shows_error() {
    let mut app = App::new();
    app.new_repo_name = "x".to_string();
    app.mode = AppMode::CreatingRepoVisibility;
    assert!(!app.finish_create_repo(Err("Failed to create repo: nope".to_string())));
    match &app.mode {
        AppMode::Error(e) => assert_eq!(e, "Failed to create repo: nope"),
        _ => panic!("expected an error"),
    }
    app.handle_key(Key::Enter);
    assert!(matches!(app.mode, AppMode::Normal));
    assert_eq!(app.new_repo_name, "");
}

#[test]
fn cloning_flow() {
    let mut app = app_with(&["a", "b"]);
    app.handle_key(Key::Down);
    app.handle_key(Key::Char('d'));
    assert!(matches!(app.mode, AppMode::CloningRepoPath));
    type_text(&mut app, "   ");
    app.handle_key(Key::Enter);
    assert_eq!(app.clone_path, ".");
    assert_eq!(app.input.value, "");
    assert!(matches!(app.mode, AppMode::CloningRepoRename));
    type_text(&mut app, "  mycopy ");
    match app.handle_key(Key::Enter) {
        Effect::CloneRepo { clone_url, path, rename } => {
            assert_eq!(clone_url, "https://github.com/octo/b.git");
            assert_eq!(path, ".");
            assert_eq!(rename, "mycopy");
        }
        _ => panic!("expected a clone request"),
    }
    assert_eq!(app.clone_path, "");
    app.finish_clone(Ok(()));
    match &app.mode {
        AppMode::Message(m) => assert_eq!(m, "Repository cloned successfully!"),
        _ => panic!("expected a message"),
    }
    app.finish_clone(Err("Git failed: x".to_string()));
    assert!(matches!(&app.mode, AppMode::Error(e) if e == "Git failed: x"));
}

#[test]
fn clone_path_is_trimmed() {
    let mut app = app_with(&["a"]);
    app.handle_key(Key::Enter);
    type_text(&mut app, "  /tmp/work ");
    app.handle_key(Key::Enter);
    assert_eq!(app.clone_path, "/tmp/work");
}

#[test]
fn clone_without_selection_returns_to_normal() {
    let mut app = app_with(&["a"]);
    app.state.select(None);
    app.mode = AppMode::CloningRepoRename;
    assert!(matches!(app.handle_key(Key::Enter), Effect::Nothing));
    assert!(matches!(app.mode, AppMode::Normal));
    assert!(matches!(app.clone_selected_repo(".", ""), Effect::Nothing));
}

#[test]
fn deletion_needs_exact_full_name() {
    let mut app = app_with(&["a", "b"]);
    app.handle_key(Key::Char('x'));
    assert!(matches!(app.mode, AppMode::DeletingRepoConfirmation));
    type_text(&mut app, "octo/b");
    assert!(matches!(app.handle_key(Key::Enter), Effect::Nothing));
    match &app.mode {
        AppMode::Error(e) => assert_eq!(e, "Repository name did not match."),
        _ => panic!("expected a refusal"),
    }
    assert_eq!(app.input.value, "");
    app.handle_key(Key::Esc);
    app.handle_key(Key::Delete);
    type_text(&mut app, "  octo/a ");
    match app.handle_key(Key::Enter) {
        Effect::DeleteRepo { full_name } => assert_eq!(full_name, "octo/a"),
        _ => panic!("expected a deletion request"),
    }
    assert!(app.finish_delete(Ok(())));
    assert!(matches!(app.mode, AppMode::Normal));
}

#[test]
fn failed_deletion_shows_error() {
    let mut app = app_with(&["a"]);
    app.mode = AppMode::DeletingRepoConfirmation;
    app.input = InputField::new("octo/a".to_string());
    assert!(!app.finish_delete(Err("Failed to delete repo: no".to_string())));
    assert!(matches!(&app.mode, AppMode::Error(e) if e == "Failed to delete repo: no"));
    assert_eq!(app.input.value, "");
}

#[test]
fn delete_without_selection_does_nothing() {
    let mut app = app_with(&["a"]);
    app.state.select(None);
    app.mode = AppMode::DeletingRepoConfirmation;
    app.input = InputField::new("octo/a".to_string());
    assert!(matches!(app.handle_key(Key::Enter), Effect::Nothing));
    assert!(matches!(app.mode, AppMode::DeletingRepoConfirmation));
    assert!(matches!(app.delete_selected_repo(), Effect::Nothing));
}

#[test]
fn adding_a_remote() {
    let mut app = app_with(&["a"]);
    app.handle_key(Key::Char('r'));
    assert!(matches!(app.mode, AppMode::AddingRemoteName));
    type_text(&mut app, "   ");
    match app.handle_key(Key::Enter) {
        Effect::AddRemote { remote_name, clone_url } => {
            assert_eq!(remote_name, "origin");
            assert_eq!(clone_url, "https://github.com/octo/a.git");
        }
        _ => panic!("expected a remote request"),
    }
    assert_eq!(app.input.value, "");
    match app.add_remote_to_repo(" upstream ") {
        Effect::AddRemote { remote_name, .. } => assert_eq!(remote_name, "upstream"),
        _ => panic!("expected a remote request"),
    }
    app.finish_add_remote("origin".into(), "u".into(), Ok(()));
    assert!(matches!(&app.mode, AppMode::Message(m) if m == "Remote 'origin' added successfully!"));
}

#[test]
fn missing_repository_offers_git_init() {
    let mut app = app_with(&["a"]);
    app.finish_add_remote("origin".into(), "https://x/a.git".into(), Err("NOT_A_GIT_REPO".into()));
    match &app.mode {
        AppMode::PromptInitGit { remote_name, clone_url } => {
            assert_eq!(remote_name, "origin");
            assert_eq!(clone_url, "https://x/a.git");
        }
        _ => panic!("expected the offer to initialise git"),
    }
    match app.handle_key(Key::Enter) {
        Effect::InitGitAndAddRemote { remote_name, clone_url } => {
            assert_eq!(remote_name, "origin");
            assert_eq!(clone_url, "https://x/a.git");
        }
        _ => panic!("expected an init request"),
    }
    assert!(matches!(app.handle_key(Key::Char('y')), Effect::Nothing));
    app.finish_init_and_add_remote("origin", Ok(()));
    assert!(matches!(&app.mode, AppMode::Message(m) if m == "Git initialized and remote 'origin' added successfully!"));
    app.finish_init_and_add_remote("origin", Err("Git init failed: x".into()));
    assert!(matches!(&app.mode, AppMode::Error(e) if e == "Git init failed: x"));
    app.finish_add_remote("o".into(), "u".into(), Err("Git failed: other".into()));
    assert!(matches!(&app.mode, AppMode::Error(e) if e == "Git failed: other"));
}

#[test]
fn searching_updates_selection_while_typing() {
    let mut app = app_with(&["alpha", "beta", "gamma"]);
    app.search_query = "old".to_string();
    app.handle_key(Key::Char('/'));
    assert!(matches!(app.mode, AppMode::Searching));
    assert_eq!(app.input.value, "old");
    assert_eq!(app.input.cursor, 3);
    app.edit_input(Some(EditRequest::DeleteLine));
    assert_eq!(app.search_query, "");
    type_text(&mut app, "gam");
    assert_eq!(app.search_query, "gam");
    assert_eq!(app.state.selected(), Some(2));
    app.edit_input(Some(EditRequest::GoToStart));
    type_text(&mut app, "zz");
    assert_eq!(app.search_query, "zzgam");
    assert_eq!(app.state.selected(), Some(2));
    app.edit_input(Some(EditRequest::DeleteTillEnd));
    assert_eq!(app.search_query, "zz");
    app.handle_key(Key::Enter);
    assert!(matches!(app.mode, AppMode::Normal));
    assert_eq!(app.state.selected(), Some(2));
}

#[test]
fn keys_unknown_to_the_field_still_search() {
    let mut app = app_with(&["alpha", "beta"]);
    app.handle_key(Key::Char('/'));
    app.input = InputField::new("beta".to_string());
    assert!(matches!(app.handle_key(Key::Other), Effect::EditInput));
    app.edit_input(None);
    assert_eq!(app.search_query, "beta");
    assert_eq!(app.state.selected(), Some(1));
}

#[test]
fn browser_failure_is_reported() {
    let mut app = app_with(&["a"]);
    app.finish_open_in_browser(Ok(()));
    assert!(matches!(app.mode, AppMode::Normal));
    app.finish_open_in_browser(Err("no browser".to_string()));
    assert!(matches!(&app.mode, AppMode::Error(e) if e == "Failed to open browser: no browser"));
}

#[test]
fn notices_are_dismissed() {
    let mut app = App::new();
    app.mode = AppMode::Message("done".into());
    app.new_repo_name = "x".into();
    assert!(matches!(app.handle_key(Key::Char('a')), Effect::Nothing));
    assert!(matches!(app.mode, AppMode::Message(_)));
    app.handle_key(Key::Enter);
    assert!(matches!(app.mode, AppMode::Normal));
    assert_eq!(app.new_repo_name, "");
}

#[test]
fn q_in_a_text_popup_is_typed_not_quit() {
    let mut app = app_with(&["a"]);
    app.handle_key(Key::Char('c'));
    type_text(&mut app, "q");
    assert_eq!(app.input.value, "q");
    assert!(matches!(app.mode, AppMode::CreatingRepoName));
}

#[test]
fn only_enter_asks_for_outside_work() {
    let mut app = app_with(&["a"]);
    app.mode = AppMode::PromptInitGit { remote_name: "origin".into(), clone_url: "u".into() };
    for k in [Key::Char('y'), Key::Up, Key::Down, Key::Delete, Key::Other] {
        assert!(matches!(app.handle_key(k), Effect::Nothing));
    }
    app.mode = AppMode::CreatingRepoVisibility;
    app.new_repo_name = "n".into();
    for k in [Key::Char('y'), Key::Delete, Key::Other] {
        assert!(matches!(app.handle_key(k), Effect::Nothing));
    }
}

#[test]
fn keys_keep_the_list_and_the_user() {
    let mut app = app_with(&["a", "b", "c"]);
    app.gitignore_content = "target/".into();
    let keys = [
        Key::Down, Key::Char('c'), Key::Char('z'), Key::Esc, Key::Char('x'), Key::Enter,
        Key::Esc, Key::Char('d'), Key::Enter, Key::Enter, Key::Up, Key::Char('/'), Key::Esc,
    ];
    for k in keys {
        app.handle_key(k);
        assert_eq!(app.repos.len(), 3);
        assert!(app.user.is_none());
        assert_eq!(app.gitignore_content, "target/");
        if let Some(i) = app.state.selected() {
            assert!(i < 3);
        }
    }
}

#[test]
fn backspace_undoes_typing() {
    let mut app = app_with(&["a"]);
    app.handle_key(Key::Char('r'));
    type_text(&mut app, "up");
    app.edit_input(Some(EditRequest::GoToPrevChar));
    app.edit_input(Some(EditRequest::InsertChar('x')));
    assert_eq!(app.input.value, "uxp");
    app.edit_input(Some(EditRequest::DeletePrevChar));
    assert_eq!(app.input.value, "up");
    assert_eq!(app.input.cursor, 1);
}

#[test]
fn stored_credentials_are_used_unless_reauthenticating() {
    let stored = Some(GitHubCredentials { token: "t".into() });
    assert_eq!(credentials_to_use(false, stored.clone()).map(|c| c.token), Some("t".to_string()));
    assert!(credentials_to_use(true, stored).is_none());
    assert!(credentials_to_use(false, None).is_none());
}
