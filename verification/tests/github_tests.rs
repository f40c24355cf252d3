use ghcli::github::{
    add_all_failure, add_remote_failure, authorization_header, clone_command,
    clone_failure_message, create_failure, delete_failure, editor_command, init_failure,
    is_work_tree_reply, link_header_is_cuttable, list_repos_page, mask_token, next_page_url,
    page_accepted, repo_api_url, unauthorized_user, PageStep,
};
use ghcli::model::Repo;

fn repo(name: &str) -> Repo {
    Repo {
        name: name.to_string(),
        full_name: format!("o/{}", name),
        html_url: String::new(),
        clone_url: String::new(),
        description: Some("d".to_string()),
        stargazers_count: 0,
        open_issues_count: 2,
    }
}

#[test]
fn token_is_masked() {
    assert_eq!(mask_token("ghp_abc", "fatal: https://ghp_abc@github.com/x ghp_abc"), "fatal: https://***@github.com/x ***");
    assert_eq!(mask_token("", "keep ghp_abc"), "keep ghp_abc");
    assert_eq!(mask_token("zzz", "no token here"), "no token here");
    assert!(!mask_token("aa", "aaaaa").contains("aa"));
}

#[test]
fn clone_failure_hides_token() {
    let msg = clone_failure_message("tok123", "remote: https://tok123@github.com denied");
    assert_eq!(msg, "Git failed: remote: https://***@github.com denied");
    assert!(!msg.contains("tok123"));
}

#[test]
fn clone_command_injects_token() {
    let c = clone_command("tok", "https://github.com/o/r.git", "  ", "  ");
    assert_eq!(c.url, "https://tok@github.com/o/r.git");
    assert_eq!(c.dir, ".");
    assert_eq!(c.dest, None);
    let c = clone_command("", "https://github.com/o/r.git", " /tmp ", " copy ");
    assert_eq!(c.url, "https://github.com/o/r.git");
    assert_eq!(c.dir, "/tmp");
    assert_eq!(c.dest, Some("copy".to_string()));
    let c = clone_command("tok", "git@github.com:o/r.git", "x", ".");
    assert_eq!(c.url, "git@github.com:o/r.git");
    assert_eq!(c.dest, None);
}

#[test]
fn add_remote_failure_detects_missing_repository() {
    assert_eq!(add_remote_failure("fatal: Not a git repository (or any parent)"), "NOT_A_GIT_REPO");
    assert_eq!(add_remote_failure("error: remote origin already exists."), "Git failed: error: remote origin already exists.");
}

#[test]
fn failure_messages() {
    assert_eq!(init_failure("boom"), "Git init failed: boom");
    assert_eq!(add_all_failure("boom"), "git add failed: boom");
    assert_eq!(create_failure("{\"message\":\"x\"}"), "Failed to create repo: {\"message\":\"x\"}");
    assert_eq!(delete_failure("nope"), "Failed to delete repo: nope");
    assert_eq!(repo_api_url("octo/hello"), "https://api.github.com/repos/octo/hello");
}

#[test]
fn work_tree_reply() {
    assert!(is_work_tree_reply(true, "true\n"));
    assert!(!is_work_tree_reply(true, "false\n"));
    assert!(!is_work_tree_reply(false, "true"));
}

#[test]
fn unauthorized_profile() {
    let u = unauthorized_user("Bad credentials");
    assert_eq!(u.login, "No Token / Unauthorized (Status: Bad credentials)");
    assert_eq!(u.name, None);
    assert_eq!(u.bio.as_deref(), Some("Set GITHUB_TOKEN using --auth or .env file to fetch user info"));
    assert_eq!((u.public_repos, u.followers, u.following), (0, 0, 0));
}

#[test]
fn authorization_header_values() {
    assert_eq!(authorization_header(""), None);
    assert_eq!(authorization_header("ghp_1"), Some("Bearer ghp_1".to_string()));
    assert_eq!(authorization_header("bad\ntoken"), None);
    assert_eq!(authorization_header("tab\tok"), Some("Bearer tab\tok".to_string()));
    assert_eq!(authorization_header("del\u{7f}"), None);
    assert_eq!(authorization_header("é"), Some("Bearer é".to_string()));
}

#[test]
fn next_page_from_link_header() {
    let h = "<https://api.github.com/user/repos?page=2>; rel=\"next\", <https://api.github.com/user/repos?page=5>; rel=\"last\"";
    assert!(link_header_is_cuttable(h));
    assert_eq!(next_page_url(h), Some("https://api.github.com/user/repos?page=2".to_string()));
    let h = "<https://x/?page=1>; rel=\"prev\", <https://x/?page=1>; rel=\"first\"";
    assert_eq!(next_page_url(h), None);
    assert_eq!(next_page_url(""), None);
    let h = "<a>; rel=\"next\", <b>; rel=\"next\"";
    assert_eq!(next_page_url(h), Some("b".to_string()));
    let h = "<a>; rel=\"next\", rel=\"next\" no marks";
    assert_eq!(next_page_url(h), Some("a".to_string()));
}

#[test]
fn uncuttable_link_header() {
    assert!(!link_header_is_cuttable(">x<; rel=\"next\""));
    assert!(link_header_is_cuttable(">x<; rel=\"prev\""));
}

#[test]
fn pages_accumulate() {
    let mut all = vec![repo("a")];
    let step = list_repos_page(&mut all, vec![repo("b"), repo("c")], Some("<u2>; rel=\"next\""));
    assert!(matches!(&step, PageStep::Fetch(u) if u == "u2"));
    assert_eq!(all.len(), 3);
    assert_eq!(all[2].name, "c");
    let step = list_repos_page(&mut all, vec![], Some("<u3>; rel=\"next\""));
    assert!(matches!(step, PageStep::Stop));
    assert_eq!(all.len(), 3);
    let step = list_repos_page(&mut all, vec![repo("d")], None);
    assert!(matches!(step, PageStep::Stop));
    assert_eq!(all.len(), 4);
    let step = list_repos_page(&mut all, vec![repo("e")], Some("<u9>; rel=\"last\""));
    assert!(matches!(step, PageStep::Stop));
    assert_eq!(all.len(), 5);
}

#[test]
fn empty_page_ends_walk_whatever_the_header() {
    let mut all = vec![repo("a")];
    let step = list_repos_page(&mut all, vec![], Some(">x<; rel=\"next\""));
    assert!(matches!(step, PageStep::Stop));
    assert_eq!(all.len(), 1);
}

#[test]
fn uncuttable_header_on_full_page() {
    let mut all = Vec::new();
    let step = list_repos_page(&mut all, vec![repo("a")], Some(">x<; rel=\"next\""));
    assert!(matches!(step, PageStep::UncuttableLink));
    assert_eq!(all.len(), 1);
}

#[test]
fn only_ok_answers_are_read() {
    assert!(page_accepted(200));
    assert!(!page_accepted(401));
    assert!(!page_accepted(201));
    assert!(!page_accepted(304));
}

#[test]
fn editor_choice() {
    let r = editor_command(Some("  ".to_string()), Some("code --wait".to_string())).unwrap();
    assert_eq!(r.0, "code");
    assert_eq!(r.1, vec!["--wait".to_string()]);
    let r = editor_command(Some("vim".to_string()), Some("emacs".to_string())).unwrap();
    assert_eq!(r.0, "vim");
    assert!(r.1.is_empty());
    let r = editor_command(None, None).unwrap();
    assert_eq!(r.0, "nano");
}
