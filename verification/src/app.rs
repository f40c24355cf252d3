//! The state of the interface and how it moves with each key and each finished request.
use vstd::prelude::*;

use crate::model::{Repo, User};
use crate::field::{edited_field, field_after, min_nat, EditRequest, InputField};
use crate::github::not_a_git_repo_marker;
use crate::text::{contains, lowercase, seq_contains, trim, trim_spec};

verus! {

/// The mode the interface is in: which popup, if any, owns the keyboard.
#[derive(Debug)]
pub enum AppMode {
    Normal,
    CreatingRepoName,
    CreatingRepoVisibility,
    CloningRepoPath,
    CloningRepoRename,
    DeletingRepoConfirmation,
    AddingRemoteName,
    Searching,
    InitGitConfirmation,
    InitGitGitignoreReview,
    PromptInitGit { remote_name: String, clone_url: String },
    Error(String),
    Message(String),
}

/// Which entry of the repository list is highlighted, if any.
#[derive(Debug, Clone, Copy)]
pub struct ListState {
    pub selected: Option<usize>,
}

impl ListState {
    /// No entry highlighted.
    pub fn new() -> (s: ListState)
        ensures
            s.selected is None,
    {
        ListState { selected: None }
    }

    /// The highlighted index.
    pub fn selected(&self) -> (r: Option<usize>)
        ensures
            r == self.selected,
    {
        self.selected
    }

    /// Highlights `index` (or nothing).
    pub fn select(&mut self, index: Option<usize>)
        ensures
            final(self).selected == index,
    {
        self.selected = index;
    }
}

/// The selection after moving down a list of `len` entries: the next entry, wrapping from
/// the last (or from any index past it) to the first; the first entry when nothing was
/// selected; unchanged on an empty list.
pub open spec fn next_selection(sel: Option<usize>, len: nat) -> Option<usize> {
    if len == 0 {
        sel
    } else {
        match sel {
            Some(i) => if i >= len - 1 { Some(0usize) } else { Some((i + 1) as usize) },
            None => Some(0usize),
        }
    }
}

/// The selection after moving up a list of `len` entries: the previous entry, wrapping
/// from the first to the last; the first entry when nothing was selected; unchanged on an
/// empty list.
pub open spec fn previous_selection(sel: Option<usize>, len: nat) -> Option<usize> {
    if len == 0 {
        sel
    } else {
        match sel {
            Some(i) => if i == 0 { Some((len - 1) as usize) } else { Some((i - 1) as usize) },
            None => Some(0usize),
        }
    }
}

/// Moving down from entry `i` of a non-empty list lands on entry `(i + 1) mod len`, moving up
/// lands on `(i + len - 1) mod len`, and either move undoes the other.
pub proof fn lemma_selection_cycles(i: usize, len: nat)
    requires
        i < len <= usize::MAX,
    ensures
        next_selection(Some(i), len) matches Some(j) && j == (i + 1) % (len as int),
        previous_selection(Some(i), len) matches Some(j) && j == (i + len - 1) % (len as int),
        previous_selection(next_selection(Some(i), len), len) == Some(i),
        next_selection(previous_selection(Some(i), len), len) == Some(i),
{
    let m = len as int;
    if i + 1 < len {
        vstd::arithmetic::div_mod::lemma_small_mod((i + 1) as nat, len);
    } else {
        vstd::arithmetic::div_mod::lemma_mod_self_0(m);
    }
    if i == 0 {
        vstd::arithmetic::div_mod::lemma_small_mod((len - 1) as nat, len);
    } else {
        vstd::arithmetic::div_mod::lemma_mod_multiples_vanish(1, i - 1, m);
        vstd::arithmetic::div_mod::lemma_small_mod((i - 1) as nat, len);
        assert(m * 1 + (i - 1) == i + len - 1);
    }
}

/// Moving in either direction keeps an in-range selection in range, and any selection
/// of a non-empty list lands in range after a move down.
pub proof fn lemma_selection_in_range(sel: Option<usize>, len: nat)
    requires
        0 < len <= usize::MAX,
    ensures
        next_selection(sel, len) matches Some(j) && j < len,
        (sel matches Some(i) ==> i < len) ==> (previous_selection(sel, len) matches Some(j) && j < len),
{
}

/// The search key made of a query: trimmed, then lowercased.
pub open spec fn search_key(query: Seq<char>) -> Seq<char> {
    lowercase(trim_spec(query))
}

/// A repository matches a search key when its lowercased name contains the key.
pub open spec fn repo_matches(repo: Repo, key: Seq<char>) -> bool {
    seq_contains(lowercase(repo.name@), key)
}

/// Index `k` is the first repository of `repos` that matches `key`.
pub open spec fn is_first_match(repos: Seq<Repo>, key: Seq<char>, k: int) -> bool {
    &&& 0 <= k < repos.len()
    &&& repo_matches(repos[k], key)
    &&& forall|j: int| 0 <= j < k ==> !repo_matches(#[trigger] repos[j], key)
}

/// Some repository of `repos` matches `key`.
pub open spec fn has_match(repos: Seq<Repo>, key: Seq<char>) -> bool {
    exists|k: int| 0 <= k < repos.len() && repo_matches(#[trigger] repos[k], key)
}

/// A key press, as far as the interface tells keys apart.
#[derive(Debug, Clone, Copy, PartialEq, Eq, Structural)]
pub enum Key {
    Char(char),
    Enter,
    Esc,
    Up,
    Down,
    Delete,
    /// Any other key (Backspace, arrows left and right, Home, ...).
    Other,
}

/// What the surrounding program must do after the state moved: the work that needs the
/// network, git, the browser or the terminal.
#[derive(Debug)]
pub enum Effect {
    /// Nothing beyond the new state.
    Nothing,
    /// Leave the program.
    Quit,
    /// Turn the key into an editing request for the line-editing field and hand it to
    /// `edit_input`.
    EditInput,
    /// Open `url` in the browser, then report to `finish_open_in_browser`.
    OpenInBrowser { url: String },
    /// Create a repository, then report to `finish_create_repo`.
    CreateRepo { name: String, private: bool },
    /// Clone a repository into `path` (renamed to `rename` unless blank), then report to
    /// `finish_clone`.
    CloneRepo { clone_url: String, path: String, rename: String },
    /// Delete the repository `full_name`, then report to `finish_delete`.
    DeleteRepo { full_name: String },
    /// Add `clone_url` as remote `remote_name` of the current directory, then report to
    /// `finish_add_remote`.
    AddRemote { remote_name: String, clone_url: String },
    /// Run `git init`, then add the remote, then report to `finish_init_and_add_remote`.
    InitGitAndAddRemote { remote_name: String, clone_url: String },
}

/// The abstract state of the interface.
pub struct AppView {
    pub user: Option<User>,
    pub repos: Seq<Repo>,
    pub selected: Option<usize>,
    pub mode: AppMode,
    pub input: Seq<char>,
    pub cursor: usize,
    pub search_query: Seq<char>,
    pub new_repo_name: Seq<char>,
    pub new_repo_private: bool,
    pub clone_path: Seq<char>,
    pub gitignore_content: Seq<char>,
}

/// The state of the interface. `input` is the line-editing field that the current popup
/// shows.
pub struct App {
    pub user: Option<User>,
    pub repos: Vec<Repo>,
    pub state: ListState,
    pub mode: AppMode,
    pub input: InputField,
    pub search_query: String,
    pub new_repo_name: String,
    pub new_repo_private: bool,
    pub clone_path: String,
    pub gitignore_content: String,
}

/// The repository the selection points at, if it points into the list.
pub open spec fn selected_repo_of(v: AppView) -> Option<Repo> {
    match v.selected {
        Some(i) => if i < v.repos.len() { Some(v.repos[i as int]) } else { None },
        None => None,
    }
}

/// `v` in `mode`.
pub open spec fn with_mode(v: AppView, mode: AppMode) -> AppView {
    AppView { mode: mode, ..v }
}

/// `v` in `mode` with the input field emptied.
pub open spec fn with_mode_and_empty_input(v: AppView, mode: AppMode) -> AppView {
    AppView { mode: mode, input: Seq::empty(),
            cursor: 0, ..v }
}

/// The mode is one of the popups that Esc closes.
pub open spec fn is_popup(mode: AppMode) -> bool {
    match mode {
        AppMode::Normal | AppMode::InitGitConfirmation | AppMode::InitGitGitignoreReview => false,
        _ => true,
    }
}

/// What a key does in normal mode: `q` quits; `/` opens the search with the last query;
/// `c` starts creating a repository; `x`/Delete, Enter/`d` and `r` start deleting,
/// cloning and adding a remote when there are repositories; `o`/`b` open the selected
/// repository in the browser; Down/`j` and Up/`k` move the selection.
pub open spec fn normal_step(pre: AppView, post: AppView, key: Key, eff: Effect) -> bool {
    match key {
        Key::Char('q') => post == pre && eff is Quit,
        Key::Char('/') => post == (AppView {
            mode: AppMode::Searching,
            input: pre.search_query,
            cursor: post.cursor,
            ..pre
        }) && post.cursor == pre.search_query.len() && eff is Nothing,
        Key::Char('c') => post == with_mode(pre, AppMode::CreatingRepoName) && eff is Nothing,
        Key::Char('x') | Key::Delete => eff is Nothing && if pre.repos.len() > 0 {
            post == with_mode_and_empty_input(pre, AppMode::DeletingRepoConfirmation)
        } else {
            post == pre
        },
        Key::Enter | Key::Char('d') => eff is Nothing && if pre.repos.len() > 0 {
            post == with_mode(pre, AppMode::CloningRepoPath)
        } else {
            post == pre
        },
        Key::Char('r') => eff is Nothing && if pre.repos.len() > 0 {
            post == with_mode_and_empty_input(pre, AppMode::AddingRemoteName)
        } else {
            post == pre
        },
        Key::Char('o') | Key::Char('b') => post == pre && match selected_repo_of(pre) {
            Some(r) => eff == (Effect::OpenInBrowser { url: r.html_url }),
            None => eff is Nothing,
        },
        Key::Down | Key::Char('j') => post == (AppView {
            selected: next_selection(pre.selected, pre.repos.len()),
            ..pre
        }) && eff is Nothing,
        Key::Up | Key::Char('k') => post == (AppView {
            selected: previous_selection(pre.selected, pre.repos.len()),
            ..pre
        }) && eff is Nothing,
        _ => post == pre && eff is Nothing,
    }
}

/// `v` back in normal mode with the input and the name of the repository to create cleared.
pub open spec fn cancel_create(v: AppView) -> AppView {
    AppView { mode: AppMode::Normal, input: Seq::empty(),
            cursor: 0, new_repo_name: Seq::empty(), ..v }
}

/// Typing the name of a new repository: Enter takes the field's text as the name and moves
/// on to the visibility choice when it is not empty; Esc cancels; other keys edit.
pub open spec fn creating_name_step(pre: AppView, post: AppView, key: Key, eff: Effect) -> bool {
    match key {
        Key::Enter => eff is Nothing && post == (AppView {
            new_repo_name: pre.input,
            mode: if pre.input.len() > 0 { AppMode::CreatingRepoVisibility } else { pre.mode },
            ..pre
        }),
        Key::Esc => post == cancel_create(pre) && eff is Nothing,
        _ => post == pre && eff is EditInput,
    }
}

/// Choosing the visibility of the new repository: Up/Down/`j`/`k` toggle private; Enter
/// asks for the creation when the name is not empty; Esc cancels.
pub open spec fn creating_visibility_step(pre: AppView, post: AppView, key: Key, eff: Effect) -> bool {
    match key {
        Key::Up | Key::Down | Key::Char('j') | Key::Char('k') => post == (AppView {
            new_repo_private: !pre.new_repo_private,
            ..pre
        }) && eff is Nothing,
        Key::Enter => post == pre && if pre.new_repo_name.len() > 0 {
            (eff matches Effect::CreateRepo { name, private } && name@ == pre.new_repo_name
                && private == pre.new_repo_private)
        } else {
            eff is Nothing
        },
        Key::Esc => post == cancel_create(pre) && eff is Nothing,
        _ => post == pre && eff is Nothing,
    }
}

/// A message or an error on screen: Enter or Esc dismisses it.
pub open spec fn notice_step(pre: AppView, post: AppView, key: Key, eff: Effect) -> bool {
    eff is Nothing && match key {
        Key::Enter | Key::Esc => post == cancel_create(pre),
        _ => post == pre,
    }
}

/// The directory a clone goes to: the trimmed text, or `.` when it is blank.
pub open spec fn clone_dir_of(input: Seq<char>) -> Seq<char> {
    if trim_spec(input).len() == 0 {
        "."@
    } else {
        trim_spec(input)
    }
}

/// Typing the directory to clone into: Enter keeps it (see `clone_dir_of`) and asks for the
/// new name; Esc cancels; other keys edit.
pub open spec fn cloning_path_step(pre: AppView, post: AppView, key: Key, eff: Effect) -> bool {
    match key {
        Key::Enter => eff is Nothing && post == (AppView {
            clone_path: clone_dir_of(pre.input),
            input: Seq::empty(),
            cursor: 0,
            mode: AppMode::CloningRepoRename,
            ..pre
        }),
        Key::Esc => eff is Nothing && post == (AppView {
            mode: AppMode::Normal,
            input: Seq::empty(),
            cursor: 0,
            clone_path: Seq::empty(),
            ..pre
        }),
        _ => post == pre && eff is EditInput,
    }
}

/// Typing the name of the cloned directory: Enter asks to clone the selected repository
/// into the kept directory under the trimmed name (back to normal mode when nothing is
/// selected); Esc cancels; other keys edit.
pub open spec fn cloning_rename_step(pre: AppView, post: AppView, key: Key, eff: Effect) -> bool {
    match key {
        Key::Enter => {
            let cleared = AppView { input: Seq::empty(),
            cursor: 0, clone_path: Seq::empty(), ..pre };
            match selected_repo_of(pre) {
                Some(r) => post == cleared && (eff matches Effect::CloneRepo { clone_url, path, rename }
                    && clone_url == r.clone_url && path@ == pre.clone_path
                    && rename@ == trim_spec(pre.input)),
                None => post == with_mode(cleared, AppMode::Normal) && eff is Nothing,
            }
        },
        Key::Esc => eff is Nothing && post == (AppView {
            mode: AppMode::Normal,
            input: Seq::empty(),
            cursor: 0,
            clone_path: Seq::empty(),
            ..pre
        }),
        _ => post == pre && eff is EditInput,
    }
}

/// The answer to a deletion whose typed confirmation is not the repository's full name.
pub open spec fn name_mismatch_message() -> Seq<char> {
    "Repository name did not match."@
}

/// Confirming a deletion: Enter asks to delete the selected repository only when the
/// trimmed text is exactly its full name, and otherwise shows an error; nothing happens
/// when nothing is selected; Esc cancels; other keys edit.
pub open spec fn deleting_step(pre: AppView, post: AppView, key: Key, eff: Effect) -> bool {
    match key {
        Key::Enter => match selected_repo_of(pre) {
            Some(r) => if trim_spec(pre.input) == r.full_name@ {
                post == pre && eff == (Effect::DeleteRepo { full_name: r.full_name })
            } else {
                eff is Nothing && post == with_mode_and_empty_input(pre, post.mode)
                    && (post.mode matches AppMode::Error(m) && m@ == name_mismatch_message())
            },
            None => post == pre && eff is Nothing,
        },
        Key::Esc => post == with_mode_and_empty_input(pre, AppMode::Normal) && eff is Nothing,
        _ => post == pre && eff is EditInput,
    }
}

/// The remote name used for a typed name: the trimmed text, or `origin` when it is blank.
pub open spec fn remote_name_of(input: Seq<char>) -> Seq<char> {
    if trim_spec(input).len() == 0 {
        "origin"@
    } else {
        trim_spec(input)
    }
}

/// Typing the name of the remote: Enter asks to add the selected repository as that remote
/// (see `remote_name_of`), or goes back to normal mode when nothing is selected; Esc
/// cancels; other keys edit.
pub open spec fn adding_remote_step(pre: AppView, post: AppView, key: Key, eff: Effect) -> bool {
    match key {
        Key::Enter => match selected_repo_of(pre) {
            Some(r) => post == (AppView { input: Seq::empty(),
            cursor: 0, ..pre })
                && (eff matches Effect::AddRemote { remote_name, clone_url }
                && remote_name@ == remote_name_of(pre.input) && clone_url == r.clone_url),
            None => post == with_mode_and_empty_input(pre, AppMode::Normal) && eff is Nothing,
        },
        Key::Esc => post == with_mode_and_empty_input(pre, AppMode::Normal) && eff is Nothing,
        _ => post == pre && eff is EditInput,
    }
}

/// Searching: Enter or Esc closes the search; other keys edit the query.
pub open spec fn searching_step(pre: AppView, post: AppView, key: Key, eff: Effect) -> bool {
    match key {
        Key::Enter | Key::Esc => post == with_mode(pre, AppMode::Normal) && eff is Nothing,
        _ => post == pre && eff is EditInput,
    }
}

/// Offering to initialise git: Enter asks to run `git init` and add the remote; Esc
/// declines; other keys do nothing.
pub open spec fn prompt_init_step(pre: AppView, post: AppView, key: Key, eff: Effect) -> bool {
    match pre.mode {
        AppMode::PromptInitGit { remote_name, clone_url } => match key {
            Key::Enter => post == pre && eff == (Effect::InitGitAndAddRemote {
                remote_name: remote_name,
                clone_url: clone_url,
            }),
            Key::Esc => post == with_mode_and_empty_input(pre, AppMode::Normal) && eff is Nothing,
            _ => post == pre && eff is Nothing,
        },
        _ => false,
    }
}

/// How a key moves the state, mode by mode; the modes that are never entered ignore keys.
pub open spec fn key_step(pre: AppView, post: AppView, key: Key, eff: Effect) -> bool {
    match pre.mode {
        AppMode::Normal => normal_step(pre, post, key, eff),
        AppMode::CreatingRepoName => creating_name_step(pre, post, key, eff),
        AppMode::CreatingRepoVisibility => creating_visibility_step(pre, post, key, eff),
        AppMode::Error(_) | AppMode::Message(_) => notice_step(pre, post, key, eff),
        AppMode::CloningRepoPath => cloning_path_step(pre, post, key, eff),
        AppMode::CloningRepoRename => cloning_rename_step(pre, post, key, eff),
        AppMode::DeletingRepoConfirmation => deleting_step(pre, post, key, eff),
        AppMode::AddingRemoteName => adding_remote_step(pre, post, key, eff),
        AppMode::Searching => searching_step(pre, post, key, eff),
        AppMode::PromptInitGit { .. } => prompt_init_step(pre, post, key, eff),
        AppMode::InitGitConfirmation | AppMode::InitGitGitignoreReview => post == pre && eff is Nothing,
    }
}

/// The state after a search with the current query: the first repository whose lowercased
/// name contains the trimmed, lowercased query becomes selected; nothing changes when the
/// query is blank or nothing matches.
pub open spec fn search_step(pre: AppView, post: AppView) -> bool {
    let key = search_key(pre.search_query);
    if key.len() > 0 && has_match(pre.repos, key) {
        post == (AppView { selected: post.selected, ..pre })
            && (post.selected matches Some(k) && is_first_match(pre.repos, key, k as int))
    } else {
        post == pre
    }
}

/// Esc closes every popup: the interface returns to normal mode and nothing is asked of
/// the outside.
pub proof fn lemma_escape_closes_popups(pre: AppView, post: AppView, eff: Effect)
    requires
        key_step(pre, post, Key::Esc, eff),
        is_popup(pre.mode),
    ensures
        post.mode is Normal,
        eff is Nothing,
{
}

/// Work outside the program that changes something (creating, cloning, deleting, adding a
/// remote, initialising git) is only ever asked for by Enter.
pub proof fn lemma_outside_work_needs_enter(pre: AppView, post: AppView, key: Key, eff: Effect)
    requires
        key_step(pre, post, key, eff),
        eff is CreateRepo || eff is CloneRepo || eff is DeleteRepo || eff is AddRemote
            || eff is InitGitAndAddRemote,
    ensures
        key == Key::Enter,
{
}

/// A repository is only deleted after its full name was typed: a deletion is asked for only
/// from the confirmation popup, for the selected repository, when the trimmed text equals
/// its full name.
pub proof fn lemma_delete_needs_typed_name(pre: AppView, post: AppView, key: Key, eff: Effect)
    requires
        key_step(pre, post, key, eff),
        eff is DeleteRepo,
    ensures
        pre.mode is DeletingRepoConfirmation,
        key == Key::Enter,
        selected_repo_of(pre) matches Some(r) && trim_spec(pre.input) == r.full_name@ && eff
            == (Effect::DeleteRepo { full_name: r.full_name }),
{
}

/// A confirmation that does not match the selected repository's full name is refused with
/// the error `Repository name did not match.` and the text is cleared.
pub proof fn lemma_wrong_name_refused(pre: AppView, post: AppView, eff: Effect, r: Repo)
    requires
        key_step(pre, post, Key::Enter, eff),
        pre.mode is DeletingRepoConfirmation,
        selected_repo_of(pre) == Some(r),
        trim_spec(pre.input) != r.full_name@,
    ensures
        eff is Nothing,
        post.input.len() == 0,
        post.mode matches AppMode::Error(m) && m@ == name_mismatch_message(),
{
}

/// The popups whose keys go to the line-editing field.
pub open spec fn is_text_popup(mode: AppMode) -> bool {
    mode is CreatingRepoName || mode is CloningRepoPath || mode is CloningRepoRename
        || mode is DeletingRepoConfirmation || mode is AddingRemoteName || mode is Searching
}

/// In a popup that takes text, `q` is text: the state and the mode stay, nothing quits, and
/// the key is handed to the field, whose text then holds `q` at the cursor (the cursor
/// taken back to the end of the text when it stood past it) with the rest kept around it.
pub proof fn lemma_text_popups_take_q(pre: AppView, post: AppView, eff: Effect)
    requires
        key_step(pre, post, Key::Char('q'), eff),
        is_text_popup(pre.mode),
    ensures
        eff is EditInput,
        post == pre,
        ({
            let c = min_nat(pre.cursor as int, pre.input.len() as int);
            let typed = field_after(pre.input, pre.cursor, EditRequest::InsertChar('q')).0;
            &&& typed.len() == pre.input.len() + 1
            &&& typed[c] == 'q'
            &&& typed.take(c) == pre.input.take(c)
            &&& typed.skip(c + 1) == pre.input.skip(c)
        }),
{
    let c = min_nat(pre.cursor as int, pre.input.len() as int);
    let typed = field_after(pre.input, pre.cursor, EditRequest::InsertChar('q')).0;
    assert(typed.take(c) =~= pre.input.take(c));
    assert(typed.skip(c + 1) =~= pre.input.skip(c));
}

/// A search whose query, trimmed and lowercased, is not empty selects the least index `k`,
/// counted from the first repository, whose lowercased name contains that key, and
/// changes nothing else.
pub proof fn lemma_search_selects_least_match(pre: AppView, post: AppView, k: int)
    requires
        search_step(pre, post),
        lowercase(trim_spec(pre.search_query)).len() > 0,
        0 <= k < pre.repos.len(),
        seq_contains(lowercase(pre.repos[k].name@), lowercase(trim_spec(pre.search_query))),
        forall|j: int|
            0 <= j < k ==> !seq_contains(lowercase((#[trigger] pre.repos[j]).name@), lowercase(trim_spec(pre.search_query))),
    ensures
        post == (AppView { selected: Some(k as usize), ..pre }),
{
    let key = lowercase(trim_spec(pre.search_query));
    assert(repo_matches(pre.repos[k], key));
    assert(has_match(pre.repos, key));
    let m = post.selected->0 as int;
    assert(is_first_match(pre.repos, key, m));
    if m < k {
        assert(!repo_matches(pre.repos[m], key));
    }
    if m > k {
        assert(!repo_matches(pre.repos[k], key));
    }
}

/// A search whose query, trimmed and lowercased, is empty, or is contained in no
/// repository's lowercased name, leaves the state as it was.
pub proof fn lemma_search_without_match_keeps_state(pre: AppView, post: AppView)
    requires
        search_step(pre, post),
        lowercase(trim_spec(pre.search_query)).len() == 0 || forall|j: int|
            0 <= j < pre.repos.len() ==> !seq_contains(
                lowercase((#[trigger] pre.repos[j]).name@),
                lowercase(trim_spec(pre.search_query)),
            ),
    ensures
        post == pre,
{
    let key = lowercase(trim_spec(pre.search_query));
    if key.len() > 0 && has_match(pre.repos, key) {
        let k = choose|k: int| 0 <= k < pre.repos.len() && repo_matches(#[trigger] pre.repos[k], key);
        assert(!seq_contains(lowercase(pre.repos[k].name@), key));
    }
}

/// Cloning uses the directory typed at the path step: Enter there, any editing of the name,
/// then Enter in the rename popup asks to clone the selected repository into the trimmed
/// typed directory (`.` when it was blank) under the trimmed typed name.
pub proof fn lemma_clone_uses_typed_directory(
    s0: AppView,
    s1: AppView,
    typed: Seq<char>,
    cursor: usize,
    s2: AppView,
    eff0: Effect,
    eff1: Effect,
)
    requires
        s0.mode is CloningRepoPath,
        key_step(s0, s1, Key::Enter, eff0),
        key_step(AppView { input: typed, cursor: cursor, ..s1 }, s2, Key::Enter, eff1),
        selected_repo_of(s0) is Some,
    ensures
        s1.mode is CloningRepoRename,
        eff1 matches Effect::CloneRepo { clone_url, path, rename } && clone_url == selected_repo_of(
            s0,
        )->0.clone_url && path@ == (if trim_spec(s0.input).len() == 0 {
            "."@
        } else {
            trim_spec(s0.input)
        }) && rename@ == trim_spec(typed),
        s2.clone_path.len() == 0,
        s2.input.len() == 0,
{
}

/// In normal mode Down and `j` move the selection from entry `i` to `(i + 1) mod len`, and
/// Up and `k` move it to `(i + len - 1) mod len`.
pub proof fn lemma_arrows_move_selection(pre: AppView, post: AppView, key: Key, eff: Effect, i: usize)
    requires
        pre.mode is Normal,
        key_step(pre, post, key, eff),
        pre.selected == Some(i),
        i < pre.repos.len() <= usize::MAX,
    ensures
        key == Key::Down || key == Key::Char('j') ==> (post.selected matches Some(j) && j == (i + 1)
            % (pre.repos.len() as int)),
        key == Key::Up || key == Key::Char('k') ==> (post.selected matches Some(j) && j == (i
            + pre.repos.len() - 1) % (pre.repos.len() as int)),
{
    lemma_selection_cycles(i, pre.repos.len());
}

/// In the visibility popup each of Up, Down, `j` and `k` flips between public and private
/// and changes nothing else; pressing one twice gives back the first choice.
pub proof fn lemma_visibility_keys_toggle(pre: AppView, mid: AppView, post: AppView, k1: Key, k2: Key, e1: Effect, e2: Effect)
    requires
        pre.mode is CreatingRepoVisibility,
        k1 == Key::Up || k1 == Key::Down || k1 == Key::Char('j') || k1 == Key::Char('k'),
        k2 == Key::Up || k2 == Key::Down || k2 == Key::Char('j') || k2 == Key::Char('k'),
        key_step(pre, mid, k1, e1),
        key_step(mid, post, k2, e2),
    ensures
        mid.new_repo_private == !pre.new_repo_private,
        mid == (AppView { new_repo_private: mid.new_repo_private, ..pre }),
        e1 is Nothing,
        post == pre,
{
}

/// Creating a repository asks for the name exactly as typed (not trimmed) and the
/// visibility chosen: Enter on a non-empty name moves to the visibility choice, and Enter
/// there asks to create that repository.
pub proof fn lemma_create_uses_typed_name(s0: AppView, s1: AppView, s2: AppView, e0: Effect, e1: Effect)
    requires
        s0.mode is CreatingRepoName,
        s0.input.len() > 0,
        key_step(s0, s1, Key::Enter, e0),
        key_step(s1, s2, Key::Enter, e1),
    ensures
        s1.mode is CreatingRepoVisibility,
        e1 matches Effect::CreateRepo { name, private } && name@ == s0.input && private
            == s0.new_repo_private,
{
}

/// An empty name never moves on: Enter keeps the name popup open and asks for nothing.
pub proof fn lemma_empty_name_stays(s0: AppView, s1: AppView, e0: Effect)
    requires
        s0.mode is CreatingRepoName,
        s0.input.len() == 0,
        key_step(s0, s1, Key::Enter, e0),
    ensures
        s1.mode is CreatingRepoName,
        e0 is Nothing,
{
}

/// Enter in the remote popup asks to add the selected repository under the trimmed typed
/// name, or under `origin` when the typed name is blank.
pub proof fn lemma_remote_name_defaults_to_origin(pre: AppView, post: AppView, eff: Effect)
    requires
        pre.mode is AddingRemoteName,
        key_step(pre, post, Key::Enter, eff),
        selected_repo_of(pre) is Some,
    ensures
        eff matches Effect::AddRemote { remote_name, clone_url } && clone_url == selected_repo_of(
            pre,
        )->0.clone_url && remote_name@ == (if trim_spec(pre.input).len() == 0 {
            "origin"@
        } else {
            trim_spec(pre.input)
        }),
{
}

/// In normal mode `o` and `b` open the selected repository's page, the `i`-th of the list,
/// and change nothing; with no repository selected they ask for nothing.
pub proof fn lemma_open_selected_in_browser(pre: AppView, post: AppView, key: Key, eff: Effect)
    requires
        pre.mode is Normal,
        key == Key::Char('o') || key == Key::Char('b'),
        key_step(pre, post, key, eff),
    ensures
        post == pre,
        pre.selected is Some && pre.selected->0 < pre.repos.len() ==> eff == (Effect::OpenInBrowser {
            url: pre.repos[pre.selected->0 as int].html_url,
        }),
        pre.selected is None ==> eff is Nothing,
{
}

/// Typing the full name of the `i`-th repository, the selected one, in the confirmation
/// popup (surrounding whitespace aside) and pressing Enter asks to delete exactly that
/// repository.
pub proof fn lemma_typed_name_deletes_selected(pre: AppView, post: AppView, eff: Effect, i: usize)
    requires
        pre.mode is DeletingRepoConfirmation,
        pre.selected == Some(i),
        i < pre.repos.len(),
        trim_spec(pre.input) == pre.repos[i as int].full_name@,
        key_step(pre, post, Key::Enter, eff),
    ensures
        eff == (Effect::DeleteRepo { full_name: pre.repos[i as int].full_name }),
{
}

/// Only `q` in normal mode quits.
pub proof fn lemma_quit_only_by_q(pre: AppView, post: AppView, key: Key, eff: Effect)
    requires
        key_step(pre, post, key, eff),
        eff is Quit,
    ensures
        pre.mode is Normal,
        key == Key::Char('q'),
{
}

/// Keys never change the user, the repository list or the kept `.gitignore` text, and
/// they keep a selection that points into the list pointing into it.
pub proof fn lemma_keys_keep_data(pre: AppView, post: AppView, key: Key, eff: Effect)
    requires
        key_step(pre, post, key, eff),
        pre.repos.len() <= usize::MAX,
    ensures
        post.user == pre.user,
        post.repos == pre.repos,
        post.gitignore_content == pre.gitignore_content,
        (pre.selected matches Some(i) ==> i < pre.repos.len()) ==> (post.selected matches Some(j)
            ==> j < post.repos.len()),
{
    if pre.repos.len() > 0 {
        lemma_selection_in_range(pre.selected, pre.repos.len());
    }
}

/// A search keeps everything but the selection, and a selection it makes points at a
/// repository that matches the query.
pub proof fn lemma_search_lands_on_match(pre: AppView, post: AppView)
    requires
        search_step(pre, post),
    ensures
        post == (AppView { selected: post.selected, ..pre }),
        post.selected != pre.selected ==> (selected_repo_of(post) matches Some(r) && repo_matches(
            r,
            search_key(pre.search_query),
        )),
{
}

/// The notice shown once a clone succeeded.
pub open spec fn clone_success_message() -> Seq<char> {
    "Repository cloned successfully!"@
}

/// The notice shown once the remote `name` was added.
pub open spec fn remote_added_message(name: Seq<char>) -> Seq<char> {
    "Remote '"@ + name + "' added successfully!"@
}

/// The notice shown once git was initialised and the remote `name` added.
pub open spec fn init_and_remote_message(name: Seq<char>) -> Seq<char> {
    "Git initialized and remote '"@ + name + "' added successfully!"@
}

/// The error shown when the browser could not be opened.
pub open spec fn browser_failure_message(err: Seq<char>) -> Seq<char> {
    "Failed to open browser: "@ + err
}

impl View for App {
    type V = AppView;

    open spec fn view(&self) -> AppView {
        AppView {
            user: self.user,
            repos: self.repos@,
            selected: self.state.selected,
            mode: self.mode,
            input: self.input.value@,
            cursor: self.input.cursor,
            search_query: self.search_query@,
            new_repo_name: self.new_repo_name@,
            new_repo_private: self.new_repo_private,
            clone_path: self.clone_path@,
            gitignore_content: self.gitignore_content@,
        }
    }
}

impl App {
    /// The state at start: no user, no repositories, nothing selected, normal mode and
    /// every text empty.
    pub fn new() -> (app: App)
        ensures
            app@ == (AppView {
                user: None,
                repos: Seq::empty(),
                selected: None,
                mode: AppMode::Normal,
                input: Seq::empty(),
            cursor: 0,
                search_query: Seq::empty(),
                new_repo_name: Seq::empty(),
                new_repo_private: false,
                clone_path: Seq::empty(),
                gitignore_content: Seq::empty(),
            }),
    {
        App {
            user: None,
            repos: Vec::new(),
            state: ListState::new(),
            mode: AppMode::Normal,
            input: InputField::empty(),
            search_query: String::new(),
            new_repo_name: String::new(),
            new_repo_private: false,
            clone_path: String::new(),
            gitignore_content: String::new(),
        }
    }

    /// Moves the selection down one entry, wrapping around (see `next_selection`).
    pub fn next(&mut self)
        ensures
            final(self)@ == (AppView {
                selected: next_selection(old(self).state.selected, old(self).repos@.len()),
                ..old(self)@
            }),
    {
        if self.repos.len() == 0 {
            return;
        }
        let i = match self.state.selected() {
            Some(i) => {
                if i >= self.repos.len() - 1 {
                    0
                } else {
                    i + 1
                }
            },
            None => 0,
        };
        self.state.select(Some(i));
    }

    /// Moves the selection up one entry, wrapping around (see `previous_selection`).
    pub fn previous(&mut self)
        ensures
            final(self)@ == (AppView {
                selected: previous_selection(old(self).state.selected, old(self).repos@.len()),
                ..old(self)@
            }),
    {
        if self.repos.len() == 0 {
            return;
        }
        let i = match self.state.selected() {
            Some(i) => {
                if i == 0 {
                    self.repos.len() - 1
                } else {
                    i - 1
                }
            },
            None => 0,
        };
        self.state.select(Some(i));
    }
    /// The repository the selection points at, if it points into the list.
    pub fn selected_repo(&self) -> (r: Option<&Repo>)
        ensures
            match r {
                Some(x) => selected_repo_of(self@) == Some(*x),
                None => selected_repo_of(self@) is None,
            },
    {
        match self.state.selected() {
            Some(i) => if i < self.repos.len() {
                Some(&self.repos[i])
            } else {
                None
            },
            None => None,
        }
    }

    /// Takes a freshly fetched list of repositories; the first becomes selected when the
    /// list is not empty, otherwise the selection is left as it was.
    pub fn load_repos(&mut self, repos: Vec<Repo>)
        ensures
            final(self)@ == (AppView {
                repos: repos@,
                selected: if repos@.len() > 0 { Some(0usize) } else { old(self).state.selected },
                ..old(self)@
            }),
    {
        self.repos = repos;
        if self.repos.len() > 0 {
            self.state.select(Some(0));
        }
    }

    /// Moves the selection to the first repository whose name, lowercased, contains the
    /// trimmed and lowercased search query (see `search_step`).
    pub fn search_repos(&mut self)
        ensures
            search_step(old(self)@, final(self)@),
    {
        let trimmed = trim(self.search_query.as_str());
        let query = trimmed.as_str().to_lowercase();
        if query.as_str().is_empty() {
            return;
        }
        let mut i: usize = 0;
        while i < self.repos.len()
            invariant
                self@ == old(self)@,
                query@ == search_key(old(self).search_query@),
                query@.len() > 0,
                i <= self.repos@.len(),
                forall|j: int| 0 <= j < i ==> !repo_matches(#[trigger] self.repos@[j], query@),
            decreases self.repos.len() - i,
        {
            let lower = self.repos[i].name.as_str().to_lowercase();
            if contains(lower.as_str(), query.as_str()) {
                self.state.select(Some(i));
                assert(is_first_match(old(self).repos@, query@, i as int));
                return;
            }
            i += 1;
        }
        assert(!has_match(self.repos@, query@));
    }

    /// What `o`/`b` asks for: opening the selected repository's page, when one is selected.
    pub fn open_selected_repo_in_browser(&self) -> (eff: Effect)
        ensures
            match selected_repo_of(self@) {
                Some(r) => eff == (Effect::OpenInBrowser { url: r.html_url }),
                None => eff is Nothing,
            },
    {
        match self.selected_repo() {
            Some(repo) => Effect::OpenInBrowser { url: repo.html_url.clone() },
            None => Effect::Nothing,
        }
    }

    /// Takes the outcome of opening a page in the browser: a failure is shown as an error.
    pub fn finish_open_in_browser(&mut self, result: Result<(), String>)
        ensures
            match result {
                Ok(()) => final(self)@ == old(self)@,
                Err(e) => final(self)@ == with_mode(old(self)@, final(self).mode)
                    && (final(self).mode matches AppMode::Error(m) && m@ == browser_failure_message(e@)),
            },
    {
        if let Err(e) = result {
            self.mode = AppMode::Error(String::from_str("Failed to open browser: ").concat(e.as_str()));
        }
    }

    /// What Enter asks for when choosing the visibility: creating the named repository, when
    /// the name is not empty.
    pub fn create_repo(&self) -> (eff: Effect)
        ensures
            if self.new_repo_name@.len() > 0 {
                eff matches Effect::CreateRepo { name, private } && name@ == self.new_repo_name@
                    && private == self.new_repo_private
            } else {
                eff is Nothing
            },
    {
        if self.new_repo_name.as_str().is_empty() {
            Effect::Nothing
        } else {
            Effect::CreateRepo { name: self.new_repo_name.clone(), private: self.new_repo_private }
        }
    }

    /// Takes the outcome of creating a repository: on success the form is cleared, the
    /// interface returns to normal mode and the answer asks for the list to be fetched again;
    /// on failure the error is shown.
    pub fn finish_create_repo(&mut self, result: Result<(), String>) -> (refresh: bool)
        ensures
            match result {
                Ok(()) => refresh && final(self)@ == cancel_create(old(self)@),
                Err(e) => !refresh && final(self)@ == with_mode(old(self)@, AppMode::Error(e)),
            },
    {
        match result {
            Ok(()) => {
                self.input = InputField::empty();
                self.new_repo_name = String::new();
                self.mode = AppMode::Normal;
                true
            },
            Err(e) => {
                self.mode = AppMode::Error(e);
                false
            },
        }
    }

    /// What the rename step asks for: cloning the selected repository into `path` under
    /// `rename`; without a selection the interface goes back to normal mode.
    pub fn clone_selected_repo(&mut self, path: &str, rename: &str) -> (eff: Effect)
        ensures
            match selected_repo_of(old(self)@) {
                Some(r) => final(self)@ == old(self)@ && (eff matches Effect::CloneRepo {
                    clone_url,
                    path: p,
                    rename: n,
                } && clone_url == r.clone_url && p@ == path@ && n@ == rename@),
                None => final(self)@ == with_mode(old(self)@, AppMode::Normal) && eff is Nothing,
            },
    {
        let url = match self.selected_repo() {
            Some(repo) => Some(repo.clone_url.clone()),
            None => None,
        };
        match url {
            Some(clone_url) => Effect::CloneRepo {
                clone_url,
                path: path.to_owned(),
                rename: rename.to_owned(),
            },
            None => {
                self.mode = AppMode::Normal;
                Effect::Nothing
            },
        }
    }

    /// Takes the outcome of a clone: a success notice or the error.
    pub fn finish_clone(&mut self, result: Result<(), String>)
        ensures
            final(self)@ == with_mode(old(self)@, final(self).mode),
            match result {
                Ok(()) => final(self).mode matches AppMode::Message(m) && m@ == clone_success_message(),
                Err(e) => final(self).mode == AppMode::Error(e),
            },
    {
        match result {
            Ok(()) => {
                self.mode = AppMode::Message(String::from_str("Repository cloned successfully!"));
            },
            Err(e) => {
                self.mode = AppMode::Error(e);
            },
        }
    }

    /// What a confirmed deletion asks for: deleting the selected repository, when one is
    /// selected.
    pub fn delete_selected_repo(&self) -> (eff: Effect)
        ensures
            match selected_repo_of(self@) {
                Some(r) => eff == (Effect::DeleteRepo { full_name: r.full_name }),
                None => eff is Nothing,
            },
    {
        match self.selected_repo() {
            Some(repo) => Effect::DeleteRepo { full_name: repo.full_name.clone() },
            None => Effect::Nothing,
        }
    }

    /// Takes the outcome of a deletion: the input is cleared either way; on success the
    /// interface returns to normal mode and the answer asks for the list to be fetched again;
    /// on failure the error is shown.
    pub fn finish_delete(&mut self, result: Result<(), String>) -> (refresh: bool)
        ensures
            match result {
                Ok(()) => refresh && final(self)@ == with_mode_and_empty_input(old(self)@, AppMode::Normal),
                Err(e) => !refresh && final(self)@ == with_mode_and_empty_input(old(self)@, AppMode::Error(e)),
            },
    {
        self.input = InputField::empty();
        match result {
            Ok(()) => {
                self.mode = AppMode::Normal;
                true
            },
            Err(e) => {
                self.mode = AppMode::Error(e);
                false
            },
        }
    }

    /// What adding a remote asks for: the selected repository's clone URL under the trimmed
    /// name (`origin` when blank); without a selection the interface goes back to normal mode.
    pub fn add_remote_to_repo(&mut self, remote_name: &str) -> (eff: Effect)
        ensures
            match selected_repo_of(old(self)@) {
                Some(r) => final(self)@ == old(self)@ && (eff matches Effect::AddRemote {
                    remote_name: n,
                    clone_url,
                } && n@ == remote_name_of(remote_name@) && clone_url == r.clone_url),
                None => final(self)@ == with_mode(old(self)@, AppMode::Normal) && eff is Nothing,
            },
    {
        let url = match self.selected_repo() {
            Some(repo) => Some(repo.clone_url.clone()),
            None => None,
        };
        match url {
            Some(clone_url) => {
                let trimmed = trim(remote_name);
                let name = if trimmed.as_str().is_empty() {
                    String::from_str("origin")
                } else {
                    trimmed
                };
                Effect::AddRemote { remote_name: name, clone_url }
            },
            None => {
                self.mode = AppMode::Normal;
                Effect::Nothing
            },
        }
    }

    /// Takes the outcome of adding a remote: a success notice; an offer to initialise git
    /// when the failure says the directory is not a git repository; the error otherwise.
    pub fn finish_add_remote(&mut self, remote_name: String, clone_url: String, result: Result<(), String>)
        ensures
            final(self)@ == with_mode(old(self)@, final(self).mode),
            match result {
                Ok(()) => final(self).mode matches AppMode::Message(m) && m@ == remote_added_message(remote_name@),
                Err(e) => if e@ == not_a_git_repo_marker() {
                    final(self).mode == (AppMode::PromptInitGit { remote_name, clone_url })
                } else {
                    final(self).mode == AppMode::Error(e)
                },
            },
    {
        match result {
            Ok(()) => {
                let msg = String::from_str("Remote '").concat(remote_name.as_str()).concat("' added successfully!");
                self.mode = AppMode::Message(msg);
            },
            Err(e) => {
                let marker = String::from_str("NOT_A_GIT_REPO");
                proof {
                    reveal_strlit("NOT_A_GIT_REPO");
                }
                if e == marker {
                    self.mode = AppMode::PromptInitGit { remote_name, clone_url };
                } else {
                    self.mode = AppMode::Error(e);
                }
            },
        }
    }

    /// Takes the outcome of initialising git and adding the remote: a success notice or the
    /// error.
    pub fn finish_init_and_add_remote(&mut self, remote_name: &str, result: Result<(), String>)
        ensures
            final(self)@ == with_mode(old(self)@, final(self).mode),
            match result {
                Ok(()) => final(self).mode matches AppMode::Message(m) && m@ == init_and_remote_message(remote_name@),
                Err(e) => final(self).mode == AppMode::Error(e),
            },
    {
        match result {
            Ok(()) => {
                let msg = String::from_str("Git initialized and remote '").concat(remote_name).concat(
                    "' added successfully!",
                );
                self.mode = AppMode::Message(msg);
            },
            Err(e) => {
                self.mode = AppMode::Error(e);
            },
        }
    }
    /// Carries out an editing request on the line-editing field (none when the key means
    /// nothing to the field); while searching, the text becomes the query and the search
    /// runs again, whether or not the text changed.
    pub fn edit_input(&mut self, req: Option<EditRequest>)
        ensures
            ({
                let edited = match req {
                    Some(r) => edited_field(old(self).input.value@, old(self).input.cursor, r),
                    None => (old(self).input.value@, old(self).input.cursor),
                };
                let typed = AppView { input: edited.0, cursor: edited.1, ..old(self)@ };
                if old(self).mode is Searching {
                    search_step(AppView { search_query: edited.0, ..typed }, final(self)@)
                } else {
                    final(self)@ == typed
                }
            }),
            match req {
                Some(r) => final(self).input.value@ == field_after(old(self).input.value@, old(self).input.cursor, r).0
                    && (old(self).input.value@.len() < usize::MAX ==> final(self).input.cursor as int
                    == field_after(old(self).input.value@, old(self).input.cursor, r).1),
                None => final(self).input.value@ == old(self).input.value@ && final(self).input.cursor
                    == old(self).input.cursor,
            },
    {
        if let Some(r) = req {
            self.input.apply(r);
        }
        let searching = match self.mode {
            AppMode::Searching => true,
            _ => false,
        };
        if searching {
            self.search_query = self.input.value.clone();
            self.search_repos();
        }
    }

    /// Moves the state with one key press and says what must be done outside (see
    /// `key_step`).
    pub fn handle_key(&mut self, key: Key) -> (eff: Effect)
        ensures
            key_step(old(self)@, final(self)@, key, eff),
    {
        match self.mode {
            AppMode::Normal => self.normal_key(key),
            AppMode::CreatingRepoName => self.creating_name_key(key),
            AppMode::CreatingRepoVisibility => self.creating_visibility_key(key),
            AppMode::Error(_) | AppMode::Message(_) => self.notice_key(key),
            AppMode::CloningRepoPath => self.cloning_path_key(key),
            AppMode::CloningRepoRename => self.cloning_rename_key(key),
            AppMode::DeletingRepoConfirmation => self.deleting_key(key),
            AppMode::AddingRemoteName => self.adding_remote_key(key),
            AppMode::Searching => self.searching_key(key),
            AppMode::PromptInitGit { .. } => self.prompt_init_key(key),
            AppMode::InitGitConfirmation | AppMode::InitGitGitignoreReview => Effect::Nothing,
        }
    }

    fn normal_key(&mut self, key: Key) -> (eff: Effect)
        requires
            old(self).mode is Normal,
        ensures
            normal_step(old(self)@, final(self)@, key, eff),
    {
        match key {
            Key::Char('q') => Effect::Quit,
            Key::Char('/') => {
                self.mode = AppMode::Searching;
                self.input = InputField::new(self.search_query.clone());
                Effect::Nothing
            },
            Key::Char('c') => {
                self.mode = AppMode::CreatingRepoName;
                Effect::Nothing
            },
            Key::Char('x') | Key::Delete => {
                if self.repos.len() > 0 {
                    self.mode = AppMode::DeletingRepoConfirmation;
                    self.input = InputField::empty();
                }
                Effect::Nothing
            },
            Key::Enter | Key::Char('d') => {
                if self.repos.len() > 0 {
                    self.mode = AppMode::CloningRepoPath;
                }
                Effect::Nothing
            },
            Key::Char('r') => {
                if self.repos.len() > 0 {
                    self.mode = AppMode::AddingRemoteName;
                    self.input = InputField::empty();
                }
                Effect::Nothing
            },
            Key::Char('o') | Key::Char('b') => self.open_selected_repo_in_browser(),
            Key::Down | Key::Char('j') => {
                self.next();
                Effect::Nothing
            },
            Key::Up | Key::Char('k') => {
                self.previous();
                Effect::Nothing
            },
            _ => Effect::Nothing,
        }
    }

    fn creating_name_key(&mut self, key: Key) -> (eff: Effect)
        requires
            old(self).mode is CreatingRepoName,
        ensures
            creating_name_step(old(self)@, final(self)@, key, eff),
    {
        match key {
            Key::Enter => {
                self.new_repo_name = self.input.value.clone();
                if !self.new_repo_name.as_str().is_empty() {
                    self.mode = AppMode::CreatingRepoVisibility;
                }
                Effect::Nothing
            },
            Key::Esc => {
                self.cancel_create();
                Effect::Nothing
            },
            _ => Effect::EditInput,
        }
    }

    fn cancel_create(&mut self)
        ensures
            final(self)@ == cancel_create(old(self)@),
    {
        self.mode = AppMode::Normal;
        self.input = InputField::empty();
        self.new_repo_name = String::new();
    }

    fn creating_visibility_key(&mut self, key: Key) -> (eff: Effect)
        requires
            old(self).mode is CreatingRepoVisibility,
        ensures
            creating_visibility_step(old(self)@, final(self)@, key, eff),
    {
        match key {
            Key::Up | Key::Down | Key::Char('j') | Key::Char('k') => {
                self.new_repo_private = !self.new_repo_private;
                Effect::Nothing
            },
            Key::Enter => self.create_repo(),
            Key::Esc => {
                self.cancel_create();
                Effect::Nothing
            },
            _ => Effect::Nothing,
        }
    }

    fn notice_key(&mut self, key: Key) -> (eff: Effect)
        requires
            old(self).mode is Error || old(self).mode is Message,
        ensures
            notice_step(old(self)@, final(self)@, key, eff),
    {
        match key {
            Key::Enter | Key::Esc => {
                self.cancel_create();
                Effect::Nothing
            },
            _ => Effect::Nothing,
        }
    }

    fn cloning_path_key(&mut self, key: Key) -> (eff: Effect)
        requires
            old(self).mode is CloningRepoPath,
        ensures
            cloning_path_step(old(self)@, final(self)@, key, eff),
    {
        match key {
            Key::Enter => {
                let path = trim(self.input.value.as_str());
                self.clone_path = if path.as_str().is_empty() {
                    String::from_str(".")
                } else {
                    path
                };
                self.input = InputField::empty();
                self.mode = AppMode::CloningRepoRename;
                Effect::Nothing
            },
            Key::Esc => {
                self.mode = AppMode::Normal;
                self.input = InputField::empty();
                self.clone_path = String::new();
                Effect::Nothing
            },
            _ => Effect::EditInput,
        }
    }

    fn cloning_rename_key(&mut self, key: Key) -> (eff: Effect)
        requires
            old(self).mode is CloningRepoRename,
        ensures
            cloning_rename_step(old(self)@, final(self)@, key, eff),
    {
        match key {
            Key::Enter => {
                let rename = trim(self.input.value.as_str());
                self.input = InputField::empty();
                let path = self.clone_path.clone();
                self.clone_path = String::new();
                self.clone_selected_repo(path.as_str(), rename.as_str())
            },
            Key::Esc => {
                self.mode = AppMode::Normal;
                self.input = InputField::empty();
                self.clone_path = String::new();
                Effect::Nothing
            },
            _ => Effect::EditInput,
        }
    }

    fn deleting_key(&mut self, key: Key) -> (eff: Effect)
        requires
            old(self).mode is DeletingRepoConfirmation,
        ensures
            deleting_step(old(self)@, final(self)@, key, eff),
    {
        match key {
            Key::Enter => {
                let confirm = trim(self.input.value.as_str());
                let matched = match self.selected_repo() {
                    Some(repo) => Some(confirm == repo.full_name),
                    None => None,
                };
                match matched {
                    Some(true) => self.delete_selected_repo(),
                    Some(false) => {
                        self.mode = AppMode::Error(String::from_str("Repository name did not match."));
                        self.input = InputField::empty();
                        Effect::Nothing
                    },
                    None => Effect::Nothing,
                }
            },
            Key::Esc => {
                self.mode = AppMode::Normal;
                self.input = InputField::empty();
                Effect::Nothing
            },
            _ => Effect::EditInput,
        }
    }

    fn adding_remote_key(&mut self, key: Key) -> (eff: Effect)
        requires
            old(self).mode is AddingRemoteName,
        ensures
            adding_remote_step(old(self)@, final(self)@, key, eff),
    {
        match key {
            Key::Enter => {
                let typed = self.input.value.clone();
                self.input = InputField::empty();
                self.add_remote_to_repo(typed.as_str())
            },
            Key::Esc => {
                self.mode = AppMode::Normal;
                self.input = InputField::empty();
                Effect::Nothing
            },
            _ => Effect::EditInput,
        }
    }

    fn searching_key(&mut self, key: Key) -> (eff: Effect)
        requires
            old(self).mode is Searching,
        ensures
            searching_step(old(self)@, final(self)@, key, eff),
    {
        match key {
            Key::Enter | Key::Esc => {
                self.mode = AppMode::Normal;
                Effect::Nothing
            },
            _ => Effect::EditInput,
        }
    }

    fn prompt_init_key(&mut self, key: Key) -> (eff: Effect)
        requires
            old(self).mode is PromptInitGit,
        ensures
            prompt_init_step(old(self)@, final(self)@, key, eff),
    {
        match key {
            Key::Enter => match &self.mode {
                AppMode::PromptInitGit { remote_name, clone_url } => Effect::InitGitAndAddRemote {
                    remote_name: remote_name.clone(),
                    clone_url: clone_url.clone(),
                },
                _ => Effect::Nothing,
            },
            Key::Esc => {
                self.mode = AppMode::Normal;
                self.input = InputField::empty();
                Effect::Nothing
            },
            _ => Effect::Nothing,
        }
    }
}

} // verus!
