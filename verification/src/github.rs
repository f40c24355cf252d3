//! What the application computes around GitHub and git before and after each request.
use vstd::prelude::*;

use crate::model::{Repo, User};
use crate::text::{
    chars_of, contains, find_char, find_seq, first_index_of, string_of_range, lemma_replace_absent, lemma_replace_removes_all, lowercase, replace_all,
    replace_spec, seq_contains, seq_starts_with, split_whitespace, starts_with, trim, trim_spec,
    views, words_spec, unicode_white_space, lemma_words_add_word,
};

verus! {

/// The text that `add_remote` fails with when the current directory is not a git
/// repository.
pub open spec fn not_a_git_repo_marker() -> Seq<char> {
    "NOT_A_GIT_REPO"@
}

/// `text` with every occurrence of a non-empty `token` replaced by `***`.
pub open spec fn masked(token: Seq<char>, text: Seq<char>) -> Seq<char> {
    if token.len() == 0 {
        text
    } else {
        replace_spec(text, token, "***"@)
    }
}

/// Hides the access token in text that is about to be shown: every occurrence of `token`
/// becomes `***`. A token without `*` never survives; text without the token is kept as it
/// is.
pub fn mask_token(token: &str, text: &str) -> (r: String)
    ensures
        r@ == masked(token@, text@),
        token@.len() > 0 && !token@.contains('*') ==> !seq_contains(r@, token@),
        !seq_contains(text@, token@) ==> r@ == text@,
{
    if token.is_empty() {
        text.to_owned()
    } else {
        let r = replace_all(text, token, "***");
        proof {
            reveal_strlit("***");
            if !token@.contains('*') {
                assert forall|k: int| 0 <= k < "***"@.len() implies !token@.contains(#[trigger] "***"@[k]) by {
                    assert("***"@[k] == '*');
                }
                lemma_replace_removes_all(text@, token@, "***"@);
            }
            if !seq_contains(text@, token@) {
                lemma_replace_absent(text@, token@, "***"@);
            }
        }
        r
    }
}

/// The error reported when `git clone` fails, with the token hidden in git's output.
pub open spec fn clone_failure_spec(token: Seq<char>, stderr: Seq<char>) -> Seq<char> {
    "Git failed: "@ + masked(token, stderr)
}

/// The error reported when `git clone` fails: `Git failed: ` and git's output with the
/// token hidden.
pub fn clone_failure_message(token: &str, stderr: &str) -> (r: String)
    ensures
        r@ == clone_failure_spec(token@, stderr@),
{
    let masked_text = mask_token(token, stderr);
    String::from_str("Git failed: ").concat(masked_text.as_str())
}

/// How `git clone` is run: which URL, from which directory, into which destination.
#[derive(Debug)]
pub struct CloneCommand {
    /// The URL given to git, carrying the token when there is one.
    pub url: String,
    /// The working directory of git.
    pub dir: String,
    /// The destination directory, when one was asked for.
    pub dest: Option<String>,
}

/// The clone URL with the token put in front of the host: every `https://` becomes
/// `https://TOKEN@` when there is a token and the URL starts with `https://`.
pub open spec fn authenticated_url(token: Seq<char>, url: Seq<char>) -> Seq<char> {
    if token.len() > 0 && seq_starts_with(url, "https://"@) {
        replace_spec(url, "https://"@, "https://"@ + token + "@"@)
    } else {
        url
    }
}

/// The token goes in front of the host: for a URL `https://` + `rest` where `rest` holds
/// no further `https://`, a non-empty token gives `https://TOKEN@` + `rest`; without a
/// token the URL is used as it is.
pub proof fn lemma_token_before_host(token: Seq<char>, rest: Seq<char>)
    requires
        !seq_contains(rest, "https://"@),
    ensures
        token.len() > 0 ==> authenticated_url(token, "https://"@ + rest) == "https://"@ + token
            + "@"@ + rest,
        token.len() == 0 ==> authenticated_url(token, "https://"@ + rest) == "https://"@ + rest,
{
    reveal_strlit("https://");
    let url = "https://"@ + rest;
    let m = "https://"@.len() as int;
    assert(url.take(m) =~= "https://"@);
    assert(url.skip(m) =~= rest);
    assert(url.subrange(0, m) =~= "https://"@);
    assert(seq_starts_with(url, "https://"@));
    if token.len() > 0 {
        let to = "https://"@ + token + "@"@;
        lemma_replace_absent(rest, "https://"@, to);
        assert(replace_spec(url, "https://"@, to) == to + replace_spec(rest, "https://"@, to));
    }
}

/// The directory git runs in: the trimmed path, or `.` when it is blank.
pub open spec fn clone_base_dir(path: Seq<char>) -> Seq<char> {
    if trim_spec(path).len() == 0 {
        "."@
    } else {
        trim_spec(path)
    }
}

/// The destination git is given: the trimmed name, unless it is blank or `.`.
pub open spec fn clone_destination(rename: Seq<char>) -> Option<Seq<char>> {
    if trim_spec(rename).len() == 0 || trim_spec(rename) == "."@ {
        None
    } else {
        Some(trim_spec(rename))
    }
}

/// The `git clone` invocation for `clone_url` (see `authenticated_url`, `clone_base_dir` and
/// `clone_destination`).
pub fn clone_command(token: &str, clone_url: &str, path: &str, rename: &str) -> (c: CloneCommand)
    ensures
        c.url@ == authenticated_url(token@, clone_url@),
        c.dir@ == clone_base_dir(path@),
        match c.dest {
            Some(d) => clone_destination(rename@) == Some(d@),
            None => clone_destination(rename@) is None,
        },
        token@.len() > 0 && seq_starts_with(clone_url@, "https://"@) ==> seq_starts_with(
            c.url@,
            "https://"@ + token@ + "@"@,
        ),
{
    proof {
        reveal_strlit("https://");
    }
    let url = if !token.is_empty() && starts_with(clone_url, "https://") {
        let with_token = String::from_str("https://").concat(token).concat("@");
        let u = replace_all(clone_url, "https://", with_token.as_str());
        proof {
            let to = "https://"@ + token@ + "@"@;
            let m = "https://"@.len() as int;
            assert(clone_url@.take(m) =~= clone_url@.subrange(0, m));
            assert(u@ == to + replace_spec(clone_url@.skip(m), "https://"@, to));
            assert(u@.subrange(0, to.len() as int) =~= to);
        }
        u
    } else {
        clone_url.to_owned()
    };
    let base = trim(path);
    let dir = if base.as_str().is_empty() {
        String::from_str(".")
    } else {
        base
    };
    let name = trim(rename);
    let dot = String::from_str(".");
    let dest = if name.as_str().is_empty() || name == dot {
        None
    } else {
        Some(name)
    };
    CloneCommand { url, dir, dest }
}

/// The error `add_remote` reports for git's output: the marker `NOT_A_GIT_REPO` when the
/// lowercased output says the directory is not a git repository, `Git failed: ` and the
/// output otherwise.
pub open spec fn add_remote_failure_spec(stderr: Seq<char>) -> Seq<char> {
    if seq_contains(lowercase(stderr), "not a git repository"@) {
        not_a_git_repo_marker()
    } else {
        "Git failed: "@ + stderr
    }
}

/// Only git's own word that the directory is not a git repository makes `add_remote`
/// report the marker that leads to the offer to initialise git; every other failure is
/// reported as `Git failed: ...`, which is never the marker.
pub proof fn lemma_only_missing_repo_gives_marker(stderr: Seq<char>)
    ensures
        (add_remote_failure_spec(stderr) == not_a_git_repo_marker()) <==> seq_contains(
            lowercase(stderr),
            "not a git repository"@,
        ),
{
    reveal_strlit("Git failed: ");
    reveal_strlit("NOT_A_GIT_REPO");
    if !seq_contains(lowercase(stderr), "not a git repository"@) {
        assert(("Git failed: "@ + stderr)[0] == 'G');
        assert(not_a_git_repo_marker()[0] == 'N');
    }
}

/// The error to report when `git remote add` failed with `stderr`.
pub fn add_remote_failure(stderr: &str) -> (r: String)
    ensures
        r@ == add_remote_failure_spec(stderr@),
{
    let lower = stderr.to_lowercase();
    if contains(lower.as_str(), "not a git repository") {
        String::from_str("NOT_A_GIT_REPO")
    } else {
        String::from_str("Git failed: ").concat(stderr)
    }
}

/// The error to report when `git init` failed with `stderr`.
pub fn init_failure(stderr: &str) -> (r: String)
    ensures
        r@ == "Git init failed: "@ + stderr@,
{
    String::from_str("Git init failed: ").concat(stderr)
}

/// The error to report when `git add .` failed with `stderr`.
pub fn add_all_failure(stderr: &str) -> (r: String)
    ensures
        r@ == "git add failed: "@ + stderr@,
{
    String::from_str("git add failed: ").concat(stderr)
}

/// The error to report when GitHub refused to create a repository, with its answer `body`.
pub fn create_failure(body: &str) -> (r: String)
    ensures
        r@ == "Failed to create repo: "@ + body@,
{
    String::from_str("Failed to create repo: ").concat(body)
}

/// The error to report when GitHub refused to delete a repository, with its answer `body`.
pub fn delete_failure(body: &str) -> (r: String)
    ensures
        r@ == "Failed to delete repo: "@ + body@,
{
    String::from_str("Failed to delete repo: ").concat(body)
}

/// The API address of the repository `full_name` (`owner/name`).
pub fn repo_api_url(full_name: &str) -> (r: String)
    ensures
        r@ == "https://api.github.com/repos/"@ + full_name@,
{
    String::from_str("https://api.github.com/repos/").concat(full_name)
}

/// Whether `git rev-parse --is-inside-work-tree` says yes: it succeeded and printed `true`
/// (surrounding whitespace aside).
pub fn is_work_tree_reply(success: bool, stdout: &str) -> (b: bool)
    ensures
        b == (success && trim_spec(stdout@) == "true"@),
{
    if !success {
        return false;
    }
    let t = trim(stdout);
    let yes = String::from_str("true");
    t == yes
}

/// The profile shown when GitHub does not answer the user request with 200: the login
/// carries GitHub's answer, the bio says how to provide a token, every count is zero.
pub fn unauthorized_user(body: &str) -> (u: User)
    ensures
        u.login@ == "No Token / Unauthorized (Status: "@ + body@ + ")"@,
        u.name is None,
        u.bio matches Some(b) && b@ == "Set GITHUB_TOKEN using --auth or .env file to fetch user info"@,
        u.public_repos == 0,
        u.followers == 0,
        u.following == 0,
{
    User {
        login: String::from_str("No Token / Unauthorized (Status: ").concat(body).concat(")"),
        name: None,
        bio: Some(String::from_str("Set GITHUB_TOKEN using --auth or .env file to fetch user info")),
        public_repos: 0,
        followers: 0,
        following: 0,
    }
}

/// A character that may stand in an HTTP header value: a tab, or any character from the
/// space on except DEL (every byte of a multi-byte character is at least 128).
pub open spec fn header_char_allowed(c: char) -> bool {
    (c as u32 >= 32 && c as u32 != 127) || c == '\t'
}

/// Every character of `s` may stand in an HTTP header value.
pub open spec fn header_value_allowed(s: Seq<char>) -> bool {
    forall|i: int| 0 <= i < s.len() ==> header_char_allowed(#[trigger] s[i])
}

/// `reqwest::header::HeaderValue::from_str` (re-exported from `http`) accepts `s` exactly
/// when every byte is a tab or at least 32 and not 127; over characters that is
/// `header_value_allowed`.
#[verifier::external_body]
fn header_value_accepted(s: &str) -> (b: bool)
    ensures
        b == header_value_allowed(s@),
{
    reqwest::header::HeaderValue::from_str(s).is_ok()
}

/// The `Authorization` header value sent with every request: `Bearer TOKEN`, when there is
/// a token and it can stand in a header.
pub fn authorization_header(token: &str) -> (r: Option<String>)
    ensures
        match r {
            Some(v) => token@.len() > 0 && v@ == "Bearer "@ + token@ && header_value_allowed(v@),
            None => token@.len() == 0 || !header_value_allowed("Bearer "@ + token@),
        },
{
    if token.is_empty() {
        return None;
    }
    let value = String::from_str("Bearer ").concat(token);
    if header_value_accepted(value.as_str()) {
        Some(value)
    } else {
        None
    }
}

/// `s` cut at every `sep`, as `str::split` with a character pattern does: the pieces
/// between separators, in order, empty pieces included.
pub open spec fn split_on(s: Seq<char>, sep: char) -> Seq<Seq<char>>
    decreases s.len(),
{
    if s.len() == 0 {
        seq![Seq::empty()]
    } else {
        let prev = split_on(s.drop_last(), sep);
        if s.last() == sep {
            prev.push(Seq::empty())
        } else {
            prev.update(prev.len() - 1, prev.last().push(s.last()))
        }
    }
}

/// The marker of the link to the next page in a `Link` header.
pub open spec fn next_rel() -> Seq<char> {
    "rel=\"next\""@
}

/// The target of one link of a `Link` header, when the link is marked `rel="next"` and has
/// both a `<` and a `>`: the text between the first `<` and the first `>`.
pub open spec fn link_target(link: Seq<char>) -> Option<Seq<char>> {
    if seq_contains(link, next_rel()) && first_index_of(link, '<') is Some
        && first_index_of(link, '>') is Some {
        Some(link.subrange(first_index_of(link, '<')->0 + 1, first_index_of(link, '>')->0))
    } else {
        None
    }
}

/// A link whose target can be cut out: when it is marked `rel="next"` and has both marks,
/// the first `<` comes before the first `>`.
pub open spec fn link_cuttable(link: Seq<char>) -> bool {
    (seq_contains(link, next_rel()) && first_index_of(link, '<') is Some
        && first_index_of(link, '>') is Some) ==> first_index_of(link, '<')->0 < first_index_of(
        link,
        '>',
    )->0
}

/// Every link of the header can be cut out.
pub open spec fn link_header_cuttable(header: Seq<char>) -> bool {
    forall|k: int| 0 <= k < split_on(header, ',').len() ==> link_cuttable(#[trigger] split_on(header, ',')[k])
}

/// The target of the last link in `links` that has one.
pub open spec fn last_target(links: Seq<Seq<char>>) -> Option<Seq<char>>
    decreases links.len(),
{
    if links.len() == 0 {
        None
    } else {
        match link_target(links.last()) {
            Some(t) => Some(t),
            None => last_target(links.drop_last()),
        }
    }
}

/// The address of the next page named by a `Link` header: the target of the last
/// comma-separated link marked `rel="next"` that has one.
pub open spec fn next_page_spec(header: Seq<char>) -> Option<Seq<char>> {
    last_target(split_on(header, ','))
}

/// `last_target` picks the target of the last link that has one.
proof fn lemma_last_target_picks(links: Seq<Seq<char>>, k: int)
    requires
        0 <= k < links.len(),
        link_target(links[k]) is Some,
        forall|j: int| k < j < links.len() ==> link_target(#[trigger] links[j]) is None,
    ensures
        last_target(links) == link_target(links[k]),
    decreases links.len(),
{
    if k < links.len() - 1 {
        let shorter = links.drop_last();
        assert(link_target(links[links.len() - 1]) is None);
        assert forall|j: int| k < j < shorter.len() implies link_target(#[trigger] shorter[j]) is None by {
            assert(shorter[j] == links[j]);
        }
        lemma_last_target_picks(shorter, k);
    }
}

/// `last_target` finds nothing when no link has a target.
proof fn lemma_last_target_none(links: Seq<Seq<char>>)
    requires
        forall|j: int| 0 <= j < links.len() ==> link_target(#[trigger] links[j]) is None,
    ensures
        last_target(links) is None,
    decreases links.len(),
{
    if links.len() > 0 {
        let shorter = links.drop_last();
        assert(link_target(links[links.len() - 1]) is None);
        assert forall|j: int| 0 <= j < shorter.len() implies link_target(#[trigger] shorter[j]) is None by {
            assert(shorter[j] == links[j]);
        }
        lemma_last_target_none(shorter);
    }
}

/// The next page of a `Link` header is the target of the link marked `rel="next"`, wherever
/// that link stands among the comma-separated links (first, last or in between): when the
/// `k`-th link has a target and no later link has one, the next page is that target.
/// In particular a header with exactly one `rel="next"` link that has a target leads to
/// that target.
pub proof fn lemma_next_page_follows_next_link(header: Seq<char>, k: int)
    requires
        0 <= k < split_on(header, ',').len(),
        link_target(split_on(header, ',')[k]) is Some,
        forall|j: int|
            k < j < split_on(header, ',').len() ==> link_target(#[trigger] split_on(header, ',')[j]) is None,
    ensures
        next_page_spec(header) == link_target(split_on(header, ',')[k]),
{
    lemma_last_target_picks(split_on(header, ','), k);
}

/// A `Link` header none of whose links is a `rel="next"` link with a target names no next
/// page, so the walk ends.
pub proof fn lemma_no_next_link_ends_walk(header: Seq<char>)
    requires
        forall|j: int|
            0 <= j < split_on(header, ',').len() ==> link_target(#[trigger] split_on(header, ',')[j]) is None,
    ensures
        next_page_spec(header) is None,
{
    lemma_last_target_none(split_on(header, ','));
}

/// `s` is `pieces` joined with `sep` between neighbours.
pub open spec fn join_with(pieces: Seq<Seq<char>>, sep: char) -> Seq<char>
    decreases pieces.len(),
{
    if pieces.len() == 0 {
        Seq::empty()
    } else if pieces.len() == 1 {
        pieces[0]
    } else {
        join_with(pieces.drop_last(), sep) + seq![sep] + pieces.last()
    }
}

/// Cutting at `sep` loses nothing and cuts everywhere: the pieces joined with `sep` give
/// the text back, and no piece holds `sep`.
pub proof fn lemma_split_rejoins(s: Seq<char>, sep: char)
    ensures
        split_on(s, sep).len() >= 1,
        join_with(split_on(s, sep), sep) == s,
        forall|k: int| 0 <= k < split_on(s, sep).len() ==> !(#[trigger] split_on(s, sep)[k]).contains(sep),
    decreases s.len(),
{
    if s.len() == 0 {
        assert(split_on(s, sep) =~= seq![Seq::<char>::empty()]);
    } else {
        let t = s.drop_last();
        lemma_split_rejoins(t, sep);
        let prev = split_on(t, sep);
        let c = s.last();
        let cur = split_on(s, sep);
        if c == sep {
            assert(cur == prev.push(Seq::empty()));
            assert(cur.drop_last() =~= prev);
            assert(s =~= t + seq![sep] + Seq::<char>::empty());
            assert forall|k: int| 0 <= k < cur.len() implies !(#[trigger] cur[k]).contains(sep) by {
                if k < prev.len() {
                    assert(cur[k] == prev[k]);
                }
            }
        } else {
            let last = prev.last().push(c);
            assert(cur == prev.update(prev.len() - 1, last));
            assert forall|k: int| 0 <= k < cur.len() implies !(#[trigger] cur[k]).contains(sep) by {
                if k < prev.len() - 1 {
                    assert(cur[k] == prev[k]);
                } else {
                    assert(cur[k] == last);
                    assert(!prev[k].contains(sep));
                    if last.contains(sep) {
                        let i = choose|i: int| 0 <= i < last.len() && last[i] == sep;
                        if i < prev[k].len() {
                            assert(prev[k][i] == sep);
                        }
                    }
                }
            }
            if prev.len() == 1 {
                assert(cur =~= seq![last]);
                assert(s =~= t.push(c));
            } else {
                assert(cur.drop_last() =~= prev.drop_last());
                let head = join_with(prev.drop_last(), sep) + seq![sep];
                assert(join_with(prev, sep) == head + prev.last());
                assert(t == head + prev.last());
                assert(s =~= t.push(c));
                assert((head + prev.last()).push(c) =~= head + last);
                assert(cur.last() == last);
                assert(join_with(cur, sep) == join_with(cur.drop_last(), sep) + seq![sep] + cur.last());
            }
        }
    }
}

/// The first index of `c` in `a + seq![c] + b` is the length of `a` when `a` holds no `c`.
proof fn lemma_first_index_after(s: Seq<char>, c: char, p: int)
    requires
        0 <= p < s.len(),
        s[p] == c,
        forall|j: int| 0 <= j < p ==> s[j] != c,
    ensures
        first_index_of(s, c) == Some(p),
{
    assert(exists|i: int| 0 <= i < s.len() && s[i] == c);
    let w = choose|i: int| 0 <= i < s.len() && s[i] == c && forall|j: int| 0 <= j < i ==> s[j] != c;
    assert(0 <= p < s.len() && s[p] == c && forall|j: int| 0 <= j < p ==> s[j] != c);
    if w < p {
        assert(s[w] != c);
    }
    if w > p {
        assert(s[p] != c);
    }
}

/// The target of a `rel="next"` link is the text between its angle brackets: for a link
/// `a<u>b` marked `rel="next"` where neither `a` nor `u` holds `<` or `>`, the target is `u`.
pub proof fn lemma_link_target_between_marks(a: Seq<char>, u: Seq<char>, b: Seq<char>)
    requires
        !a.contains('<'),
        !a.contains('>'),
        !u.contains('<'),
        !u.contains('>'),
        seq_contains(a + seq!['<'] + u + seq!['>'] + b, next_rel()),
    ensures
        link_target(a + seq!['<'] + u + seq!['>'] + b) == Some(u),
{
    let link = a + seq!['<'] + u + seq!['>'] + b;
    let p = a.len() as int;
    let q = (a.len() + 1 + u.len()) as int;
    assert forall|j: int| 0 <= j < p implies link[j] != '<' by {
        assert(link[j] == a[j]);
    }
    lemma_first_index_after(link, '<', p);
    assert forall|j: int| 0 <= j < q implies link[j] != '>' by {
        if j < p {
            assert(link[j] == a[j]);
        } else if j > p {
            assert(link[j] == u[j - p - 1]);
        }
    }
    lemma_first_index_after(link, '>', q);
    assert(link.subrange(p + 1, q) =~= u);
}

/// Appending text without `sep` only lengthens the last piece.
proof fn lemma_split_append_plain(x: Seq<char>, y: Seq<char>, sep: char)
    requires
        !y.contains(sep),
    ensures
        split_on(x + y, sep) == split_on(x, sep).update(
            split_on(x, sep).len() - 1,
            split_on(x, sep).last() + y,
        ),
    decreases y.len(),
{
    lemma_split_nonempty(x, sep);
    let p = split_on(x, sep);
    if y.len() == 0 {
        assert(x + y =~= x);
        assert(p.last() + y =~= p.last());
        assert(p.update(p.len() - 1, p.last() + y) =~= p);
    } else {
        let y0 = y.drop_last();
        assert forall|i: int| 0 <= i < y0.len() implies y0[i] != sep by {
            assert(y0[i] == y[i]);
        }
        lemma_split_append_plain(x, y0, sep);
        assert((x + y).drop_last() =~= x + y0);
        assert((x + y).last() == y.last());
        assert(y.last() != sep);
        let prev = split_on(x + y0, sep);
        assert(prev.last() == p.last() + y0);
        assert((p.last() + y0).push(y.last()) =~= p.last() + y);
        assert(prev.update(prev.len() - 1, prev.last().push(y.last())) =~= p.update(
            p.len() - 1,
            p.last() + y,
        ));
    }
}

/// Cutting pieces joined with `sep` gives the pieces back, when none of them holds `sep`.
pub proof fn lemma_split_join(pieces: Seq<Seq<char>>, sep: char)
    requires
        pieces.len() >= 1,
        forall|k: int| 0 <= k < pieces.len() ==> !(#[trigger] pieces[k]).contains(sep),
    ensures
        split_on(join_with(pieces, sep), sep) == pieces,
    decreases pieces.len(),
{
    if pieces.len() == 1 {
        lemma_split_append_plain(Seq::empty(), pieces[0], sep);
        assert(Seq::<char>::empty() + pieces[0] =~= pieces[0]);
        assert(split_on(Seq::<char>::empty(), sep) =~= seq![Seq::<char>::empty()]);
        assert(Seq::<char>::empty() + pieces[0] =~= pieces[0]);
        assert(seq![Seq::<char>::empty()].update(0, Seq::<char>::empty() + pieces[0]) =~= pieces);
    } else {
        let init = pieces.drop_last();
        assert forall|k: int| 0 <= k < init.len() implies !(#[trigger] init[k]).contains(sep) by {
            assert(init[k] == pieces[k]);
        }
        lemma_split_join(init, sep);
        let j = join_with(init, sep);
        let js = j + seq![sep];
        assert(js.drop_last() =~= j);
        assert(split_on(js, sep) == init.push(Seq::empty()));
        lemma_split_append_plain(js, pieces.last(), sep);
        assert(Seq::<char>::empty() + pieces.last() =~= pieces.last());
        assert(init.push(Seq::empty()).update(init.len() as int, Seq::<char>::empty() + pieces.last())
            =~= pieces);
        assert(join_with(pieces, sep) == js + pieces.last());
    }
}

/// The next page of a `Link` header made of comma-separated links is the target `u` of its
/// one link `a<u>b` marked `rel="next"`, wherever that link stands among the others (first,
/// last or in between).
pub proof fn lemma_next_page_of_links(
    links: Seq<Seq<char>>,
    k: int,
    a: Seq<char>,
    u: Seq<char>,
    b: Seq<char>,
)
    requires
        0 <= k < links.len(),
        forall|j: int| 0 <= j < links.len() ==> !(#[trigger] links[j]).contains(','),
        links[k] == a + seq!['<'] + u + seq!['>'] + b,
        !a.contains('<'),
        !a.contains('>'),
        !u.contains('<'),
        !u.contains('>'),
        seq_contains(links[k], next_rel()),
        forall|j: int| 0 <= j < links.len() && j != k ==> !seq_contains(#[trigger] links[j], next_rel()),
    ensures
        next_page_spec(join_with(links, ',')) == Some(u),
{
    lemma_split_join(links, ',');
    lemma_link_target_between_marks(a, u, b);
    assert forall|j: int| k < j < links.len() implies link_target(#[trigger] links[j]) is None by {
        assert(!seq_contains(links[j], next_rel()));
    }
    lemma_last_target_picks(links, k);
}

/// Masking hides a token that makes up the whole text: it becomes `***`.
pub proof fn lemma_mask_whole_token(token: Seq<char>)
    requires
        token.len() > 0,
    ensures
        masked(token, token) == "***"@,
{
    assert(token.take(token.len() as int) =~= token);
    assert(token.skip(token.len() as int) =~= Seq::<char>::empty());
    assert(replace_spec(Seq::<char>::empty(), token, "***"@) == Seq::<char>::empty());
    assert(replace_spec(token, token, "***"@) == "***"@ + replace_spec(token.skip(token.len() as int), token, "***"@));
    assert("***"@ + Seq::<char>::empty() =~= "***"@);
}

/// The view of an optional string.
pub open spec fn opt_view(o: Option<String>) -> Option<Seq<char>> {
    match o {
        Some(s) => Some(s@),
        None => None,
    }
}

/// Cutting at a separator never yields an empty list of pieces.
proof fn lemma_split_nonempty(s: Seq<char>, sep: char)
    ensures
        split_on(s, sep).len() >= 1,
    decreases s.len(),
{
    if s.len() > 0 {
        lemma_split_nonempty(s.drop_last(), sep);
    }
}

/// Extending the text by one character keeps every finished piece.
proof fn lemma_split_extends(s: Seq<char>, sep: char, i: int, j: int)
    requires
        0 <= i <= j <= s.len(),
    ensures
        split_on(s.take(i), sep).len() <= split_on(s.take(j), sep).len(),
        forall|k: int|
            0 <= k < split_on(s.take(i), sep).len() - 1 ==> split_on(s.take(j), sep)[k] == split_on(
                s.take(i),
                sep,
            )[k],
    decreases j - i,
{
    if i < j {
        lemma_split_extends(s, sep, i, j - 1);
        let t = s.take(j);
        assert(t.drop_last() =~= s.take(j - 1));
        lemma_split_nonempty(s.take(j - 1), sep);
    }
}

/// One more character either closes the last piece (a separator) or extends it.
proof fn lemma_split_step(s: Seq<char>, sep: char, i: int, done: Seq<Seq<char>>, cur: Seq<char>)
    requires
        0 <= i < s.len(),
        split_on(s.take(i), sep) == done.push(cur),
    ensures
        s[i] == sep ==> split_on(s.take(i + 1), sep) == done.push(cur).push(Seq::empty()),
        s[i] != sep ==> split_on(s.take(i + 1), sep) == done.push(cur.push(s[i])),
{
    assert(s.take(i + 1).drop_last() =~= s.take(i));
    if s[i] != sep {
        let p = done.push(cur);
        assert(p.update(p.len() - 1, p.last().push(s[i])) =~= done.push(cur.push(s[i])));
    }
}

/// A piece closed by a separator is a piece of the whole text.
proof fn lemma_split_closed_piece(s: Seq<char>, sep: char, i: int, done: Seq<Seq<char>>, cur: Seq<char>)
    requires
        0 <= i < s.len(),
        s[i] == sep,
        split_on(s.take(i), sep) == done.push(cur),
    ensures
        done.len() < split_on(s, sep).len(),
        split_on(s, sep)[done.len() as int] == cur,
{
    lemma_split_step(s, sep, i, done, cur);
    lemma_split_extends(s, sep, i + 1, s.len() as int);
    assert(s.take(s.len() as int) =~= s);
    assert(done.push(cur).push(Seq::empty())[done.len() as int] == cur);
}

/// The whole text once every character was read.
proof fn lemma_split_whole(s: Seq<char>, sep: char, done: Seq<Seq<char>>, cur: Seq<char>)
    requires
        split_on(s.take(s.len() as int), sep) == done.push(cur),
    ensures
        split_on(s, sep) == done.push(cur),
{
    assert(s.take(s.len() as int) =~= s);
}

/// The target of one link, which must be cuttable.
fn link_target_of(link: &Vec<char>, marker: &Vec<char>) -> (r: Option<String>)
    requires
        marker@ == next_rel(),
        link_cuttable(link@),
    ensures
        opt_view(r) == link_target(link@),
{
    let found = find_seq(link, marker);
    if found.is_none() {
        return None;
    }
    let lt = find_char(link, '<');
    let gt = find_char(link, '>');
    match (lt, gt) {
        (Some(a), Some(b)) => Some(string_of_range(link, a + 1, b)),
        _ => None,
    }
}

/// Whether one link can be cut out.
fn link_is_cuttable(link: &Vec<char>, marker: &Vec<char>) -> (b: bool)
    requires
        marker@ == next_rel(),
    ensures
        b == link_cuttable(link@),
{
    if find_seq(link, marker).is_none() {
        return true;
    }
    match (find_char(link, '<'), find_char(link, '>')) {
        (Some(a), Some(b)) => a < b,
        _ => true,
    }
}

/// Whether every link of the header can be cut out (see `link_header_cuttable`); a header
/// that fails this makes the page walk stop with a panic.
pub fn link_header_is_cuttable(header: &str) -> (b: bool)
    ensures
        b == link_header_cuttable(header@),
{
    let v = chars_of(header);
    let marker = chars_of("rel=\"next\"");
    let n = v.len();
    let mut cur: Vec<char> = Vec::new();
    let ghost mut done: Seq<Seq<char>> = Seq::empty();
    let mut i: usize = 0;
    assert(v@.take(0) =~= Seq::<char>::empty());
    assert(split_on(v@.take(0), ',') =~= done.push(cur@));
    while i < n
        invariant
            n == v@.len(),
            v@ == header@,
            marker@ == next_rel(),
            i <= n,
            split_on(v@.take(i as int), ',') == done.push(cur@),
            forall|k: int| 0 <= k < done.len() ==> link_cuttable(#[trigger] done[k]),
        decreases n - i,
    {
        let c = v[i];
        proof {
            lemma_split_step(v@, ',', i as int, done, cur@);
        }
        if c == ',' {
            if !link_is_cuttable(&cur, &marker) {
                proof {
                    lemma_split_closed_piece(v@, ',', i as int, done, cur@);
                }
                return false;
            }
            proof {
                done = done.push(cur@);
            }
            cur = Vec::new();
            assert(done.push(cur@) =~= done.push(Seq::empty()));
        } else {
            cur.push(c);
        }
        i += 1;
    }
    proof {
        lemma_split_whole(v@, ',', done, cur@);
    }
    let last_ok = link_is_cuttable(&cur, &marker);
    proof {
        let pieces = split_on(header@, ',');
        assert(pieces == done.push(cur@));
        if last_ok {
            assert forall|k: int| 0 <= k < pieces.len() implies link_cuttable(#[trigger] pieces[k]) by {
                if k < done.len() {
                    assert(pieces[k] == done[k]);
                } else {
                    assert(pieces[k] == cur@);
                }
            }
        } else {
            assert(pieces[done.len() as int] == cur@);
        }
    }
    last_ok
}

/// The address of the next page named by a `Link` header (see `next_page_spec`). A header
/// with a `rel="next"` link whose first `>` comes before its first `<` cannot be cut and is
/// left out.
pub fn next_page_url(header: &str) -> (r: Option<String>)
    requires
        link_header_cuttable(header@),
    ensures
        opt_view(r) == next_page_spec(header@),
{
    let v = chars_of(header);
    let marker = chars_of("rel=\"next\"");
    let n = v.len();
    let mut cur: Vec<char> = Vec::new();
    let mut next: Option<String> = None;
    let ghost mut done: Seq<Seq<char>> = Seq::empty();
    let mut i: usize = 0;
    assert(v@.take(0) =~= Seq::<char>::empty());
    assert(split_on(v@.take(0), ',') =~= done.push(cur@));
    while i < n
        invariant
            n == v@.len(),
            v@ == header@,
            marker@ == next_rel(),
            link_header_cuttable(header@),
            i <= n,
            split_on(v@.take(i as int), ',') == done.push(cur@),
            opt_view(next) == last_target(done),
        decreases n - i,
    {
        let c = v[i];
        proof {
            lemma_split_step(v@, ',', i as int, done, cur@);
        }
        if c == ',' {
            proof {
                lemma_split_closed_piece(v@, ',', i as int, done, cur@);
            }
            let t = link_target_of(&cur, &marker);
            if t.is_some() {
                next = t;
            }
            proof {
                assert(done.push(cur@).drop_last() =~= done);
                done = done.push(cur@);
            }
            cur = Vec::new();
            assert(done.push(cur@) =~= done.push(Seq::empty()));
        } else {
            cur.push(c);
        }
        i += 1;
    }
    proof {
        lemma_split_whole(v@, ',', done, cur@);
        assert(done.push(cur@).drop_last() =~= done);
        assert(done.push(cur@)[done.len() as int] == cur@);
    }
    let t = link_target_of(&cur, &marker);
    if t.is_some() {
        t
    } else {
        next
    }
}

/// Whether an answer to a page request is read: only a 200 answer is; any other status
/// ends the walk with the pages gathered so far.
pub fn page_accepted(status: u16) -> (b: bool)
    ensures
        b == (status == 200),
{
    status == 200
}

/// What to do after a page of the repository list was read.
#[derive(Debug)]
pub enum PageStep {
    /// The walk is over.
    Stop,
    /// Fetch the page at this address next.
    Fetch(String),
    /// The `Link` header names a next page whose target cannot be cut out (its first `>`
    /// comes before its first `<`); the walk cannot go on and the program stops.
    UncuttableLink,
}

/// `step` is what follows a non-empty page whose answer carried the `Link` header `link`:
/// stop without a header; stop at a header whose next-page link cannot be cut out
/// (`UncuttableLink`); otherwise fetch the page that `next_page_spec` names, or stop when
/// it names none.
pub open spec fn step_after_page(link: Option<Seq<char>>, step: PageStep) -> bool {
    match link {
        None => step is Stop,
        Some(l) => if !link_header_cuttable(l) {
            step is UncuttableLink
        } else {
            match next_page_spec(l) {
                Some(u) => step matches PageStep::Fetch(v) && v@ == u,
                None => step is Stop,
            }
        },
    }
}

/// One accepted page of the repository list has been read: an empty page ends the walk
/// and adds nothing, whatever the `Link` header says; otherwise its repositories are
/// appended and the answer names the next page from the `Link` header (see
/// `step_after_page`).
pub fn list_repos_page(all_repos: &mut Vec<Repo>, page: Vec<Repo>, link: Option<&str>) -> (step: PageStep)
    ensures
        page@.len() == 0 ==> final(all_repos)@ == old(all_repos)@ && step is Stop,
        page@.len() > 0 ==> final(all_repos)@ == old(all_repos)@ + page@,
        page@.len() > 0 ==> step_after_page(
            match link {
                Some(l) => Some(l@),
                None => None,
            },
            step,
        ),
{
    if page.len() == 0 {
        return PageStep::Stop;
    }
    let mut page = page;
    all_repos.append(&mut page);
    match link {
        Some(l) => {
            if !link_header_is_cuttable(l) {
                return PageStep::UncuttableLink;
            }
            match next_page_url(l) {
                Some(u) => PageStep::Fetch(u),
                None => PageStep::Stop,
            }
        },
        None => PageStep::Stop,
    }
}

/// The text is not blank.
pub open spec fn not_blank(s: Option<Seq<char>>) -> bool {
    s matches Some(t) && trim_spec(t).len() > 0
}

/// The editor to run: `VISUAL` unless blank, else `EDITOR` unless blank, else `nano`.
pub open spec fn chosen_editor(visual: Option<Seq<char>>, editor: Option<Seq<char>>) -> Seq<char> {
    if not_blank(visual) {
        visual->0
    } else if not_blank(editor) {
        editor->0
    } else {
        "nano"@
    }
}

/// `VISUAL` comes first: a non-blank `VISUAL` is the editor whatever `EDITOR` holds; a
/// missing or blank `VISUAL` gives way to a non-blank `EDITOR`; when both are missing or
/// blank the editor is `nano`, a single word.
pub proof fn lemma_editor_order(visual: Option<Seq<char>>, editor: Option<Seq<char>>)
    ensures
        visual is Some && trim_spec(visual->0).len() > 0 ==> chosen_editor(visual, editor) == visual->0,
        !(visual is Some && trim_spec(visual->0).len() > 0) && (editor is Some && trim_spec(
            editor->0,
        ).len() > 0) ==> chosen_editor(visual, editor) == editor->0,
        !(visual is Some && trim_spec(visual->0).len() > 0) && !(editor is Some && trim_spec(
            editor->0,
        ).len() > 0) ==> words_spec(chosen_editor(visual, editor)) == seq!["nano"@],
{
    reveal_strlit("nano");
    let nano = "nano"@;
    assert forall|i: int| 0 <= i < nano.len() implies !unicode_white_space(#[trigger] nano[i]) by {
        assert(nano[i] == 'n' || nano[i] == 'a' || nano[i] == 'o');
    }
    lemma_words_add_word(Seq::empty(), nano);
    assert(Seq::<char>::empty() + nano =~= nano);
    assert(words_spec(Seq::<char>::empty()) =~= Seq::<Seq<char>>::empty());
    assert(Seq::<Seq<char>>::empty().push(nano) =~= seq![nano]);
}

/// How the `.gitignore` editor is started, given the values of `VISUAL` and `EDITOR`: the
/// chosen command (see `chosen_editor`) cut into whitespace-separated words, the first
/// being the program and the rest its arguments; an error when there is no word.
pub fn editor_command(visual: Option<String>, editor: Option<String>) -> (r: Result<(String, Vec<String>), String>)
    ensures
        ({
            let words = words_spec(chosen_editor(opt_view(visual), opt_view(editor)));
            match r {
                Ok((program, args)) => words.len() > 0 && program@ == words[0] && views(args@)
                    == words.drop_first(),
                Err(e) => words.len() == 0 && e@ == "Invalid editor command"@,
            }
        }),
{
    let visual_ok = match &visual {
        Some(v) => !trim(v.as_str()).as_str().is_empty(),
        None => false,
    };
    let editor_ok = match &editor {
        Some(e) => !trim(e.as_str()).as_str().is_empty(),
        None => false,
    };
    let command = if visual_ok {
        visual.unwrap()
    } else if editor_ok {
        editor.unwrap()
    } else {
        String::from_str("nano")
    };
    let words = split_whitespace(command.as_str());
    if words.len() == 0 {
        return Err(String::from_str("Invalid editor command"));
    }
    let mut args: Vec<String> = Vec::new();
    let mut i: usize = 1;
    while i < words.len()
        invariant
            1 <= i <= words@.len(),
            views(args@) == views(words@).subrange(1, i as int),
        decreases words.len() - i,
    {
        let ghost before = args@;
        let w = words[i].clone();
        assert(w == words@[i as int]);
        args.push(w);
        assert(args@ == before.push(words@[i as int]));
        assert(views(args@) =~= views(before).push(words@[i as int]@));
        assert(views(args@) =~= views(words@).subrange(1, i + 1));
        i += 1;
    }
    assert(views(words@).drop_first() =~= views(words@).subrange(1, words@.len() as int));
    Ok((words[0].clone(), args))
}

} // verus!
