//! What is said to the code review server, and where.
//!
//! The library sends nothing. It reads the server, the project and the
//! repository off the address that changes are pushed to, builds the addresses
//! of the server's interface, and lays out the request for a pull request.
use crate::error::{Error, Result};
use crate::pullrequest::{Request, RequestView};
use crate::text::{
    append_chars, chars_of, has_prefix, has_suffix, is_prefix, is_suffix, lines, lines_of,
    pieces_of, slice_of, split, split_on, string_of, trimmed_pieces, vec_views, views,
};
use vstd::prelude::*;

verus! {

/// What a server is: its host, and the project and the repository on it.
pub struct ServerView {
    pub host: Seq<char>,
    pub project: Seq<char>,
    pub repo: Seq<char>,
}

/// The place of a repository on the code review server.
#[derive(Debug)]
pub struct Server {
    pub host: String,
    pub project: String,
    pub repo: String,
}

impl View for Server {
    type V = ServerView;

    open spec fn view(&self) -> ServerView {
        ServerView { host: self.host@, project: self.project@, repo: self.repo@ }
    }
}

/// The server that a push address names. The address reads
/// `ssh://git@HOST/PROJECT/REPO.git`, where none of the three parts is empty
/// or holds a slash.
pub open spec fn server_of(url: Seq<char>) -> Option<ServerView> {
    let scheme = "ssh://git@"@;
    let parts = split_on(url.skip(scheme.len() as int), '/');
    if is_prefix(scheme, url) && parts.len() == 3 && parts[0].len() > 0 && parts[1].len() > 0
        && parts[2].len() > 4 && is_suffix(".git"@, parts[2]) {
        Some(
            ServerView { host: parts[0], project: parts[1], repo: parts[2].take(parts[2].len() - 4) },
        )
    } else {
        None
    }
}

/// The root of the server's interface.
pub open spec fn rest_api(server: ServerView) -> Seq<char> {
    "https://"@ + server.host + "/rest/api/1.0"@
}

/// The address that pull requests of the repository are sent to.
pub open spec fn pr_url(server: ServerView) -> Seq<char> {
    rest_api(server) + "/projects/"@ + server.project + "/repos/"@ + server.repo
        + "/pull-requests"@
}

/// The address that asks for the users that a filter matches.
pub open spec fn users_url(server: ServerView, filter: Seq<char>) -> Seq<char> {
    rest_api(server) + "/users?filter="@ + filter
}

/// The names in one line of a list of people: the pieces between semicolons,
/// without the white space around them, as far as anything is left of them.
pub open spec fn names_in_line(line: Seq<char>) -> Seq<Seq<char>> {
    pieces_of(line, ';')
}

/// The names in a sequence of lines.
pub open spec fn names_in_lines(lines: Seq<Seq<char>>) -> Seq<Seq<char>>
    decreases lines.len(),
{
    if lines.len() == 0 {
        Seq::empty()
    } else {
        names_in_lines(lines.drop_last()) + names_in_line(lines.last())
    }
}

/// The names of the people that a list of texts holds. Each text may hold
/// several lines, and each line several names separated by semicolons.
pub open spec fn reviewer_names(reviewers: Seq<Seq<char>>) -> Seq<Seq<char>>
    decreases reviewers.len(),
{
    if reviewers.len() == 0 {
        Seq::empty()
    } else {
        reviewer_names(reviewers.drop_last()) + names_in_lines(lines_of(reviewers.last()))
    }
}

/// What the request for a pull request says.
pub struct PullRequestBodyView {
    pub title: Seq<char>,
    pub description: Seq<char>,
    pub from_ref: Seq<char>,
    pub to_ref: Seq<char>,
    pub slug: Seq<char>,
    pub key: Seq<char>,
    pub reviewers: Seq<Seq<char>>,
}

/// The request for a pull request, before it is put into the server's format.
/// The pull request is open and not locked.
#[derive(Debug)]
pub struct PullRequestBody {
    pub title: String,
    pub description: String,
    pub from_ref: String,
    pub to_ref: String,
    pub slug: String,
    pub key: String,
    pub reviewers: Vec<String>,
}

impl View for PullRequestBody {
    type V = PullRequestBodyView;

    open spec fn view(&self) -> PullRequestBodyView {
        PullRequestBodyView {
            title: self.title@,
            description: self.description@,
            from_ref: self.from_ref@,
            to_ref: self.to_ref@,
            slug: self.slug@,
            key: self.key@,
            reviewers: views(self.reviewers@),
        }
    }
}

/// The request that asks to merge the branch of `request` into its target, in
/// the repository of `server`.
pub open spec fn pr_request(request: RequestView, server: ServerView) -> PullRequestBodyView {
    PullRequestBodyView {
        title: request.title,
        description: request.description,
        from_ref: "refs/heads/"@ + request.branch_name,
        to_ref: "refs/heads/"@ + request.to_branch,
        slug: server.repo,
        key: server.project,
        reviewers: reviewer_names(request.reviewers),
    }
}

/// `a` followed by `b`.
pub fn followed_by(a: &str, b: &str) -> (r: String)
    ensures
        r@ == a@ + b@,
{
    let mut out = chars_of(a);
    append_chars(&mut out, &chars_of(b));
    string_of(&out)
}

/// The server that a push address names, or an error if the address does not
/// have the form `ssh://git@HOST/PROJECT/REPO.git`.
pub fn get_stash_server_info(push_url: &str) -> (r: Result<Server>)
    ensures
        match server_of(push_url@) {
            Some(s) => r is Ok && r->Ok_0@ == s,
            None => r is Err && r->Err_0@.description == "No correct origin git remote url set"@
                && r->Err_0@.cause is None,
        },
{
    let url = chars_of(push_url);
    let scheme = chars_of("ssh://git@");
    if !has_prefix(&url, &scheme) {
        return Err(Error::from_str("No correct origin git remote url set"));
    }
    let rest = slice_of(&url, scheme.len(), url.len());
    let parts = split(&rest, '/');
    if parts.len() != 3 {
        return Err(Error::from_str("No correct origin git remote url set"));
    }
    let last = &parts[2];
    if parts[0].len() == 0 || parts[1].len() == 0 || last.len() <= 4 {
        return Err(Error::from_str("No correct origin git remote url set"));
    }
    proof {
        reveal_strlit(".git");
    }
    if !has_suffix(last, &chars_of(".git")) {
        return Err(Error::from_str("No correct origin git remote url set"));
    }
    let repo = slice_of(last, 0, last.len() - 4);
    Ok(Server { host: string_of(&parts[0]), project: string_of(&parts[1]), repo: string_of(&repo) })
}

/// The root of the server's interface.
pub fn get_stash_rest_api(server: &Server) -> (r: String)
    ensures
        r@ == rest_api(server@),
{
    let mut out = chars_of("https://");
    append_chars(&mut out, &chars_of(server.host.as_str()));
    append_chars(&mut out, &chars_of("/rest/api/1.0"));
    string_of(&out)
}

/// The address that pull requests of the repository are sent to.
pub fn get_stash_rest_api_pr_url(server: &Server) -> (r: String)
    ensures
        r@ == pr_url(server@),
{
    let mut out = chars_of(get_stash_rest_api(server).as_str());
    append_chars(&mut out, &chars_of("/projects/"));
    append_chars(&mut out, &chars_of(server.project.as_str()));
    append_chars(&mut out, &chars_of("/repos/"));
    append_chars(&mut out, &chars_of(server.repo.as_str()));
    append_chars(&mut out, &chars_of("/pull-requests"));
    string_of(&out)
}

/// The address that asks for the users that `filter` matches.
pub fn get_stash_rest_api_users_url(server: &Server, filter: &str) -> (r: String)
    ensures
        r@ == users_url(server@, filter@),
{
    let mut out = chars_of(get_stash_rest_api(server).as_str());
    append_chars(&mut out, &chars_of("/users?filter="));
    append_chars(&mut out, &chars_of(filter));
    string_of(&out)
}

/// The names in one line, appended to `out`.
fn collect_names(out: &mut Vec<String>, line: &Vec<char>)
    ensures
        views(final(out)@) == views(old(out)@) + names_in_line(line@),
{
    let names = trimmed_pieces(line, ';');
    let mut i: usize = 0;
    while i < names.len()
        invariant
            i <= names.len(),
            views(out@) == views(old(out)@) + views(names@).take(i as int),
        decreases names.len() - i,
    {
        let ghost before = out@;
        let name = names[i].clone();
        out.push(name);
        proof {
            assert(views(out@) =~= views(before).push(name@));
        }
        i += 1;
    }
}

/// The names of the people that a list of texts holds.
pub fn parse_reviewers(reviewers: &Vec<String>) -> (r: Vec<String>)
    ensures
        views(r@) == reviewer_names(views(reviewers@)),
{
    let mut r: Vec<String> = Vec::new();
    let ghost all = views(reviewers@);
    let mut i: usize = 0;
    while i < reviewers.len()
        invariant
            i <= reviewers.len(),
            all == views(reviewers@),
            views(r@) == reviewer_names(all.take(i as int)),
        decreases reviewers.len() - i,
    {
        let text = lines(&chars_of(reviewers[i].as_str()));
        let ghost rows = vec_views(text@);
        let ghost start = views(r@);
        let mut k: usize = 0;
        while k < text.len()
            invariant
                k <= text.len(),
                rows == vec_views(text@),
                views(r@) == start + names_in_lines(rows.take(k as int)),
            decreases text.len() - k,
        {
            proof {
                assert(rows.take(k + 1).drop_last() =~= rows.take(k as int));
            }
            collect_names(&mut r, &text[k]);
            k += 1;
        }
        proof {
            assert(rows.take(text.len() as int) =~= rows);
            assert(all.take(i + 1).drop_last() =~= all.take(i as int));
        }
        i += 1;
    }
    assert(all.take(reviewers.len() as int) =~= all);
    r
}

/// The request that asks to merge the branch of `request` into its target, in
/// the repository of `server`.
pub fn create_stash_rest_api_pr_request(request: &Request, server: &Server) -> (body:
    PullRequestBody)
    ensures
        body@ == pr_request(request@, server@),
{
    PullRequestBody {
        title: request.title.clone(),
        description: request.description.clone(),
        from_ref: followed_by("refs/heads/", request.branch_name.as_str()),
        to_ref: followed_by("refs/heads/", request.to_branch.as_str()),
        slug: server.repo.clone(),
        key: server.project.clone(),
        reviewers: parse_reviewers(&request.reviewers),
    }
}

/// What is to be sent to create a pull request: the address and the request.
/// An address that names no server is an error.
pub fn pull_request_call(request: &Request, push_url: &str) -> (r: Result<(String, PullRequestBody)>)
    ensures
        match server_of(push_url@) {
            Some(s) => r is Ok && r->Ok_0.0@ == pr_url(s) && r->Ok_0.1@ == pr_request(request@, s),
            None => r is Err && r->Err_0@.description == "No correct origin git remote url set"@
                && r->Err_0@.cause is None,
        },
{
    match get_stash_server_info(push_url) {
        Ok(server) => Ok(
            (
                get_stash_rest_api_pr_url(&server),
                create_stash_rest_api_pr_request(request, &server),
            ),
        ),
        Err(e) => Err(e),
    }
}

/// The address to ask for the users that `filter` matches. An address that
/// names no server is an error.
pub fn find_users_call(filter: &str, push_url: &str) -> (r: Result<String>)
    ensures
        match server_of(push_url@) {
            Some(s) => r is Ok && r->Ok_0@ == users_url(s, filter@),
            None => r is Err && r->Err_0@.description == "No correct origin git remote url set"@
                && r->Err_0@.cause is None,
        },
{
    match get_stash_server_info(push_url) {
        Ok(server) => Ok(get_stash_rest_api_users_url(&server, filter)),
        Err(e) => Err(e),
    }
}

} // verus!
