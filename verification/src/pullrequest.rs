//! Getting a pull request ready: filling in what was left open, and refusing
//! branches that must not be pushed to.
use crate::error::{Error, Result};
use crate::text::{append_chars, chars_of, is_prefix, join, joined, string_of, views};
use crate::vc::{
    gave_fetch, gave_log, gave_merge, gave_push, gave_remote_branch, VersionControl,
};
use vstd::prelude::*;

verus! {

/// What a request for a pull request is.
pub struct RequestView {
    pub title: Seq<char>,
    pub description: Seq<char>,
    pub branch_name: Seq<char>,
    pub to_branch: Seq<char>,
    pub reviewers: Seq<Seq<char>>,
}

/// A request for a pull request. The title, the description and the name of
/// the branch may be empty; they are filled in before the request is sent.
#[derive(Debug)]
pub struct Request {
    pub title: String,
    pub description: String,
    pub branch_name: String,
    pub to_branch: String,
    pub reviewers: Vec<String>,
}

impl View for Request {
    type V = RequestView;

    open spec fn view(&self) -> RequestView {
        RequestView {
            title: self.title@,
            description: self.description@,
            branch_name: self.branch_name@,
            to_branch: self.to_branch@,
            reviewers: views(self.reviewers@),
        }
    }
}

/// `s` without the occurrences of `prefix` that it starts with, one after the
/// other. An empty prefix takes nothing away.
pub open spec fn without_prefixes(s: Seq<char>, prefix: Seq<char>) -> Seq<char>
    decreases s.len(),
{
    if prefix.len() > 0 && is_prefix(prefix, s) {
        without_prefixes(s.skip(prefix.len() as int), prefix)
    } else {
        s
    }
}

/// A branch that pull requests come from must not be one of the two main
/// branches.
pub open spec fn is_reserved(branch: Seq<char>) -> bool {
    branch == "master"@ || branch == "develop"@
}

/// The range of commits that a pull request into `to_branch` brings.
pub open spec fn incoming_range(to_branch: Seq<char>) -> Seq<char> {
    "origin/"@ + to_branch + "..HEAD"@
}

/// `r` refuses `branch` if it is reserved, with an error that names it, and
/// lets it pass otherwise.
pub open spec fn reserved_refused(branch: Seq<char>, r: Result<()>) -> bool {
    &&& r is Ok <==> !is_reserved(branch)
    &&& r is Err ==> r->Err_0@.description == "Bad remote branch name: "@ + branch
        && r->Err_0@.cause is None
}

/// What settling the name of the branch comes to. A name that was given stays
/// and the version control system is not asked. Where none was given, the
/// branch that the current one follows gives it, without the name of the
/// remote; an error of the version control system is handed on and leaves the
/// request as it was. A name that is reserved is refused. Nothing else of the
/// request changes.
pub open spec fn branch_settled<V: VersionControl>(
    vc: &V,
    before: RequestView,
    after: RequestView,
    r: Result<()>,
) -> bool {
    &&& after.title == before.title
    &&& after.description == before.description
    &&& after.to_branch == before.to_branch
    &&& after.reviewers == before.reviewers
    &&& if before.branch_name.len() > 0 {
        after.branch_name == before.branch_name && reserved_refused(before.branch_name, r)
    } else {
        exists|remote: Result<String>| #[trigger]
            gave_remote_branch(vc, remote) && match remote {
                Ok(branch) => after.branch_name == without_prefixes(branch@, "origin/"@)
                    && reserved_refused(after.branch_name, r),
                Err(e) => r is Err && r->Err_0 == e && after.branch_name == before.branch_name,
            }
    }
}

/// What filling in a text from the log comes to. A text that was given stays
/// and the log is not asked for. An empty text becomes the messages of the
/// commits in `range`, a line feed between each two; an error of the version
/// control system is handed on and leaves the text empty.
pub open spec fn filled_from_log<V: VersionControl>(
    vc: &V,
    range: Seq<char>,
    whole: bool,
    before: Seq<char>,
    after: Seq<char>,
    r: Result<()>,
) -> bool {
    if before.len() > 0 {
        after == before && r is Ok
    } else {
        exists|asked: &str, log: Result<Vec<String>>| #[trigger]
            gave_log(vc, asked, whole, log) && asked@ == range && match log {
                Ok(messages) => r is Ok && after == joined(views(messages@), seq!['\n']),
                Err(e) => r is Err && r->Err_0 == e && after == before,
            }
    }
}

/// What filling in the title and then the description comes to, for a request
/// whose branch is settled. The title is taken from the summary of the last
/// commit; where that fails the description is left alone. The description is
/// taken from the messages of the commits that the target branch lacks.
pub open spec fn texts_filled<V: VersionControl>(
    vc: &V,
    before: RequestView,
    after: RequestView,
    r: Result<()>,
) -> bool {
    &&& after.branch_name == before.branch_name
    &&& after.to_branch == before.to_branch
    &&& after.reviewers == before.reviewers
    &&& exists|titled: Result<()>| #[trigger]
        filled_from_log(vc, "HEAD~..HEAD"@, false, before.title, after.title, titled) && if titled
            is Err {
            r == titled && after.description == before.description
        } else {
            filled_from_log(
                vc,
                incoming_range(before.to_branch),
                true,
                before.description,
                after.description,
                r,
            )
        }
}

/// What getting a request ready comes to: the name of the branch is settled,
/// and where that went well the title and the description are filled in.
pub open spec fn request_checked<V: VersionControl>(
    vc: &V,
    before: RequestView,
    after: RequestView,
    r: Result<()>,
) -> bool {
    exists|named: RequestView, settled: Result<()>| #[trigger]
        branch_settled(vc, before, named, settled) && if settled is Err {
            r == settled && after == named
        } else {
            texts_filled(vc, named, after, r)
        }
}

/// `s` without the occurrences of `prefix` that it starts with.
pub fn strip_prefixes(s: &Vec<char>, prefix: &Vec<char>) -> (r: Vec<char>)
    ensures
        r@ == without_prefixes(s@, prefix@),
{
    let mut i: usize = 0;
    assert(s@.skip(0) =~= s@);
    if prefix.len() > 0 {
        while i <= s.len() && crate::text::matches_at(s, prefix, i)
            invariant
                i <= s.len(),
                prefix.len() > 0,
                without_prefixes(s@, prefix@) == without_prefixes(s@.skip(i as int), prefix@),
            decreases s.len() - i,
        {
            proof {
                let rest = s@.skip(i as int);
                assert(rest.take(prefix@.len() as int) =~= s@.subrange(
                    i as int,
                    i + prefix@.len(),
                ));
                assert(rest.skip(prefix@.len() as int) =~= s@.skip(i + prefix@.len()));
            }
            i += prefix.len();
        }
        proof {
            let rest = s@.skip(i as int);
            if prefix@.len() <= rest.len() {
                assert(rest.take(prefix@.len() as int) =~= s@.subrange(
                    i as int,
                    i + prefix@.len(),
                ));
            }
        }
    }
    crate::text::slice_of(s, i, s.len())
}

/// Takes the name of the branch from the branch that the current one follows,
/// given what the version control system said of it: the name of that branch
/// without the name of the remote. An error from it is handed on.
pub fn adopt_remote_branch(request: &mut Request, remote: Result<String>) -> (r: Result<()>)
    ensures
        final(request)@.title == old(request)@.title,
        final(request)@.description == old(request)@.description,
        final(request)@.to_branch == old(request)@.to_branch,
        final(request)@.reviewers == old(request)@.reviewers,
        match remote {
            Ok(branch) => r is Ok && final(request)@.branch_name == without_prefixes(
                branch@,
                "origin/"@,
            ),
            Err(e) => r is Err && r->Err_0 == e && final(request)@ == old(request)@,
        },
{
    match remote {
        Ok(branch) => {
            let name = strip_prefixes(&chars_of(branch.as_str()), &chars_of("origin/"));
            request.branch_name = string_of(&name);
            Ok(())
        },
        Err(e) => Err(e),
    }
}

/// Refuses a branch that is reserved, with an error that names it.
pub fn refuse_reserved(branch: &str) -> (r: Result<()>)
    ensures
        r is Ok <==> !is_reserved(branch@),
        r is Err ==> r->Err_0@.description == "Bad remote branch name: "@ + branch@
            && r->Err_0@.cause is None,
{
    if crate::text::same_text(branch, "master") || crate::text::same_text(branch, "develop") {
        let mut text = chars_of("Bad remote branch name: ");
        append_chars(&mut text, &chars_of(branch));
        return Err(Error::from_str(string_of(&text).as_str()));
    }
    Ok(())
}

/// Settles the name of the branch of a pull request. Where no name was given,
/// the branch that the current one follows gives it. The name must not be
/// reserved. Where a name was given, the version control system is not asked.
pub fn check_branch_name<V: VersionControl>(request: &mut Request, vc: &V) -> (r: Result<()>)
    ensures
        branch_settled(vc, old(request)@, final(request)@, r),
        r is Ok ==> !is_reserved(final(request)@.branch_name),
{
    if chars_of(request.branch_name.as_str()).len() == 0 {
        let remote = vc.remote_branch();
        assert(gave_remote_branch(vc, remote));
        match adopt_remote_branch(request, remote) {
            Ok(()) => {},
            Err(e) => {
                return Err(e);
            },
        }
    }
    refuse_reserved(request.branch_name.as_str())
}

/// The range of commits that a pull request into `to_branch` brings.
pub fn log_range(to_branch: &str) -> (r: String)
    ensures
        r@ == incoming_range(to_branch@),
{
    let mut range = chars_of("origin/");
    append_chars(&mut range, &chars_of(to_branch));
    append_chars(&mut range, &chars_of("..HEAD"));
    string_of(&range)
}

/// The lines of a log as one text, a line feed between each two.
pub fn join_log(log: &Vec<String>) -> (r: String)
    ensures
        r@ == joined(views(log@), seq!['\n']),
{
    let parts = crate::path::chars_of_all(log);
    let sep: Vec<char> = vec!['\n'];
    assert(sep@ =~= seq!['\n']);
    string_of(&join(&parts, &sep))
}

/// Fills in an empty text with the messages of a log. A text that was given
/// stays, and an error from the log is handed on.
pub fn fill_from_log(text: &mut String, log: Result<Vec<String>>) -> (r: Result<()>)
    ensures
        match log {
            Ok(messages) => r is Ok && final(text)@ == if old(text)@.len() == 0 {
                joined(views(messages@), seq!['\n'])
            } else {
                old(text)@
            },
            Err(e) => r is Err && r->Err_0 == e && final(text)@ == old(text)@,
        },
{
    match log {
        Ok(messages) => {
            if chars_of(text.as_str()).len() == 0 {
                *text = join_log(&messages);
            }
            Ok(())
        },
        Err(e) => Err(e),
    }
}

/// Fills in an empty text with the messages of the commits in `range`, as the
/// version control system gives them. A text that was given stays, and the
/// version control system is not asked.
fn fill_in<V: VersionControl>(text: &mut String, vc: &V, range: &str, whole: bool) -> (r: Result<
    (),
>)
    ensures
        filled_from_log(vc, range@, whole, old(text)@, final(text)@, r),
{
    if chars_of(text.as_str()).len() == 0 {
        let log = vc.log(range, whole);
        assert(gave_log(vc, range, whole, log));
        fill_from_log(text, log)
    } else {
        Ok(())
    }
}

/// Gets a request ready: settles the name of its branch, and fills in a
/// missing title with the summary of the last commit and a missing description
/// with the messages of the commits that the target branch lacks. The target
/// branch and the people asked stay as they are, and what was given stays too.
/// The first step that fails ends the work, and what it says is handed on.
pub fn check_request<V: VersionControl>(request: &mut Request, vc: &V) -> (r: Result<()>)
    ensures
        request_checked(vc, old(request)@, final(request)@, r),
        final(request)@.to_branch == old(request)@.to_branch,
        final(request)@.reviewers == old(request)@.reviewers,
        old(request)@.branch_name.len() > 0 ==> final(request)@.branch_name
            == old(request)@.branch_name,
        old(request)@.title.len() > 0 ==> final(request)@.title == old(request)@.title,
        old(request)@.description.len() > 0 ==> final(request)@.description
            == old(request)@.description,
        r is Ok ==> !is_reserved(final(request)@.branch_name),
{
    let settled = check_branch_name(request, vc);
    let ghost named = request@;
    match settled {
        Ok(()) => {},
        Err(e) => {
            assert(branch_settled(vc, old(request)@, named, settled));
            return Err(e);
        },
    }
    proof {
        reveal_strlit("HEAD~..HEAD");
    }
    let titled = fill_in(&mut request.title, vc, "HEAD~..HEAD", false);
    match titled {
        Ok(()) => {},
        Err(e) => {
            assert(filled_from_log(vc, "HEAD~..HEAD"@, false, named.title, request@.title, titled));
            assert(texts_filled(vc, named, request@, titled));
            assert(branch_settled(vc, old(request)@, named, settled));
            return Err(e);
        },
    }
    let range = log_range(request.to_branch.as_str());
    let r = fill_in(&mut request.description, vc, range.as_str(), true);
    assert(filled_from_log(vc, "HEAD~..HEAD"@, false, named.title, request@.title, titled));
    assert(texts_filled(vc, named, request@, r));
    assert(branch_settled(vc, old(request)@, named, settled));
    r
}

/// Fetches the target branch and checks that it can be merged. The check is
/// made only where the fetch went well: an error of the fetch is handed on as
/// it is, and otherwise the result is what the check of the merge gave. The
/// branch is merged nowhere; it is only checked.
pub fn check_conflicts<V: VersionControl>(branch: &str, vc: &V) -> (r: Result<()>)
    ensures
        exists|fetched: Result<()>| #[trigger]
            gave_fetch(vc, branch, fetched) && match fetched {
                Ok(_) => gave_merge(vc, branch, true, r),
                Err(e) => r is Err && r->Err_0 == e,
            },
{
    let fetched = vc.fetch(branch);
    assert(gave_fetch(vc, branch, fetched));
    match fetched {
        Ok(()) => vc.merge(branch, true),
        Err(e) => Err(e),
    }
}

/// Pushes the current branch to `branch` of the remote: the result is what the
/// version control system answered to that.
pub fn push_changes<V: VersionControl>(branch: &str, vc: &V) -> (r: Result<()>)
    ensures
        gave_push(vc, branch, r),
{
    vc.push(branch)
}

/// What follows the attempt to create a pull request. A failure is an error
/// that holds the failure as its cause. With success there is a command to
/// run if the pull request is to be opened in the browser, and none otherwise.
pub fn submit_pull_request(created: Result<String>, open: bool) -> (r: Result<Option<String>>)
    ensures
        match created {
            Ok(url) => r is Ok && (if open {
                r->Ok_0 is Some && r->Ok_0->Some_0@ == "open '"@ + url@ + "'"@
            } else {
                r->Ok_0 is None
            }),
            Err(e) => r is Err && r->Err_0@.description == "Can't create a pull request"@
                && r->Err_0@.cause == Some(crate::error::error_text(e@)),
        },
{
    match created {
        Ok(url) => {
            if open {
                let mut command = chars_of("open '");
                append_chars(&mut command, &chars_of(url.as_str()));
                append_chars(&mut command, &chars_of("'"));
                Ok(Some(string_of(&command)))
            } else {
                Ok(None)
            }
        },
        Err(e) => Err(Error::new("Can't create a pull request", e.message().as_str())),
    }
}

} // verus!
