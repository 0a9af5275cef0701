//! The repository workflow: the ordered sequence of remote operations that
//! turns one submission into a branch, a data-file change and a pull
//! request.
//!
//! The workflow is a state machine over one submission. Each step decides
//! the next remote operation (an [`Action`]); the surrounding program
//! performs it and hands the outcome back. Every failure is terminal —
//! nothing is retried, and nothing already created is rolled back: an
//! orphaned branch is cheap to clean up by hand, while automated rollback
//! could delete legitimate concurrent work.
//!
//! The only branching on the success path is "data file exists or not":
//! an existing file is updated with the entry appended (its version token
//! passed along as the optimistic-concurrency guard), a missing one is
//! created. A failure to read the file is treated as absence, so a
//! transient read problem creates a fresh file rather than failing the
//! submission.

use vstd::prelude::*;
use vstd::string::StringExecFns;
use crate::codec::{Comment, merge_entry, serialize_entry, spec_entry};
use crate::decode::Post;
use crate::ident::{branch_name_for, data_file_path, make_comment_id, spec_comment_id};
use crate::respond::{
    Error, HttpResponse, message_for, response_for_error, status_for, success_response,
};

verus! {

/// The name of the base branch: topic branches fork from it and pull
/// requests merge into it.
pub fn base_branch() -> (r: String)
    ensures
        r@ == "master"@,
{
    "master".to_owned()
}

/// The author recorded on the commits this pipeline makes: a display name
/// and an email address.
pub fn commit_author() -> (r: (String, String))
    ensures
        r.0@ == "Comment0r"@,
        r.1@ == "none@example.com"@,
{
    ("Comment0r".to_owned(), "none@example.com".to_owned())
}

/// One remote operation for the surrounding program to perform, or the
/// response to send. All repository operations address the one repository
/// the process is configured for.
pub enum Action {
    /// Resolve the head commit of a branch.
    GetBranchHead { branch: String },
    /// Create a branch at a commit.
    CreateBranch { branch: String, from_sha: String },
    /// Read a file on a branch; the outcome is its content and version
    /// token, or nothing if it is absent.
    GetFile { path: String, branch: String },
    /// Create a file on a branch.
    CreateFile { path: String, content: String, branch: String, message: String },
    /// Update a file on a branch. The remote side must reject the write if
    /// the file's version no longer matches `version`.
    UpdateFile { path: String, content: String, branch: String, version: String, message: String },
    /// Open a pull request of `head` into `base`.
    OpenPullRequest { title: String, head: String, base: String },
    /// The pipeline is finished: answer the client.
    Respond { response: HttpResponse },
}

/// Where the workflow stands.
#[derive(Clone, Copy, Debug, PartialEq, Eq, Structural)]
pub enum Phase {
    /// Resolving the head of the base branch.
    ResolveBase,
    /// Creating the topic branch.
    CreateTopicBranch,
    /// Reading the data file, if it exists.
    FetchExisting,
    /// Creating or updating the data file.
    WriteFile,
    /// Opening the pull request.
    OpenPullRequest,
    /// The pull request is open.
    Completed,
    /// Terminally failed; nothing further happens.
    Failed(Error),
}

/// The state machine over one submission.
pub struct Pipeline {
    /// The comment to be recorded.
    pub comment: Comment,
    /// The topic branch carrying this submission's change.
    pub branch: String,
    /// The data file's path.
    pub path: String,
    /// Where the workflow stands.
    pub phase: Phase,
}

/// The commit message recording one comment.
pub open spec fn spec_commit_message(name: Seq<char>) -> Seq<char> {
    "Added comment from '"@ + name + "'"@
}

/// The pull-request title for one comment.
pub open spec fn spec_pr_title(name: Seq<char>) -> Seq<char> {
    "New comment from "@ + name
}

fn commit_message(name: &str) -> (r: String)
    ensures
        r@ == spec_commit_message(name@),
{
    "Added comment from '".to_owned().concat(name).concat("'")
}

impl Pipeline {
    /// Starts the workflow for one decoded submission: enriches it into
    /// the comment record (every client field preserved verbatim), derives
    /// the identifier, topic branch and data-file path, and asks for the
    /// head of the base branch.
    pub fn start(post: Post, time: u64, rand: u64) -> (r: (Pipeline, Action))
        ensures
            ({
                let (p, a) = r;
                &&& p.comment.id@ == spec_comment_id(time, rand)
                &&& p.comment.message@ == post.message@
                &&& p.comment.name@ == post.name@
                &&& p.comment.url@ == post.url@
                &&& p.comment.date == time
                &&& p.branch@ == "comments/"@ + spec_comment_id(time, rand)
                &&& p.path@ == "content"@ + post.path@ + "comments.yaml"@
                &&& p.phase is ResolveBase
                &&& a matches Action::GetBranchHead { branch } && branch@ == "master"@
            }),
    {
        let id = make_comment_id(time, rand);
        let branch = branch_name_for(id.as_str());
        let path = data_file_path(post.path.as_str());
        let comment = Comment {
            id,
            message: post.message,
            name: post.name,
            url: post.url,
            date: time,
        };
        let p = Pipeline { comment, branch, path, phase: Phase::ResolveBase };
        let a = Action::GetBranchHead { branch: base_branch() };
        (p, a)
    }

    /// The outcome of resolving the base branch: its head commit, or
    /// nothing if it could not be resolved. Failure here is fatal — the
    /// upstream is unavailable. Success asks for the topic branch to be
    /// created at that head.
    pub fn on_base_resolved(&mut self, head: Option<String>) -> (a: Action)
        requires
            old(self).phase is ResolveBase,
        ensures
            final(self).comment == old(self).comment,
            final(self).branch == old(self).branch,
            final(self).path == old(self).path,
            head matches Some(sha) ==> {
                &&& final(self).phase is CreateTopicBranch
                &&& a matches Action::CreateBranch { branch, from_sha } && branch@ == old(
                    self,
                ).branch@ && from_sha@ == sha@
            },
            head is None ==> final(self).phase == Phase::Failed(Error::UpstreamUnavailable) && (
            a matches Action::Respond { response } && response.status == status_for(
                Error::UpstreamUnavailable,
            ) && response.body@ == message_for(Error::UpstreamUnavailable)),
    {
        match head {
            Some(sha) => {
                self.phase = Phase::CreateTopicBranch;
                Action::CreateBranch { branch: self.branch.clone(), from_sha: sha }
            },
            None => {
                self.phase = Phase::Failed(Error::UpstreamUnavailable);
                Action::Respond { response: response_for_error(Error::UpstreamUnavailable) }
            },
        }
    }

    /// The outcome of creating the topic branch. Rejection (for instance a
    /// name collision) is fatal by design rather than retried with a fresh
    /// identifier: a collision under the generator's entropy is so
    /// unlikely that a silent retry would mask bugs. Success asks for the
    /// data file on the base branch.
    pub fn on_branch_created(&mut self, ok: bool) -> (a: Action)
        requires
            old(self).phase is CreateTopicBranch,
        ensures
            final(self).comment == old(self).comment,
            final(self).branch == old(self).branch,
            final(self).path == old(self).path,
            ok ==> {
                &&& final(self).phase is FetchExisting
                &&& a matches Action::GetFile { path, branch } && path@ == old(self).path@
                    && branch@ == "master"@
            },
            !ok ==> final(self).phase == Phase::Failed(Error::BranchCreateFailed) && (
            a matches Action::Respond { response } && response.status == status_for(
                Error::BranchCreateFailed,
            ) && response.body@ == message_for(Error::BranchCreateFailed)),
    {
        if ok {
            self.phase = Phase::FetchExisting;
            Action::GetFile { path: self.path.clone(), branch: base_branch() }
        } else {
            self.phase = Phase::Failed(Error::BranchCreateFailed);
            Action::Respond { response: response_for_error(Error::BranchCreateFailed) }
        }
    }

    /// The outcome of reading the data file: its content and version
    /// token, or nothing if it is absent (the first comment for this
    /// content item) or unreadable. An existing file is updated with the
    /// new entry appended after its content, byte for byte unchanged, the
    /// version token guarding against a concurrent change; a missing one
    /// is created with the entry as its whole content.
    pub fn on_file_fetched(&mut self, existing: Option<(String, String)>) -> (a: Action)
        requires
            old(self).phase is FetchExisting,
        ensures
            final(self).comment == old(self).comment,
            final(self).branch == old(self).branch,
            final(self).path == old(self).path,
            final(self).phase is WriteFile,
            existing matches Some(prior) ==> (a matches Action::UpdateFile {
                path,
                content,
                branch,
                version,
                message,
            } && path@ == old(self).path@ && content@ == prior.0@ + spec_entry(
                old(self).comment@,
            ) && branch@ == old(self).branch@ && version@ == prior.1@ && message@
                == spec_commit_message(old(self).comment.name@)),
            existing is None ==> (a matches Action::CreateFile { path, content, branch, message }
                && path@ == old(self).path@ && content@ == spec_entry(old(self).comment@)
                && branch@ == old(self).branch@ && message@ == spec_commit_message(
                old(self).comment.name@,
            )),
    {
        self.phase = Phase::WriteFile;
        let message = commit_message(self.comment.name.as_str());
        match existing {
            Some(prior) => {
                let content = merge_entry(prior.0.as_str(), &self.comment);
                Action::UpdateFile {
                    path: self.path.clone(),
                    content,
                    branch: self.branch.clone(),
                    version: prior.1,
                    message,
                }
            },
            None => {
                let content = serialize_entry(&self.comment);
                Action::CreateFile {
                    path: self.path.clone(),
                    content,
                    branch: self.branch.clone(),
                    message,
                }
            },
        }
    }

    /// The outcome of writing the data file (a concurrency rejection
    /// counts as failure). Success asks for the pull request; failure is
    /// fatal, and the topic branch is left in place.
    pub fn on_file_written(&mut self, ok: bool) -> (a: Action)
        requires
            old(self).phase is WriteFile,
        ensures
            final(self).comment == old(self).comment,
            final(self).branch == old(self).branch,
            final(self).path == old(self).path,
            ok ==> {
                &&& final(self).phase is OpenPullRequest
                &&& a matches Action::OpenPullRequest { title, head, base } && title@
                    == spec_pr_title(old(self).comment.name@) && head@ == old(self).branch@
                    && base@ == "master"@
            },
            !ok ==> final(self).phase == Phase::Failed(Error::WriteFailed) && (
            a matches Action::Respond { response } && response.status == status_for(
                Error::WriteFailed,
            ) && response.body@ == message_for(Error::WriteFailed)),
    {
        if ok {
            self.phase = Phase::OpenPullRequest;
            let title = "New comment from ".to_owned().concat(self.comment.name.as_str());
            Action::OpenPullRequest { title, head: self.branch.clone(), base: base_branch() }
        } else {
            self.phase = Phase::Failed(Error::WriteFailed);
            Action::Respond { response: response_for_error(Error::WriteFailed) }
        }
    }

    /// The outcome of opening the pull request. Success completes the
    /// workflow with a created response; failure is fatal, and the branch
    /// and file changes are left in place.
    pub fn on_pr_opened(&mut self, ok: bool) -> (a: Action)
        requires
            old(self).phase is OpenPullRequest,
        ensures
            final(self).comment == old(self).comment,
            final(self).branch == old(self).branch,
            final(self).path == old(self).path,
            ok ==> final(self).phase is Completed && (a matches Action::Respond { response }
                && response.status == 201 && response.body@ == "That worked, now goeth forth"@),
            !ok ==> final(self).phase == Phase::Failed(Error::PullRequestFailed) && (
            a matches Action::Respond { response } && response.status == status_for(
                Error::PullRequestFailed,
            ) && response.body@ == message_for(Error::PullRequestFailed)),
    {
        if ok {
            self.phase = Phase::Completed;
            Action::Respond { response: success_response() }
        } else {
            self.phase = Phase::Failed(Error::PullRequestFailed);
            Action::Respond { response: response_for_error(Error::PullRequestFailed) }
        }
    }
}

} // verus!
