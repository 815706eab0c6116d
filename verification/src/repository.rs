//! The repository behind a store: which operations are asked of the
//! version control tool, and what their outcomes mean.
//!
//! The library performs none of the operations. It validates what can be
//! validated, says exactly what is to be run, and maps what the tool
//! reported to a failure of its own. Running an operation blocks; the
//! caller runs it off its own thread, one operation per repository at a
//! time.

use crate::error::RepositoryError;
use crate::pattern::{pattern_matches, regex_match};
use crate::text::{occurs_in, text_contains, views_of};
use vstd::string::StringExecFns;
use vstd::prelude::*;

verus! {

/// The pattern of a remote reference in the SSH style: a user, `@`, a
/// host, a colon or a slash, and a path that may end in `.git`.
pub const REMOTE_URL_PATTERN: &'static str = r"^[\w.\-]+@[\w.\-]+[:/][\w.@:/~\-]+?(\.git)?/?$";

/// The name under which commits and merges are made.
pub const DEFAULT_AUTHOR_NAME: &'static str = "NoteworthyApp";

/// The address under which commits and merges are made.
pub const DEFAULT_AUTHOR_EMAIL: &'static str = "app@noteworthy.io";

/// Whether a remote URL is accepted, given what matching it against the
/// pattern gave: it is not empty and the pattern matched.
pub open spec fn remote_url_accepted(remote_url: Seq<char>, matched: Option<bool>) -> bool {
    remote_url.len() > 0 && matched == Some(true)
}

/// The operations that are asked of the version control tool.
#[derive(Clone, Copy, Debug, PartialEq, Eq, Structural)]
pub enum Operation {
    Clone,
    Fetch,
    Push,
    Merge,
    Commit,
}

/// One operation to run: on the working copy at `path`, with `subject`
/// the remote URL of a clone, the remote name of a fetch or a push, the
/// source branch of a merge, the message of a commit. The passphrase is
/// for this one operation and is not kept.
pub struct SyncRequest {
    pub operation: Operation,
    pub path: String,
    pub subject: String,
    pub passphrase: String,
    pub author_name: String,
    pub author_email: String,
}

impl SyncRequest {
    /// Whether this is the request for `operation` on `path` with
    /// `subject`, under `passphrase` and in the name of the author given.
    pub open spec fn is(
        &self,
        operation: Operation,
        path: Seq<char>,
        subject: Seq<char>,
        passphrase: Seq<char>,
        author_name: Seq<char>,
        author_email: Seq<char>,
    ) -> bool {
        &&& self.operation == operation
        &&& self.path@ == path
        &&& self.subject@ == subject
        &&& self.passphrase@ == passphrase
        &&& self.author_name@ == author_name
        &&& self.author_email@ == author_email
    }
}

/// What the version control tool reported of an operation.
#[derive(Clone, Copy, Debug, PartialEq, Eq, Structural)]
pub enum SyncOutcome {
    /// The operation was carried out.
    Done,
    /// The remote rejected the passphrase.
    AuthenticationRejected,
    /// The directory has no history under version control.
    NoRepository,
    /// A merge stopped at a conflict.
    Conflict,
    /// A commit found nothing changed.
    NothingChanged,
    /// Anything else went wrong.
    Failure,
}

/// The views of the arguments of a sequence of commands.
pub open spec fn step_views(steps: Seq<Vec<String>>) -> Seq<Seq<Seq<char>>> {
    steps.map_values(|step: Vec<String>| views_of(step@))
}

/// The arguments that make the tool work in the directory of `request`.
pub open spec fn inside_of(request: &SyncRequest) -> Seq<Seq<char>> {
    seq!["-C"@, request.path@]
}

/// The arguments that make the tool act in the name of the author of
/// `request`.
pub open spec fn identity_of(request: &SyncRequest) -> Seq<Seq<char>> {
    seq![
        "-c"@,
        "user.name="@ + request.author_name@,
        "-c"@,
        "user.email="@ + request.author_email@,
    ]
}

/// The author of `request` as a commit is given it: the name, and the
/// address in angle brackets.
pub open spec fn author_of(request: &SyncRequest) -> Seq<char> {
    request.author_name@ + " <"@ + request.author_email@ + ">"@
}

/// The commands of the version control tool that carry out `request`,
/// each by its arguments, in the order in which they are run: one command
/// for every operation but a commit, which first stages every change of
/// the working tree and then commits.
pub open spec fn steps_of(request: &SyncRequest) -> Seq<Seq<Seq<char>>> {
    match request.operation {
        Operation::Clone => seq![seq!["clone"@, request.subject@, request.path@]],
        Operation::Fetch => seq![inside_of(request) + seq!["fetch"@, request.subject@]],
        Operation::Push => seq![inside_of(request) + seq!["push"@, request.subject@]],
        Operation::Merge => seq![
            inside_of(request) + identity_of(request) + seq![
                "merge"@,
                "--no-edit"@,
                request.subject@,
            ],
        ],
        Operation::Commit => seq![
            inside_of(request) + seq!["add"@, "--all"@],
            inside_of(request) + identity_of(request) + seq![
                "commit"@,
                "--author"@,
                author_of(request),
                "--message"@,
                request.subject@,
            ],
        ],
    }
}

/// What the version control tool reported, read from whether it ended
/// well and from what it said: a tool that ended well has done the
/// operation; of one that did not, what it said is searched for the
/// phrases by which it names a rejected passphrase, a missing repository,
/// a conflict and an unchanged working tree, in this order.
pub open spec fn reported_outcome(succeeded: bool, said: Seq<char>) -> SyncOutcome {
    if succeeded {
        SyncOutcome::Done
    } else if occurs_in("Permission denied"@, said) || occurs_in("Authentication failed"@, said) {
        SyncOutcome::AuthenticationRejected
    } else if occurs_in("not a git repository"@, said) {
        SyncOutcome::NoRepository
    } else if occurs_in("CONFLICT"@, said) || occurs_in("Automatic merge failed"@, said) {
        SyncOutcome::Conflict
    } else if occurs_in("nothing to commit"@, said) || occurs_in("nothing added to commit"@, said) {
        SyncOutcome::NothingChanged
    } else {
        SyncOutcome::Failure
    }
}

impl SyncRequest {
    /// The arguments that make the tool work in the directory of the
    /// request, and where `named` in the name of its author.
    fn preamble(&self, named: bool) -> (arguments: Vec<String>)
        ensures
            views_of(arguments@) == if named {
                inside_of(self) + identity_of(self)
            } else {
                inside_of(self)
            },
    {
        let mut arguments: Vec<String> = Vec::new();
        arguments.push(String::from_str("-C"));
        arguments.push(self.path.clone());
        if named {
            arguments.push(String::from_str("-c"));
            arguments.push(String::from_str("user.name=").concat(self.author_name.as_str()));
            arguments.push(String::from_str("-c"));
            arguments.push(String::from_str("user.email=").concat(self.author_email.as_str()));
            assert(views_of(arguments@) =~= inside_of(self) + identity_of(self));
        } else {
            assert(views_of(arguments@) =~= inside_of(self));
        }
        arguments
    }

    /// The commands of the version control tool that carry out the
    /// request, each by its arguments, in the order in which they are run.
    pub fn steps(&self) -> (steps: Vec<Vec<String>>)
        ensures
            step_views(steps@) == steps_of(self),
    {
        let mut steps: Vec<Vec<String>> = Vec::new();
        match self.operation {
            Operation::Clone => {
                let mut step: Vec<String> = Vec::new();
                step.push(String::from_str("clone"));
                step.push(self.subject.clone());
                step.push(self.path.clone());
                assert(views_of(step@) =~= seq!["clone"@, self.subject@, self.path@]);
                steps.push(step);
            },
            Operation::Fetch => {
                let mut step = self.preamble(false);
                step.push(String::from_str("fetch"));
                step.push(self.subject.clone());
                assert(views_of(step@) =~= inside_of(self) + seq!["fetch"@, self.subject@]);
                steps.push(step);
            },
            Operation::Push => {
                let mut step = self.preamble(false);
                step.push(String::from_str("push"));
                step.push(self.subject.clone());
                assert(views_of(step@) =~= inside_of(self) + seq!["push"@, self.subject@]);
                steps.push(step);
            },
            Operation::Merge => {
                let mut step = self.preamble(true);
                step.push(String::from_str("merge"));
                step.push(String::from_str("--no-edit"));
                step.push(self.subject.clone());
                assert(views_of(step@) =~= inside_of(self) + identity_of(self) + seq![
                    "merge"@,
                    "--no-edit"@,
                    self.subject@,
                ]);
                steps.push(step);
            },
            Operation::Commit => {
                let mut stage = self.preamble(false);
                stage.push(String::from_str("add"));
                stage.push(String::from_str("--all"));
                assert(views_of(stage@) =~= inside_of(self) + seq!["add"@, "--all"@]);
                steps.push(stage);
                let author = self.author_name.clone().concat(" <").concat(
                    self.author_email.as_str(),
                ).concat(">");
                let mut step = self.preamble(true);
                step.push(String::from_str("commit"));
                step.push(String::from_str("--author"));
                step.push(author);
                step.push(String::from_str("--message"));
                step.push(self.subject.clone());
                assert(views_of(step@) =~= inside_of(self) + identity_of(self) + seq![
                    "commit"@,
                    "--author"@,
                    author_of(self),
                    "--message"@,
                    self.subject@,
                ]);
                steps.push(step);
            },
        }
        assert(step_views(steps@) =~= steps_of(self));
        steps
    }
}

/// What the version control tool reported, read from whether it ended
/// well and from what it said.
pub fn read_report(succeeded: bool, said: &str) -> (outcome: SyncOutcome)
    ensures
        outcome == reported_outcome(succeeded, said@),
{
    if succeeded {
        SyncOutcome::Done
    } else if text_contains(said, "Permission denied") || text_contains(
        said,
        "Authentication failed",
    ) {
        SyncOutcome::AuthenticationRejected
    } else if text_contains(said, "not a git repository") {
        SyncOutcome::NoRepository
    } else if text_contains(said, "CONFLICT") || text_contains(said, "Automatic merge failed") {
        SyncOutcome::Conflict
    } else if text_contains(said, "nothing to commit") || text_contains(
        said,
        "nothing added to commit",
    ) {
        SyncOutcome::NothingChanged
    } else {
        SyncOutcome::Failure
    }
}

/// What an outcome means for the caller of `operation`. A conflict is a
/// failure of its own only for a merge, and an unchanged working tree only
/// for a commit; reported of another operation they are failures like any
/// other.
pub open spec fn conclusion(operation: Operation, outcome: SyncOutcome) -> Result<
    (),
    RepositoryError,
> {
    match outcome {
        SyncOutcome::Done => Ok(()),
        SyncOutcome::AuthenticationRejected => Err(RepositoryError::AuthenticationFailed),
        SyncOutcome::NoRepository => Err(RepositoryError::NotARepository),
        SyncOutcome::Conflict => if operation == Operation::Merge {
            Err(RepositoryError::MergeConflict)
        } else {
            Err(RepositoryError::IoError)
        },
        SyncOutcome::NothingChanged => if operation == Operation::Commit {
            Err(RepositoryError::NothingToCommit)
        } else {
            Err(RepositoryError::IoError)
        },
        SyncOutcome::Failure => Err(RepositoryError::IoError),
    }
}

/// What an outcome means for the caller of `operation`.
pub fn conclude(operation: Operation, outcome: SyncOutcome) -> (result: Result<(), RepositoryError>)
    ensures
        result == conclusion(operation, outcome),
{
    match outcome {
        SyncOutcome::Done => Ok(()),
        SyncOutcome::AuthenticationRejected => Err(RepositoryError::AuthenticationFailed),
        SyncOutcome::NoRepository => Err(RepositoryError::NotARepository),
        SyncOutcome::Conflict => match operation {
            Operation::Merge => Err(RepositoryError::MergeConflict),
            _ => Err(RepositoryError::IoError),
        },
        SyncOutcome::NothingChanged => match operation {
            Operation::Commit => Err(RepositoryError::NothingToCommit),
            _ => Err(RepositoryError::IoError),
        },
        SyncOutcome::Failure => Err(RepositoryError::IoError),
    }
}

/// A working copy under version control, known by its directory.
#[derive(Debug)]
pub struct Repository {
    base_path: String,
}

impl View for Repository {
    type V = Seq<char>;

    /// The directory of the working copy.
    closed spec fn view(&self) -> Seq<char> {
        self.base_path@
    }
}

impl Repository {
    /// The repository in the directory `base_path`.
    pub fn new(base_path: &str) -> (repository: Repository)
        ensures
            repository@ == base_path@,
    {
        Repository { base_path: base_path.to_owned() }
    }

    /// The repository in the directory `base_path`, where the directory
    /// has a history under version control.
    pub fn open(base_path: &str, has_history: bool) -> (result: Result<Repository, RepositoryError>)
        ensures
            match result {
                Ok(repository) => has_history && repository@ == base_path@,
                Err(error) => !has_history && error == RepositoryError::NotARepository,
            },
    {
        if has_history {
            Ok(Repository::new(base_path))
        } else {
            Err(RepositoryError::NotARepository)
        }
    }

    /// Whether a remote URL is accepted, given what matching it against
    /// the pattern gave.
    pub fn accepts_remote_url(remote_url: &str, matched: Option<bool>) -> (accepted: bool)
        ensures
            accepted == remote_url_accepted(remote_url@, matched),
    {
        if remote_url.is_empty() {
            return false;
        }
        match matched {
            Some(found) => found,
            None => false,
        }
    }

    /// Whether `remote_url` is a remote reference in the SSH style. The
    /// empty text never is.
    pub fn validate_remote_url(remote_url: &str) -> (valid: bool)
        ensures
            valid == remote_url_accepted(
                remote_url@,
                regex_match(REMOTE_URL_PATTERN@, remote_url@),
            ),
            remote_url@.len() == 0 ==> !valid,
    {
        Repository::accepts_remote_url(remote_url, pattern_matches(REMOTE_URL_PATTERN, remote_url))
    }

    /// The directory of the working copy.
    pub fn base_path(&self) -> (base_path: &str)
        ensures
            base_path@ == self@,
    {
        self.base_path.as_str()
    }

    /// The request with the fields given.
    fn request(&self, operation: Operation, subject: String, passphrase: String) -> (request:
        SyncRequest)
        ensures
            request.is(
                operation,
                self@,
                subject@,
                passphrase@,
                DEFAULT_AUTHOR_NAME@,
                DEFAULT_AUTHOR_EMAIL@,
            ),
    {
        SyncRequest {
            operation,
            path: self.base_path.clone(),
            subject,
            passphrase,
            author_name: DEFAULT_AUTHOR_NAME.to_owned(),
            author_email: DEFAULT_AUTHOR_EMAIL.to_owned(),
        }
    }

    /// The request to clone `remote_url` into the directory, or the
    /// refusal of a URL that is not valid.
    pub fn clone(&self, remote_url: String, passphrase: String) -> (result: Result<
        SyncRequest,
        RepositoryError,
    >)
        ensures
            match result {
                Ok(request) => {
                    &&& remote_url_accepted(
                        remote_url@,
                        regex_match(REMOTE_URL_PATTERN@, remote_url@),
                    )
                    &&& request.is(
                        Operation::Clone,
                        self@,
                        remote_url@,
                        passphrase@,
                        DEFAULT_AUTHOR_NAME@,
                        DEFAULT_AUTHOR_EMAIL@,
                    )
                },
                Err(error) => {
                    &&& error == RepositoryError::InvalidRemoteUrl
                    &&& !remote_url_accepted(
                        remote_url@,
                        regex_match(REMOTE_URL_PATTERN@, remote_url@),
                    )
                },
            },
    {
        if !Repository::validate_remote_url(remote_url.as_str()) {
            return Err(RepositoryError::InvalidRemoteUrl);
        }
        Ok(self.request(Operation::Clone, remote_url, passphrase))
    }

    /// The request to push to the remote `remote_name`.
    pub fn push(&self, remote_name: String, passphrase: String) -> (request: SyncRequest)
        ensures
            request.is(
                Operation::Push,
                self@,
                remote_name@,
                passphrase@,
                DEFAULT_AUTHOR_NAME@,
                DEFAULT_AUTHOR_EMAIL@,
            ),
    {
        self.request(Operation::Push, remote_name, passphrase)
    }

    /// The request to stage every change of the working tree and commit
    /// it with `message`, in the name of the default author.
    pub fn commit(&self, message: String) -> (request: SyncRequest)
        ensures
            request.is(
                Operation::Commit,
                self@,
                message@,
                Seq::empty(),
                DEFAULT_AUTHOR_NAME@,
                DEFAULT_AUTHOR_EMAIL@,
            ),
    {
        self.request(Operation::Commit, message, String::new())
    }

    /// The request to fetch from the remote `remote_name`.
    pub fn fetch(&self, remote_name: String, passphrase: String) -> (request: SyncRequest)
        ensures
            request.is(
                Operation::Fetch,
                self@,
                remote_name@,
                passphrase@,
                DEFAULT_AUTHOR_NAME@,
                DEFAULT_AUTHOR_EMAIL@,
            ),
    {
        self.request(Operation::Fetch, remote_name, passphrase)
    }

    /// The request to merge `source_branch` into the current branch, in
    /// the name of the default author.
    pub fn merge(&self, source_branch: String) -> (request: SyncRequest)
        ensures
            request.is(
                Operation::Merge,
                self@,
                source_branch@,
                Seq::empty(),
                DEFAULT_AUTHOR_NAME@,
                DEFAULT_AUTHOR_EMAIL@,
            ),
    {
        self.request(Operation::Merge, source_branch, String::new())
    }
}

} // verus!
