use noteworthy::error::RepositoryError;
use noteworthy::repository::{conclude, read_report, Operation, Repository, SyncOutcome};

#[test]
fn validate_remote_url_accepts_ssh_references() {
    assert!(Repository::validate_remote_url("git@github.com:SeaDve/test.git"));
    assert!(Repository::validate_remote_url("git@github.com:SeaDve/test"));
    assert!(Repository::validate_remote_url("git@github.com:SeaDve/test.git/"));
    assert!(Repository::validate_remote_url("me@example.org/notes.git"));
    assert!(Repository::validate_remote_url("user.name@host-1.example.com:~user/notes.git"));
}

#[test]
fn validate_remote_url_rejects_what_is_none() {
    assert!(!Repository::validate_remote_url(""));
    assert!(!Repository::validate_remote_url("https://github.com/SeaDve/test.git"));
    assert!(!Repository::validate_remote_url("github.com:SeaDve/test.git"));
    assert!(!Repository::validate_remote_url("git@github.com"));
    assert!(!Repository::validate_remote_url("git@github.com:"));
    assert!(!Repository::validate_remote_url("@github.com:a.git"));
    assert!(!Repository::validate_remote_url("git@:a.git"));
    assert!(!Repository::validate_remote_url("git@github.com:a b.git"));
    assert!(!Repository::validate_remote_url("see git@github.com:a.git here"));
}

#[test]
fn accepts_remote_url_goes_by_the_match() {
    assert!(Repository::accepts_remote_url("x", Some(true)));
    assert!(!Repository::accepts_remote_url("x", Some(false)));
    assert!(!Repository::accepts_remote_url("x", None));
    assert!(!Repository::accepts_remote_url("", Some(true)));
}

#[test]
fn clone_validates_the_url_first() {
    let repository = Repository::new("/notes");
    assert_eq!(repository.base_path(), "/notes");
    assert_eq!(
        repository.clone("not a url".to_string(), "pw".to_string()).err(),
        Some(RepositoryError::InvalidRemoteUrl)
    );
    assert_eq!(
        repository.clone(String::new(), "pw".to_string()).err(),
        Some(RepositoryError::InvalidRemoteUrl)
    );
    let request = repository.clone("git@host:me/notes.git".to_string(), "pw".to_string()).unwrap();
    assert_eq!(request.operation, Operation::Clone);
    assert_eq!(request.path, "/notes");
    assert_eq!(request.subject, "git@host:me/notes.git");
    assert_eq!(request.passphrase, "pw");
}

#[test]
fn requests_say_what_to_run() {
    let repository = Repository::new("/notes");
    let request = repository.fetch("origin".to_string(), "pw".to_string());
    assert_eq!(request.operation, Operation::Fetch);
    assert_eq!(request.subject, "origin");
    assert_eq!(request.passphrase, "pw");
    let request = repository.push("origin".to_string(), "pw".to_string());
    assert_eq!(request.operation, Operation::Push);
    assert_eq!(request.path, "/notes");
    let request = repository.merge("origin/main".to_string());
    assert_eq!(request.operation, Operation::Merge);
    assert_eq!(request.subject, "origin/main");
    assert_eq!(request.passphrase, "");
    assert_eq!(request.author_name, "NoteworthyApp");
    assert_eq!(request.author_email, "app@noteworthy.io");
    let request = repository.commit("Sync commit".to_string());
    assert_eq!(request.operation, Operation::Commit);
    assert_eq!(request.subject, "Sync commit");
    assert_eq!(request.author_name, "NoteworthyApp");
    assert_eq!(request.author_email, "app@noteworthy.io");
}

#[test]
fn open_wants_a_history() {
    assert_eq!(Repository::open("/notes", false).err(), Some(RepositoryError::NotARepository));
    assert_eq!(Repository::open("/notes", true).unwrap().base_path(), "/notes");
}

#[test]
fn conclude_names_each_failure() {
    assert_eq!(conclude(Operation::Clone, SyncOutcome::Done), Ok(()));
    assert_eq!(
        conclude(Operation::Fetch, SyncOutcome::AuthenticationRejected),
        Err(RepositoryError::AuthenticationFailed)
    );
    assert_eq!(
        conclude(Operation::Push, SyncOutcome::NoRepository),
        Err(RepositoryError::NotARepository)
    );
    assert_eq!(conclude(Operation::Merge, SyncOutcome::Conflict), Err(RepositoryError::MergeConflict));
    assert_eq!(conclude(Operation::Push, SyncOutcome::Conflict), Err(RepositoryError::IoError));
    assert_eq!(
        conclude(Operation::Commit, SyncOutcome::NothingChanged),
        Err(RepositoryError::NothingToCommit)
    );
    assert_eq!(conclude(Operation::Merge, SyncOutcome::NothingChanged), Err(RepositoryError::IoError));
    assert_eq!(conclude(Operation::Clone, SyncOutcome::Failure), Err(RepositoryError::IoError));
}

#[test]
fn read_report_finds_what_the_tool_named() {
    assert_eq!(read_report(true, "CONFLICT"), SyncOutcome::Done);
    assert_eq!(read_report(true, ""), SyncOutcome::Done);
    assert_eq!(
        read_report(false, "git@host: Permission denied (publickey).\nfatal: Could not read"),
        SyncOutcome::AuthenticationRejected
    );
    assert_eq!(
        read_report(false, "fatal: Authentication failed for 'x'"),
        SyncOutcome::AuthenticationRejected
    );
    assert_eq!(
        read_report(false, "fatal: not a git repository (or any of the parent directories): .git"),
        SyncOutcome::NoRepository
    );
    assert_eq!(
        read_report(false, "CONFLICT (content): Merge conflict in a.md"),
        SyncOutcome::Conflict
    );
    assert_eq!(
        read_report(false, "Automatic merge failed; fix conflicts and then commit the result."),
        SyncOutcome::Conflict
    );
    assert_eq!(
        read_report(false, "On branch main\nnothing to commit, working tree clean"),
        SyncOutcome::NothingChanged
    );
    assert_eq!(
        read_report(false, "nothing added to commit but untracked files present"),
        SyncOutcome::NothingChanged
    );
    assert_eq!(read_report(false, "fatal: unable to access"), SyncOutcome::Failure);
    assert_eq!(read_report(false, ""), SyncOutcome::Failure);
    assert_eq!(read_report(false, "conflict"), SyncOutcome::Failure);
    assert_eq!(
        read_report(false, "not a git repository; Permission denied"),
        SyncOutcome::AuthenticationRejected
    );
}

fn words(step: &[&str]) -> Vec<String> {
    step.iter().map(|word| word.to_string()).collect()
}

#[test]
fn steps_are_the_commands_to_run() {
    let repository = Repository::new("/notes");
    let request = repository.clone("git@host:me/notes.git".to_string(), "pw".to_string()).unwrap();
    assert_eq!(request.steps(), vec![words(&["clone", "git@host:me/notes.git", "/notes"])]);
    let request = repository.fetch("origin".to_string(), "pw".to_string());
    assert_eq!(request.steps(), vec![words(&["-C", "/notes", "fetch", "origin"])]);
    let request = repository.push("origin".to_string(), "pw".to_string());
    assert_eq!(request.steps(), vec![words(&["-C", "/notes", "push", "origin"])]);
    let request = repository.merge("origin/main".to_string());
    assert_eq!(
        request.steps(),
        vec![words(&[
            "-C",
            "/notes",
            "-c",
            "user.name=NoteworthyApp",
            "-c",
            "user.email=app@noteworthy.io",
            "merge",
            "--no-edit",
            "origin/main",
        ])]
    );
    let request = repository.commit("Sync commit".to_string());
    assert_eq!(
        request.steps(),
        vec![
            words(&["-C", "/notes", "add", "--all"]),
            words(&[
                "-C",
                "/notes",
                "-c",
                "user.name=NoteworthyApp",
                "-c",
                "user.email=app@noteworthy.io",
                "commit",
                "--author",
                "NoteworthyApp <app@noteworthy.io>",
                "--message",
                "Sync commit",
            ]),
        ]
    );
}
