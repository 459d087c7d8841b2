use archivist::archivist::{
    ArchivistImpl, BilloArchivist, Reply, Settings, Upload, UploadAction, UploadError, UploadEvent,
};
use archivist::categorizer::{Categorization, Category, CategoryConfig};
use archivist::config::{DirectoryError, RepositoryFactory};
use archivist::publisher::{Action, Event, MergeAnalysis, PublishError};

fn settings() -> Settings {
    Settings::from_environment(None, None, None, Some("/keys/id".to_string()))
}

fn archivist() -> BilloArchivist {
    ArchivistImpl::new(&settings(), r#"{"token": "/srv/docs"}"#).unwrap()
}

fn table() -> CategoryConfig {
    CategoryConfig::Table(Categorization {
        default_category: "misc/file".to_string(),
        categories: vec![Category {
            tags: vec!["invoice".to_string()],
            path_matcher: "invoices/+".to_string(),
        }],
    })
}

const UP_TO_DATE: MergeAnalysis = MergeAnalysis { up_to_date: true, fast_forward: false };
const DIVERGED: MergeAnalysis = MergeAnalysis { up_to_date: false, fast_forward: false };

fn say(action: UploadAction) -> Reply {
    match action {
        UploadAction::Say(reply) => reply,
        other => panic!("expected a reply, got {:?}", other),
    }
}

fn git(action: UploadAction) -> Action {
    match action {
        UploadAction::Git { repository, action } => {
            assert_eq!(repository, "/srv/docs");
            action
        }
        other => panic!("expected an action on the repository, got {:?}", other),
    }
}

/// Runs an ingest up to the reading of the category table.
fn refreshed(a: &BilloArchivist, caption: Option<&str>) -> Upload {
    let (upload, action) = a.upload_document(5, caption.map(|s| s.to_string()));
    assert!(matches!(action, UploadAction::ReadPinned));
    let (upload, action) = a.resume(upload, UploadEvent::Pinned(Some("/auth token".to_string())));
    assert!(matches!(action, UploadAction::FindFile));
    let (upload, action) = a.resume(upload, UploadEvent::Done);
    assert!(matches!(git(action), Action::Fetch { .. }));
    let (upload, action) = a.resume(upload, UploadEvent::Git(Event::Analysis(UP_TO_DATE)));
    assert!(matches!(
        action,
        UploadAction::ReadConfig { ref path } if path == "/srv/docs/categories.json"
    ));
    upload
}

#[test]
fn settings_take_defaults_where_unset() {
    let s = Settings::from_environment(None, None, None, None);
    assert_eq!(s.config_path, ".");
    assert_eq!(s.author_name, "archiver");
    assert_eq!(s.author_email, "archiver@mail.com");
    assert_eq!(s.ssh_key, "");
    let s = Settings::from_environment(
        Some("/etc/repos.json".to_string()),
        Some("bot".to_string()),
        Some("bot@example.org".to_string()),
        Some("/keys/id".to_string()),
    );
    assert_eq!(s.config_path, "/etc/repos.json");
    assert_eq!(s.author_name, "bot");
    assert_eq!(s.author_email, "bot@example.org");
    assert_eq!(s.ssh_key, "/keys/id");
}

#[test]
fn archivist_is_built_from_the_directory() {
    let a = archivist();
    let repo = a.repos.get_repository(&"token".to_string()).unwrap();
    assert_eq!(repo.path(), "/srv/docs");
    assert_eq!(repo.author_name(), "archiver");
    assert_eq!(a.publisher.push_refspec(), "refs/heads/master:refs/heads/master");
    assert_eq!(
        BilloArchivist::new(&settings(), "no json").err(),
        Some(DirectoryError::Malformed)
    );
}

#[test]
fn replies_have_their_words() {
    assert_eq!(Reply::AuthenticateFirst.text(), "Please authenticate first!");
    assert_eq!(Reply::IncorrectToken.text(), "Incorrect authentication token!");
    assert_eq!(Reply::PullFailed("x".to_string()).text(), "Pull failed: x");
    assert_eq!(Reply::Stored("a/b".to_string()).text(), "File stored at a/b");
    assert_eq!(Reply::Committed("c0ffee".to_string()).text(), "Commit: c0ffee");
    assert_eq!(Reply::CommitFailed("x".to_string()).text(), "Error during commit: x");
}

#[test]
fn errors_have_their_words() {
    assert_eq!(PublishError::SyncFailed("timeout".to_string()).describe(), "timeout");
    assert_eq!(PublishError::SyncDiverged.describe(), "Fast-forward only!");
    assert_eq!(PublishError::StageFailed("no file".to_string()).describe(), "no file");
    assert_eq!(PublishError::CommitFailed("no ident".to_string()).describe(), "no ident");
    assert_eq!(
        PublishError::PushFailed { commit: "c0ffee".to_string(), cause: "denied".to_string() }
            .describe(),
        "commit c0ffee was not pushed: denied"
    );
}

#[test]
fn chat_without_credentials_is_told_to_authenticate() {
    let a = archivist();
    let (upload, _) = a.upload_document(5, None);
    let (upload, action) = a.resume(upload, UploadEvent::Pinned(None));
    assert_eq!(say(action), Reply::AuthenticateFirst);
    let (_, action) = a.resume(upload, UploadEvent::Done);
    assert!(matches!(action, UploadAction::End));
}

#[test]
fn unknown_secret_is_refused() {
    let a = archivist();
    let (upload, _) = a.upload_document(5, None);
    let (_, action) = a.resume(upload, UploadEvent::Pinned(Some("/auth wrong".to_string())));
    assert_eq!(say(action), Reply::IncorrectToken);
}

#[test]
fn failed_refresh_is_reported() {
    let a = archivist();
    let (upload, _) = a.upload_document(5, None);
    let (upload, _) = a.resume(upload, UploadEvent::Pinned(Some("/auth token".to_string())));
    let (upload, _) = a.resume(upload, UploadEvent::Done);
    let (_, action) = a.resume(upload, UploadEvent::Git(Event::Analysis(DIVERGED)));
    assert_eq!(say(action), Reply::PullFailed("Fast-forward only!".to_string()));
}

#[test]
fn tagged_document_is_stored_and_published() {
    let a = archivist();
    let upload = refreshed(&a, Some("invoice"));
    let (upload, action) = a.resume(upload, UploadEvent::Config(table()));
    assert!(matches!(action, UploadAction::List { ref directory } if directory == "/srv/docs/invoices"));
    let names = vec!["0001".to_string(), "0002".to_string(), "0003".to_string()];
    let (upload, action) = a.resume(upload, UploadEvent::Listing(Some(names)));
    assert!(matches!(
        action,
        UploadAction::Store { ref repository, ref target }
            if repository == "/srv/docs" && target == "invoices/0004"
    ));
    let (upload, action) = a.resume(upload, UploadEvent::Done);
    assert_eq!(say(action), Reply::Stored("invoices/0004".to_string()));
    let (upload, action) = a.resume(upload, UploadEvent::Done);
    assert!(matches!(
        action,
        UploadAction::FetchPage { ref url } if url == "https://whatthecommit.com/"
    ));
    let page = "<div id=\"content\">\n<p>it works on my machine\n</p></div>";
    let (upload, action) = a.resume(upload, UploadEvent::Page(Some(page.to_string())));
    assert!(matches!(git(action), Action::Fetch { .. }));
    let (upload, action) = a.resume(upload, UploadEvent::Git(Event::Analysis(UP_TO_DATE)));
    assert_eq!(git(action), Action::Stage { path: "invoices/0004".to_string() });
    let (upload, action) = a.resume(upload, UploadEvent::Git(Event::Done));
    assert_eq!(
        git(action),
        Action::Commit {
            message: "it works on my machine".to_string(),
            author_name: "archiver".to_string(),
            author_email: "archiver@mail.com".to_string(),
        }
    );
    let (upload, action) = a.resume(upload, UploadEvent::Git(Event::Committed("abc123".to_string())));
    assert_eq!(
        git(action),
        Action::Push {
            remote: "origin".to_string(),
            refspec: "refs/heads/master:refs/heads/master".to_string(),
            ssh_key: "/keys/id".to_string(),
        }
    );
    let (upload, action) = a.resume(upload, UploadEvent::Git(Event::Done));
    assert_eq!(say(action), Reply::Committed("abc123".to_string()));
    let (upload, action) = a.resume(upload, UploadEvent::Done);
    assert!(matches!(action, UploadAction::End));
    let (_, action) = a.resume(upload, UploadEvent::Done);
    assert!(matches!(action, UploadAction::End));
}

#[test]
fn failed_push_is_reported_with_the_commit() {
    let a = archivist();
    let upload = refreshed(&a, None);
    let (upload, action) = a.resume(upload, UploadEvent::Config(CategoryConfig::Missing));
    assert!(matches!(action, UploadAction::Store { ref target, .. } if target == "tmp.pdf"));
    let (upload, _) = a.resume(upload, UploadEvent::Done);
    let (upload, _) = a.resume(upload, UploadEvent::Done);
    let (upload, _) = a.resume(upload, UploadEvent::Page(None));
    let (upload, _) = a.resume(upload, UploadEvent::Git(Event::Analysis(UP_TO_DATE)));
    let (upload, action) = a.resume(upload, UploadEvent::Git(Event::Done));
    assert!(matches!(git(action), Action::Commit { ref message, .. } if message.is_empty()));
    let (upload, _) = a.resume(upload, UploadEvent::Git(Event::Committed("abc".to_string())));
    let (_, action) = a.resume(upload, UploadEvent::Git(Event::Failed("denied".to_string())));
    assert_eq!(
        say(action),
        Reply::CommitFailed("commit abc was not pushed: denied".to_string())
    );
}

#[test]
fn malformed_table_gives_the_ingest_up() {
    let a = archivist();
    let upload = refreshed(&a, Some("invoice"));
    let (_, action) = a.resume(upload, UploadEvent::Config(CategoryConfig::Invalid));
    assert!(matches!(action, UploadAction::Abort(UploadError::ConfigInvalid)));
}

#[test]
fn unavailable_directory_gives_the_ingest_up() {
    let a = archivist();
    let upload = refreshed(&a, Some("invoice"));
    let (upload, _) = a.resume(upload, UploadEvent::Config(table()));
    let (_, action) = a.resume(upload, UploadEvent::Listing(None));
    assert!(matches!(
        action,
        UploadAction::Abort(UploadError::DirectoryUnavailable(ref d)) if d == "/srv/docs/invoices"
    ));
}

#[test]
fn failed_action_interrupts_the_ingest() {
    let a = archivist();
    let (upload, _) = a.upload_document(5, None);
    let (upload, action) = a.resume(upload, UploadEvent::Failed);
    assert!(matches!(action, UploadAction::Abort(UploadError::Interrupted)));
    let (_, action) = a.resume(upload, UploadEvent::Done);
    assert!(matches!(action, UploadAction::End));

    let upload = refreshed(&a, None);
    let (_, action) = a.resume(upload, UploadEvent::Listing(None));
    assert!(matches!(action, UploadAction::Abort(UploadError::Interrupted)));
}
