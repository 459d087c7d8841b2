use archivist::config::Repository;
use archivist::publisher::{
    Action, Event, GitPublisher, MergeAnalysis, Outcome, PublishError, Step, Transaction,
};

fn repo() -> Repository {
    Repository::new(
        "/srv/repo".to_string(),
        "s3cret".to_string(),
        "archiver".to_string(),
        "archiver@mail.com".to_string(),
    )
}

fn publisher() -> GitPublisher {
    GitPublisher::new("/home/bot/.ssh/id_ed25519".to_string())
}

const UP_TO_DATE: MergeAnalysis = MergeAnalysis { up_to_date: true, fast_forward: false };
const BEHIND: MergeAnalysis = MergeAnalysis { up_to_date: false, fast_forward: true };
const DIVERGED: MergeAnalysis = MergeAnalysis { up_to_date: false, fast_forward: false };

fn open() -> Transaction {
    let (transaction, action) =
        publisher().publish_file(&repo(), "invoices/0004", &"add invoice".to_string());
    assert_eq!(action, Action::Fetch { remote: "origin".to_string(), branch: "master".to_string() });
    transaction
}

fn proceed(step: Step) -> (Transaction, Action) {
    match step {
        Step::Continue(transaction, action) => (transaction, action),
        Step::Finished(outcome) => panic!("ended with {:?}", outcome),
    }
}

fn finish(step: Step) -> Outcome {
    match step {
        Step::Finished(outcome) => outcome,
        Step::Continue(_, action) => panic!("went on with {:?}", action),
    }
}

fn stage_action() -> Action {
    Action::Stage { path: "invoices/0004".to_string() }
}

fn commit_action() -> Action {
    Action::Commit {
        message: "add invoice".to_string(),
        author_name: "archiver".to_string(),
        author_email: "archiver@mail.com".to_string(),
    }
}

fn push_action() -> Action {
    Action::Push {
        remote: "origin".to_string(),
        refspec: "refs/heads/master:refs/heads/master".to_string(),
        ssh_key: "/home/bot/.ssh/id_ed25519".to_string(),
    }
}

#[test]
fn publish_runs_through_the_four_stages() {
    let p = publisher();
    let (t, action) = proceed(p.advance(open(), Event::Analysis(UP_TO_DATE)));
    assert_eq!(action, stage_action());
    let (t, action) = proceed(p.advance(t, Event::Done));
    assert_eq!(action, commit_action());
    let (t, action) = proceed(p.advance(t, Event::Committed("4b825dc6".to_string())));
    assert_eq!(action, push_action());
    assert_eq!(finish(p.advance(t, Event::Done)), Outcome::Published("4b825dc6".to_string()));
}

#[test]
fn publish_fast_forwards_where_the_remote_is_ahead() {
    let p = publisher();
    let (t, action) = proceed(p.advance(open(), Event::Analysis(BEHIND)));
    assert_eq!(action, Action::FastForward { reference: "refs/heads/master".to_string() });
    let (_, action) = proceed(p.advance(t, Event::Done));
    assert_eq!(action, stage_action());
}

#[test]
fn up_to_date_goes_before_fast_forward() {
    let both = MergeAnalysis { up_to_date: true, fast_forward: true };
    let (_, action) = proceed(publisher().advance(open(), Event::Analysis(both)));
    assert_eq!(action, stage_action());
}

#[test]
fn diverged_history_fails_without_commit_or_push() {
    assert_eq!(
        finish(publisher().advance(open(), Event::Analysis(DIVERGED))),
        Outcome::Failed(PublishError::SyncDiverged)
    );
}

#[test]
fn failed_fetch_is_a_sync_failure() {
    assert_eq!(
        finish(publisher().advance(open(), Event::Failed("no route to host".to_string()))),
        Outcome::Failed(PublishError::SyncFailed("no route to host".to_string()))
    );
}

#[test]
fn failed_fast_forward_is_a_sync_failure() {
    let p = publisher();
    let (t, _) = proceed(p.advance(open(), Event::Analysis(BEHIND)));
    assert_eq!(
        finish(p.advance(t, Event::Failed("checkout conflict".to_string()))),
        Outcome::Failed(PublishError::SyncFailed("checkout conflict".to_string()))
    );
}

#[test]
fn failed_stage_ends_before_the_commit() {
    let p = publisher();
    let (t, _) = proceed(p.advance(open(), Event::Analysis(UP_TO_DATE)));
    assert_eq!(
        finish(p.advance(t, Event::Failed("no such file".to_string()))),
        Outcome::Failed(PublishError::StageFailed("no such file".to_string()))
    );
}

#[test]
fn failed_commit_ends_before_the_push() {
    let p = publisher();
    let (t, _) = proceed(p.advance(open(), Event::Analysis(UP_TO_DATE)));
    let (t, _) = proceed(p.advance(t, Event::Done));
    assert_eq!(
        finish(p.advance(t, Event::Failed("empty ident".to_string()))),
        Outcome::Failed(PublishError::CommitFailed("empty ident".to_string()))
    );
}

#[test]
fn failed_push_reports_the_commit_that_stays() {
    let p = publisher();
    let mut commits = 0;
    let (t, action) = proceed(p.advance(open(), Event::Analysis(UP_TO_DATE)));
    commits += matches!(action, Action::Commit { .. }) as usize;
    let (t, action) = proceed(p.advance(t, Event::Done));
    commits += matches!(action, Action::Commit { .. }) as usize;
    let (t, action) = proceed(p.advance(t, Event::Committed("c0ffee".to_string())));
    commits += matches!(action, Action::Commit { .. }) as usize;
    assert_eq!(
        finish(p.advance(t, Event::Failed("permission denied".to_string()))),
        Outcome::Failed(PublishError::PushFailed {
            commit: "c0ffee".to_string(),
            cause: "permission denied".to_string(),
        })
    );
    assert_eq!(commits, 1);
}

#[test]
fn reply_that_does_not_answer_fails_the_stage() {
    let p = publisher();
    assert_eq!(
        finish(p.advance(open(), Event::Done)),
        Outcome::Failed(PublishError::SyncFailed("unexpected reply".to_string()))
    );
    let (t, _) = proceed(p.advance(open(), Event::Analysis(UP_TO_DATE)));
    assert_eq!(
        finish(p.advance(t, Event::Committed("x".to_string()))),
        Outcome::Failed(PublishError::StageFailed("unexpected reply".to_string()))
    );
    let (t, _) = proceed(p.advance(open(), Event::Analysis(UP_TO_DATE)));
    let (t, _) = proceed(p.advance(t, Event::Done));
    assert_eq!(
        finish(p.advance(t, Event::Done)),
        Outcome::Failed(PublishError::CommitFailed("unexpected reply".to_string()))
    );
    let (t, _) = proceed(p.advance(open(), Event::Analysis(UP_TO_DATE)));
    let (t, _) = proceed(p.advance(t, Event::Done));
    let (t, _) = proceed(p.advance(t, Event::Committed("c1".to_string())));
    assert_eq!(
        finish(p.advance(t, Event::Analysis(UP_TO_DATE))),
        Outcome::Failed(PublishError::PushFailed {
            commit: "c1".to_string(),
            cause: "unexpected reply".to_string(),
        })
    );
}

#[test]
fn update_ends_after_the_sync() {
    let p = publisher();
    let (t, action) = p.update_files(&repo());
    assert_eq!(action, Action::Fetch { remote: "origin".to_string(), branch: "master".to_string() });
    assert_eq!(finish(p.advance(t, Event::Analysis(UP_TO_DATE))), Outcome::Refreshed);

    let (t, _) = p.update_files(&repo());
    let (t, action) = proceed(p.advance(t, Event::Analysis(BEHIND)));
    assert_eq!(action, Action::FastForward { reference: "refs/heads/master".to_string() });
    assert_eq!(finish(p.advance(t, Event::Done)), Outcome::Refreshed);

    let (t, _) = p.update_files(&repo());
    assert_eq!(
        finish(p.advance(t, Event::Analysis(DIVERGED))),
        Outcome::Failed(PublishError::SyncDiverged)
    );
}

#[test]
fn tracked_branch_names_reference_and_refspec() {
    let p = GitPublisher::with_branch("key".to_string(), "main".to_string());
    assert_eq!(p.branch_reference(), "refs/heads/main");
    assert_eq!(p.push_refspec(), "refs/heads/main:refs/heads/main");
    let (t, action) = p.publish_file(&repo(), "f", &"m".to_string());
    assert_eq!(action, Action::Fetch { remote: "origin".to_string(), branch: "main".to_string() });
    let (t, _) = proceed(p.advance(t, Event::Analysis(UP_TO_DATE)));
    let (t, _) = proceed(p.advance(t, Event::Done));
    let (_, action) = proceed(p.advance(t, Event::Committed("id".to_string())));
    assert_eq!(
        action,
        Action::Push {
            remote: "origin".to_string(),
            refspec: "refs/heads/main:refs/heads/main".to_string(),
            ssh_key: "key".to_string(),
        }
    );
}
