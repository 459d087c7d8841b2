//! Publishing: the transaction that records one file in a repository. It
//! runs through four stages in order (sync with the remote, stage the file,
//! commit, push) and ends at the first one that fails. The work on the
//! repository is done by the caller: a transaction names the action to
//! perform, takes the reply, and decides what comes next.

use vstd::prelude::*;
use vstd::string::*;
use crate::config::{Repository, RepositoryView};

verus! {

/// How the fetched history relates to the local branch.
#[derive(Clone, Copy, Debug, PartialEq, Eq, Structural)]
pub struct MergeAnalysis {
    /// The local branch holds everything that was fetched.
    pub up_to_date: bool,
    /// The local branch can be moved forward to what was fetched.
    pub fast_forward: bool,
}

/// Why a transaction failed: the stage that failed, with its cause.
#[derive(Debug, PartialEq, Eq)]
pub enum PublishError {
    /// The remote could not be fetched from, or the working tree could not
    /// be brought forward.
    SyncFailed(String),
    /// The histories of the remote and of the local branch have diverged.
    SyncDiverged,
    /// The file could not be added to the index.
    StageFailed(String),
    /// The commit could not be created.
    CommitFailed(String),
    /// The commit was created but could not be pushed: it stays in the local
    /// repository, unpushed.
    PushFailed { commit: String, cause: String },
}

/// A [`PublishError`] as plain values.
pub enum PublishErrorView {
    SyncFailed(Seq<char>),
    SyncDiverged,
    StageFailed(Seq<char>),
    CommitFailed(Seq<char>),
    PushFailed { commit: Seq<char>, cause: Seq<char> },
}

impl View for PublishError {
    type V = PublishErrorView;

    open spec fn view(&self) -> PublishErrorView {
        match *self {
            PublishError::SyncFailed(cause) => PublishErrorView::SyncFailed(cause@),
            PublishError::SyncDiverged => PublishErrorView::SyncDiverged,
            PublishError::StageFailed(cause) => PublishErrorView::StageFailed(cause@),
            PublishError::CommitFailed(cause) => PublishErrorView::CommitFailed(cause@),
            PublishError::PushFailed { commit, cause } => PublishErrorView::PushFailed {
                commit: commit@,
                cause: cause@,
            },
        }
    }
}

/// The words that divergence is reported in.
pub open spec fn diverged_text() -> Seq<char> {
    "Fast-forward only!"@
}

/// An error in words, for the one who sent the file: the cause as the failed
/// action gave it, a fixed text for diverged histories, and for a failed
/// push the commit that stays unpushed, before the cause.
pub open spec fn description(error: PublishErrorView) -> Seq<char> {
    match error {
        PublishErrorView::SyncFailed(cause) => cause,
        PublishErrorView::SyncDiverged => diverged_text(),
        PublishErrorView::StageFailed(cause) => cause,
        PublishErrorView::CommitFailed(cause) => cause,
        PublishErrorView::PushFailed { commit, cause } => "commit "@ + commit + " was not pushed: "@
            + cause,
    }
}

impl PublishError {
    /// The error in words.
    pub fn describe(&self) -> (words: String)
        ensures
            words@ == description(self@),
    {
        match self {
            PublishError::SyncFailed(cause) => cause.clone(),
            PublishError::SyncDiverged => String::from_str("Fast-forward only!"),
            PublishError::StageFailed(cause) => cause.clone(),
            PublishError::CommitFailed(cause) => cause.clone(),
            PublishError::PushFailed { commit, cause } => {
                let mut words = String::from_str("commit ");
                words.append(commit.as_str());
                words.append(" was not pushed: ");
                words.append(cause.as_str());
                words
            },
        }
    }
}

/// How a transaction ended.
#[derive(Debug, PartialEq, Eq)]
pub enum Outcome {
    /// The working tree is in step with the remote; nothing was committed.
    Refreshed,
    /// The file was committed and pushed: the identifier of the commit.
    Published(String),
    /// A stage failed, and the stages after it were not begun.
    Failed(PublishError),
}

/// An [`Outcome`] as plain values.
pub enum OutcomeView {
    Refreshed,
    Published(Seq<char>),
    Failed(PublishErrorView),
}

impl View for Outcome {
    type V = OutcomeView;

    open spec fn view(&self) -> OutcomeView {
        match *self {
            Outcome::Refreshed => OutcomeView::Refreshed,
            Outcome::Published(commit) => OutcomeView::Published(commit@),
            Outcome::Failed(error) => OutcomeView::Failed(error@),
        }
    }
}

/// What the caller is to do on the repository next.
#[derive(Debug, PartialEq, Eq)]
pub enum Action {
    /// Fetch `branch` from `remote` and analyse what was fetched against the
    /// local branch. Reply with the analysis.
    Fetch { remote: String, branch: String },
    /// Set `reference` to the fetched commit, make it the head, and check
    /// the head out over the working tree, by force.
    FastForward { reference: String },
    /// Add the file at `path`, relative to the repository, to the index and
    /// write the tree of the index.
    Stage { path: String },
    /// Commit the tree just written on top of the head, with `message`,
    /// authored and committed by the given identity. Reply with the
    /// identifier of the commit.
    Commit { message: String, author_name: String, author_email: String },
    /// Push `refspec` to `remote`, with the private key at `ssh_key` as
    /// credential.
    Push { remote: String, refspec: String, ssh_key: String },
}

/// An [`Action`] as plain values.
pub enum ActionView {
    Fetch { remote: Seq<char>, branch: Seq<char> },
    FastForward { reference: Seq<char> },
    Stage { path: Seq<char> },
    Commit { message: Seq<char>, author_name: Seq<char>, author_email: Seq<char> },
    Push { remote: Seq<char>, refspec: Seq<char>, ssh_key: Seq<char> },
}

impl View for Action {
    type V = ActionView;

    open spec fn view(&self) -> ActionView {
        match *self {
            Action::Fetch { remote, branch } => ActionView::Fetch {
                remote: remote@,
                branch: branch@,
            },
            Action::FastForward { reference } => ActionView::FastForward { reference: reference@ },
            Action::Stage { path } => ActionView::Stage { path: path@ },
            Action::Commit { message, author_name, author_email } => ActionView::Commit {
                message: message@,
                author_name: author_name@,
                author_email: author_email@,
            },
            Action::Push { remote, refspec, ssh_key } => ActionView::Push {
                remote: remote@,
                refspec: refspec@,
                ssh_key: ssh_key@,
            },
        }
    }
}

/// What came of the action last asked for.
#[derive(Debug, PartialEq, Eq)]
pub enum Event {
    /// The fetch went through: how the histories relate.
    Analysis(MergeAnalysis),
    /// The action went through.
    Done,
    /// The commit was created: its identifier.
    Committed(String),
    /// The action failed: the cause, in words.
    Failed(String),
}

/// An [`Event`] as plain values.
pub enum EventView {
    Analysis(MergeAnalysis),
    Done,
    Committed(Seq<char>),
    Failed(Seq<char>),
}

impl View for Event {
    type V = EventView;

    open spec fn view(&self) -> EventView {
        match *self {
            Event::Analysis(analysis) => EventView::Analysis(analysis),
            Event::Done => EventView::Done,
            Event::Committed(commit) => EventView::Committed(commit@),
            Event::Failed(cause) => EventView::Failed(cause@),
        }
    }
}

/// The action that a transaction waits on.
#[derive(Debug)]
pub enum Phase {
    /// The fetch and its analysis.
    Syncing,
    /// The move of the local branch to what was fetched.
    FastForwarding,
    /// The staging of the file.
    Staging,
    /// The commit.
    Committing,
    /// The push of the commit made, named here.
    Pushing { commit: String },
}

/// A [`Phase`] as plain values.
pub enum PhaseView {
    Syncing,
    FastForwarding,
    Staging,
    Committing,
    Pushing { commit: Seq<char> },
}

impl View for Phase {
    type V = PhaseView;

    open spec fn view(&self) -> PhaseView {
        match *self {
            Phase::Syncing => PhaseView::Syncing,
            Phase::FastForwarding => PhaseView::FastForwarding,
            Phase::Staging => PhaseView::Staging,
            Phase::Committing => PhaseView::Committing,
            Phase::Pushing { commit } => PhaseView::Pushing { commit: commit@ },
        }
    }
}

/// A transaction under way.
#[derive(Debug)]
pub struct Transaction {
    publishing: bool,
    phase: Phase,
    path: String,
    message: String,
    author_name: String,
    author_email: String,
}

/// A [`Transaction`] as plain values: whether a file is to be published or
/// the working tree only refreshed, the action waited on, the file and the
/// commit message, and the identity that commits.
pub struct TransactionView {
    pub publishing: bool,
    pub phase: PhaseView,
    pub path: Seq<char>,
    pub message: Seq<char>,
    pub author_name: Seq<char>,
    pub author_email: Seq<char>,
}

impl View for Transaction {
    type V = TransactionView;

    closed spec fn view(&self) -> TransactionView {
        TransactionView {
            publishing: self.publishing,
            phase: self.phase@,
            path: self.path@,
            message: self.message@,
            author_name: self.author_name@,
            author_email: self.author_email@,
        }
    }
}

/// What a reply leads to: the next action, or the end of the transaction.
#[derive(Debug)]
pub enum Step {
    Continue(Transaction, Action),
    Finished(Outcome),
}

/// A [`Step`] as plain values.
pub enum StepView {
    Continue(TransactionView, ActionView),
    Finished(OutcomeView),
}

impl View for Step {
    type V = StepView;

    open spec fn view(&self) -> StepView {
        match *self {
            Step::Continue(transaction, action) => StepView::Continue(transaction@, action@),
            Step::Finished(outcome) => StepView::Finished(outcome@),
        }
    }
}

/// Publishes through git: one remote, one tracked branch, and a private key
/// to push with.
pub struct GitPublisher {
    ssh_key: String,
    branch: String,
}

/// A [`GitPublisher`] as plain values.
pub struct GitPublisherView {
    pub ssh_key: Seq<char>,
    pub branch: Seq<char>,
}

impl View for GitPublisher {
    type V = GitPublisherView;

    closed spec fn view(&self) -> GitPublisherView {
        GitPublisherView { ssh_key: self.ssh_key@, branch: self.branch@ }
    }
}

/// The name of the remote.
pub open spec fn origin() -> Seq<char> {
    seq!['o', 'r', 'i', 'g', 'i', 'n']
}

/// The branch that is tracked where none is named.
pub open spec fn default_branch() -> Seq<char> {
    seq!['m', 'a', 's', 't', 'e', 'r']
}

/// The reference of the local branch `branch`.
pub open spec fn reference_of(branch: Seq<char>) -> Seq<char> {
    seq!['r', 'e', 'f', 's', '/', 'h', 'e', 'a', 'd', 's', '/'] + branch
}

/// The refspec that pushes `branch` to the reference of the same name.
pub open spec fn refspec_of(branch: Seq<char>) -> Seq<char> {
    reference_of(branch).push(':') + reference_of(branch)
}

/// The cause given where a reply does not answer the action asked for.
pub open spec fn unexpected_reply() -> Seq<char> {
    seq!['u', 'n', 'e', 'x', 'p', 'e', 'c', 't', 'e', 'd', ' ', 'r', 'e', 'p', 'l', 'y']
}

/// The error of a failure while `phase` was waited on.
pub open spec fn failure_in(phase: PhaseView, cause: Seq<char>) -> PublishErrorView {
    match phase {
        PhaseView::Syncing => PublishErrorView::SyncFailed(cause),
        PhaseView::FastForwarding => PublishErrorView::SyncFailed(cause),
        PhaseView::Staging => PublishErrorView::StageFailed(cause),
        PhaseView::Committing => PublishErrorView::CommitFailed(cause),
        PhaseView::Pushing { commit } => PublishErrorView::PushFailed { commit, cause },
    }
}

/// What follows a sync that went through: the staging of the file, or the
/// end of a transaction that only refreshes.
pub open spec fn after_sync(transaction: TransactionView) -> StepView {
    if transaction.publishing {
        StepView::Continue(
            TransactionView { phase: PhaseView::Staging, ..transaction },
            ActionView::Stage { path: transaction.path },
        )
    } else {
        StepView::Finished(OutcomeView::Refreshed)
    }
}

/// What the reply `event` leads to in `transaction`. The stages follow each
/// other in order; a failure, or a reply that does not answer the action
/// waited on, ends the transaction with the error of the stage at hand.
pub open spec fn next(publisher: GitPublisherView, transaction: TransactionView, event: EventView) -> StepView {
    match (transaction.phase, event) {
        (PhaseView::Syncing, EventView::Analysis(analysis)) => {
            if analysis.up_to_date {
                after_sync(transaction)
            } else if analysis.fast_forward {
                StepView::Continue(
                    TransactionView { phase: PhaseView::FastForwarding, ..transaction },
                    ActionView::FastForward { reference: reference_of(publisher.branch) },
                )
            } else {
                StepView::Finished(OutcomeView::Failed(PublishErrorView::SyncDiverged))
            }
        },
        (PhaseView::FastForwarding, EventView::Done) => after_sync(transaction),
        (PhaseView::Staging, EventView::Done) => StepView::Continue(
            TransactionView { phase: PhaseView::Committing, ..transaction },
            ActionView::Commit {
                message: transaction.message,
                author_name: transaction.author_name,
                author_email: transaction.author_email,
            },
        ),
        (PhaseView::Committing, EventView::Committed(commit)) => StepView::Continue(
            TransactionView { phase: PhaseView::Pushing { commit }, ..transaction },
            ActionView::Push {
                remote: origin(),
                refspec: refspec_of(publisher.branch),
                ssh_key: publisher.ssh_key,
            },
        ),
        (PhaseView::Pushing { commit }, EventView::Done) => StepView::Finished(
            OutcomeView::Published(commit),
        ),
        (phase, EventView::Failed(cause)) => StepView::Finished(
            OutcomeView::Failed(failure_in(phase, cause)),
        ),
        (phase, _) => StepView::Finished(OutcomeView::Failed(failure_in(phase, unexpected_reply()))),
    }
}

/// The transaction that a publisher opens in `repo`, and the action it
/// begins with: the fetch of the tracked branch from the remote.
pub open spec fn opened(
    publisher: GitPublisherView,
    repo: RepositoryView,
    publishing: bool,
    path: Seq<char>,
    message: Seq<char>,
) -> (TransactionView, ActionView) {
    (
        TransactionView {
            publishing,
            phase: PhaseView::Syncing,
            path,
            message,
            author_name: repo.author_name,
            author_email: repo.author_email,
        },
        ActionView::Fetch { remote: origin(), branch: publisher.branch },
    )
}

fn text(literal: &'static str) -> (s: String)
    ensures
        s@ == literal@,
{
    String::from_str(literal)
}

impl GitPublisher {
    /// A publisher that tracks the branch `master` and pushes with the
    /// private key at `ssh_key`.
    pub fn new(ssh_key: String) -> (publisher: GitPublisher)
        ensures
            publisher@ == (GitPublisherView { ssh_key: ssh_key@, branch: default_branch() }),
    {
        proof {
            reveal_strlit("master");
        }
        let branch = text("master");
        assert(branch@ == default_branch());
        GitPublisher { ssh_key, branch }
    }

    /// A publisher that tracks `branch` and pushes with the private key at
    /// `ssh_key`.
    pub fn with_branch(ssh_key: String, branch: String) -> (publisher: GitPublisher)
        ensures
            publisher@ == (GitPublisherView { ssh_key: ssh_key@, branch: branch@ }),
    {
        GitPublisher { ssh_key, branch }
    }

    /// The name of the remote.
    fn remote() -> (remote: String)
        ensures
            remote@ == origin(),
    {
        proof {
            reveal_strlit("origin");
        }
        let remote = text("origin");
        assert(remote@ == origin());
        remote
    }

    /// The reference of the tracked branch in the local repository.
    pub fn branch_reference(&self) -> (reference: String)
        ensures
            reference@ == reference_of(self@.branch),
    {
        proof {
            reveal_strlit("refs/heads/");
        }
        let mut reference = text("refs/heads/");
        assert(reference@ == reference_of(Seq::empty()));
        reference.append(self.branch.as_str());
        reference
    }

    /// The refspec that pushes the tracked branch to the reference of the
    /// same name on the remote.
    pub fn push_refspec(&self) -> (refspec: String)
        ensures
            refspec@ == refspec_of(self@.branch),
    {
        let mut refspec = self.branch_reference();
        refspec.push(':');
        refspec.append(self.branch_reference().as_str());
        refspec
    }

    fn open(&self, repo: &Repository, publishing: bool, path: String, message: String) -> (r: (
        Transaction,
        Action,
    ))
        ensures
            (r.0@, r.1@) == opened(self@, repo@, publishing, path@, message@),
    {
        let transaction = Transaction {
            publishing,
            phase: Phase::Syncing,
            path,
            message,
            author_name: repo.author_name().clone(),
            author_email: repo.author_email().clone(),
        };
        let action = Action::Fetch { remote: GitPublisher::remote(), branch: self.branch.clone() };
        (transaction, action)
    }

    /// Opens the transaction that adds the file at `added_file`, relative to
    /// the repository, commits it with `message` and pushes the commit. The
    /// file must be on disk already. The transaction begins with the sync.
    pub fn publish_file(&self, repo: &Repository, added_file: &str, message: &String) -> (r: (
        Transaction,
        Action,
    ))
        ensures
            (r.0@, r.1@) == opened(self@, repo@, true, added_file@, message@),
    {
        self.open(repo, true, String::from_str(added_file), message.clone())
    }

    /// Opens the transaction that brings the working tree in step with the
    /// remote and commits nothing: the sync alone.
    pub fn update_files(&self, repo: &Repository) -> (r: (Transaction, Action))
        ensures
            (r.0@, r.1@) == opened(self@, repo@, false, Seq::empty(), Seq::empty()),
    {
        self.open(repo, false, String::new(), String::new())
    }

    /// Ends `transaction` with the failure of the stage at hand.
    fn fail(transaction: Transaction, cause: String) -> (step: Step)
        ensures
            step@ == StepView::Finished(OutcomeView::Failed(failure_in(transaction@.phase, cause@))),
    {
        let error = match transaction.phase {
            Phase::Syncing => PublishError::SyncFailed(cause),
            Phase::FastForwarding => PublishError::SyncFailed(cause),
            Phase::Staging => PublishError::StageFailed(cause),
            Phase::Committing => PublishError::CommitFailed(cause),
            Phase::Pushing { commit } => PublishError::PushFailed { commit, cause },
        };
        Step::Finished(Outcome::Failed(error))
    }

    /// Ends `transaction` for a reply that does not answer its action.
    fn reject(transaction: Transaction) -> (step: Step)
        ensures
            step@ == StepView::Finished(
                OutcomeView::Failed(failure_in(transaction@.phase, unexpected_reply())),
            ),
    {
        proof {
            reveal_strlit("unexpected reply");
        }
        let cause = text("unexpected reply");
        assert(cause@ == unexpected_reply());
        GitPublisher::fail(transaction, cause)
    }

    /// Goes on after a sync that went through.
    fn synced(transaction: Transaction) -> (step: Step)
        ensures
            step@ == after_sync(transaction@),
    {
        if transaction.publishing {
            let action = Action::Stage { path: transaction.path.clone() };
            let mut transaction = transaction;
            transaction.phase = Phase::Staging;
            Step::Continue(transaction, action)
        } else {
            Step::Finished(Outcome::Refreshed)
        }
    }

    /// Takes the reply to the action that `transaction` waits on and decides
    /// what comes next: the action of the next stage, or the end of the
    /// transaction with its outcome.
    pub fn advance(&self, transaction: Transaction, event: Event) -> (step: Step)
        ensures
            step@ == next(self@, transaction@, event@),
    {
        match event {
            Event::Failed(cause) => GitPublisher::fail(transaction, cause),
            Event::Analysis(analysis) => match transaction.phase {
                Phase::Syncing => {
                    if analysis.up_to_date {
                        GitPublisher::synced(transaction)
                    } else if analysis.fast_forward {
                        let action = Action::FastForward { reference: self.branch_reference() };
                        let mut transaction = transaction;
                        transaction.phase = Phase::FastForwarding;
                        Step::Continue(transaction, action)
                    } else {
                        Step::Finished(Outcome::Failed(PublishError::SyncDiverged))
                    }
                },
                _ => GitPublisher::reject(transaction),
            },
            Event::Done => match transaction.phase {
                Phase::FastForwarding => GitPublisher::synced(transaction),
                Phase::Staging => {
                    let action = Action::Commit {
                        message: transaction.message.clone(),
                        author_name: transaction.author_name.clone(),
                        author_email: transaction.author_email.clone(),
                    };
                    let mut transaction = transaction;
                    transaction.phase = Phase::Committing;
                    Step::Continue(transaction, action)
                },
                Phase::Pushing { commit } => Step::Finished(Outcome::Published(commit)),
                _ => GitPublisher::reject(transaction),
            },
            Event::Committed(commit) => match transaction.phase {
                Phase::Committing => {
                    let action = Action::Push {
                        remote: GitPublisher::remote(),
                        refspec: self.push_refspec(),
                        ssh_key: self.ssh_key.clone(),
                    };
                    let mut transaction = transaction;
                    transaction.phase = Phase::Pushing { commit };
                    Step::Continue(transaction, action)
                },
                _ => GitPublisher::reject(transaction),
            },
        }
    }
}

/// What a transaction does as the replies `replies` come in, one for each
/// action in turn: the actions it asks for after the one it waits on, and
/// its outcome, where the replies take it to its end. Replies that come
/// after the end are not looked at.
pub open spec fn run(
    publisher: GitPublisherView,
    transaction: TransactionView,
    replies: Seq<EventView>,
) -> (Seq<ActionView>, Option<OutcomeView>)
    decreases replies.len(),
{
    if replies.len() == 0 {
        (Seq::empty(), None)
    } else {
        match next(publisher, transaction, replies[0]) {
            StepView::Continue(then, action) => {
                let (actions, outcome) = run(publisher, then, replies.skip(1));
                (seq![action] + actions, outcome)
            },
            StepView::Finished(outcome) => (Seq::empty(), Some(outcome)),
        }
    }
}

/// How many of `actions` are commits.
pub open spec fn commits(actions: Seq<ActionView>) -> nat
    decreases actions.len(),
{
    if actions.len() == 0 {
        0
    } else {
        commits(actions.drop_first()) + (if actions[0] is Commit {
            1nat
        } else {
            0nat
        })
    }
}

/// The transaction has ended with the failure of its push.
pub open spec fn failed_at_push(outcome: Option<OutcomeView>) -> bool {
    outcome matches Some(OutcomeView::Failed(PublishErrorView::PushFailed { .. }))
}

/// Diverged histories end a transaction at the sync: whatever is to be
/// published, and whatever replies follow, the outcome is the divergence
/// error and no action comes after the fetch, so nothing is staged,
/// committed or pushed.
pub proof fn lemma_diverged_history_ends_transaction(
    publisher: GitPublisherView,
    transaction: TransactionView,
    replies: Seq<EventView>,
)
    requires
        transaction.phase is Syncing,
        replies.len() >= 1,
        replies[0] == EventView::Analysis(MergeAnalysis { up_to_date: false, fast_forward: false }),
    ensures
        run(publisher, transaction, replies) == (
            Seq::<ActionView>::empty(),
            Some(OutcomeView::Failed(PublishErrorView::SyncDiverged)),
        ),
{
}

/// A transaction that fails at the push has made one commit and no more:
/// from its opening on, it asked for exactly one commit, and nothing after
/// the failed push takes that commit back.
pub proof fn lemma_failed_push_leaves_one_commit(
    publisher: GitPublisherView,
    transaction: TransactionView,
    replies: Seq<EventView>,
)
    requires
        transaction.phase is Syncing,
        failed_at_push(run(publisher, transaction, replies).1),
    ensures
        commits(run(publisher, transaction, replies).0) == 1,
        run(publisher, transaction, replies).0.len() >= 1,
        run(publisher, transaction, replies).0.last() is Push,
{
    lemma_commits_by_outcome(publisher, transaction, replies);
    lemma_run_ends_at_push(publisher, transaction, replies);
}

proof fn lemma_run_ends_at_push(
    publisher: GitPublisherView,
    transaction: TransactionView,
    replies: Seq<EventView>,
)
    requires
        failed_at_push(run(publisher, transaction, replies).1),
    ensures
        ({
            let actions = run(publisher, transaction, replies).0;
            if transaction.phase is Pushing {
                actions.len() == 0
            } else {
                actions.len() >= 1 && actions.last() is Push
            }
        }),
    decreases replies.len(),
{
    if replies.len() > 0 {
        match next(publisher, transaction, replies[0]) {
            StepView::Continue(then, action) => {
                lemma_run_ends_at_push(publisher, then, replies.skip(1));
                let actions = run(publisher, then, replies.skip(1)).0;
                if actions.len() > 0 {
                    assert((seq![action] + actions).last() == actions.last());
                }
            },
            StepView::Finished(outcome) => {},
        }
    }
}

/// The push that fails reports the commit that was made: the transaction
/// ends with an error that names the commit it was pushing.
pub proof fn lemma_failed_push_names_commit(
    publisher: GitPublisherView,
    transaction: TransactionView,
    commit: Seq<char>,
    cause: Seq<char>,
)
    requires
        transaction.phase == (PhaseView::Pushing { commit }),
    ensures
        next(publisher, transaction, EventView::Failed(cause)) == StepView::Finished(
            OutcomeView::Failed(PublishErrorView::PushFailed { commit, cause }),
        ),
{
}

/// How many commits a transaction with the outcome `outcome` has asked
/// for: one where it came as far as the commit, none where it ended before.
pub open spec fn commits_behind(outcome: OutcomeView) -> nat {
    match outcome {
        OutcomeView::Published(_) => 1,
        OutcomeView::Failed(PublishErrorView::CommitFailed(_)) => 1,
        OutcomeView::Failed(PublishErrorView::PushFailed { .. }) => 1,
        _ => 0,
    }
}

proof fn lemma_commits_from(
    publisher: GitPublisherView,
    transaction: TransactionView,
    replies: Seq<EventView>,
)
    requires
        run(publisher, transaction, replies).1 is Some,
    ensures
        ({
            let (actions, outcome) = run(publisher, transaction, replies);
            if transaction.phase is Committing || transaction.phase is Pushing {
                commits(actions) == 0 && commits_behind(outcome->0) == 1
            } else {
                commits(actions) == commits_behind(outcome->0)
            }
        }),
    decreases replies.len(),
{
    if replies.len() > 0 {
        match next(publisher, transaction, replies[0]) {
            StepView::Continue(then, action) => {
                lemma_commits_from(publisher, then, replies.skip(1));
                let actions = run(publisher, then, replies.skip(1)).0;
                assert((seq![action] + actions).drop_first() == actions);
            },
            StepView::Finished(outcome) => {},
        }
    }
}

/// A transaction is all or nothing: one that ends with a published commit
/// has asked for exactly one commit, and one that fails at the sync or at
/// the staging, or that only refreshes, has asked for none. Only a
/// transaction that fails at the commit or at the push has asked for a
/// commit and has no published commit to show.
pub proof fn lemma_commits_by_outcome(
    publisher: GitPublisherView,
    transaction: TransactionView,
    replies: Seq<EventView>,
)
    requires
        transaction.phase is Syncing,
        run(publisher, transaction, replies).1 is Some,
    ensures
        commits(run(publisher, transaction, replies).0) == commits_behind(
            run(publisher, transaction, replies).1->0,
        ),
{
    lemma_commits_from(publisher, transaction, replies);
}

/// `outcome` is one that a sync alone can have.
pub open spec fn is_sync_outcome(outcome: OutcomeView) -> bool {
    match outcome {
        OutcomeView::Refreshed => true,
        OutcomeView::Failed(PublishErrorView::SyncFailed(_)) => true,
        OutcomeView::Failed(PublishErrorView::SyncDiverged) => true,
        _ => false,
    }
}

/// A transaction that only refreshes runs the sync and nothing else: the
/// one action it may ask for after the fetch is the fast-forward, and it
/// ends refreshed or with a sync error.
pub proof fn lemma_update_only_syncs(
    publisher: GitPublisherView,
    transaction: TransactionView,
    replies: Seq<EventView>,
)
    requires
        !transaction.publishing,
        transaction.phase is Syncing || transaction.phase is FastForwarding,
    ensures
        forall|i: int|
            0 <= i < run(publisher, transaction, replies).0.len() ==> (#[trigger] run(
                publisher,
                transaction,
                replies,
            ).0[i]) is FastForward,
        run(publisher, transaction, replies).1 matches Some(outcome) ==> is_sync_outcome(outcome),
    decreases replies.len(),
{
    if replies.len() > 0 {
        match next(publisher, transaction, replies[0]) {
            StepView::Continue(then, action) => {
                lemma_update_only_syncs(publisher, then, replies.skip(1));
                let actions = run(publisher, then, replies.skip(1)).0;
                let all = seq![action] + actions;
                assert forall|i: int| 0 <= i < all.len() implies (#[trigger] all[i]) is FastForward by {
                    if i > 0 {
                        assert(all[i] == actions[i - 1]);
                    }
                }
            },
            StepView::Finished(outcome) => {},
        }
    }
}

} // verus!
