//! The ingest of one document: from the authentication of the chat to the
//! reply that names the commit. The work on the chat, the disk and the
//! repository is done by the caller; the archivist names each action,
//! takes the reply, and decides what comes next.

use vstd::prelude::*;
use vstd::string::*;
use crate::authenticate::{stored_secret, Authenticator};
use crate::categorizer::{
    CategorizationContext, CategorizationContextView, Categorizer, CategoryConfig,
    CategoryConfigView, RepoBasedCategorizer,
};
use crate::commit_messages::{CommitMessageGenerator, WhatTheCommitMessageGenerator};
use crate::config::{
    lookup, DirectoryError, JsonRepositoryFactory, Repository, RepositoryFactory, RepositoryView,
};
use crate::config::{configured, json_text_entries};
use crate::path_matcher::{
    settled, standard_rules, stepped, AddRule, DefaultRule, LatestRule, Matcher, Progress,
    ProgressView, Resolution, ResolutionView, ResolveError,
};
use crate::publisher::{
    default_branch, description, next, opened, Action, ActionView, Event, EventView, GitPublisher,
    GitPublisherView, Outcome, OutcomeView, Step, StepView, Transaction, TransactionView,
};
use crate::text::{split_spec, texts};

verus! {

/// What the archivist says to the chat.
#[derive(Debug, PartialEq, Eq)]
pub enum Reply {
    /// The chat has stored no credentials.
    AuthenticateFirst,
    /// The credentials of the chat open no repository.
    IncorrectToken,
    /// The working tree could not be brought in step with the remote.
    PullFailed(String),
    /// The file was written to this path.
    Stored(String),
    /// The file was committed and pushed with this commit.
    Committed(String),
    /// The file could not be published.
    CommitFailed(String),
}

/// A [`Reply`] as plain values.
pub enum ReplyView {
    AuthenticateFirst,
    IncorrectToken,
    PullFailed(Seq<char>),
    Stored(Seq<char>),
    Committed(Seq<char>),
    CommitFailed(Seq<char>),
}

impl View for Reply {
    type V = ReplyView;

    open spec fn view(&self) -> ReplyView {
        match *self {
            Reply::AuthenticateFirst => ReplyView::AuthenticateFirst,
            Reply::IncorrectToken => ReplyView::IncorrectToken,
            Reply::PullFailed(error) => ReplyView::PullFailed(error@),
            Reply::Stored(target) => ReplyView::Stored(target@),
            Reply::Committed(commit) => ReplyView::Committed(commit@),
            Reply::CommitFailed(error) => ReplyView::CommitFailed(error@),
        }
    }
}

/// The words of a reply.
pub open spec fn reply_text(reply: ReplyView) -> Seq<char> {
    match reply {
        ReplyView::AuthenticateFirst => "Please authenticate first!"@,
        ReplyView::IncorrectToken => "Incorrect authentication token!"@,
        ReplyView::PullFailed(error) => "Pull failed: "@ + error,
        ReplyView::Stored(target) => "File stored at "@ + target,
        ReplyView::Committed(commit) => "Commit: "@ + commit,
        ReplyView::CommitFailed(error) => "Error during commit: "@ + error,
    }
}

impl Reply {
    /// The words of the reply.
    pub fn text(&self) -> (words: String)
        ensures
            words@ == reply_text(self@),
    {
        match self {
            Reply::AuthenticateFirst => String::from_str("Please authenticate first!"),
            Reply::IncorrectToken => String::from_str("Incorrect authentication token!"),
            Reply::PullFailed(error) => String::from_str("Pull failed: ").concat(error.as_str()),
            Reply::Stored(target) => String::from_str("File stored at ").concat(target.as_str()),
            Reply::Committed(commit) => String::from_str("Commit: ").concat(commit.as_str()),
            Reply::CommitFailed(error) => String::from_str("Error during commit: ").concat(
                error.as_str(),
            ),
        }
    }
}

/// Why an ingest was given up without a reply.
#[derive(Debug, PartialEq, Eq)]
pub enum UploadError {
    /// The category table of the repository is malformed.
    ConfigInvalid,
    /// This directory was needed to resolve the destination and could not
    /// be listed, or holds no entry.
    DirectoryUnavailable(String),
    /// An action on the chat or the disk failed, or was answered out of
    /// turn.
    Interrupted,
}

/// An [`UploadError`] as plain values.
pub enum UploadErrorView {
    ConfigInvalid,
    DirectoryUnavailable(Seq<char>),
    Interrupted,
}

impl View for UploadError {
    type V = UploadErrorView;

    open spec fn view(&self) -> UploadErrorView {
        match *self {
            UploadError::ConfigInvalid => UploadErrorView::ConfigInvalid,
            UploadError::DirectoryUnavailable(directory) => UploadErrorView::DirectoryUnavailable(
                directory@,
            ),
            UploadError::Interrupted => UploadErrorView::Interrupted,
        }
    }
}

/// What the caller is to do next for an ingest.
#[derive(Debug)]
pub enum UploadAction {
    /// Read the text of the pinned message of the chat.
    ReadPinned,
    /// Look the document up at the chat service.
    FindFile,
    /// Perform `action` on the repository at `repository`.
    Git { repository: String, action: Action },
    /// Read the category table that lies at `path`.
    ReadConfig { path: String },
    /// List the names in `directory`.
    List { directory: String },
    /// Write the document to `target` below `repository`, with the
    /// directories above it.
    Store { repository: String, target: String },
    /// Send the reply to the chat.
    Say(Reply),
    /// Fetch the page of the commit message service at `url`.
    FetchPage { url: String },
    /// Nothing is left to do.
    End,
    /// Give the ingest up.
    Abort(UploadError),
}

/// An [`UploadAction`] as plain values.
pub enum UploadActionView {
    ReadPinned,
    FindFile,
    Git { repository: Seq<char>, action: ActionView },
    ReadConfig { path: Seq<char> },
    List { directory: Seq<char> },
    Store { repository: Seq<char>, target: Seq<char> },
    Say(ReplyView),
    FetchPage { url: Seq<char> },
    End,
    Abort(UploadErrorView),
}

impl View for UploadAction {
    type V = UploadActionView;

    open spec fn view(&self) -> UploadActionView {
        match *self {
            UploadAction::ReadPinned => UploadActionView::ReadPinned,
            UploadAction::FindFile => UploadActionView::FindFile,
            UploadAction::Git { repository, action } => UploadActionView::Git {
                repository: repository@,
                action: action@,
            },
            UploadAction::ReadConfig { path } => UploadActionView::ReadConfig { path: path@ },
            UploadAction::List { directory } => UploadActionView::List { directory: directory@ },
            UploadAction::Store { repository, target } => UploadActionView::Store {
                repository: repository@,
                target: target@,
            },
            UploadAction::Say(reply) => UploadActionView::Say(reply@),
            UploadAction::FetchPage { url } => UploadActionView::FetchPage { url: url@ },
            UploadAction::End => UploadActionView::End,
            UploadAction::Abort(error) => UploadActionView::Abort(error@),
        }
    }
}

/// What came of the action last asked for.
#[derive(Debug)]
pub enum UploadEvent {
    /// The text of the pinned message, where the chat has one with a text.
    Pinned(Option<String>),
    /// The action went through.
    Done,
    /// What came of the action on the repository.
    Git(Event),
    /// The category table as it was found.
    Config(CategoryConfig),
    /// The names in the directory, where it could be listed.
    Listing(Option<Vec<String>>),
    /// The page of the commit message service, where it could be fetched.
    Page(Option<String>),
    /// The action failed.
    Failed,
}

/// An [`UploadEvent`] as plain values.
pub enum UploadEventView {
    Pinned(Option<Seq<char>>),
    Done,
    Git(EventView),
    Config(CategoryConfigView),
    Listing(Option<Seq<Seq<char>>>),
    Page(Option<Seq<char>>),
    Failed,
}

/// The text of an optional string.
pub open spec fn optional_text(text: Option<String>) -> Option<Seq<char>> {
    match text {
        Some(s) => Some(s@),
        None => None,
    }
}

/// The texts of an optional list of names.
pub open spec fn optional_texts(names: Option<Vec<String>>) -> Option<Seq<Seq<char>>> {
    match names {
        Some(list) => Some(texts(list@)),
        None => None,
    }
}

impl View for UploadEvent {
    type V = UploadEventView;

    open spec fn view(&self) -> UploadEventView {
        match *self {
            UploadEvent::Pinned(text) => UploadEventView::Pinned(optional_text(text)),
            UploadEvent::Done => UploadEventView::Done,
            UploadEvent::Git(event) => UploadEventView::Git(event@),
            UploadEvent::Config(config) => UploadEventView::Config(config@),
            UploadEvent::Listing(names) => UploadEventView::Listing(optional_texts(names)),
            UploadEvent::Page(page) => UploadEventView::Page(optional_text(page)),
            UploadEvent::Failed => UploadEventView::Failed,
        }
    }
}

/// The action that an ingest waits on, with what it has found out so far.
pub enum Stage {
    /// The reading of the pinned message.
    Authenticating,
    /// The lookup of the document.
    Finding { repo: Repository },
    /// An action of the transaction that refreshes the working tree.
    Refreshing { repo: Repository, transaction: Transaction },
    /// The reading of the category table.
    Configuring { repo: Repository },
    /// The listing of a directory for the destination.
    Resolving { repo: Repository, resolution: Resolution },
    /// The writing of the document.
    Storing { repo: Repository, target: String },
    /// The reply that says where the document was written.
    Announcing { repo: Repository, target: String },
    /// The page of the commit message service.
    Describing { repo: Repository, target: String },
    /// An action of the transaction that publishes the document.
    Publishing { repo: Repository, transaction: Transaction },
    /// The last reply.
    Closing,
    /// Nothing: the ingest has ended.
    Closed,
}

/// A [`Stage`] as plain values.
pub enum StageView {
    Authenticating,
    Finding { repo: RepositoryView },
    Refreshing { repo: RepositoryView, transaction: TransactionView },
    Configuring { repo: RepositoryView },
    Resolving { repo: RepositoryView, resolution: ResolutionView },
    Storing { repo: RepositoryView, target: Seq<char> },
    Announcing { repo: RepositoryView, target: Seq<char> },
    Describing { repo: RepositoryView, target: Seq<char> },
    Publishing { repo: RepositoryView, transaction: TransactionView },
    Closing,
    Closed,
}

impl View for Stage {
    type V = StageView;

    open spec fn view(&self) -> StageView {
        match *self {
            Stage::Authenticating => StageView::Authenticating,
            Stage::Finding { repo } => StageView::Finding { repo: repo@ },
            Stage::Refreshing { repo, transaction } => StageView::Refreshing {
                repo: repo@,
                transaction: transaction@,
            },
            Stage::Configuring { repo } => StageView::Configuring { repo: repo@ },
            Stage::Resolving { repo, resolution } => StageView::Resolving {
                repo: repo@,
                resolution: resolution@,
            },
            Stage::Storing { repo, target } => StageView::Storing { repo: repo@, target: target@ },
            Stage::Announcing { repo, target } => StageView::Announcing {
                repo: repo@,
                target: target@,
            },
            Stage::Describing { repo, target } => StageView::Describing {
                repo: repo@,
                target: target@,
            },
            Stage::Publishing { repo, transaction } => StageView::Publishing {
                repo: repo@,
                transaction: transaction@,
            },
            Stage::Closing => StageView::Closing,
            Stage::Closed => StageView::Closed,
        }
    }
}

/// The ingest of one document under way.
pub struct Upload {
    chat_id: i64,
    caption: Option<String>,
    stage: Stage,
}

/// An [`Upload`] as plain values: the chat that the document came from, the
/// caption it came with, and the stage reached.
pub struct UploadView {
    pub chat_id: i64,
    pub caption: Option<Seq<char>>,
    pub stage: StageView,
}

impl View for Upload {
    type V = UploadView;

    closed spec fn view(&self) -> UploadView {
        UploadView {
            chat_id: self.chat_id,
            caption: optional_text(self.caption),
            stage: self.stage@,
        }
    }
}

/// Takes documents in: authenticates the chat, finds its repository, chooses
/// and resolves the destination, and publishes the file.
pub struct ArchivistImpl<T: RepositoryFactory, C: Categorizer, M: CommitMessageGenerator> {
    pub repos: T,
    pub publisher: GitPublisher,
    pub categorizer: C,
    pub matcher: Matcher<AddRule<LatestRule<DefaultRule>>>,
    pub message_generator: M,
    pub authenticator: Authenticator,
}

/// The archivist of repositories configured in JSON and categorized by
/// their own tables.
pub type BilloArchivist = ArchivistImpl<
    JsonRepositoryFactory,
    RepoBasedCategorizer,
    WhatTheCommitMessageGenerator,
>;

/// Where the category table of the repository at `repository` lies: in the
/// file `categories.json` at its root.
pub open spec fn table_path(repository: Seq<char>) -> Seq<char> {
    repository + "/categories.json"@
}

/// The address of the commit message service.
pub open spec fn message_service() -> Seq<char> {
    "https://whatthecommit.com/"@
}

/// The ingest at `stage`.
pub open spec fn at(upload: UploadView, stage: StageView) -> UploadView {
    UploadView { stage, ..upload }
}

/// Where an ingest stands once the resolution of its destination has come to
/// rest at `resolved` with `progress`: it lists the directory asked for,
/// stores the document at the path found, or gives up.
pub open spec fn located(
    upload: UploadView,
    repo: RepositoryView,
    path: Seq<Seq<char>>,
    rest: (Seq<Seq<char>>, ProgressView),
) -> (UploadView, UploadActionView) {
    match rest.1 {
        ProgressView::List(directory) => (
            at(
                upload,
                StageView::Resolving { repo, resolution: ResolutionView { path, resolved: rest.0 } },
            ),
            UploadActionView::List { directory },
        ),
        ProgressView::Done(target) => (
            at(upload, StageView::Storing { repo, target }),
            UploadActionView::Store { repository: repo.path, target },
        ),
        ProgressView::Failed(directory) => (
            at(upload, StageView::Closed),
            UploadActionView::Abort(UploadErrorView::DirectoryUnavailable(directory)),
        ),
    }
}

impl<T: RepositoryFactory, C: Categorizer, M: CommitMessageGenerator> ArchivistImpl<T, C, M> {
    /// What the reply `event` leads to in `upload`.
    ///
    /// The chat is authenticated by its pinned message; without one it is
    /// told to authenticate, and with a secret that opens no repository it is
    /// told so. Then the document is looked up and the working tree
    /// refreshed; a failure there is reported to the chat. The category table
    /// is read and gives the template, which is resolved directory by
    /// directory. The document is written, the chat is told where, and the
    /// file is published with the message that the message service gave; the
    /// last reply names the commit or the error. A failed action, or a reply
    /// out of turn, ends the ingest.
    pub open spec fn following(self, upload: UploadView, event: UploadEventView) -> (
        UploadView,
        UploadActionView,
    ) {
        match (upload.stage, event) {
            (StageView::Authenticating, UploadEventView::Pinned(pinned)) => match stored_secret(
                pinned,
            ) {
                None => (
                    at(upload, StageView::Closing),
                    UploadActionView::Say(ReplyView::AuthenticateFirst),
                ),
                Some(secret) => match lookup(self.repos.repositories(), secret) {
                    None => (
                        at(upload, StageView::Closing),
                        UploadActionView::Say(ReplyView::IncorrectToken),
                    ),
                    Some(repo) => (
                        at(upload, StageView::Finding { repo }),
                        UploadActionView::FindFile,
                    ),
                },
            },
            (StageView::Finding { repo }, UploadEventView::Done) => {
                let begun = opened(self.publisher@, repo, false, Seq::empty(), Seq::empty());
                (
                    at(upload, StageView::Refreshing { repo, transaction: begun.0 }),
                    UploadActionView::Git { repository: repo.path, action: begun.1 },
                )
            },
            (StageView::Refreshing { repo, transaction }, UploadEventView::Git(reply)) => match next(
                self.publisher@,
                transaction,
                reply,
            ) {
                StepView::Continue(then, action) => (
                    at(upload, StageView::Refreshing { repo, transaction: then }),
                    UploadActionView::Git { repository: repo.path, action },
                ),
                StepView::Finished(OutcomeView::Failed(error)) => (
                    at(upload, StageView::Closing),
                    UploadActionView::Say(ReplyView::PullFailed(description(error))),
                ),
                StepView::Finished(_) => (
                    at(upload, StageView::Configuring { repo }),
                    UploadActionView::ReadConfig { path: table_path(repo.path) },
                ),
            },
            (StageView::Configuring { repo }, UploadEventView::Config(config)) => match self.categorizer.template(
                upload.caption,
                CategorizationContextView { repo, chat_id: upload.chat_id, config },
            ) {
                Ok(template) => located(
                    upload,
                    repo,
                    split_spec(template, '/'),
                    settled(self.matcher.rules(), repo, split_spec(template, '/'), Seq::empty()),
                ),
                Err(_) => (
                    at(upload, StageView::Closed),
                    UploadActionView::Abort(UploadErrorView::ConfigInvalid),
                ),
            },
            (StageView::Resolving { repo, resolution }, UploadEventView::Listing(names)) => located(
                upload,
                repo,
                resolution.path,
                stepped(self.matcher.rules(), repo, resolution.path, resolution.resolved, names),
            ),
            (StageView::Storing { repo, target }, UploadEventView::Done) => (
                at(upload, StageView::Announcing { repo, target }),
                UploadActionView::Say(ReplyView::Stored(target)),
            ),
            (StageView::Announcing { repo, target }, UploadEventView::Done) => (
                at(upload, StageView::Describing { repo, target }),
                UploadActionView::FetchPage { url: message_service() },
            ),
            (StageView::Describing { repo, target }, UploadEventView::Page(page)) => {
                let begun = opened(
                    self.publisher@,
                    repo,
                    true,
                    target,
                    self.message_generator.message(page),
                );
                (
                    at(upload, StageView::Publishing { repo, transaction: begun.0 }),
                    UploadActionView::Git { repository: repo.path, action: begun.1 },
                )
            },
            (StageView::Publishing { repo, transaction }, UploadEventView::Git(reply)) => match next(
                self.publisher@,
                transaction,
                reply,
            ) {
                StepView::Continue(then, action) => (
                    at(upload, StageView::Publishing { repo, transaction: then }),
                    UploadActionView::Git { repository: repo.path, action },
                ),
                StepView::Finished(OutcomeView::Published(commit)) => (
                    at(upload, StageView::Closing),
                    UploadActionView::Say(ReplyView::Committed(commit)),
                ),
                StepView::Finished(OutcomeView::Failed(error)) => (
                    at(upload, StageView::Closing),
                    UploadActionView::Say(ReplyView::CommitFailed(description(error))),
                ),
                StepView::Finished(OutcomeView::Refreshed) => (
                    at(upload, StageView::Closed),
                    UploadActionView::End,
                ),
            },
            (StageView::Closing, UploadEventView::Done) => (
                at(upload, StageView::Closed),
                UploadActionView::End,
            ),
            (StageView::Closed, _) => (at(upload, StageView::Closed), UploadActionView::End),
            _ => (
                at(upload, StageView::Closed),
                UploadActionView::Abort(UploadErrorView::Interrupted),
            ),
        }
    }

    /// Begins the ingest of a document that came from the chat `chat_id`
    /// with the caption `caption`: the chat is authenticated first.
    pub fn upload_document(&self, chat_id: i64, caption: Option<String>) -> (r: (
        Upload,
        UploadAction,
    ))
        ensures
            r.0@ == (UploadView {
                chat_id,
                caption: optional_text(caption),
                stage: StageView::Authenticating,
            }),
            r.1@ == UploadActionView::ReadPinned,
    {
        (Upload { chat_id, caption, stage: Stage::Authenticating }, UploadAction::ReadPinned)
    }

    /// Ends `upload` because an action failed or was answered out of turn.
    fn interrupt(upload: Upload) -> (r: (Upload, UploadAction))
        ensures
            r.0@ == at(upload@, StageView::Closed),
            r.1@ == UploadActionView::Abort(UploadErrorView::Interrupted),
    {
        let mut upload = upload;
        upload.stage = Stage::Closed;
        (upload, UploadAction::Abort(UploadError::Interrupted))
    }

    /// Ends `upload` with a last reply.
    fn close(upload: Upload, reply: Reply) -> (r: (Upload, UploadAction))
        ensures
            r.0@ == at(upload@, StageView::Closing),
            r.1@ == UploadActionView::Say(reply@),
    {
        let mut upload = upload;
        upload.stage = Stage::Closing;
        (upload, UploadAction::Say(reply))
    }

    /// Goes on once the resolution of the destination has come to rest.
    fn locate(upload: Upload, repo: Repository, resolution: Resolution, progress: Progress) -> (r: (
        Upload,
        UploadAction,
    ))
        ensures
            (r.0@, r.1@) == located(
                upload@,
                repo@,
                resolution@.path,
                (resolution@.resolved, progress@),
            ),
    {
        let mut upload = upload;
        match progress {
            Progress::List(directory) => {
                upload.stage = Stage::Resolving { repo, resolution };
                (upload, UploadAction::List { directory })
            },
            Progress::Done(target) => {
                let action = UploadAction::Store {
                    repository: repo.path().clone(),
                    target: target.clone(),
                };
                upload.stage = Stage::Storing { repo, target };
                (upload, action)
            },
            Progress::Failed(ResolveError::DirectoryUnavailable(directory)) => {
                upload.stage = Stage::Closed;
                (upload, UploadAction::Abort(UploadError::DirectoryUnavailable(directory)))
            },
        }
    }

    /// Takes the reply to the action that `upload` waits on and decides what
    /// comes next.
    pub fn resume(&self, upload: Upload, event: UploadEvent) -> (r: (Upload, UploadAction))
        ensures
            (r.0@, r.1@) == self.following(upload@, event@),
    {
        let Upload { chat_id, caption, stage } = upload;
        match (stage, event) {
            (Stage::Authenticating, UploadEvent::Pinned(pinned)) => {
                let upload = Upload { chat_id, caption, stage: Stage::Authenticating };
                let text = match &pinned {
                    Some(text) => Some(text.as_str()),
                    None => None,
                };
                match self.authenticator.get_auth(text) {
                    None => Self::close(upload, Reply::AuthenticateFirst),
                    Some(secret) => match self.repos.get_repository(&secret) {
                        None => Self::close(upload, Reply::IncorrectToken),
                        Some(repo) => {
                            let mut upload = upload;
                            upload.stage = Stage::Finding { repo: repo.clone() };
                            (upload, UploadAction::FindFile)
                        },
                    },
                }
            },
            (Stage::Finding { repo }, UploadEvent::Done) => {
                let begun = self.publisher.update_files(&repo);
                let action = UploadAction::Git { repository: repo.path().clone(), action: begun.1 };
                (
                    Upload { chat_id, caption, stage: Stage::Refreshing { repo, transaction: begun.0 } },
                    action,
                )
            },
            (Stage::Refreshing { repo, transaction }, UploadEvent::Git(reply)) => {
                match self.publisher.advance(transaction, reply) {
                    Step::Continue(then, action) => {
                        let action = UploadAction::Git { repository: repo.path().clone(), action };
                        (
                            Upload {
                                chat_id,
                                caption,
                                stage: Stage::Refreshing { repo, transaction: then },
                            },
                            action,
                        )
                    },
                    Step::Finished(Outcome::Failed(error)) => (
                        Upload { chat_id, caption, stage: Stage::Closing },
                        UploadAction::Say(Reply::PullFailed(error.describe())),
                    ),
                    Step::Finished(_) => {
                        let action = UploadAction::ReadConfig {
                            path: repo.path().clone().concat("/categories.json"),
                        };
                        (Upload { chat_id, caption, stage: Stage::Configuring { repo } }, action)
                    },
                }
            },
            (Stage::Configuring { repo }, UploadEvent::Config(config)) => {
                let tags = match &caption {
                    Some(text) => Some(text.as_str()),
                    None => None,
                };
                let template = self.categorizer.categorize(
                    tags,
                    CategorizationContext::new(&repo, chat_id, &config),
                );
                match template {
                    Ok(template) => {
                        let started = self.matcher.start(&repo, template);
                        Self::locate(
                            Upload { chat_id, caption, stage: Stage::Closed },
                            repo,
                            started.0,
                            started.1,
                        )
                    },
                    Err(_) => (
                        Upload { chat_id, caption, stage: Stage::Closed },
                        UploadAction::Abort(UploadError::ConfigInvalid),
                    ),
                }
            },
            (Stage::Resolving { repo, resolution }, UploadEvent::Listing(names)) => {
                let stepped = self.matcher.step(&repo, resolution, names.as_ref());
                Self::locate(
                    Upload { chat_id, caption, stage: Stage::Closed },
                    repo,
                    stepped.0,
                    stepped.1,
                )
            },
            (Stage::Storing { repo, target }, UploadEvent::Done) => {
                let action = UploadAction::Say(Reply::Stored(target.clone()));
                (Upload { chat_id, caption, stage: Stage::Announcing { repo, target } }, action)
            },
            (Stage::Announcing { repo, target }, UploadEvent::Done) => (
                Upload { chat_id, caption, stage: Stage::Describing { repo, target } },
                UploadAction::FetchPage { url: String::from_str("https://whatthecommit.com/") },
            ),
            (Stage::Describing { repo, target }, UploadEvent::Page(page)) => {
                let text = match &page {
                    Some(text) => Some(text.as_str()),
                    None => None,
                };
                let message = self.message_generator.generate(text);
                let begun = self.publisher.publish_file(&repo, target.as_str(), &message);
                let action = UploadAction::Git { repository: repo.path().clone(), action: begun.1 };
                (
                    Upload { chat_id, caption, stage: Stage::Publishing { repo, transaction: begun.0 } },
                    action,
                )
            },
            (Stage::Publishing { repo, transaction }, UploadEvent::Git(reply)) => {
                match self.publisher.advance(transaction, reply) {
                    Step::Continue(then, action) => {
                        let action = UploadAction::Git { repository: repo.path().clone(), action };
                        (
                            Upload {
                                chat_id,
                                caption,
                                stage: Stage::Publishing { repo, transaction: then },
                            },
                            action,
                        )
                    },
                    Step::Finished(Outcome::Published(commit)) => (
                        Upload { chat_id, caption, stage: Stage::Closing },
                        UploadAction::Say(Reply::Committed(commit)),
                    ),
                    Step::Finished(Outcome::Failed(error)) => (
                        Upload { chat_id, caption, stage: Stage::Closing },
                        UploadAction::Say(Reply::CommitFailed(error.describe())),
                    ),
                    Step::Finished(Outcome::Refreshed) => (
                        Upload { chat_id, caption, stage: Stage::Closed },
                        UploadAction::End,
                    ),
                }
            },
            (Stage::Closing, UploadEvent::Done) => (
                Upload { chat_id, caption, stage: Stage::Closed },
                UploadAction::End,
            ),
            (Stage::Closed, _) => (Upload { chat_id, caption, stage: Stage::Closed }, UploadAction::End),
            (stage, _) => Self::interrupt(Upload { chat_id, caption, stage }),
        }
    }
}

/// What the process is started with.
pub struct Settings {
    /// Where the configuration of the repositories lies.
    pub config_path: String,
    /// The display name of the committer.
    pub author_name: String,
    /// The e-mail address of the committer.
    pub author_email: String,
    /// Where the private key lies that pushes are made with.
    pub ssh_key: String,
}

/// The text of an optional setting, or `default` where it is not set.
pub open spec fn setting(value: Option<String>, default: Seq<char>) -> Seq<char> {
    match value {
        Some(text) => text@,
        None => default,
    }
}

fn setting_or(value: Option<String>, default: &str) -> (text: String)
    ensures
        text@ == setting(value, default@),
{
    match value {
        Some(text) => text,
        None => String::from_str(default),
    }
}

impl Settings {
    /// The settings that the environment gives; what it leaves unset takes
    /// its default: the configuration in the current directory, the
    /// committer `archiver` with the address `archiver@mail.com`, and no
    /// key.
    pub fn from_environment(
        config_path: Option<String>,
        author_name: Option<String>,
        author_email: Option<String>,
        ssh_key: Option<String>,
    ) -> (settings: Settings)
        ensures
            settings.config_path@ == setting(config_path, "."@),
            settings.author_name@ == setting(author_name, "archiver"@),
            settings.author_email@ == setting(author_email, "archiver@mail.com"@),
            settings.ssh_key@ == setting(ssh_key, ""@),
    {
        Settings {
            config_path: setting_or(config_path, "."),
            author_name: setting_or(author_name, "archiver"),
            author_email: setting_or(author_email, "archiver@mail.com"),
            ssh_key: setting_or(ssh_key, ""),
        }
    }
}

impl ArchivistImpl<JsonRepositoryFactory, RepoBasedCategorizer, WhatTheCommitMessageGenerator> {
    /// The archivist of the repositories that `directory`, the text of the
    /// configuration, files under their secrets. All commit under the
    /// identity of `settings` and are pushed with its key.
    pub fn new(settings: &Settings, directory: &str) -> (r: Result<BilloArchivist, DirectoryError>)
        ensures
            match r {
                Ok(archivist) => {
                    &&& json_text_entries(directory@) matches Some(entries)
                        && archivist.repos.repositories() == configured(
                        entries,
                        settings.author_name@,
                        settings.author_email@,
                    )
                    &&& archivist.publisher@ == (GitPublisherView {
                        ssh_key: settings.ssh_key@,
                        branch: default_branch(),
                    })
                    &&& archivist.matcher.rules() == standard_rules()
                },
                Err(e) => e is Malformed && json_text_entries(directory@) is None,
            },
    {
        match JsonRepositoryFactory::new(
            directory,
            settings.author_name.as_str(),
            settings.author_email.as_str(),
        ) {
            Ok(repos) => Ok(
                ArchivistImpl {
                    repos,
                    publisher: GitPublisher::new(settings.ssh_key.clone()),
                    categorizer: RepoBasedCategorizer::new(),
                    matcher: Matcher::new(),
                    message_generator: WhatTheCommitMessageGenerator::new(),
                    authenticator: Authenticator::new(),
                },
            ),
            Err(e) => Err(e),
        }
    }
}

} // verus!
