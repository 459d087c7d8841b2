//! Repositories and the directories that find one by its access secret.

use std::collections::BTreeMap;
use vstd::prelude::*;
use vstd::string::*;

verus! {

/// A managed working tree: where it lies, the secret that grants access to
/// it, and the identity under which commits are made in it.
#[derive(Debug)]
pub struct Repository {
    path: String,
    secret: String,
    author_name: String,
    author_email: String,
}

/// What a [`Repository`] holds, as plain texts.
pub struct RepositoryView {
    pub path: Seq<char>,
    pub secret: Seq<char>,
    pub author_name: Seq<char>,
    pub author_email: Seq<char>,
}

impl View for Repository {
    type V = RepositoryView;

    closed spec fn view(&self) -> RepositoryView {
        RepositoryView {
            path: self.path@,
            secret: self.secret@,
            author_name: self.author_name@,
            author_email: self.author_email@,
        }
    }
}

impl Repository {
    /// The directory of the working tree.
    pub fn path(&self) -> (path: &String)
        ensures
            path@ == self@.path,
    {
        &self.path
    }

    /// The secret that grants access to the repository.
    pub fn secret(&self) -> (secret: &String)
        ensures
            secret@ == self@.secret,
    {
        &self.secret
    }

    /// The display name of the committer.
    pub fn author_name(&self) -> (name: &String)
        ensures
            name@ == self@.author_name,
    {
        &self.author_name
    }

    /// The e-mail address of the committer.
    pub fn author_email(&self) -> (email: &String)
        ensures
            email@ == self@.author_email,
    {
        &self.author_email
    }

    /// The repository at `path` that `secret` opens, with the identity that
    /// commits in it.
    pub fn new(path: String, secret: String, author_name: String, author_email: String) -> (repo:
        Repository)
        ensures
            repo@ == (RepositoryView {
                path: path@,
                secret: secret@,
                author_name: author_name@,
                author_email: author_email@,
            }),
    {
        Repository { path, secret, author_name, author_email }
    }
}

impl Clone for Repository {
    fn clone(&self) -> (copy: Repository)
        ensures
            copy@ == self@,
    {
        Repository {
            path: self.path.clone(),
            secret: self.secret.clone(),
            author_name: self.author_name.clone(),
            author_email: self.author_email.clone(),
        }
    }
}

/// The first repository of `repos` that `secret` grants access to.
pub open spec fn lookup(repos: Seq<RepositoryView>, secret: Seq<char>) -> Option<RepositoryView>
    decreases repos.len(),
{
    if repos.len() == 0 {
        None
    } else if repos[0].secret == secret {
        Some(repos[0])
    } else {
        lookup(repos.skip(1), secret)
    }
}

/// A lookup finds a repository with the secret asked for, and only where no
/// repository has that secret does it find none.
pub proof fn lemma_lookup(repos: Seq<RepositoryView>, secret: Seq<char>)
    ensures
        match lookup(repos, secret) {
            Some(repo) => repo.secret == secret && repos.contains(repo),
            None => forall|i: int| 0 <= i < repos.len() ==> (#[trigger] repos[i]).secret != secret,
        },
    decreases repos.len(),
{
    if repos.len() > 0 {
        if repos[0].secret == secret {
            assert(repos.contains(repos[0]));
        } else {
            let rest = repos.skip(1);
            lemma_lookup(rest, secret);
            match lookup(rest, secret) {
                Some(repo) => {
                    let i = choose|i: int| 0 <= i < rest.len() && rest[i] == repo;
                    assert(repos[i + 1] == repo);
                },
                None => {
                    assert forall|i: int| 0 <= i < repos.len() implies (#[trigger] repos[i]).secret
                        != secret by {
                        if i > 0 {
                            assert(repos[i] == rest[i - 1]);
                        }
                    }
                },
            }
        }
    }
}

/// The views of a list of borrowed repositories.
pub open spec fn views(list: Seq<&Repository>) -> Seq<RepositoryView> {
    Seq::new(list.len(), |i: int| list[i]@)
}

/// A directory of repositories, keyed by secret.
pub trait RepositoryFactory {
    /// The repositories of the directory, in the order in which they are
    /// listed.
    spec fn repositories(&self) -> Seq<RepositoryView>;

    /// Lists every repository of the directory.
    fn get_repositories(&self) -> (list: Vec<&Repository>)
        ensures
            views(list@) == self.repositories(),
    ;

    /// Finds the repository that `secret` grants access to, if there is one.
    fn get_repository(&self, secret: &String) -> (found: Option<&Repository>)
        ensures
            match found {
                Some(repo) => lookup(self.repositories(), secret@) == Some(repo@),
                None => lookup(self.repositories(), secret@) is None,
            },
    ;
}

/// The directory of a single repository, bound when the process starts.
pub struct EnvironmentRepositoryFactory {
    pub repo: Repository,
}

impl RepositoryFactory for EnvironmentRepositoryFactory {
    open spec fn repositories(&self) -> Seq<RepositoryView> {
        seq![self.repo@]
    }

    fn get_repositories(&self) -> (list: Vec<&Repository>) {
        let mut list: Vec<&Repository> = Vec::new();
        list.push(&self.repo);
        assert(views(list@) == seq![self.repo@]);
        list
    }

    fn get_repository(&self, secret: &String) -> (found: Option<&Repository>) {
        if *self.repo.secret() == *secret {
            Some(&self.repo)
        } else {
            assert(lookup(self.repositories().skip(1), secret@) is None);
            None
        }
    }
}

/// The error of `serde_json`, carried through and never looked into.
#[verifier::external_type_specification]
#[verifier::external_body]
pub struct ExJsonError(serde_json::Error);

/// The entries of the JSON object that `data` holds, each a text filed under
/// a text, in the order of their keys; `None` where `data` is no JSON object
/// of texts.
pub uninterp spec fn json_text_entries(data: Seq<char>) -> Option<Seq<(Seq<char>, Seq<char>)>>;

/// The texts of a list of pairs of strings.
pub open spec fn pairs_view(pairs: Seq<(String, String)>) -> Seq<(Seq<char>, Seq<char>)> {
    Seq::new(pairs.len(), |i: int| (pairs[i].0@, pairs[i].1@))
}

/// `serde_json::from_str`, at the type `BTreeMap<String, String>`: reads
/// `data` as a JSON object whose values are all strings and hands out its
/// entries in the order of the map, which is that of their keys. The entries
/// are a function of `data` alone; they are named, not described.
#[verifier::external_body]
fn parse_text_entries(data: &str) -> (r: Result<Vec<(String, String)>, serde_json::Error>)
    ensures
        match r {
            Ok(pairs) => json_text_entries(data@) == Some(pairs_view(pairs@)),
            Err(_) => json_text_entries(data@) is None,
        },
{
    match serde_json::from_str::<BTreeMap<String, String>>(data) {
        Ok(map) => Ok(map.into_iter().collect()),
        Err(e) => Err(e),
    }
}

/// Why a directory of repositories could not be built.
#[derive(Debug, PartialEq, Eq)]
pub enum DirectoryError {
    /// The configuration is no JSON object that files paths under secrets.
    Malformed,
}

/// The repositories that the entries of a configuration stand for: each
/// entry files the path of a working tree under its secret, and all commit
/// under one identity.
pub open spec fn configured(
    entries: Seq<(Seq<char>, Seq<char>)>,
    author_name: Seq<char>,
    author_email: Seq<char>,
) -> Seq<RepositoryView> {
    Seq::new(
        entries.len(),
        |i: int|
            RepositoryView {
                path: entries[i].1,
                secret: entries[i].0,
                author_name: author_name,
                author_email: author_email,
            },
    )
}

/// The directory that a JSON configuration of secrets and paths describes.
pub struct JsonRepositoryFactory {
    repos: Vec<Repository>,
}

impl JsonRepositoryFactory {
    /// Builds the directory from the text of its configuration, a JSON object
    /// that files the path of each working tree under its secret.
    pub fn new(config: &str, author_name: &str, author_email: &str) -> (r: Result<
        JsonRepositoryFactory,
        DirectoryError,
    >)
        ensures
            match r {
                Ok(factory) => json_text_entries(config@) matches Some(entries)
                    && factory.repositories() == configured(entries, author_name@, author_email@),
                Err(e) => e is Malformed && json_text_entries(config@) is None,
            },
    {
        match parse_text_entries(config) {
            Ok(pairs) => Ok(JsonRepositoryFactory::from_entries(&pairs, author_name, author_email)),
            Err(_) => Err(DirectoryError::Malformed),
        }
    }

    /// Builds the directory from the entries of a configuration, each a secret
    /// and the path filed under it.
    pub fn from_entries(pairs: &Vec<(String, String)>, author_name: &str, author_email: &str) -> (factory:
        JsonRepositoryFactory)
        ensures
            factory.repositories() == configured(pairs_view(pairs@), author_name@, author_email@),
    {
        let mut repos: Vec<Repository> = Vec::new();
        let mut i: usize = 0;
        while i < pairs.len()
            invariant
                i <= pairs.len(),
                repos.len() == i,
                forall|k: int|
                    0 <= k < i ==> (#[trigger] repos@[k])@ == configured(
                        pairs_view(pairs@),
                        author_name@,
                        author_email@,
                    )[k],
            decreases pairs.len() - i,
        {
            let repo = Repository::new(
                pairs[i].1.clone(),
                pairs[i].0.clone(),
                String::from_str(author_name),
                String::from_str(author_email),
            );
            repos.push(repo);
            i = i + 1;
        }
        let factory = JsonRepositoryFactory { repos };
        assert(factory.repositories() == configured(pairs_view(pairs@), author_name@, author_email@));
        factory
    }
}

impl RepositoryFactory for JsonRepositoryFactory {
    closed spec fn repositories(&self) -> Seq<RepositoryView> {
        Seq::new(self.repos@.len(), |i: int| self.repos@[i]@)
    }

    fn get_repositories(&self) -> (list: Vec<&Repository>) {
        let mut list: Vec<&Repository> = Vec::new();
        let mut i: usize = 0;
        while i < self.repos.len()
            invariant
                i <= self.repos.len(),
                list.len() == i,
                forall|k: int| 0 <= k < i ==> (#[trigger] list@[k])@ == self.repos@[k]@,
            decreases self.repos.len() - i,
        {
            list.push(&self.repos[i]);
            i = i + 1;
        }
        assert(views(list@) == self.repositories());
        list
    }

    fn get_repository(&self, secret: &String) -> (found: Option<&Repository>) {
        let ghost all = self.repositories();
        let mut i: usize = 0;
        assert(all.skip(0) == all);
        while i < self.repos.len()
            invariant
                i <= self.repos.len(),
                all == self.repositories(),
                lookup(all, secret@) == lookup(all.skip(i as int), secret@),
            decreases self.repos.len() - i,
        {
            proof {
                assert(all.skip(i as int).skip(1) == all.skip(i + 1));
                assert(all.skip(i as int)[0] == self.repos@[i as int]@);
            }
            if *self.repos[i].secret() == *secret {
                return Some(&self.repos[i]);
            }
            i = i + 1;
        }
        None
    }
}

} // verus!
