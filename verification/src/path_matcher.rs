//! Resolution of destination templates. A template is a path whose segments
//! are literal names, `^` for the greatest entry that exists at that place,
//! or `+` for the entry that continues the numbered series found there.
//! Segments are resolved from left to right by a chain of rules; a rule sees
//! only what was resolved before its segment.

use vstd::prelude::*;
use vstd::string::*;
use crate::config::{Repository, RepositoryView};
use crate::numbering::{
    fresh_name, is_numbered, lemma_next_entry_without_series, next_entry, next_in_series,
};
use crate::text::{
    chars_of, comes_before, join, join_spec, lemma_join_split, lemma_precedes_antisymmetric,
    lemma_precedes_total, lemma_precedes_transitive, precedes, split, split_spec, texts,
};

verus! {

/// Why a segment could not be resolved.
#[derive(Debug, PartialEq, Eq)]
pub enum ResolveError {
    /// The directory, named here, could not be listed, or holds no entry
    /// where one is needed.
    DirectoryUnavailable(String),
}

/// A resolved segment, or the directory that was found unavailable.
pub open spec fn outcome_of(r: Result<String, ResolveError>) -> Result<Seq<char>, Seq<char>> {
    match r {
        Ok(segment) => Ok(segment@),
        Err(ResolveError::DirectoryUnavailable(directory)) => Err(directory@),
    }
}

/// What a rule sees of one step of a resolution: the repository, the segments
/// of the template, the segments resolved so far, one for each segment before
/// the current one, and the entries of the directory that the resolved
/// segments lead to, where they were read.
#[derive(Debug)]
pub struct RuleContext<'a> {
    repo: &'a Repository,
    /// The template, split at the path separator.
    path: &'a Vec<String>,
    /// What the segments before the current one were resolved to.
    resolved: &'a Vec<String>,
    /// Index of the current segment in the template.
    index: usize,
    /// The names found in the directory of the resolved segments.
    entries: Option<&'a Vec<String>>,
}

/// A [`RuleContext`] as plain values. The current segment is the one that
/// follows the resolved ones.
pub struct RuleContextView {
    pub repo: RepositoryView,
    pub path: Seq<Seq<char>>,
    pub resolved: Seq<Seq<char>>,
    pub entries: Option<Seq<Seq<char>>>,
}

impl RuleContextView {
    /// The segment to resolve, as the template has it.
    pub open spec fn current(self) -> Seq<char> {
        self.path[self.resolved.len() as int]
    }

    /// The path resolved so far, relative to the repository.
    pub open spec fn until_current(self) -> Seq<char> {
        join_spec(self.resolved, '/')
    }

    /// The directory in which the current segment names an entry: the
    /// repository's path, a separator, and the path resolved so far.
    pub open spec fn directory(self) -> Seq<char> {
        self.repo.path.push('/') + self.until_current()
    }
}

/// The texts of an optional list of names.
pub open spec fn listing_view(entries: Option<&Vec<String>>) -> Option<Seq<Seq<char>>> {
    match entries {
        Some(names) => Some(texts(names@)),
        None => None,
    }
}

impl<'a> View for RuleContext<'a> {
    type V = RuleContextView;

    closed spec fn view(&self) -> RuleContextView {
        RuleContextView {
            repo: self.repo@,
            path: texts(self.path@),
            resolved: texts(self.resolved@),
            entries: listing_view(self.entries),
        }
    }
}

impl<'a> RuleContext<'a> {
    #[verifier::type_invariant]
    spec fn well_formed(self) -> bool {
        self.index == self.resolved@.len() && self.index < self.path@.len()
    }

    /// The context of the segment that follows the resolved ones.
    pub fn new(
        repo: &'a Repository,
        path: &'a Vec<String>,
        resolved: &'a Vec<String>,
        entries: Option<&'a Vec<String>>,
    ) -> (context: RuleContext<'a>)
        requires
            resolved.len() < path.len(),
        ensures
            context@ == (RuleContextView {
                repo: repo@,
                path: texts(path@),
                resolved: texts(resolved@),
                entries: listing_view(entries),
            }),
    {
        RuleContext { repo, path, resolved, index: resolved.len(), entries }
    }

    /// The segment to resolve, as the template has it.
    pub fn current(&self) -> (segment: &'a String)
        ensures
            self@.resolved.len() < self@.path.len(),
            segment@ == self@.current(),
    {
        proof {
            use_type_invariant(self);
        }
        &self.path[self.index]
    }

    /// The path resolved so far, relative to the repository.
    pub fn until_current(&self) -> (prefix: String)
        ensures
            prefix@ == self@.until_current(),
    {
        join(self.resolved, '/')
    }

    /// The directory in which the current segment names an entry.
    pub fn directory(&self) -> (directory: String)
        ensures
            directory@ == self@.directory(),
    {
        let mut directory = self.repo.path().clone();
        directory.push('/');
        directory.append(self.until_current().as_str());
        directory
    }

    /// The names found in the directory, where they were read.
    pub fn entries(&self) -> (entries: Option<&'a Vec<String>>)
        ensures
            listing_view(entries) == self@.entries,
    {
        self.entries
    }
}

/// One link of the chain of rules: it resolves the current segment or hands
/// it to the rule behind it.
pub trait PathRule {
    /// Whether the chain has to see the entries of the directory before it
    /// can resolve `segment`.
    spec fn reads_directory(&self, segment: Seq<char>) -> bool;

    /// What the chain makes of the current segment of `context`: the
    /// resolved segment, or the directory that it found unavailable.
    spec fn outcome(&self, context: RuleContextView) -> Result<Seq<char>, Seq<char>>;

    /// Tells whether the entries of the directory are needed to resolve the
    /// current segment.
    fn needs_entries(&self, context: &RuleContext) -> (needed: bool)
        ensures
            needed == self.reads_directory(context@.current()),
    ;

    /// Resolves the current segment.
    fn resolve(&self, context: &RuleContext) -> (r: Result<String, ResolveError>)
        ensures
            outcome_of(r) == self.outcome(context@),
    ;
}

/// The segment that stands for the greatest entry of the directory.
pub open spec fn latest_symbol() -> Seq<char> {
    seq!['^']
}

/// The segment that stands for the next entry of a numbered series.
pub open spec fn next_symbol() -> Seq<char> {
    seq!['+']
}

/// Tells whether `segment` is the single character `symbol`.
fn is_symbol(segment: &String, symbol: char) -> (r: bool)
    ensures
        r == (segment@ == seq![symbol]),
{
    let chars = chars_of(segment.as_str());
    let r = chars.len() == 1 && chars[0] == symbol;
    proof {
        if r {
            assert(segment@ =~= seq![symbol]);
        }
    }
    r
}

/// `name` is an entry that no entry comes after in dictionary order.
pub open spec fn is_greatest(entries: Seq<Seq<char>>, name: Seq<char>) -> bool {
    &&& entries.contains(name)
    &&& forall|i: int| 0 <= i < entries.len() ==> precedes(#[trigger] entries[i], name)
}

/// The greatest of `entries` in dictionary order.
pub open spec fn greatest(entries: Seq<Seq<char>>) -> Seq<char> {
    choose|name: Seq<char>| is_greatest(entries, name)
}

/// A list of entries has one greatest name at most.
pub proof fn lemma_greatest_unique(entries: Seq<Seq<char>>, name: Seq<char>)
    requires
        is_greatest(entries, name),
    ensures
        greatest(entries) == name,
{
    let other = greatest(entries);
    assert(is_greatest(entries, other));
    let i = choose|i: int| 0 <= i < entries.len() && entries[i] == name;
    let j = choose|j: int| 0 <= j < entries.len() && entries[j] == other;
    assert(precedes(entries[i], other));
    assert(precedes(entries[j], name));
    lemma_precedes_antisymmetric(name, other);
}

/// Finds the greatest of `entries` in dictionary order; there is none where
/// there is no entry.
pub fn latest_entry(entries: &Vec<String>) -> (latest: Option<String>)
    ensures
        match latest {
            Some(name) => is_greatest(texts(entries@), name@),
            None => entries@.len() == 0,
        },
{
    if entries.len() == 0 {
        return None;
    }
    let ghost all = texts(entries@);
    let mut best: usize = 0;
    let mut best_chars = chars_of(entries[0].as_str());
    let mut i: usize = 1;
    proof {
        lemma_precedes_total(all[0], all[0]);
    }
    while i < entries.len()
        invariant
            1 <= i <= entries.len(),
            all == texts(entries@),
            best < i,
            best_chars@ == all[best as int],
            forall|j: int| 0 <= j < i ==> precedes(#[trigger] all[j], all[best as int]),
        decreases entries.len() - i,
    {
        let chars = chars_of(entries[i].as_str());
        if !comes_before(&chars, &best_chars) {
            proof {
                lemma_precedes_total(chars@, best_chars@);
                assert forall|j: int| 0 <= j < i + 1 implies precedes(
                    #[trigger] all[j],
                    all[i as int],
                ) by {
                    if j < i {
                        lemma_precedes_transitive(all[j], all[best as int], all[i as int]);
                    } else {
                        lemma_precedes_total(all[i as int], all[i as int]);
                    }
                }
            }
            best = i;
            best_chars = chars;
        }
        i = i + 1;
    }
    let name = entries[best].clone();
    proof {
        assert(all[best as int] == name@);
    }
    Some(name)
}

/// The rule at the end of every chain: a segment stands for itself.
pub struct DefaultRule {}

impl PathRule for DefaultRule {
    open spec fn reads_directory(&self, segment: Seq<char>) -> bool {
        false
    }

    open spec fn outcome(&self, context: RuleContextView) -> Result<Seq<char>, Seq<char>> {
        Ok(context.current())
    }

    fn needs_entries(&self, context: &RuleContext) -> (needed: bool) {
        false
    }

    fn resolve(&self, context: &RuleContext) -> (r: Result<String, ResolveError>) {
        Ok(context.current().clone())
    }
}

/// The rule of the segment `^`: the greatest entry of the directory in
/// dictionary order. A directory that cannot be listed or holds nothing is
/// an error. Every other segment goes to the next rule.
pub struct LatestRule<N: PathRule> {
    pub next: N,
}

impl<T: PathRule> PathRule for LatestRule<T> {
    open spec fn reads_directory(&self, segment: Seq<char>) -> bool {
        segment == latest_symbol() || self.next.reads_directory(segment)
    }

    open spec fn outcome(&self, context: RuleContextView) -> Result<Seq<char>, Seq<char>> {
        if context.current() == latest_symbol() {
            if context.entries is Some && context.entries->0.len() > 0 {
                Ok(greatest(context.entries->0))
            } else {
                Err(context.directory())
            }
        } else {
            self.next.outcome(context)
        }
    }

    fn needs_entries(&self, context: &RuleContext) -> (needed: bool) {
        is_symbol(context.current(), '^') || self.next.needs_entries(context)
    }

    fn resolve(&self, context: &RuleContext) -> (r: Result<String, ResolveError>) {
        if is_symbol(context.current(), '^') {
            let found = match context.entries() {
                Some(entries) => latest_entry(entries),
                None => None,
            };
            match found {
                Some(name) => {
                    proof {
                        lemma_greatest_unique(context@.entries->0, name@);
                    }
                    Ok(name)
                },
                None => Err(ResolveError::DirectoryUnavailable(context.directory())),
            }
        } else {
            self.next.resolve(context)
        }
    }
}

/// The rule of the segment `+`: the entry that continues the numbered series
/// of the directory, or `new` where the directory holds no numbered name. A
/// directory that cannot be listed is an error. Every other segment goes to
/// the next rule.
pub struct AddRule<N: PathRule> {
    pub next: N,
}

impl<T: PathRule> PathRule for AddRule<T> {
    open spec fn reads_directory(&self, segment: Seq<char>) -> bool {
        segment == next_symbol() || self.next.reads_directory(segment)
    }

    open spec fn outcome(&self, context: RuleContextView) -> Result<Seq<char>, Seq<char>> {
        if context.current() == next_symbol() {
            match context.entries {
                Some(entries) => Ok(next_entry(entries)),
                None => Err(context.directory()),
            }
        } else {
            self.next.outcome(context)
        }
    }

    fn needs_entries(&self, context: &RuleContext) -> (needed: bool) {
        is_symbol(context.current(), '+') || self.next.needs_entries(context)
    }

    fn resolve(&self, context: &RuleContext) -> (r: Result<String, ResolveError>) {
        if is_symbol(context.current(), '+') {
            match context.entries() {
                Some(entries) => Ok(next_in_series(entries)),
                None => Err(ResolveError::DirectoryUnavailable(context.directory())),
            }
        } else {
            self.next.resolve(context)
        }
    }
}

/// The directories that a caller knows of, each with the names found in it:
/// a picture of the repository tree against which templates resolve.
pub struct DirectoryTree {
    listings: Vec<(String, Vec<String>)>,
}

/// The directories of a list of listings, a later listing of a directory
/// taking the place of an earlier one.
spec fn tree_of(listings: Seq<(String, Vec<String>)>) -> Map<Seq<char>, Seq<Seq<char>>>
    decreases listings.len(),
{
    if listings.len() == 0 {
        Map::empty()
    } else {
        tree_of(listings.drop_last()).insert(listings.last().0@, texts(listings.last().1@))
    }
}

impl View for DirectoryTree {
    type V = Map<Seq<char>, Seq<Seq<char>>>;

    closed spec fn view(&self) -> Map<Seq<char>, Seq<Seq<char>>> {
        tree_of(self.listings@)
    }
}

impl DirectoryTree {
    /// A tree of which no directory is known.
    pub fn new() -> (tree: DirectoryTree)
        ensures
            tree@ == Map::<Seq<char>, Seq<Seq<char>>>::empty(),
    {
        DirectoryTree { listings: Vec::new() }
    }

    /// Records the names found in `directory`, in place of what was known of
    /// it before.
    pub fn insert(&mut self, directory: String, entries: Vec<String>)
        ensures
            final(self)@ == old(self)@.insert(directory@, texts(entries@)),
    {
        self.listings.push((directory, entries));
        proof {
            assert(self.listings@.drop_last() == old(self).listings@);
        }
    }

    /// The names found in `directory`, where the directory is known.
    pub fn entries(&self, directory: &String) -> (found: Option<&Vec<String>>)
        ensures
            match found {
                Some(names) => self@.contains_key(directory@) && self@[directory@] == texts(
                    names@,
                ),
                None => !self@.contains_key(directory@),
            },
    {
        let ghost all = self.listings@;
        let mut i: usize = self.listings.len();
        proof {
            assert(all.take(i as int) == all);
        }
        while i > 0
            invariant
                i <= self.listings.len(),
                all == self.listings@,
                tree_of(all).contains_key(directory@) == tree_of(all.take(i as int)).contains_key(
                    directory@,
                ),
                tree_of(all).contains_key(directory@) ==> tree_of(all)[directory@] == tree_of(
                    all.take(i as int),
                )[directory@],
            decreases i,
        {
            proof {
                assert(all.take(i as int).drop_last() == all.take(i - 1));
                assert(all.take(i as int).last() == all[i - 1]);
            }
            i = i - 1;
            if self.listings[i].0 == *directory {
                return Some(&self.listings[i].1);
            }
        }
        None
    }
}

/// A resolution under way: the segments of the template and what the first
/// of them were resolved to.
pub struct Resolution {
    path: Vec<String>,
    resolved: Vec<String>,
}

/// A [`Resolution`] as plain values.
pub struct ResolutionView {
    pub path: Seq<Seq<char>>,
    pub resolved: Seq<Seq<char>>,
}

impl View for Resolution {
    type V = ResolutionView;

    closed spec fn view(&self) -> ResolutionView {
        ResolutionView { path: texts(self.path@), resolved: texts(self.resolved@) }
    }
}

/// Where a resolution stands, and what it asks of its caller.
#[derive(Debug, PartialEq, Eq)]
pub enum Progress {
    /// The entries of this directory are needed: list it and hand the names,
    /// or their absence, to the next step.
    List(String),
    /// Every segment is resolved: this is the path, relative to the
    /// repository.
    Done(String),
    /// The current segment could not be resolved.
    Failed(ResolveError),
}

/// A [`Progress`] as plain values; a failure names the directory that was
/// found unavailable.
pub enum ProgressView {
    List(Seq<char>),
    Done(Seq<char>),
    Failed(Seq<char>),
}

impl View for Progress {
    type V = ProgressView;

    open spec fn view(&self) -> ProgressView {
        match *self {
            Progress::List(directory) => ProgressView::List(directory@),
            Progress::Done(path) => ProgressView::Done(path@),
            Progress::Failed(ResolveError::DirectoryUnavailable(directory)) => ProgressView::Failed(
                directory@,
            ),
        }
    }
}

/// Where a resolution comes to rest when it goes on from `resolved` without
/// any listing: at the first segment that needs one, at a failure, or at the
/// end of the template. The result is the segments then resolved, and the
/// progress reported.
pub open spec fn settled<T: PathRule>(
    rules: T,
    repo: RepositoryView,
    path: Seq<Seq<char>>,
    resolved: Seq<Seq<char>>,
) -> (Seq<Seq<char>>, ProgressView)
    decreases path.len() - resolved.len(),
{
    if resolved.len() >= path.len() {
        (resolved, ProgressView::Done(join_spec(resolved, '/')))
    } else {
        let context = RuleContextView { repo, path, resolved, entries: None };
        if rules.reads_directory(context.current()) {
            (resolved, ProgressView::List(context.directory()))
        } else {
            match rules.outcome(context) {
                Ok(segment) => settled(rules, repo, path, resolved.push(segment)),
                Err(directory) => (resolved, ProgressView::Failed(directory)),
            }
        }
    }
}

/// Where a resolution comes to rest after its current segment was resolved
/// with `listing` at hand.
pub open spec fn stepped<T: PathRule>(
    rules: T,
    repo: RepositoryView,
    path: Seq<Seq<char>>,
    resolved: Seq<Seq<char>>,
    listing: Option<Seq<Seq<char>>>,
) -> (Seq<Seq<char>>, ProgressView) {
    if resolved.len() >= path.len() {
        (resolved, ProgressView::Done(join_spec(resolved, '/')))
    } else {
        match rules.outcome(RuleContextView { repo, path, resolved, entries: listing }) {
            Ok(segment) => settled(rules, repo, path, resolved.push(segment)),
            Err(directory) => (resolved, ProgressView::Failed(directory)),
        }
    }
}

/// What is known of `directory` in `tree`.
pub open spec fn listed(tree: Map<Seq<char>, Seq<Seq<char>>>, directory: Seq<char>) -> Option<
    Seq<Seq<char>>,
> {
    if tree.contains_key(directory) {
        Some(tree[directory])
    } else {
        None
    }
}

/// The path that the segments of `path` resolve to against `tree`, going on
/// from `resolved`: each segment in turn is resolved by the rules, which see
/// the entries of the directory resolved so far where they ask for them, and
/// the resolved segments are joined by the path separator. The first segment
/// that fails ends the resolution with the directory found unavailable.
pub open spec fn resolve_from<T: PathRule>(
    rules: T,
    repo: RepositoryView,
    path: Seq<Seq<char>>,
    resolved: Seq<Seq<char>>,
    tree: Map<Seq<char>, Seq<Seq<char>>>,
) -> Result<Seq<char>, Seq<char>>
    decreases path.len() - resolved.len(),
{
    if resolved.len() >= path.len() {
        Ok(join_spec(resolved, '/'))
    } else {
        let bare = RuleContextView { repo, path, resolved, entries: None };
        let entries = if rules.reads_directory(bare.current()) {
            listed(tree, bare.directory())
        } else {
            None
        };
        match rules.outcome(RuleContextView { repo, path, resolved, entries }) {
            Ok(segment) => resolve_from(rules, repo, path, resolved.push(segment), tree),
            Err(directory) => Err(directory),
        }
    }
}

/// What the template `template` resolves to in the repository `repo` whose
/// directories are those of `tree`.
pub open spec fn resolve_spec<T: PathRule>(
    rules: T,
    repo: RepositoryView,
    template: Seq<char>,
    tree: Map<Seq<char>, Seq<Seq<char>>>,
) -> Result<Seq<char>, Seq<char>> {
    resolve_from(rules, repo, split_spec(template, '/'), Seq::empty(), tree)
}

/// A resolution that has come to rest agrees with the resolution against a
/// tree: where it is done or has failed, that is the result against any
/// tree; where it asks for a directory, the rules need that directory for the
/// segment at hand, and the result is that of going on from there.
pub proof fn lemma_settled_resolves<T: PathRule>(
    rules: T,
    repo: RepositoryView,
    path: Seq<Seq<char>>,
    resolved: Seq<Seq<char>>,
    tree: Map<Seq<char>, Seq<Seq<char>>>,
)
    ensures
        ({
            let (reached, progress) = settled(rules, repo, path, resolved);
            &&& resolved.len() <= reached.len()
            &&& resolved.len() <= path.len() ==> reached.len() <= path.len()
            &&& match progress {
                ProgressView::Done(p) => resolve_from(rules, repo, path, resolved, tree) == Ok::<
                    Seq<char>,
                    Seq<char>,
                >(p),
                ProgressView::Failed(d) => resolve_from(rules, repo, path, resolved, tree) == Err::<
                    Seq<char>,
                    Seq<char>,
                >(d),
                ProgressView::List(d) => {
                    let context = RuleContextView { repo, path, resolved: reached, entries: None };
                    &&& reached.len() < path.len()
                    &&& rules.reads_directory(context.current())
                    &&& d == context.directory()
                    &&& resolve_from(rules, repo, path, resolved, tree) == resolve_from(
                        rules,
                        repo,
                        path,
                        reached,
                        tree,
                    )
                },
            }
        }),
    decreases path.len() - resolved.len(),
{
    if resolved.len() < path.len() {
        let context = RuleContextView { repo, path, resolved, entries: None };
        if !rules.reads_directory(context.current()) {
            match rules.outcome(context) {
                Ok(segment) => {
                    lemma_settled_resolves(rules, repo, path, resolved.push(segment), tree);
                },
                Err(directory) => {},
            }
        }
    }
}

/// Resolves templates with a chain of rules.
pub struct Matcher<T: PathRule> {
    rule_set: T,
}

impl<T: PathRule> Matcher<T> {
    /// The chain of rules of the matcher.
    pub closed spec fn rules(&self) -> T {
        self.rule_set
    }

    /// Goes on with `state` for as long as no listing is needed.
    fn settle(&self, repo: &Repository, from: Resolution) -> (r: (Resolution, Progress))
        ensures
            r.0@.path == from@.path,
            (r.0@.resolved, r.1@) == settled(self.rules(), repo@, from@.path, from@.resolved),
    {
        let mut state = from;
        loop
            invariant
                state@.path == from@.path,
                settled(self.rules(), repo@, from@.path, state@.resolved) == settled(
                    self.rules(),
                    repo@,
                    from@.path,
                    from@.resolved,
                ),
            decreases state@.path.len() - state@.resolved.len(),
        {
            if state.resolved.len() >= state.path.len() {
                let done = join(&state.resolved, '/');
                return (state, Progress::Done(done));
            }
            let context = RuleContext::new(repo, &state.path, &state.resolved, None);
            if self.rule_set.needs_entries(&context) {
                let directory = context.directory();
                return (state, Progress::List(directory));
            }
            match self.rule_set.resolve(&context) {
                Ok(segment) => {
                    let ghost before = state.resolved@;
                    state.resolved.push(segment);
                    proof {
                        assert(texts(state.resolved@) == texts(before).push(segment@));
                    }
                },
                Err(e) => {
                    return (state, Progress::Failed(e));
                },
            }
        }
    }

    /// Begins the resolution of the template `path_matcher` in `repo`:
    /// splits it at the path separator and resolves segments until one needs
    /// a listing or none is left.
    pub fn start(&self, repo: &Repository, path_matcher: String) -> (r: (Resolution, Progress))
        ensures
            r.0@.path == split_spec(path_matcher@, '/'),
            (r.0@.resolved, r.1@) == settled(
                self.rules(),
                repo@,
                split_spec(path_matcher@, '/'),
                Seq::empty(),
            ),
    {
        let path = split(path_matcher.as_str(), '/');
        let state = Resolution { path, resolved: Vec::new() };
        assert(state@.resolved == Seq::<Seq<char>>::empty());
        self.settle(repo, state)
    }

    /// Goes on with a resolution that asked for a listing: resolves the
    /// current segment with `listing` at hand, `None` standing for a
    /// directory that could not be listed, and then further segments until
    /// one needs a listing or none is left. A resolution that was done stays
    /// done, and one that failed tries its segment again.
    pub fn step(&self, repo: &Repository, from: Resolution, listing: Option<&Vec<String>>) -> (r: (
        Resolution,
        Progress,
    ))
        ensures
            r.0@.path == from@.path,
            (r.0@.resolved, r.1@) == stepped(
                self.rules(),
                repo@,
                from@.path,
                from@.resolved,
                listing_view(listing),
            ),
    {
        let mut state = from;
        if state.resolved.len() >= state.path.len() {
            let done = join(&state.resolved, '/');
            return (state, Progress::Done(done));
        }
        let context = RuleContext::new(repo, &state.path, &state.resolved, listing);
        match self.rule_set.resolve(&context) {
            Ok(segment) => {
                let ghost before = state.resolved@;
                state.resolved.push(segment);
                proof {
                    assert(texts(state.resolved@) == texts(before).push(segment@));
                }
                self.settle(repo, state)
            },
            Err(e) => (state, Progress::Failed(e)),
        }
    }

    /// Resolves the template `path_matcher` in `repo` against the directories
    /// of `tree`: the path relative to the repository, or the directory that
    /// a rule needed and found unavailable.
    pub fn resolve(&self, repo: &Repository, path_matcher: String, tree: &DirectoryTree) -> (r:
        Result<String, ResolveError>)
        ensures
            outcome_of(r) == resolve_spec(self.rules(), repo@, path_matcher@, tree@),
    {
        let ghost path = split_spec(path_matcher@, '/');
        let ghost target = resolve_from(self.rules(), repo@, path, Seq::empty(), tree@);
        let started = self.start(repo, path_matcher);
        let mut state = started.0;
        let mut progress = started.1;
        proof {
            lemma_settled_resolves(self.rules(), repo@, path, Seq::empty(), tree@);
        }
        loop
            invariant
                state@.path == path,
                target == resolve_spec(self.rules(), repo@, path_matcher@, tree@),
                match progress@ {
                    ProgressView::Done(p) => target == Ok::<Seq<char>, Seq<char>>(p),
                    ProgressView::Failed(d) => target == Err::<Seq<char>, Seq<char>>(d),
                    ProgressView::List(d) => {
                        let context = RuleContextView {
                            repo: repo@,
                            path,
                            resolved: state@.resolved,
                            entries: None,
                        };
                        &&& state@.resolved.len() < path.len()
                        &&& self.rules().reads_directory(context.current())
                        &&& d == context.directory()
                        &&& target == resolve_from(
                            self.rules(),
                            repo@,
                            path,
                            state@.resolved,
                            tree@,
                        )
                    },
                },
            decreases path.len() - state@.resolved.len(), (if progress is List { 1nat } else { 0nat }),
        {
            match progress {
                Progress::Done(p) => {
                    return Ok(p);
                },
                Progress::Failed(e) => {
                    return Err(e);
                },
                Progress::List(directory) => {
                    let listing = tree.entries(&directory);
                    let ghost before = state@.resolved;
                    let ghost seen = RuleContextView {
                        repo: repo@,
                        path,
                        resolved: before,
                        entries: listing_view(listing),
                    };
                    proof {
                        assert(listing_view(listing) == listed(tree@, directory@));
                        if let Ok(segment) = self.rules().outcome(seen) {
                            lemma_settled_resolves(
                                self.rules(),
                                repo@,
                                path,
                                before.push(segment),
                                tree@,
                            );
                        }
                    }
                    let next = self.step(repo, state, listing);
                    state = next.0;
                    progress = next.1;
                },
            }
        }
    }
}

/// The chain of the three rules: `+`, then `^`, then the literal segment.
pub open spec fn standard_rules() -> AddRule<LatestRule<DefaultRule>> {
    AddRule { next: LatestRule { next: DefaultRule {  } } }
}

impl Matcher<AddRule<LatestRule<DefaultRule>>> {
    /// The matcher of the three rules, tried in the order `+`, `^`, literal.
    pub fn new() -> (matcher: Matcher<AddRule<LatestRule<DefaultRule>>>)
        ensures
            matcher.rules() == standard_rules(),
    {
        Matcher { rule_set: AddRule { next: LatestRule { next: DefaultRule {  } } } }
    }
}

/// `path` holds literal segments only.
pub open spec fn is_plain(path: Seq<Seq<char>>) -> bool {
    forall|i: int|
        0 <= i < path.len() ==> #[trigger] path[i] != latest_symbol() && path[i] != next_symbol()
}

proof fn lemma_plain_from(
    repo: RepositoryView,
    path: Seq<Seq<char>>,
    done: int,
    tree: Map<Seq<char>, Seq<Seq<char>>>,
)
    requires
        0 <= done <= path.len(),
        is_plain(path),
    ensures
        resolve_from(standard_rules(), repo, path, path.take(done), tree) == Ok::<
            Seq<char>,
            Seq<char>,
        >(join_spec(path, '/')),
        settled(standard_rules(), repo, path, path.take(done)) == (
            path,
            ProgressView::Done(join_spec(path, '/')),
        ),
    decreases path.len() - done,
{
    if done < path.len() {
        assert(path.take(done).push(path[done]) == path.take(done + 1));
        lemma_plain_from(repo, path, done + 1, tree);
    } else {
        assert(path.take(done) == path);
    }
}

/// A template without `^` and `+` segments resolves to itself, whatever the
/// repository holds, and no directory is listed on the way.
pub proof fn lemma_plain_template_unchanged(
    repo: RepositoryView,
    template: Seq<char>,
    tree: Map<Seq<char>, Seq<Seq<char>>>,
)
    requires
        is_plain(split_spec(template, '/')),
    ensures
        resolve_spec(standard_rules(), repo, template, tree) == Ok::<Seq<char>, Seq<char>>(template),
        settled(standard_rules(), repo, split_spec(template, '/'), Seq::empty()).1
            == ProgressView::Done(template),
{
    let path = split_spec(template, '/');
    lemma_join_split(template, '/');
    assert(path.take(0) == Seq::<Seq<char>>::empty());
    lemma_plain_from(repo, path, 0, tree);
}

/// The segment `+` resolves to `new` in a directory that holds no numbered
/// name, and so also in an empty one.
pub proof fn lemma_plus_without_series(context: RuleContextView, entries: Seq<Seq<char>>)
    requires
        context.current() == next_symbol(),
        context.entries == Some(entries),
        forall|j: int| 0 <= j < entries.len() ==> !is_numbered(#[trigger] entries[j]),
    ensures
        standard_rules().outcome(context) == Ok::<Seq<char>, Seq<char>>(fresh_name()),
{
    lemma_next_entry_without_series(entries);
}

/// The segment `^` resolves to the entry of the directory that no entry
/// comes after in dictionary order, and fails where the directory could not
/// be listed or holds nothing.
pub proof fn lemma_caret_is_greatest_or_fails(context: RuleContextView)
    requires
        context.current() == latest_symbol(),
    ensures
        match context.entries {
            Some(entries) if entries.len() > 0 => forall|name: Seq<char>|
                is_greatest(entries, name) ==> standard_rules().outcome(context) == Ok::<
                    Seq<char>,
                    Seq<char>,
                >(name),
            _ => standard_rules().outcome(context) == Err::<Seq<char>, Seq<char>>(
                context.directory(),
            ),
        },
{
    assert(latest_symbol()[0] != next_symbol()[0]);
    match context.entries {
        Some(entries) if entries.len() > 0 => {
            assert forall|name: Seq<char>| is_greatest(entries, name) implies standard_rules().outcome(
                context,
            ) == Ok::<Seq<char>, Seq<char>>(name) by {
                lemma_greatest_unique(entries, name);
            }
        },
        _ => {},
    }
}

/// The rules look to the left only: what they make of a segment depends on
/// the segment itself, on what was resolved before it and on the directory
/// that this leads to, and on nothing that follows in the template.
pub proof fn lemma_rules_look_left(context: RuleContextView, other: RuleContextView)
    requires
        context.current() == other.current(),
        context.resolved == other.resolved,
        context.repo == other.repo,
        context.entries == other.entries,
    ensures
        standard_rules().outcome(context) == standard_rules().outcome(other),
        standard_rules().reads_directory(context.current()) == standard_rules().reads_directory(
            other.current(),
        ),
{
}

} // verus!
