//! Categorization: from the tags of a caption to a destination template,
//! by the category table that the repository carries.

use vstd::prelude::*;
use vstd::string::*;
use crate::config::{Repository, RepositoryView};
use crate::text::{texts, words, words_spec};

verus! {

/// A destination for the files that carry all of a set of tags.
#[derive(Debug)]
pub struct Category {
    /// The tags that a caption must hold, in any order.
    pub tags: Vec<String>,
    /// The destination template of the category.
    pub path_matcher: String,
}

/// A [`Category`] as plain values.
pub struct CategoryView {
    pub tags: Seq<Seq<char>>,
    pub path_matcher: Seq<char>,
}

impl View for Category {
    type V = CategoryView;

    open spec fn view(&self) -> CategoryView {
        CategoryView { tags: texts(self.tags@), path_matcher: self.path_matcher@ }
    }
}

impl CategoryView {
    /// Every tag of the category is among `tags`.
    pub open spec fn matches(self, tags: Seq<Seq<char>>) -> bool {
        forall|i: int| 0 <= i < self.tags.len() ==> tags.contains(#[trigger] self.tags[i])
    }
}

/// The category table of a repository: its categories in order of
/// precedence, and the template of files that come without tags.
#[derive(Debug)]
pub struct Categorization {
    pub default_category: String,
    pub categories: Vec<Category>,
}

/// A [`Categorization`] as plain values.
pub struct CategorizationView {
    pub default_category: Seq<char>,
    pub categories: Seq<CategoryView>,
}

/// The views of a list of categories.
pub open spec fn category_views(categories: Seq<Category>) -> Seq<CategoryView> {
    Seq::new(categories.len(), |i: int| categories[i]@)
}

impl View for Categorization {
    type V = CategorizationView;

    open spec fn view(&self) -> CategorizationView {
        CategorizationView {
            default_category: self.default_category@,
            categories: category_views(self.categories@),
        }
    }
}

/// Category `i` matches `tags`, and no category before it does.
pub open spec fn is_first_match(categories: Seq<CategoryView>, tags: Seq<Seq<char>>, i: int) -> bool {
    &&& 0 <= i < categories.len()
    &&& categories[i].matches(tags)
    &&& forall|j: int| 0 <= j < i ==> !(#[trigger] categories[j]).matches(tags)
}

/// The category chosen for `tags`: the first of the table that matches.
pub open spec fn chosen(categories: Seq<CategoryView>, tags: Seq<Seq<char>>) -> Option<
    CategoryView,
> {
    if exists|i: int| is_first_match(categories, tags, i) {
        Some(categories[choose|i: int| is_first_match(categories, tags, i)])
    } else {
        None
    }
}

/// The first match is the category chosen.
pub proof fn lemma_first_match_is_chosen(
    categories: Seq<CategoryView>,
    tags: Seq<Seq<char>>,
    i: int,
)
    requires
        is_first_match(categories, tags, i),
    ensures
        chosen(categories, tags) == Some(categories[i]),
{
    let c = choose|c: int| is_first_match(categories, tags, c);
    assert(is_first_match(categories, tags, c));
}

/// Where a category matches, there is a first one that does, at its place or
/// before it.
pub proof fn lemma_first_match_exists(categories: Seq<CategoryView>, tags: Seq<Seq<char>>, i: int)
    requires
        0 <= i < categories.len(),
        categories[i].matches(tags),
    ensures
        exists|k: int| 0 <= k <= i && is_first_match(categories, tags, k),
    decreases i,
{
    if exists|j: int| 0 <= j < i && (#[trigger] categories[j]).matches(tags) {
        let j = choose|j: int| 0 <= j < i && (#[trigger] categories[j]).matches(tags);
        lemma_first_match_exists(categories, tags, j);
    } else {
        assert(is_first_match(categories, tags, i));
    }
}

/// The order of the table decides: of two categories that both match, the
/// later one is not chosen, and the one chosen stands no later than the
/// earlier of the two.
pub proof fn lemma_earlier_category_wins(
    categories: Seq<CategoryView>,
    tags: Seq<Seq<char>>,
    earlier: int,
    later: int,
)
    requires
        0 <= earlier < later < categories.len(),
        categories[earlier].matches(tags),
        categories[later].matches(tags),
    ensures
        !is_first_match(categories, tags, later),
        exists|k: int|
            0 <= k <= earlier && is_first_match(categories, tags, k) && chosen(categories, tags)
                == Some(categories[k]),
{
    lemma_first_match_exists(categories, tags, earlier);
    let k = choose|k: int| 0 <= k <= earlier && is_first_match(categories, tags, k);
    lemma_first_match_is_chosen(categories, tags, k);
}

/// Tells whether `tag` is among `tags`.
fn holds(tags: &Vec<String>, tag: &String) -> (found: bool)
    ensures
        found == texts(tags@).contains(tag@),
{
    let mut i: usize = 0;
    while i < tags.len()
        invariant
            i <= tags.len(),
            forall|j: int| 0 <= j < i ==> texts(tags@)[j] != tag@,
        decreases tags.len() - i,
    {
        if tags[i] == *tag {
            assert(texts(tags@)[i as int] == tag@);
            return true;
        }
        i = i + 1;
    }
    false
}

impl Category {
    /// Tells whether every tag of the category is among `tags`.
    pub fn matches(&self, tags: &Vec<String>) -> (matched: bool)
        ensures
            matched == self@.matches(texts(tags@)),
    {
        let mut i: usize = 0;
        while i < self.tags.len()
            invariant
                i <= self.tags.len(),
                forall|j: int| 0 <= j < i ==> texts(tags@).contains(#[trigger] self@.tags[j]),
            decreases self.tags.len() - i,
        {
            if !holds(tags, &self.tags[i]) {
                assert(self@.tags[i as int] == self.tags@[i as int]@);
                return false;
            }
            assert(self@.tags[i as int] == self.tags@[i as int]@);
            i = i + 1;
        }
        true
    }
}

impl Categorization {
    /// Finds the first category of the table that matches `tags`.
    pub fn get_category(&self, tags: &Vec<String>) -> (found: Option<&Category>)
        ensures
            match found {
                Some(category) => chosen(self@.categories, texts(tags@)) == Some(category@),
                None => chosen(self@.categories, texts(tags@)) is None,
            },
    {
        let mut i: usize = 0;
        while i < self.categories.len()
            invariant
                i <= self.categories.len(),
                forall|j: int| 0 <= j < i ==> !(#[trigger] self@.categories[j]).matches(texts(tags@)),
            decreases self.categories.len() - i,
        {
            assert(self@.categories[i as int] == self.categories@[i as int]@);
            if self.categories[i].matches(tags) {
                proof {
                    lemma_first_match_is_chosen(self@.categories, texts(tags@), i as int);
                }
                return Some(&self.categories[i]);
            }
            i = i + 1;
        }
        None
    }
}

/// What is known of the category table of a repository when a file comes in.
#[derive(Debug)]
pub enum CategoryConfig {
    /// The repository carries no category table.
    Missing,
    /// The repository carries a category table that cannot be read as one.
    Invalid,
    /// The category table of the repository.
    Table(Categorization),
}

/// A [`CategoryConfig`] as plain values.
pub enum CategoryConfigView {
    Missing,
    Invalid,
    Table(CategorizationView),
}

impl View for CategoryConfig {
    type V = CategoryConfigView;

    open spec fn view(&self) -> CategoryConfigView {
        match *self {
            CategoryConfig::Missing => CategoryConfigView::Missing,
            CategoryConfig::Invalid => CategoryConfigView::Invalid,
            CategoryConfig::Table(table) => CategoryConfigView::Table(table@),
        }
    }
}

/// Why no template could be given.
#[derive(Debug, PartialEq, Eq)]
pub enum CategorizeError {
    /// The category table of the repository is malformed.
    ConfigInvalid,
}

/// What a categorization goes by: the repository, the chat that the file
/// came from, and the category table as it was last read from the
/// repository.
pub struct CategorizationContext<'a> {
    repo: &'a Repository,
    chat_id: i64,
    config: &'a CategoryConfig,
}

/// A [`CategorizationContext`] as plain values.
pub struct CategorizationContextView {
    pub repo: RepositoryView,
    pub chat_id: i64,
    pub config: CategoryConfigView,
}

impl<'a> View for CategorizationContext<'a> {
    type V = CategorizationContextView;

    closed spec fn view(&self) -> CategorizationContextView {
        CategorizationContextView { repo: self.repo@, chat_id: self.chat_id, config: self.config@ }
    }
}

impl<'a> CategorizationContext<'a> {
    /// The context of a file that came from the chat `chat_id` for `repo`,
    /// whose category table was found as `config`.
    pub fn new(repo: &'a Repository, chat_id: i64, config: &'a CategoryConfig) -> (context:
        CategorizationContext<'a>)
        ensures
            context@ == (CategorizationContextView { repo: repo@, chat_id, config: config@ }),
    {
        CategorizationContext { repo, chat_id, config }
    }

    /// The repository that the file goes to.
    pub fn repo(&self) -> (repo: &'a Repository)
        ensures
            repo@ == self@.repo,
    {
        self.repo
    }

    /// The chat that the file came from.
    pub fn chat_id(&self) -> (chat_id: i64)
        ensures
            chat_id == self@.chat_id,
    {
        self.chat_id
    }

    /// The category table as it was last read.
    pub fn config(&self) -> (config: &'a CategoryConfig)
        ensures
            config@ == self@.config,
    {
        self.config
    }
}

/// The template of a file when nothing says where it belongs.
pub open spec fn fallback_template() -> Seq<char> {
    seq!['t', 'm', 'p', '.', 'p', 'd', 'f']
}

/// The text of an optional string slice.
pub open spec fn text_of(text: Option<&str>) -> Option<Seq<char>> {
    match text {
        Some(s) => Some(s@),
        None => None,
    }
}

/// A template, or the reason why there is none, as plain values.
pub open spec fn template_of(r: Result<String, CategorizeError>) -> Result<
    Seq<char>,
    CategorizeError,
> {
    match r {
        Ok(template) => Ok(template@),
        Err(e) => Err(e),
    }
}

/// Gives the destination template of a file from the tags of its caption.
pub trait Categorizer {
    /// The template for a file with the caption text `tags` in `context`.
    spec fn template(&self, tags: Option<Seq<char>>, context: CategorizationContextView) -> Result<
        Seq<char>,
        CategorizeError,
    >;

    /// Gives the template for a file with the caption text
    /// `categorization`, where it came with one.
    fn categorize(&self, categorization: Option<&str>, context: CategorizationContext) -> (r: Result<
        String,
        CategorizeError,
    >)
        ensures
            template_of(r) == self.template(text_of(categorization), context@),
    ;
}

/// The fallback template, as a string.
fn fallback() -> (template: String)
    ensures
        template@ == fallback_template(),
{
    proof {
        reveal_strlit("tmp.pdf");
    }
    let template = String::from_str("tmp.pdf");
    assert(template@ == fallback_template());
    template
}

/// Takes the caption for the template, as it stands.
pub struct ExactPathCategorizer {}

impl Categorizer for ExactPathCategorizer {
    open spec fn template(&self, tags: Option<Seq<char>>, context: CategorizationContextView) -> Result<
        Seq<char>,
        CategorizeError,
    > {
        match tags {
            Some(path) => Ok(path),
            None => Ok(fallback_template()),
        }
    }

    fn categorize(&self, categorization: Option<&str>, _context: CategorizationContext) -> (r: Result<
        String,
        CategorizeError,
    >) {
        match categorization {
            Some(path) => Ok(String::from_str(path)),
            None => Ok(fallback()),
        }
    }
}

/// The template that a category table gives for the caption text `tags`:
/// without a table the fallback, without tags the default of the table, else
/// the template of the first category whose tags are all among the words of
/// the caption, and the caption itself where no category matches.
pub open spec fn table_template(config: CategoryConfigView, tags: Option<Seq<char>>) -> Result<
    Seq<char>,
    CategorizeError,
> {
    match config {
        CategoryConfigView::Missing => Ok(fallback_template()),
        CategoryConfigView::Invalid => Err(CategorizeError::ConfigInvalid),
        CategoryConfigView::Table(table) => match tags {
            None => Ok(table.default_category),
            Some(raw) => match chosen(table.categories, words_spec(raw)) {
                Some(category) => Ok(category.path_matcher),
                None => Ok(raw),
            },
        },
    }
}

/// Tags that match no category of a table are themselves the template, and a
/// file without tags gets the default of the table.
pub proof fn lemma_unmatched_tags_and_default(table: CategorizationView, raw: Seq<char>)
    ensures
        (forall|i: int|
            0 <= i < table.categories.len() ==> !(#[trigger] table.categories[i]).matches(
                words_spec(raw),
            )) ==> table_template(CategoryConfigView::Table(table), Some(raw)) == Ok::<
            Seq<char>,
            CategorizeError,
        >(raw),
        table_template(CategoryConfigView::Table(table), None) == Ok::<Seq<char>, CategorizeError>(
            table.default_category,
        ),
{
}

/// Reads the categories from the table that the repository carries.
pub struct RepoBasedCategorizer {}

impl RepoBasedCategorizer {
    /// The categorizer; it holds nothing of its own.
    pub fn new() -> RepoBasedCategorizer {
        RepoBasedCategorizer {  }
    }
}

impl Categorizer for RepoBasedCategorizer {
    open spec fn template(&self, tags: Option<Seq<char>>, context: CategorizationContextView) -> Result<
        Seq<char>,
        CategorizeError,
    > {
        table_template(context.config, tags)
    }

    fn categorize(&self, categorization: Option<&str>, context: CategorizationContext) -> (r: Result<
        String,
        CategorizeError,
    >) {
        match context.config() {
            CategoryConfig::Missing => Ok(fallback()),
            CategoryConfig::Invalid => Err(CategorizeError::ConfigInvalid),
            CategoryConfig::Table(table) => match categorization {
                None => Ok(table.default_category.clone()),
                Some(raw) => {
                    let tags = words(raw);
                    match table.get_category(&tags) {
                        Some(category) => Ok(category.path_matcher.clone()),
                        None => Ok(String::from_str(raw)),
                    }
                },
            },
        }
    }
}

} // verus!
