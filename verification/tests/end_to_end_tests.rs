use archivist::categorizer::{
    Categorization, CategorizationContext, Categorizer, Category, CategoryConfig,
    RepoBasedCategorizer,
};
use archivist::config::{JsonRepositoryFactory, RepositoryFactory};
use archivist::path_matcher::{DirectoryTree, Matcher};
use archivist::publisher::{Action, Event, GitPublisher, MergeAnalysis, Outcome, Step};

#[test]
fn tagged_file_is_categorized_resolved_and_published() {
    let repos =
        JsonRepositoryFactory::new(r#"{"token": "/srv/docs"}"#, "archiver", "archiver@mail.com")
            .unwrap();
    let repo = repos.get_repository(&"token".to_string()).unwrap();

    let config = CategoryConfig::Table(Categorization {
        default_category: "misc/file".to_string(),
        categories: vec![Category {
            tags: vec!["invoice".to_string()],
            path_matcher: "invoices/+".to_string(),
        }],
    });
    let template = RepoBasedCategorizer::new()
        .categorize(Some("invoice"), CategorizationContext::new(repo, 1, &config))
        .unwrap();
    assert_eq!(template, "invoices/+");

    let mut tree = DirectoryTree::new();
    tree.insert(
        "/srv/docs/invoices".to_string(),
        vec!["0001".to_string(), "0002".to_string(), "0003".to_string()],
    );
    let target = Matcher::new().resolve(repo, template, &tree).unwrap();
    assert_eq!(target, "invoices/0004");

    let prior_tip = "1111111".to_string();
    let publisher = GitPublisher::new("key".to_string());
    let (mut transaction, mut action) =
        publisher.publish_file(repo, &target, &"store invoice".to_string());
    let mut log = Vec::new();
    let outcome = loop {
        let event = match &action {
            Action::Fetch { .. } => {
                Event::Analysis(MergeAnalysis { up_to_date: true, fast_forward: false })
            }
            Action::Commit { .. } => Event::Committed("2222222".to_string()),
            _ => Event::Done,
        };
        log.push(action);
        match publisher.advance(transaction, event) {
            Step::Continue(next, then) => {
                transaction = next;
                action = then;
            }
            Step::Finished(outcome) => break outcome,
        }
    };
    assert_eq!(outcome, Outcome::Published("2222222".to_string()));
    assert_ne!(outcome, Outcome::Published(prior_tip));
    assert_eq!(log.len(), 4);
    assert_eq!(log[1], Action::Stage { path: "invoices/0004".to_string() });
}
