use archivist::config::Repository;
use archivist::path_matcher::{
    latest_entry, DirectoryTree, Matcher, PathRule, Progress, ResolveError, RuleContext,
    AddRule, DefaultRule, LatestRule,
};

fn strings(items: &[&str]) -> Vec<String> {
    items.iter().map(|s| s.to_string()).collect()
}

fn repo() -> Repository {
    Repository::new(
        "/srv/repo".to_string(),
        "s3cret".to_string(),
        "archiver".to_string(),
        "archiver@mail.com".to_string(),
    )
}

fn tree(listings: &[(&str, &[&str])]) -> DirectoryTree {
    let mut tree = DirectoryTree::new();
    for (directory, entries) in listings {
        tree.insert(directory.to_string(), strings(entries));
    }
    tree
}

#[test]
fn plain_templates_resolve_to_themselves() {
    let matcher = Matcher::new();
    let empty = DirectoryTree::new();
    for template in ["tmp.pdf", "misc/file", "a/b/c.txt", "", "/", "a//b", "x^/y+", "^^/++"] {
        assert_eq!(
            matcher.resolve(&repo(), template.to_string(), &empty),
            Ok(template.to_string())
        );
    }
}

#[test]
fn plain_templates_list_no_directory() {
    let matcher = Matcher::new();
    let (_, progress) = matcher.start(&repo(), "misc/2024/file.pdf".to_string());
    assert_eq!(progress, Progress::Done("misc/2024/file.pdf".to_string()));
}

#[test]
fn trailing_plus_continues_the_series() {
    let matcher = Matcher::new();
    let tree = tree(&[("/srv/repo/", &["img001", "img002", "img010"])]);
    assert_eq!(matcher.resolve(&repo(), "+".to_string(), &tree), Ok("img011".to_string()));
}

#[test]
fn plus_in_empty_directory_is_new() {
    let matcher = Matcher::new();
    let tree = tree(&[("/srv/repo/scans", &[])]);
    assert_eq!(matcher.resolve(&repo(), "scans/+".to_string(), &tree), Ok("scans/new".to_string()));
}

#[test]
fn plus_in_directory_without_series_is_new() {
    let matcher = Matcher::new();
    let tree = tree(&[("/srv/repo/scans", &["readme.md", "notes", "v1.0"])]);
    assert_eq!(matcher.resolve(&repo(), "scans/+".to_string(), &tree), Ok("scans/new".to_string()));
}

#[test]
fn plus_in_unknown_directory_fails() {
    let matcher = Matcher::new();
    let tree = tree(&[("/srv/repo/other", &["1"])]);
    assert_eq!(
        matcher.resolve(&repo(), "scans/+".to_string(), &tree),
        Err(ResolveError::DirectoryUnavailable("/srv/repo/scans".to_string()))
    );
}

#[test]
fn trailing_caret_is_the_greatest_entry() {
    let matcher = Matcher::new();
    let tree = tree(&[("/srv/repo/", &["a", "z", "b"])]);
    assert_eq!(matcher.resolve(&repo(), "^".to_string(), &tree), Ok("z".to_string()));
}

#[test]
fn caret_in_empty_directory_fails() {
    let matcher = Matcher::new();
    let tree = tree(&[("/srv/repo/", &[])]);
    assert_eq!(
        matcher.resolve(&repo(), "^".to_string(), &tree),
        Err(ResolveError::DirectoryUnavailable("/srv/repo/".to_string()))
    );
}

#[test]
fn caret_in_unknown_directory_fails() {
    let matcher = Matcher::new();
    assert_eq!(
        matcher.resolve(&repo(), "years/^".to_string(), &DirectoryTree::new()),
        Err(ResolveError::DirectoryUnavailable("/srv/repo/years".to_string()))
    );
}

#[test]
fn later_segments_see_the_resolved_prefix() {
    let matcher = Matcher::new();
    let tree = tree(&[
        ("/srv/repo/", &["2022", "2024", "2023"]),
        ("/srv/repo/2024", &["q1", "q2"]),
        ("/srv/repo/2024/q2", &["scan07", "scan08"]),
        ("/srv/repo/^", &["wrong"]),
        ("/srv/repo/^/^", &["wrong1"]),
    ]);
    assert_eq!(
        matcher.resolve(&repo(), "^/^/+".to_string(), &tree),
        Ok("2024/q2/scan09".to_string())
    );
}

#[test]
fn later_listing_of_a_directory_replaces_the_earlier() {
    let matcher = Matcher::new();
    let tree = tree(&[("/srv/repo/", &["a1"]), ("/srv/repo/", &["a7"])]);
    assert_eq!(matcher.resolve(&repo(), "+".to_string(), &tree), Ok("a8".to_string()));
}

#[test]
fn tree_hands_out_what_was_recorded() {
    let tree = tree(&[("d", &["x", "y"]), ("e", &[])]);
    assert_eq!(tree.entries(&"d".to_string()), Some(&strings(&["x", "y"])));
    assert_eq!(tree.entries(&"e".to_string()), Some(&strings(&[])));
    assert_eq!(tree.entries(&"f".to_string()), None);
}

#[test]
fn stepping_asks_for_each_directory_in_turn() {
    let matcher = Matcher::new();
    let repo = repo();
    let (state, progress) = matcher.start(&repo, "invoices/^/+".to_string());
    assert_eq!(progress, Progress::List("/srv/repo/invoices".to_string()));
    let years = strings(&["2023", "2024"]);
    let (state, progress) = matcher.step(&repo, state, Some(&years));
    assert_eq!(progress, Progress::List("/srv/repo/invoices/2024".to_string()));
    let files = strings(&["0001", "0002", "0003"]);
    let (state, progress) = matcher.step(&repo, state, Some(&files));
    assert_eq!(progress, Progress::Done("invoices/2024/0004".to_string()));
    let (_, progress) = matcher.step(&repo, state, None);
    assert_eq!(progress, Progress::Done("invoices/2024/0004".to_string()));
}

#[test]
fn stepping_without_listing_fails_and_may_be_tried_again() {
    let matcher = Matcher::new();
    let repo = repo();
    let (state, progress) = matcher.start(&repo, "a/+/b".to_string());
    assert_eq!(progress, Progress::List("/srv/repo/a".to_string()));
    let (state, progress) = matcher.step(&repo, state, None);
    assert_eq!(
        progress,
        Progress::Failed(ResolveError::DirectoryUnavailable("/srv/repo/a".to_string()))
    );
    let entries = strings(&["part1"]);
    let (_, progress) = matcher.step(&repo, state, Some(&entries));
    assert_eq!(progress, Progress::Done("a/part2/b".to_string()));
}

#[test]
fn latest_entry_is_the_maximum() {
    assert_eq!(latest_entry(&strings(&["a", "b", "z"])), Some("z".to_string()));
    assert_eq!(latest_entry(&strings(&["10", "9", "100"])), Some("9".to_string()));
    assert_eq!(latest_entry(&strings(&["ab", "a", "abc"])), Some("abc".to_string()));
    assert_eq!(latest_entry(&strings(&[])), None);
}

#[test]
fn context_gives_segment_prefix_and_directory() {
    let repo = repo();
    let path = strings(&["a", "^", "c"]);
    let resolved = strings(&["a"]);
    let entries = strings(&["x"]);
    let context = RuleContext::new(&repo, &path, &resolved, Some(&entries));
    assert_eq!(context.current(), "^");
    assert_eq!(context.until_current(), "a");
    assert_eq!(context.directory(), "/srv/repo/a");
    assert_eq!(context.entries(), Some(&entries));
}

#[test]
fn rules_are_tried_in_order() {
    let repo = repo();
    let rules = AddRule { next: LatestRule { next: DefaultRule {} } };
    let resolved = strings(&[]);
    let entries = strings(&["b2", "c1"]);

    let path = strings(&["+"]);
    let context = RuleContext::new(&repo, &path, &resolved, Some(&entries));
    assert!(rules.needs_entries(&context));
    assert_eq!(rules.resolve(&context), Ok("b3".to_string()));

    let path = strings(&["^"]);
    let context = RuleContext::new(&repo, &path, &resolved, Some(&entries));
    assert!(rules.needs_entries(&context));
    assert_eq!(rules.resolve(&context), Ok("c1".to_string()));

    let path = strings(&["plain"]);
    let context = RuleContext::new(&repo, &path, &resolved, Some(&entries));
    assert!(!rules.needs_entries(&context));
    assert_eq!(rules.resolve(&context), Ok("plain".to_string()));
}
