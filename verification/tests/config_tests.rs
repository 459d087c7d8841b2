use archivist::config::{
    DirectoryError, EnvironmentRepositoryFactory, JsonRepositoryFactory, Repository,
    RepositoryFactory,
};

fn repo(path: &str, secret: &str) -> Repository {
    Repository::new(
        path.to_string(),
        secret.to_string(),
        "archiver".to_string(),
        "archiver@mail.com".to_string(),
    )
}

#[test]
fn repository_hands_out_its_parts() {
    let r = repo("/srv/a", "alpha");
    assert_eq!(r.path(), "/srv/a");
    assert_eq!(r.secret(), "alpha");
    assert_eq!(r.author_name(), "archiver");
    assert_eq!(r.author_email(), "archiver@mail.com");
}

#[test]
fn environment_directory_knows_one_repository() {
    let factory = EnvironmentRepositoryFactory { repo: repo("/srv/a", "alpha") };
    assert_eq!(factory.get_repositories().len(), 1);
    assert_eq!(factory.get_repository(&"alpha".to_string()).map(|r| r.path().as_str()), Some("/srv/a"));
    assert!(factory.get_repository(&"beta".to_string()).is_none());
    assert!(factory.get_repository(&"".to_string()).is_none());
}

#[test]
fn json_directory_files_paths_under_secrets() {
    let factory = JsonRepositoryFactory::new(
        r#"{"beta": "/srv/b", "alpha": "/srv/a"}"#,
        "bot",
        "bot@example.org",
    )
    .unwrap();
    let alpha = factory.get_repository(&"alpha".to_string()).unwrap();
    assert_eq!(alpha.path(), "/srv/a");
    assert_eq!(alpha.secret(), "alpha");
    assert_eq!(alpha.author_name(), "bot");
    assert_eq!(alpha.author_email(), "bot@example.org");
    assert_eq!(factory.get_repository(&"beta".to_string()).unwrap().path(), "/srv/b");
    assert!(factory.get_repository(&"/srv/a".to_string()).is_none());
    let mut secrets: Vec<&str> = factory.get_repositories().iter().map(|r| r.secret().as_str()).collect();
    secrets.sort();
    assert_eq!(secrets, vec!["alpha", "beta"]);
}

#[test]
fn json_directory_may_be_empty() {
    let factory = JsonRepositoryFactory::new("{}", "bot", "bot@example.org").unwrap();
    assert!(factory.get_repositories().is_empty());
    assert!(factory.get_repository(&"alpha".to_string()).is_none());
}

#[test]
fn malformed_json_directory_is_refused() {
    for text in ["", "not json", "[]", r#"{"a": 1}"#, r#"{"a": "b""#, r#"{"a": "b"} x"#] {
        assert_eq!(
            JsonRepositoryFactory::new(text, "bot", "bot@example.org").err(),
            Some(DirectoryError::Malformed)
        );
    }
}

#[test]
fn directory_from_entries_keeps_their_order() {
    let entries = vec![
        ("k2".to_string(), "/two".to_string()),
        ("k1".to_string(), "/one".to_string()),
        ("k2".to_string(), "/again".to_string()),
    ];
    let factory = JsonRepositoryFactory::from_entries(&entries, "n", "e");
    let paths: Vec<&str> = factory.get_repositories().iter().map(|r| r.path().as_str()).collect();
    assert_eq!(paths, vec!["/two", "/one", "/again"]);
    assert_eq!(factory.get_repository(&"k2".to_string()).unwrap().path(), "/two");
}
