use riirview::filter::Filter;

#[test]
fn test_parse() {
    let filters = Filter::parse("title:Rust Programming author:John Doe").unwrap();
    assert_eq!(filters.title, "Rust Programming");
    assert_eq!(filters.author, "John Doe");
    assert!(filters.repo.is_empty());
    assert!(filters.state.is_empty());

    let filters = Filter::parse("author:John Doe").unwrap();
    assert!(filters.title.is_empty());
    assert_eq!(filters.author, "John Doe");
    assert!(filters.repo.is_empty());
    assert!(filters.state.is_empty());

    let filters = Filter::parse("Rust Programming").unwrap();
    assert_eq!(filters.title, "Rust Programming");
    assert!(filters.author.is_empty());
    assert!(filters.repo.is_empty());
    assert!(filters.state.is_empty());

    let filters = Filter::parse("Rust Programming author:John Doe").unwrap();
    assert_eq!(filters.title, "Rust Programming");
    assert_eq!(filters.author, "John Doe");
    assert!(filters.repo.is_empty());
    assert!(filters.state.is_empty());

    let filters =
        Filter::parse("Rust Programming author:John Doe repo:LedgerHQ/ledger-live").unwrap();
    assert_eq!(filters.title, "Rust Programming");
    assert_eq!(filters.author, "John Doe");
    assert_eq!(filters.repo, "LedgerHQ/ledger-live");
    assert!(filters.state.is_empty());

    let filters = Filter::parse("title:Rust Programming state:open").unwrap();
    assert_eq!(filters.title, "Rust Programming");
    assert!(filters.author.is_empty());
    assert!(filters.repo.is_empty());
    assert_eq!(filters.state, "Open");

    let filters = Filter::parse("title:Rust Programming state:Open").unwrap();
    assert_eq!(filters.title, "Rust Programming");
    assert!(filters.author.is_empty());
    assert!(filters.repo.is_empty());
    assert_eq!(filters.state, "Open");

    let filters = Filter::parse("title:Rust Programming state:Resolved").unwrap();
    assert_eq!(filters.title, "Rust Programming");
    assert!(filters.author.is_empty());
    assert!(filters.repo.is_empty());
    assert_eq!(filters.state, "Resolved");

    let filters = Filter::parse("title:Rust Programming state:Resolved").unwrap();
    assert_eq!(filters.title, "Rust Programming");
    assert!(filters.author.is_empty());
    assert!(filters.repo.is_empty());
    assert_eq!(filters.state, "Resolved");

    let filters = Filter::parse("title:Rust Programming state:Pasfini").unwrap();
    assert_eq!(filters.title, "Rust Programming");
    assert!(filters.author.is_empty());
    assert!(filters.repo.is_empty());
    assert!(filters.state.is_empty());
}
