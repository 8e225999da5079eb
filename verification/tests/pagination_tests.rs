use riirview::pagination::pages_from_link;

#[test]
fn test_link_basic() {
    let link = r#"<https://api.github.com/notifications?page=2>; rel="next", <https://api.github.com/notifications?page=4>; rel="last""#;

    assert_eq!(
        pages_from_link(link).unwrap(),
        vec![
            "https://api.github.com/notifications?page=2",
            "https://api.github.com/notifications?page=3",
            "https://api.github.com/notifications?page=4"
        ]
    );
}

#[test]
fn test_link_nonext() {
    let link = r#"<https://api.github.com/notifications?page=2>; rel="next", <https://api.github.com/notifications?page=2>; rel="last""#;

    assert_eq!(
        pages_from_link(link).unwrap(),
        vec!["https://api.github.com/notifications?page=2",]
    );
}

#[test]
fn test_link_invalid() {
    let link = "not a link";

    assert!(pages_from_link(link).is_err());
}

#[test]
fn test_link() {
    let link = r#"<https://api.github.com/notifications?all=true&since=2023-11-06T00%3A00%3A00Z&page=2>; rel="next", <https://api.github.com/notifications?all=true&since=2023-11-06T00%3A00%3A00Z&page=4>; rel="last""#;

    assert_eq!(
        pages_from_link(link).unwrap(),
        vec![
            "https://api.github.com/notifications?all=true&since=2023-11-06T00%3A00%3A00Z&page=2",
            "https://api.github.com/notifications?all=true&since=2023-11-06T00%3A00%3A00Z&page=3",
            "https://api.github.com/notifications?all=true&since=2023-11-06T00%3A00%3A00Z&page=4"
        ]
    );
}

#[test]
fn gh_test_link_basic() {
    let link = r#"<https://api.github.com/notifications?page=2>; rel="next", <https://api.github.com/notifications?page=4>; rel="last""#;

    assert_eq!(
        pages_from_link(link).unwrap(),
        vec![
            "https://api.github.com/notifications?page=2",
            "https://api.github.com/notifications?page=3",
            "https://api.github.com/notifications?page=4"
        ]
    );
}

#[test]
fn gh_test_link_nonext() {
    let link = r#"<https://api.github.com/notifications?page=2>; rel="next", <https://api.github.com/notifications?page=2>; rel="last""#;

    assert_eq!(
        pages_from_link(link).unwrap(),
        vec!["https://api.github.com/notifications?page=2",]
    );
}

#[test]
fn gh_test_link_invalid() {
    let link = "not a link";

    assert!(pages_from_link(link).is_err());
}

#[test]
fn gh_test_link() {
    let link = r#"<https://api.github.com/notifications?all=true&since=2023-11-06T00%3A00%3A00Z&page=2>; rel="next", <https://api.github.com/notifications?all=true&since=2023-11-06T00%3A00%3A00Z&page=4>; rel="last""#;

    assert_eq!(
        pages_from_link(link).unwrap(),
        vec![
            "https://api.github.com/notifications?all=true&since=2023-11-06T00%3A00%3A00Z&page=2",
            "https://api.github.com/notifications?all=true&since=2023-11-06T00%3A00%3A00Z&page=3",
            "https://api.github.com/notifications?all=true&since=2023-11-06T00%3A00%3A00Z&page=4"
        ]
    );
}

#[test]
fn test_link_no_page_param() {
    let link = r#"<https://api.github.com/notifications>; rel="next", <https://api.github.com/notifications?page=4>; rel="last""#;
    assert!(pages_from_link(link).is_err());
}

#[test]
fn test_link_bad_page_number() {
    let link = r#"<https://api.github.com/notifications?page=abc>; rel="next", <https://api.github.com/notifications?page=4>; rel="last""#;
    assert!(pages_from_link(link).is_err());
}

#[test]
fn test_link_next_after_last() {
    let link = r#"<https://api.github.com/notifications?page=5>; rel="next", <https://api.github.com/notifications?page=4>; rel="last""#;
    let pages = pages_from_link(link).unwrap();
    assert!(pages.is_empty());
}
