use riirview::config::Config;

#[test]
fn test_config_default() {
    let config = Config::reset();
    assert_eq!(config.github_base_url, "https://api.github.com");
}

#[test]
fn test_config_init_test() {
    let config = Config::init_for_test(
        "http://localhost:1234".to_string(),
        "/tmp/test.db".to_string(),
        "/tmp/rules.toml".to_string(),
    );
    assert_eq!(config.github_base_url, "http://localhost:1234");
}

#[test]
fn test_config_change() {
    let config = Config::reset();
    assert_eq!(config.github_base_url, "https://api.github.com");
    let config = Config::init_for_test(
        "http://localhost:1234".to_string(),
        "/tmp/test.db".to_string(),
        "/tmp/rules.toml".to_string(),
    );
    assert_eq!(config.github_base_url, "http://localhost:1234");
}

#[test]
fn test_rewrite_url() {
    let test_url = "https://api.github.com/repos/rust-lang/rust";

    let config = Config::reset();
    let rewritten_url = config.rewrite_url(test_url);
    assert_eq!(rewritten_url, test_url);

    let config = Config::init_for_test(
        "http://localhost:1234".to_string(),
        "/tmp/test.db".to_string(),
        "/tmp/rules.toml".to_string(),
    );
    let rewritten_url = config.rewrite_url(test_url);
    assert_eq!(rewritten_url, "http://localhost:1234/repos/rust-lang/rust");
}

#[test]
fn test_rewrite_url_foreign_base() {
    let config = Config::init_for_test(
        "http://localhost:1234".to_string(),
        String::new(),
        String::new(),
    );
    assert_eq!(
        config.rewrite_url("https://example.com/repos/x"),
        "https://example.com/repos/x"
    );
}
