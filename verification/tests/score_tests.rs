use riirview::models::{Notification, NotificationState, NotificationType};
use riirview::score::{Rule, RuleType, Scorer};
use riirview::time::Timestamp;

fn rules_toml() -> &'static str {
    "[me]\n\
     rule = \"author\"\n\
     param = \"JohnDoe\"\n\
     score = 100\n\
     \n\
     [friends]\n\
     rule = \"author\"\n\
     param = \"alice, bob\"\n\
     score = 50\n\
     \n\
     [my_fav_repos]\n\
     rule = \"repo\"\n\
     param = \"torvalds/linux, emacs-mirror/emacs\"\n\
     score = 5\n"
}

fn create_notification() -> Notification {
    Notification {
        id: "1".to_string(),
        reason: "participating".to_string(),
        title: "title".into(),
        url: "http://exemple.com".into(),
        type_: NotificationType::PullRequest,
        repo: "torvalds/linux".into(),
        unread: true,
        updated_at: Timestamp { year: 2025, month: 1, day: 1, hour: 0, minute: 0, second: 0 },
        done: false,
        score: 0,
        state: NotificationState::Open,
        author: "JohnDoe".into(),
        score_boost: 0,
    }
}

#[test]
fn test_scorer_builder() {
    let scorer = Scorer::new(Some(rules_toml())).unwrap();

    assert_eq!(scorer.rules.len(), 3);
    let mut display_names: Vec<String> = scorer.rules.iter().map(|r| r.name.clone()).collect();
    display_names.sort();
    assert_eq!(
        display_names,
        vec![
            "friends".to_string(),
            "me".to_string(),
            "my_fav_repos".to_string()
        ]
    );

    let tl_rule = scorer
        .rules
        .iter()
        .find(|r| r.name == "my_fav_repos")
        .unwrap();

    assert_eq!(tl_rule.rule, RuleType::Repo);
    assert_eq!(tl_rule.params, vec!["torvalds/linux", "emacs-mirror/emacs"]);
    assert_eq!(tl_rule.score, 5);
}

#[test]
fn test_scorer_score() {
    let scorer = Scorer::new(Some(rules_toml())).unwrap();

    let db_notification = create_notification();

    assert_eq!(scorer.score(&db_notification), 105);
}

#[test]
fn test_scorer_title() {
    let notification = create_notification();

    let hit = Rule {
        rule: RuleType::Title,
        name: "t".into(),
        params: vec!["bad title".into(), "title".into(), "another title".into()],
        score: 1,
    };
    assert_eq!(hit.matcher(&notification) != 0, true);

    let miss = Rule {
        rule: RuleType::Title,
        name: "t".into(),
        params: vec!["bad title".into(), "another title".into()],
        score: 1,
    };
    assert_eq!(miss.matcher(&notification) != 0, false);
}

#[test]
fn test_scorer_org() {
    let notification = create_notification();

    let org_rule = |params: Vec<String>| Rule {
        rule: RuleType::Org,
        name: "o".into(),
        params,
        score: 1,
    };

    assert_eq!(org_rule(vec!["torvalds".into()]).matcher(&notification) != 0, true);
    assert_eq!(org_rule(vec!["!torvalds".into()]).matcher(&notification) != 0, false);
    assert_eq!(org_rule(vec!["!rms".into()]).matcher(&notification) != 0, true);
    assert_eq!(org_rule(vec!["deraadt".into()]).matcher(&notification) != 0, false)
}

#[test]
fn test_scorer_reason() {
    let notification = create_notification();

    let hit = Rule {
        rule: RuleType::Reason,
        name: "r".into(),
        params: vec!["comment".into(), "participating".into(), "mention".into()],
        score: 1,
    };
    assert_eq!(hit.matcher(&notification) != 0, true);

    let miss = Rule {
        rule: RuleType::Reason,
        name: "r".into(),
        params: vec!["comment".into(), "mention".into()],
        score: 1,
    };
    assert_eq!(miss.matcher(&notification) != 0, false);
}

#[test]
fn test_scorer_missing_file_is_empty() {
    let scorer = Scorer::new(None).unwrap();
    assert_eq!(scorer.rules.len(), 0);
    assert_eq!(scorer.score(&create_notification()), 0);
}

#[test]
fn test_scorer_invalid_toml() {
    let err = Scorer::new(Some("not = toml = at all")).unwrap_err();
    assert_eq!(err, riirview::score::Error::InvalidToml);
}

#[test]
fn test_scorer_missing_field() {
    let err = Scorer::new(Some("[a]\nrule = \"author\"\nscore = 1\n")).unwrap_err();
    assert_eq!(err, riirview::score::Error::InvalidToml);
}

#[test]
fn test_scorer_invalid_rule_kind() {
    let err =
        Scorer::new(Some("[a]\nrule = \"color\"\nparam = \"x\"\nscore = 1\n")).unwrap_err();
    assert_eq!(err, riirview::score::Error::InvalidRule("color".to_string()));
}

#[test]
fn test_scorer_explain_lists_matches() {
    let scorer = Scorer::new(Some(rules_toml())).unwrap();
    let n = create_notification();
    let matched = scorer.explain(&n);
    let mut names: Vec<String> = matched.iter().map(|r| r.name.clone()).collect();
    names.sort();
    assert_eq!(names, vec!["me".to_string(), "my_fav_repos".to_string()]);
}
