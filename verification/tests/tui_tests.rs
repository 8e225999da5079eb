use riirview::models::{Notification, NotificationState, NotificationType};
use riirview::service;
use riirview::store::Store;
use riirview::time::Timestamp;
use riirview::gh::UpdateStatus;
use riirview::score::Error as ScoreError;
use riirview::score::{Rule, RuleType};
use riirview::service::SyncError;
use riirview::tui::{
    ellipsis, explanation_text, headline, ids_from, keymap, render_row, route_key,
    sync_error_message, sync_pacing, ActionError, App, InputMode, Key, Message, MessageAction,
    MessageUi, Popup, Step, UiState,
};

fn ts(day: u32) -> Timestamp {
    Timestamp { year: 2025, month: 1, day, hour: 0, minute: 0, second: 0 }
}

fn row(id: &str, score: i64, day: u32) -> Notification {
    Notification {
        id: id.to_string(),
        title: format!("title {id}"),
        repo: "org/name".to_string(),
        url: String::new(),
        type_: NotificationType::PullRequest,
        unread: false,
        updated_at: ts(day),
        done: false,
        score,
        score_boost: 0,
        state: NotificationState::Open,
        author: "someone".to_string(),
        reason: "participating".to_string(),
    }
}

#[test]
fn test_ellipsis() {
    assert_eq!(ellipsis("lorem ipsum", 5), "lore\u{2026}");
    assert_eq!(ellipsis("lorem ipsum", 13), "lorem ipsum  ");
}

#[test]
fn test_keymap() {
    assert!(keymap().contains("up/down           | move cursor up or down"));
    assert!(keymap().split("\n").collect::<Vec<&str>>().len() >= 10);
}

#[test]
fn test_popup_dismiss_first() {
    let mut app = App::new();
    app.update_ui(
        MessageUi::Popup(Popup { title: "Help".into(), content: "text".into() }),
        10,
    );
    assert!(app.popup.is_some());

    // Any first message only dismisses the popup; its own effect is
    // discarded for this tick.
    let step = app.handle_message(Message::Action(MessageAction::Sync), 10);
    assert_eq!(step, Step::Continue);
    assert!(app.popup.is_none());

    // The second, distinct message acts.
    let step = app.handle_message(Message::Action(MessageAction::Sync), 10);
    assert_eq!(step, Step::Dispatch(MessageAction::Sync));
}

#[test]
fn test_popup_dismiss_swallows_ui_messages_too() {
    let mut app = App::new();
    app.update_ui(
        MessageUi::Popup(Popup { title: "Explain".into(), content: "text".into() }),
        10,
    );
    let step = app.handle_message(Message::Ui(MessageUi::MoveDown(1)), 10);
    assert_eq!(step, Step::Continue);
    assert!(app.popup.is_none());
    assert_eq!(app.cursor, 0);

    let step = app.handle_message(Message::Ui(MessageUi::MoveDown(1)), 10);
    assert_eq!(step, Step::Continue);
    assert_eq!(app.cursor, 1);
}

#[test]
fn test_selection_follow() {
    // Three rows; the cursor sits on the lowest-ranked one.
    let mut store = Store::new();
    store.upsert(row("a", 30, 3));
    store.upsert(row("b", 20, 2));
    store.upsert(row("c", 10, 1));

    let list = service::get_notifications(&store, "");
    assert_eq!(list[2].id, "c");

    let mut app = App::new();
    app.update_ui(MessageUi::MoveTo(2), list.len());
    assert_eq!(app.cursor, 2);

    // Boost the selected notification so it outranks the others.
    let boosted_id = list[2].id.clone();
    assert!(service::update_score(&mut store, &boosted_id, 100));

    // The re-sorted list moves it to the top; the cursor follows the
    // id, not the stale index.
    let list = service::get_notifications(&store, "");
    assert_eq!(list[0].id, "c");
    assert!(app.follow(&list, &boosted_id));
    assert_eq!(app.cursor, 0);
}

#[test]
fn test_search_mode_routing() {
    // In normal mode `g` is the sync shortcut.
    let (mode, msgs) = route_key(InputMode::Normal, Key::Char('g'));
    assert_eq!(mode, InputMode::Normal);
    assert_eq!(msgs, vec![Message::Action(MessageAction::Sync)]);

    // `/` enters search; printable keys then edit the buffer instead
    // of acting.
    let (mode, msgs) = route_key(InputMode::Normal, Key::Char('/'));
    assert_eq!(mode, InputMode::Search);
    assert_eq!(msgs, vec![Message::Ui(MessageUi::SearchActivate)]);

    let (mode, msgs) = route_key(InputMode::Search, Key::Char('g'));
    assert_eq!(mode, InputMode::Search);
    assert_eq!(msgs, vec![Message::Ui(MessageUi::SearchInput('g'))]);

    // Backspace edits, enter keeps the buffer and leaves text entry,
    // escape clears it.
    let (_, msgs) = route_key(InputMode::Search, Key::Backspace);
    assert_eq!(msgs, vec![Message::Ui(MessageUi::SearchBackspace)]);

    let (mode, msgs) = route_key(InputMode::Search, Key::Enter);
    assert_eq!(mode, InputMode::Normal);
    assert_eq!(msgs, vec![Message::Noop]);

    let (mode, msgs) = route_key(InputMode::Search, Key::Esc);
    assert_eq!(mode, InputMode::Normal);
    assert_eq!(
        msgs,
        vec![
            Message::Ui(MessageUi::SearchQuit),
            Message::Ui(MessageUi::Redraw)
        ]
    );
}

#[test]
fn test_search_buffer_editing() {
    let mut app = App::new();
    app.update_ui(MessageUi::SearchActivate, 0);
    assert_eq!(app.input_mode, InputMode::Search);
    app.update_ui(MessageUi::SearchInput('a'), 0);
    app.update_ui(MessageUi::SearchInput('b'), 0);
    assert_eq!(app.input, "ab");
    app.update_ui(MessageUi::SearchBackspace, 0);
    assert_eq!(app.input, "a");
    app.update_ui(MessageUi::SearchQuit, 0);
    assert_eq!(app.input, "");
    assert_eq!(app.input_mode, InputMode::Normal);
}

#[test]
fn test_cursor_moves_clamp() {
    let mut app = App::new();
    app.update_ui(MessageUi::MoveDown(3), 10);
    assert_eq!(app.cursor, 3);
    app.update_ui(MessageUi::MoveDown(10), 10);
    assert_eq!(app.cursor, 9);
    app.update_ui(MessageUi::MoveUp(4), 10);
    assert_eq!(app.cursor, 5);
    app.update_ui(MessageUi::MoveUp(10), 10);
    assert_eq!(app.cursor, 0);
}

#[test]
fn test_sync_pacing() {
    // A failed probe waits the floor and assumes an update.
    assert_eq!(sync_pacing(None), (300, true));
    // The server's suggested interval wins only above the floor.
    let us = UpdateStatus {
        need_update: false,
        last_update: ts(1),
        poll_interval: 60,
        ratelimit_remaining: 100,
        ratelimit_used: 1,
    };
    assert_eq!(sync_pacing(Some(&us)), (300, false));
    let us = UpdateStatus { poll_interval: 900, need_update: true, ..us };
    assert_eq!(sync_pacing(Some(&us)), (900, true));
}

#[test]
fn test_sync_error_messages() {

    assert_eq!(
        sync_error_message(&ActionError::Gateway(riirview::gh::Error::MissingToken)),
        "env var GH_TOKEN is missing"
    );
    assert_eq!(
        sync_error_message(&ActionError::Sync(SyncError::Scorer(ScoreError::RuleFileNotFound))),
        "rule file not found"
    );
    assert_eq!(
        sync_error_message(&ActionError::Sync(SyncError::Scorer(ScoreError::InvalidToml))),
        "invalid toml"
    );
    assert_eq!(
        sync_error_message(&ActionError::Sync(SyncError::Scorer(ScoreError::InvalidRule(
            "color".into()
        )))),
        "invalid rule \"color\""
    );
    assert_eq!(
        sync_error_message(&ActionError::Sync(SyncError::MissingPullRequest)),
        "cannot sync"
    );
    assert_eq!(sync_error_message(&ActionError::Other), "cannot sync");
}

#[test]
fn test_render_row() {
    let n = row("a", 7, 1);
    let line = render_row(&n, "3 hours ago");
    assert!(line.starts_with("  7 \u{1f4ec} 3 hours ago    "));
    assert!(line.contains("org/name"));
    assert!(line.contains("title a"));
}

#[test]
fn test_explanation_text() {

    let rules = vec![Rule {
        rule: RuleType::Author,
        name: "me".into(),
        params: vec!["JohnDoe".into()],
        score: 100,
    }];
    assert_eq!(explanation_text(&rules, 0), "\nrule:me score:100\n");
    assert_eq!(
        explanation_text(&rules, 10),
        "\nrule:me score:100\n\nmanual boost:10"
    );
    assert_eq!(
        explanation_text(&Vec::new(), 0),
        "\nThis notification doesn't match any rule"
    );
    assert_eq!(explanation_text(&Vec::new(), 10), "\nmanual boost:10");
}

#[test]
fn test_ui_state_reset() {
    let mut s = UiState::loading_msg("working".into());
    s.reset();
    assert_eq!(s.info, "working");
    assert!(s.loading);

    let mut s = UiState::error_msg("boom".into());
    s.reset();
    assert_eq!(s.error, "");
    assert!(!s.loading);
}

#[test]
fn test_headline() {
    assert_eq!(headline(&UiState::empty(), 12), Ok("Riirview, 12 notifs".to_string()));
    assert_eq!(headline(&UiState::info_msg("hello".into()), 12), Ok("hello".to_string()));
    assert_eq!(
        headline(&UiState::loading_msg("working".into()), 12),
        Ok("working \u{231b}".to_string())
    );
    assert_eq!(headline(&UiState::error_msg("boom".into()), 12), Err("boom".to_string()));
}

#[test]
fn test_ids_from() {
    let list = vec![row("a", 0, 1), row("b", 0, 2), row("c", 0, 3)];
    assert_eq!(ids_from(&list, 0), vec!["a", "b", "c"]);
    assert_eq!(ids_from(&list, 1), vec!["b", "c"]);
    assert!(ids_from(&list, 3).is_empty());
    assert!(ids_from(&list, 7).is_empty());
}
