//! The terminal coordinator's state machine.
//!
//! A single owner holds all interface state and consumes one message
//! at a time from a channel fed by the input reader, the periodic
//! sync probe and the periodic redraw timer.  Everything the
//! coordinator decides — key routing, the popup-dismiss rule, cursor
//! movement, search editing, sync pacing, error wording and row
//! rendering — is here; the terminal, the channel and the clocks
//! stay outside.

use vstd::prelude::*;
use crate::gh::UpdateStatus;
use crate::models::Notification;
use crate::models::NotificationState;
use crate::models::NotificationType;
use crate::score::Rule;
use crate::service::SyncError;
use crate::text::chars_eq;
use crate::text::chars_of;
use crate::text::copy_range;
use crate::text::fmt_i64;
use crate::text::int_str;
use crate::text::string_from_chars;

verus! {

/// A terminal key, as the input reader reports it.
#[derive(Debug, Clone, Copy, PartialEq, Eq, Structural)]
pub enum Key {
    Up,
    Down,
    PageUp,
    PageDown,
    Enter,
    Esc,
    Backspace,
    Char(char),
    Other,
}

/// An action a message can ask for.
#[derive(Debug, Clone, Copy, PartialEq, Eq, Structural)]
pub enum MessageAction {
    Quit,
    ScoreIncrement(i64),
    Open,
    MarkAsDone,
    MarkBelowAsDone,
    Sync,
    SyncBackground,
    Explain,
    Help,
}

/// The status line's content.
#[derive(Debug, Clone, PartialEq, Eq)]
pub struct UiState {
    pub info: String,
    pub error: String,
    pub loading: bool,
}

/// A centered overlay.
#[derive(Debug, Clone, PartialEq, Eq)]
pub struct Popup {
    pub title: String,
    pub content: String,
}

/// A pure interface mutation.
#[derive(Debug, Clone, PartialEq, Eq)]
pub enum MessageUi {
    MoveUp(u16),
    MoveDown(u16),
    MoveTo(usize),
    UiUpdate(UiState),
    Popup(Popup),
    SearchActivate,
    SearchInput(char),
    SearchBackspace,
    SearchQuit,
    Redraw,
}

/// What flows through the coordinator's channel.
#[derive(Debug, Clone, PartialEq, Eq)]
pub enum Message {
    Action(MessageAction),
    Ui(MessageUi),
    Noop,
}

/// Whether keystrokes act as shortcuts or feed the search buffer.
#[derive(Debug, Clone, Copy, PartialEq, Eq, Structural)]
pub enum InputMode {
    Normal,
    Search,
}

impl UiState {
    /// A neutral status line.
    pub fn empty() -> (r: UiState)
        ensures
            r.info@ == Seq::<char>::empty(),
            r.error@ == Seq::<char>::empty(),
            !r.loading,
    {
        UiState { info: String::new(), error: String::new(), loading: false }
    }

    /// Clears the line, unless an operation is still loading.
    pub fn reset(&mut self)
        ensures
            old(self).loading ==> *final(self) == *old(self),
            !old(self).loading ==> final(self).info@ == Seq::<char>::empty() && final(self).error@ == Seq::<char>::empty() && final(self).loading == old(self).loading,
    {
        if !self.loading {
            self.info = String::new();
            self.error = String::new();
        }
    }

    /// An informational line.
    pub fn info_msg(message: String) -> (r: UiState)
        ensures
            r.info == message,
            r.error@ == Seq::<char>::empty(),
            !r.loading,
    {
        UiState { info: message, error: String::new(), loading: false }
    }

    /// A line that shows an operation in flight.
    pub fn loading_msg(message: String) -> (r: UiState)
        ensures
            r.info == message,
            r.error@ == Seq::<char>::empty(),
            r.loading,
    {
        UiState { info: message, error: String::new(), loading: true }
    }

    /// An error line.
    pub fn error_msg(message: String) -> (r: UiState)
        ensures
            r.info@ == Seq::<char>::empty(),
            r.error == message,
            !r.loading,
    {
        UiState { info: String::new(), error: message, loading: false }
    }
}

/// What one consumed message asks the surrounding loop to do.
#[derive(Debug, Clone, Copy, PartialEq, Eq, Structural)]
pub enum Step {
    /// Keep pulling messages.
    Continue,
    /// Break the loop and cancel the background producers.
    Quit,
    /// Spawn a detached task for this action.
    Dispatch(MessageAction),
}

/// The interface state the coordinator owns.
#[derive(Debug, Clone)]
pub struct App {
    pub state: UiState,
    pub popup: Option<Popup>,
    pub input: String,
    pub input_mode: InputMode,
    pub cursor: usize,
}

impl App {
    /// A fresh interface: normal mode, empty search, cursor on the
    /// first row, no popup.
    pub fn new() -> (r: App)
        ensures
            r.state.info@ == Seq::<char>::empty(),
            r.state.error@ == Seq::<char>::empty(),
            !r.state.loading,
            r.popup is None,
            r.input@ == Seq::<char>::empty(),
            r.input_mode == InputMode::Normal,
            r.cursor == 0,
    {
        App {
            state: UiState::empty(),
            popup: None,
            input: String::new(),
            input_mode: InputMode::Normal,
            cursor: 0,
        }
    }

    /// Applies one interface mutation.  `list_len` is the length of
    /// the displayed list, which bounds the cursor.
    pub fn update_ui(&mut self, message: MessageUi, list_len: usize)
        ensures
            ui_effect(*old(self), *final(self), message, list_len as int),
    {
        match message {
            MessageUi::MoveUp(k) => {
                let k = k as usize;
                self.cursor = if self.cursor >= k {
                    self.cursor - k
                } else {
                    0
                };
                self.state.reset();
            },
            MessageUi::MoveDown(k) => {
                let k = k as usize;
                let limit: usize = if list_len > 0 {
                    list_len - 1
                } else {
                    0
                };
                self.cursor = if self.cursor > limit || k > limit - self.cursor {
                    limit
                } else {
                    self.cursor + k
                };
                self.state.reset();
            },
            MessageUi::MoveTo(p) => {
                self.cursor = p;
                self.state.reset();
            },
            MessageUi::Redraw => {
                self.state.reset();
            },
            MessageUi::Popup(p) => {
                self.popup = Some(p);
                self.state.reset();
            },
            MessageUi::UiUpdate(u) => {
                self.state = u;
            },
            MessageUi::SearchActivate => {
                self.state.reset();
                self.input_mode = InputMode::Search;
            },
            MessageUi::SearchInput(c) => {
                let mut v = chars_of(self.input.as_str());
                v.push(c);
                self.input = string_from_chars(&v);
                self.state.reset();
            },
            MessageUi::SearchBackspace => {
                let v = chars_of(self.input.as_str());
                let m = v.len();
                if m > 0 {
                    let w = copy_range(v.as_slice(), 0, m - 1);
                    proof {
                        assert(w@ =~= old(self).input@.drop_last());
                    }
                    self.input = string_from_chars(&w);
                }
            },
            MessageUi::SearchQuit => {
                self.input = String::new();
                self.state.reset();
                self.input_mode = InputMode::Normal;
            },
        }
    }

    /// Consumes one message.  When a popup is open, any message —
    /// whatever it asks for — only dismisses the popup and forces a
    /// redraw; its own effect is discarded, so a second message is
    /// needed to act.  Otherwise actions are handed back for
    /// dispatch (`Quit` breaks the loop) and interface mutations
    /// apply at once.
    pub fn handle_message(&mut self, message: Message, list_len: usize) -> (r: Step)
        ensures
            old(self).popup is Some ==> {
                &&& r == Step::Continue
                &&& final(self).popup is None
                &&& final(self).input == old(self).input
                &&& final(self).input_mode == old(self).input_mode
                &&& final(self).cursor == old(self).cursor
                &&& reset_of(final(self).state, old(self).state)
            },
            old(self).popup is None ==> match message {
                Message::Action(a) => *final(self) == *old(self) && (if a == MessageAction::Quit {
                    r == Step::Quit
                } else {
                    r == Step::Dispatch(a)
                }),
                Message::Ui(u) => r == Step::Continue && ui_effect(
                    *old(self),
                    *final(self),
                    u,
                    list_len as int,
                ),
                Message::Noop => r == Step::Continue && *final(self) == *old(self),
            },
    {
        if self.popup.is_some() {
            self.popup = None;
            self.state.reset();
            return Step::Continue;
        }
        match message {
            Message::Action(a) => {
                if a == MessageAction::Quit {
                    Step::Quit
                } else {
                    Step::Dispatch(a)
                }
            },
            Message::Ui(u) => {
                self.update_ui(u, list_len);
                Step::Continue
            },
            Message::Noop => Step::Continue,
        }
    }

    /// Re-locates a notification by id in a freshly re-sorted list
    /// and moves the cursor there, so a re-ranked row stays
    /// selected; a stale numeric index is never kept.
    pub fn follow(&mut self, list: &Vec<Notification>, id: &str) -> (found: bool)
        ensures
            final(self).state == old(self).state,
            final(self).popup == old(self).popup,
            final(self).input == old(self).input,
            final(self).input_mode == old(self).input_mode,
            found == (exists|i: int|
                0 <= i < list@.len() && (#[trigger] list@[i]).id@ == id@),
            found ==> final(self).cursor < list@.len() && list@[final(self).cursor as int].id@
                == id@,
            !found ==> final(self).cursor == old(self).cursor,
    {
        let idc = chars_of(id);
        let n = list.len();
        let mut i: usize = 0;
        while i < n
            invariant
                n == list@.len(),
                i <= n,
                idc@ == id@,
                self.state == old(self).state,
                self.popup == old(self).popup,
                self.input == old(self).input,
                self.input_mode == old(self).input_mode,
                self.cursor == old(self).cursor,
                forall|j: int| 0 <= j < i ==> (#[trigger] list@[j]).id@ != id@,
            decreases n - i,
        {
            let rc = chars_of(list[i].id.as_str());
            if chars_eq(rc.as_slice(), idc.as_slice()) {
                self.cursor = i;
                return true;
            }
            i = i + 1;
        }
        false
    }
}

/// The exact effect of one interface mutation on the coordinator's
/// state: `o` before, `s` after.
pub open spec fn ui_effect(o: App, s: App, message: MessageUi, list_len: int) -> bool {
    match message {
        MessageUi::MoveUp(k) => s.cursor == (if o.cursor >= k as int {
            o.cursor - k as int
        } else {
            0
        }) && s.popup == o.popup && s.input == o.input && s.input_mode == o.input_mode
            && reset_of(s.state, o.state),
        MessageUi::MoveDown(k) => s.cursor == down_cursor(o.cursor as int, k as int, list_len)
            && s.popup == o.popup && s.input == o.input && s.input_mode == o.input_mode
            && reset_of(s.state, o.state),
        MessageUi::MoveTo(p) => s.cursor == p && s.popup == o.popup && s.input == o.input
            && s.input_mode == o.input_mode && reset_of(s.state, o.state),
        MessageUi::Redraw => s.cursor == o.cursor && s.popup == o.popup && s.input == o.input
            && s.input_mode == o.input_mode && reset_of(s.state, o.state),
        MessageUi::Popup(p) => s.popup == Some(p) && s.cursor == o.cursor && s.input == o.input
            && s.input_mode == o.input_mode && reset_of(s.state, o.state),
        MessageUi::UiUpdate(u) => s.state == u && s.popup == o.popup && s.cursor == o.cursor
            && s.input == o.input && s.input_mode == o.input_mode,
        MessageUi::SearchActivate => s.input_mode == InputMode::Search && s.popup == o.popup
            && s.cursor == o.cursor && s.input == o.input && reset_of(s.state, o.state),
        MessageUi::SearchInput(c) => s.input@ == o.input@.push(c) && s.popup == o.popup
            && s.cursor == o.cursor && s.input_mode == o.input_mode && reset_of(
            s.state,
            o.state,
        ),
        MessageUi::SearchBackspace => s.input@ == (if o.input@.len() > 0 {
            o.input@.drop_last()
        } else {
            o.input@
        }) && s.popup == o.popup && s.cursor == o.cursor && s.input_mode == o.input_mode
            && s.state == o.state,
        MessageUi::SearchQuit => s.input@ == Seq::<char>::empty() && s.input_mode
            == InputMode::Normal && s.popup == o.popup && s.cursor == o.cursor && reset_of(
            s.state,
            o.state,
        ),
    }
}

/// What `reset` leaves of a status line.
pub open spec fn reset_of(s: UiState, o: UiState) -> bool {
    if o.loading {
        s == o
    } else {
        s.info@ == Seq::<char>::empty() && s.error@ == Seq::<char>::empty() && s.loading
            == o.loading
    }
}

/// Where a downward move lands: forward by `k`, capped at the last
/// row (or zero for an empty list).
pub open spec fn down_cursor(cursor: int, k: int, list_len: int) -> int {
    let limit = if list_len > 0 {
        list_len - 1
    } else {
        0
    };
    if cursor > limit || cursor + k > limit {
        limit
    } else {
        cursor + k
    }
}

/// The messages one key stroke produces, and the reader's next mode.
pub open spec fn routed(mode: InputMode, key: Key) -> (InputMode, Seq<Message>) {
    match mode {
        InputMode::Normal => match key {
            Key::Down => (mode, seq![Message::Ui(MessageUi::MoveDown(1))]),
            Key::PageDown => (mode, seq![Message::Ui(MessageUi::MoveDown(10))]),
            Key::Up => (mode, seq![Message::Ui(MessageUi::MoveUp(1))]),
            Key::PageUp => (mode, seq![Message::Ui(MessageUi::MoveUp(10))]),
            Key::Char('/') => (InputMode::Search, seq![Message::Ui(MessageUi::SearchActivate)]),
            Key::Esc => (
                mode,
                seq![Message::Ui(MessageUi::SearchQuit), Message::Ui(MessageUi::Redraw)],
            ),
            Key::Char('q') => (mode, seq![Message::Action(MessageAction::Quit)]),
            Key::Char('+') => (mode, seq![Message::Action(MessageAction::ScoreIncrement(10i64))]),
            Key::Char('-') => (mode, seq![Message::Action(MessageAction::ScoreIncrement(-10i64))]),
            Key::Enter => (mode, seq![Message::Action(MessageAction::Open)]),
            Key::Char('r') => (mode, seq![Message::Action(MessageAction::MarkAsDone)]),
            Key::Char('R') => (mode, seq![Message::Action(MessageAction::MarkBelowAsDone)]),
            Key::Char('g') => (mode, seq![Message::Action(MessageAction::Sync)]),
            Key::Char('x') => (mode, seq![Message::Action(MessageAction::Explain)]),
            Key::Char('?') => (mode, seq![Message::Action(MessageAction::Help)]),
            _ => (mode, seq![Message::Noop]),
        },
        InputMode::Search => match key {
            Key::Enter => (InputMode::Normal, seq![Message::Noop]),
            Key::Backspace => (mode, seq![Message::Ui(MessageUi::SearchBackspace)]),
            Key::Char(c) => (mode, seq![Message::Ui(MessageUi::SearchInput(c))]),
            Key::Esc => (
                InputMode::Normal,
                seq![Message::Ui(MessageUi::SearchQuit), Message::Ui(MessageUi::Redraw)],
            ),
            _ => (mode, seq![Message::Noop]),
        },
    }
}

/// Routes one key stroke: in normal mode keys are action shortcuts,
/// in search mode printable keys edit the query buffer.
pub fn route_key(mode: InputMode, key: Key) -> (r: (InputMode, Vec<Message>))
    ensures
        r.0 == routed(mode, key).0,
        r.1@ == routed(mode, key).1,
{
    let mut out: Vec<Message> = Vec::new();
    let next: InputMode;
    match mode {
        InputMode::Normal => {
            match key {
                Key::Down => {
                    out.push(Message::Ui(MessageUi::MoveDown(1)));
                    next = mode;
                },
                Key::PageDown => {
                    out.push(Message::Ui(MessageUi::MoveDown(10)));
                    next = mode;
                },
                Key::Up => {
                    out.push(Message::Ui(MessageUi::MoveUp(1)));
                    next = mode;
                },
                Key::PageUp => {
                    out.push(Message::Ui(MessageUi::MoveUp(10)));
                    next = mode;
                },
                Key::Esc => {
                    out.push(Message::Ui(MessageUi::SearchQuit));
                    out.push(Message::Ui(MessageUi::Redraw));
                    next = mode;
                },
                Key::Enter => {
                    out.push(Message::Action(MessageAction::Open));
                    next = mode;
                },
                Key::Char(c) => {
                    if c == '/' {
                        out.push(Message::Ui(MessageUi::SearchActivate));
                        next = InputMode::Search;
                    } else if c == 'q' {
                        out.push(Message::Action(MessageAction::Quit));
                        next = mode;
                    } else if c == '+' {
                        out.push(Message::Action(MessageAction::ScoreIncrement(10)));
                        next = mode;
                    } else if c == '-' {
                        out.push(Message::Action(MessageAction::ScoreIncrement(-10)));
                        next = mode;
                    } else if c == 'r' {
                        out.push(Message::Action(MessageAction::MarkAsDone));
                        next = mode;
                    } else if c == 'R' {
                        out.push(Message::Action(MessageAction::MarkBelowAsDone));
                        next = mode;
                    } else if c == 'g' {
                        out.push(Message::Action(MessageAction::Sync));
                        next = mode;
                    } else if c == 'x' {
                        out.push(Message::Action(MessageAction::Explain));
                        next = mode;
                    } else if c == '?' {
                        out.push(Message::Action(MessageAction::Help));
                        next = mode;
                    } else {
                        out.push(Message::Noop);
                        next = mode;
                    }
                },
                _ => {
                    out.push(Message::Noop);
                    next = mode;
                },
            }
        },
        InputMode::Search => {
            match key {
                Key::Enter => {
                    out.push(Message::Noop);
                    next = InputMode::Normal;
                },
                Key::Backspace => {
                    out.push(Message::Ui(MessageUi::SearchBackspace));
                    next = mode;
                },
                Key::Esc => {
                    out.push(Message::Ui(MessageUi::SearchQuit));
                    out.push(Message::Ui(MessageUi::Redraw));
                    next = InputMode::Normal;
                },
                Key::Char(c) => {
                    out.push(Message::Ui(MessageUi::SearchInput(c)));
                    next = mode;
                },
                _ => {
                    out.push(Message::Noop);
                    next = mode;
                },
            }
        },
    }
    proof {
        assert(out@ =~= routed(mode, key).1);
    }
    (next, out)
}

/// The floor, in seconds, under every wait between two background
/// sync probes.
pub const REFRESH_DELAY_SEC: u64 = 300;

/// How often, in seconds, the interface redraws on its own so that
/// relative timestamps stay fresh.
pub const REDRAW_DELAY_SEC: u64 = 60;

/// How the background loop paces itself from a probe outcome: never
/// sleep under the floor or under the server's suggested interval,
/// and treat a failed probe as "update needed" after the floor.
pub fn sync_pacing(probe: Option<&UpdateStatus>) -> (r: (u64, bool))
    ensures
        probe is None ==> r == (REFRESH_DELAY_SEC, true),
        probe matches Some(us) ==> r.0 == (if us.poll_interval > REFRESH_DELAY_SEC {
            us.poll_interval
        } else {
            REFRESH_DELAY_SEC
        }) && r.1 == us.need_update,
{
    match probe {
        None => (REFRESH_DELAY_SEC, true),
        Some(us) => {
            let delay = if us.poll_interval > REFRESH_DELAY_SEC {
                us.poll_interval
            } else {
                REFRESH_DELAY_SEC
            };
            (delay, us.need_update)
        },
    }
}

/// Every failure an action task can resolve to.
#[derive(Debug, Clone, PartialEq, Eq)]
pub enum ActionError {
    /// A failure of the sync cycle itself.
    Sync(SyncError),
    /// A failure of the gateway before any request went out.
    Gateway(crate::gh::Error),
    /// Anything unrecognized.
    Other,
}

/// The short user-facing line for an action failure; full detail is
/// for the log, never for the status line.
pub fn sync_error_message(e: &ActionError) -> (r: String)
    ensures
        r@ == spec_error_message(*e),
{
    match e {
        ActionError::Gateway(crate::gh::Error::MissingToken) => {
            let v = chars_of("env var GH_TOKEN is missing");
            string_from_chars(&v)
        },
        ActionError::Sync(SyncError::Scorer(se)) => {
            match se {
                crate::score::Error::RuleFileNotFound => {
                    let v = chars_of("rule file not found");
                    string_from_chars(&v)
                },
                crate::score::Error::InvalidToml => {
                    let v = chars_of("invalid toml");
                    string_from_chars(&v)
                },
                crate::score::Error::InvalidRule(msg) => {
                    let mut v = chars_of("invalid rule \"");
                    let mut m = chars_of(msg.as_str());
                    v.append(&mut m);
                    v.push('"');
                    proof {
                        reveal_strlit("\"");
                        assert(v@ =~= "invalid rule \""@ + msg@ + "\""@);
                    }
                    string_from_chars(&v)
                },
            }
        },
        ActionError::Sync(_) => {
            let v = chars_of("cannot sync");
            string_from_chars(&v)
        },
        ActionError::Other => {
            let v = chars_of("cannot sync");
            string_from_chars(&v)
        },
    }
}

/// The wording of each failure.
pub open spec fn spec_error_message(e: ActionError) -> Seq<char> {
    match e {
        ActionError::Gateway(crate::gh::Error::MissingToken) => "env var GH_TOKEN is missing"@,
        ActionError::Sync(SyncError::Scorer(crate::score::Error::RuleFileNotFound)) => "rule file not found"@,
        ActionError::Sync(SyncError::Scorer(crate::score::Error::InvalidToml)) => "invalid toml"@,
        ActionError::Sync(SyncError::Scorer(crate::score::Error::InvalidRule(msg))) => "invalid rule \""@
            + msg@ + "\""@,
        ActionError::Sync(_) => "cannot sync"@,
        ActionError::Other => "cannot sync"@,
    }
}

/// `k` spaces.
pub open spec fn spaces(k: int) -> Seq<char>
    decreases k,
{
    if k <= 0 {
        Seq::empty()
    } else {
        spaces(k - 1).push(' ')
    }
}

/// What `ellipsis` produces: text cut to `m` characters with a
/// trailing ellipsis mark, or padded with spaces up to `m`.
pub open spec fn ellipsis_spec(s: Seq<char>, m: int) -> Seq<char> {
    if s.len() > m {
        s.subrange(0, m - 1).push('\u{2026}')
    } else {
        s + spaces(m - s.len())
    }
}

/// Cuts or pads `txt` to exactly `max_len` characters for a list
/// column.
pub fn ellipsis(txt: &str, max_len: usize) -> (r: String)
    requires
        max_len >= 1,
    ensures
        r@ == ellipsis_spec(txt@, max_len as int),
{
    let c = chars_of(txt);
    let n = c.len();
    if n > max_len {
        let mut v = copy_range(c.as_slice(), 0, max_len - 1);
        v.push('\u{2026}');
        proof {
            assert(v@ =~= txt@.subrange(0, max_len - 1).push('\u{2026}'));
        }
        string_from_chars(&v)
    } else {
        let mut v = copy_range(c.as_slice(), 0, n);
        proof {
            assert(v@ =~= txt@ + spaces(0));
        }
        let mut k: usize = 0;
        let pad = max_len - n;
        while k < pad
            invariant
                pad == max_len - n,
                n == txt@.len(),
                k <= pad,
                v@ == txt@ + spaces(k as int),
            decreases pad - k,
        {
            v.push(' ');
            k = k + 1;
            proof {
                assert(v@ =~= txt@ + spaces(k as int));
            }
        }
        string_from_chars(&v)
    }
}

/// The icon of a row, by subject kind and derived state.  An issue
/// is never a draft.
pub open spec fn icon_spec(kind: NotificationType, state: NotificationState) -> Seq<char> {
    match kind {
        NotificationType::Issue => match state {
            NotificationState::Open => "\u{1f41b}"@,
            NotificationState::Resolved => "\u{1f98b}"@,
            _ => "\u{1fab3}"@,
        },
        NotificationType::Release => "\u{1f6a2}"@,
        NotificationType::PullRequest => match state {
            NotificationState::Open => "\u{1f4ec}"@,
            NotificationState::Resolved => "\u{1f4ea}"@,
            NotificationState::Canceled => "\u{274c}"@,
            NotificationState::Draft => "\u{1f4dd}"@,
        },
    }
}

/// Picks the row icon.
pub fn icon(kind: NotificationType, state: NotificationState) -> (r: String)
    requires
        !(kind == NotificationType::Issue && state == NotificationState::Draft),
    ensures
        r@ == icon_spec(kind, state),
{
    let s: &str = match kind {
        NotificationType::Issue => match state {
            NotificationState::Open => "\u{1f41b}",
            NotificationState::Resolved => "\u{1f98b}",
            _ => "\u{1fab3}",
        },
        NotificationType::Release => "\u{1f6a2}",
        NotificationType::PullRequest => match state {
            NotificationState::Open => "\u{1f4ec}",
            NotificationState::Resolved => "\u{1f4ea}",
            NotificationState::Canceled => "\u{274c}",
            NotificationState::Draft => "\u{1f4dd}",
        },
    };
    let v = chars_of(s);
    string_from_chars(&v)
}

/// A number padded on the left with spaces to at least `w`.
pub open spec fn pad_left(s: Seq<char>, w: int) -> Seq<char> {
    if s.len() >= w {
        s
    } else {
        spaces(w - s.len()) + s
    }
}

/// One displayed row: rank, icon, relative time, author, repo and
/// title, each column cut or padded to its width.
pub open spec fn row_spec(n: Notification, time: Seq<char>) -> Seq<char> {
    pad_left(int_str(crate::models::rank(n)), 3) + seq![' '] + icon_spec(n.type_, n.state)
        + seq![' '] + ellipsis_spec(time, 15) + seq![' '] + ellipsis_spec(n.author@, 15)
        + seq![' '] + ellipsis_spec(n.repo@, 30) + seq![' '] + ellipsis_spec(n.title@, 80)
}

/// Renders one row of the list.  The caller supplies the humanized
/// relative time.
pub fn render_row(n: &Notification, time: &str) -> (r: String)
    requires
        !(n.type_ == NotificationType::Issue && n.state == NotificationState::Draft),
    ensures
        r@ == row_spec(*n, time@),
{
    let rank: i128 = n.rank_val();
    let mut num = crate::text::fmt_i128(rank);
    let mut v: Vec<char> = Vec::new();
    if num.len() < 3 {
        let mut k: usize = 0;
        let pad = 3 - num.len();
        while k < pad
            invariant
                k <= pad,
                v@ == spaces(k as int),
            decreases pad - k,
        {
            v.push(' ');
            k = k + 1;
        }
        proof {
            assert(v@ =~= spaces(3 - num@.len()));
        }
    }
    v.append(&mut num);
    v.push(' ');
    let mut ic = chars_of(icon(n.type_, n.state).as_str());
    v.append(&mut ic);
    v.push(' ');
    let mut tc = chars_of(ellipsis(time, 15).as_str());
    v.append(&mut tc);
    v.push(' ');
    let mut ac = chars_of(ellipsis(n.author.as_str(), 15).as_str());
    v.append(&mut ac);
    v.push(' ');
    let mut rc = chars_of(ellipsis(n.repo.as_str(), 30).as_str());
    v.append(&mut rc);
    v.push(' ');
    let mut tl = chars_of(ellipsis(n.title.as_str(), 80).as_str());
    v.append(&mut tl);
    proof {
        assert(v@ =~= row_spec(*n, time@));
    }
    string_from_chars(&v)
}

/// The help table shown by the help popup.
pub fn keymap() -> (r: String)
    ensures
        r@
            == "up/down           | move cursor up or down\npgup/pgdown       | move cursor by ten\nenter             | open in browser\n+/-               | raise or lower the score\nr                 | mark as done\nR                 | mark all below as done\ng                 | sync now\n/                 | search\nesc               | leave search\nx                 | explain the score\n?                 | this help\nq                 | quit"@,
{
    let v = chars_of(
        "up/down           | move cursor up or down\npgup/pgdown       | move cursor by ten\nenter             | open in browser\n+/-               | raise or lower the score\nr                 | mark as done\nR                 | mark all below as done\ng                 | sync now\n/                 | search\nesc               | leave search\nx                 | explain the score\n?                 | this help\nq                 | quit",
    );
    string_from_chars(&v)
}

/// The lines of the explain popup for the given matching rules.
pub open spec fn rules_text(rs: Seq<Rule>) -> Seq<char>
    decreases rs.len(),
{
    if rs.len() == 0 {
        Seq::empty()
    } else {
        "rule:"@ + rs[0].name@ + " score:"@ + int_str(rs[0].score as int) + seq!['\n']
            + rules_text(rs.drop_first())
    }
}

/// The whole explain popup text: each matching rule with its score,
/// the manual boost when one is set, or a line that says nothing
/// matched.
pub open spec fn explanation_spec(rs: Seq<Rule>, boost: int) -> Seq<char> {
    let rules_part: Seq<char> = if rs.len() == 0 {
        Seq::empty()
    } else {
        seq!['\n'] + rules_text(rs)
    };
    let with_boost: Seq<char> = if boost != 0 {
        rules_part + "\nmanual boost:"@ + int_str(boost)
    } else {
        rules_part
    };
    if with_boost.len() == 0 {
        "\nThis notification doesn't match any rule"@
    } else {
        with_boost
    }
}

/// Builds the explain popup text.
pub fn explanation_text(rules: &Vec<Rule>, boost: i64) -> (r: String)
    ensures
        r@ == explanation_spec(rules@, boost as int),
{
    let n = rules.len();
    let mut v: Vec<char> = Vec::new();
    if n > 0 {
        v.push('\n');
        let mut i: usize = 0;
        proof {
            assert(rules@.skip(0) =~= rules@);
        }
        while i < n
            invariant
                n == rules@.len(),
                i <= n,
                v@ + rules_text(rules@.skip(i as int)) == seq!['\n'] + rules_text(rules@),
            decreases n - i,
        {
            proof {
                let tail = rules@.skip(i as int);
                assert(tail.drop_first() =~= rules@.skip(i as int + 1));
                assert(tail[0] == rules@[i as int]);
            }
            let mut piece = chars_of("rule:");
            let mut nm = chars_of(rules[i].name.as_str());
            piece.append(&mut nm);
            let mut sc = chars_of(" score:");
            piece.append(&mut sc);
            let mut digits = fmt_i64(rules[i].score as i64);
            piece.append(&mut digits);
            piece.push('\n');
            v.append(&mut piece);
            proof {
                let tail = rules@.skip(i as int);
                assert(piece@ =~= Seq::<char>::empty());
                assert(v@ + rules_text(rules@.skip(i as int + 1)) =~= seq!['\n'] + rules_text(
                    rules@,
                ));
            }
            i = i + 1;
        }
        proof {
            assert(rules@.skip(n as int) =~= Seq::<Rule>::empty());
            assert(v@ =~= seq!['\n'] + rules_text(rules@));
        }
    }
    if boost != 0 {
        let mut b = chars_of("\nmanual boost:");
        v.append(&mut b);
        let mut digits = fmt_i64(boost);
        v.append(&mut digits);
    }
    if v.len() == 0 {
        let w = chars_of("\nThis notification doesn't match any rule");
        return string_from_chars(&w);
    }
    string_from_chars(&v)
}

/// What the status line shows: the error when one is set, else the
/// info text (or the row count when there is none), with a waiting
/// mark while an operation is loading.
pub open spec fn headline_spec(state: UiState, count: int) -> Result<Seq<char>, Seq<char>> {
    if state.error@.len() > 0 {
        Err(state.error@)
    } else {
        let info: Seq<char> = if state.info@.len() == 0 {
            "Riirview, "@ + crate::text::dec_str(count) + " notifs"@
        } else {
            state.info@
        };
        if state.loading {
            Ok(info + " \u{231b}"@)
        } else {
            Ok(info)
        }
    }
}

/// Builds the status line for `count` displayed notifications; an
/// error renders distinctly, so it comes back on the `Err` side.
pub fn headline(state: &UiState, count: usize) -> (r: Result<String, String>)
    ensures
        match r {
            Ok(line) => headline_spec(*state, count as int) matches Ok(l) && line@ == l,
            Err(line) => headline_spec(*state, count as int) matches Err(l) && line@ == l,
        },
{
    let ec = chars_of(state.error.as_str());
    if ec.len() > 0 {
        return Err(string_from_chars(&ec));
    }
    let ic = chars_of(state.info.as_str());
    let mut v: Vec<char>;
    if ic.len() == 0 {
        v = chars_of("Riirview, ");
        let mut digits = crate::text::fmt_u64(count as u64);
        v.append(&mut digits);
        let mut tailpart = chars_of(" notifs");
        v.append(&mut tailpart);
    } else {
        v = ic;
    }
    if state.loading {
        let mut mark = chars_of(" \u{231b}");
        v.append(&mut mark);
    }
    Ok(string_from_chars(&v))
}

/// The ids of the rows from position `idx` to the end of the list:
/// what marking everything below the cursor acts on.
pub open spec fn ids_from_spec(list: Seq<Notification>, idx: int) -> Seq<Seq<char>> {
    if idx >= list.len() || idx < 0 {
        Seq::empty()
    } else {
        Seq::new((list.len() - idx) as nat, |k: int| list[idx + k].id@)
    }
}

/// Collects the ids of the rows at and below a list position.
pub fn ids_from(list: &Vec<Notification>, idx: usize) -> (r: Vec<String>)
    ensures
        r.deep_view() == ids_from_spec(list@, idx as int),
{
    let n = list.len();
    let mut r: Vec<String> = Vec::new();
    if idx >= n {
        proof {
            assert(r.deep_view() =~= ids_from_spec(list@, idx as int));
        }
        return r;
    }
    let mut i: usize = idx;
    while i < n
        invariant
            idx <= i <= n,
            n == list@.len(),
            r@.len() == i - idx,
            forall|k: int| 0 <= k < i - idx ==> (#[trigger] r@[k])@ == list@[idx + k].id@,
        decreases n - i,
    {
        r.push(list[i].id.clone());
        i = i + 1;
    }
    proof {
        assert(r.deep_view() =~~= ids_from_spec(list@, idx as int));
    }
    r
}

} // verus!
