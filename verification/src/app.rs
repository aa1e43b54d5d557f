//! Application state of the terminal UI and the state machine that input
//! events drive.
use vstd::prelude::*;
use crate::models::IssueItem;
use crate::text::opt_view;

verus! {

/// High-level events produced by the input handler.
#[derive(Debug, Clone, Copy, PartialEq, Eq, Structural)]
pub enum AppEvent {
    Quit,
    NavigateUp,
    NavigateDown,
    Select,
    Refresh,
}

/// Which view is currently rendered.
#[derive(Debug, Clone, Copy, PartialEq, Eq, Structural)]
pub enum Screen {
    /// Main list of Renovate pull requests.
    List,
    /// Detailed view for a single pull request.
    Detail(usize),
}

impl Default for Screen {
    /// The UI starts on the list.
    fn default() -> (s: Self)
        ensures
            s == Screen::List,
    {
        Screen::List
    }
}

/// The abstract state of an [`App`]: everything that events read or change.
pub struct AppModel {
    /// Number of issues in the list.
    pub issue_count: nat,
    /// Index of the highlighted row.
    pub selected: usize,
    /// Active screen.
    pub screen: Screen,
    /// Whether the application should terminate.
    pub should_quit: bool,
    /// Footer status message.
    pub status_message: Option<Seq<char>>,
}

/// The footer message shown while a refresh is requested.
pub open spec fn refreshing_text() -> Seq<char> {
    "Refreshing…"@
}

impl AppModel {
    /// Well-formedness: the list fits in memory, the selection lies on a row
    /// of the list (or is 0 for an empty list), and a detail screen shows an
    /// existing row.
    pub open spec fn wf(self) -> bool {
        &&& self.issue_count <= usize::MAX
        &&& (self.issue_count == 0 ==> self.selected == 0)
        &&& (self.issue_count > 0 ==> self.selected < self.issue_count)
        &&& (self.screen matches Screen::Detail(i) ==> i < self.issue_count)
    }

    /// The state after one event.
    pub open spec fn step(self, event: AppEvent) -> AppModel {
        match event {
            AppEvent::Quit => AppModel { should_quit: true, ..self },
            AppEvent::NavigateUp => {
                if self.screen is Detail {
                    AppModel { screen: Screen::List, ..self }
                } else if self.selected > 0 {
                    AppModel { selected: (self.selected - 1) as usize, ..self }
                } else {
                    self
                }
            },
            AppEvent::NavigateDown => {
                if self.screen is List && self.issue_count > 0 {
                    let next = if self.selected + 1 <= self.issue_count - 1 {
                        self.selected + 1
                    } else {
                        self.issue_count - 1
                    };
                    AppModel { selected: next as usize, ..self }
                } else {
                    self
                }
            },
            AppEvent::Select => {
                if self.issue_count > 0 {
                    AppModel { screen: Screen::Detail(self.selected), ..self }
                } else {
                    self
                }
            },
            AppEvent::Refresh => AppModel { status_message: Some(refreshing_text()), ..self },
        }
    }

    /// The state after the same event `n` times.
    pub open spec fn repeat(self, event: AppEvent, n: nat) -> AppModel
        decreases n,
    {
        if n == 0 {
            self
        } else {
            self.step(event).repeat(event, (n - 1) as nat)
        }
    }
}


/// Every event keeps the state well formed: the selection stays on a row of
/// the list and a detail screen shows an existing row.
pub proof fn lemma_step_preserves_wf(m: AppModel, event: AppEvent)
    requires
        m.wf(),
    ensures
        m.step(event).wf(),
{
}

/// Once the application is asked to quit, no later event takes that back.
pub proof fn lemma_quit_is_final(m: AppModel, event: AppEvent)
    requires
        m.should_quit,
    ensures
        m.step(event).should_quit,
{
}

/// Only the `Quit` event makes the application quit; every other event
/// leaves the quit flag as it was.
pub proof fn lemma_only_quit_quits(m: AppModel, event: AppEvent)
    ensures
        m.step(event).should_quit == (m.should_quit || event == AppEvent::Quit),
{
}

/// `Refresh` only shows the refreshing message: selection, screen, list
/// and quit flag stay as they were.
pub proof fn lemma_refresh_only_sets_message(m: AppModel)
    ensures
        m.step(AppEvent::Refresh).status_message == Some("Refreshing…"@),
        m.step(AppEvent::Refresh).selected == m.selected,
        m.step(AppEvent::Refresh).screen == m.screen,
        m.step(AppEvent::Refresh).issue_count == m.issue_count,
        m.step(AppEvent::Refresh).should_quit == m.should_quit,
{
}

/// Only `Refresh` changes the status message.
pub proof fn lemma_message_changes_only_on_refresh(m: AppModel, event: AppEvent)
    requires
        event != AppEvent::Refresh,
    ensures
        m.step(event).status_message == m.status_message,
{
}

/// `Select` opens the detail of the selected row of a non-empty list and
/// keeps the selection; on an empty list it changes nothing.
pub proof fn lemma_select_opens_selected(m: AppModel)
    ensures
        m.issue_count > 0 ==> m.step(AppEvent::Select).screen == Screen::Detail(m.selected),
        m.step(AppEvent::Select).selected == m.selected,
        m.issue_count == 0 ==> m.step(AppEvent::Select) == m,
{
}

/// On a detail screen, moving up goes back to the list with the selection
/// kept, and moving down changes nothing.
pub proof fn lemma_detail_navigation(m: AppModel, i: usize)
    requires
        m.screen == Screen::Detail(i),
    ensures
        m.step(AppEvent::NavigateUp).screen == Screen::List,
        m.step(AppEvent::NavigateUp).selected == m.selected,
        m.step(AppEvent::NavigateDown) == m,
{
}

/// No event changes how many issues the list holds.
pub proof fn lemma_step_keeps_issue_count(m: AppModel, event: AppEvent)
    ensures
        m.step(event).issue_count == m.issue_count,
{
}

/// On the list, moving down and then up returns to the same state when the
/// selection is not on the last row.
pub proof fn lemma_down_then_up(m: AppModel)
    requires
        m.wf(),
        m.screen == Screen::List,
        m.selected + 1 < m.issue_count,
    ensures
        m.step(AppEvent::NavigateDown).step(AppEvent::NavigateUp) == m,
{
}

/// On the list, moving up and then down returns to the same state when the
/// selection is not on the first row.
pub proof fn lemma_up_then_down(m: AppModel)
    requires
        m.wf(),
        m.screen == Screen::List,
        m.selected > 0,
    ensures
        m.step(AppEvent::NavigateUp).step(AppEvent::NavigateDown) == m,
{
}

/// Opening the detail of a row and going back returns to the list with the
/// same row selected.
pub proof fn lemma_select_then_back(m: AppModel)
    requires
        m.wf(),
        m.screen == Screen::List,
    ensures
        m.step(AppEvent::Select).step(AppEvent::NavigateUp) == m,
{
}

/// Moving down `n` times on a non-empty list selects row
/// `min(selected + n, last row)`: the selection never passes the last item.
pub proof fn lemma_repeat_down(m: AppModel, n: nat)
    requires
        m.wf(),
        m.screen == Screen::List,
        m.issue_count > 0,
    ensures
        m.repeat(AppEvent::NavigateDown, n).selected == (if m.selected + n <= m.issue_count - 1 {
            m.selected + n
        } else {
            m.issue_count - 1
        }),
        m.repeat(AppEvent::NavigateDown, n).screen == Screen::List,
        m.repeat(AppEvent::NavigateDown, n).wf(),
    decreases n,
{
    if n > 0 {
        lemma_repeat_down(m.step(AppEvent::NavigateDown), (n - 1) as nat);
    }
}

/// Moving up `n` times on the list selects row `max(selected - n, 0)`: the
/// selection never goes below the first item.
pub proof fn lemma_repeat_up(m: AppModel, n: nat)
    requires
        m.wf(),
        m.screen == Screen::List,
    ensures
        m.repeat(AppEvent::NavigateUp, n).selected == (if m.selected >= n {
            m.selected - n
        } else {
            0
        }),
        m.repeat(AppEvent::NavigateUp, n).screen == Screen::List,
        m.repeat(AppEvent::NavigateUp, n).wf(),
    decreases n,
{
    if n > 0 {
        lemma_repeat_up(m.step(AppEvent::NavigateUp), (n - 1) as nat);
    }
}

/// A key press, as far as the UI tells keys apart.
#[derive(Debug, Clone, Copy, PartialEq, Eq, Structural)]
pub enum Key {
    /// A character key.
    Char(char),
    /// The up arrow.
    Up,
    /// The down arrow.
    Down,
    /// The enter key.
    Enter,
    /// The escape key.
    Esc,
    /// Any other key.
    Other,
}

/// The event bound to a key, if any: `q`/`Q` quit, up arrow and `k` move up,
/// down arrow and `j` move down, enter selects, `r`/`R` refresh, and escape
/// goes back (moves up).
pub open spec fn event_for_key(key: Key) -> Option<AppEvent> {
    match key {
        Key::Char('q') | Key::Char('Q') => Some(AppEvent::Quit),
        Key::Up | Key::Char('k') => Some(AppEvent::NavigateUp),
        Key::Down | Key::Char('j') => Some(AppEvent::NavigateDown),
        Key::Enter => Some(AppEvent::Select),
        Key::Char('r') | Key::Char('R') => Some(AppEvent::Refresh),
        Key::Esc => Some(AppEvent::NavigateUp),
        _ => None,
    }
}

/// Only the keys `q`, `Q`, `k`, `j`, `r`, `R`, the arrows, enter and escape
/// are bound; every other key gives no event, and only `q` and `Q` quit.
pub proof fn lemma_bound_keys(key: Key)
    ensures
        (event_for_key(key) is Some) <==> (key == Key::Up || key == Key::Down || key == Key::Enter
            || key == Key::Esc || key == Key::Char('q') || key == Key::Char('Q') || key == Key::Char('k')
            || key == Key::Char('j') || key == Key::Char('r') || key == Key::Char('R')),
        (event_for_key(key) == Some(AppEvent::Quit)) <==> (key == Key::Char('q') || key == Key::Char('Q')),
{
}

/// Maps a key to the event it is bound to, or `None` for an unbound key.
pub fn map_key_event(code: Key) -> (e: Option<AppEvent>)
    ensures
        e == event_for_key(code),
{
    match code {
        Key::Char('q') | Key::Char('Q') => Some(AppEvent::Quit),
        Key::Up | Key::Char('k') => Some(AppEvent::NavigateUp),
        Key::Down | Key::Char('j') => Some(AppEvent::NavigateDown),
        Key::Enter => Some(AppEvent::Select),
        Key::Char('r') | Key::Char('R') => Some(AppEvent::Refresh),
        Key::Esc => Some(AppEvent::NavigateUp),
        _ => None,
    }
}

/// Central state object that the TUI renderer reads and the event loop
/// mutates.
pub struct App {
    /// All issues fetched from GitHub.
    pub issues: Vec<IssueItem>,
    /// GitHub username of the authenticated user, used for personalized messages.
    pub gh_username: String,
    /// Index of the currently highlighted row in the list.
    pub selected: usize,
    /// Currently active screen.
    pub screen: Screen,
    /// Whether the application should terminate.
    pub should_quit: bool,
    /// Optional status message displayed in the footer.
    pub status_message: Option<String>,
}

impl View for App {
    type V = AppModel;

    open spec fn view(&self) -> AppModel {
        AppModel {
            issue_count: self.issues@.len(),
            selected: self.selected,
            screen: self.screen,
            should_quit: self.should_quit,
            status_message: opt_view(self.status_message),
        }
    }
}

impl App {
    /// Creates a new [`App`] with the given issues and GitHub username: the
    /// first row is selected, the list is shown, and there is no message.
    pub fn new(issues: Vec<IssueItem>, gh_username: String) -> (app: Self)
        ensures
            app.issues@ == issues@,
            app.gh_username@ == gh_username@,
            app.selected == 0,
            app.screen == Screen::List,
            !app.should_quit,
            app.status_message is None,
            app@.wf(),
    {
        proof {
            assert(issues@.len() == issues.len());
        }
        App {
            issues,
            gh_username,
            selected: 0,
            screen: Screen::default(),
            should_quit: false,
            status_message: None,
        }
    }

    /// Handles an [`AppEvent`] and mutates state accordingly: the new state is
    /// [`AppModel::step`] of the old one; the issues and the username stay.
    pub fn handle_event(&mut self, event: AppEvent)
        requires
            (event == AppEvent::NavigateDown && old(self).screen == Screen::List
                && old(self).issues.len() > 0) ==> old(self).selected < usize::MAX,
        ensures
            final(self)@ == old(self)@.step(event),
            final(self).issues@ == old(self).issues@,
            final(self).gh_username@ == old(self).gh_username@,
            old(self)@.wf() ==> final(self)@.wf(),
            final(self).should_quit == (old(self).should_quit || event == AppEvent::Quit),
            event == AppEvent::Refresh ==> opt_view(final(self).status_message) == Some("Refreshing…"@),
            event != AppEvent::Refresh ==> opt_view(final(self).status_message) == opt_view(old(self).status_message),
    {
        proof {
            if old(self)@.wf() {
                lemma_step_preserves_wf(old(self)@, event);
            }
        }
        match event {
            AppEvent::Quit => self.should_quit = true,
            AppEvent::NavigateUp => self.move_selection_up(),
            AppEvent::NavigateDown => self.move_selection_down(),
            AppEvent::Select => self.open_selected(),
            AppEvent::Refresh => {
                self.status_message = Some("Refreshing…".to_owned());
            },
        }
    }

    fn move_selection_up(&mut self)
        ensures
            final(self)@ == old(self)@.step(AppEvent::NavigateUp),
            final(self).issues@ == old(self).issues@,
            final(self).gh_username@ == old(self).gh_username@,
    {
        if matches!(self.screen, Screen::Detail(_)) {
            self.screen = Screen::List;
            return;
        }
        if self.selected > 0 {
            self.selected -= 1;
        }
    }

    fn move_selection_down(&mut self)
        requires
            (old(self).screen == Screen::List && old(self).issues.len() > 0) ==> old(self).selected
                < usize::MAX,
        ensures
            final(self)@ == old(self)@.step(AppEvent::NavigateDown),
            final(self).issues@ == old(self).issues@,
            final(self).gh_username@ == old(self).gh_username@,
    {
        if matches!(self.screen, Screen::List) && !self.issues.is_empty() {
            let next = self.selected + 1;
            let last = self.issues.len() - 1;
            self.selected = if next <= last { next } else { last };
        }
    }

    fn open_selected(&mut self)
        ensures
            final(self)@ == old(self)@.step(AppEvent::Select),
            final(self).issues@ == old(self).issues@,
            final(self).gh_username@ == old(self).gh_username@,
    {
        if !self.issues.is_empty() {
            self.screen = Screen::Detail(self.selected);
        }
    }

    /// Reacts to a key event of the event loop and tells whether the loop
    /// stops. A release (`pressed` false) and an unbound key change nothing;
    /// a bound key applies its event. The loop stops when the application
    /// should quit.
    pub fn on_key(&mut self, key: Key, pressed: bool) -> (stop: bool)
        requires
            (pressed && event_for_key(key) == Some(AppEvent::NavigateDown) && old(self).screen
                == Screen::List && old(self).issues.len() > 0) ==> old(self).selected < usize::MAX,
        ensures
            final(self)@ == (if pressed && event_for_key(key) is Some {
                old(self)@.step(event_for_key(key)->0)
            } else {
                old(self)@
            }),
            final(self).issues@ == old(self).issues@,
            final(self).gh_username@ == old(self).gh_username@,
            stop == final(self).should_quit,
            stop == (old(self).should_quit || (pressed && (key == Key::Char('q') || key == Key::Char('Q')))),
    {
        if pressed {
            if let Some(event) = map_key_event(key) {
                self.handle_event(event);
            }
        }
        self.should_quit
    }

    /// Returns the issue currently highlighted in the list, if any.
    pub fn selected_issue(&self) -> (r: Option<&IssueItem>)
        ensures
            match r {
                Some(item) => self.selected < self.issues@.len() && *item == self.issues@[self.selected as int],
                None => self.selected >= self.issues@.len(),
            },
    {
        if self.selected < self.issues.len() {
            Some(&self.issues[self.selected])
        } else {
            None
        }
    }

    /// Replaces the current issue list and resets selection, screen and
    /// status message.
    pub fn update_issues(&mut self, issues: Vec<IssueItem>)
        ensures
            final(self).issues@ == issues@,
            final(self).selected == 0,
            final(self).screen == Screen::List,
            final(self).status_message is None,
            final(self).should_quit == old(self).should_quit,
            final(self).gh_username@ == old(self).gh_username@,
            final(self)@.wf(),
    {
        proof {
            assert(issues@.len() == issues.len());
        }
        self.issues = issues;
        self.selected = 0;
        self.screen = Screen::List;
        self.status_message = None;
    }
}

} // verus!
