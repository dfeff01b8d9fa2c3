//! Key presses: what each one does to the state, and what the caller is to
//! do outside it (delete or create a project, run a command, launch a
//! target).
use crate::app::editing::{
    field_edited, filter_cancelled, filter_confirmed, filter_edited, filters_cleared, EditRequest,
};
use crate::app::key_effects::{
    ci_run_open_asked, ci_up, focus_moved_left, focus_moved_right, project_open_asked, rerun_started,
    running_down, search_started, selection_moved, target_edit_asked, target_run_started,
};
use crate::app::moves::{active_query_non_empty, jumped};
use crate::app::project_ops::{
    bookmark_toggled, create_dialog_closed, create_dialog_opened, created_path, rescanned,
    ProjectCreation,
};
use crate::app::running::{key_finished, running_closed};
use crate::app::{App, Focus};
use crate::navigation::trimmed;
use crate::text::opt_str;
use vstd::prelude::*;

verus! {

/// Bits of the modifier keys, as crossterm numbers them.
#[derive(Debug, Clone, Copy, PartialEq, Eq, Structural)]
pub struct KeyModifiers {
    pub bits: u8,
}

/// Shift.
pub const SHIFT: u8 = 1;

/// Control.
pub const CONTROL: u8 = 2;

/// Alt.
pub const ALT: u8 = 4;

impl KeyModifiers {
    /// The modifiers whose bits are set in `bits`.
    pub fn new(bits: u8) -> (m: KeyModifiers)
        ensures
            m.bits == bits,
    {
        KeyModifiers { bits }
    }

    /// No modifier.
    pub fn empty() -> (m: KeyModifiers)
        ensures
            m.bits == 0,
    {
        KeyModifiers { bits: 0 }
    }
}

/// The keys the dashboard tells apart.
#[derive(Debug, Clone, Copy, PartialEq, Eq, Structural)]
pub enum KeyCode {
    Char(char),
    Esc,
    Enter,
    Backspace,
    Left,
    Right,
    Up,
    Down,
    Home,
    End,
    Delete,
    /// Any other key.
    Other,
}

/// A key press with its modifiers.
#[derive(Debug, Clone, Copy, PartialEq, Eq, Structural)]
pub struct KeyEvent {
    pub code: KeyCode,
    pub modifiers: KeyModifiers,
}

impl KeyEvent {
    /// The press of `code` with `modifiers`.
    pub fn new(code: KeyCode, modifiers: KeyModifiers) -> (r: KeyEvent)
        ensures
            r.code == code && r.modifiers == modifiers,
    {
        KeyEvent { code, modifiers }
    }
}

/// A target to launch: the command to run with `bash -lc` in the project
/// directory, and what to record of it once it runs.
#[derive(Debug)]
pub struct Launch {
    pub project_name: String,
    pub project_path: String,
    pub target_name: String,
    pub target_kind: String,
    pub command: String,
    pub key: String,
}

/// A launched target to run again whose targets were not cached.
#[derive(Debug)]
pub struct Rerun {
    pub project_name: String,
    pub project_path: String,
    pub target_name: String,
    pub target_kind: String,
}

/// What the caller is to do after a key press.
#[derive(Debug)]
pub enum KeyAction {
    /// Nothing.
    Nothing,
    /// Stop the dashboard.
    Quit,
    /// Remove the project directory at `path`, then `finish_delete_project`.
    DeleteProject { path: String },
    /// Create the project (`git clone` of a URL, else `cargo new`) in the
    /// background, after `begin_project_creation`.
    CreateProject(ProjectCreation),
    /// If the project at `path` has a `Cargo.toml`, `forget_project_size` and
    /// run `cargo clean` in the background.
    CleanProject { path: String },
    /// Spawn `command` with `sh -c`, then `finish_open_project` for `path`
    /// with whether it spawned.
    OpenProject { path: String, command: String },
    /// Open `url` in the browser.
    OpenCiRun { url: String },
    /// Run `command` with `sh -c`.
    EditTarget { command: String },
    /// Stop and drop the session with this key.
    CloseSession { key: String },
    /// Run the launch's command (which opens a zellij pane), then
    /// `record_target_launch`.
    Launch(Launch),
    /// Stop and drop the session `closed`, then launch.
    Relaunch { closed: String, launch: Launch },
    /// Stop and drop the session `closed`, find the targets of the project
    /// to run again, and hand them to `rerun_with_targets`.
    LookUpTargets { closed: String, rerun: Rerun },
}

/// The edit of a search field that a key asks for: Alt+Backspace deletes a
/// word, plain or shifted characters are typed.
pub open spec fn filter_request(key: KeyEvent) -> Option<EditRequest> {
    match key.code {
        KeyCode::Backspace => if key.modifiers.bits == ALT {
            Some(EditRequest::DeletePrevWord)
        } else {
            Some(EditRequest::DeletePrevChar)
        },
        _ => create_request(key),
    }
}

/// The edit of the add-project field that a key asks for: plain or shifted
/// characters are typed.
pub open spec fn create_request(key: KeyEvent) -> Option<EditRequest> {
    match key.code {
        KeyCode::Backspace => Some(EditRequest::DeletePrevChar),
        KeyCode::Left => Some(EditRequest::GoToPrevChar),
        KeyCode::Right => Some(EditRequest::GoToNextChar),
        KeyCode::Home => Some(EditRequest::GoToStart),
        KeyCode::End => Some(EditRequest::GoToEnd),
        KeyCode::Delete => Some(EditRequest::DeleteNextChar),
        KeyCode::Char(c) => if key.modifiers.bits == 0 || key.modifiers.bits == SHIFT {
            Some(EditRequest::InsertChar(c))
        } else {
            None
        },
        _ => None,
    }
}

/// The keys that edit a text field.
pub open spec fn is_edit_key(code: KeyCode) -> bool {
    match code {
        KeyCode::Backspace | KeyCode::Char(_) | KeyCode::Left | KeyCode::Right | KeyCode::Home
        | KeyCode::End | KeyCode::Delete => true,
        _ => false,
    }
}

fn create_request_of(key: KeyEvent) -> (r: Option<EditRequest>)
    ensures
        r == create_request(key),
{
    match key.code {
        KeyCode::Backspace => Some(EditRequest::DeletePrevChar),
        KeyCode::Left => Some(EditRequest::GoToPrevChar),
        KeyCode::Right => Some(EditRequest::GoToNextChar),
        KeyCode::Home => Some(EditRequest::GoToStart),
        KeyCode::End => Some(EditRequest::GoToEnd),
        KeyCode::Delete => Some(EditRequest::DeleteNextChar),
        KeyCode::Char(c) => if key.modifiers.bits == 0 || key.modifiers.bits == SHIFT {
            Some(EditRequest::InsertChar(c))
        } else {
            None
        },
        _ => None,
    }
}

fn filter_request_of(key: KeyEvent) -> (r: Option<EditRequest>)
    ensures
        r == filter_request(key),
{
    match key.code {
        KeyCode::Backspace => if key.modifiers.bits == ALT {
            Some(EditRequest::DeletePrevWord)
        } else {
            Some(EditRequest::DeletePrevChar)
        },
        _ => create_request_of(key),
    }
}

/// A key while deleting a project is to be confirmed: `y` deletes the
/// selected project (or just closes the question when none is selected),
/// `n` and Esc close the question.
pub open spec fn confirm_key_handled(pre: App, post: App, key: KeyEvent, action: KeyAction) -> bool {
    match key.code {
        KeyCode::Char('y') => match pre.current_project_path() {
            None => post == (App { confirm_delete_project: false, ..pre }) && action is Nothing,
            Some(p) => post == pre && (action matches KeyAction::DeleteProject { path } && path@ == p),
        },
        KeyCode::Char('n') | KeyCode::Esc => post == (App { confirm_delete_project: false, ..pre })
            && action is Nothing,
        _ => post == pre && action is Nothing,
    }
}

/// A key in the add-project dialog: Esc closes it, Enter asks to create the
/// trimmed text (empty text just closes it), edit keys edit the field.
pub open spec fn create_key_handled(pre: App, post: App, key: KeyEvent, action: KeyAction) -> bool {
    match key.code {
        KeyCode::Esc => create_dialog_closed(pre, post) && action is Nothing,
        KeyCode::Enter => if trimmed(pre.create_project_input.value@).len() == 0 {
            create_dialog_closed(pre, post) && action is Nothing
        } else {
            &&& post == pre
            &&& action matches KeyAction::CreateProject(c)
            &&& c.value@ == trimmed(pre.create_project_input.value@)
            &&& opt_str(c.path) == created_path(pre.projects_root@, c.value@)
        },
        _ => {
            &&& action is Nothing
            &&& if is_edit_key(key.code) && create_request(key) is Some {
                &&& post == (App { create_project_input: post.create_project_input, ..pre })
                &&& field_edited(pre.create_project_input, post.create_project_input, create_request(key)->0)
            } else {
                post == pre
            }
        },
    }
}

/// A key in search mode: Esc drops the query, Enter keeps it, edit keys
/// edit it.
pub open spec fn filter_key_handled(pre: App, post: App, key: KeyEvent) -> bool {
    match key.code {
        KeyCode::Esc => filter_cancelled(pre, post),
        KeyCode::Enter => filter_confirmed(pre, post),
        _ => if is_edit_key(key.code) && filter_request(key) is Some {
            filter_edited(pre, post, filter_request(key)->0)
        } else {
            post == pre
        },
    }
}

/// A key while the help is shown: `?` and Esc close it.
pub open spec fn help_key_handled(pre: App, post: App, key: KeyEvent) -> bool {
    post == if key.code == KeyCode::Char('?') || key.code == KeyCode::Esc {
        App { show_help: false, ..pre }
    } else {
        pre
    }
}

/// The key that a running target under the running cursor would be closed
/// by.
pub open spec fn selected_running_key(app: App) -> Option<Seq<char>> {
    match app.current_running_index() {
        Some(r) => Some(app.target_statuses@[r].key@),
        None => None,
    }
}

/// The keys of the normal mode that act on projects, searches and the
/// dashboard itself rather than on the focus and the cursors.
pub open spec fn is_command_key(pre: App, key: KeyEvent) -> bool {
    let c = key.code;
    let m = key.modifiers.bits;
    ||| c == KeyCode::Esc
    ||| c == KeyCode::Char('q')
    ||| c == KeyCode::Char('x') && pre.focus == Focus::RunningTargets
    ||| c == KeyCode::Char('g')
    ||| c == KeyCode::Char('a') && pre.focus == Focus::Projects
    ||| c == KeyCode::Char('b') && m == 0
    ||| c == KeyCode::Char('c') && pre.focus == Focus::Projects && m == 0
    ||| c == KeyCode::Char('d') && pre.focus == Focus::Projects
    ||| (c == KeyCode::Char('r') || c == KeyCode::Char('R')) && m == CONTROL
    ||| (c == KeyCode::Char('c') || c == KeyCode::Char('C')) && m == CONTROL
    ||| c == KeyCode::Char('?')
    ||| c == KeyCode::Char('/')
}

/// What a key of the normal mode does, before the selection follows the
/// running pane (see `key_finished`).
pub open spec fn normal_key_effect(pre: App, post: App, key: KeyEvent, action: KeyAction) -> bool {
    if is_command_key(pre, key) {
        command_key_effect(pre, post, key, action)
    } else {
        navigation_key_effect(pre, post, key, action)
    }
}

/// What a command key does (see `is_command_key`). `q` quits on every pane;
/// `x` on the running pane closes the selected running target.
pub open spec fn command_key_effect(pre: App, post: App, key: KeyEvent, action: KeyAction) -> bool {
    let c = key.code;
    let m = key.modifiers.bits;
    if c == KeyCode::Esc {
        &&& action is Nothing
        &&& if active_query_non_empty(pre) {
            post == (App { filter_mode: true, ..pre })
        } else {
            filters_cleared(pre, post)
        }
    } else if c == KeyCode::Char('q') {
        action is Quit && post == pre
    } else if c == KeyCode::Char('x') && pre.focus == Focus::RunningTargets {
        &&& running_closed(pre, post, selected_running_key(pre))
        &&& match selected_running_key(pre) {
            Some(k) => (action matches KeyAction::CloseSession { key } && key@ == k),
            None => action is Nothing,
        }
    } else if c == KeyCode::Char('g') {
        action is Nothing && post == (App { pending_g: true, ..pre })
    } else if c == KeyCode::Char('a') && pre.focus == Focus::Projects {
        action is Nothing && create_dialog_opened(pre, post)
    } else if c == KeyCode::Char('b') && m == 0 {
        action is Nothing && bookmark_toggled(pre, post)
    } else if c == KeyCode::Char('c') && pre.focus == Focus::Projects && m == 0 {
        &&& post == pre
        &&& match pre.current_project_path() {
            Some(p) => (action matches KeyAction::CleanProject { path } && path@ == p),
            None => action is Nothing,
        }
    } else if c == KeyCode::Char('d') && pre.focus == Focus::Projects {
        &&& action is Nothing
        &&& post == if pre.current_project_index() is Some {
            App { confirm_delete_project: true, ..pre }
        } else {
            pre
        }
    } else if (c == KeyCode::Char('r') || c == KeyCode::Char('R')) && m == CONTROL {
        action is Nothing && rescanned(pre, post)
    } else if (c == KeyCode::Char('c') || c == KeyCode::Char('C')) && m == CONTROL {
        action is Quit && post == pre
    } else if c == KeyCode::Char('?') {
        action is Nothing && post == (App { show_help: true, ..pre })
    } else if c == KeyCode::Char('/') {
        action is Nothing && search_started(pre, post)
    } else {
        post == pre && action is Nothing
    }
}

/// What a key that moves the focus or a cursor, or Enter or `e`, does.
pub open spec fn navigation_key_effect(pre: App, post: App, key: KeyEvent, action: KeyAction) -> bool {
    let c = key.code;
    if c == KeyCode::Right || c == KeyCode::Char('l') {
        action is Nothing && post == focus_moved_right(pre)
    } else if c == KeyCode::Left || c == KeyCode::Char('h') {
        action is Nothing && post == focus_moved_left(pre)
    } else if (c == KeyCode::Char('J') || c == KeyCode::Down) && pre.focus == Focus::RunningTargets {
        action is Nothing && running_down(pre, post)
    } else if (c == KeyCode::Char('K') || c == KeyCode::Up) && pre.focus == Focus::CiRuns {
        action is Nothing && ci_up(pre, post)
    } else if c == KeyCode::Char('j') || c == KeyCode::Down {
        action is Nothing && selection_moved(pre, post, true)
    } else if c == KeyCode::Char('k') || c == KeyCode::Up {
        action is Nothing && selection_moved(pre, post, false)
    } else if c == KeyCode::Enter {
        match pre.focus {
            Focus::Projects => post == pre && project_open_asked(pre, action),
            Focus::RunningTargets => rerun_started(pre, post, action),
            Focus::CiRuns => post == pre && ci_run_open_asked(pre, action),
            Focus::Targets => target_run_started(pre, post, action),
        }
    } else if c == KeyCode::Char('e') && pre.focus == Focus::Targets {
        post == pre && target_edit_asked(pre, action)
    } else {
        post == pre && action is Nothing
    }
}

/// A launch leaves the end of the key to `record_target_launch`, a look-up
/// to `rerun_with_targets`.
pub open spec fn defers_key_end(action: KeyAction) -> bool {
    action is Launch || action is Relaunch || action is LookUpTargets
}

/// A key of the normal mode (see `normal_key_effect`); unless the caller
/// finishes it, the selection then follows the running pane.
pub open spec fn normal_key_handled(pre: App, post: App, key: KeyEvent, action: KeyAction) -> bool {
    exists|mid: App|
        #[trigger] normal_key_effect(pre, mid, key, action) && if defers_key_end(action) {
            post == mid
        } else {
            key_finished(mid, post)
        }
}

/// What a key press does: a pending delete question, the add-project
/// dialog, the help and search mode each take the key first; otherwise a
/// pending `g` followed by `g` or `e` jumps to the top or bottom, Backspace
/// edits an active search, and other keys act as in `normal_key_handled`.
pub open spec fn key_handled(pre: App, post: App, key: KeyEvent, action: KeyAction) -> bool {
    if pre.confirm_delete_project {
        confirm_key_handled(pre, post, key, action)
    } else if pre.creating_project {
        create_key_handled(pre, post, key, action)
    } else if pre.show_help {
        action is Nothing && help_key_handled(pre, post, key)
    } else if pre.filter_mode {
        action is Nothing && filter_key_handled(pre, post, key)
    } else {
        let unpended = App { pending_g: false, ..pre };
        if pre.pending_g && (key.code == KeyCode::Char('g') || key.code == KeyCode::Char('e')) {
            action is Nothing && jumped(unpended, post, key.code == KeyCode::Char('g'))
        } else if key.code == KeyCode::Backspace && active_query_non_empty(unpended) {
            action is Nothing && filter_edited(unpended, post, EditRequest::DeletePrevChar)
        } else {
            normal_key_handled(unpended, post, key, action)
        }
    }
}

impl App {
    /// Edits the focused pane's search field as the key asks (see
    /// `filter_request`); other keys do nothing.
    pub fn handle_filter_input(&mut self, key: KeyEvent)
        requires
            old(self).matchers_ok(),
        ensures
            final(self).matchers_ok(),
            match filter_request(key) {
                Some(r) => filter_edited(*old(self), *final(self), r),
                None => *final(self) == *old(self),
            },
    {
        match filter_request_of(key) {
            Some(request) => self.apply_filter_request(request),
            None => {},
        }
    }

    /// Deletes the character before the cursor of the focused pane's search
    /// field.
    pub fn handle_filter_backspace(&mut self)
        requires
            old(self).matchers_ok(),
        ensures
            final(self).matchers_ok(),
            filter_edited(*old(self), *final(self), EditRequest::DeletePrevChar),
    {
        self.apply_filter_request(EditRequest::DeletePrevChar);
    }

    /// Edits the add-project field as the key asks (see `create_request`);
    /// other keys do nothing.
    pub fn handle_create_project_input(&mut self, key: KeyEvent)
        ensures
            match create_request(key) {
                Some(r) => *final(self) == (App { create_project_input: final(self).create_project_input, ..*old(self) })
                    && field_edited(old(self).create_project_input, final(self).create_project_input, r),
                None => *final(self) == *old(self),
            },
    {
        match create_request_of(key) {
            Some(request) => self.create_project_input.handle(request),
            None => {},
        }
    }

    fn handle_confirm_key(&mut self, key: KeyEvent) -> (action: KeyAction)
        ensures
            confirm_key_handled(*old(self), *final(self), key, action),
    {
        match key.code {
            KeyCode::Char('y') => match self.current_project() {
                Some(p) => KeyAction::DeleteProject { path: p.path.clone() },
                None => {
                    self.confirm_delete_project = false;
                    KeyAction::Nothing
                },
            },
            KeyCode::Char('n') | KeyCode::Esc => {
                self.confirm_delete_project = false;
                KeyAction::Nothing
            },
            _ => KeyAction::Nothing,
        }
    }

    fn handle_create_key(&mut self, key: KeyEvent) -> (action: KeyAction)
        ensures
            create_key_handled(*old(self), *final(self), key, action),
    {
        match key.code {
            KeyCode::Esc => {
                self.cancel_create_project();
                KeyAction::Nothing
            },
            KeyCode::Enter => match self.prepare_create_project() {
                Some(c) => KeyAction::CreateProject(c),
                None => KeyAction::Nothing,
            },
            KeyCode::Backspace | KeyCode::Char(_) | KeyCode::Left | KeyCode::Right | KeyCode::Home
            | KeyCode::End | KeyCode::Delete => {
                self.handle_create_project_input(key);
                KeyAction::Nothing
            },
            _ => KeyAction::Nothing,
        }
    }

    fn handle_filter_mode_key(&mut self, key: KeyEvent)
        requires
            old(self).matchers_ok(),
        ensures
            final(self).matchers_ok(),
            filter_key_handled(*old(self), *final(self), key),
    {
        match key.code {
            KeyCode::Esc => self.cancel_filter_mode(),
            KeyCode::Enter => self.confirm_filter_mode(),
            KeyCode::Backspace | KeyCode::Char(_) | KeyCode::Left | KeyCode::Right | KeyCode::Home
            | KeyCode::End | KeyCode::Delete => self.handle_filter_input(key),
            _ => {},
        }
    }

    fn command_key(&mut self, key: KeyEvent) -> (action: KeyAction)
        requires
            old(self).matchers_ok(),
        ensures
            final(self).matchers_ok(),
            command_key_effect(*old(self), *final(self), key, action),
    {
        let c = key.code;
        let m = key.modifiers.bits;
        if c == KeyCode::Esc {
            if self.active_filter_is_non_empty() {
                self.filter_mode = true;
            } else {
                self.clear_all_filters();
            }
            KeyAction::Nothing
        } else if c == KeyCode::Char('q') {
            KeyAction::Quit
        } else if c == KeyCode::Char('x') && self.focus == Focus::RunningTargets {
            match self.close_selected_running_target() {
                Some(k) => KeyAction::CloseSession { key: k },
                None => KeyAction::Nothing,
            }
        } else if c == KeyCode::Char('g') {
            self.pending_g = true;
            KeyAction::Nothing
        } else if c == KeyCode::Char('a') && self.focus == Focus::Projects {
            self.start_create_project();
            KeyAction::Nothing
        } else if c == KeyCode::Char('b') && m == 0 {
            self.toggle_selected_project_bookmark();
            KeyAction::Nothing
        } else if c == KeyCode::Char('c') && self.focus == Focus::Projects && m == 0 {
            match self.current_project() {
                Some(p) => KeyAction::CleanProject { path: p.path.clone() },
                None => KeyAction::Nothing,
            }
        } else if c == KeyCode::Char('d') && self.focus == Focus::Projects {
            if self.current_project().is_some() {
                self.confirm_delete_project = true;
            }
            KeyAction::Nothing
        } else if (c == KeyCode::Char('r') || c == KeyCode::Char('R')) && m == CONTROL {
            self.rescan_selected_project();
            KeyAction::Nothing
        } else if (c == KeyCode::Char('c') || c == KeyCode::Char('C')) && m == CONTROL {
            KeyAction::Quit
        } else if c == KeyCode::Char('?') {
            self.show_help = true;
            KeyAction::Nothing
        } else if c == KeyCode::Char('/') {
            self.start_search();
            KeyAction::Nothing
        } else {
            KeyAction::Nothing
        }
    }

    fn navigation_key(&mut self, key: KeyEvent) -> (action: KeyAction)
        requires
            old(self).matchers_ok(),
        ensures
            final(self).matchers_ok(),
            navigation_key_effect(*old(self), *final(self), key, action),
    {
        let c = key.code;
        if c == KeyCode::Right || c == KeyCode::Char('l') {
            self.key_focus_right();
            KeyAction::Nothing
        } else if c == KeyCode::Left || c == KeyCode::Char('h') {
            self.key_focus_left();
            KeyAction::Nothing
        } else if (c == KeyCode::Char('J') || c == KeyCode::Down) && self.focus == Focus::RunningTargets {
            self.key_running_down();
            KeyAction::Nothing
        } else if (c == KeyCode::Char('K') || c == KeyCode::Up) && self.focus == Focus::CiRuns {
            self.key_ci_up();
            KeyAction::Nothing
        } else if c == KeyCode::Char('j') || c == KeyCode::Down {
            self.move_selection(true);
            KeyAction::Nothing
        } else if c == KeyCode::Char('k') || c == KeyCode::Up {
            self.move_selection(false);
            KeyAction::Nothing
        } else if c == KeyCode::Enter {
            match self.focus {
                Focus::Projects => self.open_selected_project(),
                Focus::RunningTargets => self.rerun_selected_running_target(),
                Focus::CiRuns => self.open_selected_ci_run(),
                Focus::Targets => self.run_selected_target(),
            }
        } else if c == KeyCode::Char('e') && self.focus == Focus::Targets {
            self.edit_selected_target()
        } else {
            KeyAction::Nothing
        }
    }

    fn normal_key(&mut self, key: KeyEvent) -> (action: KeyAction)
        requires
            old(self).matchers_ok(),
        ensures
            final(self).matchers_ok(),
            normal_key_effect(*old(self), *final(self), key, action),
    {
        let c = key.code;
        let m = key.modifiers.bits;
        let command = c == KeyCode::Esc || c == KeyCode::Char('q') || c == KeyCode::Char('x')
            && self.focus == Focus::RunningTargets
            || c == KeyCode::Char('g') || c == KeyCode::Char('a') && self.focus == Focus::Projects || c
            == KeyCode::Char('b') && m == 0 || c == KeyCode::Char('c') && self.focus == Focus::Projects && m
            == 0 || c == KeyCode::Char('d') && self.focus == Focus::Projects || (c == KeyCode::Char('r') || c
            == KeyCode::Char('R')) && m == CONTROL || (c == KeyCode::Char('c') || c == KeyCode::Char('C'))
            && m == CONTROL || c == KeyCode::Char('?') || c == KeyCode::Char('/');
        if command {
            self.command_key(key)
        } else {
            self.navigation_key(key)
        }
    }

    /// Handles a key press (see `key_handled`) and says what the caller is
    /// to do outside the state.
    pub fn handle_key_events(&mut self, key: KeyEvent) -> (action: KeyAction)
        requires
            old(self).matchers_ok(),
        ensures
            final(self).matchers_ok(),
            key_handled(*old(self), *final(self), key, action),
    {
        if self.confirm_delete_project {
            return self.handle_confirm_key(key);
        }
        if self.creating_project {
            return self.handle_create_key(key);
        }
        if self.show_help {
            if key.code == KeyCode::Char('?') || key.code == KeyCode::Esc {
                self.show_help = false;
            }
            return KeyAction::Nothing;
        }
        if self.filter_mode {
            self.handle_filter_mode_key(key);
            return KeyAction::Nothing;
        }
        if self.pending_g {
            self.pending_g = false;
            if key.code == KeyCode::Char('g') {
                self.go_to_top();
                return KeyAction::Nothing;
            }
            if key.code == KeyCode::Char('e') {
                self.go_to_bottom();
                return KeyAction::Nothing;
            }
        }
        let ghost unpended = *self;
        assert(unpended == (App { pending_g: false, ..*old(self) }));
        if key.code == KeyCode::Backspace && self.active_filter_is_non_empty() {
            self.handle_filter_backspace();
            return KeyAction::Nothing;
        }
        let action = self.normal_key(key);
        let ghost mid = *self;
        let defer = match &action {
            KeyAction::Launch(_) | KeyAction::Relaunch { .. } | KeyAction::LookUpTargets { .. } => true,
            _ => false,
        };
        if !defer {
            self.after_key();
        }
        assert(normal_key_effect(unpended, mid, key, action));
        action
    }

}

} // verus!
