//! Shared application state: updated from compositor events, read by the bar.
use vstd::prelude::*;

use crate::services::opt_str_view;
use crate::text::{chars_of, concat, decimal, decimal_chars, string_of, subvec};

verus! {

broadcast use vstd::string::group_string_axioms;

/// Shared application state.
#[derive(Debug, Clone)]
pub struct AppState {
    pub workspaces: Vec<WorkspaceInfo>,
    pub workspace: WorkspaceState,
    pub window: WindowState,
}

/// A workspace as the compositor lists it.
#[derive(Debug, Clone)]
pub struct WorkspaceInfo {
    pub id: u64,
    pub idx: Option<usize>,
    pub name: Option<String>,
}

/// The workspace being shown.
#[derive(Debug, Clone)]
pub struct WorkspaceState {
    pub current_idx: usize,
    pub current_name: Option<String>,
    pub total_count: usize,
    pub workspace_id: Option<u64>,
}

/// The focused window.
#[derive(Debug, Clone)]
pub struct WindowState {
    pub app_name: Option<String>,
    pub title: Option<String>,
}

/// The mathematical content of a [`WorkspaceInfo`].
pub struct WorkspaceInfoView {
    pub id: u64,
    pub idx: Option<usize>,
    pub name: Option<Seq<char>>,
}

/// The mathematical content of a [`WorkspaceState`].
pub struct WorkspaceStateView {
    pub current_idx: usize,
    pub current_name: Option<Seq<char>>,
    pub total_count: usize,
    pub workspace_id: Option<u64>,
}

/// The mathematical content of a [`WindowState`].
pub struct WindowStateView {
    pub app_name: Option<Seq<char>>,
    pub title: Option<Seq<char>>,
}

/// The mathematical content of an [`AppState`].
pub struct AppStateView {
    pub workspaces: Seq<WorkspaceInfoView>,
    pub workspace: WorkspaceStateView,
    pub window: WindowStateView,
}

impl View for WorkspaceInfo {
    type V = WorkspaceInfoView;

    open spec fn view(&self) -> WorkspaceInfoView {
        WorkspaceInfoView { id: self.id, idx: self.idx, name: opt_str_view(self.name) }
    }
}

impl View for WorkspaceState {
    type V = WorkspaceStateView;

    open spec fn view(&self) -> WorkspaceStateView {
        WorkspaceStateView {
            current_idx: self.current_idx,
            current_name: opt_str_view(self.current_name),
            total_count: self.total_count,
            workspace_id: self.workspace_id,
        }
    }
}

impl View for WindowState {
    type V = WindowStateView;

    open spec fn view(&self) -> WindowStateView {
        WindowStateView { app_name: opt_str_view(self.app_name), title: opt_str_view(self.title) }
    }
}

/// The views of a sequence of workspaces.
pub open spec fn infos_view(s: Seq<WorkspaceInfo>) -> Seq<WorkspaceInfoView> {
    s.map_values(|w: WorkspaceInfo| w@)
}

impl View for AppState {
    type V = AppStateView;

    open spec fn view(&self) -> AppStateView {
        AppStateView {
            workspaces: infos_view(self.workspaces@),
            workspace: self.workspace@,
            window: self.window@,
        }
    }
}

impl Default for WorkspaceInfo {
    fn default() -> (r: Self)
        ensures
            r@ == (WorkspaceInfoView { id: 0, idx: None, name: None }),
    {
        WorkspaceInfo { id: 0, idx: None, name: None }
    }
}

impl Default for WorkspaceState {
    fn default() -> (r: Self)
        ensures
            r@ == (WorkspaceStateView {
                current_idx: 0,
                current_name: None,
                total_count: 0,
                workspace_id: None,
            }),
    {
        WorkspaceState { current_idx: 0, current_name: None, total_count: 0, workspace_id: None }
    }
}

impl Default for WindowState {
    fn default() -> (r: Self)
        ensures
            r@ == (WindowStateView { app_name: None, title: None }),
    {
        WindowState { app_name: None, title: None }
    }
}

/// The state before any compositor event: no workspaces, workspace 0 of 0,
/// no window.
pub open spec fn initial_state() -> AppStateView {
    AppStateView {
        workspaces: Seq::empty(),
        workspace: WorkspaceStateView {
            current_idx: 0,
            current_name: None,
            total_count: 0,
            workspace_id: None,
        },
        window: WindowStateView { app_name: None, title: None },
    }
}

impl Default for AppState {
    fn default() -> (r: Self)
        ensures
            r@ == initial_state(),
    {
        let r = AppState {
            workspaces: Vec::new(),
            workspace: WorkspaceState::default(),
            window: WindowState::default(),
        };
        assert(r@.workspaces =~= Seq::<WorkspaceInfoView>::empty());
        r
    }
}

/// The text that the bar shows for the workspace: its name, else
/// `<index>/<count>` where there are workspaces, else an em dash.
pub open spec fn workspace_label(w: WorkspaceStateView) -> Seq<char> {
    match w.current_name {
        Some(name) => name,
        None => if w.total_count > 0 {
            decimal(w.current_idx as nat) + "/"@ + decimal(w.total_count as nat)
        } else {
            "—"@
        },
    }
}

/// The text that the bar shows for the focused window: `<app>: <title>`, or
/// whichever of the two is known, or nothing.
pub open spec fn window_label(w: WindowStateView) -> Seq<char> {
    match (w.app_name, w.title) {
        (Some(app), Some(title)) => app + ": "@ + title,
        (Some(app), None) => app,
        (None, Some(title)) => title,
        (None, None) => Seq::empty(),
    }
}

/// The longest window text, in characters, that the bar shows uncut.
pub const TITLE_MAX_CHARS: usize = 60;

/// A window text as the bar shows it: up to [`TITLE_MAX_CHARS`] characters
/// as they are, a longer one cut to its first [`TITLE_MAX_CHARS`] characters
/// and followed by an ellipsis.
pub open spec fn shortened_title(s: Seq<char>) -> Seq<char> {
    if s.len() <= TITLE_MAX_CHARS {
        s
    } else {
        s.take(TITLE_MAX_CHARS as int) + "…"@
    }
}

/// The window title that the bar shows.
pub open spec fn title_text(w: WindowStateView) -> Seq<char> {
    shortened_title(window_label(w))
}

impl AppState {
    /// The state before any compositor event.
    pub fn new() -> (r: Self)
        ensures
            r@ == initial_state(),
    {
        Self::default()
    }

    /// Formatted workspace text for display.
    pub fn workspace_text(&self) -> (r: String)
        ensures
            r@ == workspace_label(self.workspace@),
    {
        match &self.workspace.current_name {
            Some(name) => name.clone(),
            None => if self.workspace.total_count > 0 {
                let a = decimal_chars(self.workspace.current_idx);
                let b = concat(&a, &chars_of("/"));
                let c = concat(&b, &decimal_chars(self.workspace.total_count));
                string_of(&c)
            } else {
                "—".to_string()
            },
        }
    }

    /// Formatted window title for display, cut at [`TITLE_MAX_CHARS`]
    /// characters with an ellipsis.
    pub fn window_title(&self) -> (r: String)
        ensures
            r@ == title_text(self.window@),
    {
        let full: Vec<char> = match (&self.window.app_name, &self.window.title) {
            (Some(app), Some(title)) => {
                let a = concat(&chars_of(app.as_str()), &chars_of(": "));
                concat(&a, &chars_of(title.as_str()))
            },
            (Some(app), None) => chars_of(app.as_str()),
            (None, Some(title)) => chars_of(title.as_str()),
            (None, None) => Vec::new(),
        };
        assert(full@ == window_label(self.window@));
        if full.len() <= TITLE_MAX_CHARS {
            string_of(&full)
        } else {
            let head = subvec(&full, 0, TITLE_MAX_CHARS);
            assert(head@ =~= full@.take(TITLE_MAX_CHARS as int));
            string_of(&concat(&head, &chars_of("…")))
        }
    }
}

} // verus!
