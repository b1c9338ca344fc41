//! Messages of niri's IPC event stream and what each does to the shared state.
//!
//! The bar subscribes to niri's event stream and also asks for the current
//! workspaces and windows; every line that niri sends back is a response or
//! an event, and [`apply_message`] updates the state from it.
use vstd::prelude::*;

use crate::search::{first_match, lemma_first_match_at, lemma_first_match_none};
use crate::services::{clone_opt_string, opt_str_view};
use crate::state::{
    infos_view, AppState, AppStateView, WindowState, WindowStateView, WorkspaceInfo,
    WorkspaceInfoView, WorkspaceState, WorkspaceStateView,
};

verus! {

/// A workspace as niri reports it.
#[derive(Debug, Clone)]
pub struct Workspace {
    pub id: u64,
    pub idx: Option<usize>,
    pub name: Option<String>,
    pub output: Option<String>,
    pub is_active: bool,
    pub is_focused: bool,
}

/// A window as niri reports it.
#[derive(Debug, Clone)]
pub struct Window {
    pub id: u64,
    pub title: Option<String>,
    pub app_id: Option<String>,
    pub workspace_id: Option<u64>,
    pub is_focused: bool,
}

/// The payload of a `WorkspaceActivated` event.
#[derive(Debug, Clone)]
pub struct WorkspaceActivatedData {
    pub id: u64,
    pub focused: bool,
}

/// The data of a successful reply to a request.
#[derive(Debug, Clone)]
pub enum ResponseData {
    Handled(String),
    Workspaces(Vec<Workspace>),
    Windows(Vec<Window>),
}

/// A reply to a request.
#[derive(Debug, Clone)]
pub enum NiriResponse {
    Success { data: ResponseData },
    Failure { err: String },
}

/// An event of the event stream (the payloads the bar does not read are left out).
#[derive(Debug, Clone)]
pub enum NiriEvent {
    WorkspaceActivated { data: WorkspaceActivatedData },
    WorkspacesChanged { workspaces: Vec<Workspace> },
    WindowOpenedOrChanged { window: Window },
    WindowsChanged { windows: Vec<Window> },
    WindowClosed { id: u64 },
    WindowFocusChanged { id: Option<u64> },
    WindowLayoutsChanged,
    KeyboardLayoutsChanged,
    OverviewOpenedOrClosed { is_open: bool },
    ConfigLoaded { failed: bool },
}

/// A line of the IPC stream: a reply or an event.
#[derive(Debug, Clone)]
pub enum NiriMessage {
    Response(NiriResponse),
    Event(NiriEvent),
}

/// The stored form of a reported workspace.
pub open spec fn info_of(w: Workspace) -> WorkspaceInfoView {
    WorkspaceInfoView { id: w.id, idx: w.idx, name: opt_str_view(w.name) }
}

/// The stored forms of reported workspaces.
pub open spec fn infos_of(ws: Seq<Workspace>) -> Seq<WorkspaceInfoView> {
    ws.map_values(|w: Workspace| info_of(w))
}

/// A reported workspace has an index.
pub open spec fn has_index() -> spec_fn(Workspace) -> bool {
    |w: Workspace| w.idx is Some
}

/// A reported workspace is the focused or the active one.
pub open spec fn is_current() -> spec_fn(Workspace) -> bool {
    |w: Workspace| w.is_focused || w.is_active
}

/// A reported window has the focus.
pub open spec fn is_focused_window() -> spec_fn(Window) -> bool {
    |w: Window| w.is_focused
}

/// A stored workspace has the given id.
pub open spec fn has_id(id: u64) -> spec_fn(WorkspaceInfoView) -> bool {
    |w: WorkspaceInfoView| w.id == id
}

/// The index, or 1 where there is none.
pub open spec fn index_or_one(idx: Option<usize>) -> usize {
    match idx {
        Some(i) => i,
        None => 1,
    }
}

/// The workspace to show, out of `total` workspaces.
pub open spec fn shown(id: u64, idx: Option<usize>, name: Option<Seq<char>>, total: int) -> WorkspaceStateView {
    WorkspaceStateView {
        current_idx: index_or_one(idx),
        current_name: name,
        total_count: total as usize,
        workspace_id: Some(id),
    }
}

/// The window state that a reported window gives.
pub open spec fn window_of(w: Window) -> WindowStateView {
    WindowStateView { app_name: opt_str_view(w.app_id), title: opt_str_view(w.title) }
}

/// The state after a list of workspaces: the list is stored, and the first
/// workspace that `current` selects (if any) becomes the one shown.
pub open spec fn after_workspaces(
    st: AppStateView,
    ws: Seq<Workspace>,
    current: spec_fn(Workspace) -> bool,
) -> AppStateView {
    let st1 = AppStateView { workspaces: infos_of(ws), ..st };
    match first_match(ws, current) {
        Some(i) => AppStateView {
            workspace: shown(ws[i].id, ws[i].idx, opt_str_view(ws[i].name), ws.len() as int),
            ..st1
        },
        None => st1,
    }
}

/// The state after a list of windows: the first focused one (if any) becomes
/// the window shown.
pub open spec fn after_windows(st: AppStateView, ws: Seq<Window>) -> AppStateView {
    match first_match(ws, is_focused_window()) {
        Some(i) => AppStateView { window: window_of(ws[i]), ..st },
        None => st,
    }
}

/// The state after a workspace was activated: where it is a stored workspace,
/// it becomes the one shown, out of all stored workspaces.
pub open spec fn after_activation(st: AppStateView, id: u64) -> AppStateView {
    match first_match(st.workspaces, has_id(id)) {
        Some(i) => AppStateView {
            workspace: shown(
                st.workspaces[i].id,
                st.workspaces[i].idx,
                st.workspaces[i].name,
                st.workspaces.len() as int,
            ),
            ..st
        },
        None => st,
    }
}

/// The state after a message of the IPC stream.
pub open spec fn next_state(st: AppStateView, msg: NiriMessage) -> AppStateView {
    match msg {
        NiriMessage::Response(NiriResponse::Success { data: ResponseData::Workspaces(ws) }) => {
            after_workspaces(st, ws@, has_index())
        },
        NiriMessage::Response(NiriResponse::Success { data: ResponseData::Windows(ws) }) => {
            after_windows(st, ws@)
        },
        NiriMessage::Response(_) => st,
        NiriMessage::Event(NiriEvent::WorkspaceActivated { data }) => after_activation(st, data.id),
        NiriMessage::Event(NiriEvent::WorkspacesChanged { workspaces }) => {
            after_workspaces(st, workspaces@, is_current())
        },
        NiriMessage::Event(NiriEvent::WindowOpenedOrChanged { window }) => {
            if window.is_focused {
                AppStateView { window: window_of(window), ..st }
            } else {
                st
            }
        },
        NiriMessage::Event(NiriEvent::WindowsChanged { windows }) => after_windows(st, windows@),
        NiriMessage::Event(NiriEvent::WindowFocusChanged { id: None }) => AppStateView {
            window: WindowStateView { app_name: None, title: None },
            ..st
        },
        NiriMessage::Event(_) => st,
    }
}

/// The stored forms of reported workspaces.
fn infos_from(ws: &Vec<Workspace>) -> (r: Vec<WorkspaceInfo>)
    ensures
        infos_view(r@) == infos_of(ws@),
{
    let mut r: Vec<WorkspaceInfo> = Vec::new();
    let mut i: usize = 0;
    while i < ws.len()
        invariant
            i <= ws.len(),
            infos_view(r@) == infos_of(ws@.take(i as int)),
        decreases ws.len() - i,
    {
        let w = &ws[i];
        let ghost before = infos_view(r@);
        r.push(WorkspaceInfo { id: w.id, idx: w.idx, name: clone_opt_string(&w.name) });
        assert(infos_view(r@) =~= before.push(info_of(ws@[i as int])));
        assert(infos_of(ws@.take(i + 1)) =~= infos_of(ws@.take(i as int)).push(info_of(ws@[i as int])));
        i += 1;
    }
    assert(ws@.take(ws.len() as int) =~= ws@);
    r
}

/// Stores a list of workspaces and shows the first one that `current` selects.
fn apply_workspaces(state: &mut AppState, ws: &Vec<Workspace>, by_focus: bool)
    ensures
        final(state)@ == after_workspaces(
            old(state)@,
            ws@,
            if by_focus {
                is_current()
            } else {
                has_index()
            },
        ),
{
    let ghost current = if by_focus {
        is_current()
    } else {
        has_index()
    };
    state.workspaces = infos_from(ws);
    let mut i: usize = 0;
    while i < ws.len()
        invariant
            i <= ws.len(),
            current == (if by_focus {
                is_current()
            } else {
                has_index()
            }),
            forall|j: int| 0 <= j < i ==> !current(#[trigger] ws@[j]),
            state@ == (AppStateView { workspaces: infos_of(ws@), ..old(state)@ }),
        decreases ws.len() - i,
    {
        let w = &ws[i];
        let selected = if by_focus {
            w.is_focused || w.is_active
        } else {
            w.idx.is_some()
        };
        if selected {
            proof {
                lemma_first_match_at(ws@, current, i as int);
            }
            let idx = match w.idx {
                Some(x) => x,
                None => 1,
            };
            state.workspace = WorkspaceState {
                current_idx: idx,
                current_name: clone_opt_string(&w.name),
                total_count: ws.len(),
                workspace_id: Some(w.id),
            };
            return;
        }
        i += 1;
    }
    proof {
        lemma_first_match_none(ws@, current);
    }
}

/// Shows the first focused window of a list.
fn apply_windows(state: &mut AppState, ws: &Vec<Window>)
    ensures
        final(state)@ == after_windows(old(state)@, ws@),
{
    let mut i: usize = 0;
    while i < ws.len()
        invariant
            i <= ws.len(),
            forall|j: int| 0 <= j < i ==> !is_focused_window()(#[trigger] ws@[j]),
            state@ == old(state)@,
        decreases ws.len() - i,
    {
        if ws[i].is_focused {
            proof {
                lemma_first_match_at(ws@, is_focused_window(), i as int);
            }
            state.window = WindowState {
                app_name: clone_opt_string(&ws[i].app_id),
                title: clone_opt_string(&ws[i].title),
            };
            return;
        }
        i += 1;
    }
    proof {
        lemma_first_match_none(ws@, is_focused_window());
    }
}

/// Shows the stored workspace with the given id, if there is one.
fn apply_activation(state: &mut AppState, id: u64)
    ensures
        final(state)@ == after_activation(old(state)@, id),
{
    let ghost infos = state@.workspaces;
    let mut i: usize = 0;
    while i < state.workspaces.len()
        invariant
            i <= state.workspaces.len(),
            infos == infos_view(state.workspaces@),
            state@ == old(state)@,
            forall|j: int| 0 <= j < i ==> !has_id(id)(#[trigger] infos[j]),
        decreases state.workspaces.len() - i,
    {
        if state.workspaces[i].id == id {
            proof {
                lemma_first_match_at(infos, has_id(id), i as int);
            }
            let idx = match state.workspaces[i].idx {
                Some(x) => x,
                None => 1,
            };
            let name = clone_opt_string(&state.workspaces[i].name);
            let wid = state.workspaces[i].id;
            let total = state.workspaces.len();
            state.workspace = WorkspaceState {
                current_idx: idx,
                current_name: name,
                total_count: total,
                workspace_id: Some(wid),
            };
            return;
        }
        i += 1;
    }
    proof {
        lemma_first_match_none(infos, has_id(id));
    }
}

/// Updates the shared state from one message of the IPC stream: workspace
/// lists are stored and the current workspace shown; activating a stored
/// workspace shows it; the focused window is shown, and losing the focus
/// clears it; every other message leaves the state as it is.
pub fn apply_message(state: &mut AppState, msg: &NiriMessage)
    ensures
        final(state)@ == next_state(old(state)@, *msg),
{
    match msg {
        NiriMessage::Response(NiriResponse::Success { data: ResponseData::Workspaces(ws) }) => {
            apply_workspaces(state, ws, false);
        },
        NiriMessage::Response(NiriResponse::Success { data: ResponseData::Windows(ws) }) => {
            apply_windows(state, ws);
        },
        NiriMessage::Response(_) => {},
        NiriMessage::Event(NiriEvent::WorkspaceActivated { data }) => {
            apply_activation(state, data.id);
        },
        NiriMessage::Event(NiriEvent::WorkspacesChanged { workspaces }) => {
            apply_workspaces(state, workspaces, true);
        },
        NiriMessage::Event(NiriEvent::WindowOpenedOrChanged { window }) => {
            if window.is_focused {
                state.window = WindowState {
                    app_name: clone_opt_string(&window.app_id),
                    title: clone_opt_string(&window.title),
                };
            }
        },
        NiriMessage::Event(NiriEvent::WindowsChanged { windows }) => {
            apply_windows(state, windows);
        },
        NiriMessage::Event(NiriEvent::WindowFocusChanged { id }) => {
            if id.is_none() {
                state.window = WindowState::default();
            }
        },
        NiriMessage::Event(_) => {},
    }
}

// ---------------------------------------------------------------------------
// Laws
// ---------------------------------------------------------------------------

/// The message is a list of workspaces (a reply or an event).
pub open spec fn is_workspace_list(msg: NiriMessage) -> bool {
    match msg {
        NiriMessage::Response(NiriResponse::Success { data: ResponseData::Workspaces(_) }) => true,
        NiriMessage::Event(NiriEvent::WorkspacesChanged { .. }) => true,
        _ => false,
    }
}

/// A list of workspaces in the message has a workspace to show.
pub open spec fn selects_workspace(msg: NiriMessage) -> bool {
    match msg {
        NiriMessage::Response(NiriResponse::Success { data: ResponseData::Workspaces(ws) }) => {
            first_match(ws@, has_index()) is Some
        },
        NiriMessage::Event(NiriEvent::WorkspacesChanged { workspaces }) => {
            first_match(workspaces@, is_current()) is Some
        },
        _ => true,
    }
}

/// The workspace shown, where there is one, is a stored workspace, and the
/// count shown is the number of stored workspaces.
pub open spec fn shown_is_stored(st: AppStateView) -> bool {
    st.workspace.workspace_id matches Some(id) ==> {
        &&& exists|i: int| 0 <= i < st.workspaces.len() && (#[trigger] st.workspaces[i]).id == id
        &&& st.workspace.total_count == st.workspaces.len()
    }
}

/// Only workspace lists change the stored workspaces.
pub proof fn lemma_only_lists_store_workspaces(st: AppStateView, msg: NiriMessage)
    ensures
        !is_workspace_list(msg) ==> next_state(st, msg).workspaces == st.workspaces,
        is_workspace_list(msg) ==> next_state(st, msg).workspaces == infos_of(match msg {
            NiriMessage::Response(NiriResponse::Success { data: ResponseData::Workspaces(ws) }) => ws@,
            NiriMessage::Event(NiriEvent::WorkspacesChanged { workspaces }) => workspaces@,
            _ => Seq::empty(),
        }),
{
}

/// Losing the focus clears the window title.
pub proof fn lemma_focus_lost_clears_title(st: AppStateView)
    ensures
        crate::state::title_text(
            next_state(st, NiriMessage::Event(NiriEvent::WindowFocusChanged { id: None })).window,
        ) == Seq::<char>::empty(),
{
}

/// Activating a stored workspace shows it, counted among all stored
/// workspaces, and changes nothing else.
pub proof fn lemma_activation_shows_workspace(st: AppStateView, data: WorkspaceActivatedData)
    requires
        st.workspaces.len() <= usize::MAX,
        exists|i: int| 0 <= i < st.workspaces.len() && (#[trigger] st.workspaces[i]).id == data.id,
    ensures
        ({
            let next = next_state(st, NiriMessage::Event(NiriEvent::WorkspaceActivated { data }));
            &&& next.workspace.workspace_id == Some(data.id)
            &&& next.workspace.total_count == st.workspaces.len()
            &&& next.workspaces == st.workspaces
            &&& next.window == st.window
        }),
{
    let k = choose|i: int| 0 <= i < st.workspaces.len() && (#[trigger] st.workspaces[i]).id == data.id;
    crate::search::lemma_first_match_spec(st.workspaces, has_id(data.id));
    assert(has_id(data.id)(st.workspaces[k]));
}

/// Activating a stored workspace shows the first stored workspace with that
/// id: its index (1 where it has none) and its name, out of all stored
/// workspaces.
pub proof fn lemma_activation_shows_index_and_name(st: AppStateView, data: WorkspaceActivatedData, i: int)
    requires
        0 <= i < st.workspaces.len(),
        st.workspaces[i].id == data.id,
        forall|j: int| 0 <= j < i ==> (#[trigger] st.workspaces[j]).id != data.id,
    ensures
        ({
            let next = next_state(st, NiriMessage::Event(NiriEvent::WorkspaceActivated { data }));
            &&& next.workspace.current_idx == (match st.workspaces[i].idx {
                Some(x) => x,
                None => 1usize,
            })
            &&& next.workspace.current_name == st.workspaces[i].name
            &&& next.workspace.workspace_id == Some(data.id)
            &&& next.workspace.total_count == st.workspaces.len() as usize
        }),
{
    assert forall|j: int| 0 <= j < i implies !has_id(data.id)(#[trigger] st.workspaces[j]) by {
        assert(st.workspaces[j].id != data.id);
    }
    crate::search::lemma_first_match_at(st.workspaces, has_id(data.id), i);
}

/// Every message keeps the shown workspace among the stored ones (and its
/// count right), except a workspace list with no workspace to show, which
/// replaces the stored list and leaves the shown workspace as it was.
pub proof fn lemma_shown_workspace_stays_stored(st: AppStateView, msg: NiriMessage)
    requires
        st.workspaces.len() <= usize::MAX,
        shown_is_stored(st),
        selects_workspace(msg),
    ensures
        shown_is_stored(next_state(st, msg)),
{
    match msg {
        NiriMessage::Response(NiriResponse::Success { data: ResponseData::Workspaces(ws) }) => {
            crate::search::lemma_first_match_spec(ws@, has_index());
            assert(ws@.len() == ws.len());
            let i = first_match(ws@, has_index())->0;
            assert(infos_of(ws@)[i].id == ws@[i].id);
            let next = next_state(st, msg);
            assert(next == after_workspaces(st, ws@, has_index()));
            assert(next.workspaces[i].id == ws@[i].id);
            assert(next.workspace.workspace_id == Some(ws@[i].id));
            assert(next.workspace.total_count == next.workspaces.len());
        },
        NiriMessage::Event(NiriEvent::WorkspacesChanged { workspaces }) => {
            crate::search::lemma_first_match_spec(workspaces@, is_current());
            assert(workspaces@.len() == workspaces.len());
            let i = first_match(workspaces@, is_current())->0;
            assert(infos_of(workspaces@)[i].id == workspaces@[i].id);
        },
        NiriMessage::Event(NiriEvent::WorkspaceActivated { data }) => {
            crate::search::lemma_first_match_spec(st.workspaces, has_id(data.id));
            match first_match(st.workspaces, has_id(data.id)) {
                Some(i) => {
                    assert(st.workspaces[i].id == data.id);
                },
                None => {},
            }
        },
        _ => {},
    }
}

} // verus!
