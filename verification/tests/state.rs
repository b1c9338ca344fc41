use niri_bar::ipc::niri::{
    apply_message, NiriEvent, NiriMessage, NiriResponse, ResponseData, Window, Workspace,
    WorkspaceActivatedData,
};
use niri_bar::state::{AppState, WindowState, WorkspaceInfo, WorkspaceState};

fn ws(id: u64, idx: Option<usize>, name: Option<&str>, active: bool, focused: bool) -> Workspace {
    Workspace {
        id,
        idx,
        name: name.map(|s| s.to_string()),
        output: Some("eDP-1".to_string()),
        is_active: active,
        is_focused: focused,
    }
}

fn win(id: u64, app: Option<&str>, title: Option<&str>, focused: bool) -> Window {
    Window {
        id,
        title: title.map(|s| s.to_string()),
        app_id: app.map(|s| s.to_string()),
        workspace_id: Some(1),
        is_focused: focused,
    }
}

#[test]
fn new_state_shows_dash_and_no_title() {
    let st = AppState::new();
    assert_eq!(st.workspace_text(), "—");
    assert_eq!(st.window_title(), "");
    assert!(st.workspaces.is_empty());
}

#[test]
fn workspace_text_prefers_name_then_index_over_count() {
    let mut st = AppState::new();
    st.workspace = WorkspaceState { current_idx: 3, current_name: None, total_count: 12, workspace_id: None };
    assert_eq!(st.workspace_text(), "3/12");
    st.workspace.current_name = Some("web".to_string());
    assert_eq!(st.workspace_text(), "web");
    st.workspace = WorkspaceState { current_idx: 0, current_name: None, total_count: 0, workspace_id: None };
    assert_eq!(st.workspace_text(), "—");
}

#[test]
fn window_title_combines_app_and_title() {
    let mut st = AppState::new();
    st.window = WindowState { app_name: Some("firefox".into()), title: Some("Docs".into()) };
    assert_eq!(st.window_title(), "firefox: Docs");
    st.window = WindowState { app_name: Some("kitty".into()), title: None };
    assert_eq!(st.window_title(), "kitty");
    st.window = WindowState { app_name: None, title: Some("t".into()) };
    assert_eq!(st.window_title(), "t");
}

#[test]
fn window_title_is_cut_at_sixty_characters_with_ellipsis() {
    let mut st = AppState::new();
    let sixty: String = "é".repeat(55) + "abcde";
    st.window = WindowState { app_name: None, title: Some(sixty.clone()) };
    assert_eq!(st.window_title(), sixty);
    st.window = WindowState { app_name: Some("kitty".into()), title: Some("x".repeat(60)) };
    let expected = format!("kitty: {}…", "x".repeat(53));
    assert_eq!(st.window_title(), expected);
    assert_eq!(st.window_title().chars().count(), 61);
}

#[test]
fn workspaces_reply_stores_list_and_shows_first_indexed() {
    let mut st = AppState::new();
    let msg = NiriMessage::Response(NiriResponse::Success {
        data: ResponseData::Workspaces(vec![
            ws(10, None, None, false, false),
            ws(11, Some(2), Some("code"), false, false),
            ws(12, Some(3), None, true, true),
        ]),
    });
    apply_message(&mut st, &msg);
    assert_eq!(st.workspaces.len(), 3);
    assert_eq!(st.workspace.workspace_id, Some(11));
    assert_eq!(st.workspace.current_idx, 2);
    assert_eq!(st.workspace.total_count, 3);
    assert_eq!(st.workspace_text(), "code");
}

#[test]
fn workspaces_changed_shows_focused_or_active_and_activation_switches() {
    let mut st = AppState::new();
    apply_message(
        &mut st,
        &NiriMessage::Event(NiriEvent::WorkspacesChanged {
            workspaces: vec![ws(1, Some(1), None, false, false), ws(2, None, None, true, false)],
        }),
    );
    assert_eq!(st.workspace.workspace_id, Some(2));
    assert_eq!(st.workspace.current_idx, 1);
    assert_eq!(st.workspace_text(), "1/2");
    apply_message(
        &mut st,
        &NiriMessage::Event(NiriEvent::WorkspaceActivated { data: WorkspaceActivatedData { id: 1, focused: true } }),
    );
    assert_eq!(st.workspace.workspace_id, Some(1));
    assert_eq!(st.workspace_text(), "1/2");
    apply_message(
        &mut st,
        &NiriMessage::Event(NiriEvent::WorkspaceActivated { data: WorkspaceActivatedData { id: 99, focused: true } }),
    );
    assert_eq!(st.workspace.workspace_id, Some(1));
}

#[test]
fn windows_and_focus_events_update_title() {
    let mut st = AppState::new();
    apply_message(
        &mut st,
        &NiriMessage::Response(NiriResponse::Success {
            data: ResponseData::Windows(vec![win(1, Some("a"), Some("x"), false), win(2, Some("b"), Some("y"), true)]),
        }),
    );
    assert_eq!(st.window_title(), "b: y");
    apply_message(&mut st, &NiriMessage::Event(NiriEvent::WindowOpenedOrChanged { window: win(3, Some("c"), None, false) }));
    assert_eq!(st.window_title(), "b: y");
    apply_message(&mut st, &NiriMessage::Event(NiriEvent::WindowOpenedOrChanged { window: win(3, Some("c"), None, true) }));
    assert_eq!(st.window_title(), "c");
    apply_message(&mut st, &NiriMessage::Event(NiriEvent::WindowFocusChanged { id: Some(3) }));
    assert_eq!(st.window_title(), "c");
    apply_message(&mut st, &NiriMessage::Event(NiriEvent::WindowFocusChanged { id: None }));
    assert_eq!(st.window_title(), "");
    apply_message(&mut st, &NiriMessage::Event(NiriEvent::WindowsChanged { windows: vec![win(4, None, Some("z"), true)] }));
    assert_eq!(st.window_title(), "z");
}

#[test]
fn other_messages_leave_state_alone() {
    let mut st = AppState::new();
    st.workspaces.push(WorkspaceInfo { id: 5, idx: Some(1), name: None });
    for msg in [
        NiriMessage::Response(NiriResponse::Success { data: ResponseData::Handled("Handled".into()) }),
        NiriMessage::Response(NiriResponse::Failure { err: "bad".into() }),
        NiriMessage::Event(NiriEvent::WindowClosed { id: 1 }),
        NiriMessage::Event(NiriEvent::WindowLayoutsChanged),
        NiriMessage::Event(NiriEvent::KeyboardLayoutsChanged),
        NiriMessage::Event(NiriEvent::OverviewOpenedOrClosed { is_open: true }),
        NiriMessage::Event(NiriEvent::ConfigLoaded { failed: false }),
    ] {
        apply_message(&mut st, &msg);
    }
    assert_eq!(st.workspaces.len(), 1);
    assert_eq!(st.workspace.workspace_id, None);
    assert_eq!(st.window_title(), "");
}
