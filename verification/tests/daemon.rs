use niri_bar::services::device_client::DeviceClient;
use niri_bar::services::deviced::{socket_path_in, DaemonResponse};

#[test]
fn ok_response_gives_back_data() {
    let r = DaemonResponse::ok(vec![1u8, 2]);
    assert!(r.ok);
    assert_eq!(r.into_result(), Ok(vec![1u8, 2]));
}

#[test]
fn err_response_gives_back_message() {
    let r: DaemonResponse<u32> = DaemonResponse::err("Device AA not found".to_string());
    assert!(!r.ok);
    assert_eq!(r.into_result(), Err("Device AA not found".to_string()));
}

#[test]
fn malformed_responses_give_fixed_errors() {
    let missing: DaemonResponse<u32> = DaemonResponse { ok: true, data: None, error: None };
    assert_eq!(missing.into_result(), Err("missing data in ok response".to_string()));
    let unknown: DaemonResponse<u32> = DaemonResponse { ok: false, data: Some(3), error: None };
    assert_eq!(unknown.into_result(), Err("unknown error".to_string()));
}

#[test]
fn socket_path_in_runtime_dir_or_tmp() {
    assert_eq!(socket_path_in(Some("/run/user/1000")), "/run/user/1000/niri-bar-deviced.sock");
    assert_eq!(socket_path_in(None), "/tmp/niri-bar-deviced.sock");
    assert_eq!(socket_path_in(Some("/run/user/1000/")), "/run/user/1000/niri-bar-deviced.sock");
    assert_eq!(socket_path_in(Some("")), "niri-bar-deviced.sock");
}

#[test]
fn clients_know_their_socket() {
    let c = DeviceClient::new("/x/y.sock".to_string());
    assert_eq!(c.socket_path(), "/x/y.sock");
    let d = DeviceClient::default(Some("/run/user/7".to_string()));
    assert_eq!(d.socket_path(), "/run/user/7/niri-bar-deviced.sock");
    let e = DeviceClient::default(None);
    assert_eq!(e.socket_path(), "/tmp/niri-bar-deviced.sock");
}
