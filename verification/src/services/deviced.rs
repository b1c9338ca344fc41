//! The protocol between the panel and its device daemon.
//!
//! The panel sends one request per connection and the daemon answers with
//! one response: `ok` with data, or not `ok` with an error message.
use vstd::prelude::*;

use crate::services::opt_str_view;

verus! {

broadcast use vstd::string::group_string_axioms;

/// A Bluetooth device as the daemon reports it.
#[derive(Debug, Clone, PartialEq, Eq)]
pub struct BluetoothDevice {
    pub name: String,
    pub mac: String,
    pub connected: bool,
}

/// The mathematical content of a [`BluetoothDevice`].
pub struct BluetoothDeviceView {
    pub name: Seq<char>,
    pub mac: Seq<char>,
    pub connected: bool,
}

impl View for BluetoothDevice {
    type V = BluetoothDeviceView;

    open spec fn view(&self) -> BluetoothDeviceView {
        BluetoothDeviceView { name: self.name@, mac: self.mac@, connected: self.connected }
    }
}

/// A request to the device daemon.
#[derive(Debug, Clone, PartialEq, Eq)]
pub enum DaemonRequest {
    Ping,
    WifiList,
    WifiConnected,
    WifiConnect { ssid: String },
    WifiDisconnect,
    BluetoothList,
    BluetoothConnected,
    BluetoothConnect { mac: String },
    BluetoothDisconnect { mac: String },
    AudioOutputs,
    AudioSetDefault { id: String },
}

/// The daemon's answer to a request.
#[derive(Debug, Clone)]
pub struct DaemonResponse<T> {
    pub ok: bool,
    pub data: Option<T>,
    pub error: Option<String>,
}

/// What a response means to the panel: its data where it is `ok` and carries
/// data; otherwise an error message (its own, or a fixed one).
pub open spec fn response_result<T>(ok: bool, data: Option<T>, error: Option<Seq<char>>) -> Result<T, Seq<char>> {
    if ok {
        match data {
            Some(d) => Ok(d),
            None => Err("missing data in ok response"@),
        }
    } else {
        match error {
            Some(e) => Err(e),
            None => Err("unknown error"@),
        }
    }
}

impl<T> DaemonResponse<T> {
    /// A successful response carrying `data`.
    pub fn ok(data: T) -> (r: Self)
        ensures
            r.ok,
            r.data == Some(data),
            r.error is None,
    {
        Self { ok: true, data: Some(data), error: None }
    }

    /// A failed response carrying the message `msg`.
    pub fn err(msg: String) -> (r: Self)
        ensures
            !r.ok,
            r.data is None,
            opt_str_view(r.error) == Some(msg@),
    {
        Self { ok: false, data: None, error: Some(msg) }
    }

    /// The data of a successful response, or the error message.
    pub fn into_result(self) -> (r: Result<T, String>)
        ensures
            match (r, response_result(self.ok, self.data, opt_str_view(self.error))) {
                (Ok(a), Ok(b)) => a == b,
                (Err(a), Err(b)) => a@ == b,
                _ => false,
            },
    {
        if self.ok {
            match self.data {
                Some(d) => Ok(d),
                None => Err("missing data in ok response".to_string()),
            }
        } else {
            match self.error {
                Some(e) => Err(e),
                None => Err("unknown error".to_string()),
            }
        }
    }
}

/// The file name of the daemon's socket.
pub open spec fn socket_file_name() -> Seq<char> {
    "niri-bar-deviced.sock"@
}

/// The socket path where there is no runtime directory.
pub open spec fn fallback_socket_path() -> Seq<char> {
    "/tmp/niri-bar-deviced.sock"@
}

/// A relative file name joined to a directory, as `Path::join` does on Unix:
/// an empty directory gives the file name; a directory that ends in `/` is
/// followed directly by the file name; any other by `/` and the file name.
pub open spec fn path_join(dir: Seq<char>, file: Seq<char>) -> Seq<char> {
    if dir.len() == 0 {
        file
    } else if dir.last() == '/' {
        dir + file
    } else {
        dir + "/"@ + file
    }
}

/// `Path::new(dir).join(file)`, as text. A file name that is not empty and
/// does not start with `/` is joined by [`path_join`]; an absolute one
/// replaces the directory. Of an empty file name nothing is stated.
#[verifier::external_body]
fn join_path(dir: &str, file: &str) -> (r: String)
    ensures
        file@.len() > 0 && file@[0] != '/' ==> r@ == path_join(dir@, file@),
        file@.len() > 0 && file@[0] == '/' ==> r@ == file@,
{
    std::path::Path::new(dir).join(file).to_string_lossy().into_owned()
}

/// The daemon's socket path: in the user's runtime directory where there is
/// one, else under `/tmp`.
pub open spec fn socket_path_for(runtime_dir: Option<Seq<char>>) -> Seq<char> {
    match runtime_dir {
        Some(dir) => path_join(dir, socket_file_name()),
        None => fallback_socket_path(),
    }
}

/// The daemon's socket path for the given runtime directory (`XDG_RUNTIME_DIR`).
pub fn socket_path_in(runtime_dir: Option<&str>) -> (r: String)
    ensures
        r@ == socket_path_for(match runtime_dir {
            Some(d) => Some(d@),
            None => None,
        }),
{
    proof {
        reveal_strlit("niri-bar-deviced.sock");
    }
    match runtime_dir {
        Some(dir) => join_path(dir, "niri-bar-deviced.sock"),
        None => "/tmp/niri-bar-deviced.sock".to_string(),
    }
}

/// A response made by `ok` gives back its data, and one made by `err` gives
/// back its message.
pub proof fn lemma_response_round_trip<T>(data: T, msg: Seq<char>)
    ensures
        response_result(true, Some(data), None) == Ok::<T, Seq<char>>(data),
        response_result::<T>(false, None, Some(msg)) == Err::<T, Seq<char>>(msg),
{
}

} // verus!
