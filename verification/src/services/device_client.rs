//! The panel's handle on the device daemon: where its socket is.
use vstd::prelude::*;

use crate::services::deviced::{socket_path_for, socket_path_in};

verus! {

/// A client of the device daemon, talking to it over a Unix socket.
pub struct DeviceClient {
    socket_path: String,
}

impl View for DeviceClient {
    type V = Seq<char>;

    /// The socket path.
    closed spec fn view(&self) -> Seq<char> {
        self.socket_path@
    }
}

impl DeviceClient {
    /// A client of the daemon listening at `socket_path`.
    pub fn new(socket_path: String) -> (r: Self)
        ensures
            r@ == socket_path@,
    {
        Self { socket_path }
    }

    /// A client of the daemon at its default socket path, given the user's
    /// runtime directory (`XDG_RUNTIME_DIR`) where it is set.
    pub fn default(runtime_dir: Option<String>) -> (r: Self)
        ensures
            r@ == socket_path_for(match runtime_dir {
                Some(d) => Some(d@),
                None => None,
            }),
    {
        let path = match &runtime_dir {
            Some(d) => socket_path_in(Some(d.as_str())),
            None => socket_path_in(None),
        };
        Self { socket_path: path }
    }

    /// The socket path.
    pub fn socket_path(&self) -> (r: &str)
        ensures
            r@ == self@,
    {
        self.socket_path.as_str()
    }
}

} // verus!
