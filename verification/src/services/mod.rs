//! Service-level data shared by the panel and its device daemon.
use vstd::prelude::*;

pub mod audio;
pub mod bluetooth;
pub mod device_client;
pub mod deviced;
pub mod network;
pub mod power;

verus! {

/// An audio output (sink) as `wpctl status` lists it.
#[derive(Debug, Clone, PartialEq, Eq)]
pub struct AudioOutput {
    pub id: String,
    pub name: String,
    pub is_default: bool,
}

/// The state of the media player.
#[derive(Debug, Clone)]
pub struct MediaState {
    pub is_playing: bool,
    pub track_title: Option<String>,
    pub track_artist: Option<String>,
    pub player_name: Option<String>,
}

impl Default for MediaState {
    /// Nothing playing, nothing known.
    fn default() -> (r: Self)
        ensures
            !r.is_playing,
            r.track_title is None,
            r.track_artist is None,
            r.player_name is None,
    {
        MediaState { is_playing: false, track_title: None, track_artist: None, player_name: None }
    }
}

/// A power action to carry out.
#[derive(Debug, Clone)]
pub struct PowerAction {
    pub action_type: power::PowerActionType,
}

/// The mathematical content of an [`AudioOutput`].
pub struct AudioOutputView {
    pub id: Seq<char>,
    pub name: Seq<char>,
    pub is_default: bool,
}

impl View for AudioOutput {
    type V = AudioOutputView;

    open spec fn view(&self) -> AudioOutputView {
        AudioOutputView { id: self.id@, name: self.name@, is_default: self.is_default }
    }
}

/// The views of a sequence of outputs.
pub open spec fn outputs_view(s: Seq<AudioOutput>) -> Seq<AudioOutputView> {
    s.map_values(|o: AudioOutput| o@)
}

/// The view of an optional string.
pub open spec fn opt_str_view(o: Option<String>) -> Option<Seq<char>> {
    match o {
        Some(s) => Some(s@),
        None => None,
    }
}

} // verus!

verus! {

/// A copy of an optional string.
pub fn clone_opt_string(o: &Option<String>) -> (r: Option<String>)
    ensures
        opt_str_view(r) == opt_str_view(*o),
{
    match o {
        Some(s) => Some(s.clone()),
        None => None,
    }
}

} // verus!
