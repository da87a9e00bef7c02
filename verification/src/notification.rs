//! What a desktop notification for the current state says: the summary,
//! body and image are computed here; delivering them is a consumer's job.

use vstd::prelude::*;

use crate::events::PlayerStateChange;
use crate::response::FieldMap;
use crate::status::{MpdPlaybackState, MpdState};

verus! {

/// The text and image of one notification.
#[derive(Debug, Clone, PartialEq, Eq)]
pub struct NotificationContent {
    /// The headline: the playback state's name.
    pub summary: String,
    /// The body: song and artist, or a fallback.
    pub body: String,
    /// A `file://` URI for the cover art, or for the given fallback icon.
    pub image_uri: String,
}

/// Only playback and song changes are worth a notification.
pub fn notification_worthy(e: &PlayerStateChange) -> (r: bool)
    ensures
        r == (e is Playback || e is Song),
{
    match e {
        PlayerStateChange::Playback | PlayerStateChange::Song => true,
        _ => false,
    }
}

/// The first value of the tag, when the metadata carries one.
pub open spec fn spec_tag_first(m: FieldMap, name: Seq<char>) -> Option<Seq<char>> {
    match m.spec_get(name) {
        Some(vals) => if vals.len() > 0 {
            Some(vals[0])
        } else {
            None
        },
        None => None,
    }
}

/// The notification body for a snapshot: `Playback stopped` when stopped;
/// otherwise `artist - title` from the metadata, falling back to the bare
/// file name tag, or to a fixed label when there is no metadata at all.
pub open spec fn spec_notification_body(state: MpdState) -> Seq<char> {
    if state.playback_state is Stopped {
        "Playback stopped"@
    } else {
        match state.current_song {
            Some(m) => {
                let title = spec_tag_first(m, "Title"@);
                let artist = spec_tag_first(m, "Artist"@);
                if title is Some && artist is Some {
                    artist->Some_0 + " - "@ + title->Some_0
                } else {
                    match spec_tag_first(m, "file"@) {
                        Some(f) => f,
                        None => "Unknown"@,
                    }
                }
            },
            None => "Unknown Song - Unknown Artist"@,
        }
    }
}

/// The image URI for a snapshot: the cover-art file when one is cached,
/// else the given fallback icon path, either way as a `file://` URI.
pub open spec fn spec_notification_image(state: MpdState, fallback_icon: Seq<char>) -> Seq<char> {
    "file://"@ + (match state.album_art {
        Some(p) => p@,
        None => fallback_icon,
    })
}

/// Compute the notification a snapshot warrants.
pub fn notification_content(state: &MpdState, fallback_icon: &str) -> (r: NotificationContent)
    ensures
        r.summary@ == match state.playback_state {
            MpdPlaybackState::Playing(_) => "Playing"@,
            MpdPlaybackState::Paused(_) => "Paused"@,
            MpdPlaybackState::Stopped => "Stopped"@,
        },
        r.body@ == spec_notification_body(*state),
        r.image_uri@ == spec_notification_image(*state, fallback_icon@),
{
    let summary = state.playback_state.kind_name();

    let mut image_uri = "file://".to_owned();
    match &state.album_art {
        Some(p) => image_uri.append(p.as_str()),
        None => image_uri.append(fallback_icon),
    }

    let body: String = if matches!(state.playback_state, MpdPlaybackState::Stopped) {
        "Playback stopped".to_owned()
    } else {
        match &state.current_song {
            Some(m) => {
                let title = m.first("Title");
                let artist = m.first("Artist");
                match (artist, title) {
                    (Some(a), Some(t)) => {
                        let mut b = a.clone();
                        b.append(" - ");
                        b.append(t.as_str());
                        b
                    },
                    _ => match m.first("file") {
                        Some(f) => f.clone(),
                        None => "Unknown".to_owned(),
                    },
                }
            },
            None => "Unknown Song - Unknown Artist".to_owned(),
        }
    };

    NotificationContent { summary, body, image_uri }
}

} // verus!
