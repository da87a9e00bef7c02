//! Path and identity utilities, the idle planner, and configuration.

use mpdris2::config::Args;
use mpdris2::notification::{notification_content, notification_worthy};
use mpdris2::response::FieldMap;
use mpdris2::status::{MpdLoopState, MpdPlaybackState, MpdPlayingState, MpdState};
use mpdris2::is_field_name_char;
use mpdris2::response::MpdResponse;
use mpdris2::stateserver::{
    all_change_events, art_plan, idle_actions, idle_command, status_needs_metadata, ArtPlan,
    IdleAction,
};
use mpdris2::events::PlayerStateChange;
use mpdris2::util::{find_filename_from_relpath, id_to_object_path, object_path_to_id};

fn resp(fields: &[(&str, &str)]) -> MpdResponse {
    MpdResponse {
        fields: fields
            .iter()
            .map(|(n, v)| (n.to_string(), v.to_string()))
            .collect(),
        binary: None,
    }
}

#[test]
fn filename_from_relative_path() {
    assert_eq!(find_filename_from_relpath("a/b/c.flac"), "c.flac");
    assert_eq!(find_filename_from_relpath("c.flac"), "c.flac");
    assert_eq!(find_filename_from_relpath("a/"), "");
    assert_eq!(find_filename_from_relpath(""), "");
}

#[test]
fn object_path_round_trip() {
    let p = id_to_object_path(42);
    assert_eq!(p, "/org/musicpd/song/42");
    assert_eq!(object_path_to_id(&p), Some(42));
    assert_eq!(object_path_to_id("/org/musicpd/song/0"), Some(0));
    assert_eq!(object_path_to_id("/org/musicpd/song/"), None);
    assert_eq!(object_path_to_id("/org/musicpd/song/x1"), None);
    assert_eq!(object_path_to_id("/somewhere/else/1"), None);
    assert_eq!(object_path_to_id(""), None);
}

#[test]
fn field_name_characters() {
    assert!(is_field_name_char('a'));
    assert!(is_field_name_char('Z'));
    assert!(is_field_name_char('_'));
    assert!(is_field_name_char('-'));
    assert!(is_field_name_char('0'));
    assert!(!is_field_name_char(':'));
    assert!(!is_field_name_char(' '));
}

#[test]
fn idle_response_actions() {
    let r = resp(&[
        ("changed", "stored_playlist"),
        ("changed", "playlist"),
        ("changed", "player"),
        ("changed", "mixer"),
        ("changed", "options"),
        ("changed", "sticker"),
        ("other", "playlist"),
    ]);
    assert_eq!(
        idle_actions(&r),
        vec![
            IdleAction::EmitTracklist,
            IdleAction::RefreshStatus,
            IdleAction::RefreshStatus,
            IdleAction::RefreshStatus,
        ]
    );
    assert!(idle_actions(&resp(&[])).is_empty());
}

#[test]
fn idle_command_text() {
    assert_eq!(
        idle_command(),
        "idle stored_playlist playlist player mixer options"
    );
}

#[test]
fn metadata_query_follows_active_song() {
    assert!(status_needs_metadata(&resp(&[("song", "2")])));
    assert!(!status_needs_metadata(&resp(&[("state", "stop")])));
}

#[test]
fn art_plans() {
    assert_eq!(art_plan(&None, &Some((0, 1))), ArtPlan::FetchNew);
    assert_eq!(art_plan(&Some((0, 1)), &Some((0, 2))), ArtPlan::FetchNew);
    assert_eq!(art_plan(&Some((0, 1)), &Some((0, 1))), ArtPlan::KeepOld);
    assert_eq!(art_plan(&Some((0, 1)), &None), ArtPlan::DropOld);
    assert_eq!(art_plan(&None, &None), ArtPlan::DropOld);
}

#[test]
fn startup_announces_every_kind_once() {
    assert_eq!(
        all_change_events(),
        vec![
            PlayerStateChange::Playback,
            PlayerStateChange::Loop,
            PlayerStateChange::Shuffle,
            PlayerStateChange::Volume,
            PlayerStateChange::Song,
            PlayerStateChange::NextSong,
            PlayerStateChange::Tracklist,
        ]
    );
}

#[test]
fn default_configuration() {
    let a = Args::new();
    assert_eq!(a.host, "localhost");
    assert_eq!(a.port, 6600);
    assert!(!a.no_notification);
    assert_eq!(a.verbose, 0);
}

#[test]
fn notification_contents() {
    let meta_resp = MpdResponse {
        fields: vec![
            ("file".to_string(), "a/b.flac".to_string()),
            ("Title".to_string(), "Song".to_string()),
            ("Artist".to_string(), "Band".to_string()),
        ],
        binary: None,
    };
    let meta: FieldMap = meta_resp.field_map();
    let state = MpdState {
        playback_state: MpdPlaybackState::Playing(MpdPlayingState {
            elapsed: 0,
            duration: 1000,
        }),
        loop_state: MpdLoopState::Off,
        random: false,
        volume: Some(10),
        song: Some((0, 1)),
        next_song: None,
        playlistlength: 1,
        current_song: Some(meta),
        album_art: Some("/tmp/mpd/album_art/1".to_string()),
    };
    let n = notification_content(&state, "/usr/share/icons/mpd.svg");
    assert_eq!(n.summary, "Playing");
    assert_eq!(n.body, "Band - Song");
    assert_eq!(n.image_uri, "file:///tmp/mpd/album_art/1");

    let mut stopped = state.clone();
    stopped.playback_state = MpdPlaybackState::Stopped;
    stopped.album_art = None;
    let n2 = notification_content(&stopped, "/usr/share/icons/mpd.svg");
    assert_eq!(n2.summary, "Stopped");
    assert_eq!(n2.body, "Playback stopped");
    assert_eq!(n2.image_uri, "file:///usr/share/icons/mpd.svg");

    let mut untitled = state.clone();
    let meta2 = MpdResponse {
        fields: vec![("file".to_string(), "a/b.flac".to_string())],
        binary: None,
    };
    untitled.current_song = Some(meta2.field_map());
    let n3 = notification_content(&untitled, "icon");
    assert_eq!(n3.body, "a/b.flac");

    let mut bare = state.clone();
    bare.current_song = None;
    let n4 = notification_content(&bare, "icon");
    assert_eq!(n4.body, "Unknown Song - Unknown Artist");

    assert!(notification_worthy(&PlayerStateChange::Playback));
    assert!(notification_worthy(&PlayerStateChange::Song));
    assert!(!notification_worthy(&PlayerStateChange::Volume));
    assert!(!notification_worthy(&PlayerStateChange::Tracklist));
}
