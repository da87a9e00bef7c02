//! Snapshot construction from status responses.

use mpdris2::response::MpdResponse;
use mpdris2::status::{
    mpd_num_to_bool, MpdLoopState, MpdPlaybackState, MpdState, MpdStateChanged, StateError,
};

fn resp(fields: &[(&str, &str)]) -> MpdResponse {
    MpdResponse {
        fields: fields
            .iter()
            .map(|(n, v)| (n.to_string(), v.to_string()))
            .collect(),
        binary: None,
    }
}

fn playing_status() -> MpdResponse {
    resp(&[
        ("volume", "70"),
        ("repeat", "1"),
        ("random", "0"),
        ("single", "0"),
        ("state", "play"),
        ("song", "2"),
        ("songid", "11"),
        ("nextsong", "3"),
        ("nextsongid", "12"),
        ("playlistlength", "5"),
        ("elapsed", "12.345"),
        ("duration", "180.5"),
    ])
}

#[test]
fn full_playing_status() {
    let st = MpdState::from(&playing_status(), None).unwrap();
    match st.playback_state {
        MpdPlaybackState::Playing(t) => {
            assert_eq!(t.elapsed, 12_345);
            assert_eq!(t.duration, 180_500);
        }
        other => panic!("expected playing, got {:?}", other),
    }
    assert_eq!(st.loop_state, MpdLoopState::Playlist);
    assert!(!st.random);
    assert_eq!(st.volume, Some(70));
    assert_eq!(st.song, Some((2, 11)));
    assert_eq!(st.next_song, Some((3, 12)));
    assert_eq!(st.playlistlength, 5);
    assert!(st.current_song.is_none());
    assert!(st.album_art.is_none());
}

#[test]
fn stopped_status_without_mixer() {
    let st = MpdState::from(
        &resp(&[
            ("repeat", "0"),
            ("random", "1"),
            ("single", "0"),
            ("state", "stop"),
        ]),
        None,
    )
    .unwrap();
    assert_eq!(st.playback_state, MpdPlaybackState::Stopped);
    assert_eq!(st.volume, None);
    assert!(st.random);
    assert_eq!(st.loop_state, MpdLoopState::Off);
    assert_eq!(st.song, None);
    assert_eq!(st.playlistlength, 0);
}

#[test]
fn missing_fields_are_listed_in_order() {
    let r = MpdState::from(&resp(&[("state", "play"), ("single", "0")]), None);
    match r {
        Err(StateError::MissingFields(m)) => {
            assert_eq!(m, vec!["repeat", "random", "volume", "elapsed", "duration"]);
        }
        other => panic!("expected missing fields, got {:?}", other),
    }
}

#[test]
fn stopped_needs_no_timing_or_volume() {
    let r = MpdState::from(&resp(&[("state", "stop")]), None);
    match r {
        Err(StateError::MissingFields(m)) => {
            assert_eq!(m, vec!["repeat", "single", "random"]);
        }
        other => panic!("expected missing fields, got {:?}", other),
    }
}

#[test]
fn bad_flag_is_named() {
    let mut fields = playing_status();
    fields.fields[1].1 = "2".to_string(); // repeat
    match MpdState::from(&fields, None) {
        Err(StateError::BadField(n)) => assert_eq!(n, "repeat"),
        other => panic!("expected a bad field, got {:?}", other),
    }
}

#[test]
fn bad_volume_is_named() {
    let mut fields = playing_status();
    fields.fields[0].1 = "101".to_string();
    match MpdState::from(&fields, None) {
        Err(StateError::BadField(n)) => assert_eq!(n, "volume"),
        other => panic!("expected a bad field, got {:?}", other),
    }
}

#[test]
fn bad_elapsed_is_named() {
    let mut fields = playing_status();
    fields.fields[10].1 = "x.y".to_string();
    match MpdState::from(&fields, None) {
        Err(StateError::BadField(n)) => assert_eq!(n, "elapsed"),
        other => panic!("expected a bad field, got {:?}", other),
    }
}

#[test]
fn song_pair_needs_both_halves() {
    let st = MpdState::from(
        &resp(&[
            ("repeat", "0"),
            ("random", "0"),
            ("single", "0"),
            ("state", "stop"),
            ("song", "2"),
        ]),
        None,
    )
    .unwrap();
    assert_eq!(st.song, None);
}

#[test]
fn metadata_is_grouped_by_tag() {
    let meta = resp(&[
        ("file", "a/b.flac"),
        ("Artist", "X"),
        ("Artist", "Y"),
        ("Title", "T"),
    ]);
    let st = MpdState::from(&playing_status(), Some(&meta)).unwrap();
    let m = st.current_song.unwrap();
    assert_eq!(m.get("Artist"), Some(&vec!["X".to_string(), "Y".to_string()]));
    assert_eq!(m.get("Title"), Some(&vec!["T".to_string()]));
    assert_eq!(m.get("Album"), None);
    assert_eq!(m.first("Artist").map(|s| s.as_str()), Some("X"));
}

#[test]
fn loop_state_from_flags() {
    assert_eq!(MpdLoopState::from_mpd("1", "1").unwrap(), MpdLoopState::Track);
    assert_eq!(
        MpdLoopState::from_mpd("1", "0").unwrap(),
        MpdLoopState::Playlist
    );
    assert_eq!(MpdLoopState::from_mpd("0", "0").unwrap(), MpdLoopState::Off);
    assert_eq!(MpdLoopState::from_mpd("0", "1").unwrap(), MpdLoopState::Off);
    assert!(MpdLoopState::from_mpd("x", "0").is_err());
}

#[test]
fn loop_state_from_str_and_name() {
    assert_eq!(MpdLoopState::from_str("None"), MpdLoopState::Off);
    assert_eq!(MpdLoopState::from_str("Track"), MpdLoopState::Track);
    assert_eq!(MpdLoopState::from_str("Playlist"), MpdLoopState::Playlist);
    assert_eq!(MpdLoopState::from_str("whatever"), MpdLoopState::Off);
    assert_eq!(MpdLoopState::Off.kind_name(), "None");
    assert_eq!(MpdLoopState::Track.kind_name(), "Track");
    assert_eq!(MpdLoopState::Playlist.kind_name(), "Playlist");
}

#[test]
fn playback_kind_names() {
    assert_eq!(MpdPlaybackState::Stopped.kind_name(), "Stopped");
}

#[test]
fn bool_fields() {
    assert_eq!(mpd_num_to_bool("0", "repeat").unwrap(), false);
    assert_eq!(mpd_num_to_bool("1", "repeat").unwrap(), true);
    match mpd_num_to_bool("yes", "repeat") {
        Err(StateError::BadField(n)) => assert_eq!(n, "repeat"),
        other => panic!("expected a bad field, got {:?}", other),
    }
}

#[test]
fn changed_subsystems() {
    assert_eq!(
        MpdStateChanged::from("stored_playlist"),
        MpdStateChanged::StoredPlaylist
    );
    assert_eq!(
        MpdStateChanged::from("playlist"),
        MpdStateChanged::CurrentPlaylist
    );
    assert_eq!(MpdStateChanged::from("player"), MpdStateChanged::Player);
    assert_eq!(MpdStateChanged::from("mixer"), MpdStateChanged::Mixer);
    assert_eq!(MpdStateChanged::from("options"), MpdStateChanged::Options);
    assert_eq!(
        MpdStateChanged::from("sticker"),
        MpdStateChanged::Unknown("sticker".to_string())
    );
}
