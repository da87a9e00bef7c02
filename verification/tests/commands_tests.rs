//! Transport-control command building.

use mpdris2::commands::{
    can_go_next, can_play, open_uri_command, position_us, previous_command, seek_command,
    set_loop_commands, set_position_command, shuffle_command, volume_command,
};
use mpdris2::status::{MpdLoopState, MpdPlaybackState, MpdPlayingState, MpdState};

fn state_with(playback: MpdPlaybackState) -> MpdState {
    MpdState {
        playback_state: playback,
        loop_state: MpdLoopState::Off,
        random: false,
        volume: Some(50),
        song: Some((0, 7)),
        next_song: None,
        playlistlength: 3,
        current_song: None,
        album_art: None,
    }
}

#[test]
fn previous_restarts_only_deep_into_a_playing_track() {
    let deep = state_with(MpdPlaybackState::Playing(MpdPlayingState {
        elapsed: 3_001,
        duration: 60_000,
    }));
    assert_eq!(previous_command(&deep), "seekcur 0");
    let early = state_with(MpdPlaybackState::Playing(MpdPlayingState {
        elapsed: 3_000,
        duration: 60_000,
    }));
    assert_eq!(previous_command(&early), "previous");
    let paused = state_with(MpdPlaybackState::Paused(MpdPlayingState {
        elapsed: 50_000,
        duration: 60_000,
    }));
    assert_eq!(previous_command(&paused), "previous");
    assert_eq!(
        previous_command(&state_with(MpdPlaybackState::Stopped)),
        "previous"
    );
}

#[test]
fn seek_commands_carry_sign_and_seconds() {
    assert_eq!(seek_command(5_000_000), "seekcur +5");
    assert_eq!(seek_command(-2_500_000), "seekcur -2");
    assert_eq!(seek_command(0), "seekcur -0");
    assert_eq!(seek_command(999_999), "seekcur +0");
}

#[test]
fn set_position_requires_the_current_song() {
    assert_eq!(
        set_position_command(&Some((0, 7)), 7, 65_000_000),
        Some("seekcur 65".to_string())
    );
    assert_eq!(set_position_command(&Some((0, 7)), 8, 65_000_000), None);
    assert_eq!(set_position_command(&None, 7, 65_000_000), None);
}

#[test]
fn loop_mode_commands() {
    assert_eq!(
        set_loop_commands(MpdLoopState::Off),
        ("repeat 0".to_string(), "single 0".to_string())
    );
    assert_eq!(
        set_loop_commands(MpdLoopState::Track),
        ("repeat 1".to_string(), "single 1".to_string())
    );
    assert_eq!(
        set_loop_commands(MpdLoopState::Playlist),
        ("repeat 1".to_string(), "single 0".to_string())
    );
}

#[test]
fn shuffle_volume_and_uri_commands() {
    assert_eq!(shuffle_command(true), "random 1");
    assert_eq!(shuffle_command(false), "random 0");
    assert_eq!(volume_command(85), "volume 85");
    assert_eq!(open_uri_command("dir/track.flac"), "add dir/track.flac");
}

#[test]
fn capability_predicates() {
    let mut s = state_with(MpdPlaybackState::Stopped);
    s.next_song = None;
    assert!(!can_go_next(&s));
    s.loop_state = MpdLoopState::Playlist;
    assert!(can_go_next(&s));
    s.loop_state = MpdLoopState::Off;
    s.next_song = Some((1, 8));
    assert!(can_go_next(&s));

    assert!(can_play(&s));
    s.playlistlength = 0;
    assert!(!can_play(&s));
    let playing = state_with(MpdPlaybackState::Playing(MpdPlayingState {
        elapsed: 0,
        duration: 1,
    }));
    assert!(can_play(&playing));
}

#[test]
fn position_in_microseconds() {
    let s = state_with(MpdPlaybackState::Paused(MpdPlayingState {
        elapsed: 12_345,
        duration: 60_000,
    }));
    assert_eq!(position_us(&s), 12_345_000);
    assert_eq!(position_us(&state_with(MpdPlaybackState::Stopped)), 0);
    let huge = state_with(MpdPlaybackState::Playing(MpdPlayingState {
        elapsed: u64::MAX,
        duration: u64::MAX,
    }));
    assert_eq!(position_us(&huge), i64::MAX);
}
