//! Snapshot diffing and the fan-out event bus.

use mpdris2::bus::EventBus;
use mpdris2::events::{diff_events, PlayerStateChange};
use mpdris2::status::{MpdLoopState, MpdPlaybackState, MpdPlayingState, MpdState};
use mpdris2::stateserver::StateCache;

fn base_state() -> MpdState {
    MpdState {
        playback_state: MpdPlaybackState::Playing(MpdPlayingState {
            elapsed: 1_000,
            duration: 90_000,
        }),
        loop_state: MpdLoopState::Off,
        random: false,
        volume: Some(40),
        song: Some((0, 7)),
        next_song: Some((1, 8)),
        playlistlength: 4,
        current_song: None,
        album_art: None,
    }
}

#[test]
fn volume_change_emits_exactly_one_volume_event() {
    let old = base_state();
    let mut new = base_state();
    new.volume = Some(55);
    let events = diff_events(&old, &new);
    assert_eq!(events, vec![PlayerStateChange::Volume]);
}

#[test]
fn identical_snapshot_emits_nothing() {
    let s = base_state();
    let events = diff_events(&s, &s.clone());
    assert!(events.is_empty());
}

#[test]
fn elapsed_time_alone_is_not_a_change() {
    let old = base_state();
    let mut new = base_state();
    new.playback_state = MpdPlaybackState::Playing(MpdPlayingState {
        elapsed: 2_000,
        duration: 90_000,
    });
    assert!(diff_events(&old, &new).is_empty());
}

#[test]
fn every_field_changes_in_order() {
    let old = base_state();
    let mut new = base_state();
    new.playback_state = MpdPlaybackState::Stopped;
    new.loop_state = MpdLoopState::Track;
    new.random = true;
    new.volume = None;
    new.song = None;
    new.next_song = Some((2, 9));
    let events = diff_events(&old, &new);
    assert_eq!(
        events,
        vec![
            PlayerStateChange::Playback,
            PlayerStateChange::Loop,
            PlayerStateChange::Shuffle,
            PlayerStateChange::Song,
            PlayerStateChange::NextSong,
            PlayerStateChange::Volume,
        ]
    );
}

#[test]
fn cache_swaps_before_reporting() {
    let mut cache = StateCache::new(base_state());
    let mut new = base_state();
    new.random = true;
    let events = cache.apply_refresh(new);
    assert_eq!(events, vec![PlayerStateChange::Shuffle]);
    assert!(cache.snapshot().random);
    // Re-publishing the identical snapshot emits nothing.
    let again = cache.snapshot().clone();
    assert!(cache.apply_refresh(again).is_empty());
}

#[test]
fn bus_delivers_in_order() {
    let mut bus = EventBus::new(50);
    let a = bus.subscribe();
    bus.send(PlayerStateChange::Playback);
    bus.send(PlayerStateChange::Volume);
    assert_eq!(bus.recv(a), Some(PlayerStateChange::Playback));
    assert_eq!(bus.recv(a), Some(PlayerStateChange::Volume));
    assert_eq!(bus.recv(a), None);
}

#[test]
fn lossy_consumer_keeps_order() {
    let mut bus = EventBus::new(2);
    let a = bus.subscribe();
    // Five events into a queue of two: the three oldest are lost, the
    // survivors arrive in emission order.
    bus.send(PlayerStateChange::Playback);
    bus.send(PlayerStateChange::Loop);
    bus.send(PlayerStateChange::Shuffle);
    bus.send(PlayerStateChange::Song);
    bus.send(PlayerStateChange::Volume);
    assert_eq!(bus.recv(a), Some(PlayerStateChange::Song));
    assert_eq!(bus.recv(a), Some(PlayerStateChange::Volume));
    assert_eq!(bus.recv(a), None);
}

#[test]
fn slow_consumer_does_not_disturb_others() {
    let mut bus = EventBus::new(2);
    let slow = bus.subscribe();
    let fast = bus.subscribe();
    bus.send(PlayerStateChange::Playback);
    assert_eq!(bus.recv(fast), Some(PlayerStateChange::Playback));
    bus.send(PlayerStateChange::Loop);
    bus.send(PlayerStateChange::Shuffle);
    bus.send(PlayerStateChange::Song);
    // Both consumers overflowed their queues of two; each keeps the two
    // newest events, still in emission order.
    assert_eq!(bus.recv(fast), Some(PlayerStateChange::Shuffle));
    assert_eq!(bus.recv(fast), Some(PlayerStateChange::Song));
    // The slow consumer lost the oldest events but keeps the order.
    assert_eq!(bus.recv(slow), Some(PlayerStateChange::Shuffle));
    assert_eq!(bus.recv(slow), Some(PlayerStateChange::Song));
    assert_eq!(bus.recv(slow), None);
}

#[test]
fn late_subscriber_sees_only_later_events() {
    let mut bus = EventBus::new(8);
    bus.send(PlayerStateChange::Playback);
    let late = bus.subscribe();
    bus.send(PlayerStateChange::Volume);
    assert_eq!(bus.recv(late), Some(PlayerStateChange::Volume));
    assert_eq!(bus.recv(late), None);
}
