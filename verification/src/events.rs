//! Typed change events and the field-by-field comparison of two snapshots
//! that decides which events a refresh emits.

use vstd::prelude::*;

use crate::status::{spec_same_kind, MpdState};

verus! {

/// The closed set of change events a refresh can announce.
#[derive(Debug, Clone, Copy, PartialEq, Eq, Structural)]
pub enum PlayerStateChange {
    /// The playback state changed variant (playing, paused, stopped).
    Playback,
    /// The loop mode changed.
    Loop,
    /// The shuffle flag changed.
    Shuffle,
    /// The mixer volume changed.
    Volume,
    /// The current song changed.
    Song,
    /// The next song changed.
    NextSong,
    /// The queue contents changed.
    Tracklist,
}

/// The events that the difference between two snapshots emits, in emission
/// order: one per differing field, none for unchanged fields. Elapsed time
/// is ignored: only the playback variant counts.
pub open spec fn spec_diff_events(old: MpdState, new: MpdState) -> Seq<PlayerStateChange> {
    (if !spec_same_kind(new.playback_state, old.playback_state) {
        seq![PlayerStateChange::Playback]
    } else {
        Seq::empty()
    }) + (if new.loop_state != old.loop_state {
        seq![PlayerStateChange::Loop]
    } else {
        Seq::empty()
    }) + (if new.random != old.random {
        seq![PlayerStateChange::Shuffle]
    } else {
        Seq::empty()
    }) + (if new.song != old.song {
        seq![PlayerStateChange::Song]
    } else {
        Seq::empty()
    }) + (if new.next_song != old.next_song {
        seq![PlayerStateChange::NextSong]
    } else {
        Seq::empty()
    }) + (if new.volume != old.volume {
        seq![PlayerStateChange::Volume]
    } else {
        Seq::empty()
    })
}

/// Compare two optional song identities.
fn opt_pair_eq(a: &Option<(u64, u64)>, b: &Option<(u64, u64)>) -> (r: bool)
    ensures
        r == (*a == *b),
{
    match (a, b) {
        (Some(x), Some(y)) => x.0 == y.0 && x.1 == y.1,
        (None, None) => true,
        _ => false,
    }
}

/// Compare two optional volumes.
fn opt_u8_eq(a: &Option<u8>, b: &Option<u8>) -> (r: bool)
    ensures
        r == (*a == *b),
{
    match (a, b) {
        (Some(x), Some(y)) => *x == *y,
        (None, None) => true,
        _ => false,
    }
}

/// The events that replacing `old` by `new` emits: exactly one per
/// differing field, in a fixed order, and none when nothing differs.
pub fn diff_events(old: &MpdState, new: &MpdState) -> (r: Vec<PlayerStateChange>)
    ensures
        r@ == spec_diff_events(*old, *new),
{
    let mut r: Vec<PlayerStateChange> = Vec::new();
    if !new.playback_state.same_kind(&old.playback_state) {
        r.push(PlayerStateChange::Playback);
    }
    if !(new.loop_state == old.loop_state) {
        r.push(PlayerStateChange::Loop);
    }
    if new.random != old.random {
        r.push(PlayerStateChange::Shuffle);
    }
    if !opt_pair_eq(&new.song, &old.song) {
        r.push(PlayerStateChange::Song);
    }
    if !opt_pair_eq(&new.next_song, &old.next_song) {
        r.push(PlayerStateChange::NextSong);
    }
    if !opt_u8_eq(&new.volume, &old.volume) {
        r.push(PlayerStateChange::Volume);
    }
    assert(r@ =~= spec_diff_events(*old, *new));
    r
}

/// Re-publishing an identical snapshot emits no events.
pub proof fn lemma_diff_idempotent(s: MpdState)
    ensures
        spec_diff_events(s, s) == Seq::<PlayerStateChange>::empty(),
{
    assert(spec_diff_events(s, s) =~= Seq::<PlayerStateChange>::empty());
}

/// Two snapshots that differ only in volume emit exactly one `Volume` event
/// and no others.
pub proof fn lemma_diff_volume_only(old: MpdState, new: MpdState)
    requires
        spec_same_kind(new.playback_state, old.playback_state),
        new.loop_state == old.loop_state,
        new.random == old.random,
        new.song == old.song,
        new.next_song == old.next_song,
        new.volume != old.volume,
    ensures
        spec_diff_events(old, new) == seq![PlayerStateChange::Volume],
{
    assert(spec_diff_events(old, new) =~= seq![PlayerStateChange::Volume]);
}

} // verus!
