//! Transport-control decisions: which wire command a control request
//! becomes, given the current snapshot. Sending the command is a caller's
//! job.

use vstd::prelude::*;

use crate::art::{spec_u64_dec, u64_to_string};
use crate::status::{MpdLoopState, MpdPlaybackState, MpdState};

verus! {

/// How far into a track "previous" still goes back to the previous track
/// rather than restarting the current one, in milliseconds.
pub const PREVIOUS_RESTART_THRESHOLD_MS: u64 = 3000;

/// The command a "previous" request becomes: when the player is playing
/// and more than the threshold into the track, restart the track; in every
/// other state go to the previous one.
pub fn previous_command(state: &MpdState) -> (r: String)
    ensures
        r@ == (if state.playback_state matches MpdPlaybackState::Playing(t) && t.elapsed
            > PREVIOUS_RESTART_THRESHOLD_MS {
            "seekcur 0"@
        } else {
            "previous"@
        }),
{
    match &state.playback_state {
        MpdPlaybackState::Playing(t) => {
            if t.elapsed > PREVIOUS_RESTART_THRESHOLD_MS {
                "seekcur 0".to_owned()
            } else {
                "previous".to_owned()
            }
        },
        _ => "previous".to_owned(),
    }
}

/// The magnitude of a signed offset.
pub open spec fn spec_abs(x: int) -> int {
    if x >= 0 {
        x
    } else {
        -x
    }
}

/// The relative-seek command for an offset in microseconds: the sign and
/// the whole seconds of its magnitude.
pub fn seek_command(offset_us: i64) -> (r: String)
    ensures
        r@ == "seekcur "@ + (if offset_us > 0 {
            "+"@
        } else {
            "-"@
        }) + spec_u64_dec(spec_abs(offset_us as int) / 1000000),
{
    let mut cmd = "seekcur ".to_owned();
    if offset_us > 0 {
        cmd.append("+");
    } else {
        cmd.append("-");
    }
    let mag: u64 = if offset_us >= 0 {
        offset_us as u64
    } else if offset_us == i64::MIN {
        9223372036854775808u64
    } else {
        (-offset_us) as u64
    };
    assert(mag as int == spec_abs(offset_us as int));
    let secs = mag / 1000000;
    let ds = u64_to_string(secs);
    cmd.append(ds.as_str());
    cmd
}

/// The absolute-seek command for a track position, provided the request
/// names the song that is actually current: anything else is ignored.
pub fn set_position_command(
    current_song: &Option<(u64, u64)>,
    track_id: u64,
    position_us: u64,
) -> (r: Option<String>)
    ensures
        match r {
            Some(cmd) => {
                &&& *current_song matches Some(s) && s.1 == track_id
                &&& cmd@ == "seekcur "@ + spec_u64_dec((position_us / 1000000) as int)
            },
            None => !(*current_song matches Some(s) && s.1 == track_id),
        },
{
    match current_song {
        Some(s) => {
            if s.1 == track_id {
                let mut cmd = "seekcur ".to_owned();
                let ds = u64_to_string(position_us / 1000000);
                cmd.append(ds.as_str());
                Some(cmd)
            } else {
                None
            }
        },
        None => None,
    }
}

/// The pair of flag commands that selects a loop mode.
pub fn set_loop_commands(mode: MpdLoopState) -> (r: (String, String))
    ensures
        r.0@ == (if mode is Track {
            "repeat 1"@
        } else if mode is Playlist {
            "repeat 1"@
        } else {
            "repeat 0"@
        }),
        r.1@ == (if mode is Track {
            "single 1"@
        } else {
            "single 0"@
        }),
{
    match mode {
        MpdLoopState::Off => ("repeat 0".to_owned(), "single 0".to_owned()),
        MpdLoopState::Track => ("repeat 1".to_owned(), "single 1".to_owned()),
        MpdLoopState::Playlist => ("repeat 1".to_owned(), "single 0".to_owned()),
    }
}

/// The command that turns shuffle on or off.
pub fn shuffle_command(on: bool) -> (r: String)
    ensures
        r@ == (if on {
            "random 1"@
        } else {
            "random 0"@
        }),
{
    if on {
        "random 1".to_owned()
    } else {
        "random 0".to_owned()
    }
}

/// The command that sets the mixer volume.
pub fn volume_command(level: u64) -> (r: String)
    ensures
        r@ == "volume "@ + spec_u64_dec(level as int),
{
    let mut cmd = "volume ".to_owned();
    let ds = u64_to_string(level);
    cmd.append(ds.as_str());
    cmd
}

/// The command that enqueues a URI.
pub fn open_uri_command(uri: &str) -> (r: String)
    ensures
        r@ == "add "@ + uri@,
{
    let mut cmd = "add ".to_owned();
    cmd.append(uri);
    cmd
}

/// Skipping forward is possible when a next song is queued or the whole
/// playlist loops.
pub fn can_go_next(state: &MpdState) -> (r: bool)
    ensures
        r == (state.next_song is Some || state.loop_state == MpdLoopState::Playlist),
{
    state.next_song.is_some() || state.loop_state == MpdLoopState::Playlist
}

/// Playing is possible unless the player is stopped over an empty queue.
pub fn can_play(state: &MpdState) -> (r: bool)
    ensures
        r == (!(state.playback_state is Stopped) || state.playlistlength != 0),
{
    !matches!(state.playback_state, MpdPlaybackState::Stopped) || state.playlistlength != 0
}

/// The playback position in microseconds, saturating at the largest value
/// a consumer's signed field can carry.
pub fn position_us(state: &MpdState) -> (r: i64)
    ensures
        ({
            let ms = match state.playback_state {
                MpdPlaybackState::Playing(t) => t.elapsed as int,
                MpdPlaybackState::Paused(t) => t.elapsed as int,
                MpdPlaybackState::Stopped => 0,
            };
            r as int == if ms * 1000 <= i64::MAX {
                ms * 1000
            } else {
                i64::MAX as int
            }
        }),
{
    let ms: u64 = match &state.playback_state {
        MpdPlaybackState::Playing(t) => t.elapsed,
        MpdPlaybackState::Paused(t) => t.elapsed,
        MpdPlaybackState::Stopped => 0,
    };
    if ms > (i64::MAX as u64) / 1000 {
        proof {
            let q = (i64::MAX as u64) / 1000;
            assert(i64::MAX as u64 == 1000 * q + (i64::MAX as u64) % 1000);
        }
        i64::MAX
    } else {
        (ms * 1000) as i64
    }
}

} // verus!
