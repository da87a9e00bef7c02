//! The canonical player snapshot and its construction from a `status`
//! response (plus optional current-song metadata).

use vstd::prelude::*;

use crate::parser::{all_digits, dec_value, parse_u64, scan_digits, spec_is_digit, valid_dec_u64};
use crate::response::{spec_first_field, str_eq, strings_view, FieldMap, MpdResponse};

verus! {

/// Why a snapshot could not be built from a status response.
#[derive(Debug, Clone, PartialEq, Eq)]
pub enum StateError {
    /// Mandatory status fields absent from the response, in checking order.
    MissingFields(Vec<String>),
    /// The named field is present but its value is outside its grammar.
    BadField(String),
}

/// Elapsed and total time of the current track, in milliseconds.
#[derive(Debug, Clone, Copy, PartialEq, Eq, Structural)]
pub struct MpdPlayingState {
    /// Time already played, in milliseconds.
    pub elapsed: u64,
    /// Total track duration, in milliseconds.
    pub duration: u64,
}

/// The playback state: timing information is present exactly when the
/// player is playing or paused.
#[derive(Debug, Clone, Copy, PartialEq, Eq, Structural)]
pub enum MpdPlaybackState {
    Playing(MpdPlayingState),
    Paused(MpdPlayingState),
    Stopped,
}

impl MpdPlaybackState {
    /// A short name for the variant, ignoring timing.
    pub fn kind_name(&self) -> (r: String)
        ensures
            r@ == match self {
                MpdPlaybackState::Playing(_) => "Playing"@,
                MpdPlaybackState::Paused(_) => "Paused"@,
                MpdPlaybackState::Stopped => "Stopped"@,
            },
    {
        match self {
            MpdPlaybackState::Playing(_) => "Playing".to_owned(),
            MpdPlaybackState::Paused(_) => "Paused".to_owned(),
            MpdPlaybackState::Stopped => "Stopped".to_owned(),
        }
    }

    /// Whether two playback states are the same variant, ignoring timing.
    pub fn same_kind(&self, other: &MpdPlaybackState) -> (r: bool)
        ensures
            r == spec_same_kind(*self, *other),
    {
        match (self, other) {
            (MpdPlaybackState::Playing(_), MpdPlaybackState::Playing(_)) => true,
            (MpdPlaybackState::Paused(_), MpdPlaybackState::Paused(_)) => true,
            (MpdPlaybackState::Stopped, MpdPlaybackState::Stopped) => true,
            _ => false,
        }
    }
}

/// Two playback states carry the same variant, ignoring timing.
pub open spec fn spec_same_kind(a: MpdPlaybackState, b: MpdPlaybackState) -> bool {
    match (a, b) {
        (MpdPlaybackState::Playing(_), MpdPlaybackState::Playing(_)) => true,
        (MpdPlaybackState::Paused(_), MpdPlaybackState::Paused(_)) => true,
        (MpdPlaybackState::Stopped, MpdPlaybackState::Stopped) => true,
        _ => false,
    }
}

/// The loop mode, derived from the backend's independent `repeat` and
/// `single` flags.
#[derive(Debug, Clone, Copy, PartialEq, Eq, Structural)]
pub enum MpdLoopState {
    /// No looping.
    Off,
    /// Repeat the current track.
    Track,
    /// Repeat the whole playlist.
    Playlist,
}

/// `repeat && single` loops one track, `repeat && !single` the playlist,
/// anything else nothing.
pub open spec fn spec_loop_of(repeat: bool, single: bool) -> MpdLoopState {
    if repeat && single {
        MpdLoopState::Track
    } else if repeat && !single {
        MpdLoopState::Playlist
    } else {
        MpdLoopState::Off
    }
}

/// A backend boolean: the value is the string `0` or `1`.
pub open spec fn spec_bool01_valid(v: Seq<char>) -> bool {
    v == "0"@ || v == "1"@
}

/// Interpret a backend boolean field value: `0` is false, `1` is true,
/// anything else is rejected with the field's name.
pub fn mpd_num_to_bool(i: &str, field_name: &str) -> (r: Result<bool, StateError>)
    ensures
        match r {
            Ok(b) => spec_bool01_valid(i@) && b == (i@ == "1"@),
            Err(e) => !spec_bool01_valid(i@) && (e matches StateError::BadField(nm) && nm@
                == field_name@),
        },
{
    proof {
        reveal_strlit("0");
        reveal_strlit("1");
        assert("0"@[0] == '0' && "1"@[0] == '1');
        assert("0"@ != "1"@);
    }
    if str_eq(i, "0") {
        Ok(false)
    } else if str_eq(i, "1") {
        Ok(true)
    } else {
        Err(StateError::BadField(field_name.to_owned()))
    }
}

impl MpdLoopState {
    /// Derive the loop mode from the backend's `repeat` and `single` flags,
    /// rejecting a flag outside `0`/`1` with its field name.
    pub fn from_mpd(repeat: &str, single: &str) -> (r: Result<MpdLoopState, StateError>)
        ensures
            match r {
                Ok(m) => spec_bool01_valid(repeat@) && spec_bool01_valid(single@) && m
                    == spec_loop_of(repeat@ == "1"@, single@ == "1"@),
                Err(e) => {
                    &&& !spec_bool01_valid(repeat@) || !spec_bool01_valid(single@)
                    &&& e matches StateError::BadField(nm) && nm@ == (
                    if !spec_bool01_valid(repeat@) {
                        "repeat"@
                    } else {
                        "single"@
                    })
                },
            },
    {
        let repeat = mpd_num_to_bool(repeat, "repeat")?;
        let single = mpd_num_to_bool(single, "single")?;
        let res = if repeat && single {
            MpdLoopState::Track
        } else if repeat && !single {
            MpdLoopState::Playlist
        } else {
            MpdLoopState::Off
        };
        Ok(res)
    }

    /// Parse a loop mode from its display name; anything unrecognized means
    /// no looping.
    pub fn from_str(s: &str) -> (r: MpdLoopState)
        ensures
            r == (if s@ == "Track"@ {
                MpdLoopState::Track
            } else if s@ == "Playlist"@ {
                MpdLoopState::Playlist
            } else {
                MpdLoopState::Off
            }),
    {
        if str_eq(s, "Track") {
            MpdLoopState::Track
        } else if str_eq(s, "Playlist") {
            MpdLoopState::Playlist
        } else {
            MpdLoopState::Off
        }
    }

    /// The display name of this loop mode.
    pub fn kind_name(&self) -> (r: String)
        ensures
            r@ == match self {
                MpdLoopState::Off => "None"@,
                MpdLoopState::Track => "Track"@,
                MpdLoopState::Playlist => "Playlist"@,
            },
    {
        match self {
            MpdLoopState::Off => "None".to_owned(),
            MpdLoopState::Track => "Track".to_owned(),
            MpdLoopState::Playlist => "Playlist".to_owned(),
        }
    }
}

/// A subsystem named in an `idle` notification.
#[derive(Debug, Clone, PartialEq, Eq)]
pub enum MpdStateChanged {
    StoredPlaylist,
    CurrentPlaylist,
    Player,
    Mixer,
    Options,
    Unknown(String),
}

impl MpdStateChanged {
    /// Classify a changed-subsystem name reported by the backend.
    pub fn from(i: &str) -> (r: MpdStateChanged)
        ensures
            if i@ == "stored_playlist"@ {
                r == MpdStateChanged::StoredPlaylist
            } else if i@ == "playlist"@ {
                r == MpdStateChanged::CurrentPlaylist
            } else if i@ == "player"@ {
                r == MpdStateChanged::Player
            } else if i@ == "mixer"@ {
                r == MpdStateChanged::Mixer
            } else if i@ == "options"@ {
                r == MpdStateChanged::Options
            } else {
                r matches MpdStateChanged::Unknown(s) && s@ == i@
            },
    {
        if str_eq(i, "stored_playlist") {
            MpdStateChanged::StoredPlaylist
        } else if str_eq(i, "playlist") {
            MpdStateChanged::CurrentPlaylist
        } else if str_eq(i, "player") {
            MpdStateChanged::Player
        } else if str_eq(i, "mixer") {
            MpdStateChanged::Mixer
        } else if str_eq(i, "options") {
            MpdStateChanged::Options
        } else {
            MpdStateChanged::Unknown(i.to_owned())
        }
    }
}

/// The seconds part of a duration value: the digits before the dot.
pub open spec fn spec_dur_secs(s: Seq<char>) -> Seq<char> {
    s.take(scan_digits(s, 0))
}

/// The fraction part of a duration value: the digits after the dot, if a
/// dot follows the seconds.
pub open spec fn spec_dur_frac(s: Seq<char>) -> Seq<char> {
    if scan_digits(s, 0) < s.len() {
        s.subrange(scan_digits(s, 0) + 1, s.len() as int)
    } else {
        Seq::empty()
    }
}

/// Milliseconds written by a fraction: the first three digits, padded with
/// zeros on the right.
pub open spec fn spec_frac_ms(frac: Seq<char>) -> int {
    if frac.len() >= 3 {
        dec_value(frac.take(3))
    } else if frac.len() == 2 {
        dec_value(frac) * 10
    } else if frac.len() == 1 {
        dec_value(frac) * 100
    } else {
        0
    }
}

/// The value of a duration string `<seconds>[.<fraction>]`, in milliseconds.
pub open spec fn spec_duration_ms(s: Seq<char>) -> int {
    dec_value(spec_dur_secs(s)) * 1000 + spec_frac_ms(spec_dur_frac(s))
}

/// A well-formed duration: one or more digits, optionally a dot and more
/// digits, with a millisecond value that fits in a `u64`.
pub open spec fn spec_duration_valid(s: Seq<char>) -> bool {
    let d = scan_digits(s, 0);
    &&& d > 0
    &&& d == s.len() || s[d] == '.'
    &&& all_digits(spec_dur_frac(s))
    &&& spec_duration_ms(s) <= u64::MAX
}

} // verus!

verus! {

/// Ten to the `n`-th power.
pub open spec fn pow10(n: nat) -> int
    decreases n,
{
    if n == 0 {
        1
    } else {
        10 * pow10((n - 1) as nat)
    }
}

proof fn lemma_pow10_small()
    ensures
        pow10(0) == 1,
        pow10(1) == 10,
        pow10(2) == 100,
        pow10(3) == 1000,
{
    reveal_with_fuel(pow10, 4);
}

proof fn lemma_dec_value_bound(s: Seq<char>)
    requires
        all_digits(s),
    ensures
        0 <= dec_value(s) < pow10(s.len()),
    decreases s.len(),
{
    if s.len() > 0 {
        assert(all_digits(s.drop_last()));
        lemma_dec_value_bound(s.drop_last());
    }
}

/// Parse a duration value `<seconds>[.<fraction>]` into milliseconds,
/// keeping the first three fraction digits. Succeeds exactly on a
/// well-formed duration whose millisecond value fits in a `u64`.
pub fn parse_duration_ms(s: &str) -> (r: Option<u64>)
    ensures
        match r {
            Some(v) => spec_duration_valid(s@) && v as int == spec_duration_ms(s@),
            None => !spec_duration_valid(s@),
        },
{
    let n: usize = s.unicode_len();
    let mut d: usize = 0;
    while d < n && crate::parser::is_digit_char(s.get_char(d))
        invariant
            0 <= d <= n,
            n == s@.len(),
            scan_digits(s@, 0) == scan_digits(s@, d as int),
        decreases n - d,
    {
        d = d + 1;
    }
    assert(scan_digits(s@, d as int) == d as int);
    if d == 0 {
        return None;
    }
    let secs_str = s.substring_char(0, d);
    assert(secs_str@ =~= spec_dur_secs(s@));
    proof {
        crate::parser::lemma_scan_digits_bounds(s@, 0);
    }
    // The fraction: digits after a dot, or nothing at all.
    let ghost frac = spec_dur_frac(s@);
    let mut frac_ms: u64 = 0;
    if d < n {
        if s.get_char(d) != '.' {
            return None;
        }
        assert(frac =~= s@.subrange(d as int + 1, n as int));
        let mut j: usize = d + 1;
        while j < n
            invariant
                d + 1 <= j <= n,
                n == s@.len(),
                d < n,
                scan_digits(s@, 0) == d as int,
                frac == spec_dur_frac(s@),
                frac == s@.subrange(d as int + 1, n as int),
                forall|k: int| d + 1 <= k < j ==> spec_is_digit(s@[k]),
            decreases n - j,
        {
            if !crate::parser::is_digit_char(s.get_char(j)) {
                proof {
                    assert(frac[j - d - 1] == s@[j as int]);
                    assert(!spec_is_digit(frac[j - d - 1]));
                    assert(!all_digits(frac));
                }
                return None;
            }
            j = j + 1;
        }
        assert forall|k: int| 0 <= k < frac.len() implies spec_is_digit(frac[k]) by {
            assert(frac[k] == s@[d + 1 + k]);
        }
        let flen = n - (d + 1);
        if flen >= 3 {
            let fstr = s.substring_char(d + 1, d + 4);
            assert(fstr@ =~= frac.take(3));
            proof {
                lemma_pow10_small();
                assert(all_digits(frac.take(3)));
                lemma_dec_value_bound(frac.take(3));
            }
            frac_ms = match parse_u64(fstr) {
                Some(v) => v,
                None => {
                    proof {
                        assert(false);
                    }
                    return None;
                },
            };
        } else if flen > 0 {
            let fstr = s.substring_char(d + 1, n);
            assert(fstr@ =~= frac);
            proof {
                lemma_pow10_small();
                lemma_dec_value_bound(frac);
            }
            let base = match parse_u64(fstr) {
                Some(v) => v,
                None => {
                    proof {
                        assert(false);
                    }
                    return None;
                },
            };
            frac_ms = if flen == 2 {
                base * 10
            } else {
                base * 100
            };
        }
    } else {
        assert(frac =~= Seq::<char>::empty());
    }
    assert(all_digits(frac));
    assert(frac_ms as int == spec_frac_ms(frac));
    assert(frac_ms <= 999 && spec_frac_ms(frac) >= 0) by {
        lemma_pow10_small();
        if frac.len() >= 3 {
            assert(all_digits(frac.take(3)));
            lemma_dec_value_bound(frac.take(3));
        } else {
            lemma_dec_value_bound(frac);
        }
    }
    proof {
        assert forall|k: int| 0 <= k < secs_str@.len() implies spec_is_digit(secs_str@[k]) by {
            assert(secs_str@[k] == s@[k]);
        }
    }
    let secs = match parse_u64(secs_str) {
        Some(v) => v,
        None => {
            // The seconds alone already exceed what fits in a u64.
            proof {
                assert(dec_value(secs_str@) > u64::MAX);
                assert(dec_value(spec_dur_secs(s@)) * 1000 >= dec_value(spec_dur_secs(s@)));
                assert(spec_duration_ms(s@) > u64::MAX);
            }
            return None;
        },
    };
    if secs > (u64::MAX - frac_ms) / 1000 {
        proof {
            let q = (u64::MAX - frac_ms) / 1000;
            assert(u64::MAX - frac_ms == 1000 * q + (u64::MAX - frac_ms) % 1000);
            assert(secs * 1000 + frac_ms > u64::MAX);
        }
        return None;
    }
    Some(secs * 1000 + frac_ms)
}

} // verus!

verus! {

/// The canonical snapshot of the player: immutable once constructed; each
/// refresh builds a brand-new instance.
#[derive(Debug, Clone)]
pub struct MpdState {
    /// Playing, paused (each with timing) or stopped.
    pub playback_state: MpdPlaybackState,
    /// The loop mode derived from `repeat` and `single`.
    pub loop_state: MpdLoopState,
    /// The shuffle flag.
    pub random: bool,
    /// Mixer volume 0 to 100; absent when the backend reports no mixer.
    pub volume: Option<u8>,
    /// Current song identity: `(playlist position, song id)`, present only
    /// when the response carried both.
    pub song: Option<(u64, u64)>,
    /// Next song identity, same shape as `song`.
    pub next_song: Option<(u64, u64)>,
    /// Number of tracks in the queue; zero when absent or unreadable.
    pub playlistlength: u64,
    /// Current track metadata: tag name to ordered values.
    pub current_song: Option<FieldMap>,
    /// Path of the cover-art cache file, once one has been downloaded.
    pub album_art: Option<String>,
}

/// The status reports an active `play` or `pause` state.
pub open spec fn spec_is_playpause(f: Seq<(Seq<char>, Seq<char>)>) -> bool {
    spec_first_field(f, "state"@) == Some("play"@) || spec_first_field(f, "state"@) == Some(
        "pause"@,
    )
}

/// The name alone if the field is absent, nothing otherwise.
pub open spec fn missing_one(f: Seq<(Seq<char>, Seq<char>)>, name: Seq<char>) -> Seq<Seq<char>> {
    if spec_first_field(f, name) is None {
        seq![name]
    } else {
        Seq::empty()
    }
}

/// The mandatory status fields that are absent, in checking order. The
/// mixer and timing fields are mandatory only while playing or paused.
pub open spec fn spec_missing_status_fields(f: Seq<(Seq<char>, Seq<char>)>) -> Seq<Seq<char>> {
    missing_one(f, "state"@) + missing_one(f, "repeat"@) + missing_one(f, "single"@)
        + missing_one(f, "random"@) + (if spec_is_playpause(f) {
        missing_one(f, "volume"@) + missing_one(f, "elapsed"@) + missing_one(f, "duration"@)
    } else {
        Seq::empty()
    })
}

/// A mixer volume: a numeral no greater than 100.
pub open spec fn spec_volume_ok(v: Seq<char>) -> bool {
    valid_dec_u64(v) && dec_value(v) <= 100
}

/// The named field is present but not a backend boolean.
pub open spec fn bad_bool(f: Seq<(Seq<char>, Seq<char>)>, name: Seq<char>) -> bool {
    spec_first_field(f, name) is Some && !spec_bool01_valid(spec_first_field(f, name)->Some_0)
}

/// The `volume` field is present but not a volume.
pub open spec fn bad_volume(f: Seq<(Seq<char>, Seq<char>)>) -> bool {
    spec_first_field(f, "volume"@) is Some && !spec_volume_ok(
        spec_first_field(f, "volume"@)->Some_0,
    )
}

/// The named field is present but not a well-formed duration.
pub open spec fn bad_duration(f: Seq<(Seq<char>, Seq<char>)>, name: Seq<char>) -> bool {
    spec_first_field(f, name) is Some && !spec_duration_valid(
        spec_first_field(f, name)->Some_0,
    )
}

/// The named field is present but not a numeral that fits in a `u64`.
pub open spec fn bad_num(f: Seq<(Seq<char>, Seq<char>)>, name: Seq<char>) -> bool {
    spec_first_field(f, name) is Some && !valid_dec_u64(spec_first_field(f, name)->Some_0)
}

/// Both halves of a song-identity pair are present.
pub open spec fn spec_pair_present(
    f: Seq<(Seq<char>, Seq<char>)>,
    a: Seq<char>,
    b: Seq<char>,
) -> bool {
    spec_first_field(f, a) is Some && spec_first_field(f, b) is Some
}

/// The first field whose present value is outside its grammar, in checking
/// order; checked only once nothing mandatory is missing.
pub open spec fn spec_first_bad_status(f: Seq<(Seq<char>, Seq<char>)>) -> Option<Seq<char>> {
    if bad_bool(f, "repeat"@) {
        Some("repeat"@)
    } else if bad_bool(f, "single"@) {
        Some("single"@)
    } else if bad_bool(f, "random"@) {
        Some("random"@)
    } else if bad_volume(f) {
        Some("volume"@)
    } else if spec_is_playpause(f) && bad_duration(f, "elapsed"@) {
        Some("elapsed"@)
    } else if spec_is_playpause(f) && bad_duration(f, "duration"@) {
        Some("duration"@)
    } else if spec_pair_present(f, "song"@, "songid"@) && bad_num(f, "song"@) {
        Some("song"@)
    } else if spec_pair_present(f, "song"@, "songid"@) && bad_num(f, "songid"@) {
        Some("songid"@)
    } else if spec_pair_present(f, "nextsong"@, "nextsongid"@) && bad_num(f, "nextsong"@) {
        Some("nextsong"@)
    } else if spec_pair_present(f, "nextsong"@, "nextsongid"@) && bad_num(f, "nextsongid"@) {
        Some("nextsongid"@)
    } else {
        None
    }
}

/// Timing of the current track, read from `elapsed` and `duration`.
pub open spec fn spec_status_playing(f: Seq<(Seq<char>, Seq<char>)>) -> MpdPlayingState {
    MpdPlayingState {
        elapsed: spec_duration_ms(spec_first_field(f, "elapsed"@)->Some_0) as u64,
        duration: spec_duration_ms(spec_first_field(f, "duration"@)->Some_0) as u64,
    }
}

/// The playback state a valid status describes.
pub open spec fn spec_status_playback(f: Seq<(Seq<char>, Seq<char>)>) -> MpdPlaybackState {
    if spec_first_field(f, "state"@) == Some("play"@) {
        MpdPlaybackState::Playing(spec_status_playing(f))
    } else if spec_first_field(f, "state"@) == Some("pause"@) {
        MpdPlaybackState::Paused(spec_status_playing(f))
    } else {
        MpdPlaybackState::Stopped
    }
}

/// The volume a valid status describes.
pub open spec fn spec_status_volume(f: Seq<(Seq<char>, Seq<char>)>) -> Option<u8> {
    match spec_first_field(f, "volume"@) {
        Some(v) => Some(dec_value(v) as u8),
        None => None,
    }
}

/// The song-identity pair a valid status describes under the two names.
pub open spec fn spec_status_pair(
    f: Seq<(Seq<char>, Seq<char>)>,
    a: Seq<char>,
    b: Seq<char>,
) -> Option<(u64, u64)> {
    if spec_pair_present(f, a, b) {
        Some(
            (
                dec_value(spec_first_field(f, a)->Some_0) as u64,
                dec_value(spec_first_field(f, b)->Some_0) as u64,
            ),
        )
    } else {
        None
    }
}

/// The queue length a status describes: zero when absent or unreadable.
pub open spec fn spec_status_playlistlength(f: Seq<(Seq<char>, Seq<char>)>) -> u64 {
    match spec_first_field(f, "playlistlength"@) {
        Some(v) => if valid_dec_u64(v) {
            dec_value(v) as u64
        } else {
            0
        },
        None => 0,
    }
}

} // verus!

verus! {

impl MpdState {
    /// Build a snapshot from a `status` response and, when the player has
    /// an active song, the `currentsong` metadata response. Fails with the
    /// exact list of absent mandatory fields, or with the first present
    /// field whose value is outside its grammar; otherwise every part of
    /// the snapshot is the value the response describes.
    #[verifier::rlimit(80)]
    pub fn from(status: &MpdResponse, metadata: Option<&MpdResponse>) -> (r: Result<
        MpdState,
        StateError,
    >)
        ensures
            ({
                let f = status.fields_v();
                match r {
                    Ok(st) => {
                        &&& spec_missing_status_fields(f).len() == 0
                        &&& spec_first_bad_status(f) is None
                        &&& st.playback_state == spec_status_playback(f)
                        &&& st.loop_state == spec_loop_of(
                            spec_first_field(f, "repeat"@)->Some_0 == "1"@,
                            spec_first_field(f, "single"@)->Some_0 == "1"@,
                        )
                        &&& st.random == (spec_first_field(f, "random"@)->Some_0 == "1"@)
                        &&& st.volume == spec_status_volume(f)
                        &&& st.song == spec_status_pair(f, "song"@, "songid"@)
                        &&& st.next_song == spec_status_pair(f, "nextsong"@, "nextsongid"@)
                        &&& st.playlistlength == spec_status_playlistlength(f)
                        &&& match metadata {
                            Some(m) => st.current_song matches Some(fm) && fm.agrees_with(
                                m.fields_v(),
                            ),
                            None => st.current_song is None,
                        }
                        &&& st.album_art is None
                    },
                    Err(StateError::MissingFields(m)) => {
                        &&& spec_missing_status_fields(f).len() > 0
                        &&& strings_view(m@) == spec_missing_status_fields(f)
                    },
                    Err(StateError::BadField(nm)) => {
                        &&& spec_missing_status_fields(f).len() == 0
                        &&& spec_first_bad_status(f) == Some(nm@)
                    },
                }
            }),
    {
        let ghost f = status.fields_v();
        let state_o = status.first_field_value("state");
        let repeat_o = status.first_field_value("repeat");
        let single_o = status.first_field_value("single");
        let random_o = status.first_field_value("random");
        let volume_o = status.first_field_value("volume");
        let elapsed_o = status.first_field_value("elapsed");
        let duration_o = status.first_field_value("duration");

        let playpause = match state_o {
            Some(v) => str_eq(v.as_str(), "play") || str_eq(v.as_str(), "pause"),
            None => false,
        };
        assert(playpause == spec_is_playpause(f));

        let mut missing: Vec<String> = Vec::new();
        if state_o.is_none() {
            missing.push("state".to_owned());
        }
        if repeat_o.is_none() {
            missing.push("repeat".to_owned());
        }
        if single_o.is_none() {
            missing.push("single".to_owned());
        }
        if random_o.is_none() {
            missing.push("random".to_owned());
        }
        if playpause {
            if volume_o.is_none() {
                missing.push("volume".to_owned());
            }
            if elapsed_o.is_none() {
                missing.push("elapsed".to_owned());
            }
            if duration_o.is_none() {
                missing.push("duration".to_owned());
            }
        }
        if missing.len() > 0 {
            assert(strings_view(missing@) =~= spec_missing_status_fields(f));
            return Err(StateError::MissingFields(missing));
        }
        assert(spec_missing_status_fields(f).len() == 0);

        let repeat_v = match repeat_o {
            Some(v) => v,
            None => {
                proof {
                    assert(false);
                }
                return Err(StateError::BadField(String::new()));
            },
        };
        let single_v = match single_o {
            Some(v) => v,
            None => {
                proof {
                    assert(false);
                }
                return Err(StateError::BadField(String::new()));
            },
        };
        let random_v = match random_o {
            Some(v) => v,
            None => {
                proof {
                    assert(false);
                }
                return Err(StateError::BadField(String::new()));
            },
        };

        let loop_state = match MpdLoopState::from_mpd(repeat_v.as_str(), single_v.as_str()) {
            Ok(m) => m,
            Err(e) => {
                return Err(e);
            },
        };
        let random = match mpd_num_to_bool(random_v.as_str(), "random") {
            Ok(b) => b,
            Err(e) => {
                return Err(e);
            },
        };
        let volume: Option<u8> = match volume_o {
            Some(v) => {
                match parse_u64(v.as_str()) {
                    Some(n) => {
                        if n <= 100 {
                            Some(n as u8)
                        } else {
                            return Err(StateError::BadField("volume".to_owned()));
                        }
                    },
                    None => {
                        return Err(StateError::BadField("volume".to_owned()));
                    },
                }
            },
            None => None,
        };

        let playback_state = if playpause {
            let elapsed_v = match elapsed_o {
                Some(v) => v,
                None => {
                    proof {
                        assert(false);
                    }
                    return Err(StateError::BadField(String::new()));
                },
            };
            let duration_v = match duration_o {
                Some(v) => v,
                None => {
                    proof {
                        assert(false);
                    }
                    return Err(StateError::BadField(String::new()));
                },
            };
            let elapsed = match parse_duration_ms(elapsed_v.as_str()) {
                Some(ms) => ms,
                None => {
                    return Err(StateError::BadField("elapsed".to_owned()));
                },
            };
            let duration = match parse_duration_ms(duration_v.as_str()) {
                Some(ms) => ms,
                None => {
                    return Err(StateError::BadField("duration".to_owned()));
                },
            };
            let timing = MpdPlayingState { elapsed, duration };
            let state_v = match state_o {
                Some(v) => v,
                None => {
                    proof {
                        assert(false);
                    }
                    return Err(StateError::BadField(String::new()));
                },
            };
            if str_eq(state_v.as_str(), "play") {
                MpdPlaybackState::Playing(timing)
            } else {
                MpdPlaybackState::Paused(timing)
            }
        } else {
            MpdPlaybackState::Stopped
        };

        let song_o = status.first_field_value("song");
        let songid_o = status.first_field_value("songid");
        let song: Option<(u64, u64)> = match (song_o, songid_o) {
            (Some(a), Some(b)) => {
                let x = match parse_u64(a.as_str()) {
                    Some(v) => v,
                    None => {
                        return Err(StateError::BadField("song".to_owned()));
                    },
                };
                let y = match parse_u64(b.as_str()) {
                    Some(v) => v,
                    None => {
                        return Err(StateError::BadField("songid".to_owned()));
                    },
                };
                Some((x, y))
            },
            _ => None,
        };

        let nextsong_o = status.first_field_value("nextsong");
        let nextsongid_o = status.first_field_value("nextsongid");
        let next_song: Option<(u64, u64)> = match (nextsong_o, nextsongid_o) {
            (Some(a), Some(b)) => {
                let x = match parse_u64(a.as_str()) {
                    Some(v) => v,
                    None => {
                        return Err(StateError::BadField("nextsong".to_owned()));
                    },
                };
                let y = match parse_u64(b.as_str()) {
                    Some(v) => v,
                    None => {
                        return Err(StateError::BadField("nextsongid".to_owned()));
                    },
                };
                Some((x, y))
            },
            _ => None,
        };

        let playlistlength: u64 = match status.first_field_value("playlistlength") {
            Some(v) => match parse_u64(v.as_str()) {
                Some(n) => n,
                None => 0,
            },
            None => 0,
        };

        let current_song: Option<FieldMap> = match metadata {
            Some(m) => Some(m.field_map()),
            None => None,
        };

        Ok(MpdState {
            playback_state,
            loop_state,
            random,
            volume,
            song,
            next_song,
            playlistlength,
            current_song,
            album_art: None,
        })
    }
}

} // verus!
