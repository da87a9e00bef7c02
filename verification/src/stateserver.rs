//! The orchestrator's decisions: what an `idle` notification asks for,
//! when a status refresh needs the current song's metadata, what happens
//! to the cover art across a refresh, and the canonical snapshot cache
//! whose replacement yields exactly the change events the diff prescribes.

use vstd::prelude::*;

use crate::events::{diff_events, spec_diff_events, PlayerStateChange};
use crate::response::{spec_first_field, str_eq, MpdResponse};
use crate::status::MpdState;

verus! {

/// The long-poll command: the backend answers when one of these subsystems
/// changes.
pub fn idle_command() -> (r: String)
    ensures
        r@ == "idle stored_playlist playlist player mixer options"@,
{
    "idle stored_playlist playlist player mixer options".to_owned()
}

/// What one reported subsystem change asks the orchestrator to do.
#[derive(Debug, Clone, Copy, PartialEq, Eq, Structural)]
pub enum IdleAction {
    /// Announce a queue change directly, without a status refresh.
    EmitTracklist,
    /// Query `status` and publish a fresh snapshot.
    RefreshStatus,
}

/// The actions an `idle` response asks for, in order: each `changed` field
/// naming `playlist` announces the queue, each naming `player`, `mixer` or
/// `options` asks for a refresh; stored-playlist and unknown subsystems are
/// ignored.
pub open spec fn spec_idle_actions(fields: Seq<(Seq<char>, Seq<char>)>) -> Seq<IdleAction>
    decreases fields.len(),
{
    if fields.len() == 0 {
        Seq::empty()
    } else {
        let prefix = spec_idle_actions(fields.drop_last());
        let last = fields.last();
        if last.0 == "changed"@ {
            if last.1 == "playlist"@ {
                prefix.push(IdleAction::EmitTracklist)
            } else if last.1 == "player"@ || last.1 == "mixer"@ || last.1 == "options"@ {
                prefix.push(IdleAction::RefreshStatus)
            } else {
                prefix
            }
        } else {
            prefix
        }
    }
}

/// Decide what an `idle` response asks for.
pub fn idle_actions(resp: &MpdResponse) -> (r: Vec<IdleAction>)
    ensures
        r@ == spec_idle_actions(resp.fields_v()),
{
    let n = resp.fields.len();
    let mut out: Vec<IdleAction> = Vec::new();
    let mut i: usize = 0;
    while i < n
        invariant
            0 <= i <= n,
            n == resp.fields@.len(),
            out@ =~= spec_idle_actions(
                crate::response::fields_view(resp.fields@.take(i as int)),
            ),
        decreases n - i,
    {
        proof {
            assert(crate::response::fields_view(resp.fields@.take(i as int + 1)).drop_last()
                =~= crate::response::fields_view(resp.fields@.take(i as int)));
        }
        let ghost post = crate::response::fields_view(resp.fields@.take(i as int + 1));
        assert(post.last().0 == resp.fields@[i as int].0@);
        assert(post.last().1 == resp.fields@[i as int].1@);
        if str_eq(resp.fields[i].0.as_str(), "changed") {
            let v = resp.fields[i].1.as_str();
            if str_eq(v, "playlist") {
                out.push(IdleAction::EmitTracklist);
            } else if str_eq(v, "player") || str_eq(v, "mixer") || str_eq(v, "options") {
                out.push(IdleAction::RefreshStatus);
            }
        }
        i = i + 1;
    }
    assert(resp.fields@.take(n as int) =~= resp.fields@);
    out
}

/// Whether a `status` response reports an active song, in which case the
/// refresh also queries the current song's metadata.
pub fn status_needs_metadata(resp: &MpdResponse) -> (r: bool)
    ensures
        r == (spec_first_field(resp.fields_v(), "song"@) is Some),
{
    resp.has_field("song")
}

/// What happens to the cover art across a refresh.
#[derive(Debug, Clone, Copy, PartialEq, Eq, Structural)]
pub enum ArtPlan {
    /// The song changed: download art for it; once the new file exists,
    /// delete the old one. A failed lookup leaves the art absent and is
    /// not fatal.
    FetchNew,
    /// Same song: carry the old art path over unchanged.
    KeepOld,
    /// No song any more: delete the old file; art is absent.
    DropOld,
}

/// Decide the art plan from the old and new song identities: fetch on a
/// changed song, keep on an unchanged one, drop when no song plays.
pub fn art_plan(old_song: &Option<(u64, u64)>, new_song: &Option<(u64, u64)>) -> (r: ArtPlan)
    ensures
        r == (if new_song is Some && *new_song != *old_song {
            ArtPlan::FetchNew
        } else if new_song is Some {
            ArtPlan::KeepOld
        } else {
            ArtPlan::DropOld
        }),
{
    match (new_song, old_song) {
        (Some(n), Some(o)) => {
            if n.0 == o.0 && n.1 == o.1 {
                ArtPlan::KeepOld
            } else {
                ArtPlan::FetchNew
            }
        },
        (Some(_), None) => ArtPlan::FetchNew,
        (None, _) => ArtPlan::DropOld,
    }
}

/// The canonical snapshot cache. Replacing the snapshot yields exactly the
/// events the field-by-field diff prescribes; the caller announces them
/// only after the replacement, so a consumer that re-reads the snapshot on
/// an event sees the version the event corresponds to.
pub struct StateCache {
    /// The latest published snapshot.
    pub state: MpdState,
}

impl StateCache {
    /// A cache holding the initial snapshot.
    pub fn new(initial: MpdState) -> (r: StateCache)
        ensures
            r.state == initial,
    {
        StateCache { state: initial }
    }

    /// The latest published snapshot.
    pub fn snapshot(&self) -> (r: &MpdState)
        ensures
            *r == self.state,
    {
        &self.state
    }

    /// Atomically replace the snapshot with a freshly built one, and hand
    /// back the events the change emits: exactly one per differing field,
    /// none when nothing differs.
    pub fn apply_refresh(&mut self, new: MpdState) -> (events: Vec<PlayerStateChange>)
        ensures
            final(self).state == new,
            events@ == spec_diff_events(old(self).state, new),
    {
        let events = diff_events(&self.state, &new);
        self.state = new;
        events
    }
}

/// Every event kind once, in the order the startup announcement sends them.
pub fn all_change_events() -> (r: Vec<PlayerStateChange>)
    ensures
        r@ == seq![
            PlayerStateChange::Playback,
            PlayerStateChange::Loop,
            PlayerStateChange::Shuffle,
            PlayerStateChange::Volume,
            PlayerStateChange::Song,
            PlayerStateChange::NextSong,
            PlayerStateChange::Tracklist,
        ],
{
    let mut r: Vec<PlayerStateChange> = Vec::new();
    r.push(PlayerStateChange::Playback);
    r.push(PlayerStateChange::Loop);
    r.push(PlayerStateChange::Shuffle);
    r.push(PlayerStateChange::Volume);
    r.push(PlayerStateChange::Song);
    r.push(PlayerStateChange::NextSong);
    r.push(PlayerStateChange::Tracklist);
    assert(r@ =~= seq![
        PlayerStateChange::Playback,
        PlayerStateChange::Loop,
        PlayerStateChange::Shuffle,
        PlayerStateChange::Volume,
        PlayerStateChange::Song,
        PlayerStateChange::NextSong,
        PlayerStateChange::Tracklist,
    ]);
    r
}

} // verus!
