//! The playback controller: a single owner of the playlist model and of a
//! mirror of the output sink's state (queue depth, paused/playing, volume).
//!
//! The audio device itself lives outside this crate. Every operation here is
//! a pure transition on the model: the caller performs the matching device
//! work (decoding a file, appending it to the sink, pausing the sink) and
//! hands the observed outcome in as a plain value. The one signal the sink
//! gives back is its queue depth, consumed by [`Player::check_playlist_progress`].
use vstd::prelude::*;
use crate::PlayerError;
use crate::playlist::{collect_tracks, count_true, count_true_vec, kept_paths, sorted_tracks, DirEntry};
use crate::text::{display_name, spec_file_name};

verus! {

/// The result of starting a playlist run.
#[derive(Clone, Copy, PartialEq, Eq, Debug)]
pub enum RunOutcome {
    /// A run began: every successfully enqueued track is queued, playback is
    /// on, and the cursor points at the first track.
    Started,
    /// The playlist is empty: nothing was done, and the caller surfaces a
    /// warning, not an error.
    EmptyPlaylist,
}

/// The standing of one track in the status display.
#[derive(Clone, Copy, PartialEq, Eq, Debug)]
pub enum TrackStatus {
    /// Before the cursor while a run is active: already played.
    Completed,
    /// At the cursor while a run is active: estimated to be sounding now.
    NowPlaying,
    /// Anything else: still to come, or no run is active.
    Pending,
}

/// What happened when the caller tried to open, decode and enqueue one file.
#[derive(Clone, Copy, PartialEq, Eq, Debug)]
pub enum LoadOutcome {
    /// The file was decoded and appended to the sink queue.
    Decoded,
    /// The file could not be opened.
    OpenFailed,
    /// The container was unrecognized or corrupt.
    DecodeFailed,
}

/// The result of a `play` command.
#[derive(Clone, Copy, PartialEq, Eq, Debug)]
pub enum PlayOutcome {
    /// Playback was started or resumed.
    Started,
    /// The queue was empty, so nothing happened; the caller reports
    /// "nothing loaded" as a warning, not an error.
    NothingLoaded,
}

/// What one reconciliation poll observed.
#[derive(Clone, Copy, PartialEq, Eq, Debug)]
pub struct PollReport {
    /// The cursor advanced to this track and it should be announced.
    pub now_playing: Option<usize>,
    /// The queue ran dry while a run was active: the run is over.
    pub completed: bool,
}

/// The playback controller's whole state.
///
/// `tracks`, `current`, `active` and `baseline` are the playlist model:
/// the ordered track paths, the estimated index of the sounding track, whether
/// a playlist run is in progress, and how many sources were queued when the
/// run started. `queued`, `playing` and `volume` mirror the sink: its queue
/// depth as last observed, whether it is paused, and its volume in permille.
pub struct Player {
    pub tracks: Vec<String>,
    pub current: usize,
    pub active: bool,
    pub baseline: usize,
    pub queued: usize,
    pub playing: bool,
    pub volume: u16,
}

/// Clamp a requested volume, in permille, into `[0, 1000]`.
pub open spec fn spec_clamp_permille(v: int) -> int {
    if v < 0 {
        0
    } else if v > 1000 {
        1000
    } else {
        v
    }
}

impl Player {
    /// The state invariant: the cursor stays inside the playlist, a run only
    /// happens on a non-empty playlist, the run baseline never exceeds the
    /// playlist length, and the volume is a proper permille value.
    pub open spec fn wf(self) -> bool {
        &&& self.tracks@.len() == 0 ==> self.current == 0
        &&& self.tracks@.len() > 0 ==> self.current < self.tracks@.len()
        &&& self.active ==> self.tracks@.len() > 0
        &&& self.active ==> self.baseline <= self.tracks@.len()
        &&& self.volume <= 1000
    }

    /// A fresh player: no playlist, nothing queued, paused, full volume
    /// (the sink's own starting volume).
    pub fn new() -> (p: Player)
        ensures
            p.wf(),
            p.tracks@.len() == 0,
            p.current == 0,
            !p.active,
            p.baseline == 0,
            p.queued == 0,
            !p.playing,
            p.volume == 1000,
    {
        Player {
            tracks: Vec::new(),
            current: 0,
            active: false,
            baseline: 0,
            queued: 0,
            playing: false,
            volume: 1000,
        }
    }

    /// Record the outcome of a single-file load. A decoded file has been
    /// appended to the sink queue; a failure leaves everything as it was and
    /// is reported as the matching error. Loading never auto-plays.
    pub fn load_file(&mut self, outcome: LoadOutcome) -> (r: Result<(), PlayerError>)
        requires
            old(self).wf(),
            old(self).queued < usize::MAX,
        ensures
            final(self).wf(),
            outcome == LoadOutcome::Decoded ==> r == Ok::<(), PlayerError>(())
                && *final(self) == (Player { queued: (old(self).queued + 1) as usize, ..*old(self) }),
            outcome == LoadOutcome::OpenFailed ==> r == Err::<(), PlayerError>(PlayerError::IoError)
                && *final(self) == *old(self),
            outcome == LoadOutcome::DecodeFailed ==> r == Err::<(), PlayerError>(PlayerError::DecodeError)
                && *final(self) == *old(self),
    {
        match outcome {
            LoadOutcome::Decoded => {
                self.queued = self.queued + 1;
                Ok(())
            },
            LoadOutcome::OpenFailed => Err(PlayerError::IoError),
            LoadOutcome::DecodeFailed => Err(PlayerError::DecodeError),
        }
    }

    /// Start or resume playback, guarded by the queue: with nothing queued the
    /// state is left untouched and the caller surfaces "nothing loaded".
    pub fn play(&mut self) -> (r: PlayOutcome)
        requires
            old(self).wf(),
        ensures
            final(self).wf(),
            (*final(self), r) == spec_play(*old(self)),
            old(self).queued == 0 ==> r == PlayOutcome::NothingLoaded && *final(self) == *old(self),
    {
        if self.queued == 0 {
            PlayOutcome::NothingLoaded
        } else {
            self.playing = true;
            PlayOutcome::Started
        }
    }

    /// Pause playback without clearing the queue. Idempotent.
    pub fn pause(&mut self)
        requires
            old(self).wf(),
        ensures
            final(self).wf(),
            *final(self) == spec_pause(*old(self)),
    {
        self.playing = false;
    }

    /// Halt playback, clear the queue, and end any active run: afterwards the
    /// player is inactive with an empty queue and a reset cursor. Idempotent.
    pub fn stop(&mut self)
        requires
            old(self).wf(),
        ensures
            final(self).wf(),
            *final(self) == spec_stop(*old(self)),
            !final(self).active,
            final(self).queued == 0,
    {
        self.playing = false;
        self.active = false;
        self.queued = 0;
        self.current = 0;
    }

    /// Apply a requested volume, in permille. Out-of-range requests are not
    /// errors: they are silently clamped into `[0, 1000]`.
    pub fn set_volume(&mut self, v: i64) -> (applied: u16)
        requires
            old(self).wf(),
        ensures
            final(self).wf(),
            applied == spec_clamp_permille(v as int),
            *final(self) == (Player { volume: applied, ..*old(self) }),
            0 <= applied <= 1000,
            v < 0 ==> applied == 0,
            v > 1000 ==> applied == 1000,
    {
        let applied: u16 = if v < 0 {
            0
        } else if v > 1000 {
            1000
        } else {
            v as u16
        };
        self.volume = applied;
        applied
    }

    /// True iff no queued-and-unfinished source remains, as last observed.
    /// A caller checks this before `play`.
    pub fn is_empty(&self) -> (r: bool)
        ensures
            r == (self.queued == 0),
    {
        self.queued == 0
    }

    /// One reconciliation poll: `remaining` is the sink's observed queue
    /// depth. See [`spec_check_progress`] for the exact transition.
    pub fn check_playlist_progress(&mut self, remaining: usize) -> (rep: PollReport)
        requires
            old(self).wf(),
        ensures
            final(self).wf(),
            (*final(self), rep) == spec_check_progress(*old(self), remaining),
    {
        if !self.active || self.tracks.len() == 0 {
            self.queued = remaining;
            PollReport { now_playing: None, completed: false }
        } else {
            let expected: usize = if self.baseline >= remaining {
                self.baseline - remaining
            } else {
                0
            };
            let advanced = expected > self.current && expected <= self.tracks.len();
            let cur: usize = if advanced {
                expected
            } else {
                self.current
            };
            let rep = PollReport {
                now_playing: if advanced && cur < self.tracks.len() {
                    Some(cur)
                } else {
                    None
                },
                completed: remaining == 0,
            };
            if remaining == 0 {
                self.queued = 0;
                self.current = 0;
                self.active = false;
            } else {
                self.queued = remaining;
                self.current = cur;
            }
            rep
        }
    }
    /// Replace the playlist from a directory listing, `None` standing for a
    /// directory that does not exist. A missing directory is rejected before
    /// anything is touched: the model keeps its prior state. Otherwise the
    /// tracks become the listing's audio files, sorted ascending, with the
    /// cursor reset and no run active; the sink — queue, playback, volume —
    /// is left alone.
    pub fn load_playlist(&mut self, listing: Option<Vec<DirEntry>>) -> (r: Result<
        (),
        PlayerError,
    >)
        requires
            old(self).wf(),
        ensures
            final(self).wf(),
            listing is None ==> r == Err::<(), PlayerError>(PlayerError::NotFoundError)
                && *final(self) == *old(self),
            listing matches Some(entries) ==> {
                &&& r == Ok::<(), PlayerError>(())
                &&& sorted_tracks(final(self).tracks@)
                &&& final(self).tracks@.to_multiset() == kept_paths(entries@).to_multiset()
                &&& final(self).tracks@.len() == kept_paths(entries@).len()
                &&& final(self).current == 0
                &&& !final(self).active
                &&& final(self).baseline == old(self).baseline
                &&& final(self).queued == old(self).queued
                &&& final(self).playing == old(self).playing
                &&& final(self).volume == old(self).volume
            },
    {
        match listing {
            None => Err(PlayerError::NotFoundError),
            Some(entries) => {
                self.tracks = collect_tracks(entries);
                self.current = 0;
                self.active = false;
                Ok(())
            },
        }
    }

    /// Start a run of the loaded playlist. On an empty playlist nothing is
    /// done — in particular `active` is untouched — and the caller surfaces a
    /// warning. Otherwise `enqueue_ok` says, track by track, which of the
    /// attempted enqueues succeeded (failures are skipped, non-fatally): the
    /// run becomes active with exactly the successful count queued as its
    /// baseline, the cursor on the first track, and playback on.
    pub fn play_playlist(&mut self, enqueue_ok: &Vec<bool>) -> (r: RunOutcome)
        requires
            old(self).wf(),
            enqueue_ok@.len() == old(self).tracks@.len(),
        ensures
            final(self).wf(),
            old(self).tracks@.len() == 0 ==> r == RunOutcome::EmptyPlaylist && *final(self)
                == *old(self),
            old(self).tracks@.len() > 0 ==> r == RunOutcome::Started && *final(self) == (Player {
                current: 0,
                active: true,
                baseline: count_true(enqueue_ok@) as usize,
                queued: count_true(enqueue_ok@) as usize,
                playing: true,
                ..*old(self)
            }),
    {
        if self.tracks.len() == 0 {
            return RunOutcome::EmptyPlaylist;
        }
        let n = count_true_vec(enqueue_ok);
        self.current = 0;
        self.active = true;
        self.baseline = n;
        self.queued = n;
        self.playing = true;
        RunOutcome::Started
    }

    /// The standing of track `i` in the status display: completed, sounding
    /// now, or pending.
    pub fn track_status(&self, i: usize) -> (st: TrackStatus)
        ensures
            st == spec_track_status(*self, i as int),
    {
        if self.active && i == self.current {
            TrackStatus::NowPlaying
        } else if self.active && i < self.current {
            TrackStatus::Completed
        } else {
            TrackStatus::Pending
        }
    }

    /// The status display's content: every track's display name — the file
    /// name, path stripped — with its standing. Read-only.
    pub fn playlist_report(&self) -> (rep: Vec<(String, TrackStatus)>)
        ensures
            rep@.len() == self.tracks@.len(),
            forall|i: int|
                0 <= i < rep@.len() ==> (#[trigger] rep@[i]).0@ == spec_file_name(
                    self.tracks@[i]@,
                ) && rep@[i].1 == spec_track_status(*self, i),
    {
        let mut rep: Vec<(String, TrackStatus)> = Vec::new();
        let mut i: usize = 0;
        while i < self.tracks.len()
            invariant
                i <= self.tracks@.len(),
                rep@.len() == i,
                forall|k: int|
                    0 <= k < i ==> (#[trigger] rep@[k]).0@ == spec_file_name(self.tracks@[k]@)
                        && rep@[k].1 == spec_track_status(*self, k),
            decreases self.tracks@.len() - i,
        {
            let name = display_name(self.tracks[i].as_str());
            let st = self.track_status(i);
            rep.push((name, st));
            i = i + 1;
        }
        rep
    }

    /// What to announce as sounding now: the display name of the track under
    /// the cursor, its index, and the playlist length — or nothing when no
    /// playlist is loaded.
    pub fn now_playing(&self) -> (r: Option<(String, usize, usize)>)
        requires
            self.wf(),
        ensures
            self.tracks@.len() == 0 ==> r is None,
            self.tracks@.len() > 0 ==> (r matches Some(t) && t.0@ == spec_file_name(
                self.tracks@[self.current as int]@,
            ) && t.1 == self.current && t.2 == self.tracks@.len()),
    {
        if self.tracks.len() > 0 && self.current < self.tracks.len() {
            let name = display_name(self.tracks[self.current].as_str());
            Some((name, self.current, self.tracks.len()))
        } else {
            None
        }
    }
}

/// The standing of track `i`: before the cursor of an active run it has
/// completed, at the cursor it is sounding now, and otherwise it is pending.
pub open spec fn spec_track_status(p: Player, i: int) -> TrackStatus {
    if p.active && i == p.current {
        TrackStatus::NowPlaying
    } else if p.active && i < p.current {
        TrackStatus::Completed
    } else {
        TrackStatus::Pending
    }
}

/// The transition `play` makes: on an empty queue nothing changes and the
/// outcome says so; otherwise the sink is set playing.
pub open spec fn spec_play(p: Player) -> (Player, PlayOutcome) {
    if p.queued == 0 {
        (p, PlayOutcome::NothingLoaded)
    } else {
        (Player { playing: true, ..p }, PlayOutcome::Started)
    }
}

/// The transition `pause` makes: the sink stops sounding, the queue stays.
pub open spec fn spec_pause(p: Player) -> Player {
    Player { playing: false, ..p }
}

/// The transition `stop` makes: paused, inactive, queue cleared, cursor reset.
pub open spec fn spec_stop(p: Player) -> Player {
    Player { playing: false, active: false, queued: 0, current: 0, ..p }
}

/// The index the cursor should have reached, inferred from queue depth alone:
/// of the `baseline` sources queued at the start of the run, all but
/// `remaining` have finished (saturating, never negative).
pub open spec fn spec_expected_index(p: Player, remaining: usize) -> int {
    if p.baseline >= remaining {
        p.baseline - remaining
    } else {
        0
    }
}

/// The transition one reconciliation poll makes.
///
/// Outside an active run on a non-empty playlist, only the queue-depth mirror
/// is refreshed. During a run, the cursor advances (forward only) to the
/// inferred index, announcing that track if it exists; a drained queue ends
/// the run exactly once: completion is reported, the run is deactivated and
/// the cursor reset.
pub open spec fn spec_check_progress(p: Player, remaining: usize) -> (Player, PollReport) {
    if !p.active || p.tracks@.len() == 0 {
        (Player { queued: remaining, ..p }, PollReport { now_playing: None, completed: false })
    } else {
        let expected = spec_expected_index(p, remaining);
        let advanced = expected > p.current && expected <= p.tracks@.len();
        let cur = if advanced {
            expected
        } else {
            p.current as int
        };
        let rep = PollReport {
            now_playing: if advanced && cur < p.tracks@.len() {
                Some(cur as usize)
            } else {
                None
            },
            completed: remaining == 0,
        };
        if remaining == 0 {
            (Player { queued: 0, current: 0, active: false, ..p }, rep)
        } else {
            (Player { queued: remaining, current: cur as usize, ..p }, rep)
        }
    }
}

/// While a run is active with every track enqueued, each single unit of queue
/// drain advances the cursor by exactly one and announces exactly that track:
/// no value is skipped and none is repeated.
pub proof fn lemma_drain_advances_one(p: Player, remaining: usize)
    requires
        p.wf(),
        p.active,
        p.baseline == p.tracks@.len(),
        1 <= remaining,
        p.current + remaining + 1 == p.baseline,
    ensures
        ({
            let (q, rep) = spec_check_progress(p, remaining);
            &&& q.active
            &&& q.current == p.current + 1
            &&& rep.now_playing == Some((p.current + 1) as usize)
            &&& !rep.completed
        }),
{
}

/// The cursor never moves backwards while a run stays active.
pub proof fn lemma_cursor_monotonic(p: Player, remaining: usize)
    requires
        p.wf(),
    ensures
        ({
            let (q, rep) = spec_check_progress(p, remaining);
            q.active ==> q.current >= p.current
        }),
{
}

/// A drained queue during an active run is reported as completion exactly
/// once: the poll that sees it deactivates the run and resets the cursor, and
/// no later poll reports completion again.
pub proof fn lemma_completion_reported_once(p: Player)
    requires
        p.wf(),
        p.active,
    ensures
        ({
            let (q, rep) = spec_check_progress(p, 0);
            &&& rep.completed
            &&& !q.active
            &&& q.current == 0
            &&& q.queued == 0
            &&& forall|r2: usize| !(#[trigger] spec_check_progress(q, r2)).1.completed
        }),
{
}

/// Stopping twice is the same as stopping once.
pub proof fn lemma_stop_idempotent(p: Player)
    ensures
        spec_stop(spec_stop(p)) == spec_stop(p),
{
}

/// Resuming after a pause starts the sink again without touching the queue:
/// nothing is re-enqueued, so the queue depth is exactly what it was.
pub proof fn lemma_resume_keeps_queue(p: Player)
    requires
        p.wf(),
        p.queued > 0,
    ensures
        ({
            let (p1, r1) = spec_play(p);
            let p2 = spec_pause(p1);
            let (p3, r3) = spec_play(p2);
            &&& r1 == PlayOutcome::Started
            &&& r3 == PlayOutcome::Started
            &&& p3.queued == p.queued
            &&& p3.tracks@ == p.tracks@
            &&& p3.playing
        }),
{
}

} // verus!
