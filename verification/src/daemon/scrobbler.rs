//! ListenBrainz / Last.fm scrobbling driven by controller events. Each service
//! has its own persistent queue so an outage of one never loses listens.

use vstd::prelude::*;

use crate::config::ScrobbleConfig;
use crate::controller::state::TrackInfo;
use crate::online::error::{transient, OnlineError};
use crate::online::lastfm::LastFm;
use crate::online::listenbrainz::ListenBrainz;
use crate::online::scrobble::{
    after_oldest, drained, oldest, put_back, requeue_undoes_drain, requeued, Scrobble,
    ScrobbleQueue, ScrobbleTrack,
};
use crate::paths::{join_path, joined};
use crate::text::{copy_str, same_str, trim};

verus! {

/// Queues are tried again when they have not been for this long.
pub const RETRY_MS: u64 = 300_000;

/// How many listens are handed to ListenBrainz at once.
pub const LISTENBRAINZ_BATCH: usize = 100;

/// How many listens are handed to Last.fm at once.
pub const LASTFM_BATCH: usize = 50;

/// What is sent of a track: nothing of a live stream, or where the artist or
/// the title is missing.
pub open spec fn track_of(info: TrackInfo) -> Option<ScrobbleTrack> {
    match info.artist {
        Some(artist) => if artist@.len() > 0 && !info.live && info.title@.len() > 0 {
            Some(
                ScrobbleTrack {
                    artist,
                    title: info.title,
                    album: info.album,
                    album_artist: info.album_artist,
                    duration_ms: info.duration_ms,
                    track_number: info.track_no,
                    mbid: None,
                },
            )
        } else {
            None
        },
        None => None,
    }
}

/// What is sent of a track.
pub fn to_track(info: &TrackInfo) -> (r: Option<ScrobbleTrack>)
    ensures
        r == track_of(*info),
        r is Some <==> !info.live && info.title@.len() > 0 && (info.artist matches Some(a)
            && a@.len() > 0),
        r matches Some(t) ==> {
            &&& Some(t.artist) == info.artist
            &&& t.title == info.title
            &&& t.album == info.album
            &&& t.album_artist == info.album_artist
            &&& t.duration_ms == info.duration_ms
            &&& t.track_number == info.track_no
            &&& t.mbid is None
        },
{
    let info = info.clone();
    match info.artist {
        Some(artist) => if artist.as_str().is_empty() || info.live || info.title.as_str().is_empty() {
            None
        } else {
            Some(
                ScrobbleTrack {
                    artist,
                    title: info.title,
                    album: info.album,
                    album_artist: info.album_artist,
                    duration_ms: info.duration_ms,
                    track_number: info.track_no,
                    mbid: None,
                },
            )
        },
        None => None,
    }
}

/// What is sent of a track says of it what the track says: its artist, title,
/// album, album artist, length and number, each in its own place. It is sent
/// exactly where the track is no live stream and has an artist and a title.
pub proof fn what_is_sent_is_what_played(info: TrackInfo)
    ensures
        track_of(info) is Some <==> !info.live && info.title@.len() > 0 && (
        info.artist matches Some(a) && a@.len() > 0),
        track_of(info) matches Some(t) ==> {
            &&& Some(t.artist) == info.artist
            &&& t.title == info.title
            &&& t.album == info.album
            &&& t.album_artist == info.album_artist
            &&& t.duration_ms == info.duration_ms
            &&& t.track_number == info.track_no
            &&& t.mbid is None
        },
{
}

/// The services that the user has set up.
#[derive(Debug)]
pub struct Services {
    pub lb: Option<ListenBrainz>,
    /// With the session key.
    pub lastfm: Option<(LastFm, String)>,
}

/// The services that the settings hold credentials for.
pub fn services(s: &ScrobbleConfig) -> (r: Services)
    ensures
        match r.lb {
            Some(lb) => s.listenbrainz_token@.len() > 0 && lb.key() == trim(s.listenbrainz_token@),
            None => s.listenbrainz_token@.len() == 0,
        },
        match r.lastfm {
            Some((lf, key)) => {
                &&& s.lastfm_session@.len() > 0 && s.lastfm_api_key@.len() > 0
                &&& lf.key() == trim(s.lastfm_api_key@)
                &&& lf.secret() == trim(s.lastfm_secret@)
                &&& key@ == s.lastfm_session@
            },
            None => s.lastfm_session@.len() == 0 || s.lastfm_api_key@.len() == 0,
        },
{
    let lb = if s.listenbrainz_token.as_str().is_empty() {
        None
    } else {
        Some(ListenBrainz::new(s.listenbrainz_token.as_str()))
    };
    let lastfm = if s.lastfm_session.as_str().is_empty() || s.lastfm_api_key.as_str().is_empty() {
        None
    } else {
        Some(
            (
                LastFm::new(s.lastfm_api_key.as_str(), s.lastfm_secret.as_str()),
                copy_str(s.lastfm_session.as_str()),
            ),
        )
    };
    Services { lb, lastfm }
}

/// Where the queues of the two services are stored.
pub fn queue_paths(data_dir: &str) -> (r: (String, String))
    ensures
        r.0@ == joined(data_dir@, "scrobbles-listenbrainz.json"@),
        r.1@ == joined(data_dir@, "scrobbles-lastfm.json"@),
{
    (
        join_path(data_dir, "scrobbles-listenbrainz.json"),
        join_path(data_dir, "scrobbles-lastfm.json"),
    )
}

// ---------------------------------------------------------------------------
// Submission
// ---------------------------------------------------------------------------

/// The next batch to submit, which leaves the queue; nothing where it is empty.
pub fn next_batch(queue: &mut ScrobbleQueue, max: usize) -> (r: Option<Vec<Scrobble>>)
    requires
        max > 0,
    ensures
        match r {
            Some(batch) => {
                &&& old(queue).waiting().len() > 0
                &&& batch@ == oldest(old(queue).waiting(), max as nat)
                &&& final(queue)@ == drained(old(queue)@, max as nat)
            },
            None => old(queue).waiting().len() == 0 && final(queue)@ == old(queue)@,
        },
{
    let batch = queue.drain_batch(max);
    if batch.len() == 0 {
        None
    } else {
        Some(batch)
    }
}

/// The queue after a submission: a batch that failed for a while is put back,
/// one that was accepted or refused is not.
pub open spec fn after_submission(
    queue: Seq<Scrobble>,
    batch: Seq<Scrobble>,
    outcome: Result<(), OnlineError>,
) -> Seq<Scrobble> {
    match outcome {
        Ok(_) => queue,
        Err(e) => if transient(e) {
            put_back(batch, queue)
        } else {
            queue
        },
    }
}

/// Takes in what became of a batch. The result says whether to go on with the
/// next one.
pub fn submitted(
    queue: &mut ScrobbleQueue,
    batch: Vec<Scrobble>,
    outcome: &Result<(), OnlineError>,
) -> (more: bool)
    ensures
        more == (*outcome is Ok),
        final(queue).waiting() == after_submission(old(queue).waiting(), batch@, *outcome),
        final(queue)@ == (if *outcome matches Err(e) && transient(e) {
            requeued(old(queue)@, batch@)
        } else {
            old(queue)@
        }),
{
    match outcome {
        Ok(_) => true,
        Err(e) => {
            if e.is_transient() {
                queue.requeue(batch);
            }
            false
        },
    }
}

/// An outage loses no listen: where a submission fails for a while, the queue
/// is what it was, with what was pushed meanwhile behind it.
pub proof fn outage_loses_nothing(
    queue: Seq<Scrobble>,
    max: nat,
    later: Seq<Scrobble>,
    e: OnlineError,
)
    requires
        transient(e),
    ensures
        after_submission(
            after_oldest(queue, max) + later,
            oldest(queue, max),
            Err(e),
        ) == queue + later,
{
    requeue_undoes_drain(queue, max, later);
}

/// A submission that went through removes exactly the batch.
pub proof fn accepted_listens_leave(queue: Seq<Scrobble>, max: nat)
    ensures
        oldest(queue, max) + after_submission(after_oldest(queue, max), oldest(queue, max), Ok(()))
            == queue,
{
}

// ---------------------------------------------------------------------------
// Events
// ---------------------------------------------------------------------------

/// What the scrobbler hears of.
#[derive(Debug)]
pub enum ScrobbleEvent {
    /// Another track is the current one.
    TrackChanged(Option<TrackInfo>),
    /// A track was played for long enough.
    Played(TrackInfo),
    /// Anything else, or nothing for a while.
    Other,
}

/// What the scrobbler wants done.
#[derive(Debug)]
pub enum ScrobbleAction {
    Nothing,
    /// Tell the services what is playing.
    NowPlaying(ScrobbleTrack),
    /// Queue a listen for the services, and submit what is queued.
    Queue(Scrobble),
    /// Submit what is queued.
    Flush,
}

/// What the scrobbler remembers: which track was started when, and when queues
/// were last submitted (milliseconds of a clock that never goes back).
#[derive(Debug)]
pub struct Scrobbler {
    started: Option<(String, i64)>,
    last_retry: u64,
}

/// The contents of a `Scrobbler`.
pub struct ScrobblerView {
    pub started: Option<(Seq<char>, i64)>,
    pub last_retry: u64,
}

impl View for Scrobbler {
    type V = ScrobblerView;

    closed spec fn view(&self) -> ScrobblerView {
        ScrobblerView {
            started: match self.started {
                Some((uri, at)) => Some((uri@, at)),
                None => None,
            },
            last_retry: self.last_retry,
        }
    }
}

/// When a track that was played was started: as noted, else half its length
/// ago.
pub open spec fn started_at(v: ScrobblerView, info: TrackInfo, now: i64) -> int {
    match v.started {
        Some((uri, at)) => if uri == info.uri@ {
            at as int
        } else {
            now - info.duration_ms / 2000
        },
        None => now - info.duration_ms / 2000,
    }
}

impl Scrobbler {
    pub fn new(clock_ms: u64) -> (s: Scrobbler)
        ensures
            s@ == (ScrobblerView { started: None, last_retry: clock_ms }),
    {
        Scrobbler { started: None, last_retry: clock_ms }
    }

    /// What to do on an event. `enabled`: some service is set up; `waiting`:
    /// some queue is not empty.
    pub fn on_event(
        &mut self,
        ev: ScrobbleEvent,
        enabled: bool,
        waiting: bool,
        now_unix: i64,
        clock_ms: u64,
    ) -> (action: ScrobbleAction)
        requires
            ev matches ScrobbleEvent::Played(info) ==> now_unix - info.duration_ms / 2000
                >= i64::MIN,
        ensures
            final(self)@.last_retry == old(self)@.last_retry,
            !enabled ==> action is Nothing && final(self)@ == old(self)@,
            enabled ==> match ev {
                ScrobbleEvent::TrackChanged(Some(info)) => {
                    let known = old(self)@.started matches Some(s) && s.0 == info.uri@;
                    &&& final(self)@.started == (if known {
                        old(self)@.started
                    } else {
                        Some((info.uri@, now_unix))
                    })
                    &&& action == (match track_of(info) {
                        Some(t) => if known {
                            ScrobbleAction::Nothing
                        } else {
                            ScrobbleAction::NowPlaying(t)
                        },
                        None => ScrobbleAction::Nothing,
                    })
                },
                ScrobbleEvent::TrackChanged(None) => action is Nothing && final(self)@ == old(
                    self,
                )@,
                ScrobbleEvent::Played(info) => {
                    &&& final(self)@ == old(self)@
                    &&& action == (match track_of(info) {
                        Some(track) => ScrobbleAction::Queue(
                            Scrobble {
                                track,
                                started_at_unix: started_at(old(self)@, info, now_unix) as i64,
                            },
                        ),
                        None => ScrobbleAction::Nothing,
                    })
                },
                ScrobbleEvent::Other => {
                    &&& final(self)@ == old(self)@
                    &&& action == (if waiting && clock_ms - old(self)@.last_retry > RETRY_MS {
                        ScrobbleAction::Flush
                    } else {
                        ScrobbleAction::Nothing
                    })
                },
            },
    {
        if !enabled {
            return ScrobbleAction::Nothing;
        }
        match ev {
            ScrobbleEvent::TrackChanged(Some(info)) => {
                let known = match &self.started {
                    Some((uri, _)) => same_str(uri.as_str(), info.uri.as_str()),
                    None => false,
                };
                if known {
                    return ScrobbleAction::Nothing;
                }
                self.started = Some((info.uri.clone(), now_unix));
                match to_track(&info) {
                    Some(t) => ScrobbleAction::NowPlaying(t),
                    None => ScrobbleAction::Nothing,
                }
            },
            ScrobbleEvent::TrackChanged(None) => ScrobbleAction::Nothing,
            ScrobbleEvent::Played(info) => {
                let track = match to_track(&info) {
                    Some(t) => t,
                    None => {
                        return ScrobbleAction::Nothing;
                    },
                };
                let half = (info.duration_ms / 2000) as i64;
                let at: i64 = match &self.started {
                    Some((uri, at)) => if same_str(uri.as_str(), info.uri.as_str()) {
                        *at
                    } else {
                        now_unix - half
                    },
                    None => now_unix - half,
                };
                ScrobbleAction::Queue(Scrobble { track, started_at_unix: at })
            },
            ScrobbleEvent::Other => {
                if waiting && clock_ms > self.last_retry && clock_ms - self.last_retry > RETRY_MS {
                    ScrobbleAction::Flush
                } else {
                    ScrobbleAction::Nothing
                }
            },
        }
    }

    /// The queues were submitted.
    pub fn flushed(&mut self, clock_ms: u64)
        ensures
            final(self)@ == (ScrobblerView { last_retry: clock_ms, ..old(self)@ }),
    {
        self.last_retry = clock_ms;
    }
}

} // verus!
