//! What the services are told and what their answers mean, stated over the
//! tracks, the parameters and the numbers themselves.

use vstd::prelude::*;

use crate::online::coverart::{
    best, cover_urls, credited, describes, escaped, query_text, CoverSize, MbRelease, ReleaseRef,
};
use crate::online::error::{transient, OnlineError};
use crate::online::http::{name_order, ParamView};
use crate::online::lastfm::{
    count_of, error_message, error_words, filled, is_service_error, json_text, run_together,
    signature, signed_call, signed_params, signed_text, track_params,
};
use crate::online::listenbrainz::{
    batch_type, in_batches, listen_of, listens_of, ListenType, Payload,
};
use crate::online::lyrics::{
    fraction_ms, front_tags, line_tags, offset_after, shifted, stamp_ms, time_order, timed_lines,
    timestamp, without_word_stamps, LineView, Lyrics,
};
use crate::online::lyrics_cache::{entry_for, looked_up, step_for, CacheLookup, Entry, FetchStep};
use crate::online::radio::{
    is_station, query_params, RawStation, Station, StationOrder, StationQuery,
};
use crate::online::scrobble::{
    after_oldest, chunks_from, drained, oldest, progressed, put_back, qualifies, queue_of, queued,
    requeued, stored_after, threshold, written, PlayView, QueueView, Scrobble, ScrobbleTrack,
};
use crate::online::sending::{first_send, send_after, SendStep};
use crate::order::{ascending, sorted_stays};
use crate::text::{
    all_digits, cut_once, dec, dec_int, index_from, lower_all, read_signed, split, text_opt, trim,
    trim_start, value_of,
};

verus! {

// ---------------------------------------------------------------------------
// Scrobbling
// ---------------------------------------------------------------------------

/// A track counts as played when half of it has been heard, or four minutes; one
/// of half a minute or less never does, and one of unknown length after four
/// minutes.
pub proof fn half_a_track_is_a_play(duration_ms: u64)
    ensures
        duration_ms == 0 ==> threshold(duration_ms) == Some(240_000u64),
        0 < duration_ms <= 30_000 ==> threshold(duration_ms) is None,
        duration_ms > 30_000 ==> threshold(duration_ms) is Some,
        threshold(duration_ms) matches Some(t) ==> t <= 240_000,
        threshold(duration_ms) matches Some(t) ==> (0 < duration_ms < 480_000 ==> t + t
            <= duration_ms <= t + t + 1),
        duration_ms >= 480_000 ==> threshold(duration_ms) == Some(240_000u64),
{
}

/// A play is handed out once, and as soon as enough of it has been heard.
pub proof fn a_play_is_handed_out_in_time(p: PlayView, played_ms: u64)
    requires
        p.listened_ms + played_ms <= u64::MAX,
    ensures
        ({
            let q = progressed(p, played_ms);
            &&& q.listened_ms == p.listened_ms + played_ms
            &&& q.track == p.track
            &&& q.started_at_unix == p.started_at_unix
            &&& p.emitted ==> q.emitted
            &&& !p.emitted ==> (q.emitted <==> (threshold(p.track.duration_ms) matches Some(t)
                && p.listened_ms + played_ms >= t))
            &&& qualifies(p) ==> !p.emitted
        }),
{
}

/// Listens leave the queue in the order in which they were heard, at most so many
/// at once; those that are put back are the first to leave again.
pub proof fn the_oldest_leave_first(queue: Seq<Scrobble>, max: nat, batch: Seq<Scrobble>)
    ensures
        oldest(queue, max).len() == (if max <= queue.len() {
            max
        } else {
            queue.len()
        }),
        forall|i: int|
            0 <= i < oldest(queue, max).len() ==> #[trigger] oldest(queue, max)[i] == queue[i],
        oldest(queue, max) + after_oldest(queue, max) == queue,
        forall|i: int| 0 <= i < batch.len() ==> #[trigger] put_back(batch, queue)[i] == batch[i],
        put_back(batch, queue).len() == batch.len() + queue.len(),
        oldest(put_back(batch, queue), batch.len()) == batch,
{
    assert(oldest(queue, max) + after_oldest(queue, max) == queue);
    assert(oldest(put_back(batch, queue), batch.len()) == batch);
}

/// A new listen waits behind the others, and is still to be written down.
pub proof fn a_new_listen_waits_its_turn(v: QueueView, s: Scrobble, stored: Seq<Scrobble>)
    ensures
        queued(v, s).waiting.len() == v.waiting.len() + 1,
        queued(v, s).waiting.last() == s,
        queued(v, s).waiting.drop_last() == v.waiting,
        queued(v, s).unsaved,
        stored_after(stored, queued(v, s), true) == queued(v, s).waiting,
        stored_after(stored, queued(v, s), false) == stored,
{
}

/// Listens are handed over in batches of so many, in their order, none left out:
/// the batch number `k` holds those from `k * size` on.
pub proof fn batches_cover_the_listens(s: Seq<Scrobble>, size: nat, from: int, k: int)
    requires
        size > 0,
        0 <= from <= s.len(),
        0 <= k < chunks_from(s, size, from).len(),
    ensures
        ({
            let a = from + k * size;
            let b = if a + size < s.len() {
                a + size
            } else {
                s.len() as int
            };
            &&& 0 <= a < s.len()
            &&& chunks_from(s, size, from)[k] == s.subrange(a, b)
            &&& chunks_from(s, size, from)[k].len() <= size
            &&& k + 1 == chunks_from(s, size, from).len() ==> b == s.len()
        }),
    decreases k,
{
    let end = if from + size < s.len() {
        from + size
    } else {
        s.len() as int
    };
    let rest = chunks_from(s, size, end);
    assert(chunks_from(s, size, from) == seq![s.subrange(from, end)] + rest);
    if k > 0 {
        assert(chunks_from(s, size, from)[k] == rest[k - 1]);
        batches_cover_the_listens(s, size, end, k - 1);
        assert(end == from + size);
        assert(from + k * size == end + (k - 1) * size) by (nonlinear_arith)
            requires
                end == from + size,
        ;
    } else {
        assert(0 * size == 0);
        if chunks_from(s, size, from).len() == 1 {
            assert(rest.len() == 0);
            if end < s.len() {
                assert(rest == seq![
                    s.subrange(
                        end,
                        if end + size < s.len() {
                            end + size
                        } else {
                            s.len() as int
                        },
                    ),
                ] + chunks_from(
                    s,
                    size,
                    if end + size < s.len() {
                        end + size
                    } else {
                        s.len() as int
                    },
                ));
            }
        }
    }
}

/// Last.fm takes fifty listens at once, ListenBrainz a hundred.
pub proof fn batches_have_their_size()
    ensures
        crate::online::lastfm::MAX_BATCH == 50,
        crate::online::listenbrainz::MAX_BATCH == 100,
        crate::daemon::scrobbler::LISTENBRAINZ_BATCH == 100,
        crate::daemon::scrobbler::LASTFM_BATCH == 50,
        crate::daemon::scrobbler::RETRY_MS == 300_000,
{
}

/// One request after the other is sent, each only after the one before it was
/// taken; the first that fails ends it with its own error.
pub proof fn requests_go_one_by_one(at: usize, n: usize, e: OnlineError)
    requires
        at < n,
    ensures
        first_send(n) == SendStep::Send(0),
        first_send(0) == SendStep::Done,
        send_after(at, n, Err(e)) == SendStep::Failed(e),
        at + 1 < n ==> send_after(at, n, Ok(())) == SendStep::Send((at + 1) as usize),
        at + 1 == n ==> send_after(at, n, Ok(())) == SendStep::Done,
{
}

/// What failed in transport, was refused for too many requests or broke in the
/// server may be tried again; nothing else.
pub proof fn only_passing_failures_are_retried(e: OnlineError)
    ensures
        e is Network ==> transient(e),
        e matches OnlineError::Http { status, .. } ==> (transient(e) <==> status == 429 || status
            >= 500),
        e is Parse || e is Auth || e is NotConfigured || e is Io ==> !transient(e),
{
}

// ---------------------------------------------------------------------------
// Last.fm
// ---------------------------------------------------------------------------

/// A call is signed over the parameters in the order of their names, each name
/// followed by its value, with the secret at the end.
pub proof fn a_call_is_signed_in_order(params: Seq<ParamView>, secret: Seq<char>)
    requires
        ascending(params, name_order()),
        forall|i: int|
            0 <= i < params.len() ==> (#[trigger] params[i]).name != "format"@ && params[i].name
                != "callback"@,
    ensures
        signed_text(params, secret) == run_together(params, params.len()) + secret,
{
    lemma_all_signed(params, params.len());
    assert(params.subrange(0, params.len() as int) == params);
    sorted_stays(params, name_order());
}

proof fn lemma_all_signed(params: Seq<ParamView>, n: nat)
    requires
        n <= params.len(),
        forall|i: int|
            0 <= i < params.len() ==> (#[trigger] params[i]).name != "format"@ && params[i].name
                != "callback"@,
    ensures
        signed_params(params, n) == params.subrange(0, n as int),
    decreases n,
{
    if n > 0 {
        lemma_all_signed(params, (n - 1) as nat);
        assert(params[n - 1].name != "format"@);
        assert(params.subrange(0, n - 1).push(params[n - 1]) == params.subrange(0, n as int));
    }
}

/// Run together, parameters are their names and values, one behind the other.
pub proof fn parameters_run_together(params: Seq<ParamView>, n: nat)
    requires
        0 < n <= params.len(),
    ensures
        run_together(params, 0).len() == 0,
        run_together(params, n) == run_together(params, (n - 1) as nat) + params[n - 1].name
            + params[n - 1].value,
{
}

/// A signed call carries what was asked, the method and the key, then a signature
/// over exactly these, and asks for JSON.
pub proof fn a_call_carries_its_signature(
    method: Seq<char>,
    params: Seq<ParamView>,
    key: Seq<char>,
    secret: Seq<char>,
)
    ensures
        ({
            let form = signed_call(method, params, key, secret);
            let n = params.len() as int;
            &&& form.len() == n + 4
            &&& form.subrange(0, n) == params
            &&& form[n] == (ParamView { name: "method"@, value: method })
            &&& form[n + 1] == (ParamView { name: "api_key"@, value: key })
            &&& form[n + 2] == (ParamView {
                name: "api_sig"@,
                value: signature(form.subrange(0, n + 2), secret),
            })
            &&& form[n + 3] == (ParamView { name: "format"@, value: "json"@ })
        }),
{
    let form = signed_call(method, params, key, secret);
    let n = params.len() as int;
    let named = params + seq![
        ParamView { name: "method"@, value: method },
        ParamView { name: "api_key"@, value: key },
    ];
    assert(form.subrange(0, n + 2) == named);
    assert(form.subrange(0, n) == params);
}

/// A track is told by its artist, title, album, album artist, recording, number
/// and length in seconds, each under its own name.
pub proof fn a_track_is_told_in_full(t: ScrobbleTrack, album: Seq<char>, by: Seq<char>, id: Seq<char>, no: u32)
    requires
        filled(t.album) == Some(album),
        filled(t.album_artist) == Some(by),
        filled(t.mbid) == Some(id),
        t.track_number == Some(no),
        t.duration_ms > 0,
    ensures
        track_params(t, None) == seq![
            ParamView { name: "artist"@, value: t.artist@ },
            ParamView { name: "track"@, value: t.title@ },
            ParamView { name: "album"@, value: album },
            ParamView { name: "albumArtist"@, value: by },
            ParamView { name: "mbid"@, value: id },
            ParamView { name: "trackNumber"@, value: dec(no as nat) },
            ParamView { name: "duration"@, value: dec((t.duration_ms / 1000) as nat) },
        ],
{
}

/// In a batch each name carries the place of the track, and the time at which it
/// was started comes along.
pub proof fn a_batched_track_carries_its_place(t: ScrobbleTrack, i: usize, at: i64)
    requires
        filled(t.album) is None,
        filled(t.album_artist) is None,
        filled(t.mbid) is None,
        t.track_number is None,
        t.duration_ms == 0,
    ensures
        track_params(t, Some((i, at))) == seq![
            ParamView { name: "artist"@ + "["@ + dec(i as nat) + "]"@, value: t.artist@ },
            ParamView { name: "track"@ + "["@ + dec(i as nat) + "]"@, value: t.title@ },
            ParamView { name: "timestamp"@ + "["@ + dec(i as nat) + "]"@, value: dec_int(at as int) },
        ],
{
}

/// A text that is blank counts as not there, and one that is there is sent
/// without the white space around it.
pub proof fn blank_texts_are_left_out(s: String)
    ensures
        trim(s@).len() == 0 ==> filled(Some(s)) is None,
        trim(s@).len() > 0 ==> filled(Some(s)) == Some(trim(s@)),
        filled(None) is None,
{
}

/// A refused key or session is an authentication error, an overloaded service a
/// server error that may pass, anything else a bad request.
pub proof fn service_errors_are_told_apart(e: OnlineError, code: u64, message: Seq<char>)
    requires
        is_service_error(e, code, message),
    ensures
        e is Auth <==> code == 4 || code == 9 || code == 10 || code == 13 || code == 14 || code == 15
            || code == 26,
        transient(e) <==> code == 11 || code == 16 || code == 29,
        e matches OnlineError::Http { status, .. } ==> (!transient(e) ==> status == 400),
        e is Auth || e is Http,
{
}

// ---------------------------------------------------------------------------
// ListenBrainz
// ---------------------------------------------------------------------------

/// A listen says who plays what, from which album, when, and by which player.
pub proof fn a_listen_says_what_played(t: ScrobbleTrack, at: Option<i64>)
    ensures
        ({
            let l = listen_of(t, at);
            &&& l.listened_at == at
            &&& l.artist_name == t.artist@
            &&& l.track_name == t.title@
            &&& l.release_name == filled(t.album)
            &&& l.recording_mbid == filled(t.mbid)
            &&& l.tracknumber == t.track_number
            &&& t.duration_ms > 0 ==> l.duration_ms == Some(t.duration_ms)
            &&& t.duration_ms == 0 ==> l.duration_ms is None
            &&& l.media_player == "ricercar"@
            &&& l.submission_client == "ricercar"@
        }),
{
}

/// A single listen is submitted as one, more as an import.
pub proof fn submissions_have_their_type(n: nat)
    ensures
        batch_type(1) == ListenType::Single,
        n != 1 ==> batch_type(n) == ListenType::Import,
        ListenType::PlayingNow.text() == "playing_now"@,
        ListenType::Single.text() == "single"@,
        ListenType::Import.text() == "import"@,
{
}

/// The first submission holds the first hundred listens, or all there are, with
/// the times at which they were started, and the others the rest.
pub proof fn submissions_cover_the_listens(payloads: Seq<Payload>, scrobbles: Seq<Scrobble>)
    requires
        in_batches(payloads, scrobbles, 0),
    ensures
        payloads.len() == 0 <==> scrobbles.len() == 0,
        payloads.len() > 0 ==> {
            let n = if scrobbles.len() > 100 {
                100
            } else {
                scrobbles.len() as int
            };
            &&& crate::online::listenbrainz::listen_views(payloads[0].listens@) == listens_of(
                scrobbles.subrange(0, n),
            )
            &&& payloads[0].listen_type == ListenType::Single <==> n == 1
            &&& in_batches(payloads.drop_first(), scrobbles, n)
        },
        forall|i: int|
            0 <= i < scrobbles.len() ==> (#[trigger] listens_of(scrobbles)[i]).listened_at == Some(
                scrobbles[i].started_at_unix,
            ) && listens_of(scrobbles)[i].track_name == scrobbles[i].track.title@,
{
}

// ---------------------------------------------------------------------------
// Covers
// ---------------------------------------------------------------------------

/// The release that is taken has the highest score, at least ninety, and is the
/// first of those that have it.
pub proof fn the_best_release_is_taken(releases: Seq<MbRelease>, i: int, j: int)
    requires
        best(releases, i),
        0 <= j < releases.len(),
    ensures
        0 <= i < releases.len(),
        releases[i].score >= 90,
        releases[j].score <= releases[i].score,
        releases[j].score == releases[i].score ==> i <= j,
{
}

/// A release is searched for by its title and its artist, each in quotes.
pub proof fn a_release_is_searched_by_name(artist: Seq<char>, album: Seq<char>)
    ensures
        query_text(artist, album) == "release:\""@ + escaped(trim(album)) + "\" AND artist:\""@
            + escaped(trim(artist)) + "\""@,
{
}

/// Every character of the query syntax is escaped in a search.
pub proof fn query_syntax_is_escaped(c: char)
    ensures
        c == '+' || c == '-' || c == '&' || c == '|' || c == '!' || c == '(' || c == ')' || c == '{'
            || c == '}' || c == '[' || c == ']' || c == '^' || c == '"' || c == '~' || c == '*' || c
            == '?' || c == ':' || c == '\\' || c == '/' ==> escaped(seq![c]) == seq!['\\', c],
        'a' <= c <= 'z' || 'A' <= c <= 'Z' || '0' <= c <= '9' || c == ' ' || c == '.' || c == ','
            || c == '\'' ==> escaped(seq![c]) == seq![c],
{
    assert(seq![c].drop_first() == Seq::<char>::empty());
    assert(escaped(Seq::<char>::empty()) == Seq::<char>::empty());
    assert(seq!['\\', c] + Seq::<char>::empty() == seq!['\\', c]);
    assert(seq![c] + Seq::<char>::empty() == seq![c]);
}

/// A cover is asked of the release itself first, and then of its group, in the
/// size that is wanted.
pub proof fn covers_are_asked_of_the_release_first(r: ReleaseRef, size: CoverSize)
    ensures
        ({
            let n = match size {
                CoverSize::S250 => 250nat,
                CoverSize::S500 => 500,
                CoverSize::S1200 => 1200,
            };
            &&& cover_urls(r, size).len() > 0
            &&& cover_urls(r, size)[0] == "https://coverartarchive.org/"@ + "release"@ + "/"@
                + r.mbid@ + "/front-"@ + dec(n)
            &&& r.release_group_mbid matches Some(g) ==> cover_urls(r, size).len() == 2
                && cover_urls(r, size)[1] == "https://coverartarchive.org/"@ + "release-group"@
                + "/"@ + g@ + "/front-"@ + dec(n)
            &&& r.release_group_mbid is None ==> cover_urls(r, size).len() == 1
        }),
{
}

// ---------------------------------------------------------------------------
// Lyrics
// ---------------------------------------------------------------------------

/// A time stamp is its minutes and seconds in milliseconds; tenths, hundredths
/// and thousandths add theirs; sixty seconds are no stamp.
pub proof fn a_stamp_is_its_time(min: Seq<char>, sec: Seq<char>, frac: Seq<char>)
    requires
        all_digits(min),
        all_digits(sec),
        all_digits(frac),
        sec.len() <= 2,
        value_of(min) <= 1_000_000,
    ensures
        value_of(sec) < 60 ==> stamp_ms(min, sec, None) == Some(
            (value_of(min) * 60_000 + value_of(sec) * 1000) as u64,
        ),
        value_of(sec) >= 60 ==> stamp_ms(min, sec, None) is None && stamp_ms(min, sec, Some(frac))
            is None,
        value_of(sec) < 60 && frac.len() == 1 && value_of(frac) <= 9 ==> stamp_ms(
            min,
            sec,
            Some(frac),
        ) == Some((value_of(min) * 60_000 + value_of(sec) * 1000 + value_of(frac) * 100) as u64),
        value_of(sec) < 60 && frac.len() == 2 && value_of(frac) <= 99 ==> stamp_ms(
            min,
            sec,
            Some(frac),
        ) == Some((value_of(min) * 60_000 + value_of(sec) * 1000 + value_of(frac) * 10) as u64),
        frac.len() == 3 ==> fraction_ms(frac) == value_of(frac),
        frac.len() > 3 ==> fraction_ms(frac) == value_of(frac.subrange(0, 3)),
{
    if frac.len() == 3 {
        assert(frac.subrange(0, 3) == frac);
    }
}

/// A positive offset shows a line that much earlier, never before the start; a
/// negative one later.
pub proof fn an_offset_moves_every_line(t: u64, offset: int)
    requires
        t <= 0x3fff_ffff_ffff_ffff,
        -0x3fff_ffff_ffff_ffff <= offset <= 0x3fff_ffff_ffff_ffff,
    ensures
        offset <= t ==> shifted(t, offset) == t - offset,
        offset > t ==> shifted(t, offset) == 0,
{
}

/// A line with stamps gives one lyric line for each of them, behind those of the
/// lines before it.
pub proof fn a_stamped_line_is_kept(ls: Seq<Seq<char>>, n: nat, k: int)
    requires
        0 < n <= ls.len(),
    ensures
        ({
            let before = timed_lines(ls, (n - 1) as nat);
            let stamps = line_tags(ls[n - 1], before.1).stamps;
            let now = timed_lines(ls, n);
            &&& now.0.len() == before.0.len() + stamps.len()
            &&& now.0.subrange(0, before.0.len() as int) == before.0
            &&& 0 <= k < stamps.len() ==> now.0[before.0.len() + k].0 == stamps[k]
        }),
{
    let before = timed_lines(ls, (n - 1) as nat);
    let now = timed_lines(ls, n);
    assert(now.0.subrange(0, before.0.len() as int) == before.0);
}

/// Found lyrics are kept for good; that there are none is believed for a week.
pub proof fn found_lyrics_are_kept(l: Lyrics, stored_at: i64, now: i64)
    ensures
        looked_up(Some(Entry { fetched_at_unix: stored_at, lyrics: Some(l) }), now)
            == CacheLookup::Hit(l),
        now < stored_at + 604_800 ==> looked_up(
            Some(Entry { fetched_at_unix: stored_at, lyrics: None }),
            now,
        ) is KnownMissing,
        now >= stored_at + 604_800 ==> looked_up(
            Some(Entry { fetched_at_unix: stored_at, lyrics: None }),
            now,
        ) is Miss,
        looked_up(None, now) is Miss,
{
}

/// The service is asked exactly where nothing is known, and its answer is kept
/// with the time it came; a failure is not.
pub proof fn the_service_is_asked_for_what_is_unknown(
    l: Lyrics,
    found: Option<Lyrics>,
    e: OnlineError,
    now: i64,
)
    ensures
        step_for(CacheLookup::Miss) is Ask,
        step_for(CacheLookup::Hit(l)) == FetchStep::Known(Some(l)),
        step_for(CacheLookup::KnownMissing) == FetchStep::Known(None),
        entry_for(Ok(found), now) == Some(Entry { fetched_at_unix: now, lyrics: found }),
        entry_for(Err(e), now) is None,
{
}

// ---------------------------------------------------------------------------
// Radio
// ---------------------------------------------------------------------------

/// A search carries its texts, each under its own name, then the order and the
/// limits.
pub proof fn a_station_search_is_told_in_full(
    q: StationQuery,
    name: Seq<char>,
    tag: Seq<char>,
    cc: Seq<char>,
    lang: Seq<char>,
    o: StationOrder,
)
    requires
        filled(q.name) == Some(name),
        filled(q.tag) == Some(tag),
        filled(q.countrycode) == Some(cc),
        filled(q.language) == Some(lang),
        q.order == Some(o),
    ensures
        query_params(q) == seq![
            ParamView { name: "name"@, value: name },
            ParamView { name: "tag"@, value: tag },
            ParamView { name: "countrycode"@, value: cc },
            ParamView { name: "language"@, value: lang },
            ParamView { name: "order"@, value: o.text() },
            ParamView {
                name: "reverse"@,
                value: if q.reverse {
                    "true"@
                } else {
                    "false"@
                },
            },
            ParamView { name: "limit"@, value: dec(q.limit as nat) },
            ParamView { name: "offset"@, value: dec(q.offset as nat) },
            ParamView {
                name: "hidebroken"@,
                value: if q.hidebroken {
                    "true"@
                } else {
                    "false"@
                },
            },
        ],
{
}

/// The orders of a search have the names that the service knows.
pub proof fn orders_have_their_names()
    ensures
        StationOrder::Name.text() == "name"@,
        StationOrder::Votes.text() == "votes"@,
        StationOrder::ClickCount.text() == "clickcount"@,
        StationOrder::ClickTrend.text() == "clicktrend"@,
        StationOrder::Bitrate.text() == "bitrate"@,
        StationOrder::Country.text() == "country"@,
        StationOrder::Random.text() == "random"@,
{
}

/// A station is what the service says of it: the resolved address where there is
/// one, and else the plain one.
pub proof fn a_station_is_what_is_said_of_it(s: Station, r: RawStation)
    requires
        is_station(s, r),
    ensures
        s.uuid@ == r.stationuuid@,
        r.url_resolved matches Some(u) ==> (u@.len() > 0 ==> s.url_resolved@ == u@),
        r.url matches Some(u) ==> (r.url_resolved is None ==> s.url_resolved@ == u@),
        r.name matches Some(n) ==> s.name@ == trim(n@),
        r.homepage matches Some(h) ==> s.homepage@ == h@,
        r.favicon matches Some(f) ==> s.favicon@ == f@,
        r.country matches Some(c) ==> s.country@ == c@,
        r.countrycode matches Some(c) ==> s.countrycode@ == c@,
        r.language matches Some(l) ==> s.language@ == l@,
        r.codec matches Some(c) ==> s.codec@ == c@,
        r.bitrate matches Some(n) ==> s.bitrate == n,
        r.votes matches Some(n) ==> s.votes == n,
        r.clickcount matches Some(n) ==> s.clickcount == n,
{
    reveal_strlit("");
}

/// What is read from the file need not be written; a batch that leaves or comes
/// back must be; and what was written is.
pub proof fn changes_of_the_queue_are_to_be_written(
    v: QueueView,
    location: Seq<char>,
    stored: Seq<Scrobble>,
    max: nat,
    batch: Seq<Scrobble>,
)
    ensures
        !queue_of(location, stored).unsaved,
        queue_of(location, stored).waiting == stored,
        queue_of(location, stored).location == location,
        max > 0 && v.waiting.len() > 0 ==> drained(v, max).unsaved,
        v.waiting.len() == 0 ==> drained(v, max).unsaved == v.unsaved,
        batch.len() > 0 ==> requeued(v, batch).unsaved,
        batch.len() == 0 ==> requeued(v, batch).unsaved == v.unsaved,
        !written(v, true).unsaved,
        written(v, false) == v,
        written(v, true).waiting == v.waiting,
{
}

/// What a play has been heard does not overflow.
pub proof fn listening_is_added_up(p: PlayView, played_ms: u64)
    ensures
        p.listened_ms + played_ms <= u64::MAX ==> crate::online::scrobble::listened(
            p,
            played_ms,
        ).listened_ms == p.listened_ms + played_ms,
        p.listened_ms + played_ms > u64::MAX ==> crate::online::scrobble::listened(
            p,
            played_ms,
        ).listened_ms == u64::MAX,
{
}

/// An error of Last.fm is told with its number and its message.
pub proof fn an_error_of_the_service_is_told(code: u64, message: Seq<char>, body: Seq<char>)
    ensures
        error_words(code, message) == "Last.fm error "@ + dec(code as nat) + ": "@ + message,
        json_text(body, "/message"@) matches Some(m) ==> error_message(body) == m,
        json_text(body, "/message"@) is None ==> error_message(body) == ""@,
{
}

/// A count is read from a number, or from a text that is one; nothing counts as
/// none.
pub proof fn counts_are_read(n: u32, t: Seq<char>)
    ensures
        count_of(Some(n as u64), None) == n,
        count_of(Some(n as u64), Some(t)) == n,
        crate::text::read_unsigned(t, u64::MAX as nat) == Some(n as nat) ==> count_of(None, Some(t))
            == n,
        count_of(None, None) == 0,
{
}

/// Seconds have one or two digits.
pub proof fn seconds_have_two_digits(min: Seq<char>, sec: Seq<char>, frac: Option<Seq<char>>)
    ensures
        sec.len() > 2 ==> stamp_ms(min, sec, frac) is None,
        !all_digits(min) || !all_digits(sec) ==> stamp_ms(min, sec, frac) is None,
        frac matches Some(f) ==> (!all_digits(f) ==> stamp_ms(min, sec, frac) is None),
{
}

/// A stamp is minutes and seconds, with a fraction behind a dot or a second colon.
pub proof fn a_stamp_has_its_parts(tag: Seq<char>, m: Seq<char>, s: Seq<char>, f: Seq<char>)
    ensures
        split(trim(tag), ':') == seq![m, s] && cut_once(s, "."@) is None ==> timestamp(tag)
            == stamp_ms(m, s, None),
        split(trim(tag), ':').len() == 2 && split(trim(tag), ':')[0] == m && cut_once(
            split(trim(tag), ':')[1],
            "."@,
        ) == Some((s, f)) ==> timestamp(tag) == stamp_ms(m, s, Some(f)),
        split(trim(tag), ':') == seq![m, s, f] && cut_once(s, "."@) is None ==> timestamp(tag)
            == stamp_ms(m, s, Some(f)),
        split(trim(tag), ':').len() < 2 || split(trim(tag), ':').len() > 3 ==> timestamp(tag)
            is None,
{
}

/// The offset of a file is what its tag says, whatever the case of its name; other
/// tags leave it.
pub proof fn the_offset_is_what_its_tag_says(tag: Seq<char>, k: Seq<char>, v: Seq<char>, n: int, o: int)
    requires
        cut_once(tag, ":"@) == Some((k, v)),
    ensures
        lower_all(trim(k)) == "offset"@ && read_signed(trim(v)) == Some(n) ==> offset_after(tag, o)
            == n,
        lower_all(trim(k)) == "offset"@ && read_signed(trim(v)) is None ==> offset_after(tag, o)
            == o,
        lower_all(trim(k)) != "offset"@ ==> offset_after(tag, o) == o,
{
}

/// The stamps at the front of a line are all taken, in their order; the text
/// begins behind the last.
pub proof fn the_stamps_of_a_line_are_taken(rest: Seq<char>, stamps: Seq<u64>, offset: int, end: int)
    requires
        rest.len() > 0,
        rest[0] == '[',
        index_from(rest, ']', 1) == end,
        1 <= end < rest.len(),
        trim_start(rest.subrange(end + 1, rest.len() as int)).len() < rest.len(),
    ensures
        timestamp(rest.subrange(1, end)) matches Some(t) ==> front_tags(rest, stamps, offset)
            == front_tags(
            trim_start(rest.subrange(end + 1, rest.len() as int)),
            stamps.push(t),
            offset,
        ),
        timestamp(rest.subrange(1, end)) is None && stamps.len() > 0 ==> front_tags(
            rest,
            stamps,
            offset,
        ).rest == rest,
        timestamp(rest.subrange(1, end)) is None && stamps.len() == 0 ==> front_tags(
            rest,
            stamps,
            offset,
        ) == front_tags(
            trim_start(rest.subrange(end + 1, rest.len() as int)),
            stamps,
            offset_after(rest.subrange(1, end), offset),
        ),
{
}

/// Lines go by their time, and those of one time stay as they are.
pub proof fn lines_go_by_time(a: LineView, b: LineView)
    ensures
        time_order()(a, b) <==> a.time_ms <= b.time_ms,
{
}

/// What is told of a release is what the service says of it: its id, title, group
/// and date, and its artists as credited.
pub proof fn a_release_is_what_is_said_of_it(r: ReleaseRef, m: MbRelease)
    requires
        describes(r, m),
    ensures
        r.mbid@ == m.id@,
        r.title@ == m.title@,
        text_opt(r.release_group_mbid) == text_opt(m.release_group),
        r.artist@ == credited(m.artist_credit@, m.artist_credit@.len()),
        m.date matches Some(d) ==> (d@.len() > 0 ==> text_opt(r.date) == Some(d@)),
        m.date is None ==> r.date is None,
        m.artist_credit@.len() == 1 ==> r.artist@ == m.artist_credit@[0].name@
            + m.artist_credit@[0].joinphrase@,
{
    let c = m.artist_credit@;
    if c.len() == 1 {
        reveal_with_fuel(credited, 2);
        assert(Seq::<char>::empty() + c[0].name@ + c[0].joinphrase@ == c[0].name@
            + c[0].joinphrase@);
    }
}

/// A text that is no number counts as none.
pub proof fn what_is_no_number_counts_as_none(t: Seq<char>)
    requires
        crate::text::read_unsigned(t, u64::MAX as nat) is None,
    ensures
        count_of(None, Some(t)) == 0,
{
}

/// A batch of listens is one call, with the session in front and each listen under
/// its place.
pub proof fn a_batch_is_one_call(
    l: crate::online::lastfm::LastFm,
    form: Seq<(String, String)>,
    session: Seq<char>,
    batch: Seq<Scrobble>,
)
    requires
        l.submits(form, session, batch),
    ensures
        crate::online::http::param_views(form) == signed_call(
            "track.scrobble"@,
            seq![ParamView { name: "sk"@, value: session }]
                + crate::online::lastfm::batch_params(batch, batch.len()),
            l.key(),
            l.secret(),
        ),
{
}

/// In a batch each listen carries its own place and the time it was started at.
pub proof fn a_batch_is_told_in_turn(batch: Seq<Scrobble>, n: nat)
    requires
        0 < n <= batch.len(),
    ensures
        crate::online::lastfm::batch_params(batch, 0).len() == 0,
        crate::online::lastfm::batch_params(batch, n) == crate::online::lastfm::batch_params(
            batch,
            (n - 1) as nat,
        ) + track_params(
            batch[n - 1].track,
            Some(((n - 1) as usize, batch[n - 1].started_at_unix)),
        ),
{
}

/// A mirror is asked over HTTPS.
pub proof fn a_mirror_is_asked_safely(host: Seq<char>, path: Seq<char>)
    ensures
        crate::online::radio::mirror_url(host, path) == "https://"@ + host + path,
        crate::online::radio::unbroken() == seq![
            ParamView { name: "hidebroken"@, value: "true"@ },
        ],
        StationOrder::Language.text() == "language"@,
        StationOrder::Tags.text() == "tags"@,
        StationOrder::Codec.text() == "codec"@,
        StationOrder::ChangeTimestamp.text() == "changetimestamp"@,
{
}

/// An entry of the cache lies in a file of its own, named after its key.
pub proof fn an_entry_has_its_file(
    files: Map<Seq<char>, Entry>,
    dir: Seq<char>,
    key: Seq<char>,
    now: i64,
)
    ensures
        ({
            let file = crate::paths::joined(dir, key + ".json"@);
            &&& crate::online::lyrics_cache::file_of(dir, key) == file
            &&& files.dom().contains(file) ==> crate::online::lyrics_cache::looked_up_in(
                files,
                dir,
                key,
                now,
            ) == looked_up(Some(files[file]), now)
            &&& !files.dom().contains(file) ==> crate::online::lyrics_cache::looked_up_in(
                files,
                dir,
                key,
                now,
            ) is Miss
        }),
{
}

/// A key is the names and the length, one behind the other.
pub proof fn a_key_names_the_track(a: Seq<char>, t: Seq<char>, al: Seq<char>, d: u32)
    ensures
        crate::online::lyrics_cache::raw_key(a, t, al, Some(d)) == a + "|"@ + t + "|"@ + al + "|"@
            + dec(d as nat),
        crate::online::lyrics_cache::raw_key(a, t, al, None) == a + "|"@ + t + "|"@ + al + "|"@,
{
    let s = a + "|"@ + t + "|"@ + al + "|"@;
    assert(s + Seq::<char>::empty() == s);
}

/// A release that has the highest score, and is the first to have it, is the best
/// where the score is at least ninety.
pub proof fn a_good_release_is_found(releases: Seq<MbRelease>, i: int)
    requires
        0 <= i < releases.len(),
        releases[i].score >= 90,
        forall|j: int| 0 <= j < releases.len() ==> #[trigger] releases[j].score <= releases[i].score,
        forall|j: int| 0 <= j < i ==> #[trigger] releases[j].score < releases[i].score,
    ensures
        best(releases, i),
{
}

/// Of the tags of a station those count that are not blank, in their order.
pub proof fn blank_tags_do_not_count(pieces: Seq<Seq<char>>, n: nat)
    requires
        0 < n <= pieces.len(),
    ensures
        crate::online::radio::filled_pieces(pieces, 0).len() == 0,
        trim(pieces[n - 1]).len() > 0 ==> crate::online::radio::filled_pieces(pieces, n)
            == crate::online::radio::filled_pieces(pieces, (n - 1) as nat).push(
            trim(pieces[n - 1]),
        ),
        trim(pieces[n - 1]).len() == 0 ==> crate::online::radio::filled_pieces(pieces, n)
            == crate::online::radio::filled_pieces(pieces, (n - 1) as nat),
{
}

/// A server is picked where there is one, by the seed.
pub proof fn a_server_is_picked_by_the_seed(names: Seq<Seq<char>>, seed: u64)
    ensures
        ({
            let d = crate::online::radio::distinct_names(names);
            &&& d.len() == 0 ==> crate::online::radio::picked(names, seed) is None
            &&& d.len() > 0 ==> crate::online::radio::picked(names, seed) == Some(
                d[seed as int % d.len() as int],
            )
        }),
{
}

/// Last.fm can be asked with a key and a secret, and not without either.
pub proof fn a_key_and_a_secret_are_needed(l: crate::online::lastfm::LastFm)
    ensures
        l.configured() <==> l.key().len() > 0 && l.secret().len() > 0,
{
}

/// A reply with an error status is that error, and nothing else is one of the
/// service's.
pub proof fn a_status_is_an_error(
    body: String,
    status: u16,
    r: Result<String, OnlineError>,
    q: Result<String, OnlineError>,
    t: Result<String, OnlineError>,
)
    requires
        call_ensures(
            crate::online::http::send,
            (crate::online::http::Outcome::Body(body),),
            r,
        ),
        call_ensures(
            crate::online::http::send,
            (crate::online::http::Outcome::Status { status, body },),
            q,
        ),
        call_ensures(
            crate::online::http::send,
            (crate::online::http::Outcome::Transport(body),),
            t,
        ),
    ensures
        r == Ok::<String, OnlineError>(body),
        q matches Err(OnlineError::Http { status: s, .. }) && s == status,
        t == Err::<String, OnlineError>(OnlineError::Network(body)),
{
}

/// A token that ListenBrainz refuses is an authentication error, and asked for its
/// user it has none.
pub proof fn a_refused_token_is_told(
    body: String,
    status: u16,
    r: Result<(), OnlineError>,
    v: Result<Option<String>, OnlineError>,
)
    requires
        call_ensures(
            crate::online::listenbrainz::submit_reply,
            (Err(OnlineError::Http { status, body }),),
            r,
        ),
        call_ensures(
            crate::online::listenbrainz::validate_reply,
            (Err(OnlineError::Http { status, body }),),
            v,
        ),
    ensures
        status == 401 ==> r == Err::<(), OnlineError>(OnlineError::Auth(body)),
        status != 401 ==> r == Err::<(), OnlineError>(OnlineError::Http { status, body }),
        status == 400 || status == 401 ==> v == Ok::<Option<String>, OnlineError>(None),
        status != 400 && status != 401 ==> v is Err,
{
}

/// A click is counted by the address that comes back; one that fails is told.
pub proof fn a_click_gives_the_address(
    c: crate::online::radio::ClickResponse,
    r: Result<String, OnlineError>,
)
    requires
        call_ensures(crate::online::radio::parse_click, (c,), r),
    ensures
        c.ok ==> r == Ok::<String, OnlineError>(c.url),
        !c.ok ==> r == Err::<String, OnlineError>(
            OnlineError::Http { status: 404, body: c.message },
        ),
{
}

/// Stamps of single words are taken out of a line; other angle brackets stay.
pub proof fn word_stamps_are_taken_out(a: Seq<char>, tag: Seq<char>, b: Seq<char>)
    requires
        forall|i: int| 0 <= i < a.len() ==> a[i] != '<',
        forall|i: int| 0 <= i < tag.len() ==> tag[i] != '>',
    ensures
        timestamp(tag) is Some ==> without_word_stamps(a + seq!['<'] + tag + seq!['>'] + b) == a
            + without_word_stamps(b),
        timestamp(tag) is None ==> without_word_stamps(a + seq!['<'] + tag + seq!['>'] + b) == a
            + seq!['<'] + tag + seq!['>'] + without_word_stamps(b),
{
    let s = a + seq!['<'] + tag + seq!['>'] + b;
    let start = a.len() as int;
    let end = start + 1 + tag.len();
    lemma_first(s, '<', 0, start);
    assert forall|j: int| start <= j < end implies s[j] != '>' by {
        if j > start {
            assert(s[j] == tag[j - start - 1]);
        }
    }
    lemma_first(s, '>', start, end);
    assert(s.subrange(start + 1, end) == tag);
    assert(s.subrange(0, start) == a);
    assert(s.subrange(0, end + 1) == a + seq!['<'] + tag + seq!['>']);
    assert(s.subrange(end + 1, s.len() as int) == b);
}

proof fn lemma_first(s: Seq<char>, c: char, from: int, at: int)
    requires
        0 <= from <= at < s.len(),
        s[at] == c,
        forall|j: int| from <= j < at ==> s[j] != c,
    ensures
        index_from(s, c, from) == at,
    decreases at - from,
{
    if from < at {
        lemma_first(s, c, from + 1, at);
    }
}

/// A name in a key is its words with one blank between them, in lower case; a
/// blank one is nothing.
pub proof fn a_name_in_a_key_is_its_words(s: Seq<char>)
    ensures
        crate::text::words(s).len() == 0 ==> crate::online::lyrics_cache::norm_name(s).len() == 0,
        crate::text::words(s).len() > 0 ==> crate::online::lyrics_cache::norm_name(s)
            == crate::text::lowercase(crate::text::join(crate::text::words(s), " "@)),
{
}

} // verus!
