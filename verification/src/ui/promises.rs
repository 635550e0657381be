//! What the pages show and what the controls do, stated over what is shown and
//! chosen.

use vstd::prelude::*;

use crate::audio::device::{DeviceInfo, DeviceKind};
use crate::audio::fmt::PcmFormat;
use crate::audio::player::{ChainView, TransportStatus};
use crate::config::{Config, ReplayGain, Theme};
use crate::controller::state::{CtlState, Origin, PlayContext, QueueItem, TrackInfo};
use crate::library::tracks::{hires, AlbumSort, Track, TrackSort};
use crate::online::radio::Station;
use crate::text::{dec, dec_padded, join, lower_all, text_opt, texts, trim};
use crate::ui::actions::{
    album_order_at, export_name, greatest_id, is_album_action, is_track_action, track_order_at,
    AlbumAction, TrackAction,
};
use crate::ui::chain::{
    device_text, gain_touches, hops_of, processing_text, short_hops, short_processing, short_source,
    shown_bits, shown_quality, shown_rate, source_text, Listening,
};
use crate::ui::history::{current, visited, went_back, went_forward, HistoryView, Page};
use crate::ui::images::{answered, cancelled, id_text, kept, requested, without, Fetch, LoaderView};
use crate::ui::now::{context_text, live_title, origin_text};
use crate::ui::pages::{at_most, play_time, track_total, wants_cover};
use crate::ui::queue::{first_upcoming, length_from, row_of, rows_of};
use crate::ui::radio::{codec_text, fav_toggled, is_row_of, station_from, StationRow};
use crate::ui::refresh::{reloads, waiting_since, LibraryWatch};
use crate::ui::rows::{album_quality_text, disc_text, row_artist, several_discs, track_row, RowOpts};
use crate::ui::settings::{
    accent_place, changed, colour, device_row, gain_at, gain_index, hex_value, offered, page_of,
    ACCENTS, PageState,
};
use crate::ui::text::{
    clock, count_text, greeting_text, khz_text, lossy_codec, quality_text, rough, speaks_french,
    translated,
};
use crate::ui::tick::{is_redraw, PaneView, Redraw};

verus! {

// ---------------------------------------------------------------------------
// Texts
// ---------------------------------------------------------------------------

/// A time is shown as minutes and seconds, and from an hour on as hours, minutes
/// and seconds, the last with two digits.
pub proof fn a_time_is_shown_in_full(ms: u64, h: nat, m: nat, s: nat)
    requires
        m < 60,
        s < 60,
        (h * 3600 + m * 60 + s) * 1000 <= ms < (h * 3600 + m * 60 + s + 1) * 1000,
    ensures
        h > 0 ==> clock(ms) == dec(h) + ":"@ + dec_padded(m, 2) + ":"@ + dec_padded(s, 2),
        h == 0 ==> clock(ms) == dec(m) + ":"@ + dec_padded(s, 2),
{
    let t = (ms / 1000) as nat;
    assert(t == h * 3600 + m * 60 + s);
    assert(t / 3600 == h && t / 60 == h * 60 + m && t % 60 == s) by (nonlinear_arith)
        requires
            t == h * 3600 + m * 60 + s,
            m < 60,
            s < 60,
    ;
    assert((h * 60 + m) % 60 == m) by (nonlinear_arith)
        requires
            m < 60,
    ;
}

/// A length is rounded to minutes; from an hour on hours are shown, and from ten
/// hours on only these.
pub proof fn a_length_is_rounded(ms: int, mins: nat)
    requires
        ms >= 0,
        mins * 60_000 <= ms + 30_000 < (mins + 1) * 60_000,
    ensures
        mins < 60 ==> rough(ms) == dec(mins) + " min"@,
        60 <= mins < 600 && mins % 60 != 0 ==> rough(ms) == dec(mins / 60) + " h "@ + dec(mins % 60)
            + " min"@,
        60 <= mins && mins % 60 == 0 ==> rough(ms) == dec(mins / 60) + " h"@,
        mins >= 600 ==> rough(ms) == dec(mins / 60) + " h"@,
{
    assert((ms + 30_000) / 60_000 == mins) by (nonlinear_arith)
        requires
            mins * 60_000 <= ms + 30_000 < (mins + 1) * 60_000,
    ;
}

/// A rate of whole kilohertz is shown as such, 44100 as 44.1.
pub proof fn rates_are_shown_in_kilohertz(k: nat, rate: u32)
    requires
        rate == k * 1000,
    ensures
        khz_text(rate) == dec(k),
        khz_text(44_100) == dec(44) + "."@ + dec(1),
        khz_text(88_200) == dec(88) + "."@ + dec(2),
{
    assert(rate as int % 1000 == 0 && rate as int / 1000 == k) by (nonlinear_arith)
        requires
            rate == k * 1000,
    ;
}

/// The quality of a lossless track is its depth and its rate, that of a lossy one
/// its bit rate.
pub proof fn quality_is_told_by_kind(rate: u32, bits: u8, codec: Option<Seq<char>>, bitrate: u32)
    ensures
        lossy_codec(Some("MP3"@)),
        lossy_codec(Some("AAC"@)),
        lossy_codec(Some("Vorbis"@)),
        lossy_codec(Some("Opus"@)),
        !lossy_codec(Some("FLAC"@)),
        !lossy_codec(Some("ALAC"@)),
        !lossy_codec(None),
        lossy_codec(codec) ==> quality_text(Some(rate), Some(bits), codec, Some(bitrate)) == dec(
            bitrate as nat,
        ) + "k"@,
        !lossy_codec(codec) ==> quality_text(Some(rate), Some(bits), codec, Some(bitrate)) == dec(
            bits as nat,
        ) + "/"@ + khz_text(rate),
{
    reveal_strlit("MP3");
    reveal_strlit("AAC");
    reveal_strlit("Vorbis");
    reveal_strlit("Opus");
    reveal_strlit("FLAC");
    reveal_strlit("ALAC");
    assert("FLAC"@[0] == 'F' && "ALAC"@[0] == 'A' && "Opus"@[0] == 'O');
    assert("MP3"@.len() == 3 && "AAC"@.len() == 3 && "Vorbis"@.len() == 6);
}

/// One of a thing is counted in the singular, any other number in the plural.
pub proof fn one_is_counted_in_the_singular(n: nat, one: Seq<char>, many: Seq<char>)
    ensures
        count_text(1, one, many, false) == dec(1) + " "@ + one,
        n != 1 ==> count_text(n, one, many, false) == dec(n) + " "@ + many,
{
}

/// The greeting goes by the hour.
pub proof fn the_greeting_goes_by_the_hour(hour: u32)
    ensures
        5 <= hour < 12 ==> greeting_text(hour) == "Good morning"@,
        12 <= hour < 18 ==> greeting_text(hour) == "Good afternoon"@,
        18 <= hour < 23 ==> greeting_text(hour) == "Good evening"@,
        hour < 5 || hour >= 23 ==> greeting_text(hour) == "Good night"@,
{
}

/// Without French, texts are shown as they are; French is spoken exactly where the
/// first language that is set begins so.
pub proof fn texts_are_english_unless_french(en: Seq<char>, lang: Seq<char>)
    ensures
        translated(en, false) == en,
        lang.len() >= 2 && lang[0] == 'f' && lang[1] == 'r' ==> speaks_french(
            seq![Some(lang)],
        ),
        lang.len() >= 2 && (lang[0] != 'f' || lang[1] != 'r') ==> !speaks_french(seq![Some(lang)]),
        lang.len() > 0 ==> speaks_french(seq![None, Some(lang)]) == speaks_french(
            seq![Some(lang)],
        ),
{
    reveal_strlit("fr");
    reveal_with_fuel(crate::ui::text::first_set, 3);
    let v = seq![Some(lang)];
    assert(v[0] == Some(lang));
    let w = seq![None, Some(lang)];
    assert(w[0] is None && w[1] == Some(lang));
    if lang.len() >= 2 {
        assert(lang.subrange(0, 2)[0] == lang[0] && lang.subrange(0, 2)[1] == lang[1]);
        assert("fr"@[0] == 'f' && "fr"@[1] == 'r');
        if lang[0] == 'f' && lang[1] == 'r' {
            assert(lang.subrange(0, 2) == "fr"@);
        }
    }
}

// ---------------------------------------------------------------------------
// Orders
// ---------------------------------------------------------------------------

/// The entries of the sort menus have their orders.
pub proof fn sort_menus_have_their_orders()
    ensures
        album_order_at(0) == AlbumSort::Title,
        album_order_at(1) == AlbumSort::Artist,
        album_order_at(2) == AlbumSort::YearDesc,
        album_order_at(3) == AlbumSort::RecentlyAdded,
        track_order_at(0) == TrackSort::Artist,
        track_order_at(1) == TrackSort::Title,
        track_order_at(2) == TrackSort::Album,
        track_order_at(3) == TrackSort::Duration,
        track_order_at(4) == TrackSort::RecentlyAdded,
        track_order_at(5) == TrackSort::MostPlayed,
{
}

/// A playlist is exported under its name, in which a slash would lead elsewhere.
pub proof fn an_export_is_named_like_the_list(name: Seq<char>, i: int)
    requires
        0 <= i < name.len(),
    ensures
        name[i] != '/' ==> export_name(name)[i] == name[i],
        name[i] == '/' ==> export_name(name)[i] == '-',
        export_name(name).subrange(name.len() as int, export_name(name).len() as int) == ".m3u8"@,
        export_name(name).len() == name.len() + ".m3u8"@.len(),
{
    let e = export_name(name);
    assert(e.subrange(name.len() as int, e.len() as int) == ".m3u8"@);
}

/// The sizes of the pages, and how much of a list is shown.
pub proof fn pages_have_their_sizes()
    ensures
        crate::ui::pages::HOME_ALBUMS == 14,
        crate::ui::pages::HOME_TRACKS == 6,
        crate::ui::pages::TOP_TRACKS == 5,
        crate::ui::pages::FOUND_TRACKS == 50,
        crate::ui::pages::SHUFFLED_TRACKS == 300,
        crate::ui::pages::MORE_ALBUMS == 12,
        crate::ui::pages::SEARCH_PAUSE_MS == 150,
        crate::ui::actions::WINDOW == 500,
        crate::ui::lyrics::LEAD_MS == 250,
        crate::ui::images::TILE == 320,
        crate::ui::images::THUMB == 96,
        crate::ui::images::LARGE == 640,
        crate::ui::radio::TOP_LIMIT == 60,
        crate::ui::radio::SEARCH_LIMIT == 80,
        crate::ui::radio::SHOWN_TAGS == 4,
{
}

/// A list is cut behind so many, not before.
pub proof fn long_lists_are_cut<A>(s: Seq<A>, n: nat, i: int)
    ensures
        at_most(s, n).len() == (if s.len() <= n {
            s.len()
        } else {
            n
        }),
        0 <= i < at_most(s, n).len() ==> at_most(s, n)[i] == s[i],
{
}

// ---------------------------------------------------------------------------
// Rows
// ---------------------------------------------------------------------------

/// In the queue the current item is marked, those before it are past, and those
/// behind it are neither.
pub proof fn the_queue_shows_where_it_is(queue: Seq<QueueItem>, c: usize, i: int)
    requires
        0 <= i < queue.len(),
    ensures
        ({
            let r = rows_of(queue, Some(c))[i];
            &&& rows_of(queue, Some(c)).len() == queue.len()
            &&& r.id == queue[i].id
            &&& r.title == queue[i].info.title@
            &&& queue[i].info.artist matches Some(a) ==> r.artist == a@
            &&& r.current <==> i == c
            &&& r.past <==> i < c
            &&& queue[i].info.duration_ms > 0 ==> r.dur == clock(queue[i].info.duration_ms)
            &&& queue[i].info.duration_ms == 0 ==> r.dur == ""@
            &&& !row_of(queue[i], i, None).current && !row_of(queue[i], i, None).past
        }),
{
}

/// What is left of the queue begins behind the current item.
pub proof fn what_is_left_begins_behind_the_current(queue: Seq<QueueItem>, c: usize, k: int)
    requires
        c < queue.len(),
        0 <= k < queue.len(),
    ensures
        first_upcoming(queue.len(), Some(c)) == c + 1,
        first_upcoming(queue.len(), None) == 0,
        length_from(queue, queue.len() as int) == 0,
        length_from(queue, k) == queue[k].info.duration_ms + length_from(queue, k + 1),
{
}

/// A row shows what the track says, and which one plays.
pub proof fn a_row_shows_its_track(
    tracks: Seq<Track>,
    i: int,
    o: RowOpts,
    now: Option<String>,
    n: u32,
)
    requires
        0 <= i < tracks.len(),
    ensures
        ({
            let r = track_row(tracks, i, o, now, false);
            let t = tracks[i];
            &&& r.key == t.path@
            &&& r.title == t.title@
            &&& t.album matches Some(a) ==> r.album == a@
            &&& r.album_id == t.album_id@
            &&& r.dur == clock(t.duration_ms)
            &&& r.fav == t.favorite
            &&& r.playing <==> (now matches Some(p) && p@ == t.path@)
            &&& r.hires <==> (t.sample_rate matches Some(f) && f > 48_000) || (
            t.bits matches Some(b) && b > 16)
            &&& r.plays == t.play_count
            &&& o.track_numbers && t.track == Some(n) ==> r.n == dec(n as nat)
            &&& !o.track_numbers ==> r.n == dec((i + 1) as nat)
            &&& o.cover ==> r.ckey == t.album_id@
            &&& !o.discs ==> r.disc == ""@
        }),
{
}

/// On the page of an album the artist of a track is shown where it is not that of
/// the album.
pub proof fn the_artist_is_shown_where_it_differs(a: String, by: String)
    ensures
        row_artist(Some(a), None) == a@,
        lower_all(by@) == lower_all(a@) ==> row_artist(Some(a), Some(by)) == ""@,
        lower_all(by@) != lower_all(a@) ==> row_artist(Some(a), Some(by)) == a@,
{
}

/// What plays is shown with its station where it is a stream that announces its
/// songs.
pub proof fn a_stream_is_shown_with_its_song(info: TrackInfo, song: String, name: Seq<char>, id: String)
    ensures
        info.live ==> live_title(info, Some(song)) == Some(song@),
        !info.live ==> live_title(info, Some(song)) is None,
        live_title(info, None) is None,
        origin_text(Origin::Local, false, false) == ""@,
        origin_text(Origin::Remote, false, false) == "UPnP"@,
        origin_text(Origin::Local, true, false) == "Internet radio"@,
        context_text(PlayContext::Album(id), Some(name), false) == Some(name),
        context_text(PlayContext::Artist(id), Some(name), false) == Some(id@),
        context_text(PlayContext::Nowhere, Some(name), false) is None,
{
}

// ---------------------------------------------------------------------------
// The signal path
// ---------------------------------------------------------------------------

/// The signal path shows a step of processing exactly where the samples are
/// touched: muted, at less than full volume, or by a gain on a hardware device.
pub proof fn processing_is_shown(info: TrackInfo, c: ChainView, l: Listening, f: PcmFormat)
    requires
        c.format == Some(f),
        !l.french,
    ensures
        gain_touches(c, l) <==> l.muted || l.volume < 100 || (!c.bit_perfect && c.device_kind
            == DeviceKind::Hardware && c.volume == 100),
        hops_of(info, c, l).len() == (if gain_touches(c, l) {
            5int
        } else {
            4
        }),
        gain_touches(c, l) ==> hops_of(info, c, l)[2].label == "Processing"@ && !hops_of(
            info,
            c,
            l,
        )[2].untouched,
        hops_of(info, c, l)[0].label == "Source"@,
        hops_of(info, c, l).last().label == "Device"@,
        hops_of(info, c, l).last().untouched <==> c.device_kind == DeviceKind::Hardware,
        hops_of(info, c, l)[0].untouched <==> !lossy_codec(text_opt(info.codec)),
        short_hops(info, c, l).len() == (if gain_touches(c, l) {
            4int
        } else {
            3
        }),
        short_hops(info, c, l).last().untouched <==> c.device_kind == DeviceKind::Hardware,
{
}

/// What is done to the samples is told: muted before anything else, then the
/// volume, then a gain.
pub proof fn what_touches_the_samples_is_told(l: Listening)
    requires
        !l.french,
    ensures
        l.muted ==> processing_text(l) == "Muted"@,
        !l.muted && l.volume < 100 ==> processing_text(l) == "Software volume"@ + " "@ + dec(
            l.volume as nat,
        ) + " %"@,
        !l.muted && l.volume >= 100 ==> processing_text(l) == "ReplayGain / preamp"@,
{
}

/// The device is told for what it is.
pub proof fn the_device_is_told_for_what_it_is(c: ChainView)
    ensures
        c.device_kind == DeviceKind::Hardware ==> device_text(c, false) == c.device + " · "@
            + "exclusive, no mixer"@,
        c.device_kind == DeviceKind::Virtual ==> device_text(c, false) == c.device + " · "@
            + "shared: may resample or mix"@,
        c.device_kind == DeviceKind::File ==> device_text(c, false) == c.device + " · "@
            + "written to a file"@,
        c.device_kind == DeviceKind::Null ==> device_text(c, false) == "Null sink: audio discarded"@,
{
}

/// The format that is shown is the one that the device runs at, where it is known.
pub proof fn the_running_format_is_shown(info: TrackInfo, c: ChainView, f: PcmFormat)
    ensures
        c.format == Some(f) ==> shown_rate(info, c) == Some(f.sample_rate) && shown_bits(info, c)
            == Some(f.bits),
        c.format is None ==> shown_rate(info, c) == info.sample_rate && shown_bits(info, c)
            == info.bits,
{
}

// ---------------------------------------------------------------------------
// Settings
// ---------------------------------------------------------------------------

/// The entries of the ReplayGain menu have their modes.
pub proof fn the_gain_menu_has_its_modes()
    ensures
        gain_at(0) == ReplayGain::Off && gain_index(ReplayGain::Off) == 0,
        gain_at(1) == ReplayGain::Track && gain_index(ReplayGain::Track) == 1,
        gain_at(2) == ReplayGain::Album && gain_index(ReplayGain::Album) == 2,
        gain_at(3) == ReplayGain::Auto && gain_index(ReplayGain::Auto) == 3,
{
}

/// Each control of the page is a setting, and the settings that have no control
/// stay.
pub proof fn each_control_is_a_setting(before: Config, p: PageState, after: Config)
    requires
        changed(before, p, after),
    ensures
        p.replaygain == 1 <==> after.audio.replaygain == ReplayGain::Track,
        p.replaygain == 2 <==> after.audio.replaygain == ReplayGain::Album,
        p.replaygain == 3 <==> after.audio.replaygain == ReplayGain::Auto,
        after.audio.preamp_db == p.preamp_db,
        after.audio.restore_session == p.restore_session,
        after.audio.device == before.audio.device,
        after.library.watch == p.watch_library,
        after.library.roots == before.library.roots,
        trim(p.renderer_name@).len() > 0 ==> after.network.name@ == trim(p.renderer_name@),
        trim(p.renderer_name@).len() == 0 ==> after.network.name@ == before.network.name@,
        after.network.renderer == p.renderer_enabled,
        after.network.media_server == p.server_enabled,
        after.online.lyrics == p.lyrics_online,
        after.online.cover_art == p.covers_online,
        after.online.radio == before.online.radio,
        after.ui.notifications == p.notifications,
        after.ui.theme == Theme::Dark <==> p.theme_dark,
        after.ui.adaptive_colors == p.adaptive_colors,
        after.ui.tray == before.ui.tray,
        after.ui.close_to_tray == before.ui.close_to_tray,
        after.scrobble == before.scrobble,
        0 <= p.accent_choice <= 6 ==> after.ui.accent@ == ACCENTS[p.accent_choice as int]@,
{
}

/// The page shows the settings as they are.
pub proof fn the_page_shows_the_settings(cfg: Config, p: PageState)
    requires
        page_of(cfg, p),
    ensures
        p.preamp_db == cfg.audio.preamp_db,
        p.restore_session == cfg.audio.restore_session,
        p.watch_library == cfg.library.watch,
        p.renderer_name@ == cfg.network.name@,
        p.renderer_enabled == cfg.network.renderer,
        p.server_enabled == cfg.network.media_server,
        p.lyrics_online == cfg.online.lyrics,
        p.covers_online == cfg.online.cover_art,
        p.notifications == cfg.ui.notifications,
        p.theme_dark <==> cfg.ui.theme == Theme::Dark,
        p.adaptive_colors == cfg.ui.adaptive_colors,
{
}

/// A device is offered under its name; hardware is marked, and the one in use is.
pub proof fn a_device_is_offered(d: DeviceInfo, current: Seq<char>)
    ensures
        device_row(d, current).name == d.name@,
        device_row(d, current).hardware <==> d.kind == DeviceKind::Hardware,
        device_row(d, current).selected <==> d.name@ == current,
        d.card_name is None ==> device_row(d, current).desc == d.description@,
{
}

/// A colour is read as red, green and blue, two digits each, the higher first;
/// with any other number of digits it is none.
pub proof fn a_colour_is_red_green_blue(h: Seq<char>)
    requires
        h.len() > 0,
        h[0] != '#',
        h[0] != '+',
    ensures
        h.len() != 6 ==> colour(seq!['#'] + h) is None,
        h.len() == 6 && (forall|i: int| 0 <= i < 6 ==> hex_value(#[trigger] h[i]) is Some)
            ==> colour(seq!['#'] + h) == Some(
            (
                (16 * hex_value(h[0])->0 + hex_value(h[1])->0) as u8,
                (16 * hex_value(h[2])->0 + hex_value(h[3])->0) as u8,
                (16 * hex_value(h[4])->0 + hex_value(h[5])->0) as u8,
            ),
        ),
        forall|i: int|
            #![trigger h[i]]
            h.len() == 6 && 0 <= i < 6 && hex_value(h[i]) is None ==> colour(seq!['#'] + h) is None,
{
    let s = seq!['#'] + h;
    reveal_with_fuel(crate::text::trim_char_start, 3);
    assert(s.drop_first() == h);
    assert(s[0] == '#');
}

/// A digit has its value in either case, and nothing else is one.
pub proof fn hexadecimal_digits_have_their_value(c: char)
    ensures
        '0' <= c <= '9' ==> hex_value(c) == Some(c as int - '0' as int),
        'a' <= c <= 'f' ==> hex_value(c) == Some(c as int - 'a' as int + 10),
        'A' <= c <= 'F' ==> hex_value(c) == Some(c as int - 'A' as int + 10),
        hex_value(c) is Some ==> ('0' <= c <= '9') || ('a' <= c <= 'f') || ('A' <= c <= 'F'),
{
}

/// A choice beyond the list of accents is that at its end.
pub proof fn an_accent_is_one_of_the_list(choice: i32)
    ensures
        choice < 0 ==> accent_place(choice) == 0,
        choice > 6 ==> accent_place(choice) == 6,
        0 <= choice <= 6 ==> accent_place(choice) == choice,
{
}

// ---------------------------------------------------------------------------
// Pages and images
// ---------------------------------------------------------------------------

/// A visit is shown at once and can be gone back from; a visit to where one is
/// changes nothing.
pub proof fn a_visit_is_shown(h: HistoryView, page: Page, arg: Seq<char>)
    requires
        h.entries.len() == 0 ==> h.pos == 0,
        h.entries.len() > 0 ==> h.pos < h.entries.len(),
    ensures
        current(visited(h, page, arg)) == Some((page, arg)),
        current(h) == Some((page, arg)) ==> visited(h, page, arg) == h,
        h.pos > 0 ==> current(went_back(h)) == Some(h.entries[h.pos - 1]),
        h.pos == 0 ==> went_back(h) == h,
        h.pos + 1 < h.entries.len() ==> current(went_forward(h)) == Some(h.entries[h.pos as int + 1]),
        h.pos + 1 >= h.entries.len() ==> went_forward(h) == h,
{
}

/// The image that was asked for last is fetched first; one that is there is not
/// fetched again, and one that was not found is not asked for.
pub proof fn the_latest_image_is_fetched_first(l: LoaderView, id: Seq<char>)
    ensures
        l.cache.contains(id) ==> requested(l, id).1 == Fetch::Cached && requested(l, id).0.queue
            == l.queue && requested(l, id).0.cache.last() == id,
        !l.cache.contains(id) && !l.missing.contains(id) && !l.in_flight.contains(id) ==> requested(
            l,
            id,
        ).1 == Fetch::Scheduled && requested(l, id).0.queue.len() == l.queue.len() + 1 && requested(
            l,
            id,
        ).0.queue[0] == id,
        !l.cache.contains(id) && (l.missing.contains(id) || l.in_flight.contains(id)) ==> requested(
            l,
            id,
        ) == (l, Fetch::Pending),
        answered(l, id, false).missing.contains(id),
        answered(l, id, false).cache == l.cache,
        answered(l, id, true).missing == l.missing,
        cancelled(l).queue.len() == 0,
        cancelled(l).cache == l.cache,
{
    if !l.missing.contains(id) {
        assert(l.missing.push(id).last() == id);
    }
}

/// The cache keeps up to nine hundred images; beyond that the quarter that was
/// used longest ago goes.
pub proof fn the_oldest_images_go(cache: Seq<Seq<char>>, id: Seq<char>)
    ensures
        ({
            let all = without(cache, id).push(id);
            &&& all.len() <= 900 ==> kept(cache, id) == all
            &&& all.len() > 900 ==> kept(cache, id) == all.subrange(225, all.len() as int)
        }),
{
}

/// A row asks for its cover while it has none.
pub proof fn a_row_without_a_cover_asks(s: crate::ui::pages::CoverSlot)
    ensures
        s.filled ==> !wants_cover(s, true) && !wants_cover(s, false),
        !s.filled ==> wants_cover(s, false),
        !s.filled && s.ckey@.len() == 0 ==> !wants_cover(s, true),
        !s.filled && s.ckey@.len() > 0 ==> wants_cover(s, true),
{
}

/// A page has the tracks of its albums, and a playlist the time of its tracks.
pub proof fn totals_add_up(albums: Seq<crate::library::tracks::Album>, tracks: Seq<Track>, n: nat)
    requires
        0 < n <= albums.len(),
        n <= tracks.len(),
    ensures
        track_total(albums, 0) == 0,
        track_total(albums, n) == track_total(albums, (n - 1) as nat) + albums[n - 1].track_count,
        play_time(tracks, 0) == 0,
        play_time(tracks, n) == play_time(tracks, (n - 1) as nat) + tracks[n - 1].duration_ms,
{
}

/// A change of the library is shown when it has settled: after six tenths of a
/// second, during a scan after three seconds, and in any case at its end.
pub proof fn a_change_settles(w: LibraryWatch, rev: u64, now: u64, t: u64)
    requires
        w.changed_at == Some(t),
        t <= now,
    ensures
        !w.was_scanning ==> (reloads(w, rev, false, false, now) <==> now > t + 600),
        reloads(w, rev, false, true, now) <==> now > t + 3000,
        w.was_scanning ==> reloads(w, rev, false, false, now),
        waiting_since(w, rev, false, now) == Some(t),
{
}

/// A change starts to settle when it is seen; nothing that stays as it was is
/// shown again.
pub proof fn a_change_is_seen(w: LibraryWatch, rev: u64, now: u64, scanning: bool)
    requires
        w.changed_at is None,
        !w.was_scanning,
    ensures
        rev != w.seen ==> waiting_since(w, rev, false, now) == Some(now),
        rev == w.seen ==> waiting_since(w, rev, false, now) is None && !reloads(
            w,
            rev,
            false,
            scanning,
            now,
        ),
        waiting_since(w, rev, true, now) == Some(now),
{
}

/// What is drawn again is what has changed.
pub proof fn changes_are_drawn(r: Redraw, p: PaneView, now: PaneView, queue_changed: bool)
    requires
        is_redraw(r, p, now, queue_changed),
    ensures
        p.now_id != now.now_id ==> r.track && r.tray && r.queue,
        p.now_title != now.now_title ==> r.track,
        p.now_id == now.now_id && p.now_title == now.now_title ==> !r.track,
        p.playing != now.playing ==> r.tray,
        p.queue_rev != now.queue_rev || queue_changed ==> r.queue,
        r.lyric <==> p.lyric != now.lyric,
{
}

/// What the pane remembers is the state that it has shown.
pub proof fn the_pane_shows_the_state(st: CtlState, i: usize, line: usize)
    requires
        st.current == Some(i),
        i < st.queue@.len(),
        line <= i32::MAX,
    ensures
        ({
            let v = crate::ui::tick::shown_of(st, Some(line));
            &&& v.now_id == Some(st.queue@[i as int].id)
            &&& v.playing <==> st.status == TransportStatus::Playing
            &&& v.queue_rev == st.queue_rev
            &&& v.lyric == line
            &&& v.now_title == text_opt(st.stream_title)
            &&& crate::ui::tick::shown_of(st, None).lyric == -1
        }),
{
}

// ---------------------------------------------------------------------------
// Radio
// ---------------------------------------------------------------------------

/// Marking a station puts it behind the favourites, marking it again takes it
/// away and leaves the others.
pub proof fn a_mark_is_put_and_taken(favs: Seq<Station>, s: Station)
    ensures
        station_from(favs, s.uuid@, 0) is None ==> fav_toggled(favs, s).len() == favs.len() + 1
            && fav_toggled(favs, s).last() == s && fav_toggled(favs, s).drop_last() == favs,
        station_from(favs, s.uuid@, 0) matches Some(i) ==> fav_toggled(favs, s) == favs.remove(i),
{
}

/// A station is found by its id where the first one with it stands.
pub proof fn a_station_is_found(favs: Seq<Station>, uuid: Seq<char>, i: int)
    requires
        0 <= i <= favs.len(),
    ensures
        station_from(favs, uuid, i) matches Some(k) ==> i <= k < favs.len() && favs[k].uuid@ == uuid,
        station_from(favs, uuid, i) is None ==> forall|j: int|
            i <= j < favs.len() ==> (#[trigger] favs[j]).uuid@ != uuid,
    decreases favs.len() - i,
{
    if i < favs.len() && favs[i].uuid@ != uuid {
        a_station_is_found(favs, uuid, i + 1);
    }
}

/// A station is shown by its name, its country with its codec, and its first tags.
pub proof fn a_station_is_shown(r: StationRow, s: Station, fav: bool)
    requires
        is_row_of(r, s, fav),
        s.country@.len() > 0,
        s.codec@.len() > 0,
    ensures
        r.uuid@ == s.uuid@,
        r.name@ == trim(s.name@),
        r.fav == fav,
        r.ckey@ == s.favicon@,
        r.sub@ == join(seq![s.country@, codec_text(s)], " · "@),
        s.bitrate > 0 ==> codec_text(s) == s.codec@ + " "@ + dec(s.bitrate as nat) + " kbit/s"@,
        s.bitrate == 0 ==> codec_text(s) == s.codec@,
        s.tags@.len() <= 4 ==> r.tags@ == join(texts(s.tags@), ", "@),
        s.tags@.len() > 4 ==> r.tags@ == join(texts(s.tags@).subrange(0, 4), ", "@),
{
    assert(crate::ui::radio::sub_parts(s) == seq![s.country@, codec_text(s)]);
}

/// A disc is shown by its number, one without a number as the first.
pub proof fn a_disc_is_shown_by_its_number(d: u32)
    ensures
        disc_text(Some(d), false) == "Disc"@ + " "@ + dec(d as nat),
        disc_text(None, false) == "Disc"@ + " "@ + dec(1),
{
}

/// On an album with several discs, a disc is announced where it begins.
pub proof fn a_disc_is_announced_where_it_begins(
    tracks: Seq<Track>,
    i: int,
    o: RowOpts,
    now: Option<String>,
)
    requires
        0 < i < tracks.len(),
        o.discs,
        tracks[i].disc is Some,
        tracks[i - 1].disc is Some,
    ensures
        tracks[i].disc != tracks[i - 1].disc ==> track_row(tracks, i, o, now, false).disc
            == disc_text(tracks[i].disc, false),
        tracks[i].disc == tracks[i - 1].disc ==> track_row(tracks, i, o, now, false).disc == ""@,
{
}

/// The quality of an album is its codec and the best of its formats.
pub proof fn an_album_is_told_by_its_quality(a: crate::library::tracks::Album, c: String)
    requires
        a.codec == Some(c),
    ensures
        ({
            let q = quality_text(a.max_rate, a.max_bits, Some(c@), None);
            &&& q.len() > 0 ==> album_quality_text(a) == c@ + " "@ + q
            &&& q.len() == 0 ==> album_quality_text(a) == c@
        }),
{
}

/// A new playlist is the one with the greatest id.
pub proof fn a_new_playlist_is_the_latest(
    playlists: Seq<crate::library::tracks::Playlist>,
    id: i64,
    i: int,
)
    requires
        greatest_id(playlists, id),
        0 <= i < playlists.len(),
    ensures
        playlists[i].id <= id,
        exists|k: int| 0 <= k < playlists.len() && (#[trigger] playlists[k]).id == id,
{
}

/// What is taken from a list is gone, and the others keep their order.
pub proof fn what_is_taken_is_gone(s: Seq<Seq<char>>, id: Seq<char>)
    ensures
        without(s, id) == s.filter(|x: Seq<char>| x != id),
    decreases s.len(),
{
    reveal(Seq::filter);
    if s.len() > 0 {
        what_is_taken_is_gone(s.drop_last(), id);
    }
}

/// In short, the signal path shows the codec with the quality, and the volume in
/// percent.
pub proof fn the_short_path_says_the_same(info: TrackInfo, c: ChainView, l: Listening, codec: String)
    requires
        info.codec == Some(codec),
        !l.french,
    ensures
        short_source(info, c) == trim(codec@ + " "@ + shown_quality(info, c)),
        l.muted ==> short_processing(l) == "Muted"@,
        !l.muted && l.volume < 100 ==> short_processing(l) == dec(l.volume as nat) + " %"@,
        !l.muted && l.volume >= 100 ==> short_processing(l) == "ReplayGain"@,
        lossy_codec(Some(codec@)) ==> shown_quality(info, c) == quality_text(
            shown_rate(info, c),
            None,
            None,
            None,
        ),
        !lossy_codec(Some(codec@)) ==> shown_quality(info, c) == quality_text(
            shown_rate(info, c),
            shown_bits(info, c),
            Some(codec@),
            None,
        ),
{
}

/// The source is told by its codec, its rate and its channels, and as lossy where
/// it is.
pub proof fn the_source_is_told(codec: Seq<char>, f: PcmFormat)
    ensures
        lossy_codec(Some(codec)) ==> source_text(Some(codec), Some(f)) == codec + " · "@ + khz_text(
            f.sample_rate,
        ) + " kHz · "@ + dec(f.channels as nat) + " ch"@ + " · lossy"@,
        !lossy_codec(Some(codec)) ==> source_text(Some(codec), Some(f)) == codec + " · "@
            + khz_text(f.sample_rate) + " kHz · "@ + dec(f.channels as nat) + " ch"@,
        source_text(Some(codec), None) == codec,
        source_text(None, None) == "—"@,
{
    reveal_strlit("");
    let t = codec + " · "@ + khz_text(f.sample_rate) + " kHz · "@ + dec(f.channels as nat) + " ch"@;
    assert(t + ""@ == t);
}

/// An album has several discs where two of its tracks are on different ones.
pub proof fn discs_differ(tracks: Seq<Track>, i: int, j: int)
    requires
        0 <= i < tracks.len(),
        0 <= j < tracks.len(),
        tracks[i].disc is Some,
        tracks[j].disc is Some,
    ensures
        tracks[i].disc != tracks[j].disc ==> several_discs(tracks),
        !several_discs(tracks) ==> tracks[i].disc == tracks[j].disc,
{
}

/// An image is known by its key and its size.
pub proof fn an_image_is_known_by_key_and_size(key: Seq<char>, size: u32)
    ensures
        id_text(key, size) == dec(size as nat) + ":"@ + key,
{
}

proof fn lemma_action_names()
    ensures
        "play"@ != "artist-play"@ && "play"@ != "artist-shuffle"@ && "play"@ != "genre-shuffle"@,
        "shuffle"@ != "artist-play"@ && "shuffle"@ != "artist-shuffle"@ && "shuffle"@
            != "genre-shuffle"@ && "shuffle"@ != "play"@,
        "next"@ != "artist-play"@ && "next"@ != "artist-shuffle"@ && "next"@ != "genre-shuffle"@
            && "next"@ != "play"@ && "next"@ != "shuffle"@,
        "queue"@ != "artist-play"@ && "queue"@ != "artist-shuffle"@ && "queue"@ != "genre-shuffle"@
            && "queue"@ != "play"@ && "queue"@ != "shuffle"@ && "queue"@ != "next"@,
        "artist-play"@ != "artist-shuffle"@,
        "fav"@ != "play"@ && "fav"@ != "next"@ && "fav"@ != "queue"@ && "fav"@ != "album"@ && "fav"@
            != "artist"@,
        "album"@ != "play"@ && "album"@ != "next"@ && "album"@ != "queue"@,
        "artist"@ != "play"@ && "artist"@ != "next"@ && "artist"@ != "queue"@ && "artist"@
            != "album"@,
{
    reveal_strlit("play");
    reveal_strlit("artist-play");
    reveal_strlit("artist-shuffle");
    reveal_strlit("genre-shuffle");
    reveal_strlit("shuffle");
    reveal_strlit("next");
    reveal_strlit("queue");
    reveal_strlit("fav");
    reveal_strlit("album");
    reveal_strlit("artist");
    assert("play"@.len() == 4 && "artist-play"@.len() == 11 && "artist-shuffle"@.len() == 14);
    assert("genre-shuffle"@.len() == 13 && "shuffle"@.len() == 7 && "next"@.len() == 4);
    assert("queue"@.len() == 5 && "fav"@.len() == 3 && "album"@.len() == 5 && "artist"@.len() == 6);
    assert("play"@[0] == 'p' && "next"@[0] == 'n' && "queue"@[0] == 'q' && "album"@[0] == 'a');
}

/// Each entry of a menu does what it is called.
pub proof fn menus_do_what_they_say(t: TrackAction, a: AlbumAction)
    ensures
        is_track_action(t, "play"@) ==> t is Play,
        is_track_action(t, "next"@) ==> t is Next,
        is_track_action(t, "queue"@) ==> t is Queue,
        is_track_action(t, "album"@) ==> t is Album,
        is_track_action(t, "artist"@) ==> t is Artist,
        is_track_action(t, "fav"@) ==> t is Favorite,
        is_album_action(a, "play"@) ==> a is Play,
        is_album_action(a, "shuffle"@) ==> a is Shuffle,
        is_album_action(a, "next"@) ==> a is Next,
        is_album_action(a, "queue"@) ==> a is Queue,
        is_album_action(a, "artist-play"@) ==> a is ArtistPlay,
        is_album_action(a, "artist-shuffle"@) ==> a is ArtistShuffle,
{
    lemma_action_names();
}

/// Every device is offered but the null device, in the order of the list.
pub proof fn the_null_device_is_not_offered(devices: Seq<DeviceInfo>, current: Seq<char>, n: nat)
    requires
        0 < n <= devices.len(),
    ensures
        offered(devices, current, 0).len() == 0,
        devices[n - 1].kind == DeviceKind::Null ==> offered(devices, current, n) == offered(
            devices,
            current,
            (n - 1) as nat,
        ),
        devices[n - 1].kind != DeviceKind::Null ==> offered(devices, current, n) == offered(
            devices,
            current,
            (n - 1) as nat,
        ).push(device_row(devices[n - 1], current)),
{
}

/// Where a queue comes from is told.
pub proof fn the_origin_of_a_queue_is_told(name: Seq<char>, id: i64)
    ensures
        context_text(PlayContext::Radio, None, false) == Some("Internet radio"@),
        context_text(PlayContext::Mix, None, false) == Some("Library mix"@),
        context_text(PlayContext::Playlist(id), Some(name), false) == Some(name),
{
}

/// A station without a country is told by its codec alone, one without a codec by
/// its country.
pub proof fn a_station_is_told_by_what_is_known(s: Station)
    ensures
        s.country@.len() == 0 && s.codec@.len() > 0 ==> crate::ui::radio::sub_parts(s) == seq![
            codec_text(s),
        ],
        s.country@.len() > 0 && s.codec@.len() == 0 ==> crate::ui::radio::sub_parts(s) == seq![
            s.country@,
        ],
        s.country@.len() == 0 && s.codec@.len() == 0 ==> crate::ui::radio::sub_parts(s).len() == 0,
{
}

/// Images that are no longer wanted are no longer on their way.
pub proof fn what_is_cancelled_is_not_on_its_way(s: Seq<Seq<char>>, ids: Seq<Seq<char>>, n: nat)
    requires
        0 < n <= ids.len(),
    ensures
        crate::ui::images::without_all(s, ids, 0) == s,
        crate::ui::images::without_all(s, ids, n) == without(
            crate::ui::images::without_all(s, ids, (n - 1) as nat),
            ids[n - 1],
        ),
{
}

/// Images are kept on disk in three sizes, each at least as large as what is shown
/// up to the largest.
pub proof fn images_are_kept_large_enough(size: u32, r: u32)
    requires
        call_ensures(crate::ui::images::disk_size, (size,), r),
    ensures
        r == 128 || r == 320 || r == 800,
        size <= 800 ==> size <= r,
        size <= 128 ==> r == 128,
        128 < size <= 320 ==> r == 320,
{
}

/// Lyrics are asked for where there is an artist and it is allowed.
pub proof fn lyrics_are_asked_for_where_allowed(artist: Option<String>, online: bool, r: bool)
    requires
        call_ensures(crate::ui::lyrics::asks_online, (&artist, online), r),
    ensures
        r ==> online && artist is Some,
        online && artist is Some ==> r,
{
}

/// A volume above nought ends the muting.
pub proof fn a_volume_ends_the_muting(muted: bool, percent: u32, r: bool)
    requires
        call_ensures(crate::ui::pages::unmutes, (muted, percent), r),
    ensures
        r <==> muted && percent > 0,
{
}

/// A new playlist needs a name.
pub proof fn a_playlist_needs_a_name(typed: &str, r: Option<String>)
    requires
        call_ensures(crate::ui::pages::playlist_name, (typed,), r),
    ensures
        trim(typed@).len() == 0 <==> r is None,
        r matches Some(n) ==> n@ == trim(typed@),
{
}

/// What is activated in a list plays, with what stands around it where the list is
/// short, and with what follows where it is long.
pub proof fn what_is_activated_plays(len: usize, index: usize, p: crate::ui::actions::Pick)
    requires
        index < len,
        call_ensures(crate::ui::actions::track_activate, (len, index), p),
    ensures
        p.from + p.start == index,
        p.from <= index < p.to <= len,
        len <= 500 ==> p.from == 0 && p.to == len,
        len > 500 ==> p.from == index && p.to - p.from <= 500,
{
}

/// The cover of an album is searched for by its artist and title, unless it is by
/// various artists.
pub proof fn covers_of_samplers_are_not_searched(
    c: crate::ui::pages::AlbumCard,
    a: crate::library::tracks::Album,
    eager: bool,
)
    requires
        crate::ui::pages::is_album_card(c, a, eager),
    ensures
        a.artist@ == "Various Artists"@ ==> c.art.lookup is None,
        a.artist@ != "Various Artists"@ ==> (c.art.lookup matches Some(l) && l.artist@ == a.artist@
            && l.album@ == a.title@),
        c.id@ == a.id@,
        c.title@ == a.title@,
        c.artist@ == a.artist@,
        c.fav == a.favorite,
        c.hires <==> (a.max_rate matches Some(r) && r > 48_000) || (a.max_bits matches Some(b) && b
            > 16),
        a.year is None ==> c.year@ == ""@,
        a.year matches Some(y) ==> c.year@ == crate::text::dec_int(y as int),
{
}

/// An album in a menu goes where it is sent: right behind what plays, to the end
/// of the queue, or in place of it.
pub proof fn an_album_goes_where_it_is_sent(
    s: crate::ui::actions::AlbumStep,
    id: Seq<char>,
    own: Vec<Track>,
    appears: Vec<Track>,
)
    requires
        own@.len() > 0,
    ensures
        crate::ui::actions::is_album_step(s, AlbumAction::Next, id, own, appears) ==> s == (
        crate::ui::actions::AlbumStep::Enqueue {
            tracks: own,
            at: crate::controller::state::EnqueueAt::Next,
        }),
        crate::ui::actions::is_album_step(s, AlbumAction::Queue, id, own, appears) ==> s == (
        crate::ui::actions::AlbumStep::Enqueue {
            tracks: own,
            at: crate::controller::state::EnqueueAt::End,
        }),
        crate::ui::actions::is_album_step(s, AlbumAction::Play, id, own, appears) ==> (
        s matches crate::ui::actions::AlbumStep::Play { tracks, shuffled, .. } && tracks == own
            && !shuffled),
        crate::ui::actions::is_album_step(s, AlbumAction::Shuffle, id, own, appears) ==> (
        s matches crate::ui::actions::AlbumStep::Play { tracks, shuffled, .. } && tracks == own
            && shuffled),
        crate::ui::actions::is_album_step(s, AlbumAction::Favorite, id, own, appears) ==> s
            is ToggleFavorite,
{
}

} // verus!
