//! Radio stations as the interface shows, searches and plays them.

use vstd::prelude::*;

use crate::controller::state::TrackInfo;
use crate::online::error::OnlineError;
use crate::online::radio::{Station, StationQuery};
use crate::text::{
    chars_of, copy_str, dec, join, join_strings, push_dec, push_text, same_str, string_of, text_opt,
    texts, trim, trim_of, trimmed,
};
use crate::ui::text::{t, translated};

verus! {

/// How many of the most popular stations are asked for.
pub const TOP_LIMIT: u32 = 60;

/// How many stations a search asks for.
pub const SEARCH_LIMIT: u32 = 80;

/// How many tags of a station are shown.
pub const SHOWN_TAGS: usize = 4;

/// A station as a list shows it.
#[derive(Debug)]
pub struct StationRow {
    pub uuid: String,
    pub name: String,
    pub sub: String,
    pub tags: String,
    /// The key of its icon; empty where it has none.
    pub ckey: String,
    pub fav: bool,
}

/// The codec of a station, with its rate where that is known.
pub open spec fn codec_text(s: Station) -> Seq<char> {
    if s.bitrate > 0 {
        s.codec@ + " "@ + dec(s.bitrate as nat) + " kbit/s"@
    } else {
        s.codec@
    }
}

/// What is said of a station: its country and its codec, as far as known.
pub open spec fn sub_parts(s: Station) -> Seq<Seq<char>> {
    (if s.country@.len() > 0 {
        seq![s.country@]
    } else {
        Seq::empty()
    }) + (if s.codec@.len() > 0 {
        seq![codec_text(s)]
    } else {
        Seq::empty()
    })
}

/// The tags that are shown.
pub open spec fn shown_tags(s: Station) -> Seq<Seq<char>> {
    if s.tags@.len() <= SHOWN_TAGS {
        texts(s.tags@)
    } else {
        texts(s.tags@).subrange(0, SHOWN_TAGS as int)
    }
}

/// The row of a station in a list.
pub open spec fn is_row_of(r: StationRow, s: Station, fav: bool) -> bool {
    &&& r.uuid@ == s.uuid@
    &&& r.name@ == trim(s.name@)
    &&& r.sub@ == join(sub_parts(s), " · "@)
    &&& r.tags@ == join(shown_tags(s), ", "@)
    &&& r.ckey@ == s.favicon@
    &&& r.fav == fav
}

pub fn station_row(s: &Station, fav: bool) -> (r: StationRow)
    ensures
        is_row_of(r, *s, fav),
{
    let mut sub: Vec<String> = Vec::new();
    assert(texts(sub@) == Seq::<Seq<char>>::empty());
    if !s.country.as_str().is_empty() {
        push_text(&mut sub, s.country.clone());
    }
    if !s.codec.as_str().is_empty() {
        let mut c = s.codec.clone();
        if s.bitrate > 0 {
            c.push_str(" ");
            push_dec(&mut c, s.bitrate as u64);
            c.push_str(" kbit/s");
        }
        push_text(&mut sub, c);
    }
    assert(texts(sub@) == sub_parts(*s));
    let mut tags: Vec<String> = Vec::new();
    assert(texts(tags@) == texts(s.tags@).subrange(0, 0));
    let mut i: usize = 0;
    while i < s.tags.len() && i < SHOWN_TAGS
        invariant
            i <= s.tags@.len(),
            i <= SHOWN_TAGS,
            texts(tags@) == texts(s.tags@).subrange(0, i as int),
        decreases s.tags@.len() - i,
    {
        push_text(&mut tags, s.tags[i].clone());
        assert(texts(s.tags@).subrange(0, i + 1) == texts(s.tags@).subrange(0, i as int).push(
            texts(s.tags@)[i as int],
        ));
        i = i + 1;
    }
    assert(texts(s.tags@).subrange(0, texts(s.tags@).len() as int) == texts(s.tags@));
    StationRow {
        uuid: s.uuid.clone(),
        name: trimmed(s.name.as_str()),
        sub: join_strings(&sub, " · "),
        tags: join_strings(&tags, ", "),
        ckey: s.favicon.clone(),
        fav,
    }
}

/// Where a station is among some, if it is.
pub open spec fn station_from(favs: Seq<Station>, uuid: Seq<char>, i: int) -> Option<int>
    decreases favs.len() - i,
{
    if i < 0 || i >= favs.len() {
        None
    } else if favs[i].uuid@ == uuid {
        Some(i)
    } else {
        station_from(favs, uuid, i + 1)
    }
}

/// Where a station is among the favourites, if it is.
pub fn fav_index(favs: &Vec<Station>, uuid: &str) -> (r: Option<usize>)
    ensures
        match station_from(favs@, uuid@, 0) {
            Some(i) => 0 <= i < favs@.len() && (r matches Some(k) && k == i),
            None => r is None,
        },
{
    for i in 0..favs.len()
        invariant
            station_from(favs@, uuid@, 0) == station_from(favs@, uuid@, i as int),
    {
        if same_str(favs[i].uuid.as_str(), uuid) {
            return Some(i);
        }
    }
    None
}

/// The favourites after a station was marked or unmarked.
pub open spec fn fav_toggled(favs: Seq<Station>, s: Station) -> Seq<Station> {
    match station_from(favs, s.uuid@, 0) {
        Some(i) => favs.remove(i),
        None => favs.push(s),
    }
}

/// Marks a station as a favourite, or no longer.
pub fn toggle_fav(favs: &mut Vec<Station>, s: Station)
    ensures
        final(favs)@ == fav_toggled(old(favs)@, s),
{
    match fav_index(favs, s.uuid.as_str()) {
        Some(i) => {
            favs.remove(i);
        },
        None => {
            favs.push(s);
        },
    }
}

/// Marking a station that is no favourite, and unmarking it, changes nothing.
pub proof fn marking_twice_changes_nothing(favs: Seq<Station>, s: Station)
    requires
        station_from(favs, s.uuid@, 0) is None,
    ensures
        fav_toggled(fav_toggled(favs, s), s) == favs,
{
    lemma_found_last(favs, s, 0);
    assert(favs.push(s).remove(favs.len() as int) == favs);
}

proof fn lemma_found_last(favs: Seq<Station>, s: Station, i: int)
    requires
        0 <= i <= favs.len(),
        station_from(favs, s.uuid@, i) is None,
    ensures
        station_from(favs.push(s), s.uuid@, i) == Some(favs.len() as int),
    decreases favs.len() - i,
{
    if i < favs.len() {
        assert(favs.push(s)[i] == favs[i]);
        lemma_found_last(favs, s, i + 1);
    }
}

/// The rows of what was found and of the favourites, which are marked in both.
pub fn show_stations(results: &Vec<Station>, favs: &Vec<Station>) -> (r: (
    Vec<StationRow>,
    Vec<StationRow>,
))
    ensures
        r.0@.len() == results@.len(),
        forall|i: int|
            0 <= i < results@.len() ==> is_row_of(
                #[trigger] r.0@[i],
                results@[i],
                station_from(favs@, results@[i].uuid@, 0) is Some,
            ),
        r.1@.len() == favs@.len(),
        forall|i: int| 0 <= i < favs@.len() ==> is_row_of(#[trigger] r.1@[i], favs@[i], true),
{
    let mut found: Vec<StationRow> = Vec::new();
    for i in 0..results.len()
        invariant
            found@.len() == i,
            forall|k: int|
                0 <= k < i ==> is_row_of(
                    #[trigger] found@[k],
                    results@[k],
                    station_from(favs@, results@[k].uuid@, 0) is Some,
                ),
    {
        let fav = fav_index(favs, results[i].uuid.as_str()).is_some();
        found.push(station_row(&results[i], fav));
    }
    let mut marked: Vec<StationRow> = Vec::new();
    for i in 0..favs.len()
        invariant
            marked@.len() == i,
            forall|k: int| 0 <= k < i ==> is_row_of(#[trigger] marked@[k], favs@[k], true),
    {
        marked.push(station_row(&favs[i], true));
    }
    (found, marked)
}

/// The tags offered as shortcuts.
pub const RADIO_TAGS: [&'static str; 14] = [
    "jazz",
    "classical",
    "ambient",
    "electronic",
    "rock",
    "chillout",
    "news",
    "lounge",
    "baroque",
    "soul",
    "funk",
    "hiphop",
    "world",
    "80s",
];

/// What opening the radio page does.
#[derive(Debug, Clone, Copy, PartialEq, Eq, Structural)]
pub enum RadioStep {
    Nothing,
    /// Show what is there.
    Show,
    /// Read the favourites, show them, and ask for the top stations.
    Load,
}

/// Radio that is switched off stays silent; the directory is asked once.
pub fn load_radio(enabled: bool, loaded: bool) -> (s: RadioStep)
    ensures
        s == (if !enabled {
            RadioStep::Nothing
        } else if loaded {
            RadioStep::Show
        } else {
            RadioStep::Load
        }),
{
    if !enabled {
        RadioStep::Nothing
    } else if loaded {
        RadioStep::Show
    } else {
        RadioStep::Load
    }
}

/// What a station's artist is: its country and its first tag, as far as known.
pub open spec fn artist_parts(s: Station) -> Seq<Seq<char>> {
    (if s.country@.len() > 0 {
        seq![s.country@]
    } else {
        Seq::empty()
    }) + (if s.tags@.len() > 0 && s.tags@[0]@.len() > 0 {
        seq![s.tags@[0]@]
    } else {
        Seq::empty()
    })
}

/// A text that is not empty.
pub open spec fn unless_empty(s: Seq<char>) -> Option<Seq<char>> {
    if s.len() > 0 {
        Some(s)
    } else {
        None
    }
}

fn copy_unless_empty(s: &String) -> (r: Option<String>)
    ensures
        text_opt(r) == unless_empty(s@),
{
    if s.as_str().is_empty() {
        None
    } else {
        Some(s.clone())
    }
}

/// A station as a queue item: a live stream.
pub fn play_station(s: &Station) -> (info: TrackInfo)
    ensures
        info.uri@ == s.url_resolved@,
        info.title@ == trim(s.name@),
        text_opt(info.artist) == Some(join(artist_parts(*s), " · "@)),
        text_opt(info.cover) == unless_empty(s.favicon@),
        text_opt(info.codec) == unless_empty(s.codec@),
        info.live,
        info.path is None,
        info.album is None,
        info.album_artist is None,
        info.album_id is None,
        info.duration_ms == 0,
        info.track_no is None,
        info.year is None,
        info.genre is None,
        info.sample_rate is None,
        info.bits is None,
        info.rg_track_gain is None,
        info.rg_track_peak is None,
        info.rg_album_gain is None,
        info.rg_album_peak is None,
        info.mb_album_id is None,
{
    let mut parts: Vec<String> = Vec::new();
    assert(texts(parts@) == Seq::<Seq<char>>::empty());
    if !s.country.as_str().is_empty() {
        push_text(&mut parts, s.country.clone());
    }
    if s.tags.len() > 0 {
        if !s.tags[0].as_str().is_empty() {
            push_text(&mut parts, s.tags[0].clone());
        }
    }
    assert(texts(parts@) == artist_parts(*s));
    let mut info = TrackInfo::default();
    info.uri = s.url_resolved.clone();
    info.title = trimmed(s.name.as_str());
    info.artist = Some(join_strings(&parts, " · "));
    info.cover = copy_unless_empty(&s.favicon);
    info.codec = copy_unless_empty(&s.codec);
    info.live = true;
    info
}

/// A search: the query and what it is labelled with.
#[derive(Debug)]
pub struct Search {
    pub query: StationQuery,
    pub label: String,
}

/// A query that asks for nothing in particular.
pub open spec fn plain_query(q: StationQuery) -> bool {
    &&& q.name is None && q.tag is None && q.countrycode is None && q.language is None
    &&& q.order is None && !q.reverse && q.offset == 0 && q.hidebroken && !q.include_hls
}

/// The search for what the user typed: the most popular stations where that is
/// blank.
pub fn search_text(typed: &str, french: bool) -> (r: Search)
    ensures
        plain_query(StationQuery { name: None, ..r.query }),
        trim(typed@).len() == 0 ==> r.query.name is None && r.query.limit == 100 && r.label@
            == translated("Top stations"@, french),
        trim(typed@).len() > 0 ==> text_opt(r.query.name) == Some(trim(typed@)) && r.query.limit
            == SEARCH_LIMIT && r.label@ == translated("Stations"@, french) + " · "@ + trim(typed@),
{
    let c = chars_of(typed);
    let q = trim_of(&c);
    let mut query = StationQuery::default();
    if q.len() == 0 {
        return Search { query, label: copy_str(t("Top stations", french)) };
    }
    query.name = Some(string_of(q));
    query.limit = SEARCH_LIMIT;
    let mut label = copy_str(t("Stations", french));
    label.push_str(" · ");
    label.push_str(string_of(q).as_str());
    Search { query, label }
}

/// The search for a tag.
pub fn search_tag(tag: &str, french: bool) -> (r: Search)
    ensures
        plain_query(StationQuery { tag: None, ..r.query }),
        text_opt(r.query.tag) == Some(tag@),
        r.query.limit == SEARCH_LIMIT,
        r.label@ == translated("Stations"@, french) + " · "@ + tag@,
{
    let mut query = StationQuery::default();
    query.tag = Some(copy_str(tag));
    query.limit = SEARCH_LIMIT;
    let mut label = copy_str(t("Stations", french));
    label.push_str(" · ");
    label.push_str(tag);
    Search { query, label }
}

/// Whether the most popular stations are asked for, rather than a search made.
pub fn asks_for_top(q: &StationQuery) -> (r: bool)
    ensures
        r == (q.name is None && q.tag is None),
{
    q.name.is_none() && q.tag.is_none()
}

/// What is said of the stations that were found, or of why there are none.
pub fn radio_status(found: &Result<Vec<Station>, OnlineError>, label: &str, french: bool) -> (s:
    String)
    ensures
        s@ == (match *found {
            Ok(v) => if v@.len() == 0 {
                translated("No station found"@, french)
            } else {
                label@
            },
            Err(_) => translated("Radio Browser is unreachable"@, french),
        }),
{
    match found {
        Ok(v) => if v.len() == 0 {
            copy_str(t("No station found", french))
        } else {
            copy_str(label)
        },
        Err(_) => copy_str(t("Radio Browser is unreachable", french)),
    }
}

} // verus!
