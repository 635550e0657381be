//! Radio Browser (<https://api.radio-browser.info/>): community directory of
//! internet radio stations, no key required.
//!
//! HLS stations (`.m3u8` playlists of segments) are excluded by default:
//! the decoder plays continuous streams (Icecast/Shoutcast MP3, AAC, Ogg, FLAC)
//! but has no HLS playlist/segment client. The API cannot filter them
//! server-side, so filtering happens after the fact and a page may hold fewer
//! than `limit` stations.

use vstd::prelude::*;

use crate::online::error::OnlineError;
use crate::online::http::{
    asks, param, param_views, plain_request, push_param, ParamView, Request,
};
use crate::online::lastfm::{filled, filled_text};
use crate::order::{chars_le, insert_sorted, insert_stable, text_le};
use crate::text::{
    chars_of, concat3, copy_str, dec, dec_string, push_text, same_str, split, split_on, string_of,
    text_opt, texts, trim, trim_of, trimmed,
};

verus! {

pub const DISCOVERY_HOST: &'static str = "all.api.radio-browser.info";

pub const FALLBACK_HOST: &'static str = "de1.api.radio-browser.info";

// ---------------------------------------------------------------------------
// Stations
// ---------------------------------------------------------------------------

#[derive(Debug, Clone, PartialEq, Eq)]
pub struct Station {
    pub uuid: String,
    pub name: String,
    /// Direct stream URL (playlists already resolved by the directory).
    pub url_resolved: String,
    pub homepage: String,
    pub favicon: String,
    pub tags: Vec<String>,
    pub country: String,
    pub countrycode: String,
    pub language: String,
    pub codec: String,
    /// kbit/s, `0` if unknown.
    pub bitrate: u32,
    pub votes: u64,
    pub clickcount: u64,
    pub hls: bool,
}

/// Wire format: tags are comma-separated, `hls` is 0/1, fields may be null.
#[derive(Debug)]
pub struct RawStation {
    pub stationuuid: String,
    pub name: Option<String>,
    pub url_resolved: Option<String>,
    pub url: Option<String>,
    pub homepage: Option<String>,
    pub favicon: Option<String>,
    pub tags: Option<TagsField>,
    pub country: Option<String>,
    pub countrycode: Option<String>,
    pub language: Option<String>,
    pub codec: Option<String>,
    pub bitrate: Option<u32>,
    pub votes: Option<u64>,
    pub clickcount: Option<u64>,
    pub hls: Option<FlagField>,
}

/// Both the API's comma string and our own stored list.
#[derive(Debug)]
pub enum TagsField {
    Csv(String),
    List(Vec<String>),
}

#[derive(Debug)]
pub enum FlagField {
    Int(u8),
    Bool(bool),
}

/// The pieces that are not blank among the first `n`, trimmed.
pub open spec fn filled_pieces(pieces: Seq<Seq<char>>, n: nat) -> Seq<Seq<char>>
    decreases n,
{
    if n == 0 || n > pieces.len() {
        Seq::empty()
    } else if trim(pieces[n - 1]).len() > 0 {
        filled_pieces(pieces, (n - 1) as nat).push(trim(pieces[n - 1]))
    } else {
        filled_pieces(pieces, (n - 1) as nat)
    }
}

/// The tags of a comma-separated list.
pub open spec fn csv_tags(s: Seq<char>) -> Seq<Seq<char>> {
    filled_pieces(split(s, ','), split(s, ',').len())
}

/// An optional text, or the empty one.
pub open spec fn or_empty(s: Option<String>) -> Seq<char> {
    match s {
        Some(t) => t@,
        None => ""@,
    }
}

/// Whether `s` is the station of a wire record.
pub open spec fn is_station(s: Station, r: RawStation) -> bool {
    &&& s.uuid@ == r.stationuuid@
    &&& s.name@ == trim(or_empty(r.name))
    &&& s.url_resolved@ == (if or_empty(r.url_resolved).len() > 0 {
        or_empty(r.url_resolved)
    } else {
        or_empty(r.url)
    })
    &&& s.homepage@ == or_empty(r.homepage)
    &&& s.favicon@ == or_empty(r.favicon)
    &&& texts(s.tags@) == (match r.tags {
        Some(TagsField::Csv(t)) => csv_tags(t@),
        Some(TagsField::List(v)) => texts(v@),
        None => Seq::empty(),
    })
    &&& s.country@ == or_empty(r.country)
    &&& s.countrycode@ == or_empty(r.countrycode)
    &&& s.language@ == or_empty(r.language)
    &&& s.codec@ == or_empty(r.codec)
    &&& s.bitrate == (match r.bitrate {
        Some(n) => n,
        None => 0,
    })
    &&& s.votes == (match r.votes {
        Some(n) => n,
        None => 0,
    })
    &&& s.clickcount == (match r.clickcount {
        Some(n) => n,
        None => 0,
    })
    &&& s.hls == (match r.hls {
        Some(FlagField::Int(n)) => n >= 1,
        Some(FlagField::Bool(b)) => b,
        None => false,
    })
}

fn text_or_empty(s: Option<String>) -> (r: String)
    ensures
        r@ == or_empty(s),
{
    match s {
        Some(t) => t,
        None => copy_str(""),
    }
}

fn tags_of(s: &str) -> (r: Vec<String>)
    ensures
        texts(r@) == csv_tags(s@),
{
    let pieces = split_on(&chars_of(s), ',');
    let ghost all = split(s@, ',');
    let mut out: Vec<String> = Vec::new();
    assert(texts(out@) == Seq::<Seq<char>>::empty());
    for i in 0..pieces.len()
        invariant
            pieces@.len() == all.len(),
            forall|k: int| 0 <= k < pieces@.len() ==> #[trigger] pieces@[k]@ == all[k],
            texts(out@) == filled_pieces(all, i as nat),
    {
        let t = trim_of(pieces[i].as_slice());
        if t.len() > 0 {
            push_text(&mut out, string_of(t));
        }
    }
    out
}

impl Station {
    /// The station of a wire record.
    pub fn from_raw(r: RawStation) -> (s: Station)
        ensures
            is_station(s, r),
    {
        let tags = match r.tags {
            Some(TagsField::Csv(t)) => tags_of(t.as_str()),
            Some(TagsField::List(v)) => v,
            None => Vec::new(),
        };
        assert(r.tags is None ==> texts(tags@) == Seq::<Seq<char>>::empty());
        let resolved = text_or_empty(r.url_resolved);
        let url_resolved = if resolved.as_str().is_empty() {
            text_or_empty(r.url)
        } else {
            resolved
        };
        Station {
            uuid: r.stationuuid,
            name: trimmed(text_or_empty(r.name).as_str()),
            url_resolved,
            homepage: text_or_empty(r.homepage),
            favicon: text_or_empty(r.favicon),
            tags,
            country: text_or_empty(r.country),
            countrycode: text_or_empty(r.countrycode),
            language: text_or_empty(r.language),
            codec: text_or_empty(r.codec),
            bitrate: match r.bitrate {
                Some(n) => n,
                None => 0,
            },
            votes: match r.votes {
                Some(n) => n,
                None => 0,
            },
            clickcount: match r.clickcount {
                Some(n) => n,
                None => 0,
            },
            hls: match r.hls {
                Some(FlagField::Int(n)) => n >= 1,
                Some(FlagField::Bool(b)) => b,
                None => false,
            },
        }
    }
}

/// The stations that can be played.
pub open spec fn playable(stations: Seq<Station>) -> Seq<Station>
    decreases stations.len(),
{
    if stations.len() == 0 {
        stations
    } else if stations.last().hls {
        playable(stations.drop_last())
    } else {
        playable(stations.drop_last()).push(stations.last())
    }
}

/// Leaves HLS stations out, unless they are wanted.
pub fn filter_hls(stations: Vec<Station>, include_hls: bool) -> (r: Vec<Station>)
    ensures
        r@ == (if include_hls {
            stations@
        } else {
            playable(stations@)
        }),
{
    if include_hls {
        return stations;
    }
    let mut left = stations;
    let mut back: Vec<Station> = Vec::new();
    let ghost all = left@;
    assert(back@.reverse() == Seq::<Station>::empty());
    assert(playable(all) + Seq::<Station>::empty() == playable(all));
    while left.len() > 0
        invariant
            playable(left@) + back@.reverse() == playable(all),
        decreases left@.len(),
    {
        let ghost before = left@;
        let ghost kept = back@;
        if let Some(s) = left.pop() {
            assert(left@ == before.drop_last());
            assert(s == before.last());
            if !s.hls {
                back.push(s);
                assert(back@.reverse() == seq![s] + kept.reverse());
                assert(playable(left@) + (seq![s] + kept.reverse()) == playable(left@).push(s)
                    + kept.reverse());
            }
        }
    }
    assert(playable(left@) + back@.reverse() == back@.reverse());
    let mut out: Vec<Station> = Vec::new();
    let ghost want = back@.reverse();
    assert(out@ + back@.reverse() == want);
    while back.len() > 0
        invariant
            out@ + back@.reverse() == want,
        decreases back@.len(),
    {
        let ghost before = back@;
        let ghost done = out@;
        if let Some(s) = back.pop() {
            out.push(s);
            assert(before == back@.push(s));
            assert(before.reverse() == seq![s] + back@.reverse());
            assert(done + (seq![s] + back@.reverse()) == done.push(s) + back@.reverse());
        }
    }
    assert(back@.reverse() == Seq::<Station>::empty());
    assert(out@ == want);
    out
}

/// What is left of a page can be played, and everything that can is left, in
/// the directory's order.
pub proof fn playable_stations_stay(stations: Seq<Station>)
    ensures
        forall|i: int| 0 <= i < playable(stations).len() ==> !(#[trigger] playable(stations)[i]).hls,
        forall|i: int|
            0 <= i < playable(stations).len() ==> stations.contains(#[trigger] playable(stations)[i]),
        forall|i: int|
            0 <= i < stations.len() && !(#[trigger] stations[i]).hls ==> playable(stations).contains(
                stations[i],
            ),
        playable(stations).len() <= stations.len(),
    decreases stations.len(),
{
    if stations.len() > 0 {
        let front = stations.drop_last();
        let p = playable(front);
        let q = playable(stations);
        playable_stations_stay(front);
        assert forall|i: int| 0 <= i < q.len() implies stations.contains(#[trigger] q[i]) by {
            if i < p.len() {
                assert(front.contains(p[i]));
                let k = choose|k: int| 0 <= k < front.len() && front[k] == p[i];
                assert(stations[k] == q[i]);
            } else {
                assert(stations[stations.len() - 1] == q[i]);
            }
        }
        assert forall|i: int| 0 <= i < stations.len() && !(#[trigger] stations[i]).hls implies
            q.contains(stations[i]) by {
            if i < front.len() {
                assert(front[i] == stations[i]);
                assert(p.contains(front[i]));
                let k = choose|k: int| 0 <= k < p.len() && p[k] == front[i];
                assert(q[k] == stations[i]);
            } else {
                assert(q[q.len() - 1] == stations[i]);
            }
        }
    }
}

// ---------------------------------------------------------------------------
// Queries
// ---------------------------------------------------------------------------

#[derive(Debug, Clone, Copy, PartialEq, Eq, Structural)]
pub enum StationOrder {
    Name,
    Country,
    Language,
    Tags,
    Votes,
    Codec,
    Bitrate,
    ClickCount,
    ClickTrend,
    ChangeTimestamp,
    Random,
}

impl StationOrder {
    /// The text of `as_str`.
    pub open spec fn text(self) -> Seq<char> {
        match self {
            StationOrder::Name => "name"@,
            StationOrder::Country => "country"@,
            StationOrder::Language => "language"@,
            StationOrder::Tags => "tags"@,
            StationOrder::Votes => "votes"@,
            StationOrder::Codec => "codec"@,
            StationOrder::Bitrate => "bitrate"@,
            StationOrder::ClickCount => "clickcount"@,
            StationOrder::ClickTrend => "clicktrend"@,
            StationOrder::ChangeTimestamp => "changetimestamp"@,
            StationOrder::Random => "random"@,
        }
    }

    pub fn as_str(self) -> (s: &'static str)
        ensures
            s@ == self.text(),
    {
        match self {
            StationOrder::Name => "name",
            StationOrder::Country => "country",
            StationOrder::Language => "language",
            StationOrder::Tags => "tags",
            StationOrder::Votes => "votes",
            StationOrder::Codec => "codec",
            StationOrder::Bitrate => "bitrate",
            StationOrder::ClickCount => "clickcount",
            StationOrder::ClickTrend => "clicktrend",
            StationOrder::ChangeTimestamp => "changetimestamp",
            StationOrder::Random => "random",
        }
    }
}

/// Parameters for `/json/stations/search`. `None`/empty fields are omitted.
#[derive(Debug, Clone, PartialEq, Eq)]
pub struct StationQuery {
    pub name: Option<String>,
    pub tag: Option<String>,
    /// ISO 3166-1 alpha-2.
    pub countrycode: Option<String>,
    pub language: Option<String>,
    pub order: Option<StationOrder>,
    pub reverse: bool,
    pub limit: u32,
    pub offset: u32,
    pub hidebroken: bool,
    /// Keep HLS stations (they cannot be played; see module docs).
    pub include_hls: bool,
}

impl Default for StationQuery {
    fn default() -> (q: StationQuery)
        ensures
            q == (StationQuery {
                name: None,
                tag: None,
                countrycode: None,
                language: None,
                order: None,
                reverse: false,
                limit: 100,
                offset: 0,
                hidebroken: true,
                include_hls: false,
            }),
    {
        StationQuery {
            name: None,
            tag: None,
            countrycode: None,
            language: None,
            order: None,
            reverse: false,
            limit: 100,
            offset: 0,
            hidebroken: true,
            include_hls: false,
        }
    }
}

pub open spec fn flag_text(b: bool) -> Seq<char> {
    if b {
        "true"@
    } else {
        "false"@
    }
}

fn flag_str(b: bool) -> (s: &'static str)
    ensures
        s@ == flag_text(b),
{
    if b {
        "true"
    } else {
        "false"
    }
}

/// A parameter for a text that is not blank, trimmed.
pub open spec fn text_param(name: Seq<char>, value: Option<String>) -> Seq<ParamView> {
    match filled(value) {
        Some(v) => seq![param(name, v)],
        None => Seq::empty(),
    }
}

/// The parameters of a query.
pub open spec fn query_params(q: StationQuery) -> Seq<ParamView> {
    text_param("name"@, q.name) + text_param("tag"@, q.tag) + text_param(
        "countrycode"@,
        q.countrycode,
    ) + text_param("language"@, q.language) + (match q.order {
        Some(o) => seq![param("order"@, o.text())],
        None => Seq::empty(),
    }) + seq![
        param("reverse"@, flag_text(q.reverse)),
        param("limit"@, dec(q.limit as nat)),
        param("offset"@, dec(q.offset as nat)),
        param("hidebroken"@, flag_text(q.hidebroken)),
    ]
}

fn push_text_param(p: &mut Vec<(String, String)>, name: &str, value: &Option<String>)
    ensures
        param_views(final(p)@) == param_views(old(p)@) + text_param(name@, *value),
{
    let ghost before = param_views(p@);
    assert(before + Seq::<ParamView>::empty() == before);
    if let Some(v) = filled_text(value) {
        push_param(p, name, v.as_str());
    }
}

proof fn lemma_push_four(
    front: Seq<ParamView>,
    a: ParamView,
    b: ParamView,
    c: ParamView,
    d: ParamView,
)
    ensures
        front.push(a).push(b).push(c).push(d) == front + seq![a, b, c, d],
{
}

impl StationQuery {
    pub fn params(&self) -> (p: Vec<(String, String)>)
        ensures
            param_views(p@) == query_params(*self),
    {
        let mut p: Vec<(String, String)> = Vec::new();
        assert(param_views(p@) == Seq::<ParamView>::empty());
        push_text_param(&mut p, "name", &self.name);
        assert(param_views(p@) == text_param("name"@, self.name));
        push_text_param(&mut p, "tag", &self.tag);
        push_text_param(&mut p, "countrycode", &self.countrycode);
        push_text_param(&mut p, "language", &self.language);
        let ghost texts = param_views(p@);
        let ghost order = match self.order {
            Some(o) => seq![param("order"@, o.text())],
            None => Seq::empty(),
        };
        assert(texts + Seq::<ParamView>::empty() == texts);
        if let Some(o) = self.order {
            push_param(&mut p, "order", o.as_str());
            assert(param_views(p@) == texts + order);
        }
        let ghost front = texts + order;
        assert(param_views(p@) == front);
        push_param(&mut p, "reverse", flag_str(self.reverse));
        push_param(&mut p, "limit", dec_string(self.limit as u64).as_str());
        push_param(&mut p, "offset", dec_string(self.offset as u64).as_str());
        push_param(&mut p, "hidebroken", flag_str(self.hidebroken));
        proof {
            lemma_push_four(
                front,
                param("reverse"@, flag_text(self.reverse)),
                param("limit"@, dec(self.limit as nat)),
                param("offset"@, dec(self.offset as nat)),
                param("hidebroken"@, flag_text(self.hidebroken)),
            );
        }
        p
    }
}

#[derive(Debug, Clone, PartialEq, Eq)]
pub struct Tag {
    pub name: String,
    pub stationcount: u32,
}

#[derive(Debug, Clone, PartialEq, Eq)]
pub struct Country {
    pub name: String,
    /// ISO 3166-1 alpha-2.
    pub iso_3166_1: String,
    pub stationcount: u32,
}

// ---------------------------------------------------------------------------
// Mirrors
// ---------------------------------------------------------------------------

/// A text order for `insert_stable`.
pub open spec fn text_order() -> spec_fn(Seq<char>, Seq<char>) -> bool {
    |a: Seq<char>, b: Seq<char>| text_le(a, b)
}

/// The distinct names that are not empty, in the order of texts.
pub open spec fn distinct_names(names: Seq<Seq<char>>) -> Seq<Seq<char>>
    decreases names.len(),
{
    if names.len() == 0 {
        names
    } else {
        let front = distinct_names(names.drop_last());
        if names.last().len() == 0 || front.contains(names.last()) {
            front
        } else {
            insert_stable(front, names.last(), text_order())
        }
    }
}

/// The mirror that `seed` picks among distinct host names.
pub open spec fn picked(names: Seq<Seq<char>>, seed: u64) -> Option<Seq<char>> {
    let d = distinct_names(names);
    if d.len() == 0 {
        None
    } else {
        Some(d[seed as int % d.len() as int])
    }
}

fn name_le(a: &String, b: &String) -> (r: bool)
    ensures
        r == text_le(a@, b@),
{
    chars_le(&chars_of(a.as_str()), &chars_of(b.as_str()))
}

fn insert_name(out: &mut Vec<String>, name: &str)
    ensures
        texts(final(out)@) == (if name@.len() == 0 || texts(old(out)@).contains(name@) {
            texts(old(out)@)
        } else {
            insert_stable(texts(old(out)@), name@, text_order())
        }),
{
    let ghost sorted = texts(out@);
    if name.is_empty() {
        return;
    }
    for i in 0..out.len()
        invariant
            sorted == texts(out@),
            out@ == old(out)@,
            name@.len() > 0,
            forall|j: int| 0 <= j < i ==> #[trigger] sorted[j] != name@,
    {
        if same_str(out[i].as_str(), name) {
            assert(sorted[i as int] == name@);
            return;
        }
    }
    assert(!sorted.contains(name@));
    let ghost before = out@;
    let ghost view = |s: String| s@;
    insert_sorted::<_, Seq<char>, _>(
        out,
        copy_str(name),
        name_le,
        Ghost(view),
        Ghost(text_order()),
    );
    assert(before.map_values(view) == texts(before));
    assert(out@.map_values(view) == texts(out@));
}

/// Picks a server by `seed` among distinct host names.
pub fn pick_server(servers: &[String], seed: u64) -> (r: Option<String>)
    ensures
        text_opt(r) == picked(texts(servers@), seed),
{
    let mut names: Vec<String> = Vec::new();
    let ghost all = texts(servers@);
    assert(texts(names@) == Seq::<Seq<char>>::empty());
    assert(all.subrange(0, 0) == Seq::<Seq<char>>::empty());
    for i in 0..servers.len()
        invariant
            all == texts(servers@),
            texts(names@) == distinct_names(all.subrange(0, i as int)),
    {
        assert(all.subrange(0, i + 1).drop_last() == all.subrange(0, i as int));
        insert_name(&mut names, servers[i].as_str());
    }
    assert(all.subrange(0, all.len() as int) == all);
    if names.len() == 0 {
        return None;
    }
    let n = names.len() as u64;
    let k = (seed % n) as usize;
    Some(names[k].clone())
}

/// Every mirror that has a name can be picked, and nothing else.
pub proof fn only_listed_servers_are_picked(names: Seq<Seq<char>>)
    ensures
        forall|x: Seq<char>| #[trigger]
            distinct_names(names).contains(x) <==> names.contains(x) && x.len() > 0,
        distinct_names(names).no_duplicates(),
    decreases names.len(),
{
    if names.len() > 0 {
        let front = names.drop_last();
        let d = distinct_names(front);
        let last = names.last();
        only_listed_servers_are_picked(front);
        if last.len() > 0 && !d.contains(last) {
            lemma_inserted(d, last);
        }
        assert forall|x: Seq<char>| #[trigger] distinct_names(names).contains(x) implies
            names.contains(x) && x.len() > 0 by {
            if x == last && last.len() > 0 && !d.contains(last) {
                assert(names[names.len() - 1] == x);
            } else {
                assert(d.contains(x));
                assert(front.contains(x));
                let k = choose|k: int| 0 <= k < front.len() && front[k] == x;
                assert(names[k] == x);
            }
        }
        assert forall|x: Seq<char>| names.contains(x) && x.len() > 0 implies #[trigger]
            distinct_names(names).contains(x) by {
            if x != last {
                let k = choose|k: int| 0 <= k < names.len() && names[k] == x;
                assert(front[k] == x);
                assert(d.contains(x));
            }
        }
    }
}

proof fn lemma_inserted(d: Seq<Seq<char>>, x: Seq<char>)
    requires
        !d.contains(x),
        d.no_duplicates(),
    ensures
        insert_stable(d, x, text_order()).no_duplicates(),
        forall|y: Seq<char>| #[trigger]
            insert_stable(d, x, text_order()).contains(y) <==> d.contains(y) || y == x,
    decreases d.len(),
{
    let r = insert_stable(d, x, text_order());
    if d.len() == 0 || text_order()(d.last(), x) {
        assert forall|y: Seq<char>| d.contains(y) || y == x implies #[trigger] r.contains(y) by {
            if y == x {
                assert(r[d.len() as int] == y);
            } else {
                let k = choose|k: int| 0 <= k < d.len() && d[k] == y;
                assert(r[k] == y);
            }
        }
        assert forall|y: Seq<char>| #[trigger] r.contains(y) implies d.contains(y) || y == x by {
            let k = choose|k: int| 0 <= k < r.len() && r[k] == y;
            if k < d.len() {
                assert(d[k] == y);
            }
        }
        assert forall|i: int, j: int| 0 <= i < r.len() && 0 <= j < r.len() && i != j implies r[i]
            != r[j] by {
            if i == d.len() {
                assert(d.contains(d[j]));
            }
            if j == d.len() {
                assert(d.contains(d[i]));
            }
        }
    } else {
        let front = d.drop_last();
        let s = insert_stable(front, x, text_order());
        assert forall|y: Seq<char>| #[trigger] front.contains(y) implies d.contains(y) by {
            let k = choose|k: int| 0 <= k < front.len() && front[k] == y;
            assert(d[k] == y);
        }
        lemma_inserted(front, x);
        assert(r == s.push(d.last()));
        assert(!front.contains(d.last())) by {
            if front.contains(d.last()) {
                let k = choose|k: int| 0 <= k < front.len() && front[k] == d.last();
                assert(d[k] == d[d.len() - 1]);
            }
        }
        assert(d.contains(d.last()));
        assert(!s.contains(d.last()));
        assert forall|y: Seq<char>| d.contains(y) || y == x implies #[trigger] r.contains(y) by {
            if y == d.last() {
                assert(r[s.len() as int] == y);
            } else {
                if y != x {
                    let k = choose|k: int| 0 <= k < d.len() && d[k] == y;
                    assert(front[k] == y);
                }
                assert(s.contains(y));
                let k = choose|k: int| 0 <= k < s.len() && s[k] == y;
                assert(r[k] == y);
            }
        }
        assert forall|y: Seq<char>| #[trigger] r.contains(y) implies d.contains(y) || y == x by {
            let k = choose|k: int| 0 <= k < r.len() && r[k] == y;
            if k < s.len() {
                assert(s[k] == y);
                assert(s.contains(y));
            }
        }
        assert forall|i: int, j: int| 0 <= i < r.len() && 0 <= j < r.len() && i != j implies r[i]
            != r[j] by {
            if i == s.len() {
                assert(s.contains(s[j]));
            }
            if j == s.len() {
                assert(s.contains(s[i]));
            }
        }
    }
}

#[derive(Debug, Clone, PartialEq, Eq)]
pub struct RadioBrowser {
    host: String,
}

/// An address at a mirror.
pub open spec fn mirror_url(host: Seq<char>, path: Seq<char>) -> Seq<char> {
    "https://"@ + host + path
}

/// What is asked of broken stations.
pub open spec fn unbroken() -> Seq<ParamView> {
    seq![param("hidebroken"@, "true"@)]
}

impl RadioBrowser {
    /// The host of the mirror.
    pub closed spec fn server(&self) -> Seq<char> {
        self.host@
    }

    /// Where the list of mirrors is.
    pub fn servers_url() -> (s: String)
        ensures
            s@ == "https://all.api.radio-browser.info/json/servers"@,
    {
        copy_str("https://all.api.radio-browser.info/json/servers")
    }

    /// Picks a mirror from the server list, as the API docs ask clients to
    /// spread load; falls back to [`FALLBACK_HOST`] where there is no list or
    /// it names none.
    pub fn discover(servers: Result<Vec<String>, OnlineError>, seed: u64) -> (r: RadioBrowser)
        ensures
            r.server() == (match servers {
                Ok(v) => match picked(texts(v@), seed) {
                    Some(host) => host,
                    None => FALLBACK_HOST@,
                },
                Err(_) => FALLBACK_HOST@,
            }),
    {
        match servers {
            Ok(v) => match pick_server(v.as_slice(), seed) {
                Some(host) => RadioBrowser::with_host(host.as_str()),
                None => RadioBrowser::with_host(FALLBACK_HOST),
            },
            Err(_) => RadioBrowser::with_host(FALLBACK_HOST),
        }
    }

    /// Uses a specific mirror host, e.g. `de1.api.radio-browser.info`.
    pub fn with_host(host: &str) -> (r: RadioBrowser)
        ensures
            r.server() == host@,
    {
        RadioBrowser { host: copy_str(host) }
    }

    pub fn host(&self) -> (s: &str)
        ensures
            s@ == self.server(),
    {
        self.host.as_str()
    }

    fn url(&self, path: &str) -> (s: String)
        ensures
            s@ == mirror_url(self.server(), path@),
    {
        concat3("https://", self.host.as_str(), path)
    }

    /// The request of a search; its answer goes through [`filter_hls`] with
    /// the query's `include_hls`.
    pub fn search(&self, query: &StationQuery) -> (r: Request)
        ensures
            asks(
                r,
                mirror_url(self.server(), "/json/stations/search"@),
                query_params(*query),
            ),
    {
        Request { url: self.url("/json/stations/search"), query: query.params() }
    }

    fn list(&self, path: &str, limit: u32) -> (r: Request)
        ensures
            asks(r, mirror_url(self.server(), path@ + dec(limit as nat)), unbroken()),
    {
        let mut p = copy_str(path);
        p.push_str(dec_string(limit as u64).as_str());
        let r = plain_request(self.url(p.as_str())).with("hidebroken", "true");
        assert(Seq::<ParamView>::empty().push(param("hidebroken"@, "true"@)) == unbroken());
        r
    }

    pub fn top_clicked(&self, limit: u32) -> (r: Request)
        ensures
            asks(
                r,
                mirror_url(self.server(), "/json/stations/topclick/"@ + dec(limit as nat)),
                unbroken(),
            ),
    {
        self.list("/json/stations/topclick/", limit)
    }

    pub fn top_voted(&self, limit: u32) -> (r: Request)
        ensures
            asks(
                r,
                mirror_url(self.server(), "/json/stations/topvote/"@ + dec(limit as nat)),
                unbroken(),
            ),
    {
        self.list("/json/stations/topvote/", limit)
    }

    /// Looks a station up regardless of HLS, so saved favourites resolve.
    pub fn by_uuid(&self, uuid: &str) -> (r: Request)
        ensures
            asks(
                r,
                mirror_url(self.server(), "/json/stations/byuuid/"@ + uuid@),
                Seq::empty(),
            ),
    {
        let mut p = copy_str("/json/stations/byuuid/");
        p.push_str(uuid);
        plain_request(self.url(p.as_str()))
    }

    /// Registers a play, as the API asks clients to do whenever a user starts
    /// a station (it feeds the popularity ranking). Answered with the stream
    /// URL.
    pub fn count_click(&self, uuid: &str) -> (r: Request)
        ensures
            asks(r, mirror_url(self.server(), "/json/url/"@ + uuid@), Seq::empty()),
    {
        let mut p = copy_str("/json/url/");
        p.push_str(uuid);
        plain_request(self.url(p.as_str()))
    }

    /// Most used tags, by station count.
    pub fn tags(&self, limit: u32) -> (r: Request)
        ensures
            asks(
                r,
                mirror_url(self.server(), "/json/tags"@),
                seq![
                    param("order"@, "stationcount"@),
                    param("reverse"@, "true"@),
                    param("hidebroken"@, "true"@),
                    param("limit"@, dec(limit as nat)),
                ],
            ),
    {
        let r = plain_request(self.url("/json/tags")).with("order", "stationcount").with(
            "reverse",
            "true",
        ).with("hidebroken", "true").with("limit", dec_string(limit as u64).as_str());
        assert(Seq::<ParamView>::empty().push(param("order"@, "stationcount"@)).push(
            param("reverse"@, "true"@),
        ).push(param("hidebroken"@, "true"@)).push(param("limit"@, dec(limit as nat))) == seq![
            param("order"@, "stationcount"@),
            param("reverse"@, "true"@),
            param("hidebroken"@, "true"@),
            param("limit"@, dec(limit as nat)),
        ]);
        r
    }

    pub fn countries(&self) -> (r: Request)
        ensures
            asks(r, mirror_url(self.server(), "/json/countries"@), unbroken()),
    {
        let r = plain_request(self.url("/json/countries")).with("hidebroken", "true");
        assert(Seq::<ParamView>::empty().push(param("hidebroken"@, "true"@)) == unbroken());
        r
    }
}

/// The answer to a click.
#[derive(Debug)]
pub struct ClickResponse {
    pub ok: bool,
    pub message: String,
    pub url: String,
}

/// The stream URL, or why there is none.
pub fn parse_click(r: ClickResponse) -> (res: Result<String, OnlineError>)
    ensures
        res == (if r.ok {
            Ok::<String, OnlineError>(r.url)
        } else {
            Err(OnlineError::Http { status: 404, body: r.message })
        }),
{
    if r.ok {
        Ok(r.url)
    } else {
        Err(OnlineError::Http { status: 404, body: r.message })
    }
}

} // verus!
