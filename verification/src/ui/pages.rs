//! What the pages show, and what is asked for as they are used.

use vstd::prelude::*;

use crate::controller::state::{PlayContext, TrackInfo};
use crate::library::scan::positions;
use crate::library::tracks::{hires, Album, AlbumSort, Artist, Genre, Track, TrackSort};
use crate::online::radio::Station;
use crate::text::{
    chars_of, concat2, copy_str, dec_int, parse_signed, push_text, read_signed, same_str, string_of,
    text_opt, texts, trim, trim_of,
};
use crate::ui::actions::{
    album_order_at, album_sort, tint, tint_hash, track_order_at, track_sort, GENRE_TINTS,
};
use crate::ui::history::Page;
use crate::ui::images::{file_art, is_file_art, Art, LARGE, THUMB, TILE};
use crate::ui::now::{or_empty, Lookup, Source};
use crate::ui::rows::{album_lookup, album_quality, album_quality_text, album_year, RowOpts};
use crate::ui::text::{long_duration, rough};
use crate::uri::{is_on_the_web, on_the_web};
use vstd::utf8::encode_utf8;

verus! {

// ---------------------------------------------------------------------------
// Cards
// ---------------------------------------------------------------------------

/// An album as a tile.
#[derive(Debug)]
pub struct AlbumCard {
    pub id: String,
    pub title: String,
    pub artist: String,
    pub year: String,
    pub ckey: String,
    pub hires: bool,
    pub fav: bool,
    pub art: Art,
}

/// The year of an album, if it is known.
pub open spec fn year_text(year: Option<i32>) -> Seq<char> {
    match year {
        Some(y) => dec_int(y as int),
        None => ""@,
    }
}

/// Whether a cover is that of an album, kept by the album's id.
pub open spec fn is_album_art(art: Art, a: Album, size: u32) -> bool {
    &&& art.src matches Source::Track { key, path } && key@ == a.id@ && path@ == a.cover_path@
    &&& art.size == size
}

/// Whether the web is asked for an album.
pub open spec fn asks_for(lookup: Option<Lookup>, a: Album) -> bool {
    lookup matches Some(l) && l.artist@ == a.artist@ && l.album@ == a.title@
}

/// Whether a tile is that of an album. Its cover is found by the album's id; the
/// web is asked for it unless the album is one of various artists.
pub open spec fn is_album_card(c: AlbumCard, a: Album, eager: bool) -> bool {
    &&& c.id@ == a.id@
    &&& c.title@ == a.title@
    &&& c.artist@ == a.artist@
    &&& c.year@ == year_text(a.year)
    &&& c.ckey@ == a.id@
    &&& c.hires == hires(a.max_rate, a.max_bits)
    &&& c.fav == a.favorite
    &&& is_album_art(c.art, a, TILE)
    &&& c.art.eager == eager
    &&& if a.artist@ == "Various Artists"@ {
        c.art.lookup is None
    } else {
        asks_for(c.art.lookup, a)
    }
}

/// Fetch the cover at once, or when the tile comes into view.
pub fn album_card(a: &Album, eager: bool) -> (c: AlbumCard)
    ensures
        is_album_card(c, *a, eager),
{
    AlbumCard {
        id: a.id.clone(),
        title: a.title.clone(),
        artist: a.artist.clone(),
        year: album_year(a),
        ckey: a.id.clone(),
        hires: a.is_hires(),
        fav: a.favorite,
        art: Art { src: album_source(a), lookup: album_lookup(a), size: TILE, eager },
    }
}

fn album_source(a: &Album) -> (s: Source)
    ensures
        s matches Source::Track { key, path } && key@ == a.id@ && path@ == a.cover_path@,
{
    Source::Track { key: a.id.clone(), path: a.cover_path.clone() }
}

/// An artist as a tile.
#[derive(Debug)]
pub struct ArtistCard {
    pub name: String,
    pub albums: u32,
    pub tracks: u32,
    pub ckey: String,
    pub art: Art,
}

/// Its cover is found by the path of one of the artist's tracks.
pub fn artist_card(a: &Artist, eager: bool) -> (c: ArtistCard)
    ensures
        c.name@ == a.name@,
        c.albums == a.album_count,
        c.tracks == a.track_count,
        c.ckey@ == "p:"@ + a.cover_path@,
        is_file_art(c.art, "p:"@ + a.cover_path@, a.cover_path@, TILE),
        c.art.eager == eager,
{
    let key = concat2("p:", a.cover_path.as_str());
    let art = file_art(key.as_str(), a.cover_path.as_str(), TILE, eager);
    ArtistCard {
        name: a.name.clone(),
        albums: a.album_count,
        tracks: a.track_count,
        ckey: key,
        art,
    }
}

/// The cover of a track in a list that shows covers.
pub fn row_art(t: &Track, o: &RowOpts) -> (r: Option<Art>)
    ensures
        match r {
            Some(a) => o.cover && is_file_art(a, t.album_id@, t.path@, THUMB) && a.eager == o.eager,
            None => !o.cover,
        },
{
    if o.cover {
        Some(file_art(t.album_id.as_str(), t.path.as_str(), THUMB, o.eager))
    } else {
        None
    }
}

/// A genre as a tile.
#[derive(Debug)]
pub struct GenreCard {
    pub name: String,
    pub albums: u32,
    pub tint: u32,
}

pub fn genre_card(g: &Genre) -> (c: GenreCard)
    ensures
        c.name@ == g.name@,
        c.albums == g.album_count,
        c.tint == GENRE_TINTS[tint_hash(encode_utf8(g.name@), encode_utf8(g.name@).len()) as int
            % 10],
{
    GenreCard { name: g.name.clone(), albums: g.album_count, tint: tint(g.name.as_str()) }
}

// ---------------------------------------------------------------------------
// Pages
// ---------------------------------------------------------------------------

/// How many albums each row of the home page shows.
pub const HOME_ALBUMS: usize = 14;

/// How many tracks the home page shows.
pub const HOME_TRACKS: usize = 6;

/// How many tracks an artist's page shows.
pub const TOP_TRACKS: usize = 5;

/// How many tracks a search shows.
pub const FOUND_TRACKS: usize = 50;

/// How many tracks are queued when everything is shuffled.
pub const SHUFFLED_TRACKS: usize = 300;

/// What a page asks for.
#[derive(Debug)]
pub enum PageQuery {
    RecentlyPlayedAlbums(usize),
    RecentlyAddedAlbums(usize),
    MostPlayedAlbums(usize),
    MostPlayedTracks(usize),
    Stats,
    Albums(AlbumSort),
    /// An album, and its tracks.
    Album(String),
    Artists,
    /// An artist's albums, and those that the artist appears on.
    ArtistAlbums(String),
    ArtistTop(String, usize),
    Tracks(TrackSort),
    Genres,
    GenreAlbums(String),
    FavoriteAlbums,
    FavoriteTracks,
    /// A playlist, and its tracks.
    Playlist(i64),
    Search(String),
    Stations,
    Settings,
    RandomTracks(usize),
}

/// Whether a page asks for what belongs on it.
pub open spec fn is_page_load(
    q: Seq<PageQuery>,
    page: Page,
    arg: Seq<char>,
    search: Seq<char>,
    album_order: i32,
    track_order: i32,
) -> bool {
    match page {
        Page::Home => q == seq![
            PageQuery::RecentlyPlayedAlbums(HOME_ALBUMS),
            PageQuery::RecentlyAddedAlbums(HOME_ALBUMS),
            PageQuery::MostPlayedAlbums(HOME_ALBUMS),
            PageQuery::MostPlayedTracks(HOME_TRACKS),
            PageQuery::Stats,
        ],
        Page::Albums => q == seq![PageQuery::Albums(album_order_at(album_order))],
        Page::Album => q.len() == 1 && (q[0] matches PageQuery::Album(id) && id@ == arg),
        Page::Artists => q == seq![PageQuery::Artists],
        Page::Artist => q.len() == 2 && (q[0] matches PageQuery::ArtistAlbums(n) && n@ == arg) && (
        q[1] matches PageQuery::ArtistTop(n, top) && n@ == arg && top == TOP_TRACKS),
        Page::Tracks => q == seq![PageQuery::Tracks(track_order_at(track_order))],
        Page::Genres => q == seq![PageQuery::Genres],
        Page::Genre => q.len() == 1 && (q[0] matches PageQuery::GenreAlbums(g) && g@ == arg),
        Page::Favorites => q == seq![PageQuery::FavoriteAlbums, PageQuery::FavoriteTracks],
        Page::Playlist => q.len() == 1 && (q[0] matches PageQuery::Playlist(id) && id == (
        match read_signed(arg) {
            Some(n) => n,
            None => 0,
        })),
        Page::Search => q.len() == 1 && (q[0] matches PageQuery::Search(s) && s@ == search),
        Page::Radio => q == seq![PageQuery::Stations],
        Page::Settings => q == seq![PageQuery::Settings],
    }
}

/// What a page asks for when it is loaded: `arg` names what is shown, `search`
/// is what was typed, and the orders are places in the pages' menus.
pub fn load(page: Page, arg: &str, search: &str, album_order: i32, track_order: i32) -> (q: Vec<
    PageQuery,
>)
    ensures
        is_page_load(q@, page, arg@, search@, album_order, track_order),
{
    let mut q: Vec<PageQuery> = Vec::new();
    match page {
        Page::Home => {
            q.push(PageQuery::RecentlyPlayedAlbums(HOME_ALBUMS));
            q.push(PageQuery::RecentlyAddedAlbums(HOME_ALBUMS));
            q.push(PageQuery::MostPlayedAlbums(HOME_ALBUMS));
            q.push(PageQuery::MostPlayedTracks(HOME_TRACKS));
            q.push(PageQuery::Stats);
            assert(q@ == seq![
                PageQuery::RecentlyPlayedAlbums(HOME_ALBUMS),
                PageQuery::RecentlyAddedAlbums(HOME_ALBUMS),
                PageQuery::MostPlayedAlbums(HOME_ALBUMS),
                PageQuery::MostPlayedTracks(HOME_TRACKS),
                PageQuery::Stats,
            ]);
        },
        Page::Albums => {
            q.push(PageQuery::Albums(album_sort(album_order)));
            assert(q@ == seq![PageQuery::Albums(album_order_at(album_order))]);
        },
        Page::Album => q.push(PageQuery::Album(copy_str(arg))),
        Page::Artists => {
            q.push(PageQuery::Artists);
            assert(q@ == seq![PageQuery::Artists]);
        },
        Page::Artist => {
            q.push(PageQuery::ArtistAlbums(copy_str(arg)));
            q.push(PageQuery::ArtistTop(copy_str(arg), TOP_TRACKS));
        },
        Page::Tracks => {
            q.push(PageQuery::Tracks(track_sort(track_order)));
            assert(q@ == seq![PageQuery::Tracks(track_order_at(track_order))]);
        },
        Page::Genres => {
            q.push(PageQuery::Genres);
            assert(q@ == seq![PageQuery::Genres]);
        },
        Page::Genre => q.push(PageQuery::GenreAlbums(copy_str(arg))),
        Page::Favorites => {
            q.push(PageQuery::FavoriteAlbums);
            q.push(PageQuery::FavoriteTracks);
            assert(q@ == seq![PageQuery::FavoriteAlbums, PageQuery::FavoriteTracks]);
        },
        Page::Playlist => {
            let id = match parse_signed(&chars_of(arg)) {
                Some(n) => n,
                None => 0i64,
            };
            q.push(PageQuery::Playlist(id));
        },
        Page::Search => q.push(PageQuery::Search(copy_str(search))),
        Page::Radio => {
            q.push(PageQuery::Stations);
            assert(q@ == seq![PageQuery::Stations]);
        },
        Page::Settings => {
            q.push(PageQuery::Settings);
            assert(q@ == seq![PageQuery::Settings]);
        },
    }
    q
}

/// The rows whose covers are asked for as soon as a page is loaded; none where
/// they come with the rows.
pub fn first_rows(page: Page) -> (n: usize)
    ensures
        n == (match page {
            Page::Albums => 36usize,
            Page::Artists => 40usize,
            Page::Tracks => 30usize,
            _ => 0usize,
        }),
{
    match page {
        Page::Albums => 36,
        Page::Artists => 40,
        Page::Tracks => 30,
        _ => 0,
    }
}

/// The tracks that a search shows of those found.
pub fn found_tracks(tracks: Vec<Track>) -> (r: Vec<Track>)
    ensures
        r@ == at_most(tracks@, FOUND_TRACKS as nat),
{
    let mut r = tracks;
    if r.len() > FOUND_TRACKS {
        r.truncate(FOUND_TRACKS);
    }
    r
}

/// What is asked for and played when everything is shuffled.
pub fn shuffle_all() -> (r: (PageQuery, PlayContext))
    ensures
        r == (PageQuery::RandomTracks(SHUFFLED_TRACKS), PlayContext::Mix),
{
    (PageQuery::RandomTracks(SHUFFLED_TRACKS), PlayContext::Mix)
}

/// How many albums of the same artist an album's page shows.
pub const MORE_ALBUMS: usize = 12;

/// Which albums are listed: all of them, or those in high resolution.
pub fn load_albums(albums: &Vec<Album>, hires_only: bool) -> (r: Vec<usize>)
    ensures
        r@ == positions(
            albums@.len(),
            |i: int| !hires_only || hires(albums@[i].max_rate, albums@[i].max_bits),
        ),
{
    let ghost test = |i: int| !hires_only || hires(albums@[i].max_rate, albums@[i].max_bits);
    let mut out: Vec<usize> = Vec::new();
    for i in 0..albums.len()
        invariant
            test == (|i: int| !hires_only || hires(albums@[i].max_rate, albums@[i].max_bits)),
            out@ == positions(i as nat, test),
    {
        if !hires_only || albums[i].is_hires() {
            out.push(i);
        }
    }
    out
}

/// The head of an album's page.
#[derive(Debug)]
pub struct AlbumPage {
    pub id: String,
    pub title: String,
    pub artist: String,
    pub year: String,
    pub genre: String,
    pub count: u32,
    pub duration: String,
    pub quality: String,
    pub hires: bool,
    pub fav: bool,
    pub path: String,
    pub art: Art,
    /// How the album's tracks are listed.
    pub rows: RowOpts,
}

pub fn load_album(a: &Album) -> (p: AlbumPage)
    requires
        a.duration_ms + 30_000 <= u64::MAX,
    ensures
        p.id@ == a.id@,
        p.title@ == a.title@,
        p.artist@ == a.artist@,
        p.year@ == year_text(a.year),
        p.hires == hires(a.max_rate, a.max_bits),
        p.fav == a.favorite,
        p.genre@ == or_empty(a.genre),
        p.count == a.track_count,
        p.duration@ == rough(a.duration_ms as int),
        p.quality@ == album_quality_text(*a),
        p.path@ == a.dir@,
        is_album_art(p.art, *a, LARGE),
        asks_for(p.art.lookup, *a),
        p.art.eager,
        !p.rows.cover,
        p.rows.eager,
        p.rows.track_numbers,
        p.rows.discs,
        text_opt(p.rows.album_artist) == Some(a.artist@),
{
    AlbumPage {
        id: a.id.clone(),
        title: a.title.clone(),
        artist: a.artist.clone(),
        year: album_year(a),
        hires: a.is_hires(),
        fav: a.favorite,
        art: Art {
            src: album_source(a),
            lookup: Some(Lookup { artist: a.artist.clone(), album: a.title.clone() }),
            size: LARGE,
            eager: true,
        },
        rows: RowOpts {
            cover: false,
            eager: true,
            track_numbers: true,
            discs: true,
            album_artist: Some(a.artist.clone()),
        },
        genre: match &a.genre {
            Some(g) => g.clone(),
            None => copy_str(""),
        },
        count: a.track_count,
        duration: long_duration(a.duration_ms),
        quality: album_quality(a),
        path: a.dir.clone(),
    }
}

/// The first `n` of a sequence, or all of it where it is shorter.
pub open spec fn at_most<A>(s: Seq<A>, n: nat) -> Seq<A> {
    if s.len() <= n {
        s
    } else {
        s.take(n as int)
    }
}

proof fn lemma_positions_grow(n: nat, m: nat, test: spec_fn(int) -> bool)
    requires
        n <= m,
    ensures
        positions(n, test).len() <= positions(m, test).len(),
        positions(m, test).take(positions(n, test).len() as int) == positions(n, test),
    decreases m,
{
    if n < m {
        lemma_positions_grow(n, (m - 1) as nat, test);
        let before = positions((m - 1) as nat, test);
        assert(positions(m, test).take(positions(n, test).len() as int) == before.take(
            positions(n, test).len() as int,
        ));
    } else {
        assert(positions(m, test).take(positions(n, test).len() as int) == positions(n, test));
    }
}

/// Which of an artist's albums go below the page of one of them.
pub fn more_albums(own: &Vec<Album>, id: &str) -> (r: Vec<usize>)
    ensures
        r@ == at_most(
            positions(own@.len(), |i: int| own@[i].id@ != id@),
            MORE_ALBUMS as nat,
        ),
{
    let ghost test = |i: int| own@[i].id@ != id@;
    let mut out: Vec<usize> = Vec::new();
    let mut i: usize = 0;
    while i < own.len() && out.len() < MORE_ALBUMS
        invariant
            test == (|i: int| own@[i].id@ != id@),
            i <= own@.len(),
            out@ == positions(i as nat, test),
            out@.len() <= MORE_ALBUMS,
        decreases own@.len() - i,
    {
        if !same_str(own[i].id.as_str(), id) {
            out.push(i);
        }
        i += 1;
    }
    proof {
        lemma_positions_grow(i as nat, own@.len(), test);
        assert(positions(own@.len(), test).take(out@.len() as int) == out@);
        if positions(own@.len(), test).len() <= MORE_ALBUMS {
            assert(positions(own@.len(), test) == out@);
        }
    }
    out
}

/// The tracks of the first `n` albums, counted together.
pub open spec fn track_total(albums: Seq<Album>, n: nat) -> nat
    decreases n,
{
    if n == 0 {
        0
    } else {
        track_total(albums, (n - 1) as nat) + albums[n - 1].track_count as nat
    }
}

proof fn lemma_total_grows(albums: Seq<Album>, n: nat, m: nat)
    requires
        n <= m,
    ensures
        track_total(albums, n) <= track_total(albums, m),
    decreases m,
{
    if n < m {
        lemma_total_grows(albums, n, (m - 1) as nat);
    }
}

/// The head of an artist's page.
#[derive(Debug)]
pub struct ArtistPage {
    pub name: String,
    pub albums: usize,
    pub tracks: u32,
    pub cover: Option<Art>,
}

/// Whether a page shows the cover of an album, and does not ask the web for it.
pub open spec fn shows_album(art: Option<Art>, a: Album) -> bool {
    art matches Some(x) && is_file_art(x, a.id@, a.cover_path@, LARGE) && x.eager
}

/// The artist's own albums are counted; one of them lends its cover, or else one
/// that the artist appears on.
pub fn load_artist(name: &str, own: &Vec<Album>, appears: &Vec<Album>) -> (p: ArtistPage)
    requires
        track_total(own@, own@.len()) <= i32::MAX,
    ensures
        p.name@ == name@,
        p.albums == own@.len(),
        p.tracks == track_total(own@, own@.len()),
        if own@.len() > 0 {
            shows_album(p.cover, own@[0])
        } else if appears@.len() > 0 {
            shows_album(p.cover, appears@[0])
        } else {
            p.cover is None
        },
{
    let mut tracks: u32 = 0;
    for i in 0..own.len()
        invariant
            track_total(own@, own@.len()) <= i32::MAX,
            tracks == track_total(own@, i as nat),
    {
        proof {
            lemma_total_grows(own@, (i + 1) as nat, own@.len());
        }
        tracks = tracks + own[i].track_count;
    }
    let cover = if own.len() > 0 {
        Some(file_art(own[0].id.as_str(), own[0].cover_path.as_str(), LARGE, true))
    } else if appears.len() > 0 {
        Some(file_art(appears[0].id.as_str(), appears[0].cover_path.as_str(), LARGE, true))
    } else {
        None
    };
    ArtistPage { name: copy_str(name), albums: own.len(), tracks, cover }
}

/// The first `n` tracks, played one after the other.
pub open spec fn play_time(tracks: Seq<Track>, n: nat) -> nat
    decreases n,
{
    if n == 0 {
        0
    } else {
        play_time(tracks, (n - 1) as nat) + tracks[n - 1].duration_ms as nat
    }
}

proof fn lemma_time_grows(tracks: Seq<Track>, n: nat, m: nat)
    requires
        n <= m,
    ensures
        play_time(tracks, n) <= play_time(tracks, m),
    decreases m,
{
    if n < m {
        lemma_time_grows(tracks, n, (m - 1) as nat);
    }
}

/// The head of a playlist's page.
#[derive(Debug)]
pub struct PlaylistPage {
    pub count: usize,
    pub duration: String,
    pub cover: Option<Art>,
}

/// The first track lends its cover.
pub fn load_playlist(tracks: &Vec<Track>) -> (p: PlaylistPage)
    requires
        play_time(tracks@, tracks@.len()) + 30_000 <= u64::MAX,
    ensures
        p.count == tracks@.len(),
        p.duration@ == rough(play_time(tracks@, tracks@.len()) as int),
        if tracks@.len() > 0 {
            p.cover matches Some(a) && is_file_art(
                a,
                tracks@[0].album_id@,
                tracks@[0].path@,
                LARGE,
            ) && a.eager
        } else {
            p.cover is None
        },
{
    let mut ms: u64 = 0;
    for i in 0..tracks.len()
        invariant
            play_time(tracks@, tracks@.len()) + 30_000 <= u64::MAX,
            ms == play_time(tracks@, i as nat),
    {
        proof {
            lemma_time_grows(tracks@, (i + 1) as nat, tracks@.len());
        }
        ms = ms + tracks[i].duration_ms;
    }
    let cover = if tracks.len() > 0 {
        Some(file_art(tracks[0].album_id.as_str(), tracks[0].path.as_str(), LARGE, true))
    } else {
        None
    };
    PlaylistPage { count: tracks.len(), duration: long_duration(ms), cover }
}

// ---------------------------------------------------------------------------
// Covers in view
// ---------------------------------------------------------------------------

/// A row's key for its cover, and whether it shows one already.
#[derive(Debug)]
pub struct CoverSlot {
    pub ckey: String,
    pub filled: bool,
}

/// A row that waits for a cover. Rows of tracks may have none to wait for.
pub open spec fn wants_cover(s: CoverSlot, tracks: bool) -> bool {
    !s.filled && (tracks ==> s.ckey@.len() > 0)
}

/// The keys of the rows from `first` up to `end` that wait for a cover.
pub open spec fn wanted_keys(rows: Seq<CoverSlot>, first: int, end: int, tracks: bool) -> Seq<
    Seq<char>,
>
    decreases end - first,
{
    if first >= end {
        Seq::empty()
    } else {
        let before = wanted_keys(rows, first, end - 1, tracks);
        if wants_cover(rows[end - 1], tracks) {
            before.push(rows[end - 1].ckey@)
        } else {
            before
        }
    }
}

/// The covers to ask for when the rows `first..last` come into view.
pub fn visible(rows: &Vec<CoverSlot>, first: usize, last: usize, tracks: bool) -> (keys: Vec<
    String,
>)
    ensures
        texts(keys@) == wanted_keys(
            rows@,
            first as int,
            if last < rows@.len() {
                last as int
            } else {
                rows@.len() as int
            },
            tracks,
        ),
{
    let end: usize = if last < rows.len() {
        last
    } else {
        rows.len()
    };
    let mut keys: Vec<String> = Vec::new();
    assert(texts(keys@) == Seq::<Seq<char>>::empty());
    let mut i = first;
    while i < end
        invariant
            end <= rows@.len(),
            first <= i,
            i <= end || i == first,
            texts(keys@) == wanted_keys(rows@, first as int, i as int, tracks),
        decreases end - i,
    {
        let row = &rows[i];
        if !row.filled && (!tracks || !row.ckey.as_str().is_empty()) {
            push_text(&mut keys, row.ckey.clone());
        }
        i += 1;
    }
    keys
}

/// What gets an image for a row.
#[derive(Debug)]
pub enum ArtStep {
    /// The file on disk is the image.
    Open,
    /// Search the web for the album, keep what comes, and look on disk again.
    AskOnline,
    /// Fetch the address itself.
    Fetch,
    Nothing,
}

/// How the art of a source is come by. The web is asked once for an album, and
/// only where that is switched on.
pub fn produce(
    src: &Source,
    thumb_found: bool,
    has_lookup: bool,
    online: bool,
    tried: bool,
) -> (s: ArtStep)
    ensures
        match *src {
            Source::Track { .. } => if thumb_found {
                s is Open
            } else if has_lookup && online && !tried {
                s is AskOnline
            } else {
                s is Nothing
            },
            Source::Url(u) => if on_the_web(u@) {
                s is Fetch
            } else {
                s is Nothing
            },
        },
{
    match src {
        Source::Track { .. } => if thumb_found {
            ArtStep::Open
        } else if has_lookup && online && !tried {
            ArtStep::AskOnline
        } else {
            ArtStep::Nothing
        },
        Source::Url(u) => if is_on_the_web(u.as_str()) {
            ArtStep::Fetch
        } else {
            ArtStep::Nothing
        },
    }
}

// ---------------------------------------------------------------------------
// Input
// ---------------------------------------------------------------------------

/// How long typing has to pause before a search runs.
pub const SEARCH_PAUSE_MS: u64 = 150;

/// What follows when the search text changes.
#[derive(Debug)]
pub enum SearchStep {
    /// Leave the search page.
    Back,
    Nothing,
    /// Search for this once typing pauses.
    Later(String),
}

pub fn search_typed(text: &str, page: Page) -> (s: SearchStep)
    ensures
        ({
            let q = trim(text@);
            if q.len() > 0 {
                s matches SearchStep::Later(t) && t@ == q
            } else if page == Page::Search {
                s is Back
            } else {
                s is Nothing
            }
        }),
{
    let chars = chars_of(text);
    let q = trim_of(&chars);
    if q.len() > 0 {
        SearchStep::Later(string_of(q))
    } else if page == Page::Search {
        SearchStep::Back
    } else {
        SearchStep::Nothing
    }
}

/// A name that was typed, if there is anything to it.
pub fn playlist_name(typed: &str) -> (r: Option<String>)
    ensures
        match r {
            Some(n) => trim(typed@).len() > 0 && n@ == trim(typed@),
            None => trim(typed@).len() == 0,
        },
{
    let chars = chars_of(typed);
    let name = trim_of(&chars);
    if name.len() > 0 {
        Some(string_of(name))
    } else {
        None
    }
}

/// The artist whose page belongs to what plays; only library tracks have one.
pub fn go_to_artist(info: &TrackInfo) -> (r: Option<String>)
    ensures
        match r {
            Some(n) => info.path is Some && n@ == (match info.album_artist {
                Some(a) => a@,
                None => or_empty(info.artist),
            }),
            None => info.path is None,
        },
{
    if info.path.is_none() {
        return None;
    }
    match (&info.album_artist, &info.artist) {
        (Some(a), _) => Some(a.clone()),
        (None, Some(a)) => Some(a.clone()),
        (None, None) => Some(copy_str("")),
    }
}

/// Whether setting the volume takes the mute off.
pub fn unmutes(muted: bool, percent: u32) -> (r: bool)
    ensures
        r == (muted && percent > 0),
{
    muted && percent > 0
}

/// A place in a list that is counted from an index of the interface.
pub fn row_index(i: i32) -> (r: usize)
    ensures
        r == (if i > 0 {
            i as int
        } else {
            0
        }),
{
    if i > 0 {
        i as usize
    } else {
        0
    }
}

/// The station at a place in the list of favourites or of results.
pub fn station_at<'a>(
    list: &str,
    i: i32,
    favs: &'a Vec<Station>,
    results: &'a Vec<Station>,
) -> (r: Option<&'a Station>)
    ensures
        ({
            let stations = if list@ == "favs"@ {
                favs@
            } else {
                results@
            };
            let at = if i > 0 {
                i as int
            } else {
                0
            };
            match r {
                Some(s) => at < stations.len() && *s == stations[at],
                None => at >= stations.len(),
            }
        }),
{
    let at = row_index(i);
    let stations = if same_str(list, "favs") {
        favs
    } else {
        results
    };
    if at < stations.len() {
        Some(&stations[at])
    } else {
        None
    }
}

} // verus!
