//! What the lists' actions do.

use vstd::prelude::*;

use crate::controller::state::{EnqueueAt, PlayContext};
use crate::library::tracks::{AlbumSort, Playlist, Track, TrackSort};
use crate::text::{
    bytes_of, chars_of, copy_str, parse_signed, push_text, read_signed, same_str, starts_with,
    starts_with_chars, string_of, texts,
};
use crate::ui::now::or_empty;
use vstd::slice::slice_subrange;
use vstd::utf8::encode_utf8;

verus! {

/// How many tracks of a huge list are queued at once.
pub const WINDOW: usize = 500;

// ---------------------------------------------------------------------------
// Lists
// ---------------------------------------------------------------------------

/// The order of albums at a place in the menu.
pub open spec fn album_order_at(i: i32) -> AlbumSort {
    if i == 1 {
        AlbumSort::Artist
    } else if i == 2 {
        AlbumSort::YearDesc
    } else if i == 3 {
        AlbumSort::RecentlyAdded
    } else {
        AlbumSort::Title
    }
}

/// The order of albums at a place in the menu.
pub fn album_sort(i: i32) -> (s: AlbumSort)
    ensures
        s == album_order_at(i),
{
    match i {
        1 => AlbumSort::Artist,
        2 => AlbumSort::YearDesc,
        3 => AlbumSort::RecentlyAdded,
        _ => AlbumSort::Title,
    }
}

/// The order of tracks at a place in the menu.
pub open spec fn track_order_at(i: i32) -> TrackSort {
    if i == 1 {
        TrackSort::Title
    } else if i == 2 {
        TrackSort::Album
    } else if i == 3 {
        TrackSort::Duration
    } else if i == 4 {
        TrackSort::RecentlyAdded
    } else if i == 5 {
        TrackSort::MostPlayed
    } else {
        TrackSort::Artist
    }
}

/// The order of tracks at a place in the menu.
pub fn track_sort(i: i32) -> (s: TrackSort)
    ensures
        s == track_order_at(i),
{
    match i {
        1 => TrackSort::Title,
        2 => TrackSort::Album,
        3 => TrackSort::Duration,
        4 => TrackSort::RecentlyAdded,
        5 => TrackSort::MostPlayed,
        _ => TrackSort::Artist,
    }
}

/// The part of a list that is queued when a track of it is picked.
#[derive(Debug, Clone, Copy, PartialEq, Eq, Structural)]
pub struct Pick {
    pub from: usize,
    pub to: usize,
    /// Where the picked track is in that part.
    pub start: usize,
}

/// The part of a list of `len` tracks that is queued when the one at `index` is
/// picked: all of it, but of a huge list a window after the pick.
pub fn track_activate(len: usize, index: usize) -> (p: Pick)
    requires
        len > WINDOW ==> index <= len,
    ensures
        p.from <= p.to <= len,
        p.from + p.start == index,
        len <= WINDOW ==> p.from == 0 && p.to == len,
        len > WINDOW ==> p.from == index && p.to == (if index + WINDOW <= len {
            index + WINDOW
        } else {
            len as int
        }),
{
    if len > WINDOW {
        let to = if len - index >= WINDOW {
            index + WINDOW
        } else {
            len
        };
        Pick { from: index, to, start: 0 }
    } else {
        Pick { from: 0, to: len, start: index }
    }
}

/// What a list is played from.
pub fn context_for(list: &str, album: &str, artist: &str, playlist: i64) -> (c: PlayContext)
    ensures
        if list@ == "album"@ {
            c matches PlayContext::Album(id) && id@ == album@
        } else if list@ == "artist-top"@ {
            c matches PlayContext::Artist(name) && name@ == artist@
        } else if list@ == "playlist"@ {
            c == PlayContext::Playlist(playlist)
        } else {
            c is Nowhere
        },
{
    if same_str(list, "album") {
        PlayContext::Album(copy_str(album))
    } else if same_str(list, "artist-top") {
        PlayContext::Artist(copy_str(artist))
    } else if same_str(list, "playlist") {
        PlayContext::Playlist(playlist)
    } else {
        PlayContext::Nowhere
    }
}

/// The artist whose page a track leads to: that of its album, else its own.
pub fn track_artist(t: &Track) -> (s: String)
    ensures
        s@ == (match t.album_artist {
            Some(a) => a@,
            None => or_empty(t.artist),
        }),
{
    match (&t.album_artist, &t.artist) {
        (Some(a), _) => a.clone(),
        (None, Some(a)) => a.clone(),
        (None, None) => copy_str(""),
    }
}

// ---------------------------------------------------------------------------
// Actions
// ---------------------------------------------------------------------------

/// What to do with a track.
#[derive(Debug)]
pub enum TrackAction {
    Play,
    Next,
    Queue,
    Album,
    Artist,
    Favorite,
    Folder,
    RemoveFromPlaylist,
    /// Add it to a playlist.
    AddTo(String),
    Nothing,
}

/// Whether an action is the one of a name.
pub open spec fn is_track_action(a: TrackAction, name: Seq<char>) -> bool {
    if name == "play"@ {
        a is Play
    } else if name == "next"@ {
        a is Next
    } else if name == "queue"@ {
        a is Queue
    } else if name == "album"@ {
        a is Album
    } else if name == "artist"@ {
        a is Artist
    } else if name == "fav"@ {
        a is Favorite
    } else if name == "folder"@ {
        a is Folder
    } else if name == "pl-remove"@ {
        a is RemoveFromPlaylist
    } else if starts_with(name, "pl:"@) {
        a matches TrackAction::AddTo(s) && s@ == name.subrange(3, name.len() as int)
    } else {
        a is Nothing
    }
}

fn playlist_target(name: &str) -> (r: Option<String>)
    ensures
        match r {
            Some(s) => starts_with(name@, "pl:"@) && s@ == name@.subrange(3, name@.len() as int),
            None => !starts_with(name@, "pl:"@),
        },
{
    proof {
        reveal_strlit("pl:");
    }
    let c = chars_of(name);
    if starts_with_chars(&c, &chars_of("pl:")) {
        Some(string_of(slice_subrange(c.as_slice(), 3, c.len())))
    } else {
        None
    }
}

/// The action of a name.
pub fn track_action(name: &str) -> (a: TrackAction)
    ensures
        is_track_action(a, name@),
{
    if same_str(name, "play") {
        TrackAction::Play
    } else if same_str(name, "next") {
        TrackAction::Next
    } else if same_str(name, "queue") {
        TrackAction::Queue
    } else if same_str(name, "album") {
        TrackAction::Album
    } else if same_str(name, "artist") {
        TrackAction::Artist
    } else if same_str(name, "fav") {
        TrackAction::Favorite
    } else if same_str(name, "folder") {
        TrackAction::Folder
    } else if same_str(name, "pl-remove") {
        TrackAction::RemoveFromPlaylist
    } else {
        match playlist_target(name) {
            Some(s) => TrackAction::AddTo(s),
            None => TrackAction::Nothing,
        }
    }
}

/// What to do with an album, an artist or a genre.
#[derive(Debug)]
pub enum AlbumAction {
    ArtistPlay,
    ArtistShuffle,
    GenreShuffle,
    Play,
    Shuffle,
    Next,
    Queue,
    Artist,
    Favorite,
    Folder,
    /// Add its tracks to a playlist.
    AddTo(String),
    Nothing,
}

/// Whether an action is the one of a name.
pub open spec fn is_album_action(a: AlbumAction, name: Seq<char>) -> bool {
    if name == "artist-play"@ {
        a is ArtistPlay
    } else if name == "artist-shuffle"@ {
        a is ArtistShuffle
    } else if name == "genre-shuffle"@ {
        a is GenreShuffle
    } else if name == "play"@ {
        a is Play
    } else if name == "shuffle"@ {
        a is Shuffle
    } else if name == "next"@ {
        a is Next
    } else if name == "queue"@ {
        a is Queue
    } else if name == "artist"@ {
        a is Artist
    } else if name == "fav"@ {
        a is Favorite
    } else if name == "folder"@ {
        a is Folder
    } else if starts_with(name, "pl:"@) {
        a matches AlbumAction::AddTo(s) && s@ == name.subrange(3, name.len() as int)
    } else {
        a is Nothing
    }
}

/// The action of a name.
pub fn album_action(name: &str) -> (a: AlbumAction)
    ensures
        is_album_action(a, name@),
{
    if same_str(name, "artist-play") {
        AlbumAction::ArtistPlay
    } else if same_str(name, "artist-shuffle") {
        AlbumAction::ArtistShuffle
    } else if same_str(name, "genre-shuffle") {
        AlbumAction::GenreShuffle
    } else if same_str(name, "play") {
        AlbumAction::Play
    } else if same_str(name, "shuffle") {
        AlbumAction::Shuffle
    } else if same_str(name, "next") {
        AlbumAction::Next
    } else if same_str(name, "queue") {
        AlbumAction::Queue
    } else if same_str(name, "artist") {
        AlbumAction::Artist
    } else if same_str(name, "fav") {
        AlbumAction::Favorite
    } else if same_str(name, "folder") {
        AlbumAction::Folder
    } else {
        match playlist_target(name) {
            Some(s) => AlbumAction::AddTo(s),
            None => AlbumAction::Nothing,
        }
    }
}

/// What follows from an action on an album, an artist or a genre.
#[derive(Debug)]
pub enum AlbumStep {
    /// Play the tracks from the first, or shuffled.
    Play { tracks: Vec<Track>, context: PlayContext, shuffled: bool },
    Enqueue { tracks: Vec<Track>, at: EnqueueAt },
    /// Go to the page of the album's artist.
    GoToArtist,
    /// Make the album a favourite, or no more one.
    ToggleFavorite,
    /// Show where a file lies.
    ShowInFolder(String),
    /// Add files to a playlist.
    AddTo { target: String, paths: Vec<String> },
    Nothing,
}

/// The paths of some tracks.
pub open spec fn paths_of(tracks: Seq<Track>) -> Seq<Seq<char>> {
    Seq::new(tracks.len(), |i: int| tracks[i].path@)
}

/// Whether a step is the one that follows. An artist's own albums are played, or
/// those that the artist appears on where there is nothing else; an album
/// without tracks has no actions.
pub open spec fn is_album_step(
    s: AlbumStep,
    a: AlbumAction,
    id: Seq<char>,
    own: Vec<Track>,
    appears: Vec<Track>,
) -> bool {
    match a {
        AlbumAction::ArtistPlay | AlbumAction::ArtistShuffle => s matches AlbumStep::Play {
            tracks,
            context: PlayContext::Artist(name),
            shuffled,
        } && name@ == id && shuffled == (a is ArtistShuffle) && tracks == (if own@.len() > 0 {
            own
        } else {
            appears
        }),
        AlbumAction::GenreShuffle => s == (AlbumStep::Play {
            tracks: own,
            context: PlayContext::Mix,
            shuffled: true,
        }),
        _ => if own@.len() == 0 {
            s is Nothing
        } else {
            match a {
                AlbumAction::Play | AlbumAction::Shuffle => s matches AlbumStep::Play {
                    tracks,
                    context: PlayContext::Album(album),
                    shuffled,
                } && album@ == id && shuffled == (a is Shuffle) && tracks == own,
                AlbumAction::Next => s == (AlbumStep::Enqueue { tracks: own, at: EnqueueAt::Next }),
                AlbumAction::Queue => s == (AlbumStep::Enqueue { tracks: own, at: EnqueueAt::End }),
                AlbumAction::Artist => s is GoToArtist,
                AlbumAction::Favorite => s is ToggleFavorite,
                AlbumAction::Folder => s matches AlbumStep::ShowInFolder(p) && p@ == own@[0].path@,
                AlbumAction::AddTo(t) => s matches AlbumStep::AddTo { target, paths } && target
                    == t && texts(paths@) == paths_of(own@),
                _ => s is Nothing,
            }
        },
    }
}

fn copy_paths(tracks: &Vec<Track>) -> (r: Vec<String>)
    ensures
        texts(r@) == paths_of(tracks@),
{
    let mut r: Vec<String> = Vec::new();
    for i in 0..tracks.len()
        invariant
            texts(r@) == paths_of(tracks@).subrange(0, i as int),
    {
        push_text(&mut r, copy_str(tracks[i].path.as_str()));
    }
    assert(paths_of(tracks@).subrange(0, tracks@.len() as int) == paths_of(tracks@));
    r
}

/// What follows from an action. `own` are the tracks of the album, of the
/// artist's own albums or of the genre's albums; `appears` are those of the
/// albums that the artist appears on.
pub fn album_step(a: AlbumAction, id: &str, own: Vec<Track>, appears: Vec<Track>) -> (s: AlbumStep)
    ensures
        is_album_step(s, a, id@, own, appears),
{
    let none = own.len() == 0;
    match a {
        AlbumAction::ArtistPlay | AlbumAction::ArtistShuffle => {
            let shuffled = match a {
                AlbumAction::ArtistShuffle => true,
                _ => false,
            };
            let tracks = if none {
                appears
            } else {
                own
            };
            AlbumStep::Play { tracks, context: PlayContext::Artist(copy_str(id)), shuffled }
        },
        AlbumAction::GenreShuffle => AlbumStep::Play {
            tracks: own,
            context: PlayContext::Mix,
            shuffled: true,
        },
        _ => if none {
            AlbumStep::Nothing
        } else {
            match a {
                AlbumAction::Play => AlbumStep::Play {
                    tracks: own,
                    context: PlayContext::Album(copy_str(id)),
                    shuffled: false,
                },
                AlbumAction::Shuffle => AlbumStep::Play {
                    tracks: own,
                    context: PlayContext::Album(copy_str(id)),
                    shuffled: true,
                },
                AlbumAction::Next => AlbumStep::Enqueue { tracks: own, at: EnqueueAt::Next },
                AlbumAction::Queue => AlbumStep::Enqueue { tracks: own, at: EnqueueAt::End },
                AlbumAction::Artist => AlbumStep::GoToArtist,
                AlbumAction::Favorite => AlbumStep::ToggleFavorite,
                AlbumAction::Folder => AlbumStep::ShowInFolder(copy_str(own[0].path.as_str())),
                AlbumAction::AddTo(target) => AlbumStep::AddTo { target, paths: copy_paths(&own) },
                _ => AlbumStep::Nothing,
            }
        },
    }
}

/// Whether `id` is the greatest of the playlists' ids.
pub open spec fn greatest_id(playlists: Seq<Playlist>, id: i64) -> bool {
    (exists|i: int| 0 <= i < playlists.len() && (#[trigger] playlists[i]).id == id) && forall|i: int|
        0 <= i < playlists.len() ==> (#[trigger] playlists[i]).id <= id
}

/// The playlist that a target stands for: `new` is the one that was just
/// created, the most recent one; anything else is an id.
pub fn playlist_for(target: &str, playlists: &Vec<Playlist>) -> (r: Option<i64>)
    ensures
        if target@ == "new"@ {
            match r {
                Some(id) => greatest_id(playlists@, id),
                None => playlists@.len() == 0,
            }
        } else {
            match read_signed(target@) {
                Some(n) => r matches Some(id) && id == n,
                None => r is None,
            }
        },
{
    if !same_str(target, "new") {
        return parse_signed(&chars_of(target));
    }
    let mut best: Option<i64> = None;
    for i in 0..playlists.len()
        invariant
            match best {
                Some(id) => (exists|j: int| 0 <= j < i && (#[trigger] playlists@[j]).id == id)
                    && forall|j: int| 0 <= j < i ==> (#[trigger] playlists@[j]).id <= id,
                None => i == 0,
            },
    {
        let id = playlists[i].id;
        let better = match best {
            Some(b) => id > b,
            None => true,
        };
        if better {
            best = Some(id);
            assert(playlists@[i as int].id == id);
        }
    }
    best
}

/// The file name that a playlist is exported to.
pub open spec fn export_name(name: Seq<char>) -> Seq<char> {
    Seq::new(
        name.len(),
        |i: int|
            if name[i] == '/' {
                '-'
            } else {
                name[i]
            },
    ) + ".m3u8"@
}

/// The file name that a playlist is exported to.
pub fn export_file(name: &str) -> (s: String)
    ensures
        s@ == export_name(name@),
{
    let c = chars_of(name);
    let ghost want = Seq::new(
        name@.len(),
        |i: int|
            if name@[i] == '/' {
                '-'
            } else {
                name@[i]
            },
    );
    let mut out = String::new();
    assert(want.subrange(0, 0) == Seq::<char>::empty());
    for i in 0..c.len()
        invariant
            c@ == name@,
            want.len() == name@.len(),
            forall|k: int|
                0 <= k < want.len() ==> #[trigger] want[k] == (if name@[k] == '/' {
                    '-'
                } else {
                    name@[k]
                }),
            out@ == want.subrange(0, i as int),
    {
        if c[i] == '/' {
            out.push('-');
        } else {
            out.push(c[i]);
        }
        assert(want.subrange(0, i + 1) == want.subrange(0, i as int).push(want[i as int]));
    }
    assert(want.subrange(0, want.len() as int) == want);
    out.push_str(".m3u8");
    out
}

// ---------------------------------------------------------------------------
// Genres
// ---------------------------------------------------------------------------

/// The colours of genres.
pub const GENRE_TINTS: [u32; 10] = [
    0x8c4a3b,
    0x3b5f8c,
    0x6b3b8c,
    0x3b8c6b,
    0x8c7a3b,
    0x8c3b62,
    0x2f6f7a,
    0x5a6b2f,
    0x7a4a2f,
    0x3b4a8c,
];

/// The hash of the first `n` bytes of a name.
pub open spec fn tint_hash(b: Seq<u8>, n: nat) -> u32
    decreases n,
{
    if n == 0 || n > b.len() {
        7
    } else {
        tint_hash(b, (n - 1) as nat).wrapping_mul(31).wrapping_add(b[n - 1] as u32)
    }
}

/// The colour of a genre, the same whenever it is shown.
pub fn tint(name: &str) -> (c: u32)
    ensures
        c == GENRE_TINTS[tint_hash(encode_utf8(name@), encode_utf8(name@).len()) as int % 10],
{
    let b = bytes_of(name);
    let mut h: u32 = 7;
    for i in 0..b.len()
        invariant
            h == tint_hash(b@, i as nat),
    {
        h = h.wrapping_mul(31).wrapping_add(b[i] as u32);
    }
    let k: usize = (h % 10) as usize;
    GENRE_TINTS[k]
}

} // verus!
