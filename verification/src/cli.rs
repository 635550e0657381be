//! Command-line control of a running player.

use vstd::prelude::*;

use crate::online::http::{insert_param, name_order, param_views, ParamView};
use crate::order::sort_stable;
use crate::text::{
    chars_of, contains, contains_chars, copy_str, dec, dec_padded, push_dec, push_dec2, same_str,
    texts,
};

verus! {

pub const DEST: &'static str = "org.mpris.MediaPlayer2.ricercar";

pub const PATH: &'static str = "/org/mpris/MediaPlayer2";

pub const PLAYER: &'static str = "org.mpris.MediaPlayer2.Player";

pub const HELP: &'static str = "usage: ricercar-cli <command>\n\n  status              what is playing (default)\n  play | pause | toggle | stop | next | prev\n  open URI            play a file:// or http(s):// URI now\n  seek [+|-]SECONDS   relative seek (e.g. seek +30, seek -10)\n  volume [0..1]       get or set the volume\n  shuffle [on|off]    get or set shuffle\n  repeat [none|track|playlist]\n  metadata            dump the MPRIS metadata";

/// What the user asks for.
#[derive(Debug)]
pub enum Command {
    Help,
    Status,
    /// A method of the player without arguments.
    Call(&'static str),
    /// Something to play; nothing where it is missing.
    Open(Option<String>),
    /// A relative seek.
    Seek(Option<String>),
    /// A volume to set; nothing to show it.
    Volume(Option<String>),
    /// Shuffle on or off; nothing to show it.
    Shuffle(Option<bool>),
    /// A loop status to set; nothing to show it.
    Repeat(Option<&'static str>),
    Metadata,
    Unknown(String),
}

/// The method that a word stands for, if it is one.
pub open spec fn method_of(word: Seq<char>) -> Option<Seq<char>> {
    if word == "play"@ {
        Some("Play"@)
    } else if word == "pause"@ {
        Some("Pause"@)
    } else if word == "toggle"@ {
        Some("PlayPause"@)
    } else if word == "stop"@ {
        Some("Stop"@)
    } else if word == "next"@ {
        Some("Next"@)
    } else if word == "prev"@ {
        Some("Previous"@)
    } else {
        None
    }
}

fn method(word: &str) -> (r: Option<&'static str>)
    ensures
        match method_of(word@) {
            Some(m) => r matches Some(t) && t@ == m,
            None => r is None,
        },
{
    if same_str(word, "play") {
        Some("Play")
    } else if same_str(word, "pause") {
        Some("Pause")
    } else if same_str(word, "toggle") {
        Some("PlayPause")
    } else if same_str(word, "stop") {
        Some("Stop")
    } else if same_str(word, "next") {
        Some("Next")
    } else if same_str(word, "prev") {
        Some("Previous")
    } else {
        None
    }
}

/// The loop status that a word stands for.
pub open spec fn loop_of(word: Seq<char>) -> Seq<char> {
    if word == "track"@ || word == "one"@ {
        "Track"@
    } else if word == "playlist"@ || word == "all"@ {
        "Playlist"@
    } else {
        "None"@
    }
}

fn loop_word(word: &str) -> (r: &'static str)
    ensures
        r@ == loop_of(word@),
{
    if same_str(word, "track") || same_str(word, "one") {
        "Track"
    } else if same_str(word, "playlist") || same_str(word, "all") {
        "Playlist"
    } else {
        "None"
    }
}

/// Whether `r` is the second of the words, if there is one.
pub open spec fn is_second(r: Option<String>, words: Seq<Seq<char>>) -> bool {
    match r {
        Some(t) => words.len() > 1 && t@ == words[1],
        None => words.len() <= 1,
    }
}

/// Whether a command is what some words ask for.
pub open spec fn is_command(c: Command, words: Seq<Seq<char>>) -> bool {
    if words.len() == 0 {
        c is Status
    } else {
        let w = words[0];
        if w == "-h"@ || w == "--help"@ || w == "help"@ {
            c is Help
        } else if w == "status"@ {
            c is Status
        } else if method_of(w) is Some {
            c matches Command::Call(m) && m@ == method_of(w)->0
        } else if w == "open"@ {
            c matches Command::Open(r) && is_second(r, words)
        } else if w == "seek"@ {
            c matches Command::Seek(r) && is_second(r, words)
        } else if w == "volume"@ {
            c matches Command::Volume(r) && is_second(r, words)
        } else if w == "shuffle"@ {
            c matches Command::Shuffle(r) && r == (if words.len() > 1 && words[1] == "on"@ {
                Some(true)
            } else if words.len() > 1 && words[1] == "off"@ {
                Some(false)
            } else {
                None
            })
        } else if w == "repeat"@ {
            c matches Command::Repeat(r) && (match r {
                Some(m) => words.len() > 1 && m@ == loop_of(words[1]),
                None => words.len() <= 1,
            })
        } else if w == "metadata"@ {
            c is Metadata
        } else {
            c matches Command::Unknown(t) && t@ == w
        }
    }
}

/// What some words ask for.
pub fn command(args: &[String]) -> (c: Command)
    ensures
        is_command(c, texts(args@)),
{
    if args.len() == 0 {
        return Command::Status;
    }
    assert(texts(args@)[0] == args@[0]@);
    let w = args[0].as_str();
    let second: Option<String> = if args.len() > 1 {
        assert(texts(args@)[1] == args@[1]@);
        Some(args[1].clone())
    } else {
        None
    };
    if same_str(w, "-h") || same_str(w, "--help") || same_str(w, "help") {
        return Command::Help;
    }
    if same_str(w, "status") {
        return Command::Status;
    }
    if let Some(m) = method(w) {
        return Command::Call(m);
    }
    if same_str(w, "open") {
        Command::Open(second)
    } else if same_str(w, "seek") {
        Command::Seek(second)
    } else if same_str(w, "volume") {
        Command::Volume(second)
    } else if same_str(w, "shuffle") {
        let on: Option<bool> = match &second {
            Some(t) => if same_str(t.as_str(), "on") {
                Some(true)
            } else if same_str(t.as_str(), "off") {
                Some(false)
            } else {
                None
            },
            None => None,
        };
        Command::Shuffle(on)
    } else if same_str(w, "repeat") {
        match &second {
            Some(t) => Command::Repeat(Some(loop_word(t.as_str()))),
            None => Command::Repeat(None),
        }
    } else if same_str(w, "metadata") {
        Command::Metadata
    } else {
        Command::Unknown(copy_str(w))
    }
}

/// What is opened: a URI as it is; the absolute path of a file, where there is
/// one, as a URI.
pub fn open_target(arg: &str, absolute: Option<&str>) -> (s: String)
    ensures
        s@ == (if contains(arg@, "://"@) {
            arg@
        } else {
            match absolute {
                Some(p) => "file://"@ + p@,
                None => arg@,
            }
        }),
{
    if contains_chars(&chars_of(arg), &chars_of("://")) {
        return copy_str(arg);
    }
    match absolute {
        Some(p) => {
            let mut s = copy_str("file://");
            s.push_str(p);
            s
        },
        None => copy_str(arg),
    }
}

/// Microseconds as minutes and seconds; nothing is before the start.
pub open spec fn clock(us: i64) -> Seq<char> {
    let s = if us > 0 {
        (us / 1_000_000) as nat
    } else {
        0
    };
    dec(s / 60) + ":"@ + dec_padded(s % 60, 2)
}

fn push_clock(out: &mut String, us: i64)
    ensures
        final(out)@ == old(out)@ + clock(us),
{
    let ghost before = out@;
    let s: u64 = if us > 0 {
        us as u64 / 1_000_000
    } else {
        0
    };
    push_dec(out, s / 60);
    out.push_str(":");
    push_dec2(out, s % 60);
    assert(out@ == before + clock(us));
}

/// Microseconds as minutes and seconds.
pub fn mmss(us: i64) -> (s: String)
    ensures
        s@ == clock(us),
{
    let mut s = String::new();
    push_clock(&mut s, us);
    assert(Seq::<char>::empty() + clock(us) == clock(us));
    s
}

/// What is said of what is playing.
pub open spec fn status_lines(
    status: Seq<char>,
    artist: Seq<char>,
    title: Seq<char>,
    album: Seq<char>,
    pos: i64,
    len: i64,
) -> Seq<char> {
    status + ": "@ + artist + " — "@ + title + "\n"@ + (if album.len() > 0 {
        "  "@ + album + "\n"@
    } else {
        ""@
    }) + "  "@ + clock(pos) + " / "@ + clock(len) + "\n"@
}

/// What is said of what is playing.
pub fn status_text(
    status: &str,
    artist: &str,
    title: &str,
    album: &str,
    pos: i64,
    len: i64,
) -> (s: String)
    ensures
        s@ == status_lines(status@, artist@, title@, album@, pos, len),
{
    let mut head = copy_str(status);
    head.push_str(": ");
    head.push_str(artist);
    head.push_str(" — ");
    head.push_str(title);
    head.push_str("\n");
    let mut middle = copy_str("");
    if !album.is_empty() {
        middle = copy_str("  ");
        middle.push_str(album);
        middle.push_str("\n");
    }
    head.push_str(middle.as_str());
    head.push_str("  ");
    push_clock(&mut head, pos);
    head.push_str(" / ");
    push_clock(&mut head, len);
    head.push_str("\n");
    head
}

/// The lines of the first `n` entries.
pub open spec fn entry_lines(entries: Seq<ParamView>, n: nat) -> Seq<char>
    decreases n,
{
    if n == 0 || n > entries.len() {
        Seq::empty()
    } else {
        entry_lines(entries, (n - 1) as nat) + entries[n - 1].name + ": "@ + entries[n - 1].value
            + "\n"@
    }
}

/// A dump of some metadata, by name.
pub fn metadata_text(entries: &[(String, String)]) -> (s: String)
    ensures
        ({
            let sorted = sort_stable(param_views(entries@), name_order());
            s@ == entry_lines(sorted, sorted.len())
        }),
{
    let ghost all = param_views(entries@);
    let mut v: Vec<(String, String)> = Vec::new();
    assert(all.subrange(0, 0) == Seq::<ParamView>::empty());
    assert(param_views(v@) == Seq::<ParamView>::empty());
    for i in 0..entries.len()
        invariant
            all == param_views(entries@),
            param_views(v@) == sort_stable(all.subrange(0, i as int), name_order()),
    {
        assert(all.subrange(0, i + 1).drop_last() == all.subrange(0, i as int));
        insert_param(&mut v, entries[i].0.as_str(), entries[i].1.as_str());
    }
    assert(all.subrange(0, all.len() as int) == all);
    let ghost sorted = param_views(v@);
    let mut s = String::new();
    for i in 0..v.len()
        invariant
            sorted == param_views(v@),
            s@ == entry_lines(sorted, i as nat),
    {
        s.push_str(v[i].0.as_str());
        s.push_str(": ");
        s.push_str(v[i].1.as_str());
        s.push_str("\n");
    }
    s
}

/// Each word calls its own method of the player.
pub proof fn each_word_has_its_method()
    ensures
        method_of("play"@) == Some("Play"@),
        method_of("pause"@) == Some("Pause"@),
        method_of("toggle"@) == Some("PlayPause"@),
        method_of("stop"@) == Some("Stop"@),
        method_of("next"@) == Some("Next"@),
        method_of("prev"@) == Some("Previous"@),
        loop_of("track"@) == "Track"@,
        loop_of("one"@) == "Track"@,
        loop_of("playlist"@) == "Playlist"@,
        loop_of("all"@) == "Playlist"@,
        loop_of("none"@) == "None"@,
{
    reveal_strlit("play");
    reveal_strlit("pause");
    reveal_strlit("toggle");
    reveal_strlit("stop");
    reveal_strlit("next");
    reveal_strlit("prev");
    reveal_strlit("track");
    reveal_strlit("one");
    reveal_strlit("playlist");
    reveal_strlit("all");
    reveal_strlit("none");
    assert("play"@.len() == 4 && "pause"@.len() == 5 && "toggle"@.len() == 6);
    assert("track"@.len() == 5 && "one"@.len() == 3 && "playlist"@.len() == 8);
    assert("play"@[1] == 'l');
    assert("stop"@[0] == 's');
    assert("play"@[0] == 'p');
    assert("next"@[0] == 'n');
    assert("prev"@[1] == 'r');
    assert("prev"@[0] == 'p');
    assert("one"@[0] == 'o');
    assert("all"@[0] == 'a');
}

/// A time is shown as its whole minutes and the seconds that are left of the
/// next; nothing before the start.
pub proof fn a_clock_shows_minutes_and_seconds(us: i64, m: nat, s: nat)
    requires
        s < 60,
        (m * 60 + s) * 1_000_000 <= us < (m * 60 + s + 1) * 1_000_000,
    ensures
        clock(us) == dec(m) + ":"@ + dec_padded(s, 2),
        clock(-1i64) == clock(0),
{
    let t = m * 60 + s;
    assert(us as int / 1_000_000 == t) by (nonlinear_arith)
        requires
            t * 1_000_000 <= us < (t + 1) * 1_000_000,
    ;
    assert(t / 60 == m && t % 60 == s) by (nonlinear_arith)
        requires
            t == m * 60 + s,
            s < 60,
    ;
    if us == 0 {
        assert(t == 0);
    }
}

/// The status shows the artist before the title, the album on a line of its own,
/// and the position before the length.
pub proof fn the_status_shows_what_plays(
    status: Seq<char>,
    artist: Seq<char>,
    title: Seq<char>,
    album: Seq<char>,
    pos: i64,
    len: i64,
)
    requires
        album.len() > 0,
    ensures
        status_lines(status, artist, title, album, pos, len) == status + ": "@ + artist + " — "@
            + title + "\n"@ + ("  "@ + album + "\n"@) + "  "@ + clock(pos) + " / "@ + clock(len)
            + "\n"@,
{
}

/// A URI is opened as it is, a file by its absolute path.
pub proof fn a_file_is_opened_by_its_path(arg: &str, path: &str, s: String, t: String)
    requires
        call_ensures(open_target, (arg, Some(path)), s),
        call_ensures(open_target, (arg, None), t),
    ensures
        contains(arg@, "://"@) ==> s@ == arg@ && t@ == arg@,
        !contains(arg@, "://"@) ==> s@ == "file://"@ + path@ && t@ == arg@,
{
}

/// Without a word the status is asked for; a word that is a method calls it.
pub proof fn a_word_is_a_command(c: Command, w: Seq<char>, m: Seq<char>)
    ensures
        is_command(c, Seq::empty()) ==> c is Status,
        w != "-h"@ && w != "--help"@ && w != "help"@ && w != "status"@ && method_of(w) == Some(m)
            && is_command(c, seq![w]) ==> (c matches Command::Call(t) && t@ == m),
{
}

/// The metadata is shown one entry a line, in the order of the names.
pub proof fn metadata_is_shown_line_by_line(entries: Seq<ParamView>, n: nat)
    requires
        0 < n <= entries.len(),
    ensures
        entry_lines(entries, 0).len() == 0,
        entry_lines(entries, n) == entry_lines(entries, (n - 1) as nat) + entries[n - 1].name + ": "@
            + entries[n - 1].value + "\n"@,
{
}

} // verus!
