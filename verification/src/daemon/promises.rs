//! What the command line, the settings and the scrobbler promise, flag by flag
//! and field by field.

use vstd::prelude::*;

use crate::audio::device::DeviceKind;
use crate::config::Config;
use crate::controller::state::TrackInfo;
use crate::daemon::args::{device_text, no_args, parsed, with_switch, with_value, Args, ArgsView};
use crate::daemon::scrobbler::{after_submission, started_at, ScrobblerView};
use crate::daemon::startup::{
    is_applied, is_to_save, merged_roots, roots_left, same_places, text_to_save, with_new_roots,
    with_pieces, with_root,
};
use crate::online::error::OnlineError;
use crate::online::scrobble::Scrobble;
use crate::paths::lists_path;
use crate::text::{starts_with, texts};

verus! {

/// A track that the scrobbler saw start has that time; of any other it is taken
/// that half of it has just been heard.
pub proof fn a_listen_has_its_start(v: ScrobblerView, info: TrackInfo, at: i64, now: i64)
    ensures
        v.started == Some((info.uri@, at)) ==> started_at(v, info, now) == at,
        v.started is None ==> started_at(v, info, now) == now - info.duration_ms / 2000,
        v.started matches Some((uri, _)) ==> (uri != info.uri@ ==> started_at(v, info, now) == now
            - info.duration_ms / 2000),
{
}

/// Listens that could not be handed over for a passing reason are the first to be
/// tried again; those that were taken, or refused for good, are gone.
pub proof fn only_undelivered_listens_return(
    queue: Seq<Scrobble>,
    batch: Seq<Scrobble>,
    status: u16,
    body: String,
)
    ensures
        after_submission(queue, batch, Ok(())) == queue,
        after_submission(queue, batch, Err(OnlineError::Network(body))) == batch + queue,
        after_submission(queue, batch, Err(OnlineError::Auth(body))) == queue,
        after_submission(queue, batch, Err(OnlineError::Http { status, body })) == (if status == 429
            || status >= 500 {
            batch + queue
        } else {
            queue
        }),
{
}

proof fn lemma_value_flags()
    ensures
        "--config"@ != "--device"@,
        "--config"@ != "--name"@,
        "--config"@ != "--db"@,
        "--config"@ != "--library"@,
        "--device"@ != "--name"@,
        "--device"@ != "--db"@,
        "--device"@ != "--library"@,
        "--name"@ != "--db"@,
        "--name"@ != "--library"@,
        "--db"@ != "--library"@,
{
    reveal_strlit("--config");
    reveal_strlit("--device");
    reveal_strlit("--name");
    reveal_strlit("--db");
    reveal_strlit("--library");
    assert("--config"@[2] == 'c');
    assert("--device"@[2] == 'd');
    assert("--name"@[2] == 'n');
    assert("--db"@[3] == 'b');
    assert("--device"@[3] == 'e');
    assert("--library"@[2] == 'l');
    assert("--db"@[2] == 'd');
}

/// Each flag with a value sets its own setting and no other.
pub proof fn each_flag_sets_its_own(a: ArgsView, v: Seq<char>)
    ensures
        with_value(a, "--config"@, v) == (ArgsView { config: Some(v), ..a }),
        with_value(a, "--device"@, v) == (ArgsView { device: Some(v), ..a }),
        with_value(a, "--name"@, v) == (ArgsView { name: Some(v), ..a }),
        with_value(a, "--db"@, v) == (ArgsView { db: Some(v), ..a }),
        with_value(a, "--library"@, v) == (ArgsView { roots: a.roots.push(v), ..a }),
{
    lemma_value_flags();
}

/// Each switch sets its own setting and no other.
pub proof fn each_switch_sets_its_own(a: ArgsView)
    ensures
        with_switch(a, "--no-mpris"@) == Some(ArgsView { no_mpris: true, ..a }),
        with_switch(a, "--no-upnp"@) == Some(ArgsView { no_upnp: true, ..a }),
        with_switch(a, "--no-session"@) == Some(ArgsView { no_session: true, ..a }),
        with_switch(a, "--headless"@) == Some(ArgsView { headless: true, ..a }),
{
    reveal_strlit("--no-mpris");
    reveal_strlit("--no-upnp");
    reveal_strlit("--no-session");
    reveal_strlit("--headless");
    assert("--no-mpris"@.len() == 10);
    assert("--headless"@.len() == 10);
    assert("--no-mpris"@[2] == 'n');
    assert("--headless"@[2] == 'h');
    assert("--no-upnp"@.len() == 9);
    assert("--no-session"@.len() == 12);
}

/// A flag takes the argument behind it as its value and is an error without one;
/// what does not begin with a dash is something to open.
pub proof fn arguments_are_read_in_turn(args: Seq<Seq<char>>, i: int, acc: ArgsView)
    requires
        0 <= i < args.len(),
    ensures
        args[i] == "--device"@ && i + 1 < args.len() ==> parsed(args, i, acc) == parsed(
            args,
            i + 2,
            ArgsView { device: Some(args[i + 1]), ..acc },
        ),
        args[i] == "--library"@ && i + 1 < args.len() ==> parsed(args, i, acc) == parsed(
            args,
            i + 2,
            ArgsView { roots: acc.roots.push(args[i + 1]), ..acc },
        ),
        args[i] == "--device"@ && i + 1 == args.len() ==> parsed(args, i, acc) == Err::<
            ArgsView,
            Seq<char>,
        >("--device"@ + " needs a value"@),
        args[i].len() == 0 || args[i][0] != '-' ==> parsed(args, i, acc) == parsed(
            args,
            i + 1,
            ArgsView { open: acc.open.push(args[i]), ..acc },
        ),
        parsed(args, args.len() as int, acc) == Ok::<ArgsView, Seq<char>>(acc),
{
    lemma_value_flags();
    reveal_strlit("--config");
    reveal_strlit("--device");
    reveal_strlit("--name");
    reveal_strlit("--db");
    reveal_strlit("--library");
    reveal_strlit("--no-mpris");
    reveal_strlit("--no-upnp");
    reveal_strlit("--no-session");
    reveal_strlit("--headless");
    reveal_strlit("-h");
    reveal_strlit("--help");
    reveal_strlit("-");
    let a = args[i];
    if a.len() == 0 || a[0] != '-' {
        assert(a != "--config"@ && a != "--device"@ && a != "--name"@ && a != "--db"@ && a
            != "--library"@) by {
            assert("--config"@[0] == '-' && "--device"@[0] == '-' && "--name"@[0] == '-'
                && "--db"@[0] == '-' && "--library"@[0] == '-');
        }
        assert(a != "--no-mpris"@ && a != "--no-upnp"@ && a != "--no-session"@ && a != "--headless"@
            && a != "-h"@ && a != "--help"@) by {
            assert("--no-mpris"@[0] == '-' && "--no-upnp"@[0] == '-' && "--no-session"@[0] == '-'
                && "--headless"@[0] == '-' && "-h"@[0] == '-' && "--help"@[0] == '-');
        }
        if starts_with(a, "-"@) {
            assert(a.subrange(0, 1)[0] == a[0]);
            assert("-"@[0] == '-');
        }
    }
}

/// What the command line gives takes the place of the settings for this run, and
/// what it does not give leaves them alone.
pub proof fn flags_override_settings(after: Config, before: Config, args: Args, var: Option<Seq<char>>)
    requires
        is_applied(after, before, args, var),
    ensures
        args.device matches Some(d) ==> after.audio.device@ == d@,
        args.device is None ==> after.audio.device@ == before.audio.device@,
        args.name matches Some(n) ==> after.network.name@ == n@,
        args.name is None ==> after.network.name@ == before.network.name@,
        after.audio.replaygain == before.audio.replaygain,
        after.audio.preamp_db == before.audio.preamp_db,
        after.audio.restore_session == before.audio.restore_session,
        after.network.renderer == before.network.renderer,
        after.network.media_server == before.network.media_server,
        after.library.watch == before.library.watch,
        after.ui.theme == before.ui.theme,
        after.ui.accent@ == before.ui.accent@,
        after.ui.tray == before.ui.tray,
        after.ui.close_to_tray == before.ui.close_to_tray,
        after.ui.notifications == before.ui.notifications,
        after.ui.adaptive_colors == before.ui.adaptive_colors,
        after.scrobble.listenbrainz_token@ == before.scrobble.listenbrainz_token@,
        after.scrobble.lastfm_api_key@ == before.scrobble.lastfm_api_key@,
        after.scrobble.lastfm_secret@ == before.scrobble.lastfm_secret@,
        after.scrobble.lastfm_session@ == before.scrobble.lastfm_session@,
        after.scrobble.lastfm_user@ == before.scrobble.lastfm_user@,
        after.online == before.online,
        args.roots@.len() == 0 && var is None ==> texts(after.library.roots@) == texts(
            before.library.roots@,
        ),
{
}

/// A folder that is not in the list yet is put behind the others.
pub proof fn a_new_root_comes_last(roots: Seq<Seq<char>>, r: Seq<char>)
    ensures
        lists_path(roots, r) ==> with_root(roots, r) == roots,
        !lists_path(roots, r) ==> with_root(roots, r).len() == roots.len() + 1 && with_root(
            roots,
            r,
        ).last() == r && with_root(roots, r).drop_last() == roots,
        merged_roots(roots, seq![r], None) == with_root(roots, r),
{
    assert(seq![r][0] == r);
    reveal_with_fuel(crate::daemon::startup::with_roots, 2);
}

/// What was changed while running is saved, what was only given for the run is
/// not.
pub proof fn changes_are_saved(r: Config, stored: Config, before: Config, after: Config)
    requires
        is_to_save(r, stored, before, after),
    ensures
        before.audio.device@ != after.audio.device@ ==> r.audio.device@ == after.audio.device@,
        before.audio.device@ == after.audio.device@ ==> r.audio.device@ == stored.audio.device@,
        before.network.name@ != after.network.name@ ==> r.network.name@ == after.network.name@,
        before.network.name@ == after.network.name@ ==> r.network.name@ == stored.network.name@,
        r.audio.replaygain == after.audio.replaygain,
        r.audio.preamp_db == after.audio.preamp_db,
        r.audio.restore_session == after.audio.restore_session,
        r.network.renderer == after.network.renderer,
        r.network.media_server == after.network.media_server,
        r.library.watch == after.library.watch,
        r.ui.theme == after.ui.theme,
        r.ui.accent@ == after.ui.accent@,
        r.scrobble.lastfm_session@ == after.scrobble.lastfm_session@,
        r.scrobble.listenbrainz_token@ == after.scrobble.listenbrainz_token@,
        r.online == after.online,
{
}

/// A stored folder is dropped exactly where it was in use and is no more.
pub proof fn a_dropped_root_is_forgotten(
    stored: Seq<Seq<char>>,
    before: Seq<Seq<char>>,
    after: Seq<Seq<char>>,
    n: nat,
)
    requires
        0 < n <= stored.len(),
    ensures
        ({
            let r = stored[n - 1];
            let left = roots_left(stored, before, after, (n - 1) as nat);
            &&& lists_path(before, r) && !lists_path(after, r) ==> roots_left(
                stored,
                before,
                after,
                n,
            ) == left
            &&& !lists_path(before, r) || lists_path(after, r) ==> roots_left(
                stored,
                before,
                after,
                n,
            ) == left.push(r)
        }),
{
}

/// In the list of devices, hardware is marked as bit-perfect and nothing else is.
pub proof fn hardware_is_marked(name: Seq<char>, description: Seq<char>, kind: DeviceKind)
    requires
        name.len() >= 14,
    ensures
        kind == DeviceKind::Hardware ==> device_text(name, description, kind) == name + " "@
            + description + "  [bit-perfect]"@,
        kind != DeviceKind::Hardware ==> device_text(name, description, kind) == name + " "@
            + description,
{
    reveal_strlit("");
    assert(""@ == Seq::<char>::empty());
    assert(name + crate::daemon::args::blanks(0) == name);
    assert(name + " "@ + description + ""@ == name + " "@ + description);
}

/// Only a text that differs from what was in use is saved.
pub proof fn an_unchanged_text_stays(stored: Seq<char>, before: Seq<char>, after: Seq<char>)
    ensures
        before == after ==> text_to_save(stored, before, after) == stored,
        before != after ==> text_to_save(stored, before, after) == after,
{
}

/// Folders of the environment are added like those of the command line; an empty
/// one is none.
pub proof fn folders_are_added_in_turn(roots: Seq<Seq<char>>, more: Seq<Seq<char>>, n: nat)
    requires
        0 < n <= more.len(),
    ensures
        with_pieces(roots, more, 0) == roots,
        more[n - 1].len() == 0 ==> with_pieces(roots, more, n) == with_pieces(
            roots,
            more,
            (n - 1) as nat,
        ),
        more[n - 1].len() > 0 ==> with_pieces(roots, more, n) == with_root(
            with_pieces(roots, more, (n - 1) as nat),
            more[n - 1],
        ),
{
}

/// Of the folders in use those are saved that were not in use before.
pub proof fn new_folders_are_saved(
    left: Seq<Seq<char>>,
    before: Seq<Seq<char>>,
    after: Seq<Seq<char>>,
    n: nat,
)
    requires
        0 < n <= after.len(),
    ensures
        with_new_roots(left, before, after, 0) == left,
        lists_path(before, after[n - 1]) ==> with_new_roots(left, before, after, n)
            == with_new_roots(left, before, after, (n - 1) as nat),
        !lists_path(before, after[n - 1]) ==> with_new_roots(left, before, after, n) == with_root(
            with_new_roots(left, before, after, (n - 1) as nat),
            after[n - 1],
        ),
{
}

/// Lists of folders are the same where they name the same places in the same
/// order.
pub proof fn the_same_folders_in_order(a: Seq<Seq<char>>, b: Seq<Seq<char>>, i: int)
    ensures
        a.len() != b.len() ==> !same_places(a, b),
        same_places(a, b) && 0 <= i < a.len() ==> crate::paths::same_place(a[i], b[i]),
        a.len() == b.len() && (forall|k: int|
            0 <= k < a.len() ==> crate::paths::same_place(#[trigger] a[k], b[k])) ==> same_places(
            a,
            b,
        ),
{
}

/// Without arguments nothing is overridden and nothing switched off.
pub proof fn no_arguments_change_nothing()
    ensures
        no_args().config is None && no_args().device is None && no_args().name is None
            && no_args().db is None,
        no_args().roots.len() == 0 && no_args().open.len() == 0,
        !no_args().no_mpris && !no_args().no_upnp && !no_args().no_session && !no_args().headless,
{
}

/// What begins with a dash and is no flag is an error that shows the usage.
pub proof fn unknown_flags_are_errors(args: Seq<Seq<char>>, i: int, acc: ArgsView)
    requires
        0 <= i < args.len(),
        args[i].len() == 2,
        args[i][0] == '-',
    ensures
        args[i][1] == 'h' ==> parsed(args, i, acc) == Err::<ArgsView, Seq<char>>(
            crate::daemon::args::USAGE@,
        ),
        args[i][1] != 'h' ==> parsed(args, i, acc) == Err::<ArgsView, Seq<char>>(
            "unknown argument: "@ + args[i] + "\n"@ + crate::daemon::args::USAGE@,
        ),
{
    reveal_strlit("--config");
    reveal_strlit("--device");
    reveal_strlit("--name");
    reveal_strlit("--db");
    reveal_strlit("--library");
    reveal_strlit("--no-mpris");
    reveal_strlit("--no-upnp");
    reveal_strlit("--no-session");
    reveal_strlit("--headless");
    reveal_strlit("-h");
    reveal_strlit("--help");
    reveal_strlit("-");
    let a = args[i];
    assert("--config"@.len() == 8 && "--device"@.len() == 8 && "--name"@.len() == 6
        && "--db"@.len() == 4 && "--library"@.len() == 9);
    assert("--no-mpris"@.len() == 10 && "--no-upnp"@.len() == 9 && "--no-session"@.len() == 12
        && "--headless"@.len() == 10 && "--help"@.len() == 6);
    assert("-h"@.len() == 2 && "-h"@[0] == '-' && "-h"@[1] == 'h');
    if a[1] == 'h' {
        assert(a == "-h"@);
    }
    assert(a.subrange(0, 1) == "-"@) by {
        assert(a.subrange(0, 1)[0] == '-');
        assert("-"@.len() == 1 && "-"@[0] == '-');
    }
}

/// Folders of the command line are added one after the other.
pub proof fn folders_of_the_command_line_are_added(
    roots: Seq<Seq<char>>,
    more: Seq<Seq<char>>,
    n: nat,
)
    requires
        0 < n <= more.len(),
    ensures
        crate::daemon::startup::with_roots(roots, more, 0) == roots,
        crate::daemon::startup::with_roots(roots, more, n) == with_root(
            crate::daemon::startup::with_roots(roots, more, (n - 1) as nat),
            more[n - 1],
        ),
{
}

/// A second start hands its first file to the one that runs, or raises it.
pub proof fn a_second_start_hands_over(args: Args, f: crate::daemon::args::Forward)
    requires
        call_ensures(crate::daemon::args::forward_to_running, (&args,), f),
    ensures
        args.open@.len() > 0 ==> f == crate::daemon::args::Forward::OpenUri(args.open@[0]),
        args.open@.len() == 0 ==> f is Raise,
{
}

/// The watcher runs where it is asked for and there is something to watch.
pub proof fn the_watcher_has_something_to_watch(l: crate::config::LibraryConfig, r: bool)
    requires
        call_ensures(crate::daemon::startup::starts_watcher, (&l,), r),
    ensures
        r <==> l.watch && l.roots@.len() > 0,
{
}

/// The folders that are saved are those that stayed and those that are new.
pub proof fn saved_folders_are_those_in_use(r: Config, stored: Config, before: Config, after: Config)
    requires
        is_to_save(r, stored, before, after),
    ensures
        texts(r.library.roots@) == with_new_roots(
            roots_left(
                texts(stored.library.roots@),
                texts(before.library.roots@),
                texts(after.library.roots@),
                stored.library.roots@.len(),
            ),
            texts(before.library.roots@),
            texts(after.library.roots@),
            after.library.roots@.len(),
        ),
{
}

} // verus!
