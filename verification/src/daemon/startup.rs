//! How arguments and environment change the settings, and what a change of the
//! settings asks for.

use vstd::prelude::*;

use crate::config::{
    same_config, same_scrobble, same_ui, str_opt, AudioConfig, Config, LibraryConfig, NetworkConfig,
};
use crate::daemon::args::Args;
use crate::paths::{
    a_slash_behind_leads_nowhere, is_listed, join_path, joined, lists_path, same_path, same_place,
};
use crate::text::{
    chars_of, copy_str, push_text, same_str, split, split_on, string_of, text_opt, texts,
};

verus! {

/// Roots with one more, unless it is there. Roots are compared as paths.
pub open spec fn with_root(roots: Seq<Seq<char>>, r: Seq<char>) -> Seq<Seq<char>> {
    if lists_path(roots, r) {
        roots
    } else {
        roots.push(r)
    }
}

/// Roots with the first `n` of some more.
pub open spec fn with_roots(roots: Seq<Seq<char>>, more: Seq<Seq<char>>, n: nat) -> Seq<Seq<char>>
    decreases n,
{
    if n == 0 || n > more.len() {
        roots
    } else {
        with_root(with_roots(roots, more, (n - 1) as nat), more[n - 1])
    }
}

/// Roots with the first `n` of some pieces; empty ones are left out.
pub open spec fn with_pieces(roots: Seq<Seq<char>>, more: Seq<Seq<char>>, n: nat) -> Seq<Seq<char>>
    decreases n,
{
    if n == 0 || n > more.len() {
        roots
    } else if more[n - 1].len() == 0 {
        with_pieces(roots, more, (n - 1) as nat)
    } else {
        with_root(with_pieces(roots, more, (n - 1) as nat), more[n - 1])
    }
}

/// The library's roots: those of the settings, of the arguments, and of a
/// variable that separates them by colons. None is there twice that was not.
pub open spec fn merged_roots(
    roots: Seq<Seq<char>>,
    args: Seq<Seq<char>>,
    var: Option<Seq<char>>,
) -> Seq<Seq<char>> {
    let given = with_roots(roots, args, args.len());
    match var {
        Some(v) => with_pieces(given, split(v, ':'), split(v, ':').len()),
        None => given,
    }
}

/// Adds a directory, unless it is listed already.
pub fn add_root(roots: &mut Vec<String>, r: &str)
    ensures
        texts(final(roots)@) == with_root(texts(old(roots)@), r@),
{
    if !is_listed(roots, r) {
        push_text(roots, copy_str(r));
    }
}

/// Applies the arguments and the `RICERCAR_LIBRARY` variable to the settings.
pub fn apply(cfg: &mut Config, args: &Args, library_var: Option<&str>)
    ensures
        is_applied(*final(cfg), *old(cfg), *args, str_opt(library_var)),
{
    if let Some(d) = &args.device {
        cfg.audio.device = copy_str(d.as_str());
    }
    if let Some(n) = &args.name {
        cfg.network.name = copy_str(n.as_str());
    }
    apply_roots(&mut cfg.library.roots, args, library_var);
}

fn apply_roots(roots: &mut Vec<String>, args: &Args, library_var: Option<&str>)
    ensures
        texts(final(roots)@) == merged_roots(
            texts(old(roots)@),
            texts(args.roots@),
            str_opt(library_var),
        ),
{
    let ghost base = texts(roots@);
    let ghost more = texts(args.roots@);
    for i in 0..args.roots.len()
        invariant
            more == texts(args.roots@),
            texts(roots@) == with_roots(base, more, i as nat),
    {
        assert(more[i as int] == args.roots@[i as int]@);
        add_root(roots, args.roots[i].as_str());
    }
    if let Some(v) = library_var {
        let ghost given = texts(roots@);
        let ghost all = split(v@, ':');
        let pieces = split_on(&chars_of(v), ':');
        for i in 0..pieces.len()
            invariant
                pieces@.len() == all.len(),
                forall|k: int| 0 <= k < pieces@.len() ==> #[trigger] pieces@[k]@ == all[k],
                texts(roots@) == with_pieces(given, all, i as nat),
        {
            if pieces[i].len() > 0 {
                add_root(roots, string_of(pieces[i].as_slice()).as_str());
            }
        }
    }
}

/// Whatever the arguments and the variable hold, the roots of the settings stay,
/// first and in their order.
pub proof fn configured_roots_stay(
    roots: Seq<Seq<char>>,
    args: Seq<Seq<char>>,
    var: Option<Seq<char>>,
)
    ensures
        roots.is_prefix_of(merged_roots(roots, args, var)),
{
    lemma_roots_stay(roots, args, args.len());
    if let Some(v) = var {
        let given = with_roots(roots, args, args.len());
        lemma_pieces_stay(given, split(v, ':'), split(v, ':').len());
    }
}

proof fn lemma_roots_stay(roots: Seq<Seq<char>>, more: Seq<Seq<char>>, n: nat)
    ensures
        roots.is_prefix_of(with_roots(roots, more, n)),
    decreases n,
{
    if n > 0 && n <= more.len() {
        lemma_roots_stay(roots, more, (n - 1) as nat);
    }
}

proof fn lemma_pieces_stay(roots: Seq<Seq<char>>, more: Seq<Seq<char>>, n: nat)
    ensures
        roots.is_prefix_of(with_pieces(roots, more, n)),
    decreases n,
{
    if n > 0 && n <= more.len() {
        lemma_pieces_stay(roots, more, (n - 1) as nat);
    }
}

/// Where the settings are.
pub fn config_path(args: &Args, default_path: &str) -> (s: String)
    ensures
        s@ == (match args.config {
            Some(p) => p@,
            None => default_path@,
        }),
{
    match &args.config {
        Some(p) => copy_str(p.as_str()),
        None => copy_str(default_path),
    }
}

/// What is started, and with what.
#[derive(Debug)]
pub struct Startup {
    /// The settings of this run.
    pub config: Config,
    /// What is written to the file of the settings: detected defaults are, so
    /// that they can be seen, but not to a file that an argument names, and
    /// nothing that holds for this run only.
    pub save: Option<Config>,
    pub db: String,
    /// Where the session is saved; nowhere where it is not to be touched.
    pub session: Option<String>,
    pub renderer: bool,
    pub mpris: bool,
    /// Watch the roots after the first scan.
    pub watch: bool,
}

/// Whether the settings are those that were read, with the overrides applied.
pub open spec fn is_applied(
    after: Config,
    before: Config,
    args: Args,
    library_var: Option<Seq<char>>,
) -> bool {
    &&& after.audio.device@ == (match args.device {
        Some(d) => d@,
        None => before.audio.device@,
    })
    &&& after.audio.replaygain == before.audio.replaygain
    &&& after.audio.preamp_db == before.audio.preamp_db
    &&& after.audio.restore_session == before.audio.restore_session
    &&& after.network.name@ == (match args.name {
        Some(n) => n@,
        None => before.network.name@,
    })
    &&& after.network.renderer == before.network.renderer
    &&& after.network.media_server == before.network.media_server
    &&& texts(after.library.roots@) == merged_roots(
        texts(before.library.roots@),
        texts(args.roots@),
        library_var,
    )
    &&& after.library.watch == before.library.watch
    &&& same_ui(after.ui, before.ui)
    &&& same_scrobble(after.scrobble, before.scrobble)
    &&& after.online == before.online
}

/// Plans the start: applies the arguments and the environment to the settings
/// that were read, and decides what is started.
pub fn startup(
    args: &Args,
    config: Config,
    first_run: bool,
    library_var: Option<&str>,
    data_dir: &str,
) -> (s: Startup)
    ensures
        is_applied(s.config, config, *args, str_opt(library_var)),
        s.save == (if first_run && args.config is None {
            Some(config)
        } else {
            None
        }),
        s.db@ == (match args.db {
            Some(p) => p@,
            None => joined(data_dir@, "library.db"@),
        }),
        text_opt(s.session) == (if args.no_session {
            None
        } else {
            Some(joined(data_dir@, "session.json"@))
        }),
        s.renderer == (s.config.network.renderer && !args.no_upnp),
        s.mpris == !args.no_mpris,
        s.watch == (s.config.library.watch && s.config.library.roots@.len() > 0),
{
    let mut current = config.clone();
    apply(&mut current, args, library_var);
    let save = if first_run && args.config.is_none() {
        Some(config)
    } else {
        None
    };
    let db = match &args.db {
        Some(p) => copy_str(p.as_str()),
        None => join_path(data_dir, "library.db"),
    };
    let session = if args.no_session {
        None
    } else {
        Some(join_path(data_dir, "session.json"))
    };
    let renderer = current.network.renderer && !args.no_upnp;
    let watch = starts_watcher(&current.library);
    Startup { config: current, save, db, session, renderer, mpris: !args.no_mpris, watch }
}

/// Whether the roots are watched after a scan.
pub fn starts_watcher(library: &LibraryConfig) -> (r: bool)
    ensures
        r == (library.watch && library.roots@.len() > 0),
{
    library.watch && library.roots.len() > 0
}

/// The first `n` roots of the file, without those that were taken out.
pub open spec fn roots_left(
    stored: Seq<Seq<char>>,
    before: Seq<Seq<char>>,
    after: Seq<Seq<char>>,
    n: nat,
) -> Seq<Seq<char>>
    decreases n,
{
    if n == 0 || n > stored.len() {
        Seq::empty()
    } else {
        let left = roots_left(stored, before, after, (n - 1) as nat);
        if lists_path(before, stored[n - 1]) && !lists_path(after, stored[n - 1]) {
            left
        } else {
            left.push(stored[n - 1])
        }
    }
}

/// Roots with those that were put in among the first `n`.
pub open spec fn with_new_roots(
    left: Seq<Seq<char>>,
    before: Seq<Seq<char>>,
    after: Seq<Seq<char>>,
    n: nat,
) -> Seq<Seq<char>>
    decreases n,
{
    if n == 0 || n > after.len() {
        left
    } else if lists_path(before, after[n - 1]) {
        with_new_roots(left, before, after, (n - 1) as nat)
    } else {
        with_root(with_new_roots(left, before, after, (n - 1) as nat), after[n - 1])
    }
}

/// The roots to write: those of the file, changed as those of this run were.
pub open spec fn roots_to_save(
    stored: Seq<Seq<char>>,
    before: Seq<Seq<char>>,
    after: Seq<Seq<char>>,
) -> Seq<Seq<char>> {
    with_new_roots(roots_left(stored, before, after, stored.len()), before, after, after.len())
}

/// A text to write: that of the file, unless that of this run was changed.
pub open spec fn text_to_save(
    stored: Seq<char>,
    before: Seq<char>,
    after: Seq<char>,
) -> Seq<char> {
    if before == after {
        stored
    } else {
        after
    }
}

/// What is written to the file after a change: the settings as changed, but
/// for what arguments and environment set for this run and the change left.
pub open spec fn is_to_save(r: Config, stored: Config, before: Config, after: Config) -> bool {
    &&& r.audio.device@ == text_to_save(
        stored.audio.device@,
        before.audio.device@,
        after.audio.device@,
    )
    &&& r.audio.replaygain == after.audio.replaygain
    &&& r.audio.preamp_db == after.audio.preamp_db
    &&& r.audio.restore_session == after.audio.restore_session
    &&& r.network.name@ == text_to_save(
        stored.network.name@,
        before.network.name@,
        after.network.name@,
    )
    &&& r.network.renderer == after.network.renderer
    &&& r.network.media_server == after.network.media_server
    &&& texts(r.library.roots@) == roots_to_save(
        texts(stored.library.roots@),
        texts(before.library.roots@),
        texts(after.library.roots@),
    )
    &&& r.library.watch == after.library.watch
    &&& same_ui(r.ui, after.ui)
    &&& same_scrobble(r.scrobble, after.scrobble)
    &&& r.online == after.online
}

fn choose_text(stored: &str, before: &str, after: &str) -> (r: String)
    ensures
        r@ == text_to_save(stored@, before@, after@),
{
    if same_str(before, after) {
        copy_str(stored)
    } else {
        copy_str(after)
    }
}

fn choose_roots(stored: &Vec<String>, before: &Vec<String>, after: &Vec<String>) -> (r: Vec<String>)
    ensures
        texts(r@) == roots_to_save(texts(stored@), texts(before@), texts(after@)),
{
    let ghost s = texts(stored@);
    let ghost b = texts(before@);
    let ghost a = texts(after@);
    let mut r: Vec<String> = Vec::new();
    assert(texts(r@) == Seq::<Seq<char>>::empty());
    for i in 0..stored.len()
        invariant
            s == texts(stored@),
            b == texts(before@),
            a == texts(after@),
            texts(r@) == roots_left(s, b, a, i as nat),
    {
        let root = stored[i].as_str();
        assert(s[i as int] == root@);
        if !is_listed(before, root) || is_listed(after, root) {
            push_text(&mut r, copy_str(root));
        }
    }
    let ghost left = texts(r@);
    for i in 0..after.len()
        invariant
            b == texts(before@),
            a == texts(after@),
            texts(r@) == with_new_roots(left, b, a, i as nat),
    {
        let root = after[i].as_str();
        assert(a[i as int] == root@);
        if !is_listed(before, root) {
            add_root(&mut r, root);
        }
    }
    r
}

/// What to write to the file when the settings of this run have changed from
/// `before` to `after`.
pub fn to_save(stored: &Config, before: &Config, after: &Config) -> (r: Config)
    ensures
        is_to_save(r, *stored, *before, *after),
{
    Config {
        audio: AudioConfig {
            device: choose_text(
                stored.audio.device.as_str(),
                before.audio.device.as_str(),
                after.audio.device.as_str(),
            ),
            replaygain: after.audio.replaygain,
            preamp_db: after.audio.preamp_db,
            restore_session: after.audio.restore_session,
        },
        library: LibraryConfig {
            roots: choose_roots(
                &stored.library.roots,
                &before.library.roots,
                &after.library.roots,
            ),
            watch: after.library.watch,
        },
        network: NetworkConfig {
            name: choose_text(
                stored.network.name.as_str(),
                before.network.name.as_str(),
                after.network.name.as_str(),
            ),
            renderer: after.network.renderer,
            media_server: after.network.media_server,
        },
        ui: after.ui.clone(),
        scrobble: after.scrobble.clone(),
        online: after.online,
    }
}

/// Arguments and environment hold for one run: when nothing was changed since
/// they were applied, what is written is what the file held.
pub proof fn overrides_are_not_saved(
    stored: Config,
    current: Config,
    args: Args,
    library_var: Option<Seq<char>>,
    saved: Config,
)
    requires
        is_applied(current, stored, args, library_var),
        is_to_save(saved, stored, current, current),
    ensures
        same_config(saved, stored),
{
    let roots = texts(current.library.roots@);
    let kept = texts(stored.library.roots@);
    lemma_none_left_out(kept, roots, kept.len());
    assert(kept.subrange(0, kept.len() as int) == kept);
    lemma_none_new(kept, roots, roots.len());
}

proof fn lemma_none_left_out(stored: Seq<Seq<char>>, roots: Seq<Seq<char>>, n: nat)
    requires
        n <= stored.len(),
    ensures
        roots_left(stored, roots, roots, n) == stored.subrange(0, n as int),
    decreases n,
{
    if n > 0 {
        lemma_none_left_out(stored, roots, (n - 1) as nat);
        assert(stored.subrange(0, n as int) == stored.subrange(0, n - 1).push(stored[n - 1]));
    }
}

proof fn lemma_none_new(left: Seq<Seq<char>>, roots: Seq<Seq<char>>, n: nat)
    requires
        n <= roots.len(),
    ensures
        with_new_roots(left, roots, roots, n) == left,
    decreases n,
{
    if n > 0 {
        lemma_none_new(left, roots, (n - 1) as nat);
        assert(same_place(roots[n - 1], roots[n - 1]));
    }
}

/// What a change of the settings asks for.
#[derive(Debug, Clone, Copy, PartialEq, Eq, Structural)]
pub struct ConfigChanges {
    /// Switch to the device of the settings.
    pub set_device: bool,
    /// Forget what lies outside the roots, and scan them again.
    pub rescan: bool,
}

/// What to do after a change of the settings, beyond saving them.
pub fn update_config(before: &LibraryConfig, after: &Config, device: &str) -> (r: ConfigChanges)
    ensures
        r.set_device == (after.audio.device@ != device@),
        r.rescan == (!same_places(texts(before.roots@), texts(after.library.roots@))
            || before.watch != after.library.watch),
{
    let set_device = !same_str(after.audio.device.as_str(), device);
    let rescan = before.watch != after.library.watch || !same_roots(
        &before.roots,
        &after.library.roots,
    );
    ConfigChanges { set_device, rescan }
}

/// Whether two lists hold the same paths.
pub open spec fn same_places(a: Seq<Seq<char>>, b: Seq<Seq<char>>) -> bool {
    a.len() == b.len() && forall|i: int|
        #![trigger a[i], b[i]]
        0 <= i < a.len() ==> same_place(a[i], b[i])
}

fn same_roots(a: &Vec<String>, b: &Vec<String>) -> (r: bool)
    ensures
        r == same_places(texts(a@), texts(b@)),
{
    if a.len() != b.len() {
        return false;
    }
    for i in 0..a.len()
        invariant
            a@.len() == b@.len(),
            forall|j: int|
                0 <= j < i ==> same_place(#[trigger] texts(a@)[j], #[trigger] texts(b@)[j]),
    {
        if !same_path(a[i].as_str(), b[i].as_str()) {
            assert(!same_place(texts(a@)[i as int], texts(b@)[i as int]));
            return false;
        }
    }
    true
}

/// A directory that is listed is not listed again with a slash behind it, and
/// no other root is touched.
pub proof fn a_root_is_listed_once(roots: Seq<Seq<char>>, r: Seq<char>)
    requires
        r.len() > 0,
    ensures
        with_root(with_root(roots, r), r) == with_root(roots, r),
        with_root(with_root(roots, r), r.push('/')) == with_root(roots, r),
{
    let with = with_root(roots, r);
    a_slash_behind_leads_nowhere(r);
    if lists_path(roots, r) {
        let i = choose|i: int| 0 <= i < roots.len() && same_place(#[trigger] roots[i], r);
        assert(same_place(with[i], r.push('/')));
    } else {
        assert(with[roots.len() as int] == r);
        assert(same_place(with[roots.len() as int], r));
        assert(same_place(with[roots.len() as int], r.push('/')));
    }
}

} // verus!
