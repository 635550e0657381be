//! Command-line arguments.

use vstd::prelude::*;

use crate::audio::device::{DeviceInfo, DeviceKind};
use crate::text::{
    chars_of, contains, contains_chars, copy_str, push_text, same_str, starts_with,
    starts_with_chars, text_opt, texts,
};
use crate::uri::{file_uri, uri_of};

verus! {

/// Command-line overrides on top of the config file.
#[derive(Debug, Clone)]
pub struct Args {
    pub config: Option<String>,
    pub device: Option<String>,
    pub name: Option<String>,
    pub db: Option<String>,
    pub roots: Vec<String>,
    pub no_mpris: bool,
    pub no_upnp: bool,
    /// Do not touch the saved session (tests, one-off runs).
    pub no_session: bool,
    pub headless: bool,
    /// Files or URIs to play right away.
    pub open: Vec<String>,
}

/// The contents of `Args`.
pub struct ArgsView {
    pub config: Option<Seq<char>>,
    pub device: Option<Seq<char>>,
    pub name: Option<Seq<char>>,
    pub db: Option<Seq<char>>,
    pub roots: Seq<Seq<char>>,
    pub no_mpris: bool,
    pub no_upnp: bool,
    pub no_session: bool,
    pub headless: bool,
    pub open: Seq<Seq<char>>,
}

impl View for Args {
    type V = ArgsView;

    open spec fn view(&self) -> ArgsView {
        ArgsView {
            config: text_opt(self.config),
            device: text_opt(self.device),
            name: text_opt(self.name),
            db: text_opt(self.db),
            roots: texts(self.roots@),
            no_mpris: self.no_mpris,
            no_upnp: self.no_upnp,
            no_session: self.no_session,
            headless: self.headless,
            open: texts(self.open@),
        }
    }
}

/// No overrides.
pub open spec fn no_args() -> ArgsView {
    ArgsView {
        config: None,
        device: None,
        name: None,
        db: None,
        roots: Seq::empty(),
        no_mpris: false,
        no_upnp: false,
        no_session: false,
        headless: false,
        open: Seq::empty(),
    }
}

impl Default for Args {
    fn default() -> (a: Args)
        ensures
            a@ == no_args(),
    {
        let a = Args {
            config: None,
            device: None,
            name: None,
            db: None,
            roots: Vec::new(),
            no_mpris: false,
            no_upnp: false,
            no_session: false,
            headless: false,
            open: Vec::new(),
        };
        assert(a@.roots == Seq::<Seq<char>>::empty());
        assert(a@.open == Seq::<Seq<char>>::empty());
        a
    }
}

pub const USAGE: &'static str = "usage: ricercar [FILE|URI]... [--headless] [--config FILE] [--device NAME] [--name NAME] [--db PATH]\n                [--library DIR]... [--no-mpris] [--no-upnp] [--no-session]\n       ricercar --print-devices\n\nSettings live in ~/.config/ricercar/config.toml; flags override them for this run.";

/// How the program is called.
pub fn usage() -> (s: String)
    ensures
        s@ == USAGE@,
{
    copy_str(USAGE)
}

/// Whether `a` is a flag that takes a value.
pub open spec fn takes_value(a: Seq<char>) -> bool {
    a == "--config"@ || a == "--device"@ || a == "--name"@ || a == "--db"@ || a == "--library"@
}

/// Overrides with a flag's value.
pub open spec fn with_value(acc: ArgsView, flag: Seq<char>, value: Seq<char>) -> ArgsView {
    if flag == "--config"@ {
        ArgsView { config: Some(value), ..acc }
    } else if flag == "--device"@ {
        ArgsView { device: Some(value), ..acc }
    } else if flag == "--name"@ {
        ArgsView { name: Some(value), ..acc }
    } else if flag == "--db"@ {
        ArgsView { db: Some(value), ..acc }
    } else {
        ArgsView { roots: acc.roots.push(value), ..acc }
    }
}

/// Overrides with a flag that stands alone, if `a` is one.
pub open spec fn with_switch(acc: ArgsView, a: Seq<char>) -> Option<ArgsView> {
    if a == "--no-mpris"@ {
        Some(ArgsView { no_mpris: true, ..acc })
    } else if a == "--no-upnp"@ {
        Some(ArgsView { no_upnp: true, ..acc })
    } else if a == "--no-session"@ {
        Some(ArgsView { no_session: true, ..acc })
    } else if a == "--headless"@ {
        Some(ArgsView { headless: true, ..acc })
    } else {
        None
    }
}

/// What the arguments from `i` on make of some overrides; or what is said
/// instead: that a value is missing, the usage, or that an argument is unknown.
pub open spec fn parsed(args: Seq<Seq<char>>, i: int, acc: ArgsView) -> Result<
    ArgsView,
    Seq<char>,
>
    decreases args.len() - i,
{
    if i < 0 || i >= args.len() {
        Ok(acc)
    } else {
        let a = args[i];
        if takes_value(a) {
            if i + 1 < args.len() {
                parsed(args, i + 2, with_value(acc, a, args[i + 1]))
            } else {
                Err(a + " needs a value"@)
            }
        } else if with_switch(acc, a) is Some {
            parsed(args, i + 1, with_switch(acc, a)->0)
        } else if a == "-h"@ || a == "--help"@ {
            Err(USAGE@)
        } else if !starts_with(a, "-"@) {
            parsed(args, i + 1, ArgsView { open: acc.open.push(a), ..acc })
        } else {
            Err("unknown argument: "@ + a + "\n"@ + USAGE@)
        }
    }
}

fn is_value_flag(a: &str) -> (r: bool)
    ensures
        r == takes_value(a@),
{
    same_str(a, "--config") || same_str(a, "--device") || same_str(a, "--name") || same_str(
        a,
        "--db",
    ) || same_str(a, "--library")
}

impl Args {
    fn set_value(&mut self, flag: &str, value: String)
        ensures
            final(self)@ == with_value(old(self)@, flag@, value@),
    {
        if same_str(flag, "--config") {
            self.config = Some(value);
        } else if same_str(flag, "--device") {
            self.device = Some(value);
        } else if same_str(flag, "--name") {
            self.name = Some(value);
        } else if same_str(flag, "--db") {
            self.db = Some(value);
        } else {
            push_text(&mut self.roots, value);
        }
    }

    fn set_switch(&mut self, a: &str) -> (known: bool)
        ensures
            match with_switch(old(self)@, a@) {
                Some(next) => known && final(self)@ == next,
                None => !known && *final(self) == *old(self),
            },
    {
        if same_str(a, "--no-mpris") {
            self.no_mpris = true;
        } else if same_str(a, "--no-upnp") {
            self.no_upnp = true;
        } else if same_str(a, "--no-session") {
            self.no_session = true;
        } else if same_str(a, "--headless") {
            self.headless = true;
        } else {
            return false;
        }
        true
    }

    /// The overrides that some arguments stand for, or what to tell the user.
    pub fn parse(args: &[String]) -> (r: Result<Args, String>)
        ensures
            match parsed(texts(args@), 0, no_args()) {
                Ok(want) => r matches Ok(got) && got@ == want,
                Err(text) => r matches Err(got) && got@ == text,
            },
    {
        let ghost all = texts(args@);
        let mut out = Args::default();
        let mut i: usize = 0;
        while i < args.len()
            invariant
                all == texts(args@),
                i <= args@.len(),
                parsed(all, 0, no_args()) == parsed(all, i as int, out@),
            decreases args.len() - i,
        {
            assert(all[i as int] == args@[i as int]@);
            let a = args[i].as_str();
            if is_value_flag(a) {
                if args.len() - i < 2 {
                    let mut text = copy_str(a);
                    text.push_str(" needs a value");
                    return Err(text);
                }
                assert(all[i + 1] == args@[i + 1]@);
                out.set_value(a, args[i + 1].clone());
                i = i + 2;
                continue;
            }
            if !out.set_switch(a) {
                if same_str(a, "-h") || same_str(a, "--help") {
                    return Err(usage());
                }
                if starts_with_chars(&chars_of(a), &chars_of("-")) {
                    let mut text = copy_str("unknown argument: ");
                    text.push_str(a);
                    text.push_str("\n");
                    text.push_str(USAGE);
                    return Err(text);
                }
                push_text(&mut out.open, copy_str(a));
            }
            i = i + 1;
        }
        Ok(out)
    }
}

/// A command-line argument as a playable URI: what is one already, and the
/// file URI of a path, made absolute where that was possible.
pub fn to_uri(arg: &str, absolute: Option<&str>) -> (s: String)
    ensures
        s@ == (if contains(arg@, "://"@) {
            arg@
        } else {
            uri_of(
                match absolute {
                    Some(p) => p@,
                    None => arg@,
                },
            )
        }),
{
    if contains_chars(&chars_of(arg), &chars_of("://")) {
        return copy_str(arg);
    }
    match absolute {
        Some(p) => file_uri(p),
        None => file_uri(arg),
    }
}

/// What to ask of an instance that already runs.
#[derive(Debug)]
pub enum Forward {
    /// To play the first argument.
    OpenUri(String),
    /// To come to the front.
    Raise,
}

/// What to ask of an instance that already runs: one instance owns the DAC.
pub fn forward_to_running(args: &Args) -> (f: Forward)
    ensures
        match f {
            Forward::OpenUri(a) => args.open@.len() > 0 && a == args.open@[0],
            Forward::Raise => args.open@.len() == 0,
        },
{
    if args.open.len() > 0 {
        Forward::OpenUri(args.open[0].clone())
    } else {
        Forward::Raise
    }
}

/// `n` blanks.
pub open spec fn blanks(n: nat) -> Seq<char> {
    Seq::new(n, |i: int| ' ')
}

/// The line of a device: its name in a column, its description, and a mark for
/// hardware.
pub open spec fn device_text(name: Seq<char>, description: Seq<char>, kind: DeviceKind) -> Seq<
    char,
> {
    name + blanks(
        if name.len() < 14 {
            (14 - name.len()) as nat
        } else {
            0
        },
    ) + " "@ + description + (if kind == DeviceKind::Hardware {
        "  [bit-perfect]"@
    } else {
        ""@
    })
}

/// The line of a device.
pub fn device_line(d: &DeviceInfo) -> (s: String)
    ensures
        s@ == device_text(d.name@, d.description@, d.kind),
{
    let mut s = copy_str(d.name.as_str());
    let mut n: usize = chars_of(d.name.as_str()).len();
    let ghost have = n;
    while n < 14
        invariant
            have <= n,
            have == d.name@.len(),
            n > 14 ==> n == have,
            s@ == d.name@ + blanks((n - have) as nat),
        decreases 14 - n,
    {
        s.push(' ');
        assert(blanks((n + 1 - have) as nat) == blanks((n - have) as nat).push(' '));
        n = n + 1;
    }
    s.push_str(" ");
    s.push_str(d.description.as_str());
    if d.kind.is_bit_perfect() && d.kind == DeviceKind::Hardware {
        s.push_str("  [bit-perfect]");
    } else {
        s.push_str("");
    }
    s
}

} // verus!
