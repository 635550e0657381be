//! Playback devices: the lists the kernel and ALSA give, and what a device accepts.

use std::collections::BTreeMap;
use std::ops::RangeInclusive;

use vstd::prelude::*;
use vstd::std_specs::btree::*;

use crate::audio::fmt::Container;
use crate::order::{insert_sorted, sort_stable};
use crate::text::{
    chars_of, concat2, concat3, contains, contains_chars, copy_opt, copy_str, cut, cut_once, dec,
    lines, lines_of, parse_unsigned, push_dec, read_unsigned, same_str, starts_with,
    starts_with_chars, string_of, text_opt, trim, trim_of, trim_start, trim_start_of,
};

verus! {

/// Playback devices advertised to the user.
#[derive(Debug)]
pub struct DeviceInfo {
    /// ALSA device name, or `null` / `file:<path>`
    pub name: String,
    pub description: String,
    pub kind: DeviceKind,
    /// Long name of the sound card (from `/proc/asound/cards`), for `hw:`.
    pub card_name: Option<String>,
}

/// The contents of a `DeviceInfo`.
pub struct DeviceView {
    pub name: Seq<char>,
    pub description: Seq<char>,
    pub kind: DeviceKind,
    pub card_name: Option<Seq<char>>,
}

impl View for DeviceInfo {
    type V = DeviceView;

    open spec fn view(&self) -> DeviceView {
        DeviceView {
            name: self.name@,
            description: self.description@,
            kind: self.kind,
            card_name: text_opt(self.card_name),
        }
    }
}

impl Clone for DeviceInfo {
    fn clone(&self) -> (r: DeviceInfo)
        ensures
            r@ == self@,
    {
        DeviceInfo {
            name: self.name.clone(),
            description: self.description.clone(),
            kind: self.kind,
            card_name: copy_opt(&self.card_name),
        }
    }
}

#[derive(Debug, Clone, Copy, PartialEq, Eq, Structural)]
pub enum DeviceKind {
    /// `hw:` card — direct, exclusive, no mixer in the path.
    Hardware,
    /// Any other ALSA name (plughw, default, pipewire's alsa bridge...).
    Virtual,
    /// Sink discarding data (testing / --device null).
    Null,
    /// Sink writing raw container bytes to a file (testing / bit-exact checks).
    File,
}

impl DeviceKind {
    /// True when we can guarantee no resampling or mixing happens on our side
    /// and the kernel hands samples to the codec untouched.
    pub fn is_bit_perfect(self) -> (r: bool)
        ensures
            r == (self != DeviceKind::Virtual),
    {
        match self {
            DeviceKind::Hardware | DeviceKind::Null | DeviceKind::File => true,
            DeviceKind::Virtual => false,
        }
    }
}

/// The kind of device that a name stands for.
pub open spec fn kind_of(name: Seq<char>) -> DeviceKind {
    if name == "null"@ {
        DeviceKind::Null
    } else if starts_with(name, "file:"@) {
        DeviceKind::File
    } else if starts_with(name, "hw:"@) {
        DeviceKind::Hardware
    } else {
        DeviceKind::Virtual
    }
}

pub fn classify(name: &str) -> (k: DeviceKind)
    ensures
        k == kind_of(name@),
{
    let n = chars_of(name);
    if same_str(name, "null") {
        DeviceKind::Null
    } else if starts_with_chars(&n, &chars_of("file:")) {
        DeviceKind::File
    } else if starts_with_chars(&n, &chars_of("hw:")) {
        DeviceKind::Hardware
    } else {
        DeviceKind::Virtual
    }
}

// ---------------------------------------------------------------------------
// /proc/asound
// ---------------------------------------------------------------------------

/// The card index and the short name that a line of `/proc/asound/cards` gives.
pub open spec fn card_head(line: Seq<char>) -> Option<(u32, Seq<char>)> {
    match cut_once(trim_start(line), " "@) {
        None => None,
        Some((idx, rest)) => match read_unsigned(idx, u32::MAX as nat) {
            None => None,
            Some(n) => match cut_once(rest, "]: "@) {
                None => None,
                Some((_, head)) => Some(
                    (
                        n as u32,
                        trim(
                            match cut_once(head, " - "@) {
                                Some((_, s)) => s,
                                None => head,
                            },
                        ),
                    ),
                ),
            },
        },
    }
}

/// `m` with the cards of the lines from `i` on. The line behind a card's own
/// gives its long name when it starts with two spaces.
pub open spec fn cards_from(
    lines: Seq<Seq<char>>,
    i: int,
    m: Map<u32, (Seq<char>, Seq<char>)>,
) -> Map<u32, (Seq<char>, Seq<char>)>
    decreases lines.len() - i,
{
    if i < 0 || i >= lines.len() {
        m
    } else {
        match card_head(lines[i]) {
            None => cards_from(lines, i + 1, m),
            Some((idx, short)) => if i + 1 < lines.len() && starts_with(lines[i + 1], "  "@) {
                cards_from(lines, i + 2, m.insert(idx, (short, trim(lines[i + 1]))))
            } else {
                cards_from(lines, i + 1, m.insert(idx, (short, short)))
            },
        }
    }
}

/// Card index to short and long name, as `/proc/asound/cards` gives them.
pub open spec fn cards(text: Seq<char>) -> Map<u32, (Seq<char>, Seq<char>)> {
    cards_from(lines(text), 0, Map::empty())
}

/// The texts of a map from card index to names.
pub open spec fn names_view(m: Map<u32, (String, String)>) -> Map<u32, (Seq<char>, Seq<char>)> {
    m.map_values(|v: (String, String)| (v.0@, v.1@))
}

fn parse_card_head(line: &[char]) -> (r: Option<(u32, String)>)
    ensures
        match card_head(line@) {
            Some(want) => r matches Some(got) && got.0 == want.0 && got.1@ == want.1,
            None => r is None,
        },
{
    let t = trim_start_of(line);
    let (idx, rest) = match cut(t, " ") {
        Some(parts) => parts,
        None => {
            return None;
        },
    };
    let n = match parse_unsigned(idx, u32::MAX as u64) {
        Some(n) => n,
        None => {
            return None;
        },
    };
    let (_, head) = match cut(rest, "]: ") {
        Some(parts) => parts,
        None => {
            return None;
        },
    };
    let short = match cut(head, " - ") {
        Some((_, s)) => s,
        None => head,
    };
    Some((n as u32, string_of(trim_of(short))))
}

/// Card index -> (short name, long name), from `/proc/asound/cards`:
///
/// ```text
///  1 [K7             ]: USB-Audio - FiiO K7
///                       FiiO FiiO K7 at usb-0000:00:14.0-2, high speed
/// ```
pub fn parse_cards(text: &str) -> (out: BTreeMap<u32, (String, String)>)
    ensures
        names_view(out@) == cards(text@),
{
    broadcast use vstd::std_specs::btree::group_btree_axioms;

    let all = chars_of(text);
    let ls = lines_of(&all);
    let ghost want = lines(text@);
    let two = chars_of("  ");
    let mut out: BTreeMap<u32, (String, String)> = BTreeMap::new();
    assert(names_view(out@) == Map::<u32, (Seq<char>, Seq<char>)>::empty());
    let mut i: usize = 0;
    while i < ls.len()
        invariant
            i <= ls.len(),
            want == lines(text@),
            ls.len() == want.len(),
            two@ == "  "@,
            forall|j: int| 0 <= j < ls.len() ==> #[trigger] ls@[j]@ == want[j],
            cards(text@) == cards_from(want, i as int, names_view(out@)),
        decreases ls.len() - i,
    {
        assert(ls@[i as int]@ == want[i as int]);
        match parse_card_head(&ls[i]) {
            None => {
                i = i + 1;
            },
            Some((idx, short)) => {
                let ghost before = out@;
                let ghost s = short@;
                if i + 1 < ls.len() && starts_with_chars(&ls[i + 1], &two) {
                    assert(ls@[i + 1]@ == want[i + 1]);
                    let long = string_of(trim_of(&ls[i + 1]));
                    let ghost l = long@;
                    out.insert(idx, (short, long));
                    assert(names_view(out@) == names_view(before).insert(idx, (s, l)));
                    i = i + 2;
                } else {
                    if i + 1 < ls.len() {
                        assert(ls@[i + 1]@ == want[i + 1]);
                    }
                    let long = short.clone();
                    out.insert(idx, (short, long));
                    assert(names_view(out@) == names_view(before).insert(idx, (s, s)));
                    i = i + 1;
                }
            },
        }
    }
    out
}

/// The playback PCM that a line of `/proc/asound/pcm` declares.
pub open spec fn pcm_line(line: Seq<char>) -> Option<(u32, u32, Seq<char>)> {
    match cut_once(line, ": "@) {
        None => None,
        Some((ids, rest)) => if !contains(rest, "playback"@) {
            None
        } else {
            match cut_once(ids, "-"@) {
                None => None,
                Some((card, dev)) => match (
                    read_unsigned(trim(card), u32::MAX as nat),
                    read_unsigned(trim(dev), u32::MAX as nat),
                ) {
                    (Some(c), Some(d)) => Some(
                        (
                            c as u32,
                            d as u32,
                            trim(
                                match cut_once(rest, " : "@) {
                                    Some((first, _)) => first,
                                    None => rest,
                                },
                            ),
                        ),
                    ),
                    _ => None,
                },
            }
        },
    }
}

/// The playback PCMs of the first `n` lines, in the order of the lines.
pub open spec fn pcm_lines(lines: Seq<Seq<char>>, n: nat) -> Seq<(u32, u32, Seq<char>)>
    decreases n,
{
    if n == 0 || n > lines.len() {
        Seq::empty()
    } else {
        let before = pcm_lines(lines, (n - 1) as nat);
        match pcm_line(lines[n - 1]) {
            Some(p) => before.push(p),
            None => before,
        }
    }
}

/// Orders PCMs by card, then by device.
pub open spec fn pcm_order() -> spec_fn((u32, u32, Seq<char>), (u32, u32, Seq<char>)) -> bool {
    |a: (u32, u32, Seq<char>), b: (u32, u32, Seq<char>)| a.0 < b.0 || (a.0 == b.0 && a.1 <= b.1)
}

/// Playback PCMs from `/proc/asound/pcm`, by card and device.
pub open spec fn pcms(text: Seq<char>) -> Seq<(u32, u32, Seq<char>)> {
    sort_stable(pcm_lines(lines(text), lines(text).len()), pcm_order())
}

/// The contents of a list of PCMs.
pub open spec fn pcm_views(v: Seq<(u32, u32, String)>) -> Seq<(u32, u32, Seq<char>)> {
    Seq::new(v.len(), |i: int| (v[i].0, v[i].1, v[i].2@))
}

fn parse_pcm_line(line: &[char]) -> (r: Option<(u32, u32, String)>)
    ensures
        match pcm_line(line@) {
            Some(want) => r matches Some(got) && got.0 == want.0 && got.1 == want.1 && got.2@
                == want.2,
            None => r is None,
        },
{
    let (ids, rest) = match cut(line, ": ") {
        Some(parts) => parts,
        None => {
            return None;
        },
    };
    if !contains_chars(rest, &chars_of("playback")) {
        return None;
    }
    let (card, dev) = match cut(ids, "-") {
        Some(parts) => parts,
        None => {
            return None;
        },
    };
    let c = parse_unsigned(trim_of(card), u32::MAX as u64);
    let d = parse_unsigned(trim_of(dev), u32::MAX as u64);
    match (c, d) {
        (Some(c), Some(d)) => {
            let desc = match cut(rest, " : ") {
                Some((first, _)) => first,
                None => rest,
            };
            Some((c as u32, d as u32, string_of(trim_of(desc))))
        },
        _ => None,
    }
}

fn pcm_le(a: &(u32, u32, String), b: &(u32, u32, String)) -> (r: bool)
    ensures
        r == (a.0 < b.0 || (a.0 == b.0 && a.1 <= b.1)),
{
    a.0 < b.0 || (a.0 == b.0 && a.1 <= b.1)
}

/// Playback PCMs from `/proc/asound/pcm` as (card, device, name):
/// `00-03: HDMI 0 : HDMI 0 : playback 1`.
pub fn parse_pcms(text: &str) -> (out: Vec<(u32, u32, String)>)
    ensures
        pcm_views(out@) == pcms(text@),
{
    let all = chars_of(text);
    let ls = lines_of(&all);
    let ghost want = lines(text@);
    let mut out: Vec<(u32, u32, String)> = Vec::new();
    assert(pcm_views(out@) == sort_stable(pcm_lines(want, 0), pcm_order()));
    for i in 0..ls.len()
        invariant
            want == lines(text@),
            ls.len() == want.len(),
            forall|j: int| 0 <= j < ls.len() ==> #[trigger] ls@[j]@ == want[j],
            pcm_views(out@) == sort_stable(pcm_lines(want, i as nat), pcm_order()),
    {
        assert(ls@[i as int]@ == want[i as int]);
        let ghost done = pcm_lines(want, i as nat);
        if let Some(pcm) = parse_pcm_line(&ls[i]) {
            let ghost x = (pcm.0, pcm.1, pcm.2@);
            assert(done.push(x).drop_last() == done);
            let ghost before = out@;
            let ghost view = |p: (u32, u32, String)| (p.0, p.1, p.2@);
            insert_sorted::<_, (u32, u32, Seq<char>), _>(
                &mut out,
                pcm,
                pcm_le,
                Ghost(view),
                Ghost(pcm_order()),
            );
            assert(before.map_values(view) == pcm_views(before));
            assert(out@.map_values(view) == pcm_views(out@));
        }
    }
    out
}

// ---------------------------------------------------------------------------
// The device list
// ---------------------------------------------------------------------------

/// The null device that every list starts with.
pub open spec fn null_device() -> DeviceView {
    DeviceView {
        name: "null"@,
        description: "Null sink (discards audio, for tests)"@,
        kind: DeviceKind::Null,
        card_name: None,
    }
}

/// The device for a playback PCM, with the names of its card where they are known.
pub open spec fn hw_device(
    pcm: (u32, u32, Seq<char>),
    cards: Map<u32, (Seq<char>, Seq<char>)>,
) -> DeviceView {
    DeviceView {
        name: "hw:"@ + dec(pcm.0 as nat) + ","@ + dec(pcm.1 as nat),
        description: if cards.contains_key(pcm.0) {
            if pcm.2.len() > 0 {
                cards[pcm.0].0 + ": "@ + pcm.2
            } else {
                cards[pcm.0].0
            }
        } else {
            pcm.2
        },
        kind: DeviceKind::Hardware,
        card_name: if cards.contains_key(pcm.0) {
            Some(cards[pcm.0].1)
        } else {
            None
        },
    }
}

/// The first of the hints from `i` on for `name`: its description, if it has one.
pub open spec fn hint_from(
    hints: Seq<(String, Option<String>)>,
    name: Seq<char>,
    i: int,
) -> Option<Option<Seq<char>>>
    decreases hints.len() - i,
{
    if i < 0 || i >= hints.len() {
        None
    } else if hints[i].0@ == name {
        Some(text_opt(hints[i].1))
    } else {
        hint_from(hints, name, i + 1)
    }
}

/// A sound server's device: offered when ALSA hints at it. Without any hints
/// `default` is still offered, as it exists on any sane setup.
pub open spec fn virtual_device(
    name: Seq<char>,
    fallback: Seq<char>,
    hints: Option<Seq<(String, Option<String>)>>,
) -> Seq<DeviceView> {
    let hint = match hints {
        Some(h) => hint_from(h, name, 0),
        None => if name == "default"@ {
            Some(None)
        } else {
            None
        },
    };
    match hint {
        None => Seq::empty(),
        Some(d) => seq![
            DeviceView {
                name,
                description: match d {
                    Some(text) => if text.len() > 0 {
                        text + " (not bit-perfect)"@
                    } else {
                        fallback
                    },
                    None => fallback,
                },
                kind: DeviceKind::Virtual,
                card_name: None,
            },
        ],
    }
}

/// The device list: `null`, every `hw:` PCM, then what ALSA hints at.
pub open spec fn device_list(
    cards_text: Seq<char>,
    pcms_text: Seq<char>,
    hints: Option<Seq<(String, Option<String>)>>,
) -> Seq<DeviceView> {
    let cards = cards(cards_text);
    let pcms = pcms(pcms_text);
    seq![null_device()] + Seq::new(pcms.len(), |i: int| hw_device(pcms[i], cards))
        + virtual_device(
        "default"@,
        "ALSA default (may be resampled by PipeWire/Pulse)"@,
        hints,
    ) + virtual_device("pipewire"@, "PipeWire (mixed/resampled by the sound server)"@, hints)
        + virtual_device("pulse"@, "PulseAudio (mixed/resampled by the sound server)"@, hints)
}

/// The contents of a list of devices.
pub open spec fn device_views(v: Seq<DeviceInfo>) -> Seq<DeviceView> {
    Seq::new(v.len(), |i: int| v[i]@)
}

/// The slice behind an optional reference.
pub open spec fn hints_view(hints: Option<&[(String, Option<String>)]>) -> Option<
    Seq<(String, Option<String>)>,
> {
    match hints {
        Some(h) => Some(h@),
        None => None,
    }
}

fn find_hint(hints: &[(String, Option<String>)], name: &str) -> (r: Option<Option<String>>)
    ensures
        match hint_from(hints@, name@, 0) {
            Some(want) => r matches Some(got) && text_opt(got) == want,
            None => r is None,
        },
{
    for i in 0..hints.len()
        invariant
            hint_from(hints@, name@, 0) == hint_from(hints@, name@, i as int),
    {
        if same_str(hints[i].0.as_str(), name) {
            return Some(copy_opt(&hints[i].1));
        }
    }
    None
}

fn push_virtual(
    out: &mut Vec<DeviceInfo>,
    name: &str,
    fallback: &str,
    hints: Option<&[(String, Option<String>)]>,
)
    ensures
        device_views(final(out)@) == device_views(old(out)@) + virtual_device(
            name@,
            fallback@,
            hints_view(hints),
        ),
{
    let ghost before = out@;
    let hint: Option<Option<String>> = match hints {
        Some(h) => find_hint(h, name),
        None => if same_str(name, "default") {
            Some(None)
        } else {
            None
        },
    };
    let found = match hint {
        Some(d) => d,
        None => {
            assert(device_views(out@) == device_views(before) + Seq::<DeviceView>::empty());
            return;
        },
    };
    let description = match found {
        Some(d) => if !d.as_str().is_empty() {
            concat2(d.as_str(), " (not bit-perfect)")
        } else {
            copy_str(fallback)
        },
        None => copy_str(fallback),
    };
    let device = DeviceInfo {
        name: copy_str(name),
        description,
        kind: DeviceKind::Virtual,
        card_name: None,
    };
    let ghost v = device@;
    out.push(device);
    assert(device_views(out@) == device_views(before) + seq![v]);
}

/// Build the device list from the raw sources; pure, for testability.
pub fn build_device_list(
    cards_text: &str,
    pcms_text: &str,
    hints: Option<&[(String, Option<String>)]>,
) -> (out: Vec<DeviceInfo>)
    ensures
        device_views(out@) == device_list(cards_text@, pcms_text@, hints_view(hints)),
{
    broadcast use vstd::std_specs::btree::group_btree_axioms;

    let names = parse_cards(cards_text);
    let found = parse_pcms(pcms_text);
    let ghost known = cards(cards_text@);
    let ghost hw = Seq::new(pcms(pcms_text@).len(), |i: int| hw_device(pcms(pcms_text@)[i], known));
    let mut out: Vec<DeviceInfo> = Vec::new();
    out.push(
        DeviceInfo {
            name: copy_str("null"),
            description: copy_str("Null sink (discards audio, for tests)"),
            kind: DeviceKind::Null,
            card_name: None,
        },
    );
    assert(device_views(out@) == seq![null_device()] + hw.subrange(0, 0));
    for i in 0..found.len()
        invariant
            names_view(names@) == known,
            pcm_views(found@) == pcms(pcms_text@),
            hw == Seq::new(
                pcms(pcms_text@).len(),
                |i: int| hw_device(pcms(pcms_text@)[i], known),
            ),
            device_views(out@) == seq![null_device()] + hw.subrange(0, i as int),
    {
        let (card, dev) = (found[i].0, found[i].1);
        let desc = found[i].2.as_str();
        let ghost pcm = pcms(pcms_text@)[i as int];
        assert(pcm == pcm_views(found@)[i as int]);
        let mut name = copy_str("hw:");
        push_dec(&mut name, card as u64);
        name.push_str(",");
        push_dec(&mut name, dev as u64);
        let (description, card_name) = match names.get(&card) {
            Some(n) => {
                assert(names@.contains_key(card));
                assert(known.contains_key(card) && known[card] == (n.0@, n.1@));
                let description = if !desc.is_empty() {
                    concat3(n.0.as_str(), ": ", desc)
                } else {
                    n.0.clone()
                };
                (description, Some(n.1.clone()))
            },
            None => {
                assert(!known.contains_key(card));
                (copy_str(desc), None)
            },
        };
        let device = DeviceInfo { name, description, kind: DeviceKind::Hardware, card_name };
        let ghost before = out@;
        let ghost v = device@;
        out.push(device);
        proof {
            assert(v == hw_device(pcm, known));
            assert(device_views(out@) == device_views(before).push(v));
            assert(hw.subrange(0, i + 1) == hw.subrange(0, i as int).push(v));
            assert(seq![null_device()] + hw.subrange(0, i + 1) == (seq![null_device()]
                + hw.subrange(0, i as int)).push(v));
        }
    }
    assert(hw.subrange(0, hw.len() as int) == hw);
    push_virtual(
        &mut out,
        "default",
        "ALSA default (may be resampled by PipeWire/Pulse)",
        hints,
    );
    push_virtual(&mut out, "pipewire", "PipeWire (mixed/resampled by the sound server)", hints);
    push_virtual(&mut out, "pulse", "PulseAudio (mixed/resampled by the sound server)", hints);
    out
}

proof fn lemma_hw_name(pcm: (u32, u32, Seq<char>), known: Map<u32, (Seq<char>, Seq<char>)>)
    ensures
        kind_of(hw_device(pcm, known).name) == DeviceKind::Hardware,
{
    reveal_strlit("null");
    reveal_strlit("file:");
    reveal_strlit("hw:");
    let name = hw_device(pcm, known).name;
    assert(name[0] == 'h');
    assert("null"@[0] == 'n');
    assert("file:"@[0] == 'f');
    if starts_with(name, "file:"@) {
        assert(name.subrange(0, "file:"@.len() as int)[0] == name[0]);
    }
    assert(name.subrange(0, 3) == "hw:"@);
}

proof fn lemma_virtual_name(name: Seq<char>)
    requires
        name == "default"@ || name == "pipewire"@ || name == "pulse"@,
    ensures
        kind_of(name) == DeviceKind::Virtual,
{
    reveal_strlit("null");
    reveal_strlit("file:");
    reveal_strlit("hw:");
    reveal_strlit("default");
    reveal_strlit("pipewire");
    reveal_strlit("pulse");
    assert("null"@[0] == 'n');
    assert("file:"@[0] == 'f');
    assert("hw:"@[0] == 'h');
    assert(name[0] == 'd' || name[0] == 'p');
    if starts_with(name, "file:"@) {
        assert(name.subrange(0, "file:"@.len() as int)[0] == name[0]);
    }
    if starts_with(name, "hw:"@) {
        assert(name.subrange(0, "hw:"@.len() as int)[0] == name[0]);
    }
}

/// Every listed device is of the kind that its name stands for, and the list
/// starts with the null device.
pub proof fn listed_devices_are_classified(
    cards_text: Seq<char>,
    pcms_text: Seq<char>,
    hints: Option<Seq<(String, Option<String>)>>,
)
    ensures
        device_list(cards_text, pcms_text, hints).len() > 0,
        device_list(cards_text, pcms_text, hints)[0] == null_device(),
        forall|i: int|
            0 <= i < device_list(cards_text, pcms_text, hints).len() ==> kind_of(
                #[trigger] device_list(cards_text, pcms_text, hints)[i].name,
            ) == device_list(cards_text, pcms_text, hints)[i].kind,
{
    let all = device_list(cards_text, pcms_text, hints);
    let known = cards(cards_text);
    let found = pcms(pcms_text);
    let n = found.len();
    lemma_virtual_name("default"@);
    lemma_virtual_name("pipewire"@);
    lemma_virtual_name("pulse"@);
    assert forall|i: int| 0 <= i < all.len() implies kind_of(#[trigger] all[i].name)
        == all[i].kind by {
        if 1 <= i < 1 + n {
            assert(all[i] == hw_device(found[i - 1], known));
            lemma_hw_name(found[i - 1], known);
        }
    }
}

// ---------------------------------------------------------------------------
// Capabilities
// ---------------------------------------------------------------------------

/// What a device accepts, for a "device capabilities" panel.
#[derive(Debug, PartialEq, Eq)]
pub struct DeviceCaps {
    pub formats: Vec<Container>,
    pub rates: Vec<u32>,
    pub channels: RangeInclusive<u32>,
}

/// Rates worth reporting (the ones music actually comes in).
pub const PROBE_RATES: [u32; 14] = [
    8000,
    11025,
    16000,
    22050,
    32000,
    44100,
    48000,
    88200,
    96000,
    176400,
    192000,
    352800,
    384000,
    768000,
];

/// The items whose answer is yes, in their order.
pub open spec fn chosen<T>(items: Seq<T>, answers: Seq<bool>) -> Seq<T>
    decreases items.len(),
{
    if items.len() == 0 {
        items
    } else if answers[items.len() - 1] {
        chosen(items.drop_last(), answers).push(items.last())
    } else {
        chosen(items.drop_last(), answers)
    }
}

proof fn lemma_all_chosen<T>(items: Seq<T>, answers: Seq<bool>)
    requires
        forall|i: int| 0 <= i < items.len() ==> #[trigger] answers[i],
    ensures
        chosen(items, answers) == items,
    decreases items.len(),
{
    if items.len() > 0 {
        lemma_all_chosen(items.drop_last(), answers);
        assert(items.drop_last().push(items.last()) == items);
    }
}

proof fn lemma_chosen_prefix<T>(items: Seq<T>, a: Seq<bool>, b: Seq<bool>)
    requires
        forall|i: int| 0 <= i < items.len() ==> #[trigger] a[i] == b[i],
    ensures
        chosen(items, a) == chosen(items, b),
    decreases items.len(),
{
    if items.len() > 0 {
        assert(a[items.len() - 1] == b[items.len() - 1]);
        lemma_chosen_prefix(items.drop_last(), a, b);
    }
}

fn choose_formats(format_ok: impl Fn(Container) -> bool) -> (r: Vec<Container>)
    requires
        forall|c: Container| #[trigger] call_requires(format_ok, (c,)),
    ensures
        exists|ok: Seq<bool>|
            ok.len() == 4 && (forall|i: int|
                0 <= i < 4 ==> call_ensures(format_ok, (Container::ALL@[i],), #[trigger] ok[i]))
                && r@ == #[trigger] chosen(Container::ALL@, ok),
{
    let all = Container::ALL;
    let ghost mut ok: Seq<bool> = Seq::empty();
    let mut out: Vec<Container> = Vec::new();
    assert(all@.subrange(0, 0) == Seq::<Container>::empty());
    for i in 0..4usize
        invariant
            all@ == Container::ALL@,
            all@.len() == 4,
            ok.len() == i,
            forall|c: Container| #[trigger] call_requires(format_ok, (c,)),
            forall|j: int| 0 <= j < i ==> call_ensures(format_ok, (all@[j],), #[trigger] ok[j]),
            out@ == chosen(all@.subrange(0, i as int), ok),
    {
        let yes = format_ok(all[i]);
        let ghost before = ok;
        proof {
            ok = ok.push(yes);
            assert(all@.subrange(0, i + 1).drop_last() == all@.subrange(0, i as int));
            lemma_chosen_prefix(all@.subrange(0, i as int), before, ok);
            assert(forall|j: int|
                0 <= j < i ==> call_ensures(format_ok, (all@[j],), #[trigger] ok[j]));
        }
        if yes {
            out.push(all[i]);
        }
    }
    assert(all@.subrange(0, 4) == all@);
    assert(out@ == chosen(Container::ALL@, ok));
    out
}

fn choose_rates(rate_ok: impl Fn(u32) -> bool) -> (r: Vec<u32>)
    requires
        forall|n: u32| #[trigger] call_requires(rate_ok, (n,)),
    ensures
        exists|ok: Seq<bool>|
            ok.len() == 14 && (forall|i: int|
                0 <= i < 14 ==> call_ensures(rate_ok, (PROBE_RATES@[i],), #[trigger] ok[i])) && r@
                == #[trigger] chosen(PROBE_RATES@, ok),
{
    let all = PROBE_RATES;
    let ghost mut ok: Seq<bool> = Seq::empty();
    let mut out: Vec<u32> = Vec::new();
    assert(all@.subrange(0, 0) == Seq::<u32>::empty());
    for i in 0..14usize
        invariant
            all@ == PROBE_RATES@,
            all@.len() == 14,
            ok.len() == i,
            forall|n: u32| #[trigger] call_requires(rate_ok, (n,)),
            forall|j: int| 0 <= j < i ==> call_ensures(rate_ok, (all@[j],), #[trigger] ok[j]),
            out@ == chosen(all@.subrange(0, i as int), ok),
    {
        let yes = rate_ok(all[i]);
        let ghost before = ok;
        proof {
            ok = ok.push(yes);
            assert(all@.subrange(0, i + 1).drop_last() == all@.subrange(0, i as int));
            lemma_chosen_prefix(all@.subrange(0, i as int), before, ok);
            assert(forall|j: int|
                0 <= j < i ==> call_ensures(rate_ok, (all@[j],), #[trigger] ok[j]));
        }
        if yes {
            out.push(all[i]);
        }
    }
    assert(all@.subrange(0, 14) == all@);
    assert(out@ == chosen(PROBE_RATES@, ok));
    out
}

impl DeviceCaps {
    /// Assemble caps from per-format / per-rate acceptance tests.
    pub fn from_tests(
        format_ok: impl Fn(Container) -> bool,
        rate_ok: impl Fn(u32) -> bool,
        channels: RangeInclusive<u32>,
    ) -> (caps: DeviceCaps)
        requires
            forall|c: Container| #[trigger] call_requires(format_ok, (c,)),
            forall|n: u32| #[trigger] call_requires(rate_ok, (n,)),
        ensures
            exists|ok: Seq<bool>|
                ok.len() == 4 && (forall|i: int|
                    0 <= i < 4 ==> call_ensures(
                        format_ok,
                        (Container::ALL@[i],),
                        #[trigger] ok[i],
                    )) && caps.formats@ == #[trigger] chosen(Container::ALL@, ok),
            exists|ok: Seq<bool>|
                ok.len() == 14 && (forall|i: int|
                    0 <= i < 14 ==> call_ensures(rate_ok, (PROBE_RATES@[i],), #[trigger] ok[i]))
                    && caps.rates@ == #[trigger] chosen(PROBE_RATES@, ok),
            caps.channels == channels,
    {
        DeviceCaps { formats: choose_formats(format_ok), rates: choose_rates(rate_ok), channels }
    }

    /// Everything goes (null / file sinks).
    pub fn unrestricted() -> (caps: DeviceCaps)
        ensures
            caps.formats@ == Container::ALL@,
            caps.rates@ == PROBE_RATES@,
            caps.channels@.start == 1,
            caps.channels@.end == 32,
            !caps.channels@.exhausted,
    {
        let any_format = |c: Container| -> (r: bool)
            ensures
                r,
            { true };
        let any_rate = |n: u32| -> (r: bool)
            ensures
                r,
            { true };
        let caps = DeviceCaps::from_tests(any_format, any_rate, RangeInclusive::new(1u32, 32u32));
        proof {
            assert forall|ok: Seq<bool>|
                ok.len() == 4 && (forall|i: int| 0 <= i < 4 ==> #[trigger] ok[i]) implies
                #[trigger] chosen(Container::ALL@, ok) == Container::ALL@ by {
                lemma_all_chosen(Container::ALL@, ok);
            }
            assert forall|ok: Seq<bool>|
                ok.len() == 14 && (forall|i: int| 0 <= i < 14 ==> #[trigger] ok[i]) implies
                #[trigger] chosen(PROBE_RATES@, ok) == PROBE_RATES@ by {
                lemma_all_chosen(PROBE_RATES@, ok);
            }
        }
        caps
    }

    pub fn supports_rate(&self, rate: u32) -> (r: bool)
        ensures
            r == self.rates@.contains(rate),
    {
        for i in 0..self.rates.len()
            invariant
                forall|j: int| 0 <= j < i ==> self.rates@[j] != rate,
        {
            if self.rates[i] == rate {
                assert(self.rates@[i as int] == rate);
                return true;
            }
        }
        false
    }
}

/// The containers that an acceptance test lets through, in the order of
/// preference of the list of all of them.
pub fn supported_containers(format_ok: impl Fn(Container) -> bool) -> (r: Vec<Container>)
    requires
        forall|c: Container| #[trigger] call_requires(format_ok, (c,)),
    ensures
        exists|ok: Seq<bool>|
            ok.len() == 4 && (forall|i: int|
                0 <= i < 4 ==> call_ensures(format_ok, (Container::ALL@[i],), #[trigger] ok[i]))
                && r@ == #[trigger] chosen(Container::ALL@, ok),
{
    choose_formats(format_ok)
}

/// What is known of a device without opening it: the null and file sinks take
/// everything, other devices have to be asked.
pub fn known_caps(name: &str) -> (r: Option<DeviceCaps>)
    ensures
        r is Some <==> (kind_of(name@) == DeviceKind::Null || kind_of(name@) == DeviceKind::File),
        r matches Some(caps) ==> caps.formats@ == Container::ALL@ && caps.rates@ == PROBE_RATES@
            && caps.channels@.start == 1 && caps.channels@.end == 32 && !caps.channels@.exhausted,
{
    match classify(name) {
        DeviceKind::Null | DeviceKind::File => Some(DeviceCaps::unrestricted()),
        _ => None,
    }
}

} // verus!
