//! Strings of the interface (toasts, statuses, chain labels) and small
//! formatting helpers.

use vstd::prelude::*;

use crate::text::{
    chars_of, concat2, copy_str, dec, dec_padded, dec_string, push_dec, push_dec2, same_str,
    starts_with, starts_with_chars,
};

verus! {

// ---------------------------------------------------------------------------
// Language
// ---------------------------------------------------------------------------

/// The first of the variables that is set and not empty.
pub open spec fn first_set(vars: Seq<Option<Seq<char>>>, i: int) -> Seq<char>
    decreases vars.len() - i,
{
    if i < 0 || i >= vars.len() {
        ""@
    } else {
        match vars[i] {
            Some(v) => if v.len() > 0 {
                v
            } else {
                first_set(vars, i + 1)
            },
            None => first_set(vars, i + 1),
        }
    }
}

/// Whether the interface is French.
pub open spec fn speaks_french(vars: Seq<Option<Seq<char>>>) -> bool {
    starts_with(first_set(vars, 0), "fr"@)
}

/// The contents of some variables.
pub open spec fn var_views(vars: Seq<Option<String>>) -> Seq<Option<Seq<char>>> {
    Seq::new(vars.len(), |i: int| crate::text::text_opt(vars[i]))
}

/// UI language from the usual POSIX variables, in the order of their rank
/// (`LC_ALL`, `LC_MESSAGES`, `LANG`).
pub fn detect_language(vars: &[Option<String>]) -> (s: &'static str)
    ensures
        s@ == (if speaks_french(var_views(vars@)) {
            "fr"@
        } else {
            "en"@
        }),
{
    let ghost all = var_views(vars@);
    let mut lang: &str = "";
    let mut i: usize = 0;
    let mut found = false;
    while i < vars.len() && !found
        invariant
            all == var_views(vars@),
            i <= vars@.len(),
            found ==> first_set(all, 0) == lang@,
            !found ==> lang@ == ""@ && first_set(all, 0) == first_set(all, i as int),
        decreases vars.len() - i,
    {
        assert(all[i as int] == crate::text::text_opt(vars@[i as int]));
        if let Some(v) = &vars[i] {
            if !v.as_str().is_empty() {
                lang = v.as_str();
                found = true;
            }
        }
        i = i + 1;
    }
    if starts_with_chars(&chars_of(lang), &chars_of("fr")) {
        "fr"
    } else {
        "en"
    }
}

/// A string of the interface in French; what has no translation stays as it is.
pub open spec fn french_text(en: Seq<char>) -> Seq<char> {
    if en == "Good morning"@ {
        "Bonjour"@
    } else if en == "Hide window"@ {
        "Masquer la fenêtre"@
    } else if en == "Decoded to"@ {
        "Décodé en"@
    } else if en == "Muted"@ {
        "Sourdine"@
    } else if en == "Software volume"@ {
        "Volume logiciel"@
    } else if en == "ReplayGain / preamp"@ {
        "ReplayGain / préampli"@
    } else if en == "exclusive, no mixer"@ {
        "exclusif, sans mixeur"@
    } else if en == "shared: may resample or mix"@ {
        "partagé : peut rééchantillonner ou mixer"@
    } else if en == "Null sink: audio discarded"@ {
        "Sortie nulle : audio ignoré"@
    } else if en == "written to a file"@ {
        "écrit dans un fichier"@
    } else if en == "Null sink"@ {
        "Sortie nulle"@
    } else if en == "Discards audio (testing)"@ {
        "Ignore l'audio (tests)"@
    } else if en == "Show window"@ {
        "Afficher la fenêtre"@
    } else if en == "Pause"@ {
        "Pause"@
    } else if en == "Play"@ {
        "Lecture"@
    } else if en == "Next"@ {
        "Suivant"@
    } else if en == "Previous"@ {
        "Précédent"@
    } else if en == "Quit"@ {
        "Quitter"@
    } else if en == "Good afternoon"@ {
        "Bon après-midi"@
    } else if en == "Good evening"@ {
        "Bonsoir"@
    } else if en == "Good night"@ {
        "Bonne nuit"@
    } else if en == "Added to the queue"@ {
        "Ajouté à la file d'attente"@
    } else if en == "Will play next"@ {
        "Sera lu ensuite"@
    } else if en == "Removed from the playlist"@ {
        "Retiré de la playlist"@
    } else if en == "Added to favorites"@ {
        "Ajouté aux favoris"@
    } else if en == "Removed from favorites"@ {
        "Retiré des favoris"@
    } else if en == "Playlist created"@ {
        "Playlist créée"@
    } else if en == "Playlist deleted"@ {
        "Playlist supprimée"@
    } else if en == "Playlist exported to"@ {
        "Playlist exportée dans"@
    } else if en == "Playlist imported"@ {
        "Playlist importée"@
    } else if en == "Could not open the file"@ {
        "Impossible d'ouvrir le fichier"@
    } else if en == "Source"@ {
        "Source"@
    } else if en == "Decoder"@ {
        "Décodeur"@
    } else if en == "Output format"@ {
        "Format de sortie"@
    } else if en == "Device"@ {
        "Périphérique"@
    } else if en == "Volume"@ {
        "Volume"@
    } else if en == "Processing"@ {
        "Traitement"@
    } else if en == "none"@ {
        "aucun"@
    } else if en == "Searching for lyrics…"@ {
        "Recherche des paroles…"@
    } else if en == "No lyrics for this track"@ {
        "Pas de paroles pour ce titre"@
    } else if en == "Instrumental"@ {
        "Instrumental"@
    } else if en == "Online lyrics are turned off in Settings"@ {
        "Les paroles en ligne sont désactivées dans les Réglages"@
    } else if en == "Nothing is playing"@ {
        "Aucune lecture en cours"@
    } else if en == "Lyrics from lrclib.net"@ {
        "Paroles : lrclib.net"@
    } else if en == "Lyrics from the file"@ {
        "Paroles : fichier"@
    } else if en == "Lyrics from the .lrc file"@ {
        "Paroles : fichier .lrc"@
    } else if en == "Top stations"@ {
        "Stations populaires"@
    } else if en == "Stations"@ {
        "Stations"@
    } else if en == "Radio Browser is unreachable"@ {
        "Radio Browser est injoignable"@
    } else if en == "Searching…"@ {
        "Recherche…"@
    } else if en == "No station found"@ {
        "Aucune station trouvée"@
    } else if en == "Disc"@ {
        "Disque"@
    } else if en == "Playing from"@ {
        "Lecture depuis"@
    } else if en == "UPnP"@ {
        "UPnP"@
    } else if en == "Internet radio"@ {
        "Radio en ligne"@
    } else if en == "Library mix"@ {
        "Mix de la bibliothèque"@
    } else if en == "Not connected"@ {
        "Non connecté"@
    } else if en == "Connected as"@ {
        "Connecté en tant que"@
    } else if en == "Checking…"@ {
        "Vérification…"@
    } else if en == "Invalid token"@ {
        "Jeton invalide"@
    } else if en == "Approve ricercar in your browser, then click “I approved it”."@ {
        "Autorisez ricercar dans votre navigateur, puis cliquez sur « J'ai autorisé l'accès »."@
    } else if en == "Authorization failed"@ {
        "Échec de l'autorisation"@
    } else if en == "Visible on the network as"@ {
        "Visible sur le réseau sous le nom"@
    } else if en == "port"@ {
        "port"@
    } else if en == "Renderer is off"@ {
        "Le renderer est désactivé"@
    } else if en == "Folder added; indexing…"@ {
        "Dossier ajouté ; indexation…"@
    } else if en == "Folder removed"@ {
        "Dossier retiré"@
    } else if en == "Output device"@ {
        "Sortie audio"@
    } else if en == "Network error"@ {
        "Erreur réseau"@
    } else if en == "Unknown artist"@ {
        "Artiste inconnu"@
    } else if en == "tracks"@ {
        "titres"@
    } else if en == "track"@ {
        "titre"@
    } else if en == "Enter the API key and shared secret of your Last.fm API account first."@ {
        "Saisissez d'abord la clé API et le secret partagé de votre compte API Last.fm."@
    } else {
        en
    }
}

/// A string of the interface (English is the key).
pub open spec fn translated(en: Seq<char>, french: bool) -> Seq<char> {
    if french {
        french_text(en)
    } else {
        en
    }
}

fn french_str(en: &'static str) -> (s: &'static str)
    ensures
        s@ == french_text(en@),
{
    if same_str(en, "Good morning") {
        "Bonjour"
    } else if same_str(en, "Hide window") {
        "Masquer la fenêtre"
    } else if same_str(en, "Decoded to") {
        "Décodé en"
    } else if same_str(en, "Muted") {
        "Sourdine"
    } else if same_str(en, "Software volume") {
        "Volume logiciel"
    } else if same_str(en, "ReplayGain / preamp") {
        "ReplayGain / préampli"
    } else if same_str(en, "exclusive, no mixer") {
        "exclusif, sans mixeur"
    } else if same_str(en, "shared: may resample or mix") {
        "partagé : peut rééchantillonner ou mixer"
    } else if same_str(en, "Null sink: audio discarded") {
        "Sortie nulle : audio ignoré"
    } else if same_str(en, "written to a file") {
        "écrit dans un fichier"
    } else if same_str(en, "Null sink") {
        "Sortie nulle"
    } else if same_str(en, "Discards audio (testing)") {
        "Ignore l'audio (tests)"
    } else if same_str(en, "Show window") {
        "Afficher la fenêtre"
    } else if same_str(en, "Pause") {
        "Pause"
    } else if same_str(en, "Play") {
        "Lecture"
    } else if same_str(en, "Next") {
        "Suivant"
    } else if same_str(en, "Previous") {
        "Précédent"
    } else if same_str(en, "Quit") {
        "Quitter"
    } else if same_str(en, "Good afternoon") {
        "Bon après-midi"
    } else if same_str(en, "Good evening") {
        "Bonsoir"
    } else if same_str(en, "Good night") {
        "Bonne nuit"
    } else if same_str(en, "Added to the queue") {
        "Ajouté à la file d'attente"
    } else if same_str(en, "Will play next") {
        "Sera lu ensuite"
    } else if same_str(en, "Removed from the playlist") {
        "Retiré de la playlist"
    } else if same_str(en, "Added to favorites") {
        "Ajouté aux favoris"
    } else if same_str(en, "Removed from favorites") {
        "Retiré des favoris"
    } else if same_str(en, "Playlist created") {
        "Playlist créée"
    } else if same_str(en, "Playlist deleted") {
        "Playlist supprimée"
    } else if same_str(en, "Playlist exported to") {
        "Playlist exportée dans"
    } else if same_str(en, "Playlist imported") {
        "Playlist importée"
    } else if same_str(en, "Could not open the file") {
        "Impossible d'ouvrir le fichier"
    } else if same_str(en, "Source") {
        "Source"
    } else if same_str(en, "Decoder") {
        "Décodeur"
    } else if same_str(en, "Output format") {
        "Format de sortie"
    } else if same_str(en, "Device") {
        "Périphérique"
    } else if same_str(en, "Volume") {
        "Volume"
    } else if same_str(en, "Processing") {
        "Traitement"
    } else if same_str(en, "none") {
        "aucun"
    } else if same_str(en, "Searching for lyrics…") {
        "Recherche des paroles…"
    } else if same_str(en, "No lyrics for this track") {
        "Pas de paroles pour ce titre"
    } else if same_str(en, "Instrumental") {
        "Instrumental"
    } else if same_str(en, "Online lyrics are turned off in Settings") {
        "Les paroles en ligne sont désactivées dans les Réglages"
    } else if same_str(en, "Nothing is playing") {
        "Aucune lecture en cours"
    } else if same_str(en, "Lyrics from lrclib.net") {
        "Paroles : lrclib.net"
    } else if same_str(en, "Lyrics from the file") {
        "Paroles : fichier"
    } else if same_str(en, "Lyrics from the .lrc file") {
        "Paroles : fichier .lrc"
    } else if same_str(en, "Top stations") {
        "Stations populaires"
    } else if same_str(en, "Stations") {
        "Stations"
    } else if same_str(en, "Radio Browser is unreachable") {
        "Radio Browser est injoignable"
    } else if same_str(en, "Searching…") {
        "Recherche…"
    } else if same_str(en, "No station found") {
        "Aucune station trouvée"
    } else if same_str(en, "Disc") {
        "Disque"
    } else if same_str(en, "Playing from") {
        "Lecture depuis"
    } else if same_str(en, "UPnP") {
        "UPnP"
    } else if same_str(en, "Internet radio") {
        "Radio en ligne"
    } else if same_str(en, "Library mix") {
        "Mix de la bibliothèque"
    } else if same_str(en, "Not connected") {
        "Non connecté"
    } else if same_str(en, "Connected as") {
        "Connecté en tant que"
    } else if same_str(en, "Checking…") {
        "Vérification…"
    } else if same_str(en, "Invalid token") {
        "Jeton invalide"
    } else if same_str(en, "Approve ricercar in your browser, then click “I approved it”.") {
        "Autorisez ricercar dans votre navigateur, puis cliquez sur « J'ai autorisé l'accès »."
    } else if same_str(en, "Authorization failed") {
        "Échec de l'autorisation"
    } else if same_str(en, "Visible on the network as") {
        "Visible sur le réseau sous le nom"
    } else if same_str(en, "port") {
        "port"
    } else if same_str(en, "Renderer is off") {
        "Le renderer est désactivé"
    } else if same_str(en, "Folder added; indexing…") {
        "Dossier ajouté ; indexation…"
    } else if same_str(en, "Folder removed") {
        "Dossier retiré"
    } else if same_str(en, "Output device") {
        "Sortie audio"
    } else if same_str(en, "Network error") {
        "Erreur réseau"
    } else if same_str(en, "Unknown artist") {
        "Artiste inconnu"
    } else if same_str(en, "tracks") {
        "titres"
    } else if same_str(en, "track") {
        "titre"
    } else if same_str(en, "Enter the API key and shared secret of your Last.fm API account first.") {
        "Saisissez d'abord la clé API et le secret partagé de votre compte API Last.fm."
    } else {
        en
    }
}

/// Translate a string of the interface (English is the key).
pub fn t(en: &'static str, french: bool) -> (s: &'static str)
    ensures
        s@ == translated(en@, french),
{
    if french {
        french_str(en)
    } else {
        en
    }
}

// ---------------------------------------------------------------------------
// Durations
// ---------------------------------------------------------------------------

/// Milliseconds as `1:02:05` or `1:01`.
pub open spec fn clock(ms: u64) -> Seq<char> {
    let s = (ms / 1000) as nat;
    if s >= 3600 {
        dec(s / 3600) + ":"@ + dec_padded((s / 60) % 60, 2) + ":"@ + dec_padded(s % 60, 2)
    } else {
        dec(s / 60) + ":"@ + dec_padded(s % 60, 2)
    }
}

/// Milliseconds as `1:02:05` or `1:01`.
pub fn mmss(ms: u64) -> (r: String)
    ensures
        r@ == clock(ms),
{
    let s = ms / 1000;
    let mut out: String;
    if s >= 3600 {
        out = dec_string(s / 3600);
        out.push_str(":");
        push_dec2(&mut out, (s / 60) % 60);
    } else {
        out = dec_string(s / 60);
    }
    out.push_str(":");
    push_dec2(&mut out, s % 60);
    out
}

/// Milliseconds as `1 h 12 min`, `48 min` or `312 h`: minutes are rounded, and
/// left out from ten hours on.
pub open spec fn rough(ms: int) -> Seq<char> {
    let mins = ((ms + 30_000) / 60_000) as nat;
    if mins < 60 {
        dec(mins) + " min"@
    } else if mins % 60 != 0 && mins < 600 {
        dec(mins / 60) + " h "@ + dec(mins % 60) + " min"@
    } else {
        dec(mins / 60) + " h"@
    }
}

/// "1 h 12 min", "48 min", "312 h".
pub fn long_duration(ms: u64) -> (r: String)
    requires
        ms + 30_000 <= u64::MAX,
    ensures
        r@ == rough(ms as int),
{
    let mins = (ms + 30_000) / 60_000;
    if mins < 60 {
        let mut out = dec_string(mins);
        out.push_str(" min");
        out
    } else if mins % 60 != 0 && mins < 600 {
        let mut out = dec_string(mins / 60);
        out.push_str(" h ");
        push_dec(&mut out, mins % 60);
        out.push_str(" min");
        out
    } else {
        let mut out = dec_string(mins / 60);
        out.push_str(" h");
        out
    }
}

// ---------------------------------------------------------------------------
// Quality
// ---------------------------------------------------------------------------

/// The least of `x` and its doubles from where the quotient by 1000 has 53 bits,
/// as many as the fraction of an `f64` holds.
pub open spec fn scaled(x: int) -> int
    decreases 9_007_199_254_740_992_000 - x,
{
    if x <= 0 || x >= 4_503_599_627_370_496_000 {
        x
    } else {
        scaled(2 * x)
    }
}

/// A rate in tenths of kilohertz, rounded as its quotient by 1000 is as an
/// `f64`: what lies half between two tenths goes to the side on which that `f64`
/// lies, and to the even tenth where it lies on neither.
pub open spec fn tenths(rate: u32) -> int {
    let q = rate as int / 100;
    let r = rate as int % 100;
    if r < 50 {
        q
    } else if r > 50 {
        q + 1
    } else if rate as int % 125 == 0 {
        q + q % 2
    } else if scaled(rate as int) % 1000 > 500 {
        q + 1
    } else {
        q
    }
}

/// A rate in kilohertz, with a digit behind the point unless it is whole.
pub open spec fn khz_text(rate: u32) -> Seq<char> {
    if rate % 1000 == 0 {
        dec(rate as nat / 1000)
    } else {
        dec((tenths(rate) / 10) as nat) + "."@ + dec((tenths(rate) % 10) as nat)
    }
}

fn scale(rate: u32) -> (x: u64)
    requires
        rate > 0,
    ensures
        x == scaled(rate as int),
{
    let mut x: u64 = rate as u64;
    while x < 4_503_599_627_370_496_000
        invariant
            x > 0,
            x <= 9_007_199_254_740_992_000,
            scaled(x as int) == scaled(rate as int),
        decreases 9_007_199_254_740_992_000 - x,
    {
        x = 2 * x;
    }
    x
}

/// A rate in kilohertz: `44.1`, `96`.
pub fn khz(rate: u32) -> (s: String)
    ensures
        s@ == khz_text(rate),
{
    if rate % 1000 == 0 {
        return dec_string((rate / 1000) as u64);
    }
    let q = rate / 100;
    let r = rate % 100;
    let up: u32 = if r < 50 {
        0
    } else if r > 50 {
        1
    } else if rate % 125 == 0 {
        q % 2
    } else if scale(rate) % 1000 > 500 {
        1
    } else {
        0
    };
    let n = q + up;
    let mut s = dec_string((n / 10) as u64);
    s.push_str(".");
    push_dec(&mut s, (n % 10) as u64);
    s
}

/// Whether a codec loses information.
pub open spec fn lossy_codec(codec: Option<Seq<char>>) -> bool {
    codec matches Some(c) && (c == "MP3"@ || c == "AAC"@ || c == "Vorbis"@ || c == "Opus"@)
}

/// Whether a codec loses information.
pub fn is_lossy(codec: Option<&str>) -> (r: bool)
    ensures
        r == lossy_codec(crate::config::str_opt(codec)),
{
    match codec {
        Some(c) => same_str(c, "MP3") || same_str(c, "AAC") || same_str(c, "Vorbis") || same_str(
            c,
            "Opus",
        ),
        None => false,
    }
}

/// "24/96", "16/44.1", "320k" (lossy).
pub open spec fn quality_text(
    rate: Option<u32>,
    bits: Option<u8>,
    codec: Option<Seq<char>>,
    bitrate: Option<u32>,
) -> Seq<char> {
    if lossy_codec(codec) {
        match bitrate {
            Some(b) => dec(b as nat) + "k"@,
            None => ""@,
        }
    } else {
        match (bits, rate) {
            (Some(b), Some(r)) => dec(b as nat) + "/"@ + khz_text(r),
            (None, Some(r)) => khz_text(r),
            (_, None) => ""@,
        }
    }
}

/// "24/96", "16/44.1", "320k" (lossy).
pub fn quality(
    rate: Option<u32>,
    bits: Option<u8>,
    codec: Option<&str>,
    bitrate: Option<u32>,
) -> (s: String)
    ensures
        s@ == quality_text(rate, bits, crate::config::str_opt(codec), bitrate),
{
    if is_lossy(codec) {
        return match bitrate {
            Some(b) => concat2(dec_string(b as u64).as_str(), "k"),
            None => copy_str(""),
        };
    }
    match (bits, rate) {
        (Some(b), Some(r)) => {
            let mut s = dec_string(b as u64);
            s.push_str("/");
            s.push_str(khz(r).as_str());
            s
        },
        (None, Some(r)) => khz(r),
        (_, None) => copy_str(""),
    }
}

// ---------------------------------------------------------------------------
// Sentences
// ---------------------------------------------------------------------------

/// The greeting of an hour.
pub open spec fn greeting_text(hour: u32) -> Seq<char> {
    if 5 <= hour <= 11 {
        "Good morning"@
    } else if 12 <= hour <= 17 {
        "Good afternoon"@
    } else if 18 <= hour <= 22 {
        "Good evening"@
    } else {
        "Good night"@
    }
}

/// The greeting of an hour of the day.
pub fn greeting(hour: u32, french: bool) -> (s: &'static str)
    ensures
        s@ == translated(greeting_text(hour), french),
{
    if 5 <= hour && hour <= 11 {
        t("Good morning", french)
    } else if 12 <= hour && hour <= 17 {
        t("Good afternoon", french)
    } else if 18 <= hour && hour <= 22 {
        t("Good evening", french)
    } else {
        t("Good night", french)
    }
}

/// A number of things.
pub open spec fn count_text(n: nat, one: Seq<char>, many: Seq<char>, french: bool) -> Seq<char> {
    dec(n) + " "@ + translated(
        if n == 1 {
            one
        } else {
            many
        },
        french,
    )
}

/// A number of things.
pub fn count(n: usize, one: &'static str, many: &'static str, french: bool) -> (s: String)
    ensures
        s@ == count_text(n as nat, one@, many@, french),
{
    let mut s = dec_string(n as u64);
    s.push_str(" ");
    if n == 1 {
        s.push_str(t(one, french));
    } else {
        s.push_str(t(many, french));
    }
    s
}

/// The artist of a track that names none.
pub fn unknown_artist(french: bool) -> (s: &'static str)
    ensures
        s@ == translated("Unknown artist"@, french),
{
    t("Unknown artist", french)
}

} // verus!
