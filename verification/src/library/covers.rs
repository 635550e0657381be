//! Album art: where it is kept, and when a thumbnail has to be made.

use vstd::prelude::*;

use crate::paths::{join_path, joined};
use crate::text::{
    chars_of, copy_str, dec, ends_with, ends_with_chars, push_dec, push_text, same_str, starts_with,
    starts_with_chars, texts,
};
use crate::uri::{is_on_the_web, on_the_web, path_of, uri_to_path};

verus! {

/// A character that can stand in a file name.
pub open spec fn sanitary(c: char) -> bool {
    ('0' <= c <= '9') || ('A' <= c <= 'Z') || ('a' <= c <= 'z')
}

/// A key as a file name: ASCII letters and digits stay, anything else becomes
/// `_`.
pub open spec fn sanitized(key: Seq<char>) -> Seq<char> {
    Seq::new(
        key.len(),
        |i: int|
            if sanitary(key[i]) {
                key[i]
            } else {
                '_'
            },
    )
}

/// A sanitized key never leaves its directory.
pub proof fn sanitized_stays_inside(key: Seq<char>)
    ensures
        !sanitized(key).contains('/'),
        !sanitized(key).contains('.'),
{
}

/// A key as a file name.
pub fn sanitize(key: &str) -> (r: String)
    ensures
        r@ == sanitized(key@),
{
    let c = chars_of(key);
    let mut out = String::new();
    let ghost want = sanitized(key@);
    assert(want.subrange(0, 0) == Seq::<char>::empty());
    for i in 0..c.len()
        invariant
            c@ == key@,
            want == sanitized(key@),
            out@ == want.subrange(0, i as int),
    {
        let k = c[i];
        if ('0' <= k && k <= '9') || ('A' <= k && k <= 'Z') || ('a' <= k && k <= 'z') {
            out.push(k);
        } else {
            out.push('_');
        }
        assert(want.subrange(0, i + 1) == want.subrange(0, i as int).push(want[i as int]));
    }
    assert(want.subrange(0, want.len() as int) == want);
    out
}

/// What to do for a thumbnail.
#[derive(Debug)]
pub enum ThumbStep {
    /// It is there.
    Use(String),
    /// There is no art, as was found before.
    Nothing,
    /// It is to be made of the full-resolution art.
    Make(String),
}

#[derive(Debug)]
pub struct CoverCache {
    dir: String,
    /// Keys known to have no art during this session.
    misses: Vec<String>,
}

/// The file name of a thumbnail.
pub open spec fn thumb_name(key: Seq<char>, size: u32) -> Seq<char> {
    sanitized(key) + "-"@ + dec(size as nat) + ".jpg"@
}

/// Whether a file name may be that of a thumbnail for a key.
pub open spec fn is_thumb_of(name: Seq<char>, key: Seq<char>) -> bool {
    starts_with(name, sanitized(key) + "-"@) && ends_with(name, ".jpg"@)
}

impl CoverCache {
    /// The directory of the cache.
    pub closed spec fn place(&self) -> Seq<char> {
        self.dir@
    }

    /// Whether a key is known to have no art.
    pub closed spec fn missed(&self, key: Seq<char>) -> bool {
        texts(self.misses@).contains(key)
    }

    pub fn new(dir: &str) -> (c: CoverCache)
        ensures
            c.place() == dir@,
            forall|key: Seq<char>| !c.missed(key),
    {
        CoverCache { dir: copy_str(dir), misses: Vec::new() }
    }

    /// `covers` in the cache directory.
    pub fn default_dir(cache_dir: &str) -> (s: String)
        ensures
            s@ == joined(cache_dir@, "covers"@),
    {
        join_path(cache_dir, "covers")
    }

    pub fn dir(&self) -> (s: &str)
        ensures
            s@ == self.place(),
    {
        self.dir.as_str()
    }

    /// Where art that was fetched online is kept.
    pub fn original_path(&self, key: &str) -> (s: String)
        ensures
            s@ == joined(self.place(), sanitized(key@) + "-orig"@),
    {
        let mut name = sanitize(key);
        name.push_str("-orig");
        join_path(self.dir.as_str(), name.as_str())
    }

    /// Where a thumbnail is kept.
    pub fn thumb_path(&self, key: &str, size: u32) -> (s: String)
        ensures
            s@ == joined(self.place(), thumb_name(key@, size)),
    {
        let mut name = sanitize(key);
        name.push_str("-");
        push_dec(&mut name, size as u64);
        name.push_str(".jpg");
        join_path(self.dir.as_str(), name.as_str())
    }

    /// Whether a file is to be removed when art for a key was stored: a
    /// thumbnail made of something else.
    pub fn is_stale(&self, key: &str, name: &str) -> (r: bool)
        ensures
            r == is_thumb_of(name@, key@),
    {
        let n = chars_of(name);
        let mut prefix = sanitize(key);
        prefix.push_str("-");
        starts_with_chars(&n, &chars_of(prefix.as_str())) && ends_with_chars(&n, &chars_of(".jpg"))
    }

    fn miss_index(&self, key: &str) -> (r: Option<usize>)
        ensures
            match r {
                Some(i) => i < self.misses@.len() && self.misses@[i as int]@ == key@,
                None => !self.missed(key@),
            },
    {
        for i in 0..self.misses.len()
            invariant
                forall|j: int| 0 <= j < i ==> (#[trigger] self.misses@[j])@ != key@,
        {
            if same_str(self.misses[i].as_str(), key) {
                return Some(i);
            }
        }
        None
    }

    /// Art for a key was stored.
    pub fn put_original(&mut self, key: &str)
        ensures
            final(self).place() == old(self).place(),
            forall|k: Seq<char>|
                final(self).missed(k) == (old(self).missed(k) && k != key@),
    {
        let ghost before = texts(self.misses@);
        let mut kept: Vec<String> = Vec::new();
        for i in 0..self.misses.len()
            invariant
                before == texts(self.misses@),
                self.place() == old(self).place(),
                forall|j: int|
                    0 <= j < kept@.len() ==> (#[trigger] kept@[j])@ != key@ && before.contains(
                        kept@[j]@,
                    ),
                forall|j: int|
                    0 <= j < i && (#[trigger] before[j]) != key@ ==> texts(kept@).contains(
                        before[j],
                    ),
        {
            if !same_str(self.misses[i].as_str(), key) {
                let ghost mine = texts(kept@);
                let s = self.misses[i].clone();
                assert(before[i as int] == s@);
                kept.push(s);
                assert(texts(kept@) == mine.push(s@));
                assert(texts(kept@)[mine.len() as int] == s@);
                assert forall|j: int| 0 <= j < i + 1 && (#[trigger] before[j]) != key@ implies texts(
                    kept@,
                ).contains(before[j]) by {
                    if j < i {
                        let k = choose|k: int| 0 <= k < mine.len() && mine[k] == before[j];
                        assert(texts(kept@)[k] == before[j]);
                    }
                }
            }
        }
        self.misses = kept;
        assert forall|k: Seq<char>| texts(kept@).contains(k) == (before.contains(k) && k
            != key@) by {
            if texts(kept@).contains(k) {
                let j = choose|j: int| 0 <= j < kept@.len() && texts(kept@)[j] == k;
                assert(kept@[j]@ == k);
            }
            if before.contains(k) && k != key@ {
                let j = choose|j: int| 0 <= j < before.len() && before[j] == k;
                assert(texts(kept@).contains(before[j]));
            }
        }
    }

    /// What to do for a thumbnail; `exists`: it was made before.
    pub fn thumb(&self, key: &str, size: u32, exists: bool) -> (r: ThumbStep)
        ensures
            match r {
                ThumbStep::Use(p) => exists && p@ == joined(self.place(), thumb_name(key@, size)),
                ThumbStep::Nothing => !exists && self.missed(key@),
                ThumbStep::Make(p) => !exists && !self.missed(key@) && p@ == joined(
                    self.place(),
                    thumb_name(key@, size),
                ),
            },
    {
        let path = self.thumb_path(key, size);
        if exists {
            return ThumbStep::Use(path);
        }
        match self.miss_index(key) {
            Some(i) => {
                assert(texts(self.misses@)[i as int] == key@);
                ThumbStep::Nothing
            },
            None => ThumbStep::Make(path),
        }
    }

    /// There is no art for a key, or it is no image.
    pub fn note_miss(&mut self, key: &str)
        ensures
            final(self).place() == old(self).place(),
            forall|k: Seq<char>| final(self).missed(k) == (old(self).missed(k) || k == key@),
    {
        if let Some(i) = self.miss_index(key) {
            assert(texts(self.misses@)[i as int] == key@);
            return;
        }
        let ghost before = texts(self.misses@);
        push_text(&mut self.misses, copy_str(key));
        let ghost after = texts(self.misses@);
        assert forall|k: Seq<char>| after.contains(k) == (before.contains(k) || k == key@) by {
            if before.contains(k) {
                let j = choose|j: int| 0 <= j < before.len() && before[j] == k;
                assert(after[j] == k);
            }
            if k == key@ {
                assert(after[before.len() as int] == k);
            }
            if after.contains(k) {
                let j = choose|j: int| 0 <= j < after.len() && after[j] == k;
                if j < before.len() {
                    assert(before[j] == k);
                }
            }
        }
    }

    pub fn forget_misses(&mut self)
        ensures
            final(self).place() == old(self).place(),
            forall|k: Seq<char>| !final(self).missed(k),
    {
        self.misses = Vec::new();
    }
}

// ---------------------------------------------------------------------------
// Thumbnails
// ---------------------------------------------------------------------------

/// The quality of a thumbnail.
pub const JPEG_QUALITY: u8 = 90;

/// Images up to this edge are known to keep their size when stored.
pub const KNOWN_EDGE: u32 = 4096;

/// How an image is scaled.
#[derive(Debug, Clone, Copy, PartialEq, Eq, Structural)]
pub enum Filter {
    Nearest,
    Triangle,
    CatmullRom,
}

/// The width and the height of an encoded image.
pub uninterp spec fn image_size(bytes: Seq<u8>) -> Option<(u32, u32)>;

/// An encoded image as a JPEG.
pub uninterp spec fn jpeg_image(bytes: Seq<u8>, quality: u8) -> Option<Seq<u8>>;

/// An encoded image as a JPEG that fits in a square.
pub uninterp spec fn jpeg_image_within(
    bytes: Seq<u8>,
    edge: u32,
    filter: Filter,
    quality: u8,
) -> Option<Seq<u8>>;

/// The pixels of an encoded image, four bytes each, row by row.
pub uninterp spec fn rgba_image(bytes: Seq<u8>) -> Option<(u32, u32, Seq<u8>)>;

/// The pixels of an encoded image that is scaled and cropped to fill a square.
pub uninterp spec fn rgba_image_filling(
    bytes: Seq<u8>,
    edge: u32,
    filter: Filter,
) -> Option<(u32, u32, Seq<u8>)>;

/// Whether the sides of an image that can be decoded are at most `edge`.
pub open spec fn fits(bytes: Seq<u8>, edge: u32) -> bool {
    image_size(bytes) matches Some(d) && d.0 <= edge && d.1 <= edge
}

pub open spec fn bytes_opt(v: Option<Vec<u8>>) -> Option<Seq<u8>> {
    match v {
        Some(b) => Some(b@),
        None => None,
    }
}

/// `image::load_from_memory`, `DynamicImage::width` and `height`: the size of
/// an image; nothing where the bytes are none. How images are encoded is only
/// named.
#[verifier::external_body]
fn size_of_image(bytes: &[u8]) -> (r: Option<(u32, u32)>)
    ensures
        r == image_size(bytes@),
{
    image::load_from_memory(bytes).ok().map(|i| (i.width(), i.height()))
}

/// `image::load_from_memory`, `DynamicImage::to_rgb8` and
/// `image::codecs::jpeg::JpegEncoder`: the image as a JPEG; nothing where the
/// bytes are no image or it cannot be written. An image that is not large keeps
/// its size. The encoded bytes are only named.
#[verifier::external_body]
fn jpeg_of(bytes: &[u8], quality: u8) -> (r: Option<Vec<u8>>)
    ensures
        bytes_opt(r) == jpeg_image(bytes@, quality),
        r matches Some(j) ==> (fits(bytes@, KNOWN_EDGE) ==> image_size(j@) == image_size(bytes@)),
{
    let img = image::load_from_memory(bytes).ok()?;
    let mut buf = Vec::new();
    let enc = image::codecs::jpeg::JpegEncoder::new_with_quality(&mut buf, quality);
    img.to_rgb8().write_with_encoder(enc).ok()?;
    Some(buf)
}

/// `image::load_from_memory`, `DynamicImage::resize`, `DynamicImage::to_rgb8`
/// and `image::codecs::jpeg::JpegEncoder`: the image as a JPEG, scaled with a
/// filter to fit in a square; nothing where the bytes are no image or it cannot
/// be written. The result of a square that is neither empty nor large fits in
/// it. The encoded bytes are only named.
#[verifier::external_body]
fn jpeg_within(bytes: &[u8], edge: u32, filter: Filter, quality: u8) -> (r: Option<Vec<u8>>)
    ensures
        bytes_opt(r) == jpeg_image_within(bytes@, edge, filter, quality),
        r matches Some(j) ==> (0 < edge <= KNOWN_EDGE ==> fits(j@, edge)),
{
    let filter = match filter {
        Filter::Nearest => image::imageops::FilterType::Nearest,
        Filter::Triangle => image::imageops::FilterType::Triangle,
        Filter::CatmullRom => image::imageops::FilterType::CatmullRom,
    };
    let img = image::load_from_memory(bytes).ok()?.resize(edge, edge, filter);
    let mut buf = Vec::new();
    let enc = image::codecs::jpeg::JpegEncoder::new_with_quality(&mut buf, quality);
    img.to_rgb8().write_with_encoder(enc).ok()?;
    Some(buf)
}

/// What a list of pixels holds.
pub open spec fn pixels_opt(v: Option<(u32, u32, Vec<u8>)>) -> Option<(u32, u32, Seq<u8>)> {
    match v {
        Some((w, h, p)) => Some((w, h, p@)),
        None => None,
    }
}

/// `image::load_from_memory`, `DynamicImage::to_rgba8` and
/// `ImageBuffer::into_raw`: the size and the pixels of an image; nothing where
/// the bytes are none. The pixels are only named.
#[verifier::external_body]
fn pixels_of(bytes: &[u8]) -> (r: Option<(u32, u32, Vec<u8>)>)
    ensures
        pixels_opt(r) == rgba_image(bytes@),
        r matches Some((w, h, p)) ==> image_size(bytes@) == Some((w, h)) && p@.len() == 4 * w * h,
{
    let img = image::load_from_memory(bytes).ok()?.to_rgba8();
    Some((img.width(), img.height(), img.into_raw()))
}

/// Whether an image can be scaled to fill a square: the side that is cropped
/// has a length that fits the number it is kept in.
pub open spec fn can_fill(w: u32, h: u32, edge: u32) -> bool {
    &&& w > 0
    &&& h > 0
    &&& edge * w <= u32::MAX * h
    &&& edge * h <= u32::MAX * w
}

/// `image::load_from_memory`, `DynamicImage::resize_to_fill`,
/// `DynamicImage::to_rgba8` and `ImageBuffer::into_raw`: the size and the pixels
/// of an image that is scaled with a filter, and cropped, to fill a square;
/// nothing where the bytes are no image. The pixels are only named.
#[verifier::external_body]
fn pixels_filling(bytes: &[u8], edge: u32, filter: Filter) -> (r: Option<(u32, u32, Vec<u8>)>)
    requires
        0 < edge <= KNOWN_EDGE,
        image_size(bytes@) matches Some(d) ==> can_fill(d.0, d.1, edge),
    ensures
        pixels_opt(r) == rgba_image_filling(bytes@, edge, filter),
        r matches Some((w, h, p)) ==> w == edge && h == edge && p@.len() == 4 * edge * edge,
{
    let filter = match filter {
        Filter::Nearest => image::imageops::FilterType::Nearest,
        Filter::Triangle => image::imageops::FilterType::Triangle,
        Filter::CatmullRom => image::imageops::FilterType::CatmullRom,
    };
    let img = image::load_from_memory(bytes).ok()?.resize_to_fill(edge, edge, filter).to_rgba8();
    Some((img.width(), img.height(), img.into_raw()))
}

/// The pixels of some art for a place of `size`: scaled and cropped to fill it
/// where the art is larger, as they are where it is not. Nothing where the art
/// is no image, or too long and thin to be scaled.
pub open spec fn pixels_for(bytes: Seq<u8>, size: u32) -> Option<(u32, u32, Seq<u8>)> {
    match image_size(bytes) {
        Some((w, h)) => if w <= size && h <= size {
            rgba_image(bytes)
        } else if can_fill(w, h, size) {
            rgba_image_filling(bytes, size, Filter::CatmullRom)
        } else {
            None
        },
        None => None,
    }
}

fn can_be_filled(w: u32, h: u32, edge: u32) -> (r: bool)
    ensures
        r == can_fill(w, h, edge),
{
    assert(0 <= edge * w <= u32::MAX * u32::MAX) by (nonlinear_arith);
    assert(0 <= edge * h <= u32::MAX * u32::MAX) by (nonlinear_arith);
    assert(0 <= u32::MAX * w <= u32::MAX * u32::MAX) by (nonlinear_arith);
    assert(0 <= u32::MAX * h <= u32::MAX * u32::MAX) by (nonlinear_arith);
    w > 0 && h > 0 && edge as u64 * w as u64 <= u32::MAX as u64 * h as u64 && edge as u64 * h as u64
        <= u32::MAX as u64 * w as u64
}

/// The pixels of some art for a place of `size`: width, height, and four bytes
/// for each pixel.
pub fn cover_pixels(bytes: &[u8], size: u32) -> (r: Option<(u32, u32, Vec<u8>)>)
    requires
        0 < size <= KNOWN_EDGE,
    ensures
        pixels_opt(r) == pixels_for(bytes@, size),
        r matches Some((w, h, p)) ==> w <= size && h <= size && p@.len() == 4 * w * h,
{
    match size_of_image(bytes) {
        Some((w, h)) => if !needs_resize(w, h, size) {
            pixels_of(bytes)
        } else if can_be_filled(w, h, size) {
            pixels_filling(bytes, size, Filter::CatmullRom)
        } else {
            None
        },
        None => None,
    }
}

/// Whether an image is made smaller for a thumbnail of `size`.
pub fn needs_resize(width: u32, height: u32, size: u32) -> (r: bool)
    ensures
        r == (width > size || height > size),
{
    width > size || height > size
}

/// The thumbnail of some art: the image as a JPEG, made smaller only where it
/// is too large.
pub open spec fn thumbnail_of(bytes: Seq<u8>, size: u32) -> Option<Seq<u8>> {
    match image_size(bytes) {
        Some((w, h)) => if w > size || h > size {
            jpeg_image_within(bytes, size, Filter::CatmullRom, JPEG_QUALITY)
        } else {
            jpeg_image(bytes, JPEG_QUALITY)
        },
        None => None,
    }
}

/// A JPEG of some art no larger than `size`×`size`; nothing where the art is no
/// image.
pub fn thumbnail(bytes: &[u8], size: u32) -> (r: Option<Vec<u8>>)
    ensures
        bytes_opt(r) == thumbnail_of(bytes@, size),
        r matches Some(j) ==> (0 < size <= KNOWN_EDGE ==> fits(j@, size)),
{
    match size_of_image(bytes) {
        Some((w, h)) => if needs_resize(w, h, size) {
            jpeg_within(bytes, size, Filter::CatmullRom, JPEG_QUALITY)
        } else {
            jpeg_of(bytes, JPEG_QUALITY)
        },
        None => None,
    }
}

/// Where a cover hint points.
#[derive(Debug)]
pub enum CoverPlace {
    /// The art that goes with an audio file.
    File(String),
    /// An image on the web.
    Web,
    Nowhere,
}

/// Where to look for a cover, given whether the hint names a file that exists.
pub fn cover_place(hint: &str, on_disk: bool) -> (p: CoverPlace)
    ensures
        if starts_with(hint@, "file:"@) {
            match path_of(hint@) {
                Some(path) => p matches CoverPlace::File(f) && f@ == path,
                None => p is Nowhere,
            }
        } else if on_disk {
            p matches CoverPlace::File(f) && f@ == hint@
        } else if on_the_web(hint@) {
            p is Web
        } else {
            p is Nowhere
        },
{
    if starts_with_chars(&chars_of(hint), &chars_of("file:")) {
        match uri_to_path(hint) {
            Some(path) => CoverPlace::File(path),
            None => CoverPlace::Nowhere,
        }
    } else if on_disk {
        CoverPlace::File(copy_str(hint))
    } else if is_on_the_web(hint) {
        CoverPlace::Web
    } else {
        CoverPlace::Nowhere
    }
}

} // verus!
