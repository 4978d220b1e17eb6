//! The calls into other crates. Every contract in this file is taken on trust:
//! Verus does not read the bodies, and the results that take pages to state are
//! given a name instead of a definition.

use image::ImageEncoder;
use image::ImageFormat as Raster;
use rand::Rng;
use crate::text::{nested_texts, opt_texts, texts};
use vstd::prelude::*;

verus! {

/// The container formats of raster images that the `image` crate names.
#[derive(Debug, Clone, Copy, PartialEq, Eq, Structural)]
pub enum ImageFormat {
    Png,
    Jpeg,
    Gif,
    WebP,
    Pnm,
    Tiff,
    Tga,
    Dds,
    Bmp,
    Ico,
    Hdr,
    OpenExr,
    Farbfeld,
    Avif,
    Qoi,
    Pcx,
}

/// A decoded raster image: its dimensions and its pixels as 8-bit RGBA, row by row.
pub struct Bitmap {
    pub width: u32,
    pub height: u32,
    pub rgba: Vec<u8>,
}

/// The format that `image::guess_format` tells from the first bytes of `bytes`,
/// `None` where it knows none.
pub uninterp spec fn guessed_format(bytes: Seq<u8>) -> Option<ImageFormat>;

/// What `image::load_from_memory_with_format` decodes from `bytes` read as
/// `format`: width, height and the pixels as 8-bit RGBA. `None` where it fails.
pub uninterp spec fn decoded(bytes: Seq<u8>, format: ImageFormat) -> Option<(u32, u32, Seq<u8>)>;

/// The PNG file that `image::codecs::png::PngEncoder` writes for 8-bit RGBA
/// pixels of the given dimensions. `None` where it fails.
pub uninterp spec fn png_encoded(rgba: Seq<u8>, width: u32, height: u32) -> Option<Seq<u8>>;

/// For each element of the document `html` that matches the CSS selector group
/// `selector`, in the order in which `scraper::Html::select` yields them, what
/// `attr` of `scraper::ElementRef` returns for the attribute `attr`: its value,
/// or `None` where the element has no such attribute. `None` as a whole where
/// `selector` does not parse.
pub uninterp spec fn selected_attrs(html: Seq<char>, selector: Seq<char>, attr: Seq<char>) -> Option<
    Seq<Option<Seq<char>>>,
>;

/// For each element of the document `html` that matches the CSS selector group
/// `selector`, in the order in which `scraper::Html::select` yields them, the
/// descendant text nodes that `text` of `scraper::ElementRef` yields, in
/// order. `None` where `selector` does not parse.
pub uninterp spec fn selected_texts(html: Seq<char>, selector: Seq<char>) -> Option<
    Seq<Seq<Seq<char>>>,
>;

/// The serialization of the URL that `url::Url::parse` reads from `input`,
/// `None` where it reads none.
pub uninterp spec fn url_parsed(input: Seq<char>) -> Option<Seq<char>>;

/// The serialization of the URL that `url::Url::join` resolves `reference` to
/// against the URL `base`. `None` where `base` is no URL or the join fails.
pub uninterp spec fn url_joined(base: Seq<char>, reference: Seq<char>) -> Option<Seq<char>>;

/// The path segments that `url::Url::path_segments` gives for the URL `url`,
/// in order. `None` where `url` is no URL or cannot have path segments.
pub uninterp spec fn url_path_segments(url: Seq<char>) -> Option<Seq<Seq<char>>>;

/// Calls `image::guess_format`, which tells a format from the magic bytes at
/// the start of `buffer`. The result is the named `guessed_format`; a failure
/// of the call, or a format that this library has no name for, is `None`.
#[verifier::external_body]
#[allow(deprecated)]
pub(crate) fn guess_format(buffer: &[u8]) -> (r: Option<ImageFormat>)
    ensures
        r == guessed_format(buffer@),
{
    Some(match image::guess_format(buffer).ok()? {
        Raster::Png => ImageFormat::Png, Raster::Jpeg => ImageFormat::Jpeg,
        Raster::Gif => ImageFormat::Gif, Raster::WebP => ImageFormat::WebP,
        Raster::Pnm => ImageFormat::Pnm, Raster::Tiff => ImageFormat::Tiff,
        Raster::Tga => ImageFormat::Tga, Raster::Dds => ImageFormat::Dds,
        Raster::Bmp => ImageFormat::Bmp, Raster::Ico => ImageFormat::Ico,
        Raster::Hdr => ImageFormat::Hdr, Raster::OpenExr => ImageFormat::OpenExr,
        Raster::Farbfeld => ImageFormat::Farbfeld, Raster::Avif => ImageFormat::Avif,
        Raster::Qoi => ImageFormat::Qoi, Raster::Pcx => ImageFormat::Pcx,
        _ => return None,
    })
}

/// Calls `image::load_from_memory_with_format` on `buffer` read as `format`,
/// and hands the image out as plain values: its width, its height and a copy
/// of its pixels converted to 8-bit RGBA (`to_rgba8`), which holds four bytes
/// for each pixel. The result is the named `decoded`; a failure is `None`.
#[verifier::external_body]
#[allow(deprecated)]
pub(crate) fn decode(buffer: &[u8], format: ImageFormat) -> (r: Option<Bitmap>)
    ensures
        match r {
            Some(b) => decoded(buffer@, format) == Some((b.width, b.height, b.rgba@))
                && b.rgba@.len() == 4 * b.width * b.height,
            None => decoded(buffer@, format) is None,
        },
{
    let raster = match format {
        ImageFormat::Png => Raster::Png, ImageFormat::Jpeg => Raster::Jpeg,
        ImageFormat::Gif => Raster::Gif, ImageFormat::WebP => Raster::WebP,
        ImageFormat::Pnm => Raster::Pnm, ImageFormat::Tiff => Raster::Tiff,
        ImageFormat::Tga => Raster::Tga, ImageFormat::Dds => Raster::Dds,
        ImageFormat::Bmp => Raster::Bmp, ImageFormat::Ico => Raster::Ico,
        ImageFormat::Hdr => Raster::Hdr, ImageFormat::OpenExr => Raster::OpenExr,
        ImageFormat::Farbfeld => Raster::Farbfeld, ImageFormat::Avif => Raster::Avif,
        ImageFormat::Qoi => Raster::Qoi, ImageFormat::Pcx => Raster::Pcx,
    };
    let img = image::load_from_memory_with_format(buffer, raster).ok()?;
    Some(Bitmap { width: img.width(), height: img.height(), rgba: img.to_rgba8().into_raw() })
}

/// Calls `write_image` of `image::codecs::png::PngEncoder` on 8-bit RGBA
/// pixels, writing into a fresh vector. The call panics unless the buffer
/// holds four bytes for each pixel, so that is required. The result is the
/// named `png_encoded`; a failure is `None`.
#[verifier::external_body]
pub(crate) fn encode_png(rgba: &[u8], width: u32, height: u32) -> (r: Option<Vec<u8>>)
    requires
        rgba@.len() == 4 * width * height,
    ensures
        match r {
            Some(png) => png_encoded(rgba@, width, height) == Some(png@),
            None => png_encoded(rgba@, width, height) is None,
        },
{
    let mut out = Vec::new();
    let encoder = image::codecs::png::PngEncoder::new(&mut out);
    encoder.write_image(rgba, width, height, image::ExtendedColorType::Rgba8).ok()?;
    Some(out)
}

/// Parses `html` with `scraper::Html::parse_document` and `selector` with
/// `scraper::Selector::parse`, walks the matches of `scraper::Html::select`
/// and hands out, for each, what `attr` of `scraper::ElementRef` returns.
/// The result is the named `selected_attrs`.
#[verifier::external_body]
pub(crate) fn select_attrs(html: &str, selector: &str, attr: &str) -> (r: Option<
    Vec<Option<String>>,
>)
    ensures
        match r {
            Some(values) => selected_attrs(html@, selector@, attr@) == Some(opt_texts(values@)),
            None => selected_attrs(html@, selector@, attr@) is None,
        },
{
    let selector = scraper::Selector::parse(selector).ok()?;
    let document = scraper::Html::parse_document(html);
    Some(document.select(&selector).map(|e| e.attr(attr).map(String::from)).collect())
}

/// Parses `html` and `selector` as `select_attrs` does, walks the matches of
/// `scraper::Html::select` and hands out, for each, the text nodes that
/// `text` of `scraper::ElementRef` yields. The result is the named
/// `selected_texts`.
#[verifier::external_body]
pub(crate) fn select_texts(html: &str, selector: &str) -> (r: Option<Vec<Vec<String>>>)
    ensures
        match r {
            Some(values) => selected_texts(html@, selector@) == Some(nested_texts(values@)),
            None => selected_texts(html@, selector@) is None,
        },
{
    let selector = scraper::Selector::parse(selector).ok()?;
    let document = scraper::Html::parse_document(html);
    Some(document.select(&selector).map(|e| e.text().map(String::from).collect()).collect())
}

/// Calls `url::Url::parse` and hands the URL out as its serialization. The
/// result is the named `url_parsed`.
#[verifier::external_body]
pub(crate) fn parse_url(input: &str) -> (r: Option<String>)
    ensures
        match r {
            Some(url) => url_parsed(input@) == Some(url@),
            None => url_parsed(input@) is None,
        },
{
    url::Url::parse(input).ok().map(String::from)
}

/// Calls `url::Url::join` on the URL parsed from `base` and hands the result
/// out as its serialization. The result is the named `url_joined`.
#[verifier::external_body]
pub(crate) fn join_url(base: &str, reference: &str) -> (r: Option<String>)
    ensures
        match r {
            Some(url) => url_joined(base@, reference@) == Some(url@),
            None => url_joined(base@, reference@) is None,
        },
{
    url::Url::parse(base).ok()?.join(reference).ok().map(String::from)
}

/// Calls `url::Url::path_segments` on the URL parsed from `url` and hands out
/// the segments, in order. The result is the named `url_path_segments`.
#[verifier::external_body]
pub(crate) fn path_segments(url: &str) -> (r: Option<Vec<String>>)
    ensures
        match r {
            Some(segments) => url_path_segments(url@) == Some(texts(segments@)),
            None => url_path_segments(url@) is None,
        },
{
    Some(url::Url::parse(url).ok()?.path_segments()?.map(String::from).collect())
}

/// Draws `count` characters with `sample_iter` of `rand::thread_rng()`, from
/// `rand::distributions::Uniform` over the closed range from `low` to `high`.
/// The range panics when it is empty, so `low <= high` is required. What is
/// drawn differs from call to call: the contract states only the length and
/// the range of the characters.
#[verifier::external_body]
pub(crate) fn random_chars(low: char, high: char, count: usize) -> (s: String)
    requires
        low <= high,
    ensures
        s@.len() == count,
        forall|i: int| 0 <= i < s@.len() ==> low <= #[trigger] s@[i] <= high,
{
    let range = rand::distributions::Uniform::from(low..=high);
    rand::thread_rng().sample_iter(range).take(count).collect()
}

} // verus!
