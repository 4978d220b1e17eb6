//! Site metadata: classifying fetched icons, ranking them, and choosing the
//! title and icon of a website.

use crate::outside::{
    decode, decoded, encode_png, guess_format, guessed_format, join_url,
    parse_url as parse_absolute, path_segments, png_encoded, select_attrs, select_texts,
    selected_attrs, selected_texts, url_joined, url_parsed, url_path_segments, ImageFormat,
};
use crate::text::{
    concat2, contains, ends_with_after_stem, has_suffix_after_stem, i32_text, int_text, join_all,
    joined, nested_texts, opt_texts, owned, texts,
};
use std::cmp::Ordering;
use vstd::prelude::*;
use vstd::std_specs::cmp::PartialOrdSpecImpl;

verus! {

/// Raster icons wider than this many pixels are left out of the ranking.
pub const ICON_CEILING: u32 = 256;

/// How large an icon is: the decoded dimensions of a raster image, or
/// `Variable` for a vector image, which scales to any size.
#[derive(Debug, Clone, Copy, PartialEq, Eq)]
pub enum ImageSize {
    Sized((u32, u32)),
    Variable,
}

impl ImageSize {
    /// The width of a raster image, and the largest `u32` for a vector
    /// image, which has no width of its own.
    pub open spec fn spec_size(&self) -> u32 {
        match self {
            ImageSize::Variable => u32::MAX,
            ImageSize::Sized((w, _)) => *w,
        }
    }

    /// The width of this size; the largest `u32` for a vector image.
    #[verifier::when_used_as_spec(spec_size)]
    pub fn size(&self) -> (r: u32)
        ensures
            r == self.spec_size(),
    {
        match self {
            ImageSize::Variable => u32::MAX,
            ImageSize::Sized((w, _)) => *w,
        }
    }

    /// The rank of a size: the width of a raster image, and a number above
    /// every width for a vector image, which outranks every raster image.
    pub open spec fn spec_rank(&self) -> u64 {
        match self {
            ImageSize::Variable => 0x1_0000_0000u64,
            ImageSize::Sized((w, _)) => *w as u64,
        }
    }

    /// The rank of this size.
    #[verifier::when_used_as_spec(spec_rank)]
    pub fn rank(&self) -> (r: u64)
        ensures
            r == self.spec_rank(),
    {
        match self {
            ImageSize::Variable => 0x1_0000_0000u64,
            ImageSize::Sized((w, _)) => *w as u64,
        }
    }

    /// The size of higher rank; `other` where the two rank alike.
    pub fn max(self, other: Self) -> (r: Self)
        ensures
            r == if self.spec_rank() > other.spec_rank() {
                self
            } else {
                other
            },
    {
        if self.rank() > other.rank() {
            self
        } else {
            other
        }
    }

    /// The size of lower rank; `other` where the two rank alike.
    pub fn min(self, other: Self) -> (r: Self)
        ensures
            r == if self.spec_rank() < other.spec_rank() {
                self
            } else {
                other
            },
    {
        if self.rank() < other.rank() {
            self
        } else {
            other
        }
    }

    /// Whether this size may enter the ranking: every vector image, and the
    /// raster images that are no wider than `ICON_CEILING`.
    pub open spec fn spec_within_ceiling(&self) -> bool {
        match self {
            ImageSize::Variable => true,
            ImageSize::Sized((w, _)) => *w <= ICON_CEILING,
        }
    }

    /// Whether this size may enter the ranking.
    #[verifier::when_used_as_spec(spec_within_ceiling)]
    pub fn within_ceiling(&self) -> (r: bool)
        ensures
            r == self.spec_within_ceiling(),
    {
        match self {
            ImageSize::Variable => true,
            ImageSize::Sized((w, _)) => *w <= ICON_CEILING,
        }
    }
}

/// How the rank `a` stands to the rank `b`.
pub open spec fn rank_order(a: u64, b: u64) -> Ordering {
    if a < b {
        Ordering::Less
    } else if a > b {
        Ordering::Greater
    } else {
        Ordering::Equal
    }
}

fn order_of(a: u64, b: u64) -> (r: Ordering)
    ensures
        r == rank_order(a, b),
{
    if a < b {
        Ordering::Less
    } else if a > b {
        Ordering::Greater
    } else {
        Ordering::Equal
    }
}

impl ImageSize {
    /// How this size stands to `other`, by rank.
    pub fn cmp(&self, other: &Self) -> (r: Ordering)
        ensures
            r == rank_order(self.spec_rank(), other.spec_rank()),
    {
        order_of(self.rank(), other.rank())
    }
}

impl PartialOrd for ImageSize {
    /// Sizes are ordered by rank; two raster sizes of equal width rank alike.
    fn partial_cmp(&self, other: &Self) -> (r: Option<Ordering>) {
        Some(order_of(self.rank(), other.rank()))
    }
}

impl PartialOrdSpecImpl for ImageSize {
    open spec fn obeys_partial_cmp_spec() -> bool {
        true
    }

    open spec fn partial_cmp_spec(&self, other: &Self) -> Option<Ordering> {
        Some(rank_order(self.spec_rank(), other.spec_rank()))
    }
}

/// A vector image outranks every raster image, whatever its width.
pub proof fn lemma_vector_outranks_raster(w: u32, h: u32)
    ensures
        rank_order(ImageSize::Variable.spec_rank(), ImageSize::Sized((w, h)).spec_rank())
            == Ordering::Greater,
        rank_order(ImageSize::Sized((w, h)).spec_rank(), ImageSize::Variable.spec_rank())
            == Ordering::Less,
{
}

/// An icon: the bytes of a PNG or SVG file and its size.
#[derive(Debug, PartialEq, Eq)]
pub struct Image {
    pub buffer: Vec<u8>,
    pub size: ImageSize,
}

/// What an `Image` holds, as mathematical values.
pub struct ImageView {
    pub buffer: Seq<u8>,
    pub size: ImageSize,
}

impl View for Image {
    type V = ImageView;

    open spec fn view(&self) -> ImageView {
        ImageView { buffer: self.buffer@, size: self.size }
    }
}

impl Clone for Image {
    fn clone(&self) -> (r: Self)
        ensures
            r@ == self@,
    {
        Image { buffer: self.buffer.clone(), size: self.size }
    }
}

/// Why fetched bytes are no usable icon.
#[derive(Debug, Clone, Copy, PartialEq, Eq, Structural)]
pub enum IconError {
    /// The bytes start like no known image format, and nothing says they are SVG.
    UnsupportedFormat,
    /// The bytes start like a known format but do not decode.
    Undecodable,
    /// The raster image is not square.
    NotSquare,
    /// The image decoded but could not be written as PNG.
    EncodeFailed,
}

impl IconError {
    /// The sentence that tells the user of this error.
    pub open spec fn spec_message(&self) -> Seq<char> {
        match self {
            IconError::UnsupportedFormat => "The image format could not be determined"@,
            IconError::Undecodable => "The image could not be decoded"@,
            IconError::NotSquare => "Image is not square"@,
            IconError::EncodeFailed => "The image could not be converted to PNG"@,
        }
    }

    /// A sentence for the user.
    pub fn message(&self) -> (r: String)
        ensures
            r@ == self.spec_message(),
    {
        match self {
            IconError::UnsupportedFormat => owned("The image format could not be determined"),
            IconError::Undecodable => owned("The image could not be decoded"),
            IconError::NotSquare => owned("Image is not square"),
            IconError::EncodeFailed => owned("The image could not be converted to PNG"),
        }
    }
}

/// What is decided about a decoded raster image before it is kept: it is
/// rejected unless square, and it is to be written anew as PNG (`true`)
/// unless it came as PNG (`false`).
pub open spec fn raster_check(format: ImageFormat, width: u32, height: u32) -> Result<
    bool,
    IconError,
> {
    if width != height {
        Err(IconError::NotSquare)
    } else {
        Ok(format != ImageFormat::Png)
    }
}

/// Decides about a decoded raster image: `Err(NotSquare)` unless it is
/// square, else whether it must be written anew as PNG.
pub fn check_raster(format: ImageFormat, width: u32, height: u32) -> (r: Result<bool, IconError>)
    ensures
        r == raster_check(format, width, height),
{
    if width != height {
        Err(IconError::NotSquare)
    } else {
        Ok(format != ImageFormat::Png)
    }
}

/// The icon that fetched bytes make. Bytes said to be SVG pass through as a
/// vector image. Other bytes are read as the raster format that their first
/// bytes tell, must decode and be square, and are kept as they are if PNG,
/// else written anew as PNG from their 8-bit RGBA pixels.
pub open spec fn classified(buffer: Seq<u8>, is_svg: bool) -> Result<ImageView, IconError> {
    if is_svg {
        Ok(ImageView { buffer, size: ImageSize::Variable })
    } else {
        match guessed_format(buffer) {
            None => Err(IconError::UnsupportedFormat),
            Some(format) => match decoded(buffer, format) {
                None => Err(IconError::Undecodable),
                Some((width, height, rgba)) => match raster_check(format, width, height) {
                    Err(e) => Err(e),
                    Ok(false) => Ok(ImageView { buffer, size: ImageSize::Sized((width, height)) }),
                    Ok(true) => match png_encoded(rgba, width, height) {
                        None => Err(IconError::EncodeFailed),
                        Some(png) => Ok(
                            ImageView { buffer: png, size: ImageSize::Sized((width, height)) },
                        ),
                    },
                },
            },
        }
    }
}

/// The mathematical value of a classification result.
pub open spec fn image_result_view(r: Result<Image, IconError>) -> Result<ImageView, IconError> {
    match r {
        Ok(image) => Ok(image@),
        Err(e) => Err(e),
    }
}

impl Image {
    /// Classifies fetched bytes as an icon.
    pub fn from_buffer(buffer: Vec<u8>, is_svg: bool) -> (r: Result<Image, IconError>)
        ensures
            image_result_view(r) == classified(buffer@, is_svg),
    {
        if is_svg {
            return Ok(Image { buffer, size: ImageSize::Variable });
        }
        let format = match guess_format(buffer.as_slice()) {
            Some(format) => format,
            None => {
                return Err(IconError::UnsupportedFormat);
            },
        };
        let bitmap = match decode(buffer.as_slice(), format) {
            Some(bitmap) => bitmap,
            None => {
                return Err(IconError::Undecodable);
            },
        };
        let reencode = match check_raster(format, bitmap.width, bitmap.height) {
            Ok(reencode) => reencode,
            Err(e) => {
                return Err(e);
            },
        };
        let size = ImageSize::Sized((bitmap.width, bitmap.height));
        if reencode {
            match encode_png(bitmap.rgba.as_slice(), bitmap.width, bitmap.height) {
                Some(png) => Ok(Image { buffer: png, size }),
                None => Err(IconError::EncodeFailed),
            }
        } else {
            Ok(Image { buffer, size })
        }
    }

    /// The image of higher rank; `other` where the two rank alike.
    pub fn max(self, other: Self) -> (r: Self)
        ensures
            r == if self.size.spec_rank() > other.size.spec_rank() {
                self
            } else {
                other
            },
    {
        if self.size.rank() > other.size.rank() {
            self
        } else {
            other
        }
    }

    /// The image of lower rank; `other` where the two rank alike.
    pub fn min(self, other: Self) -> (r: Self)
        ensures
            r == if self.size.spec_rank() < other.size.spec_rank() {
                self
            } else {
                other
            },
    {
        if self.size.rank() < other.size.rank() {
            self
        } else {
            other
        }
    }
}

impl Image {
    /// How this image stands to `other`, by the rank of their sizes.
    pub fn cmp(&self, other: &Self) -> (r: Ordering)
        ensures
            r == rank_order(self.size.spec_rank(), other.size.spec_rank()),
    {
        order_of(self.size.rank(), other.size.rank())
    }
}

impl PartialOrd for Image {
    /// Images are ordered by the rank of their sizes.
    fn partial_cmp(&self, other: &Self) -> (r: Option<Ordering>) {
        Some(order_of(self.size.rank(), other.size.rank()))
    }
}

impl PartialOrdSpecImpl for Image {
    open spec fn obeys_partial_cmp_spec() -> bool {
        true
    }

    open spec fn partial_cmp_spec(&self, other: &Self) -> Option<Ordering> {
        Some(rank_order(self.size.spec_rank(), other.size.spec_rank()))
    }
}

/// The sizes of a list of images.
pub open spec fn image_sizes(images: Seq<ImageView>) -> Seq<ImageSize> {
    images.map_values(|i: ImageView| i.size)
}

/// The mathematical values of a list of images.
pub open spec fn image_views(images: Seq<Image>) -> Seq<ImageView> {
    images.map_values(|i: Image| i@)
}

/// Whether the candidate at `k` wins the ranking: it is within the ceiling,
/// no candidate within the ceiling outranks it, and every later one within
/// the ceiling ranks strictly lower. Among candidates of equal rank the last
/// one wins.
pub open spec fn is_best(sizes: Seq<ImageSize>, k: int) -> bool {
    &&& 0 <= k < sizes.len()
    &&& sizes[k].spec_within_ceiling()
    &&& forall|j: int|
        0 <= j < sizes.len() && (#[trigger] sizes[j]).spec_within_ceiling() ==> sizes[j].spec_rank()
            <= sizes[k].spec_rank()
    &&& forall|j: int|
        k < j < sizes.len() && (#[trigger] sizes[j]).spec_within_ceiling() ==> sizes[j].spec_rank()
            < sizes[k].spec_rank()
}

/// Whether no candidate is within the ceiling.
pub open spec fn none_eligible(sizes: Seq<ImageSize>) -> bool {
    forall|j: int| 0 <= j < sizes.len() ==> !(#[trigger] sizes[j]).spec_within_ceiling()
}

/// The index of the winner of the ranking, `None` where no candidate is
/// within the ceiling.
pub open spec fn best_index(sizes: Seq<ImageSize>) -> Option<int> {
    if exists|k: int| is_best(sizes, k) {
        Some(choose|k: int| is_best(sizes, k))
    } else {
        None
    }
}

/// The ranking has at most one winner.
pub proof fn lemma_best_unique(sizes: Seq<ImageSize>, a: int, b: int)
    requires
        is_best(sizes, a),
        is_best(sizes, b),
    ensures
        a == b,
{
    if a < b {
        assert(sizes[b].spec_rank() < sizes[a].spec_rank());
        assert(sizes[a].spec_rank() <= sizes[b].spec_rank());
    } else if b < a {
        assert(sizes[a].spec_rank() < sizes[b].spec_rank());
        assert(sizes[b].spec_rank() <= sizes[a].spec_rank());
    }
}

/// A winner is the winner, and without eligible candidates there is none.
pub proof fn lemma_best_index(sizes: Seq<ImageSize>)
    ensures
        forall|k: int| is_best(sizes, k) ==> best_index(sizes) == Some(k),
        none_eligible(sizes) ==> best_index(sizes) is None,
{
    assert forall|k: int| is_best(sizes, k) implies best_index(sizes) == Some(k) by {
        let c = choose|c: int| is_best(sizes, c);
        lemma_best_unique(sizes, k, c);
    }
    if none_eligible(sizes) {
        assert forall|k: int| !is_best(sizes, k) by {
            if 0 <= k < sizes.len() {
                assert(!sizes[k].spec_within_ceiling());
            }
        }
    }
}

/// Where some candidate is within the ceiling, the ranking has a winner.
pub proof fn lemma_best_exists(sizes: Seq<ImageSize>)
    requires
        !none_eligible(sizes),
    ensures
        best_index(sizes) matches Some(k) && is_best(sizes, k),
    decreases sizes.len(),
{
    let n = sizes.len() as int;
    let rest = sizes.drop_last();
    let last = sizes[n - 1];
    assert forall|j: int| 0 <= j < n - 1 implies rest[j] == sizes[j] by {}
    let k: int = if none_eligible(rest) {
        assert(last.spec_within_ceiling()) by {
            let w = choose|w: int| 0 <= w < n && (#[trigger] sizes[w]).spec_within_ceiling();
            if w < n - 1 {
                assert(rest[w].spec_within_ceiling());
            }
        }
        assert forall|j: int| 0 <= j < n && (#[trigger] sizes[j]).spec_within_ceiling() implies j
            == n - 1 by {
            if j < n - 1 {
                assert(rest[j].spec_within_ceiling());
            }
        }
        n - 1
    } else {
        lemma_best_exists(rest);
        let b = best_index(rest)->0;
        if last.spec_within_ceiling() && !(sizes[b].spec_rank() > last.spec_rank()) {
            assert forall|j: int|
                0 <= j < n && (#[trigger] sizes[j]).spec_within_ceiling() implies sizes[j].spec_rank()
                <= last.spec_rank() by {
                if j < n - 1 {
                    assert(rest[j].spec_within_ceiling());
                }
            }
            n - 1
        } else {
            assert forall|j: int|
                0 <= j < n && (#[trigger] sizes[j]).spec_within_ceiling() implies sizes[j].spec_rank()
                <= sizes[b].spec_rank() by {
                if j < n - 1 {
                    assert(rest[j].spec_within_ceiling());
                }
            }
            assert forall|j: int|
                b < j < n && (#[trigger] sizes[j]).spec_within_ceiling() implies sizes[j].spec_rank()
                < sizes[b].spec_rank() by {
                if j < n - 1 {
                    assert(rest[j].spec_within_ceiling());
                }
            }
            b
        }
    };
    assert(is_best(sizes, k));
    lemma_best_index(sizes);
}

/// A vector image among the candidates wins over every raster image: the
/// winner is then a vector image, whatever raster images there are.
pub proof fn lemma_vector_wins(sizes: Seq<ImageSize>, i: int)
    requires
        0 <= i < sizes.len(),
        sizes[i] == ImageSize::Variable,
    ensures
        best_index(sizes) matches Some(k) && sizes[k] == ImageSize::Variable,
{
    assert(sizes[i].spec_within_ceiling());
    lemma_best_exists(sizes);
    let k = best_index(sizes)->0;
    assert(sizes[i].spec_rank() <= sizes[k].spec_rank());
}

/// A raster image that is wider than the ceiling never wins, and the winner
/// among raster images alone is the widest of those within the ceiling.
pub proof fn lemma_ceiling_filters(sizes: Seq<ImageSize>, k: int)
    requires
        best_index(sizes) == Some(k),
    ensures
        0 <= k < sizes.len(),
        sizes[k] matches ImageSize::Sized((w, _)) ==> w <= ICON_CEILING,
        forall|j: int|
            0 <= j < sizes.len() ==> (#[trigger] sizes[j] matches ImageSize::Sized((w, _)) ==> w
                > ICON_CEILING || w <= sizes[k].spec_rank()),
{
    assert(is_best(sizes, k));
    assert forall|j: int| 0 <= j < sizes.len() implies (#[trigger] sizes[j] matches ImageSize::Sized(
        (w, _),
    ) ==> w > ICON_CEILING || w <= sizes[k].spec_rank()) by {
        if sizes[j].spec_within_ceiling() {
            assert(sizes[j].spec_rank() <= sizes[k].spec_rank());
        }
    }
}

/// A raster image is an icon only if it is square: bytes that are not said
/// to be SVG never classify as an image of unequal width and height, nor as
/// a vector image.
pub proof fn lemma_raster_icons_are_square(buffer: Seq<u8>)
    ensures
        classified(buffer, false) matches Ok(image) ==> (image.size matches ImageSize::Sized(
            (w, h),
        ) && w == h),
{
}

/// Ranks the candidates and returns the index of the winner.
pub fn best_icon(images: &Vec<Image>) -> (r: Option<usize>)
    ensures
        match r {
            Some(k) => best_index(image_sizes(image_views(images@))) == Some(k as int),
            None => best_index(image_sizes(image_views(images@))) is None,
        },
        r matches Some(k) ==> k < images.len(),
{
    let ghost sizes = image_sizes(image_views(images@));
    let mut best: Option<usize> = None;
    let mut i: usize = 0;
    while i < images.len()
        invariant
            i <= images.len(),
            sizes == image_sizes(image_views(images@)),
            sizes.len() == images.len(),
            match best {
                Some(k) => is_best(sizes.take(i as int), k as int),
                None => none_eligible(sizes.take(i as int)),
            },
        decreases images.len() - i,
    {
        let ghost before = sizes.take(i as int);
        let ghost after = sizes.take(i + 1);
        assert(forall|j: int| 0 <= j < i ==> after[j] == before[j]);
        assert(after[i as int] == images[i as int].size);
        if images[i].size.within_ceiling() {
            match best {
                None => {
                    best = Some(i);
                },
                Some(k) => {
                    assert(before[k as int] == images[k as int].size);
                    if !(images[k].size.rank() > images[i].size.rank()) {
                        assert forall|j: int|
                            0 <= j < after.len() && (
                            #[trigger] after[j]).spec_within_ceiling() implies after[j].spec_rank()
                            <= after[i as int].spec_rank() by {
                            if j < i {
                                assert(before[j].spec_within_ceiling());
                            }
                        }
                        best = Some(i);
                    } else {
                        assert forall|j: int|
                            0 <= j < after.len() && (
                            #[trigger] after[j]).spec_within_ceiling() implies after[j].spec_rank()
                            <= after[k as int].spec_rank() by {
                            if j < i {
                                assert(before[j].spec_within_ceiling());
                            }
                        }
                        assert forall|j: int|
                            k < j < after.len() && (
                            #[trigger] after[j]).spec_within_ceiling() implies after[j].spec_rank()
                            < after[k as int].spec_rank() by {
                            if j < i {
                                assert(before[j].spec_within_ceiling());
                            }
                        }
                    }
                },
            }
        } else {
            match best {
                None => {
                    assert forall|j: int| 0 <= j < after.len() implies !(
                    #[trigger] after[j]).spec_within_ceiling() by {
                        if j < i {
                            assert(!before[j].spec_within_ceiling());
                        }
                    }
                },
                Some(k) => {
                    assert forall|j: int|
                        0 <= j < after.len() && (
                        #[trigger] after[j]).spec_within_ceiling() implies after[j].spec_rank()
                        <= after[k as int].spec_rank() by {
                        if j < i {
                            assert(before[j].spec_within_ceiling());
                        }
                    }
                    assert forall|j: int|
                        k < j < after.len() && (
                        #[trigger] after[j]).spec_within_ceiling() implies after[j].spec_rank()
                        < after[k as int].spec_rank() by {
                        if j < i {
                            assert(before[j].spec_within_ceiling());
                        }
                    }
                },
            }
        }
        i += 1;
    }
    proof {
        assert(sizes.take(i as int) =~= sizes);
        lemma_best_index(sizes);
    }
    best
}

/// The title and icon of a website.
#[derive(Debug)]
pub struct WebsiteMeta {
    pub icon: Image,
    pub title: String,
}

/// Why a website yields no metadata.
#[derive(Debug, Clone, Copy, PartialEq, Eq, Structural)]
pub enum MetaError {
    /// The document has a title, but no fetched candidate is a usable icon
    /// within the ceiling.
    NoIconFound,
    /// The document has no title element.
    NoTitleFound,
}

impl MetaError {
    /// The sentence that tells the user of this error.
    pub open spec fn spec_message(&self) -> Seq<char> {
        match self {
            MetaError::NoIconFound => "failed to fetch icon"@,
            MetaError::NoTitleFound => "failed to fetch title"@,
        }
    }

    /// A sentence for the user.
    pub fn message(&self) -> (r: String)
        ensures
            r@ == self.spec_message(),
    {
        match self {
            MetaError::NoIconFound => owned("failed to fetch icon"),
            MetaError::NoTitleFound => owned("failed to fetch title"),
        }
    }
}

/// The metadata chosen from a title and classified icons: the title
/// together with the winner of the ranking. Without a title the title is
/// missing, whatever the icons; with a title and no winner the icon is
/// missing.
pub open spec fn meta_choice(title: Option<Seq<char>>, images: Seq<ImageView>) -> Result<
    (ImageView, Seq<char>),
    MetaError,
> {
    match title {
        None => Err(MetaError::NoTitleFound),
        Some(t) => match best_index(image_sizes(images)) {
            None => Err(MetaError::NoIconFound),
            Some(k) => Ok((images[k], t)),
        },
    }
}

/// A page without a title yields the error for the missing title, whatever
/// its icons; the error for a missing icon comes only with a title.
pub proof fn lemma_missing_title_first(title: Option<Seq<char>>, images: Seq<ImageView>)
    ensures
        title is None ==> meta_choice(title, images) == Err::<(ImageView, Seq<char>), MetaError>(
            MetaError::NoTitleFound,
        ),
        meta_choice(title, images) == Err::<(ImageView, Seq<char>), MetaError>(
            MetaError::NoIconFound,
        ) ==> title is Some && best_index(image_sizes(images)) is None,
        meta_choice(title, images) matches Ok((_, t)) ==> title == Some(t),
{
}

/// The mathematical value of a metadata result.
pub open spec fn meta_result_view(r: Result<WebsiteMeta, MetaError>) -> Result<
    (ImageView, Seq<char>),
    MetaError,
> {
    match r {
        Ok(meta) => Ok((meta.icon@, meta.title@)),
        Err(e) => Err(e),
    }
}

/// The characters of an optional string.
pub open spec fn opt_text(s: Option<String>) -> Option<Seq<char>> {
    match s {
        Some(s) => Some(s@),
        None => None,
    }
}

/// Chooses the metadata of a website from its title and its classified icons.
pub fn choose_meta(title: Option<String>, images: Vec<Image>) -> (r: Result<WebsiteMeta, MetaError>)
    ensures
        meta_result_view(r) == meta_choice(opt_text(title), image_views(images@)),
{
    match title {
        None => Err(MetaError::NoTitleFound),
        Some(title) => match best_icon(&images) {
            None => Err(MetaError::NoIconFound),
            Some(k) => Ok(WebsiteMeta { icon: images[k].clone(), title }),
        },
    }
}

/// The CSS selector group of the link elements that name an icon.
pub const ICON_SELECTOR: &'static str =
    "link[rel='icon'], link[rel='shortcut icon'], link[rel^='apple-touch-icon']";

/// The CSS selector of the title element.
pub const TITLE_SELECTOR: &'static str = "title";

/// The attribute of a link element that holds the icon's path.
pub const HREF: &'static str = "href";

/// The first of the two paths that are tried on every site.
pub const FAVICON_ICO: &'static str = "/favicon.ico";

/// The second of the two paths that are tried on every site.
pub const FAVICON_PNG: &'static str = "/favicon.png";

/// The file name ending that marks a vector image.
pub const SVG_SUFFIX: &'static str = ".svg";

/// `s` without its repeated elements: of equal elements the first stays, and
/// what stays keeps its order.
pub open spec fn unique(s: Seq<Seq<char>>) -> Seq<Seq<char>>
    decreases s.len(),
{
    if s.len() == 0 {
        s
    } else {
        let d = unique(s.drop_last());
        if d.contains(s.last()) {
            d
        } else {
            d.push(s.last())
        }
    }
}

/// The icon paths to try for a page whose links name `hrefs`: those paths,
/// then the two fixed ones, each path once.
pub open spec fn candidate_set(hrefs: Seq<Seq<char>>) -> Seq<Seq<char>> {
    unique(hrefs + seq![FAVICON_ICO@, FAVICON_PNG@])
}

/// Appends `s` unless the list holds it already.
fn push_unique(out: &mut Vec<String>, s: String)
    ensures
        texts(final(out)@) == if texts(old(out)@).contains(s@) {
            texts(old(out)@)
        } else {
            texts(old(out)@).push(s@)
        },
{
    if !contains(out, s.as_str()) {
        out.push(s);
        assert(texts(out@) =~= texts(old(out)@).push(s@));
    }
}

/// The icon paths to try, from the paths that the page's links name.
pub fn candidate_paths(hrefs: Vec<String>) -> (out: Vec<String>)
    ensures
        texts(out@) == candidate_set(texts(hrefs@)),
{
    let ghost all = texts(hrefs@) + seq![FAVICON_ICO@, FAVICON_PNG@];
    let mut out: Vec<String> = Vec::new();
    let mut i: usize = 0;
    assert(all.take(0) =~= Seq::<Seq<char>>::empty());
    while i < hrefs.len()
        invariant
            i <= hrefs.len(),
            all == texts(hrefs@) + seq![FAVICON_ICO@, FAVICON_PNG@],
            texts(out@) == unique(all.take(i as int)),
        decreases hrefs.len() - i,
    {
        proof {
            let t = all.take(i + 1);
            assert(t.drop_last() =~= all.take(i as int));
            assert(t.last() == hrefs[i as int]@);
        }
        push_unique(&mut out, hrefs[i].clone());
        i += 1;
    }
    let ghost n = hrefs.len() as int;
    proof {
        let t = all.take(n + 1);
        assert(t.drop_last() =~= all.take(n));
        assert(t.last() == FAVICON_ICO@);
    }
    assert(texts(out@) == unique(all.take(n)));
    push_unique(&mut out, owned(FAVICON_ICO));
    assert(texts(out@) == unique(all.take(n + 1)));
    proof {
        let t = all.take(n + 2);
        assert(t.drop_last() =~= all.take(n + 1));
        assert(t.last() == FAVICON_PNG@);
        assert(t =~= all);
    }
    push_unique(&mut out, owned(FAVICON_PNG));
    assert(texts(out@) == unique(all.take(n + 2)));
    assert(all.take(n + 2) == all);
    out
}

/// The URLs that `paths` resolve to against `base`, in order; a path that
/// does not resolve is left out.
pub open spec fn resolved(base: Seq<char>, paths: Seq<Seq<char>>) -> Seq<Seq<char>>
    decreases paths.len(),
{
    if paths.len() == 0 {
        Seq::empty()
    } else {
        let r = resolved(base, paths.drop_last());
        match url_joined(base, paths.last()) {
            Some(url) => r.push(url),
            None => r,
        }
    }
}

/// The values that are there, in order: each `None` is left out.
pub open spec fn present(values: Seq<Option<Seq<char>>>) -> Seq<Seq<char>>
    decreases values.len(),
{
    if values.len() == 0 {
        Seq::empty()
    } else {
        let r = present(values.drop_last());
        match values.last() {
            Some(v) => r.push(v),
            None => r,
        }
    }
}

/// The icon paths that the links of a page name: the `href` of each icon
/// link that has one.
pub open spec fn icon_hrefs(html: Seq<char>) -> Seq<Seq<char>> {
    match selected_attrs(html, ICON_SELECTOR@, HREF@) {
        Some(hrefs) => present(hrefs),
        None => Seq::empty(),
    }
}

/// The values that are there, in order.
fn keep_present(values: Vec<Option<String>>) -> (out: Vec<String>)
    ensures
        texts(out@) == present(opt_texts(values@)),
{
    let mut out: Vec<String> = Vec::new();
    let mut i: usize = 0;
    assert(opt_texts(values@).take(0) =~= Seq::<Option<Seq<char>>>::empty());
    while i < values.len()
        invariant
            i <= values.len(),
            texts(out@) == present(opt_texts(values@).take(i as int)),
        decreases values.len() - i,
    {
        proof {
            let t = opt_texts(values@).take(i + 1);
            assert(t.drop_last() =~= opt_texts(values@).take(i as int));
            assert(t.last() == opt_texts(values@)[i as int]);
        }
        match &values[i] {
            Some(v) => {
                let ghost before = texts(out@);
                out.push(v.clone());
                assert(texts(out@) =~= before.push(v@));
            },
            None => {},
        }
        i += 1;
    }
    assert(opt_texts(values@).take(values.len() as int) =~= opt_texts(values@));
    out
}

/// The URLs at which the icon of a page is looked for.
pub open spec fn candidate_urls(url: Seq<char>, html: Seq<char>) -> Seq<Seq<char>> {
    resolved(url, candidate_set(icon_hrefs(html)))
}

/// The URLs at which to look for the icon of the page `html` that was
/// fetched from `url`.
pub fn icon_candidates(url: &str, html: &str) -> (out: Vec<String>)
    ensures
        texts(out@) == candidate_urls(url@, html@),
{
    let hrefs = match select_attrs(html, ICON_SELECTOR, HREF) {
        Some(hrefs) => keep_present(hrefs),
        None => Vec::new(),
    };
    assert(texts(hrefs@) =~= icon_hrefs(html@));
    let paths = candidate_paths(hrefs);
    let mut out: Vec<String> = Vec::new();
    let mut i: usize = 0;
    assert(texts(paths@).take(0) =~= Seq::<Seq<char>>::empty());
    while i < paths.len()
        invariant
            i <= paths.len(),
            texts(out@) == resolved(url@, texts(paths@).take(i as int)),
        decreases paths.len() - i,
    {
        proof {
            let t = texts(paths@).take(i + 1);
            assert(t.drop_last() =~= texts(paths@).take(i as int));
            assert(t.last() == paths[i as int]@);
        }
        match join_url(url, paths[i].as_str()) {
            Some(joined) => {
                let ghost before = texts(out@);
                out.push(joined);
                assert(texts(out@) =~= before.push(joined@));
            },
            None => {},
        }
        i += 1;
    }
    assert(texts(paths@).take(paths.len() as int) =~= texts(paths@));
    out
}

/// The title of a page: the text nodes of its first title element, joined.
pub open spec fn title_of(html: Seq<char>) -> Option<Seq<char>> {
    match selected_texts(html, TITLE_SELECTOR@) {
        Some(titles) => if titles.len() > 0 {
            Some(joined(titles[0]))
        } else {
            None
        },
        None => None,
    }
}

/// The title of the page `html`, if it has one.
pub fn page_title(html: &str) -> (r: Option<String>)
    ensures
        opt_text(r) == title_of(html@),
{
    match select_texts(html, TITLE_SELECTOR) {
        Some(titles) => if titles.len() > 0 {
            Some(join_all(&titles[0]))
        } else {
            None
        },
        None => None,
    }
}

/// Whether a URL names a vector image: the last segment of its path ends in
/// `.svg` and has a stem before that.
pub open spec fn is_svg_url(url: Seq<char>) -> bool {
    match url_path_segments(url) {
        Some(segments) => segments.len() > 0 && has_suffix_after_stem(segments.last(), SVG_SUFFIX@),
        None => false,
    }
}

/// Classifies the bytes that were fetched from `url` as an icon.
pub fn get_image_metadata(url: &str, buffer: Vec<u8>) -> (r: Result<Image, IconError>)
    ensures
        image_result_view(r) == classified(buffer@, is_svg_url(url@)),
{
    let is_svg = match path_segments(url) {
        Some(segments) => segments.len() > 0 && ends_with_after_stem(
            segments[segments.len() - 1].as_str(),
            SVG_SUFFIX,
        ),
        None => false,
    };
    Image::from_buffer(buffer, is_svg)
}

/// Whether an HTTP status tells success: 200 to 299.
pub open spec fn is_success(status: u16) -> bool {
    200 <= status <= 299
}

/// Whether an HTTP status tells success.
pub fn status_ok(status: u16) -> (r: bool)
    ensures
        r == is_success(status),
{
    200 <= status && status <= 299
}

/// Why a page could not be used: the server answered with this status,
/// which does not tell success.
#[derive(Debug, Clone, Copy, PartialEq, Eq, Structural)]
pub enum FetchError {
    Status(u16),
}

/// How the sentence about a failed fetch begins.
pub const BAD_STATUS: &'static str = "the server answered with status ";

impl FetchError {
    /// The sentence that tells the user of this error.
    pub open spec fn spec_message(&self) -> Seq<char> {
        match self {
            FetchError::Status(status) => BAD_STATUS@ + int_text(*status as int),
        }
    }

    /// A sentence for the user.
    pub fn message(&self) -> (r: String)
        ensures
            r@ == self.spec_message(),
    {
        match self {
            FetchError::Status(status) => concat2(BAD_STATUS, i32_text(*status as i32).as_str()),
        }
    }
}

/// Accepts the page that a server answered with, where the status tells
/// success, and fails with the status where it does not.
pub fn accept_page(status: u16, html: String) -> (r: Result<String, FetchError>)
    ensures
        match r {
            Ok(page) => is_success(status) && page@ == html@,
            Err(e) => !is_success(status) && e == FetchError::Status(status),
        },
{
    if status_ok(status) {
        Ok(html)
    } else {
        Err(FetchError::Status(status))
    }
}

/// What came of fetching one icon candidate: its URL, and the bytes of the
/// response, or `None` where the fetch failed.
#[derive(Debug)]
pub struct FetchedIcon {
    pub url: String,
    pub body: Option<Vec<u8>>,
}

/// The body that counts of a response, given as status and body: the body
/// where the status tells success, and none for any other status and where
/// no response came.
pub open spec fn counted_body(response: Option<(u16, Vec<u8>)>) -> Option<Seq<u8>> {
    match response {
        Some((status, body)) => if is_success(status) {
            Some(body@)
        } else {
            None
        },
        None => None,
    }
}

/// The bytes of an optional buffer.
pub open spec fn opt_body(body: Option<Vec<u8>>) -> Option<Seq<u8>> {
    match body {
        Some(body) => Some(body@),
        None => None,
    }
}

impl FetchedIcon {
    /// What came of fetching `url`, from the response, if one came: an
    /// answer whose status does not tell success counts as a failed fetch.
    pub fn from_response(url: String, response: Option<(u16, Vec<u8>)>) -> (r: FetchedIcon)
        ensures
            r.url@ == url@,
            opt_body(r.body) == counted_body(response),
    {
        let body = match response {
            Some((status, body)) => if status_ok(status) {
                Some(body)
            } else {
                None
            },
            None => None,
        };
        FetchedIcon { url, body }
    }
}

/// The usable icons among fetched candidates, in order: a candidate whose
/// fetch failed or whose bytes are no icon is left out.
pub open spec fn usable_icons(fetched: Seq<FetchedIcon>) -> Seq<ImageView>
    decreases fetched.len(),
{
    if fetched.len() == 0 {
        Seq::empty()
    } else {
        let r = usable_icons(fetched.drop_last());
        match fetched.last().body {
            Some(body) => match classified(body@, is_svg_url(fetched.last().url@)) {
                Ok(image) => r.push(image),
                Err(_) => r,
            },
            None => r,
        }
    }
}

/// The title and icon of the page `html`, given what fetching its icon
/// candidates brought.
pub fn get_website_meta(html: &str, fetched: &Vec<FetchedIcon>) -> (r: Result<
    WebsiteMeta,
    MetaError,
>)
    ensures
        meta_result_view(r) == meta_choice(title_of(html@), usable_icons(fetched@)),
{
    let mut images: Vec<Image> = Vec::new();
    let mut i: usize = 0;
    assert(fetched@.take(0) =~= Seq::<FetchedIcon>::empty());
    while i < fetched.len()
        invariant
            i <= fetched.len(),
            image_views(images@) == usable_icons(fetched@.take(i as int)),
        decreases fetched.len() - i,
    {
        proof {
            let t = fetched@.take(i + 1);
            assert(t.drop_last() =~= fetched@.take(i as int));
            assert(t.last() == fetched[i as int]);
        }
        match &fetched[i].body {
            Some(body) => {
                match get_image_metadata(fetched[i].url.as_str(), body.clone()) {
                    Ok(image) => {
                        let ghost before = image_views(images@);
                        images.push(image);
                        assert(image_views(images@) =~= before.push(image@));
                    },
                    Err(_) => {},
                }
            },
            None => {},
        }
        i += 1;
    }
    assert(fetched@.take(fetched.len() as int) =~= fetched@);
    choose_meta(page_title(html), images)
}

/// The scheme that is tried where the user's input is no URL by itself.
pub const DEFAULT_SCHEME: &'static str = "https://";

/// The URL that the user's input stands for: the input itself where it is a
/// URL, else the input behind `https://` where that is a URL.
pub open spec fn url_of_input(input: Seq<char>) -> Option<Seq<char>> {
    match url_parsed(input) {
        Some(url) => Some(url),
        None => url_parsed(DEFAULT_SCHEME@ + input),
    }
}

/// Reads a URL from the user's input.
pub fn parse_url(input: &str) -> (r: Option<String>)
    ensures
        opt_text(r) == url_of_input(input@),
{
    match parse_absolute(input) {
        Some(url) => Some(url),
        None => parse_absolute(concat2(DEFAULT_SCHEME, input).as_str()),
    }
}

/// Whether an app can be created from what the user entered: the URL is a
/// URL, there is an icon, and the title is not empty.
pub fn validate_input(url: &str, icon: &Option<Vec<u8>>, title: &str) -> (r: bool)
    ensures
        r == (url_parsed(url@) is Some && icon is Some && title@.len() > 0),
{
    parse_absolute(url).is_some() && icon.is_some() && !title.is_empty()
}

} // verus!
