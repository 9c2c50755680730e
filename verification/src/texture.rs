//! The texture atlas: packs several source images into one bitmap so that
//! objects with different textures can share a single draw call.
//!
//! Layout policy: images are placed left to right in input order; the atlas
//! is as wide as the sum of the image widths and as tall as the tallest
//! image. Images shorter than the atlas are top-aligned. Each source is
//! recorded as a normalized sub-rectangle of the atlas, see [`atlas_region`].
//!
//! Pixel storage is carried by `image::DynamicImage`; composing the bitmap
//! goes through trusted wrappers around that crate, while the layout itself
//! is computed and verified here. Decoding files and uploading the finished
//! bitmap to the GPU happen outside the library.

use vstd::prelude::*;

use crate::assoc::{assoc_map, lemma_assoc_map_last_match, lemma_assoc_map_no_match};
use crate::frac::{q_one, Frac, Q};
use crate::math::{QPoint, QRect, Rect};

verus! {

/// Identifier under which a source image is recorded.
pub type TextureID = String;

/// A single texture: its normalized sub-rectangle of the shared atlas.
/// Copy-cheap; produced once by the atlas build and never mutated.
#[derive(Clone, Copy, Debug, PartialEq, Eq, Structural)]
pub struct Texture {
    pub area: Rect,
}

#[verifier::external_type_specification]
#[verifier::external_body]
pub struct ExDynamicImage(image::DynamicImage);

/// The pixel dimensions (width, height) of a decoded image — a function of
/// the image value alone.
pub uninterp spec fn dims_of(img: image::DynamicImage) -> (u32, u32);

/// Relies on `image::GenericImageView::dimensions`: the width and height of
/// the image.
#[verifier::external_body]
fn image_dims(img: &image::DynamicImage) -> (r: (u32, u32))
    ensures
        r == dims_of(*img),
{
    image::GenericImageView::dimensions(img)
}

/// Relies on `image::DynamicImage::new_rgba8`: a blank RGBA image of the
/// requested dimensions. The byte length `4 * w * h` must fit in `usize`,
/// or the underlying buffer constructor panics.
#[verifier::external_body]
fn new_rgba8(w: u32, h: u32) -> (r: image::DynamicImage)
    requires
        4 * (w as int) * (h as int) <= usize::MAX,
    ensures
        dims_of(r) == (w, h),
{
    image::DynamicImage::new_rgba8(w, h)
}

/// Relies on `image::GenericImage::copy_from`: it succeeds exactly when the
/// source fits inside the destination at the given offset (its bounds test),
/// copies the source's pixels there, and never changes the destination's
/// dimensions.
#[verifier::external_body]
fn copy_into_atlas(dst: &mut image::DynamicImage, src: &image::DynamicImage, x: u32, y: u32) -> (r:
    bool)
    ensures
        dims_of(*final(dst)) == dims_of(*old(dst)),
        r == ((x + dims_of(*src).0 <= dims_of(*old(dst)).0) && (y + dims_of(*src).1 <= dims_of(
            *old(dst),
        ).1)),
{
    image::GenericImage::copy_from(dst, src, x, y).is_ok()
}

/// Why building a texture collection failed.
#[derive(Clone, Copy, Debug, PartialEq, Eq, Structural)]
pub enum TextureCollectionCreationError {
    /// A texture file could not be read.
    Io,
    /// A source image is unusable: empty, or the combined atlas would not
    /// be addressable.
    Image,
    /// The composed bitmap could not be turned into a GPU texture.
    Texture,
}

// ---------------------------------------------------------------------------
// Layout
// ---------------------------------------------------------------------------

/// Total atlas width: the sum of the image widths.
pub open spec fn atlas_width(dims: Seq<(u32, u32)>) -> int
    decreases dims.len(),
{
    if dims.len() == 0 {
        0
    } else {
        atlas_width(dims.drop_last()) + dims.last().0
    }
}

/// Total atlas height: the largest image height.
pub open spec fn atlas_height(dims: Seq<(u32, u32)>) -> int
    decreases dims.len(),
{
    if dims.len() == 0 {
        0
    } else if atlas_height(dims.drop_last()) >= dims.last().1 {
        atlas_height(dims.drop_last())
    } else {
        dims.last().1 as int
    }
}

/// The normalized sub-rectangle of image `i`: horizontally from its offset
/// (the summed widths before it) to offset plus width, as fractions of the
/// atlas width; vertically from `1 - height_i / height` up to `1` (images
/// are top-aligned).
pub open spec fn atlas_region(dims: Seq<(u32, u32)>, i: int) -> QRect {
    let w_total = atlas_width(dims);
    let h_total = atlas_height(dims);
    let off = atlas_width(dims.take(i));
    QRect {
        min: QPoint {
            x: Q { num: off, den: w_total },
            y: Q { num: h_total - dims[i].1, den: h_total },
        },
        max: QPoint { x: Q { num: off + dims[i].0, den: w_total }, y: q_one() },
    }
}

/// Every image has at least one pixel, the summed width is addressable by
/// `u32`, and the composed RGBA bitmap fits in memory.
pub open spec fn atlas_buildable(dims: Seq<(u32, u32)>) -> bool {
    &&& forall|i: int|
        0 <= i < dims.len() ==> (#[trigger] dims[i]).0 >= 1 && dims[i].1 >= 1
    &&& atlas_width(dims) <= u32::MAX
    &&& 4 * atlas_width(dims) * atlas_height(dims) <= usize::MAX
}

pub proof fn lemma_atlas_width_nonneg(dims: Seq<(u32, u32)>)
    ensures
        atlas_width(dims) >= 0,
    decreases dims.len(),
{
    if dims.len() > 0 {
        lemma_atlas_width_nonneg(dims.drop_last());
    }
}

pub proof fn lemma_atlas_height_nonneg(dims: Seq<(u32, u32)>)
    ensures
        atlas_height(dims) >= 0,
    decreases dims.len(),
{
    if dims.len() > 0 {
        lemma_atlas_height_nonneg(dims.drop_last());
    }
}

/// Extending a prefix by one image adds that image's width to the offset.
pub proof fn lemma_atlas_width_step(dims: Seq<(u32, u32)>, i: int)
    requires
        0 <= i < dims.len(),
    ensures
        atlas_width(dims.take(i + 1)) == atlas_width(dims.take(i)) + dims[i].0,
{
    assert(dims.take(i + 1).drop_last() =~= dims.take(i));
    assert(dims.take(i + 1).last() == dims[i]);
}

/// Each prefix offset plus its image's width stays within the total width.
pub proof fn lemma_atlas_width_prefix(dims: Seq<(u32, u32)>, i: int)
    requires
        0 <= i <= dims.len(),
    ensures
        0 <= atlas_width(dims.take(i)) <= atlas_width(dims),
    decreases dims.len() - i,
{
    lemma_atlas_width_nonneg(dims.take(i));
    if i == dims.len() {
        assert(dims.take(i) =~= dims);
    } else {
        lemma_atlas_width_step(dims, i);
        lemma_atlas_width_prefix(dims, i + 1);
    }
}

/// Every image fits the atlas height.
pub proof fn lemma_atlas_height_bound(dims: Seq<(u32, u32)>, i: int)
    requires
        0 <= i < dims.len(),
    ensures
        dims[i].1 <= atlas_height(dims),
    decreases dims.len(),
{
    if i == dims.len() - 1 {
        lemma_atlas_height_nonneg(dims.drop_last());
    } else {
        lemma_atlas_height_bound(dims.drop_last(), i);
        assert(dims.drop_last()[i] == dims[i]);
    }
}

/// Compute the normalized region of every image, in input order.
///
/// This is the whole layout policy in one verified function: region `i`
/// spans `[offset_i / width, (offset_i + width_i) / width]` horizontally and
/// `[1 - height_i / height, 1]` vertically.
pub fn atlas_layout(dims: &Vec<(u32, u32)>) -> (r: Vec<Rect>)
    requires
        dims@.len() > 0,
        forall|i: int| 0 <= i < dims@.len() ==> (#[trigger] dims@[i]).0 >= 1 && dims@[i].1 >= 1,
        atlas_width(dims@) <= u32::MAX,
    ensures
        r@.len() == dims@.len(),
        forall|i: int| 0 <= i < dims@.len() ==> (#[trigger] r@[i])@ == atlas_region(dims@, i),
        forall|i: int| 0 <= i < dims@.len() ==> (#[trigger] r@[i]).wf(),
{
    let n = dims.len();
    // First pass: total width and height.
    let mut width: u64 = 0;
    let mut height: u32 = 0;
    let mut i: usize = 0;
    proof {
        assert(dims@.take(0) =~= Seq::<(u32, u32)>::empty());
    }
    while i < n
        invariant
            0 <= i <= n,
            n == dims@.len(),
            atlas_width(dims@) <= u32::MAX,
            width == atlas_width(dims@.take(i as int)),
            height == atlas_height(dims@.take(i as int)),
        decreases n - i,
    {
        proof {
            lemma_atlas_width_step(dims@, i as int);
            lemma_atlas_width_prefix(dims@, i + 1);
            assert(dims@.take(i + 1).drop_last() =~= dims@.take(i as int));
        }
        width = width + dims[i].0 as u64;
        if dims[i].1 > height {
            height = dims[i].1;
        }
        i = i + 1;
    }
    proof {
        assert(dims@.take(n as int) =~= dims@);
        lemma_atlas_height_nonneg(dims@);
    }
    let width32: u32 = width as u32;
    // Second pass: one region per image.
    let mut regions: Vec<Rect> = Vec::new();
    let mut off: u32 = 0;
    let mut i: usize = 0;
    while i < n
        invariant
            0 <= i <= n,
            n == dims@.len(),
            forall|k: int| 0 <= k < dims@.len() ==> (#[trigger] dims@[k]).0 >= 1 && dims@[k].1 >= 1,
            atlas_width(dims@) <= u32::MAX,
            width32 == atlas_width(dims@),
            height == atlas_height(dims@),
            off == atlas_width(dims@.take(i as int)),
            regions@.len() == i,
            forall|k: int| 0 <= k < i ==> (#[trigger] regions@[k])@ == atlas_region(dims@, k),
            forall|k: int| 0 <= k < i ==> (#[trigger] regions@[k]).wf(),
        decreases n - i,
    {
        proof {
            lemma_atlas_width_step(dims@, i as int);
            lemma_atlas_width_prefix(dims@, i + 1);
            lemma_atlas_height_bound(dims@, i as int);
            lemma_atlas_height_nonneg(dims@);
        }
        let (w, h) = dims[i];
        let min_x = Frac::new(off as i64, width32 as i64);
        let min_y = Frac::new((height - h) as i64, height as i64);
        let max_x = Frac::new((off + w) as i64, width32 as i64);
        let max_y = Frac::one();
        let rect = Rect {
            min: crate::math::Point { x: min_x, y: min_y },
            max: crate::math::Point { x: max_x, y: max_y },
        };
        regions.push(rect);
        off = off + w;
        i = i + 1;
    }
    regions
}

// ---------------------------------------------------------------------------
// Collection
// ---------------------------------------------------------------------------

/// A collection of textures, packed into one atlas bitmap so that a single
/// draw call can use them all.
#[derive(Debug)]
pub struct TextureCollection {
    /// Which identifier owns which normalized region; later entries override
    /// earlier ones, as in the map view [`TextureCollection::map`].
    pub textures: Vec<(TextureID, Texture)>,
    /// The composed atlas bitmap. Uploading it to the GPU happens outside
    /// the library.
    pub texture: image::DynamicImage,
}

impl TextureCollection {
    /// The lookup table the collection stands for.
    pub open spec fn map(&self) -> Map<Seq<char>, Texture> {
        assoc_map(self.textures@.map_values(|e: (TextureID, Texture)| (e.0@, e.1)))
    }

    /// Pack the given images into one atlas.
    ///
    /// Fails exactly when the inputs are not buildable: some image is empty,
    /// or the atlas would outgrow `u32` addressing or memory. Eager to fail:
    /// nothing is composed unless everything fits.
    pub fn new(images: Vec<(TextureID, image::DynamicImage)>) -> (r: Result<
        TextureCollection,
        TextureCollectionCreationError,
    >)
        ensures
            r is Ok <==> atlas_buildable(
                images@.map_values(|e: (TextureID, image::DynamicImage)| dims_of(e.1)),
            ),
            r is Ok ==> ({
                let dims = images@.map_values(
                    |e: (TextureID, image::DynamicImage)| dims_of(e.1),
                );
                let c = r->Ok_0;
                &&& c.textures@.len() == images@.len()
                &&& forall|i: int|
                    0 <= i < images@.len() ==> (#[trigger] c.textures@[i]).0@ == images@[i].0@
                        && c.textures@[i].1.area@ == atlas_region(dims, i)
                        && c.textures@[i].1.area.wf()
                &&& dims_of(c.texture).0 == atlas_width(dims)
                &&& dims_of(c.texture).1 == atlas_height(dims)
            }),
            r is Err ==> r->Err_0 == TextureCollectionCreationError::Image,
    {
        let ghost dims_spec = images@.map_values(
            |e: (TextureID, image::DynamicImage)| dims_of(e.1),
        );
        let n = images.len();
        // Gather dimensions and validate them.
        let mut dims: Vec<(u32, u32)> = Vec::new();
        let mut i: usize = 0;
        while i < n
            invariant
                0 <= i <= n,
                n == images@.len(),
                dims_spec == images@.map_values(
                    |e: (TextureID, image::DynamicImage)| dims_of(e.1),
                ),
                dims@.len() == i,
                forall|k: int| 0 <= k < i ==> #[trigger] dims@[k] == dims_spec[k],
                forall|k: int| 0 <= k < i ==> (#[trigger] dims@[k]).0 >= 1 && dims@[k].1 >= 1,
            decreases n - i,
        {
            let d = image_dims(&images[i].1);
            if d.0 < 1 || d.1 < 1 {
                proof {
                    assert(dims_spec[i as int] == dims_of(images@[i as int].1));
                    assert(!atlas_buildable(dims_spec));
                }
                return Err(TextureCollectionCreationError::Image);
            }
            dims.push(d);
            i = i + 1;
        }
        proof {
            assert(dims@ =~= dims_spec);
        }
        // Total width must stay addressable; bail out as soon as it cannot.
        let mut width: u64 = 0;
        let mut height: u32 = 0;
        let mut i: usize = 0;
        proof {
            assert(dims@.take(0) =~= Seq::<(u32, u32)>::empty());
        }
        while i < n
            invariant
                0 <= i <= n,
                n == dims@.len(),
                dims@ == dims_spec,
                dims_spec == images@.map_values(
                    |e: (TextureID, image::DynamicImage)| dims_of(e.1),
                ),
                width == atlas_width(dims@.take(i as int)),
                width <= u32::MAX,
                height == atlas_height(dims@.take(i as int)),
            decreases n - i,
        {
            proof {
                lemma_atlas_width_step(dims@, i as int);
                assert(dims@.take(i + 1).drop_last() =~= dims@.take(i as int));
            }
            width = width + dims[i].0 as u64;
            if width > u32::MAX as u64 {
                proof {
                    lemma_atlas_width_prefix(dims@, i + 1);
                    assert(atlas_width(dims_spec) > u32::MAX);
                    assert(!atlas_buildable(dims_spec));
                }
                return Err(TextureCollectionCreationError::Image);
            }
            if dims[i].1 > height {
                height = dims[i].1;
            }
            i = i + 1;
        }
        proof {
            assert(dims@.take(n as int) =~= dims@);
            lemma_atlas_height_nonneg(dims@);
        }
        let width32: u32 = width as u32;
        if n == 0 {
            proof {
                assert(atlas_width(dims_spec) == 0);
                assert(4 * atlas_width(dims_spec) * atlas_height(dims_spec) == 0)
                    by (nonlinear_arith)
                    requires
                        atlas_width(dims_spec) == 0;
                assert(atlas_buildable(dims_spec));
            }
            let atlas = new_rgba8(0, 0);
            return Ok(TextureCollection { textures: Vec::new(), texture: atlas });
        }
        // The composed RGBA bitmap must fit in memory.
        let w128: u128 = width as u128;
        let h128: u128 = height as u128;
        proof {
            assert(4 * (w128 as int) * (h128 as int) <= 0x4_0000_0000_0000_0000)
                by (nonlinear_arith)
                requires
                    w128 <= 0xffff_ffff,
                    h128 <= 0xffff_ffff;
        }
        let bytes: u128 = 4 * w128 * h128;
        if bytes > usize::MAX as u128 {
            proof {
                assert(4 * atlas_width(dims_spec) * atlas_height(dims_spec) == 4 * (w128 as int) * (
                h128 as int));
                assert(!atlas_buildable(dims_spec));
            }
            return Err(TextureCollectionCreationError::Image);
        }
        proof {
            assert(4 * atlas_width(dims_spec) * atlas_height(dims_spec) == 4 * (w128 as int) * (
            h128 as int));
            assert(atlas_buildable(dims_spec));
        }
        let regions = atlas_layout(&dims);
        // Compose the atlas left to right.
        let mut atlas = new_rgba8(width32, height);
        let mut off: u32 = 0;
        let mut i: usize = 0;
        while i < n
            invariant
                0 <= i <= n,
                n == images@.len(),
                n == dims@.len(),
                dims@ == dims_spec,
                dims_spec == images@.map_values(
                    |e: (TextureID, image::DynamicImage)| dims_of(e.1),
                ),
                atlas_buildable(dims_spec),
                forall|k: int| 0 <= k < n ==> (#[trigger] dims@[k]).0 >= 1 && dims@[k].1 >= 1,
                atlas_width(dims@) <= u32::MAX,
                width32 == atlas_width(dims@),
                height == atlas_height(dims@),
                off == atlas_width(dims@.take(i as int)),
                dims_of(atlas) == (width32, height),
            decreases n - i,
        {
            proof {
                lemma_atlas_width_step(dims@, i as int);
                lemma_atlas_width_prefix(dims@, i + 1);
                lemma_atlas_height_bound(dims@, i as int);
                assert(dims_spec[i as int] == dims_of(images@[i as int].1));
            }
            let ok = copy_into_atlas(&mut atlas, &images[i].1, off, 0);
            proof {
                assert(ok);
            }
            if !ok {
                return Err(TextureCollectionCreationError::Image);
            }
            off = off + dims[i].0;
            i = i + 1;
        }
        // Record the regions under their identifiers.
        let mut textures: Vec<(TextureID, Texture)> = Vec::new();
        let mut i: usize = 0;
        while i < n
            invariant
                0 <= i <= n,
                n == images@.len(),
                n == regions@.len(),
                dims@ == dims_spec,
                forall|k: int|
                    0 <= k < n ==> (#[trigger] regions@[k])@ == atlas_region(dims_spec, k)
                        && regions@[k].wf(),
                textures@.len() == i,
                forall|k: int|
                    0 <= k < i ==> (#[trigger] textures@[k]).0@ == images@[k].0@
                        && textures@[k].1.area == regions@[k],
            decreases n - i,
        {
            let name = images[i].0.clone();
            textures.push((name, Texture { area: regions[i] }));
            i = i + 1;
        }
        Ok(TextureCollection { textures, texture: atlas })
    }

    /// Look up the region recorded for `id`; absent identifiers yield `None`
    /// so that a missing texture stays a recoverable condition.
    pub fn get(&self, id: &TextureID) -> (r: Option<Texture>)
        ensures
            r == (if self.map().contains_key(id@) {
                Some(self.map()[id@])
            } else {
                None::<Texture>
            }),
    {
        let ghost entries = self.textures@.map_values(|e: (TextureID, Texture)| (e.0@, e.1));
        let n = self.textures.len();
        let mut i: usize = n;
        while i > 0
            invariant
                0 <= i <= n,
                n == self.textures@.len(),
                entries == self.textures@.map_values(|e: (TextureID, Texture)| (e.0@, e.1)),
                forall|j: int| i <= j < n ==> (#[trigger] entries[j]).0 != id@,
            decreases i,
        {
            i = i - 1;
            if self.textures[i].0 == *id {
                proof {
                    lemma_assoc_map_last_match(entries, i as int, id@);
                }
                return Some(self.textures[i].1);
            }
        }
        proof {
            lemma_assoc_map_no_match(entries, id@);
        }
        None
    }
}

} // verus!
