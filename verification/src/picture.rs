//! Picture rendering: a decoded picture is scaled to the width of the grid and
//! every pixel's luminance picks a character of the density palette.

use crate::grid::Char2DArray;
use crate::palette::{
    by_density, lemma_by_density_descending, lemma_by_density_holds, lemma_by_density_permutes,
    PALETTE_SIZE,
};
use image::imageops::FilterType;
use image::DynamicImage;
use image::GenericImageView;
use vstd::prelude::*;

verus! {

/// A decoded picture of the `image` crate. Nothing of its pixels is seen here
/// but through the wrappers below, whose contracts are taken from that
/// crate's source and are not proved.
#[verifier::external_type_specification]
#[verifier::external_body]
pub struct ExDynamicImage(DynamicImage);

/// The width and the height of a picture, in pixels, as
/// `GenericImageView::dimensions` reports them. A name only: nothing is known
/// of it but what the wrappers below say.
pub uninterp spec fn image_dimensions(img: DynamicImage) -> (u32, u32);

/// The buffer of a picture of this size has a length that a vector can have,
/// whatever the pixel format: a pixel takes eight bytes at most.
pub open spec fn allocatable(width: u32, height: u32) -> bool {
    8 * width * height <= isize::MAX
}

/// `GenericImageView::dimensions` of a `DynamicImage`: the picture's width and
/// height, which the contract only names. Not proved.
#[verifier::external_body]
fn dimensions(img: &DynamicImage) -> (size: (u32, u32))
    ensures
        size == image_dimensions(*img),
{
    img.dimensions()
}

/// `DynamicImage::resize_exact` with the Lanczos filter of three lobes. It
/// returns a picture of exactly the given width and height; that is the
/// crate's word and is not proved. It is not called on a picture without
/// pixels, where the crate divides by a sum of no weights and fails, nor for
/// sizes whose buffers, the one of the given size and the one of the old
/// width and the new height, cannot be allocated.
#[verifier::external_body]
fn resize_exact(img: &DynamicImage, width: u32, height: u32) -> (resized: DynamicImage)
    requires
        image_dimensions(*img).0 > 0,
        image_dimensions(*img).1 > 0,
        allocatable(image_dimensions(*img).0, height),
        allocatable(width, height),
    ensures
        image_dimensions(resized) == (width, height),
{
    img.resize_exact(width, height, FilterType::Lanczos3)
}

/// `DynamicImage::to_luma8` and `ImageBuffer::into_raw`: the luminance of
/// every pixel, one byte each, row after row. Only the number of bytes is
/// stated, and it is not proved.
#[verifier::external_body]
fn luma_pixels(img: &DynamicImage) -> (luma: Vec<u8>)
    ensures
        luma@.len() == image_dimensions(*img).0 * image_dimensions(*img).1,
{
    img.to_luma8().into_raw()
}

/// Half of the height that keeps the proportions of a `width` by `height`
/// picture at `target_width`, rounded to the nearest whole number, a half
/// upwards. A character is about twice as high as it is wide, hence the half.
pub open spec fn scaled_height(width: u32, height: u32, target_width: u32) -> int
    recommends
        width > 0,
{
    (height * target_width + width) / (2 * width)
}

/// The character for the pixel in column `x` of row `y`: its luminance is the
/// index into the palette.
pub open spec fn luma_cell(
    luma: Seq<u8>,
    width: nat,
    density_ascii: Seq<(u32, char)>,
    x: int,
    y: int,
) -> char {
    density_ascii[luma[y * width + x] as int].1
}

/// Computes [`scaled_height`]; `None` where it does not fit 32 bits.
pub fn picture_height(width: u32, height: u32, target_width: u32) -> (rows: Option<u32>)
    requires
        width > 0,
    ensures
        match rows {
            Some(rows) => rows == scaled_height(width, height, target_width),
            None => scaled_height(width, height, target_width) > u32::MAX,
        },
{
    assert(height * target_width + width <= 0xFFFF_FFFF * 0xFFFF_FFFF + 0xFFFF_FFFF)
        by (nonlinear_arith)
        requires
            height <= 0xFFFF_FFFF,
            target_width <= 0xFFFF_FFFF,
            width <= 0xFFFF_FFFF,
    ;
    let doubled: u64 = height as u64 * target_width as u64 + width as u64;
    let rows: u64 = doubled / (2 * width as u64);
    if rows <= u32::MAX as u64 {
        Some(rows as u32)
    } else {
        None
    }
}

/// Draws a grid from the luminance of `width` by `height` pixels, given row
/// after row: each cell holds the character of the palette entry that the
/// pixel's luminance indexes.
pub fn luma2ascii(
    luma: &Vec<u8>,
    width: usize,
    height: usize,
    density_ascii: &Vec<(u32, char)>,
) -> (grid: Char2DArray)
    requires
        luma@.len() == width * height,
        forall|k: int| 0 <= k < luma@.len() ==> (#[trigger] luma@[k]) < density_ascii@.len(),
    ensures
        grid.wf(),
        grid.width() == width,
        grid.height() == height,
        forall|x: int, y: int|
            0 <= y < height && 0 <= x < width ==> #[trigger] grid@[y][x] == luma_cell(
                luma@,
                width as nat,
                density_ascii@,
                x,
                y,
            ),
{
    let mut grid = Char2DArray::new(width, height);
    let pixels = luma.len();
    let mut k: usize = 0;
    let mut y: usize = 0;
    while y < height
        invariant
            grid.wf(),
            grid.width() == width,
            grid.height() == height,
            pixels == luma@.len(),
            luma@.len() == width * height,
            forall|k: int| 0 <= k < luma@.len() ==> (#[trigger] luma@[k]) < density_ascii@.len(),
            y <= height,
            k == y * width,
            forall|x: int, row: int|
                0 <= row < y && 0 <= x < width ==> #[trigger] grid@[row][x] == luma_cell(
                    luma@,
                    width as nat,
                    density_ascii@,
                    x,
                    row,
                ),
        decreases height - y,
    {
        let mut x: usize = 0;
        while x < width
            invariant
                grid.wf(),
                grid.width() == width,
                grid.height() == height,
                pixels == luma@.len(),
                luma@.len() == width * height,
                forall|k: int|
                    0 <= k < luma@.len() ==> (#[trigger] luma@[k]) < density_ascii@.len(),
                y < height,
                x <= width,
                k == y * width + x,
                forall|column: int, row: int|
                    0 <= row < height && 0 <= column < width && (row < y || (row == y && column
                        < x)) ==> #[trigger] grid@[row][column] == luma_cell(
                        luma@,
                        width as nat,
                        density_ascii@,
                        column,
                        row,
                    ),
            decreases width - x,
        {
            assert(y * width + x < width * height) by (nonlinear_arith)
                requires
                    y < height,
                    x < width,
            ;
            let index = luma[k] as usize;
            grid.put(x, y, density_ascii[index].1);
            k += 1;
            x += 1;
        }
        y += 1;
        assert(k == y * width) by (nonlinear_arith)
            requires
                k == (y - 1) * width + width,
        ;
    }
    grid
}

/// A black pixel is drawn with the densest character: luminance zero picks
/// the first entry of the palette, and no entry has more ink than that one.
pub proof fn lemma_black_is_densest(
    luma: Seq<u8>,
    width: nat,
    entries: Seq<(u32, char)>,
    x: int,
    y: int,
)
    requires
        entries.len() > 0,
        luma[y * width + x] == 0,
    ensures
        luma_cell(luma, width, by_density(entries), x, y) == by_density(entries)[0].1,
        forall|k: int| 0 <= k < entries.len() ==> by_density(entries)[0].0 >= entries[k].0,
{
    let palette = by_density(entries);
    lemma_by_density_descending(entries);
    assert forall|k: int| 0 <= k < entries.len() implies palette[0].0 >= entries[k].0 by {
        lemma_by_density_holds(entries, k);
        let at = choose|at: int| 0 <= at < palette.len() && palette[at] == entries[k];
        assert(palette[0].0 >= palette[at].0);
    }
}

/// A white pixel is drawn with the sparsest character of a full palette:
/// luminance 255 picks the last of its entries, and no entry has less ink
/// than that one.
pub proof fn lemma_white_is_sparsest(
    luma: Seq<u8>,
    width: nat,
    entries: Seq<(u32, char)>,
    x: int,
    y: int,
)
    requires
        entries.len() == PALETTE_SIZE,
        luma[y * width + x] == 255,
    ensures
        luma_cell(luma, width, by_density(entries), x, y) == by_density(entries).last().1,
        forall|k: int| 0 <= k < entries.len() ==> by_density(entries).last().0 <= entries[k].0,
{
    let palette = by_density(entries);
    lemma_by_density_descending(entries);
    lemma_by_density_permutes(entries);
    assert forall|k: int| 0 <= k < entries.len() implies palette.last().0 <= entries[k].0 by {
        lemma_by_density_holds(entries, k);
        let at = choose|at: int| 0 <= at < palette.len() && palette[at] == entries[k];
        assert(palette[at].0 >= palette[palette.len() - 1].0);
    }
}

/// The message for a picture file that cannot be opened or decoded; it names
/// the file.
pub fn open_failure(image_file: &str) -> (message: String)
    ensures
        message@ == "can not open file "@ + image_file@,
{
    let mut message = String::from_str("can not open file ");
    message.append(image_file);
    message
}

/// Whether `ch` is the character of one of the palette entries that a
/// luminance can index.
pub open spec fn in_palette(ch: char, density_ascii: Seq<(u32, char)>) -> bool {
    exists|luminance: int|
        0 <= luminance < PALETTE_SIZE && (#[trigger] density_ascii[luminance]).1 == ch
}

/// Whether a picture of the given dimensions can be drawn `target_width`
/// characters wide: it has pixels, its scaled height fits 32 bits, and the
/// scaled picture can be allocated.
pub open spec fn drawable(size: (u32, u32), target_width: u32) -> bool {
    &&& size.0 > 0
    &&& size.1 > 0
    &&& scaled_height(size.0, size.1, target_width) <= u32::MAX
    &&& allocatable(size.0, scaled_height(size.0, size.1, target_width) as u32)
    &&& allocatable(target_width, scaled_height(size.0, size.1, target_width) as u32)
}

/// The message for a picture that is not drawable.
pub open spec fn refusal(size: (u32, u32)) -> Seq<char> {
    if size.0 == 0 || size.1 == 0 {
        "the picture has no pixels"@
    } else {
        "the picture is too large"@
    }
}

/// Whether `width * height` pixels can be allocated.
fn can_allocate(width: u32, height: u32) -> (b: bool)
    ensures
        b == allocatable(width, height),
{
    assert(8 * width * height == 8 * (width * height)) by (nonlinear_arith);
    assert(width * height <= 0xFFFF_FFFF * 0xFFFF_FFFF) by (nonlinear_arith)
        requires
            width <= 0xFFFF_FFFF,
            height <= 0xFFFF_FFFF,
    ;
    width as u64 * height as u64 <= isize::MAX as u64 / 8
}

/// Draws a decoded picture as a grid of `target_width` columns.
///
/// The picture is scaled to `target_width` by [`scaled_height`] pixels and
/// turned into luminance; [`luma2ascii`] draws the grid from that. What the
/// scaled pixels hold is the `image` crate's doing, so of the cells this
/// states only that each holds a character of the first
/// [`PALETTE_SIZE`] palette entries.
///
/// A picture that is not [`drawable`] at this width is refused with a message.
pub fn image2ascii(
    img: &DynamicImage,
    target_width: u32,
    density_ascii: &Vec<(u32, char)>,
) -> (result: Result<Char2DArray, String>)
    requires
        density_ascii@.len() >= PALETTE_SIZE,
    ensures
        result is Ok <==> drawable(image_dimensions(*img), target_width),
        match result {
            Ok(grid) => {
                &&& grid.wf()
                &&& grid.width() == target_width
                &&& grid.height() == scaled_height(
                    image_dimensions(*img).0,
                    image_dimensions(*img).1,
                    target_width,
                )
                &&& forall|x: int, y: int|
                    0 <= y < grid.height() && 0 <= x < grid.width() ==> in_palette(
                        #[trigger] grid@[y][x],
                        density_ascii@,
                    )
            },
            Err(message) => message@ == refusal(image_dimensions(*img)),
        },
{
    let (width, height) = dimensions(img);
    if width == 0 || height == 0 {
        return Err(String::from_str("the picture has no pixels"));
    }
    let target_height = match picture_height(width, height, target_width) {
        Some(rows) => rows,
        None => {
            return Err(String::from_str("the picture is too large"));
        },
    };
    if !can_allocate(width, target_height) || !can_allocate(target_width, target_height) {
        return Err(String::from_str("the picture is too large"));
    }
    let resized = resize_exact(img, target_width, target_height);
    let luma = luma_pixels(&resized);
    let grid = luma2ascii(&luma, target_width as usize, target_height as usize, density_ascii);
    assert forall|x: int, y: int|
        0 <= y < grid.height() && 0 <= x < grid.width() implies in_palette(
        #[trigger] grid@[y][x],
        density_ascii@,
    ) by {
        assert(0 <= y * target_width + x < target_width * target_height) by (nonlinear_arith)
            requires
                0 <= y < target_height,
                0 <= x < target_width,
        ;
        let luminance = luma@[y * target_width + x] as int;
        assert(density_ascii@[luminance].1 == grid@[y][x]);
    }
    Ok(grid)
}

} // verus!
