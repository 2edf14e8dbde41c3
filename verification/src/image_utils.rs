//! Pixel matrices, and the codec between pixels and field elements.

use crate::errors::ZKIMGError;
use crate::field::{lemma_small_limb_bytes, limbs_bytes, FieldElement};
use crate::hashing::{sha256, sha256_digest, DIGEST_LEN};
use crate::tiling::{
    cell_count, grid_cells, lemma_cell, lemma_tiles_across, tile_span, tiles_across,
};
use vstd::prelude::*;

verus! {

/// Whether all rows of a grid have the same length.
pub open spec fn rectangular<T>(grid: Seq<Seq<T>>) -> bool {
    forall|y: int| 0 <= y < grid.len() ==> (#[trigger] grid[y]).len() == grid[0].len()
}

/// The width of a grid: the length of its first row, 0 without rows.
pub open spec fn grid_width<T>(grid: Seq<Seq<T>>) -> nat {
    if grid.len() == 0 {
        0
    } else {
        grid[0].len()
    }
}

/// Whether every cell of a grid holds exactly three channels.
pub open spec fn three_channels<T>(grid: Seq<Seq<Seq<T>>>) -> bool {
    forall|y: int, x: int|
        0 <= y < grid.len() && 0 <= x < grid[y].len() ==> (#[trigger] grid[y][x]).len() == 3
}

/// What rows of pixels hold: for each row and column the three channels.
pub open spec fn pixel_grid(rows: Seq<Vec<[u8; 3]>>) -> Seq<Seq<Seq<u8>>> {
    Seq::new(rows.len(), |y: int| Seq::new(rows[y]@.len(), |x: int| rows[y]@[x]@))
}

/// What rows of encoded pixels hold: for each row and column the numbers
/// that the three field elements stand for.
pub open spec fn field_grid(rows: Seq<Vec<[FieldElement; 3]>>) -> Seq<Seq<Seq<nat>>> {
    Seq::new(
        rows.len(),
        |y: int|
            Seq::new(rows[y]@.len(), |x: int| Seq::new(3, |c: int| rows[y]@[x]@[c]@)),
    )
}

/// The encoding of a pixel grid: every channel as the number it holds.
pub open spec fn encode_grid(pixels: Seq<Seq<Seq<u8>>>) -> Seq<Seq<Seq<nat>>> {
    Seq::new(
        pixels.len(),
        |y: int|
            Seq::new(
                pixels[y].len(),
                |x: int| Seq::new(3, |c: int| pixels[y][x][c] as nat),
            ),
    )
}

/// The decoding of a grid of field values: one row per row, as wide as the
/// first row. A channel is the low byte of its value; a row shorter than
/// the first is filled up with black.
pub open spec fn decode_grid(values: Seq<Seq<Seq<nat>>>) -> Seq<Seq<Seq<u8>>> {
    Seq::new(
        values.len(),
        |y: int|
            Seq::new(
                grid_width(values),
                |x: int|
                    Seq::new(
                        3,
                        |c: int|
                            if x < values[y].len() {
                                (values[y][x][c] % 256) as u8
                            } else {
                                0u8
                            },
                    ),
            ),
    )
}

/// Encoding and then decoding gives back every pixel grid exactly.
pub proof fn lemma_encode_decode_round_trip(pixels: Seq<Seq<Seq<u8>>>)
    requires
        rectangular(pixels),
        three_channels(pixels),
    ensures
        decode_grid(encode_grid(pixels)) == pixels,
{
    let back = decode_grid(encode_grid(pixels));
    assert(back.len() == pixels.len());
    assert forall|y: int| 0 <= y < pixels.len() implies #[trigger] back[y] == pixels[y] by {
        assert(pixels[y].len() == pixels[0].len());
        assert(back[y].len() == pixels[y].len());
        assert forall|x: int| 0 <= x < pixels[y].len() implies #[trigger] back[y][x]
            == pixels[y][x] by {
            assert(pixels[y][x].len() == 3);
            assert(back[y][x] =~= pixels[y][x]);
        }
        assert(back[y] =~= pixels[y]);
    }
    assert(back =~= pixels);
}

/// An image: rows of RGB pixels, all rows equally long.
#[derive(Debug, PartialEq, Eq)]
pub struct PixelMatrix {
    rows: Vec<Vec<[u8; 3]>>,
}

impl View for PixelMatrix {
    type V = Seq<Seq<Seq<u8>>>;

    closed spec fn view(&self) -> Seq<Seq<Seq<u8>>> {
        pixel_grid(self.rows@)
    }
}

impl Clone for PixelMatrix {
    /// A copy with the same pixels.
    fn clone(&self) -> (copy: PixelMatrix)
        ensures
            copy@ == self@,
    {
        proof {
            use_type_invariant(self);
        }
        let mut rows: Vec<Vec<[u8; 3]>> = Vec::new();
        let mut y: usize = 0;
        while y < self.rows.len()
            invariant
                y <= self.rows@.len(),
                rows@.len() == y,
                forall|k: int| 0 <= k < y ==> (#[trigger] rows@[k])@ == self.rows@[k]@,
            decreases self.rows@.len() - y,
        {
            let mut row: Vec<[u8; 3]> = Vec::new();
            let mut x: usize = 0;
            while x < self.rows[y].len()
                invariant
                    y < self.rows@.len(),
                    x <= self.rows@[y as int]@.len(),
                    row@ == self.rows@[y as int]@.take(x as int),
                decreases self.rows@[y as int]@.len() - x,
            {
                row.push(self.rows[y][x]);
                proof {
                    assert(row@ =~= self.rows@[y as int]@.take(x + 1));
                }
                x = x + 1;
            }
            proof {
                assert(row@ =~= self.rows@[y as int]@);
            }
            rows.push(row);
            y = y + 1;
        }
        proof {
            assert(pixel_grid(rows@) =~= pixel_grid(self.rows@)) by {
                assert forall|k: int| 0 <= k < rows@.len() implies #[trigger] pixel_grid(rows@)[k]
                    == pixel_grid(self.rows@)[k] by {
                    assert(rows@[k]@ == self.rows@[k]@);
                }
            }
        }
        PixelMatrix { rows }
    }
}

impl PixelMatrix {
    /// Every image is rectangular, and each pixel has three channels.
    #[verifier::type_invariant]
    pub open spec fn wf(&self) -> bool {
        rectangular(self@) && three_channels(self@)
    }

    /// The number of rows.
    pub open spec fn spec_height(&self) -> nat {
        self@.len()
    }

    /// The number of columns.
    pub open spec fn spec_width(&self) -> nat {
        grid_width(self@)
    }

    /// The image with the given rows, if they are equally long; else the
    /// first row that differs in length from the row on top.
    pub fn from_rows(rows: Vec<Vec<[u8; 3]>>) -> (r: Result<PixelMatrix, ZKIMGError>)
        ensures
            r is Ok <==> rectangular(pixel_grid(rows@)),
            r matches Ok(image) ==> image@ == pixel_grid(rows@) && image.wf(),
            r matches Err(e) ==> e matches ZKIMGError::RaggedImage { row } && 0 < row < rows@.len()
                && rows@[row as int]@.len() != rows@[0]@.len() && forall|y: int|
                0 <= y < row ==> (#[trigger] rows@[y])@.len() == rows@[0]@.len(),
    {
        let mut y: usize = 0;
        while y < rows.len()
            invariant
                y <= rows@.len(),
                forall|k: int| 0 <= k < y ==> (#[trigger] rows@[k])@.len() == rows@[0]@.len(),
            decreases rows@.len() - y,
        {
            if rows[y].len() != rows[0].len() {
                proof {
                    assert(pixel_grid(rows@)[y as int].len() != pixel_grid(rows@)[0].len());
                }
                return Err(ZKIMGError::RaggedImage { row: y });
            }
            y = y + 1;
        }
        Ok(PixelMatrix { rows })
    }

    /// The image with the given rows, which are equally long.
    pub(crate) fn from_equal_rows(rows: Vec<Vec<[u8; 3]>>) -> (image: PixelMatrix)
        requires
            rectangular(pixel_grid(rows@)),
        ensures
            image@ == pixel_grid(rows@),
            image.wf(),
    {
        PixelMatrix { rows }
    }

    /// A black image of the given size. Without rows an image has no width.
    pub fn new(width: usize, height: usize) -> (image: PixelMatrix)
        ensures
            image@ == Seq::new(
                height as nat,
                |y: int| Seq::new(width as nat, |x: int| seq![0u8, 0u8, 0u8]),
            ),
            image.wf(),
    {
        let mut rows: Vec<Vec<[u8; 3]>> = Vec::new();
        let mut y: usize = 0;
        while y < height
            invariant
                y <= height,
                rows@.len() == y,
                forall|k: int|
                    0 <= k < y ==> (#[trigger] rows@[k])@ == Seq::new(
                        width as nat,
                        |x: int| [0u8, 0u8, 0u8],
                    ),
            decreases height - y,
        {
            let mut row: Vec<[u8; 3]> = Vec::new();
            let mut x: usize = 0;
            while x < width
                invariant
                    x <= width,
                    row@ == Seq::new(x as nat, |i: int| [0u8, 0u8, 0u8]),
                decreases width - x,
            {
                row.push([0u8, 0u8, 0u8]);
                proof {
                    assert(row@ =~= Seq::new((x + 1) as nat, |i: int| [0u8, 0u8, 0u8]));
                }
                x = x + 1;
            }
            rows.push(row);
            y = y + 1;
        }
        let image = PixelMatrix { rows };
        proof {
            let want = Seq::new(
                height as nat,
                |y: int| Seq::new(width as nat, |x: int| seq![0u8, 0u8, 0u8]),
            );
            assert forall|y: int| 0 <= y < height implies #[trigger] image@[y] == want[y] by {
                assert forall|x: int| 0 <= x < width implies #[trigger] image@[y][x]
                    == want[y][x] by {
                    assert(image@[y][x] == rows@[y]@[x]@);
                    assert([0u8, 0u8, 0u8]@ =~= seq![0u8, 0u8, 0u8]);
                }
                assert(image@[y] =~= want[y]);
            }
            assert(image@ =~= want);
        }
        image
    }

    /// The number of rows.
    pub fn height(&self) -> (h: usize)
        ensures
            h == self.spec_height(),
    {
        self.rows.len()
    }

    /// The number of columns.
    pub fn width(&self) -> (w: usize)
        ensures
            w == self.spec_width(),
    {
        if self.rows.len() == 0 {
            0
        } else {
            self.rows[0].len()
        }
    }

    /// The pixel in column `x` of row `y`.
    pub fn get_pixel(&self, x: usize, y: usize) -> (rgb: [u8; 3])
        requires
            y < self.spec_height(),
            x < self.spec_width(),
        ensures
            rgb@ == self@[y as int][x as int],
    {
        proof {
            use_type_invariant(self);
            assert(self@[y as int].len() == self@[0].len());
        }
        self.rows[y][x]
    }
}

/// The three channels of a pixel as field elements.
pub fn rgb_to_field(r: u8, g: u8, b: u8) -> (fields: [FieldElement; 3])
    ensures
        fields@[0]@ == r,
        fields@[1]@ == g,
        fields@[2]@ == b,
        fields@[0].spec_limbs() == seq![r as u64, 0u64, 0u64, 0u64],
        fields@[1].spec_limbs() == seq![g as u64, 0u64, 0u64, 0u64],
        fields@[2].spec_limbs() == seq![b as u64, 0u64, 0u64, 0u64],
{
    [FieldElement::from_u64(r as u64), FieldElement::from_u64(g as u64), FieldElement::from_u64(
        b as u64,
    )]
}

/// The low byte of a field element.
pub fn field_to_channel(field: &FieldElement) -> (channel: u8)
    ensures
        channel == field@ % 256,
{
    let low: u32 = field.get_lower_32();
    let masked: u32 = low & 0xff;
    proof {
        assert(masked == low % 256 && masked <= 0xff) by (bit_vector)
            requires
                masked == low & 0xff,
        ;
        assert((field@ % 0x1_0000_0000) % 256 == field@ % 256) by {
            let v = field@ as int;
            let q1 = v / 0x1_0000_0000;
            let r1 = v % 0x1_0000_0000;
            let q2 = r1 / 256;
            let r2 = r1 % 256;
            assert(v == (q1 * 0x100_0000 + q2) * 256 + r2);
            vstd::arithmetic::div_mod::lemma_fundamental_div_mod_converse(
                v,
                256,
                q1 * 0x100_0000 + q2,
                r2,
            );
        }
    }
    masked as u8
}

/// The pixel that three field elements decode to: of each the low byte.
pub fn field_to_rgb(fields: &[FieldElement; 3]) -> (rgb: [u8; 3])
    ensures
        rgb@[0] == fields@[0]@ % 256,
        rgb@[1] == fields@[1]@ % 256,
        rgb@[2] == fields@[2]@ % 256,
{
    [field_to_channel(&fields[0]), field_to_channel(&fields[1]), field_to_channel(&fields[2])]
}

/// Encodes an image: one row of field triples per row of pixels.
pub fn image_to_field_matrix(image: &PixelMatrix) -> (matrix: Vec<Vec<[FieldElement; 3]>>)
    ensures
        field_grid(matrix@) == encode_grid(image@),
        matrix@.len() == image.spec_height(),
        forall|y: int| 0 <= y < matrix@.len() ==> (#[trigger] matrix@[y])@.len() == image.spec_width(),
{
    proof {
        use_type_invariant(image);
    }
    let height = image.height();
    let width = image.width();
    let mut matrix: Vec<Vec<[FieldElement; 3]>> = Vec::new();
    let mut y: usize = 0;
    while y < height
        invariant
            image.wf(),
            height == image.spec_height(),
            width == image.spec_width(),
            y <= height,
            matrix@.len() == y,
            forall|k: int| 0 <= k < y ==> #[trigger] field_grid(matrix@)[k] == encode_grid(image@)[k],
            forall|k: int| 0 <= k < y ==> (#[trigger] matrix@[k])@.len() == width,
        decreases height - y,
    {
        let mut row: Vec<[FieldElement; 3]> = Vec::new();
        let mut x: usize = 0;
        proof {
            assert(image@[y as int].len() == image@[0].len());
        }
        while x < width
            invariant
                image.wf(),
                height == image.spec_height(),
                width == image.spec_width(),
                y < height,
                image@[y as int].len() == width,
                x <= width,
                row@.len() == x,
                forall|i: int, c: int|
                    0 <= i < x && 0 <= c < 3 ==> (#[trigger] row@[i]@[c])@ == image@[y as int][i][c],
            decreases width - x,
        {
            let rgb = image.get_pixel(x, y);
            let fields = rgb_to_field(rgb[0], rgb[1], rgb[2]);
            row.push(fields);
            x = x + 1;
        }
        let ghost before = matrix@;
        matrix.push(row);
        proof {
            assert forall|k: int| 0 <= k < y + 1 implies #[trigger] field_grid(matrix@)[k]
                == encode_grid(image@)[k] by {
                if k < y {
                    assert(matrix@[k] == before[k]);
                    assert(field_grid(before)[k] == encode_grid(image@)[k]);
                    assert(field_grid(matrix@)[k] =~= field_grid(before)[k]);
                } else {
                    assert forall|i: int| 0 <= i < width implies #[trigger] field_grid(
                        matrix@,
                    )[k][i] == encode_grid(image@)[k][i] by {
                        assert(image@[k][i].len() == 3);
                        assert(field_grid(matrix@)[k][i] =~= encode_grid(image@)[k][i]);
                    }
                    assert(field_grid(matrix@)[k] =~= encode_grid(image@)[k]);
                }
            }
        }
        y = y + 1;
    }
    proof {
        assert(field_grid(matrix@) =~= encode_grid(image@));
    }
    matrix
}

/// Decodes a matrix of field triples into an image. The image is as wide
/// as the first row; no row may be longer than that.
pub fn field_matrix_to_image(matrix: &[Vec<[FieldElement; 3]>]) -> (image: PixelMatrix)
    requires
        forall|y: int| 0 <= y < matrix@.len() ==> (#[trigger] matrix@[y])@.len() <= matrix@[0]@.len(),
    ensures
        image@ == decode_grid(field_grid(matrix@)),
        image.wf(),
{
    let height = matrix.len();
    let width: usize = if height == 0 {
        0
    } else {
        matrix[0].len()
    };
    let ghost want = decode_grid(field_grid(matrix@));
    let mut rows: Vec<Vec<[u8; 3]>> = Vec::new();
    let mut y: usize = 0;
    while y < height
        invariant
            height == matrix@.len(),
            width == grid_width(field_grid(matrix@)),
            want == decode_grid(field_grid(matrix@)),
            y <= height,
            rows@.len() == y,
            forall|k: int| 0 <= k < y ==> #[trigger] pixel_grid(rows@)[k] == want[k],
            forall|k: int| 0 <= k < matrix@.len() ==> (#[trigger] matrix@[k])@.len() <= width,
        decreases height - y,
    {
        let mut row: Vec<[u8; 3]> = Vec::new();
        let mut x: usize = 0;
        let filled = matrix[y].len();
        while x < width
            invariant
                height == matrix@.len(),
                y < height,
                filled == matrix@[y as int]@.len(),
                filled <= width,
                x <= width,
                row@.len() == x,
                want == decode_grid(field_grid(matrix@)),
                width == grid_width(field_grid(matrix@)),
                forall|i: int| 0 <= i < x ==> (#[trigger] row@[i])@ == want[y as int][i],
            decreases width - x,
        {
            let rgb: [u8; 3] = if x < filled {
                field_to_rgb(&matrix[y][x])
            } else {
                [0u8, 0u8, 0u8]
            };
            proof {
                assert(rgb@ =~= want[y as int][x as int]);
            }
            row.push(rgb);
            x = x + 1;
        }
        let ghost before = rows@;
        rows.push(row);
        proof {
            assert forall|k: int| 0 <= k < y + 1 implies #[trigger] pixel_grid(rows@)[k]
                == want[k] by {
                if k < y {
                    assert(rows@[k] == before[k]);
                    assert(pixel_grid(before)[k] == want[k]);
                    assert(pixel_grid(rows@)[k] =~= pixel_grid(before)[k]);
                } else {
                    assert(pixel_grid(rows@)[k] =~= want[k]);
                }
            }
        }
        y = y + 1;
    }
    proof {
        assert(pixel_grid(rows@) =~= want);
        assert(rectangular(want));
        assert(three_channels(want));
    }
    PixelMatrix { rows }
}

/// What [`validate_image_for_zk`] returns for an image of the given size.
pub open spec fn validation_of(width: nat, height: nat, max_size: usize) -> Result<(), ZKIMGError> {
    if width * height > max_size {
        Err(ZKIMGError::ImageTooLarge { width: width as usize, height: height as usize, max: max_size })
    } else if width * height == 0 {
        Err(ZKIMGError::ImageEmpty)
    } else {
        Ok(())
    }
}

/// Accepts an image for proving: it must have at least one pixel and no
/// more than `max_size`.
pub fn validate_image_for_zk(image: &PixelMatrix, max_size: usize) -> (r: Result<(), ZKIMGError>)
    ensures
        r == validation_of(image.spec_width(), image.spec_height(), max_size),
{
    let width = image.width();
    let height = image.height();
    if width == 0 || height == 0 {
        proof {
            assert(width * height == 0) by (nonlinear_arith)
                requires
                    width == 0 || height == 0,
            ;
        }
        return Err(ZKIMGError::ImageEmpty);
    }
    let fits = match width.checked_mul(height) {
        Some(total) => total <= max_size,
        None => false,
    };
    proof {
        assert(width * height > 0) by (nonlinear_arith)
            requires
                width > 0,
                height > 0,
        ;
    }
    if fits {
        Ok(())
    } else {
        Err(ZKIMGError::ImageTooLarge { width, height, max: max_size })
    }
}

/// The size of an image, and an estimate of the circuit it needs.
#[derive(Clone, Copy, Debug, PartialEq, Eq)]
pub struct ImageMetrics {
    pub width: u32,
    pub height: u32,
    pub total_pixels: u32,
    /// One constraint per channel of each pixel.
    pub estimated_constraints: usize,
}

impl ImageMetrics {
    /// The metrics of an image whose channel count fits in 32 bits.
    pub fn from_image(image: &PixelMatrix) -> (m: ImageMetrics)
        requires
            image.spec_width() * image.spec_height() * 3 <= u32::MAX,
            image.spec_width() <= u32::MAX,
            image.spec_height() <= u32::MAX,
        ensures
            m.width == image.spec_width(),
            m.height == image.spec_height(),
            m.total_pixels == image.spec_width() * image.spec_height(),
            m.estimated_constraints == 3 * m.total_pixels,
    {
        let width: u32 = image.width() as u32;
        let height: u32 = image.height() as u32;
        proof {
            assert(width * height <= width * height * 3) by (nonlinear_arith)
                requires
                    width >= 0,
                    height >= 0,
            ;
        }
        let total_pixels: u32 = width * height;
        let channels: u32 = total_pixels * 3;
        ImageMetrics { width, height, total_pixels, estimated_constraints: channels as usize }
    }
}

/// The block of a grid that starts at column `x0` of row `y0` and is
/// `width` columns wide and `height` rows high.
pub open spec fn block_of<T>(grid: Seq<Seq<T>>, x0: int, y0: int, width: int, height: int) -> Seq<
    Seq<T>,
> {
    Seq::new(height as nat, |dy: int| Seq::new(width as nat, |dx: int| grid[y0 + dy][x0 + dx]))
}

/// The number of chunks of side `size` that a grid is cut into.
pub open spec fn chunk_count<T>(grid: Seq<Seq<T>>, size: int) -> int {
    tiles_across(grid.len() as int, size) * tiles_across(grid_width(grid) as int, size)
}

/// Chunk `i` of a grid cut into chunks of side `size`, counted row by row
/// and in each row from the left. Chunks at the right and bottom edge hold
/// what is left.
pub open spec fn chunk_of<T>(grid: Seq<Seq<T>>, size: int, i: int) -> Seq<Seq<T>> {
    let width = grid_width(grid) as int;
    let height = grid.len() as int;
    let cols = tiles_across(width, size);
    let col = i % cols;
    let row = i / cols;
    block_of(
        grid,
        col * size,
        row * size,
        tile_span(width, size, col),
        tile_span(height, size, row),
    )
}

/// Copies a block out of a matrix of field triples.
fn copy_block(
    matrix: &Vec<Vec<[FieldElement; 3]>>,
    x0: usize,
    y0: usize,
    width: usize,
    height: usize,
) -> (block: Vec<Vec<[FieldElement; 3]>>)
    requires
        y0 + height <= matrix@.len(),
        forall|y: int| y0 <= y < y0 + height ==> x0 + width <= (#[trigger] matrix@[y])@.len(),
    ensures
        field_grid(block@) == block_of(
            field_grid(matrix@),
            x0 as int,
            y0 as int,
            width as int,
            height as int,
        ),
{
    let ghost want = block_of(
        field_grid(matrix@),
        x0 as int,
        y0 as int,
        width as int,
        height as int,
    );
    let mut block: Vec<Vec<[FieldElement; 3]>> = Vec::new();
    let mut dy: usize = 0;
    let total = matrix.len();
    while dy < height
        invariant
            dy <= height,
            total == matrix@.len(),
            y0 + height <= matrix@.len(),
            forall|y: int| y0 <= y < y0 + height ==> x0 + width <= (#[trigger] matrix@[y])@.len(),
            block@.len() == dy,
            want == block_of(field_grid(matrix@), x0 as int, y0 as int, width as int, height as int),
            forall|k: int| 0 <= k < dy ==> #[trigger] field_grid(block@)[k] == want[k],
        decreases height - dy,
    {
        let mut row: Vec<[FieldElement; 3]> = Vec::new();
        let mut dx: usize = 0;
        proof {
            assert(x0 + width <= matrix@[y0 + dy]@.len());
        }
        let row_len = matrix[y0 + dy].len();
        while dx < width
            invariant
                dx <= width,
                dy < height,
                total == matrix@.len(),
                y0 + height <= matrix@.len(),
                row_len == matrix@[y0 + dy]@.len(),
                x0 + width <= matrix@[y0 + dy]@.len(),
                row@.len() == dx,
                forall|i: int| 0 <= i < dx ==> #[trigger] row@[i] == matrix@[y0 + dy]@[x0 + i],
            decreases width - dx,
        {
            row.push(matrix[y0 + dy][x0 + dx]);
            dx = dx + 1;
        }
        let ghost before = block@;
        block.push(row);
        proof {
            assert forall|k: int| 0 <= k < dy + 1 implies #[trigger] field_grid(block@)[k]
                == want[k] by {
                if k < dy {
                    assert(block@[k] == before[k]);
                    assert(field_grid(before)[k] == want[k]);
                    assert(field_grid(block@)[k] =~= field_grid(before)[k]);
                } else {
                    assert forall|i: int| 0 <= i < width implies #[trigger] field_grid(
                        block@,
                    )[k][i] == want[k][i] by {
                        assert(block@[k]@[i] == matrix@[y0 + dy]@[x0 + i]);
                        assert(field_grid(block@)[k][i] =~= field_grid(matrix@)[y0 + k][x0 + i]);
                    }
                    assert(field_grid(block@)[k] =~= want[k]);
                }
            }
        }
        dy = dy + 1;
    }
    proof {
        assert(field_grid(block@) =~= want);
    }
    block
}

/// Encodes an image and cuts the encoding into chunks of side
/// `chunk_size`, row by row and in each row from the left.
pub fn chunk_image(image: &PixelMatrix, chunk_size: usize) -> (chunks: Vec<
    Vec<Vec<[FieldElement; 3]>>,
>)
    requires
        chunk_size > 0,
    ensures
        chunks@.len() == chunk_count(encode_grid(image@), chunk_size as int),
        forall|i: int|
            0 <= i < chunks@.len() ==> field_grid((#[trigger] chunks@[i])@) == chunk_of(
                encode_grid(image@),
                chunk_size as int,
                i,
            ),
{
    let matrix = image_to_field_matrix(image);
    let height = matrix.len();
    let width: usize = if height == 0 {
        0
    } else {
        matrix[0].len()
    };
    let cells = grid_cells(width, height, chunk_size, chunk_size, None);
    let ghost grid = encode_grid(image@);
    let ghost w = width as int;
    let ghost h = height as int;
    let ghost t = chunk_size as int;
    let ghost cols = tiles_across(w, t);
    let mut chunks: Vec<Vec<Vec<[FieldElement; 3]>>> = Vec::new();
    let mut i: usize = 0;
    proof {
        use_type_invariant(image);
        assert(grid.len() == h);
        assert(grid_width(grid) == w);
    }
    while i < cells.len()
        invariant
            t == chunk_size as int,
            t > 0,
            w == width as int,
            h == height as int,
            height == matrix@.len(),
            forall|k: int| 0 <= k < matrix@.len() ==> (#[trigger] matrix@[k])@.len() == width,
            grid == field_grid(matrix@),
            grid.len() == h,
            grid_width(grid) == w,
            cols == tiles_across(w, t),
            cells@.len() == cell_count(w, h, t, t),
            forall|k: int|
                0 <= k < cells@.len() ==> (#[trigger] cells@[k]).0 == (k % cols) * t
                    && cells@[k].1 == (k / cols) * t,
            i <= cells@.len(),
            chunks@.len() == i,
            forall|k: int|
                0 <= k < i ==> field_grid((#[trigger] chunks@[k])@) == chunk_of(grid, t, k),
        decreases cells@.len() - i,
    {
        proof {
            lemma_cell(w, h, t, t, i as int);
        }
        let (x, y) = cells[i];
        let rest_w: usize = width - x;
        let rest_h: usize = height - y;
        let tile_w: usize = if chunk_size >= rest_w {
            rest_w
        } else {
            chunk_size
        };
        let tile_h: usize = if chunk_size >= rest_h {
            rest_h
        } else {
            chunk_size
        };
        let chunk = copy_block(&matrix, x, y, tile_w, tile_h);
        let ghost before = chunks@;
        chunks.push(chunk);
        proof {
            assert forall|k: int| 0 <= k < i + 1 implies field_grid((#[trigger] chunks@[k])@)
                == chunk_of(grid, t, k) by {
                if k < i {
                    assert(chunks@[k] == before[k]);
                }
            }
        }
        i = i + 1;
    }
    chunks
}

/// The distance between two sampled rows or columns along an axis with
/// `extent` pixels: the quotient by the sample count, and at least 1.
pub open spec fn sample_step(extent: int, sample_size: int) -> int {
    if extent / sample_size < 1 {
        1
    } else {
        extent / sample_size
    }
}

/// The sampled pixels of a grid, row by row and in each row from the left:
/// those whose row and column are multiples of the two steps.
pub open spec fn sampled_pixels(pixels: Seq<Seq<Seq<u8>>>, sample_size: int) -> Seq<Seq<u8>> {
    let height = pixels.len() as int;
    let width = grid_width(pixels) as int;
    let step_y = sample_step(height, sample_size);
    let step_x = sample_step(width, sample_size);
    let count_y = tiles_across(height, step_y);
    let count_x = tiles_across(width, step_x);
    Seq::new(
        (count_y * count_x) as nat,
        |i: int| pixels[(i / count_x) * step_y][(i % count_x) * step_x],
    )
}

/// The 32 canonical bytes of the field element that stands for a channel:
/// the channel itself, then zeros.
pub open spec fn channel_bytes(channel: u8) -> Seq<u8> {
    Seq::new(
        32,
        |i: int|
            if i == 0 {
                channel
            } else {
                0u8
            },
    )
}

/// The 96 bytes that a pixel adds to the digest's input.
pub open spec fn pixel_bytes(pixel: Seq<u8>) -> Seq<u8> {
    channel_bytes(pixel[0]) + channel_bytes(pixel[1]) + channel_bytes(pixel[2])
}

/// The bytes of a list of pixels, one pixel after the other.
pub open spec fn pixels_bytes(pixels: Seq<Seq<u8>>) -> Seq<u8>
    decreases pixels.len(),
{
    if pixels.len() == 0 {
        Seq::empty()
    } else {
        pixels_bytes(pixels.drop_last()) + pixel_bytes(pixels.last())
    }
}

/// The bytes of the limbs of a channel are the channel's bytes.
proof fn lemma_channel_bytes(channel: u8)
    ensures
        limbs_bytes(seq![channel as u64, 0u64, 0u64, 0u64]) == channel_bytes(channel),
{
    let limbs = seq![channel as u64, 0u64, 0u64, 0u64];
    assert forall|i: int| 0 <= i < 32 implies #[trigger] limbs_bytes(limbs)[i] == channel_bytes(
        channel,
    )[i] by {
        lemma_small_limb_bytes(channel as u64, i % 8);
    }
    assert(limbs_bytes(limbs) =~= channel_bytes(channel));
}

/// The canonical bytes of the field element that stands for a channel.
fn channel_to_bytes(channel: u8) -> (bytes: Vec<u8>)
    ensures
        bytes@ == channel_bytes(channel),
{
    let element = FieldElement::from_u64(channel as u64);
    proof {
        lemma_channel_bytes(channel);
    }
    element.to_bytes()
}

/// Appends the bytes of a pixel, channel by channel.
fn push_pixel_bytes(input: &mut Vec<u8>, rgb: &[u8; 3])
    ensures
        final(input)@ == old(input)@ + pixel_bytes(rgb@),
{
    let mut red = channel_to_bytes(rgb[0]);
    let mut green = channel_to_bytes(rgb[1]);
    let mut blue = channel_to_bytes(rgb[2]);
    let ghost r = red@;
    let ghost g = green@;
    let ghost b = blue@;
    input.append(&mut red);
    input.append(&mut green);
    input.append(&mut blue);
    proof {
        assert(input@ == old(input)@ + r + g + b);
        assert(old(input)@ + r + g + b =~= old(input)@ + (r + g + b));
    }
}

/// The input of the sampled digest: the bytes of the sampled pixels.
pub fn sample_hash_input(image: &PixelMatrix, sample_size: usize) -> (input: Vec<u8>)
    requires
        sample_size > 0,
        image.spec_height() > 0,
    ensures
        input@ == pixels_bytes(sampled_pixels(image@, sample_size as int)),
{
    proof {
        use_type_invariant(image);
    }
    let height = image.height();
    let width = image.width();
    let by_y: usize = height / sample_size;
    let by_x: usize = width / sample_size;
    let step_y: usize = if by_y < 1 {
        1
    } else {
        by_y
    };
    let step_x: usize = if by_x < 1 {
        1
    } else {
        by_x
    };
    let cells = grid_cells(width, height, step_x, step_y, None);
    let ghost w = width as int;
    let ghost h = height as int;
    let ghost sy = step_y as int;
    let ghost sx = step_x as int;
    let ghost cols = tiles_across(w, sx);
    let ghost all = sampled_pixels(image@, sample_size as int);
    let mut input: Vec<u8> = Vec::new();
    let mut i: usize = 0;
    proof {
        lemma_tiles_across(w, sx, 0);
        lemma_tiles_across(h, sy, 0);
        assert(0 <= cell_count(w, h, sx, sy)) by (nonlinear_arith)
            requires
                cell_count(w, h, sx, sy) == tiles_across(h, sy) * tiles_across(w, sx),
                0 <= tiles_across(h, sy),
                0 <= tiles_across(w, sx),
        ;
        assert(all.take(0) =~= Seq::<Seq<u8>>::empty());
    }
    while i < cells.len()
        invariant
            image.wf(),
            height == image.spec_height(),
            width == image.spec_width(),
            w == width as int,
            h == height as int,
            sy == step_y as int,
            sx == step_x as int,
            sy > 0,
            sx > 0,
            sy == sample_step(h, sample_size as int),
            sx == sample_step(w, sample_size as int),
            cols == tiles_across(w, sx),
            all == sampled_pixels(image@, sample_size as int),
            all.len() == cell_count(w, h, sx, sy),
            cells@.len() == cell_count(w, h, sx, sy),
            forall|k: int|
                0 <= k < cells@.len() ==> (#[trigger] cells@[k]).0 == (k % cols) * sx
                    && cells@[k].1 == (k / cols) * sy,
            i <= cells@.len(),
            input@ == pixels_bytes(all.take(i as int)),
        decreases cells@.len() - i,
    {
        proof {
            lemma_cell(w, h, sx, sy, i as int);
        }
        let (x, y) = cells[i];
        let rgb = image.get_pixel(x, y);
        let ghost before = input@;
        push_pixel_bytes(&mut input, &rgb);
        proof {
            assert(all[i as int] == image@[y as int][x as int]);
            assert(input@ == before + pixel_bytes(all[i as int]));
            assert(all.take(i + 1).drop_last() =~= all.take(i as int));
            assert(all.take(i + 1).last() == all[i as int]);
        }
        i = i + 1;
    }
    proof {
        assert(all.take(i as int) =~= all);
    }
    input
}

/// The sampled digest of an image: the SHA-256 digest of the bytes of the
/// sampled pixels. It commits to the sampled pixels only.
pub fn calculate_poseidon_image_hash(image: &PixelMatrix, sample_size: usize) -> (digest: Vec<u8>)
    requires
        sample_size > 0,
        image.spec_height() > 0,
    ensures
        digest@ == sha256(pixels_bytes(sampled_pixels(image@, sample_size as int))),
        digest@.len() == DIGEST_LEN,
{
    let input = sample_hash_input(image, sample_size);
    sha256_digest(input.as_slice())
}

} // verus!
