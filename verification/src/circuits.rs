//! The image circuit seen as data: the witness it holds, the digests it
//! commits to, and the values it makes public.

use crate::errors::ZKIMGError;
use crate::field::FieldElement;
use crate::hashing::{field_digest, hash_field_elements, values_of};
use crate::transforms::channel_grid;
use crate::Transformation;
use vstd::prelude::*;

verus! {

/// The side of the window of pixels that a digest covers: the digest
/// commits to the top left 32 x 32 pixels and to nothing outside them.
pub const WINDOW: usize = 32;

/// The number of public values of the image circuit: the input digest and
/// the output digest, in this order.
pub const INSTANCE_COUNT: usize = 2;

/// The smaller of the window's side and `n`.
pub open spec fn window_span(n: int) -> int {
    if n < WINDOW {
        n
    } else {
        WINDOW as int
    }
}

/// The channels of one row that fall into the window: of each of the
/// first 32 pixels the first three channels.
pub open spec fn window_row(row: Seq<Seq<nat>>) -> Seq<nat> {
    Seq::new((3 * window_span(row.len() as int)) as nat, |i: int| row[i / 3][i % 3])
}

/// The channels of the given rows that fall into the window, row by row.
pub open spec fn window_rows(rows: Seq<Seq<Seq<nat>>>) -> Seq<nat>
    decreases rows.len(),
{
    if rows.len() == 0 {
        Seq::empty()
    } else {
        window_rows(rows.drop_last()) + window_row(rows.last())
    }
}

/// The channels of a grid that fall into the window: those of the first
/// 32 rows.
pub open spec fn window_values(grid: Seq<Seq<Seq<nat>>>) -> Seq<nat> {
    window_rows(grid.take(window_span(grid.len() as int)))
}

/// Whether every pixel inside the window holds at least three channels.
pub open spec fn window_has_channels(grid: Seq<Seq<Seq<nat>>>) -> bool {
    forall|y: int, x: int|
        0 <= y < window_span(grid.len() as int) && 0 <= x < window_span(grid[y].len() as int) ==> (
        #[trigger] grid[y][x]).len() >= 3
}

/// The digest of the window of a grid.
pub open spec fn window_digest(grid: Seq<Seq<Seq<nat>>>) -> nat {
    field_digest(window_values(grid))
}

/// The field elements inside the window, in the order in which the digest
/// absorbs them: row by row, pixel by pixel, red then green then blue.
pub fn window_elements(pixels: &[Vec<Vec<FieldElement>>]) -> (elements: Vec<FieldElement>)
    requires
        window_has_channels(channel_grid(pixels@)),
    ensures
        values_of(elements@) == window_values(channel_grid(pixels@)),
{
    let ghost grid = channel_grid(pixels@);
    let rows: usize = if pixels.len() < WINDOW {
        pixels.len()
    } else {
        WINDOW
    };
    let mut elements: Vec<FieldElement> = Vec::new();
    let mut y: usize = 0;
    proof {
        assert(grid.take(rows as int).take(0) =~= Seq::<Seq<Seq<nat>>>::empty());
    }
    while y < rows
        invariant
            grid == channel_grid(pixels@),
            window_has_channels(grid),
            rows == window_span(pixels@.len() as int),
            y <= rows,
            values_of(elements@) == window_rows(grid.take(y as int)),
        decreases rows - y,
    {
        let row = &pixels[y];
        let cols: usize = if row.len() < WINDOW {
            row.len()
        } else {
            WINDOW
        };
        let ghost before = values_of(elements@);
        let mut x: usize = 0;
        while x < cols
            invariant
                grid == channel_grid(pixels@),
                window_has_channels(grid),
                rows == window_span(pixels@.len() as int),
                y < rows,
                row == pixels@[y as int],
                cols == window_span(row@.len() as int),
                x <= cols,
                before == window_rows(grid.take(y as int)),
                values_of(elements@) == before + window_row(grid[y as int]).take(3 * x),
            decreases cols - x,
        {
            let pixel = &row[x];
            proof {
                assert(grid[y as int][x as int].len() >= 3);
                assert(grid[y as int][x as int] == values_of(pixel@));
            }
            let ghost so_far = values_of(elements@);
            elements.push(pixel[0]);
            elements.push(pixel[1]);
            elements.push(pixel[2]);
            proof {
                let line = window_row(grid[y as int]);
                assert(line[3 * x] == grid[y as int][x as int][0]);
                assert(line[3 * x + 1] == grid[y as int][x as int][1]);
                assert(line[3 * x + 2] == grid[y as int][x as int][2]);
                assert(values_of(elements@) =~= so_far.push(pixel@[0]@).push(pixel@[1]@).push(
                    pixel@[2]@,
                ));
                assert(values_of(elements@) =~= before + line.take(3 * (x + 1)));
            }
            x = x + 1;
        }
        proof {
            let line = window_row(grid[y as int]);
            assert(line.take(3 * cols) =~= line);
            assert(grid.take(y + 1).drop_last() =~= grid.take(y as int));
            assert(grid.take(y + 1).last() == grid[y as int]);
        }
        y = y + 1;
    }
    elements
}

/// The digest of the window of encoded pixels.
pub fn hash_window(pixels: &[Vec<Vec<FieldElement>>]) -> (digest: FieldElement)
    requires
        window_has_channels(channel_grid(pixels@)),
    ensures
        digest@ == window_digest(channel_grid(pixels@)),
        digest.wf(),
{
    let elements = window_elements(pixels);
    hash_field_elements(elements.as_slice())
}

/// How a circuit applies its transformation.
#[derive(Clone, Copy, Debug, PartialEq, Eq, Structural)]
pub enum Arithmetization {
    /// The pixels pass through unchanged. A proof then says nothing about
    /// the transformation: it binds the two digests to one pixel matrix
    /// and no more.
    PassThrough,
    /// The transformation is enforced by constraints of its own.
    Constrained,
}

/// The image circuit: the encoded pixels as private witness, the
/// parameters of the transformation, and the two claimed digests.
#[derive(Clone, Debug, PartialEq, Eq)]
pub struct ZKIMGCircuit {
    /// The encoded pixels, per row and pixel the three channels.
    pub image_pixels: Vec<Vec<Vec<FieldElement>>>,
    /// The parameters of the transformation.
    pub transformation_params: Vec<FieldElement>,
    /// The claimed digest of the input pixels.
    pub input_hash: FieldElement,
    /// The claimed digest of the output pixels.
    pub output_hash: FieldElement,
}

impl ZKIMGCircuit {
    /// Whether the witness is one the circuit can hash.
    pub open spec fn wf(&self) -> bool {
        window_has_channels(channel_grid(self.image_pixels@))
    }

    /// The circuit's shape: no pixels, no parameters, both digests zero.
    pub fn without_witnesses(&self) -> (bare: ZKIMGCircuit)
        ensures
            bare.image_pixels@.len() == 0,
            bare.transformation_params@.len() == 0,
            bare.input_hash@ == 0,
            bare.output_hash@ == 0,
            bare.wf(),
    {
        ZKIMGCircuit {
            image_pixels: Vec::new(),
            transformation_params: Vec::new(),
            input_hash: FieldElement::zero(),
            output_hash: FieldElement::zero(),
        }
    }

    /// The digest of the window of the input pixels.
    pub fn hash_image(&self) -> (digest: FieldElement)
        requires
            self.wf(),
        ensures
            digest@ == window_digest(channel_grid(self.image_pixels@)),
    {
        hash_window(self.image_pixels.as_slice())
    }

    /// The digest of the window of the transformed pixels.
    pub fn hash_image_output(&self, transformed_pixels: &[Vec<Vec<FieldElement>>]) -> (digest:
        FieldElement)
        requires
            window_has_channels(channel_grid(transformed_pixels@)),
        ensures
            digest@ == window_digest(channel_grid(transformed_pixels@)),
    {
        hash_window(transformed_pixels)
    }

    /// The pixels after the transformation step, and how the step was
    /// applied. The step passes the pixels through and says so: nothing
    /// here enforces the transformation.
    pub fn apply_transformations(&self) -> (r: (Vec<Vec<Vec<FieldElement>>>, Arithmetization))
        ensures
            channel_grid(r.0@) == channel_grid(self.image_pixels@),
            r.1 == Arithmetization::PassThrough,
    {
        (copy_pixels(&self.image_pixels), Arithmetization::PassThrough)
    }

    /// The public values in the order the circuit declares them: the input
    /// digest, then the output digest.
    pub fn public_inputs(&self) -> (inputs: Vec<FieldElement>)
        ensures
            inputs@ == seq![self.input_hash, self.output_hash],
    {
        let mut inputs: Vec<FieldElement> = Vec::new();
        inputs.push(self.input_hash);
        inputs.push(self.output_hash);
        proof {
            assert(inputs@ =~= seq![self.input_hash, self.output_hash]);
        }
        inputs
    }

    /// Whether the witness satisfies the circuit: both claimed digests are
    /// the digest of the window of the pixels.
    pub open spec fn satisfied(&self) -> bool {
        &&& self.input_hash@ == window_digest(channel_grid(self.image_pixels@))
        &&& self.output_hash@ == window_digest(channel_grid(self.image_pixels@))
    }

    /// Checks the witness against the circuit's constraints, as the prover
    /// would: the digest of the input pixels must be the claimed input
    /// digest, and the digest of the pixels after the transformation step
    /// the claimed output digest.
    pub fn check_witness(&self) -> (r: Result<(), ZKIMGError>)
        requires
            self.wf(),
        ensures
            self.satisfied() ==> r is Ok,
            !self.satisfied() ==> r == Err::<(), ZKIMGError>(ZKIMGError::WitnessInconsistent),
    {
        let input = self.hash_image();
        let (transformed, _) = self.apply_transformations();
        let output = self.hash_image_output(transformed.as_slice());
        if input.equals(&self.input_hash) && output.equals(&self.output_hash) {
            Ok(())
        } else {
            Err(ZKIMGError::WitnessInconsistent)
        }
    }
}

/// A copy of encoded pixels.
pub fn copy_pixels(pixels: &Vec<Vec<Vec<FieldElement>>>) -> (copy: Vec<Vec<Vec<FieldElement>>>)
    ensures
        channel_grid(copy@) == channel_grid(pixels@),
{
    let ghost want = channel_grid(pixels@);
    let mut copy: Vec<Vec<Vec<FieldElement>>> = Vec::new();
    let mut y: usize = 0;
    while y < pixels.len()
        invariant
            y <= pixels@.len(),
            copy@.len() == y,
            want == channel_grid(pixels@),
            forall|k: int| 0 <= k < y ==> #[trigger] channel_grid(copy@)[k] == want[k],
        decreases pixels@.len() - y,
    {
        let mut row: Vec<Vec<FieldElement>> = Vec::new();
        let mut x: usize = 0;
        while x < pixels[y].len()
            invariant
                y < pixels@.len(),
                x <= pixels@[y as int]@.len(),
                row@.len() == x,
                forall|i: int|
                    0 <= i < x ==> values_of((#[trigger] row@[i])@) == values_of(
                        pixels@[y as int]@[i]@,
                    ),
            decreases pixels@[y as int]@.len() - x,
        {
            let mut pixel: Vec<FieldElement> = Vec::new();
            let mut c: usize = 0;
            while c < pixels[y][x].len()
                invariant
                    y < pixels@.len(),
                    x < pixels@[y as int]@.len(),
                    c <= pixels@[y as int]@[x as int]@.len(),
                    pixel@ == pixels@[y as int]@[x as int]@.take(c as int),
                decreases pixels@[y as int]@[x as int]@.len() - c,
            {
                pixel.push(pixels[y][x][c]);
                proof {
                    assert(pixel@ =~= pixels@[y as int]@[x as int]@.take(c + 1));
                }
                c = c + 1;
            }
            proof {
                assert(pixel@ =~= pixels@[y as int]@[x as int]@);
            }
            row.push(pixel);
            x = x + 1;
        }
        let ghost before = copy@;
        copy.push(row);
        proof {
            assert forall|k: int| 0 <= k < y + 1 implies #[trigger] channel_grid(copy@)[k]
                == want[k] by {
                if k < y {
                    assert(copy@[k] == before[k]);
                    assert(channel_grid(before)[k] == want[k]);
                    assert(channel_grid(copy@)[k] =~= channel_grid(before)[k]);
                } else {
                    assert(channel_grid(copy@)[k] =~= want[k]);
                }
            }
        }
        y = y + 1;
    }
    proof {
        assert(channel_grid(copy@) =~= want);
    }
    copy
}

/// A fused operation with its parameters as field elements.
#[derive(Clone, Copy, Debug, PartialEq, Eq)]
pub enum FusedOperation {
    CropResize {
        crop_x: FieldElement,
        crop_y: FieldElement,
        crop_w: FieldElement,
        crop_h: FieldElement,
        resize_w: FieldElement,
        resize_h: FieldElement,
    },
    GrayscaleContrast { contrast: FieldElement },
}

impl FusedOperation {
    /// The numbers that the parameters stand for, in the order of the
    /// fields.
    pub open spec fn parameters(self) -> Seq<nat> {
        match self {
            FusedOperation::CropResize { crop_x, crop_y, crop_w, crop_h, resize_w, resize_h } => seq![
                crop_x@,
                crop_y@,
                crop_w@,
                crop_h@,
                resize_w@,
                resize_h@,
            ],
            FusedOperation::GrayscaleContrast { contrast } => seq![contrast@],
        }
    }

    /// The parameters of a fused transformation as numbers: the six sizes
    /// of a crop-and-resize, or the bit pattern of the contrast factor.
    /// Other transformations are not fused operations.
    pub open spec fn parameters_of(transformation: Transformation) -> Option<Seq<nat>> {
        match transformation {
            Transformation::CropResize {
                crop_x,
                crop_y,
                crop_width,
                crop_height,
                resize_width,
                resize_height,
            } => Some(
                seq![
                    crop_x as nat,
                    crop_y as nat,
                    crop_width as nat,
                    crop_height as nat,
                    resize_width as nat,
                    resize_height as nat,
                ],
            ),
            Transformation::GrayscaleContrast { contrast } => Some(seq![contrast.bits as nat]),
            _ => None,
        }
    }

    /// The fused operation that a transformation stands for, if it is one.
    pub fn from_transformation(transformation: &Transformation) -> (r: Option<FusedOperation>)
        ensures
            match r {
                Some(op) => Self::parameters_of(*transformation) == Some(op.parameters()) && (
                op is CropResize <==> *transformation is CropResize),
                None => Self::parameters_of(*transformation) is None,
            },
    {
        match transformation {
            Transformation::CropResize {
                crop_x,
                crop_y,
                crop_width,
                crop_height,
                resize_width,
                resize_height,
            } => {
                let op = FusedOperation::CropResize {
                    crop_x: FieldElement::from_u64(*crop_x as u64),
                    crop_y: FieldElement::from_u64(*crop_y as u64),
                    crop_w: FieldElement::from_u64(*crop_width as u64),
                    crop_h: FieldElement::from_u64(*crop_height as u64),
                    resize_w: FieldElement::from_u64(*resize_width as u64),
                    resize_h: FieldElement::from_u64(*resize_height as u64),
                };
                proof {
                    assert(op.parameters() =~= Self::parameters_of(*transformation).unwrap());
                }
                Some(op)
            },
            Transformation::GrayscaleContrast { contrast } => {
                let op = FusedOperation::GrayscaleContrast {
                    contrast: FieldElement::from_u64(contrast.to_bits() as u64),
                };
                proof {
                    assert(op.parameters() =~= Self::parameters_of(*transformation).unwrap());
                }
                Some(op)
            },
            _ => None,
        }
    }
}

/// A circuit made of fused operations.
#[derive(Clone, Debug, PartialEq, Eq)]
pub struct FusedOperationCircuit {
    pub operations: Vec<FusedOperation>,
}

/// A circuit of fused operations over an image cut into chunks.
#[derive(Clone, Debug, PartialEq, Eq)]
pub struct OptimizedZKIMGCircuit {
    pub fused_operations: Vec<FusedOperation>,
    /// The chunks of the image, each as one list of field elements.
    pub image_chunks: Vec<Vec<FieldElement>>,
}

/// A large image as tiles, each tile proved by a circuit of its own.
#[derive(Clone, Debug, PartialEq, Eq)]
pub struct HDImageCircuit {
    /// The tiles, each as encoded pixels: per row and pixel the channels.
    pub tiles: Vec<Vec<Vec<Vec<FieldElement>>>>,
    /// The side of a full tile.
    pub tile_size: usize,
}

impl HDImageCircuit {
    /// Whether every tile is one a circuit can hash.
    pub open spec fn wf(&self) -> bool {
        forall|i: int|
            0 <= i < self.tiles@.len() ==> window_has_channels(
                channel_grid((#[trigger] self.tiles@[i])@),
            )
    }

    /// One circuit per tile, in tile order: the tile's pixels as witness,
    /// and the digest of the tile's window as both digests.
    pub fn process_hd_tiles(&self) -> (circuits: Vec<ZKIMGCircuit>)
        requires
            self.wf(),
        ensures
            circuits@.len() == self.tiles@.len(),
            forall|i: int|
                0 <= i < circuits@.len() ==> {
                    let circuit = #[trigger] circuits@[i];
                    &&& channel_grid(circuit.image_pixels@) == channel_grid(self.tiles@[i]@)
                    &&& circuit.transformation_params@.len() == 0
                    &&& circuit.wf()
                    &&& circuit.satisfied()
                },
    {
        let mut circuits: Vec<ZKIMGCircuit> = Vec::new();
        let mut i: usize = 0;
        while i < self.tiles.len()
            invariant
                self.wf(),
                i <= self.tiles@.len(),
                circuits@.len() == i,
                forall|j: int|
                    0 <= j < i ==> {
                        let circuit = #[trigger] circuits@[j];
                        &&& channel_grid(circuit.image_pixels@) == channel_grid(self.tiles@[j]@)
                        &&& circuit.transformation_params@.len() == 0
                        &&& circuit.wf()
                        &&& circuit.satisfied()
                    },
            decreases self.tiles@.len() - i,
        {
            proof {
                assert(window_has_channels(channel_grid(self.tiles@[i as int]@)));
            }
            let image_pixels = copy_pixels(&self.tiles[i]);
            let digest = hash_window(image_pixels.as_slice());
            circuits.push(
                ZKIMGCircuit {
                    image_pixels,
                    transformation_params: Vec::new(),
                    input_hash: digest,
                    output_hash: digest,
                },
            );
            i = i + 1;
        }
        circuits
    }
}

} // verus!
