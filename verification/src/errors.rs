//! The errors of the library, and the four kinds they fall into.

use vstd::prelude::*;

verus! {

/// The kind of an error. Callers branch on the kind; the error itself says
/// what exactly went wrong.
#[derive(Clone, Copy, Debug, PartialEq, Eq, Structural)]
pub enum ErrorKind {
    /// A setting or an input was unusable; found before any proving.
    Configuration,
    /// The witness does not satisfy the circuit; no proof is emitted.
    Witness,
    /// A byte stream could not be read as what it should hold.
    Malformed,
    /// Tile proofs could not be combined.
    Aggregation,
}

/// What went wrong.
#[derive(Clone, Copy, Debug, PartialEq, Eq, Structural)]
pub enum ZKIMGError {
    /// The size exponent is outside the supported range.
    InvalidSizeParameter { k: u32 },
    /// The image has more pixels than the configured maximum.
    ImageTooLarge { width: usize, height: usize, max: usize },
    /// The image has no pixels.
    ImageEmpty,
    /// The rows of a pixel matrix differ in length.
    RaggedImage { row: usize },
    /// The number of public inputs is not what the circuit declares.
    InstanceMismatch { expected: usize, found: usize },
    /// The circuit needs more rows than the size exponent provides.
    NotEnoughRows { k: u32 },
    /// The backend refused the circuit as it is laid out.
    CircuitMisconfigured,
    /// A public input is not the value the circuit declares at its place.
    PublicInputMismatch { index: usize },
    /// A transformation's parameters do not fit the image it is applied to.
    InvalidTransformation,
    /// The witness does not satisfy the circuit.
    WitnessInconsistent,
    /// The proof of the link before was read and found wrong.
    PreviousProofRejected,
    /// The proof's byte stream is malformed.
    MalformedProof,
    /// A key blob is malformed, or was written for another shape or version.
    KeyMismatch,
    /// The chain has more links than the configured maximum, or more than
    /// a depth can count.
    ChainTooLong { length: usize, max: usize },
    /// There are no tile proofs to combine.
    NoTileProofs,
    /// There are more tile proofs than the cap allows.
    TooManyTiles { count: usize, max: usize },
}

impl ZKIMGError {
    /// The kind each error falls into.
    pub open spec fn spec_kind(self) -> ErrorKind {
        match self {
            ZKIMGError::InvalidSizeParameter { .. } => ErrorKind::Configuration,
            ZKIMGError::ImageTooLarge { .. } => ErrorKind::Configuration,
            ZKIMGError::ImageEmpty => ErrorKind::Configuration,
            ZKIMGError::RaggedImage { .. } => ErrorKind::Configuration,
            ZKIMGError::InstanceMismatch { .. } => ErrorKind::Configuration,
            ZKIMGError::NotEnoughRows { .. } => ErrorKind::Configuration,
            ZKIMGError::CircuitMisconfigured => ErrorKind::Configuration,
            ZKIMGError::ChainTooLong { .. } => ErrorKind::Configuration,
            ZKIMGError::PublicInputMismatch { .. } => ErrorKind::Configuration,
            ZKIMGError::InvalidTransformation => ErrorKind::Configuration,
            ZKIMGError::WitnessInconsistent => ErrorKind::Witness,
            ZKIMGError::PreviousProofRejected => ErrorKind::Witness,
            ZKIMGError::MalformedProof => ErrorKind::Malformed,
            ZKIMGError::KeyMismatch => ErrorKind::Malformed,
            ZKIMGError::NoTileProofs => ErrorKind::Aggregation,
            ZKIMGError::TooManyTiles { .. } => ErrorKind::Aggregation,
        }
    }

    /// The kind of this error.
    pub fn kind(&self) -> (r: ErrorKind)
        ensures
            r == self.spec_kind(),
    {
        match self {
            ZKIMGError::InvalidSizeParameter { .. } => ErrorKind::Configuration,
            ZKIMGError::ImageTooLarge { .. } => ErrorKind::Configuration,
            ZKIMGError::ImageEmpty => ErrorKind::Configuration,
            ZKIMGError::RaggedImage { .. } => ErrorKind::Configuration,
            ZKIMGError::InstanceMismatch { .. } => ErrorKind::Configuration,
            ZKIMGError::NotEnoughRows { .. } => ErrorKind::Configuration,
            ZKIMGError::CircuitMisconfigured => ErrorKind::Configuration,
            ZKIMGError::ChainTooLong { .. } => ErrorKind::Configuration,
            ZKIMGError::PublicInputMismatch { .. } => ErrorKind::Configuration,
            ZKIMGError::InvalidTransformation => ErrorKind::Configuration,
            ZKIMGError::WitnessInconsistent => ErrorKind::Witness,
            ZKIMGError::PreviousProofRejected => ErrorKind::Witness,
            ZKIMGError::MalformedProof => ErrorKind::Malformed,
            ZKIMGError::KeyMismatch => ErrorKind::Malformed,
            ZKIMGError::NoTileProofs => ErrorKind::Aggregation,
            ZKIMGError::TooManyTiles { .. } => ErrorKind::Aggregation,
        }
    }
}

/// What the proving backend reports when it fails, as plain values.
#[derive(Clone, Copy, Debug, PartialEq, Eq, Structural)]
pub enum BackendError {
    /// Circuit synthesis failed, for one because a witness was absent.
    Synthesis,
    /// The instances do not match the circuit's parameters.
    InvalidInstances,
    /// The constraint system is not satisfied.
    ConstraintSystemFailure,
    /// An index passed to the backend was out of bounds.
    BoundsFailure,
    /// The opening proof was invalid.
    Opening,
    /// The transcript could not be read or written.
    Transcript,
    /// The size exponent is too small for the circuit.
    NotEnoughRowsAvailable { current_k: u32 },
    /// An instance has more values than the circuit has rows for.
    InstanceTooLarge,
    /// Too few fixed columns are enabled for the circuit's constants.
    NotEnoughColumnsForConstants,
    /// A copy constraint involves a column outside the permutation.
    ColumnNotInPermutation,
    /// A lookup table was set up wrongly.
    TableError,
    /// A hash was started from a private point.
    IllegalHashFromPrivatePoint,
    /// An error the backend has added since.
    Other,
}

} // verus!
