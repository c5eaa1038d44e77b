//! Why a stream was refused.

use vstd::prelude::*;

verus! {

/// The ways a stream can be malformed, without the detail that the wire
/// codec attaches to a primitive it could not read.
#[derive(Clone, Copy, Debug, PartialEq, Eq, Structural)]
pub enum FaultKind {
    /// A primitive was truncated or held a value its type does not admit.
    Primitive,
    /// A tag named no variant of the enumeration it stands for.
    UnknownVariant,
    /// An arena does not match what is addressed in it: the two primary
    /// arenas differ in length, an arena does not fit behind its base, or a
    /// node's storage range leaves its arena.
    ArenaMismatch,
    /// The tree builder refused the configuration or one of the recorded
    /// line edits.
    EditReplay,
}

/// A malformed stream, with the underlying error where the wire codec
/// reported one.
#[derive(Debug)]
pub enum StreamFault {
    /// The wire codec could not read a primitive; its own error is kept.
    Primitive(bincode::error::DecodeError),
    /// See [`FaultKind::UnknownVariant`].
    UnknownVariant,
    /// See [`FaultKind::ArenaMismatch`].
    ArenaMismatch,
    /// See [`FaultKind::EditReplay`].
    EditReplay,
}

impl StreamFault {
    /// The kind of this fault.
    pub open spec fn kind(self) -> FaultKind {
        match self {
            StreamFault::Primitive(_) => FaultKind::Primitive,
            StreamFault::UnknownVariant => FaultKind::UnknownVariant,
            StreamFault::ArenaMismatch => FaultKind::ArenaMismatch,
            StreamFault::EditReplay => FaultKind::EditReplay,
        }
    }

    /// The kind of this fault, as a value.
    pub fn classify(&self) -> (k: FaultKind)
        ensures
            k == self.kind(),
    {
        match self {
            StreamFault::Primitive(_) => FaultKind::Primitive,
            StreamFault::UnknownVariant => FaultKind::UnknownVariant,
            StreamFault::ArenaMismatch => FaultKind::ArenaMismatch,
            StreamFault::EditReplay => FaultKind::EditReplay,
        }
    }
}

/// What decoding a whole instance can fail with, without the detail.
#[derive(Clone, Copy, Debug, PartialEq, Eq, Structural)]
pub enum FailureKind {
    /// The stream's version tag is not the current one.
    FormatVersionMismatch,
    /// The stream is malformed in the given way.
    MalformedStream(FaultKind),
}

/// Why no instance came out of a stream.
#[derive(Debug)]
pub enum DecodeFailure {
    /// The stream's version tag differs from the current one. Nothing after
    /// the tag has been looked at.
    FormatVersionMismatch,
    /// The stream is truncated or inconsistent.
    MalformedStream(StreamFault),
}

impl DecodeFailure {
    /// The kind of this failure.
    pub open spec fn kind(self) -> FailureKind {
        match self {
            DecodeFailure::FormatVersionMismatch => FailureKind::FormatVersionMismatch,
            DecodeFailure::MalformedStream(f) => FailureKind::MalformedStream(f.kind()),
        }
    }

    /// The kind of this failure, as a value.
    pub fn classify(&self) -> (k: FailureKind)
        ensures
            k == self.kind(),
    {
        match self {
            DecodeFailure::FormatVersionMismatch => FailureKind::FormatVersionMismatch,
            DecodeFailure::MalformedStream(f) => FailureKind::MalformedStream(f.classify()),
        }
    }
}

} // verus!
