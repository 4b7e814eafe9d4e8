//! The broker's error kinds and their stable wire codes.

use vstd::prelude::*;

verus! {

/// Every failure the engine can report.  A reply frame carries the kind as a
/// non-zero status code; status `0` means success.
#[derive(Clone, Copy, Debug, PartialEq, Eq, Structural)]
pub enum IggyError {
    InvalidCommand,
    InvalidFormat,
    Unauthenticated,
    Unauthorized,
    StreamNotFound,
    StreamAlreadyExists,
    TopicNotFound,
    TopicAlreadyExists,
    PartitionNotFound,
    ConsumerGroupNotFound,
    ConsumerGroupAlreadyExists,
    OffsetOutOfRange,
    IoError,
    ChecksumMismatch,
    ResourceNameInvalid,
    UserNotFound,
    InvalidCredentials,
}

impl IggyError {
    /// The stable integer code of this error kind, as carried in the status
    /// field of a reply frame.  Always non-zero, so it never collides with
    /// the success status.
    pub open spec fn spec_code(self) -> u32 {
        match self {
            IggyError::InvalidCommand => 1,
            IggyError::InvalidFormat => 2,
            IggyError::Unauthenticated => 3,
            IggyError::Unauthorized => 4,
            IggyError::StreamNotFound => 5,
            IggyError::StreamAlreadyExists => 6,
            IggyError::TopicNotFound => 7,
            IggyError::TopicAlreadyExists => 8,
            IggyError::PartitionNotFound => 9,
            IggyError::ConsumerGroupNotFound => 10,
            IggyError::ConsumerGroupAlreadyExists => 11,
            IggyError::OffsetOutOfRange => 12,
            IggyError::IoError => 13,
            IggyError::ChecksumMismatch => 14,
            IggyError::ResourceNameInvalid => 15,
            IggyError::UserNotFound => 16,
            IggyError::InvalidCredentials => 17,
        }
    }

    /// Executable twin of [`Self::spec_code`].
    pub fn as_code(&self) -> (code: u32)
        ensures
            code == self.spec_code(),
            1 <= code <= 17,
    {
        match self {
            IggyError::InvalidCommand => 1,
            IggyError::InvalidFormat => 2,
            IggyError::Unauthenticated => 3,
            IggyError::Unauthorized => 4,
            IggyError::StreamNotFound => 5,
            IggyError::StreamAlreadyExists => 6,
            IggyError::TopicNotFound => 7,
            IggyError::TopicAlreadyExists => 8,
            IggyError::PartitionNotFound => 9,
            IggyError::ConsumerGroupNotFound => 10,
            IggyError::ConsumerGroupAlreadyExists => 11,
            IggyError::OffsetOutOfRange => 12,
            IggyError::IoError => 13,
            IggyError::ChecksumMismatch => 14,
            IggyError::ResourceNameInvalid => 15,
            IggyError::UserNotFound => 16,
            IggyError::InvalidCredentials => 17,
        }
    }

    /// The error kind that a status code denotes, if any; the inverse of
    /// [`Self::as_code`] on codes `1..=17`.
    pub fn from_code(code: u32) -> (res: Option<IggyError>)
        ensures
            match res {
                Some(e) => e.spec_code() == code,
                None => forall|e: IggyError| #[trigger] e.spec_code() != code,
            },
    {
        match code {
            1 => Some(IggyError::InvalidCommand),
            2 => Some(IggyError::InvalidFormat),
            3 => Some(IggyError::Unauthenticated),
            4 => Some(IggyError::Unauthorized),
            5 => Some(IggyError::StreamNotFound),
            6 => Some(IggyError::StreamAlreadyExists),
            7 => Some(IggyError::TopicNotFound),
            8 => Some(IggyError::TopicAlreadyExists),
            9 => Some(IggyError::PartitionNotFound),
            10 => Some(IggyError::ConsumerGroupNotFound),
            11 => Some(IggyError::ConsumerGroupAlreadyExists),
            12 => Some(IggyError::OffsetOutOfRange),
            13 => Some(IggyError::IoError),
            14 => Some(IggyError::ChecksumMismatch),
            15 => Some(IggyError::ResourceNameInvalid),
            16 => Some(IggyError::UserNotFound),
            17 => Some(IggyError::InvalidCredentials),
            _ => None,
        }
    }
}

} // verus!
