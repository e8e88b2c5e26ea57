//! The ways in which a call on the storage can be refused.

use vstd::prelude::*;

verus! {

/// Why a call would be refused.
///
/// The operations of this crate do not fail: each states in its `requires`
/// what it needs, and for each there is a function that tests those needs
/// and names the first that is not met. A refusal means that the caller has
/// broken its side of the contract; the caller is expected to stop, and not
/// to make the call.
#[derive(Clone, Copy, Debug, PartialEq, Eq, Structural)]
pub enum StorageError {
    /// Configuration: the size of a data item is not a multiple of the word size.
    DataItemSizeUnaligned,
    /// Configuration: the size of a metadata item is not a multiple of the word
    /// size.
    MetaItemSizeUnaligned,
    /// Resource exhaustion: a region of the requested size cannot be reserved,
    /// the footprint counter cannot hold the new total, or no handle is left.
    ResourceExhausted,
    /// Protocol: the handle names no live allocation.
    InvalidId,
    /// Protocol: the allocation's critical section is already held.
    ReentrantCriticalSection,
    /// Protocol: a checkout while the previous one has not been checked in.
    IllegalCheckout,
    /// Protocol: a checkin without a checkout before it.
    IllegalCheckin,
    /// Buffer contract: a region handed in is not of the allocation's size.
    RegionLengthMismatch,
    /// Buffer contract: the data buffer does not hold one data item per index.
    DataLengthMismatch,
    /// Buffer contract: the metadata buffer does not hold one metadata item per
    /// index.
    MetaLengthMismatch,
    /// Buffer contract: an index names no item of the allocation.
    IndexOutOfBounds,
}

/// The four classes of refusal.
#[derive(Clone, Copy, Debug, PartialEq, Eq, Structural)]
pub enum ErrorClass {
    /// A parameter of an allocation is unusable.
    Configuration,
    /// The host cannot provide what was asked for.
    ResourceExhaustion,
    /// Calls arrived in an order, or with a handle, that the protocol forbids.
    ProtocolViolation,
    /// A buffer or index list does not fit the allocation.
    BufferContractViolation,
}

impl StorageError {
    /// The class of each refusal.
    pub open spec fn spec_class(self) -> ErrorClass {
        match self {
            StorageError::DataItemSizeUnaligned | StorageError::MetaItemSizeUnaligned => {
                ErrorClass::Configuration
            },
            StorageError::ResourceExhausted => ErrorClass::ResourceExhaustion,
            StorageError::InvalidId
            | StorageError::ReentrantCriticalSection
            | StorageError::IllegalCheckout
            | StorageError::IllegalCheckin => ErrorClass::ProtocolViolation,
            StorageError::RegionLengthMismatch
            | StorageError::DataLengthMismatch
            | StorageError::MetaLengthMismatch
            | StorageError::IndexOutOfBounds => ErrorClass::BufferContractViolation,
        }
    }

    /// The class of this refusal.
    #[verifier::when_used_as_spec(spec_class)]
    pub fn class(self) -> (class: ErrorClass)
        ensures
            class == self.spec_class(),
    {
        match self {
            StorageError::DataItemSizeUnaligned | StorageError::MetaItemSizeUnaligned => {
                ErrorClass::Configuration
            },
            StorageError::ResourceExhausted => ErrorClass::ResourceExhaustion,
            StorageError::InvalidId
            | StorageError::ReentrantCriticalSection
            | StorageError::IllegalCheckout
            | StorageError::IllegalCheckin => ErrorClass::ProtocolViolation,
            StorageError::RegionLengthMismatch
            | StorageError::DataLengthMismatch
            | StorageError::MetaLengthMismatch
            | StorageError::IndexOutOfBounds => ErrorClass::BufferContractViolation,
        }
    }
}

} // verus!
