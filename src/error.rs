use vstd::prelude::*;

verus! {

/// Why a transform did not produce a result.
#[derive(Debug, Clone, Copy, PartialEq, Eq, Structural)]
pub enum DftError {
    /// The height needs a root of unity of larger two-power order than the
    /// field has.
    UnsupportedSize,
    /// Another transform holds the accelerator's domain.
    DomainBusy,
    /// The accelerator refused to set up the domain.
    DomainRejected,
    /// The accelerator failed while transforming.
    Accelerator,
    /// A batch descriptor does not fit the buffer it describes.
    LayoutMismatch,
    /// An event arrived that the session did not wait for.
    OutOfOrder,
}

} // verus!
