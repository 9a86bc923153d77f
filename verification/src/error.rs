//! Error handling primitives for the ADXL372 driver.

use vstd::prelude::*;

verus! {

/// Error variants produced by the driver.
#[derive(Debug, Clone, Copy, PartialEq, Eq)]
pub enum Error<E> {
    /// Any error reported by the underlying bus interface.
    Interface(E),
    /// The provided configuration parameters are invalid.
    InvalidConfig,
    /// The requested operation is not available yet.
    NotReady,
}

impl<E> From<E> for Error<E> {
    /// Wraps a bus interface failure.
    fn from(err: E) -> (r: Self) {
        Error::Interface(err)
    }
}

impl<E> vstd::std_specs::convert::FromSpecImpl<E> for Error<E> {
    open spec fn obeys_from_spec() -> bool {
        true
    }

    open spec fn from_spec(err: E) -> Self {
        Error::Interface(err)
    }
}

} // verus!
