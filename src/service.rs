//! Traits through which a user's service declares its name and checksum and
//! is wrapped into the form that a server dispatches to.
use vstd::prelude::*;
use crate::codec::EncodingFormat;

verus! {

/// Metadata of a service: the name and checksum under which it is registered
/// and looked up.
pub trait ServiceMetadata<Format: EncodingFormat> {
    /// Service name.
    fn name() -> &'static str;

    /// Service checksum.
    fn checksum() -> &'static [u8];
}

/// A wrapper that turns an implementor of a specific service trait into a
/// dispatchable service.
pub trait ServiceWrapper<T, Format: EncodingFormat>: ServiceMetadata<Format> where Self: Sized {
    /// Wraps the implementor.
    fn wrap(to_wrap: T) -> Self;
}

/// An implementor of a specific service trait, with the wrapper that makes a
/// service of it.
pub trait IntoService<Format: EncodingFormat> where Self: Sized {
    /// Wrapper for converting to service
    type Wrapper: ServiceWrapper<Self, Format>;

    /// Converts to service via the wrapper.
    fn into_service(self) -> Self::Wrapper {
        Self::Wrapper::wrap(self)
    }
}

} // verus!
