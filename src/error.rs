use vstd::prelude::*;

verus! {

/// Errors emitted by jippigy.
#[non_exhaustive]
#[derive(Debug, Clone, PartialEq, Eq)]
pub enum Error {
    /// A broken protocol invariant: a bug, not a recoverable condition.
    JippigyInternalError(String),
    /// The codec could not decode or re-encode an image.
    TurboJPEGError(String),
    /// Reading or writing EXIF data or ICC profiles failed.
    ImgPartError(String),
}

} // verus!
