use vstd::prelude::*;

verus! {

/// The quality that compressions use unless told otherwise.
pub const QUALITY: u8 = 95;

/// The number of worker threads that bulk compressions use unless told
/// otherwise.
pub const DEVICE: u8 = 2;

} // verus!
