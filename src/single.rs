//! Single image compressions.
use vstd::prelude::*;

use crate::compress::{both_parse, clamp_quality, metadata_fits, Compress};
use crate::defaults::QUALITY;
use crate::error::Error;
use crate::jpeg::has_soi;

verus! {

/// Custom configuration for building a [`Single`].
/// This struct is not meant to be used directly.
/// Use [`Single::from_bytes`] instead.
#[derive(Debug, Clone, Eq, PartialOrd, Ord, Hash)]
pub struct SingleBuilder {
    bytes_slice: Vec<u8>,
    quality: u8,
}

impl View for SingleBuilder {
    /// The image's bytes and the quality.
    type V = (Seq<u8>, u8);

    closed spec fn view(&self) -> (Seq<u8>, u8) {
        (self.bytes_slice@, self.quality)
    }
}

impl PartialEq for SingleBuilder {
    fn eq(&self, o: &SingleBuilder) -> (r: bool) {
        let same_bytes = self.bytes_slice == o.bytes_slice;
        proof {
            if same_bytes {
                assert(self.bytes_slice@ =~= o.bytes_slice@);
            }
        }
        self.quality == o.quality && same_bytes
    }
}

impl vstd::std_specs::cmp::PartialEqSpecImpl for SingleBuilder {
    open spec fn obeys_eq_spec() -> bool {
        true
    }

    open spec fn eq_spec(&self, o: &SingleBuilder) -> bool {
        self@ == o@
    }
}

impl Default for SingleBuilder {
    fn default() -> (r: Self)
        ensures
            r@ == (Seq::<u8>::empty(), 0u8),
    {
        SingleBuilder { bytes_slice: Vec::new(), quality: 0 }
    }
}

impl SingleBuilder {
    /// Builds a new Single with custom configurations.
    pub fn build(self) -> (r: Single)
        ensures
            r@ == self@,
    {
        Single { bytes_slice: self.bytes_slice, quality: self.quality }
    }

    /// Specifies the quality of compressed images.
    /// Defaults to 95 (95% original quality).
    ///
    /// **This method is optional**.
    pub fn with_quality(self, quality: u8) -> (r: SingleBuilder)
        ensures
            r@ == (self@.0, quality),
    {
        SingleBuilder { bytes_slice: self.bytes_slice, quality }
    }

    /// The image's bytes.
    pub fn bytes(&self) -> (r: &Vec<u8>)
        ensures
            r@ == self@.0,
    {
        &self.bytes_slice
    }

    /// The quality to compress at.
    pub fn quality(&self) -> (r: u8)
        ensures
            r == self@.1,
    {
        self.quality
    }
}

/// Single image compressions.
#[derive(Debug, Clone, Eq, PartialOrd, Ord, Hash)]
pub struct Single {
    bytes_slice: Vec<u8>,
    quality: u8,
}

impl View for Single {
    /// The image's bytes and the quality.
    type V = (Seq<u8>, u8);

    closed spec fn view(&self) -> (Seq<u8>, u8) {
        (self.bytes_slice@, self.quality)
    }
}

impl PartialEq for Single {
    fn eq(&self, o: &Single) -> (r: bool) {
        let same_bytes = self.bytes_slice == o.bytes_slice;
        proof {
            if same_bytes {
                assert(self.bytes_slice@ =~= o.bytes_slice@);
            }
        }
        self.quality == o.quality && same_bytes
    }
}

impl vstd::std_specs::cmp::PartialEqSpecImpl for Single {
    open spec fn obeys_eq_spec() -> bool {
        true
    }

    open spec fn eq_spec(&self, o: &Single) -> bool {
        self@ == o@
    }
}

impl Default for Single {
    fn default() -> (r: Self)
        ensures
            r@ == (Seq::<u8>::empty(), 0u8),
    {
        Single { bytes_slice: Vec::new(), quality: 0 }
    }
}

impl Single {
    /// Creates a single image compression task from the image's bytes.
    /// Returns a [`SingleBuilder`] whose quality is 95.
    pub fn from_bytes(bytes_slice: Vec<u8>) -> (r: SingleBuilder)
        ensures
            r@ == (bytes_slice@, QUALITY),
    {
        SingleBuilder { bytes_slice, quality: QUALITY }
    }

    /// The image's bytes.
    pub fn bytes(&self) -> (r: &Vec<u8>)
        ensures
            r@ == self@.0,
    {
        &self.bytes_slice
    }

    /// The quality to compress at.
    pub fn quality(&self) -> (r: u8)
        ensures
            r == self@.1,
    {
        self.quality
    }

    /// The quality to give the codec: this image's quality, clamped to the
    /// range that the codec takes.
    pub fn codec_quality(&self) -> (r: u8)
        ensures
            r == clamp_quality(self@.1),
    {
        Compress::new(Vec::new(), self.quality).quality()
    }

    /// Finishes compressing this image, given the codec's output for it, run
    /// at [`Single::codec_quality`]: see [`Compress::compress`].
    pub fn compress(self, encoded: Result<Vec<u8>, String>) -> (r: Result<Vec<u8>, Error>)
        ensures
            encoded matches Err(m) ==> r == Err::<Vec<u8>, Error>(Error::TurboJPEGError(m)),
            encoded matches Ok(d) ==> (r is Ok <==> metadata_fits(self@.0, d@)),
            encoded matches Ok(d) && !both_parse(self@.0, d@) ==> (r matches Err(e)
                && e is TurboJPEGError),
            encoded matches Ok(d) && both_parse(self@.0, d@) && !metadata_fits(self@.0, d@) ==> (
            r matches Err(e) && e is ImgPartError),
            !has_soi(self@.0) ==> r is Err,
            encoded matches Ok(d) && !has_soi(d@) ==> r is Err,
            r matches Ok(v) ==> has_soi(v@),
            r matches Err(e) ==> !(e is JippigyInternalError),
    {
        Compress::new(self.bytes_slice, self.quality).compress(encoded)
    }
}

} // verus!
