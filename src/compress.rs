//! One recompression: the codec's output framed with the EXIF data and ICC
//! profile of the original image.
use vstd::prelude::*;

use crate::error::Error;
use crate::jpeg::{
    all_icc_segments_complete, count_without_exif, count_without_icc, encode_jpeg, error_text,
    exif_of, exif_prefix, first_exif, has_soi, icc_of, icc_segments_complete, jpeg_segments,
    parse_jpeg,
    parsed_segments, segments_of, set_exif, set_icc, without_exif, without_icc,
};
use crate::jpeg::{lemma_first_exif_fits, lemma_framed_encodable};

verus! {

/// `q` brought into the range 1 to 100 that the codec takes.
pub open spec fn clamp_quality(q: u8) -> u8 {
    if q > 100 {
        100
    } else if q < 1 {
        1
    } else {
        q
    }
}

/// The EXIF data of the segments `o`, empty where they hold none.
pub open spec fn exif_or_empty(o: Seq<(u8, Seq<u8>)>) -> Seq<u8> {
    match first_exif(o) {
        Some(e) => e,
        None => Seq::empty(),
    }
}

/// The segments `c` with their EXIF segments replaced by one holding the
/// EXIF data of the segments `o`.
pub open spec fn with_exif_of(c: Seq<(u8, Seq<u8>)>, o: Seq<(u8, Seq<u8>)>) -> Seq<(u8, Seq<u8>)> {
    without_exif(c).insert(3, (0xE1u8, exif_prefix() + exif_or_empty(o)))
}

/// Whether the metadata of the segments `o` can be written into the
/// segments `c`: the ICC segments are whole, and enough other segments stand
/// before the places where the EXIF segment and the ICC segments go.
pub open spec fn framable(o: Seq<(u8, Seq<u8>)>, c: Seq<(u8, Seq<u8>)>) -> bool {
    &&& icc_segments_complete(o)
    &&& without_exif(c).len() >= 3
    &&& icc_segments_complete(with_exif_of(c, o))
    &&& without_icc(with_exif_of(c, o)).len() >= 3
}

/// Both `original` and `coded` are JPEGs that img_parts reads.
pub open spec fn both_parse(original: Seq<u8>, coded: Seq<u8>) -> bool {
    parsed_segments(original) is Some && parsed_segments(coded) is Some
}

/// Both are read, and the metadata of `original` can be written into `coded`.
pub open spec fn metadata_fits(original: Seq<u8>, coded: Seq<u8>) -> bool {
    both_parse(original, coded) && framable(
        parsed_segments(original)->Some_0,
        parsed_segments(coded)->Some_0,
    )
}

/// A quality the codec accepts: from 1 to 100.
#[derive(Debug, Clone, Copy)]
struct ValidQuality(u8);

impl ValidQuality {
    /// `value` brought into the range 1 to 100.
    fn from(value: u8) -> (r: Self)
        ensures
            r.0 == clamp_quality(value),
    {
        let max = if value < 100 { value } else { 100 };
        let val = if max > 1 { max } else { 1 };
        ValidQuality(val)
    }

    fn val(&self) -> (r: u8)
        ensures
            r == self.0,
    {
        self.0
    }
}

/// Compression-related work: an image and the quality to compress it at.
#[derive(Debug, Clone)]
pub struct Compress {
    bytes: Vec<u8>,
    quality: u8,
}

impl View for Compress {
    /// The image's bytes and the quality.
    type V = (Seq<u8>, u8);

    closed spec fn view(&self) -> (Seq<u8>, u8) {
        (self.bytes@, self.quality)
    }
}

impl Compress {
    /// Creates a new compression task, its quality brought into 1 to 100.
    pub fn new(bytes: Vec<u8>, quality: u8) -> (r: Self)
        ensures
            r@ == (bytes@, clamp_quality(quality)),
    {
        Compress { bytes, quality: ValidQuality::from(quality).val() }
    }

    /// The image to compress.
    pub fn bytes(&self) -> (r: &Vec<u8>)
        ensures
            r@ == self@.0,
    {
        &self.bytes
    }

    /// The quality to compress at.
    pub fn quality(&self) -> (r: u8)
        ensures
            r == self@.1,
    {
        self.quality
    }

    /// Finishes the compression of the image, given the codec's output for
    /// it (`encoded`): the codec's error is reported as such; otherwise the
    /// EXIF data and ICC profile of the original are written into the
    /// codec's output. This succeeds exactly when both the original and the
    /// codec's output are JPEGs and the metadata fits (`metadata_fits`).
    pub fn compress(&self, encoded: Result<Vec<u8>, String>) -> (r: Result<Vec<u8>, Error>)
        ensures
            encoded matches Err(m) ==> r == Err::<Vec<u8>, Error>(Error::TurboJPEGError(m)),
            encoded matches Ok(d) ==> (r is Ok <==> metadata_fits(self@.0, d@)),
            encoded matches Ok(d) && !both_parse(self@.0, d@) ==> (r matches Err(e)
                && e is TurboJPEGError),
            encoded matches Ok(d) && both_parse(self@.0, d@) && !metadata_fits(self@.0, d@) ==> (
            r matches Err(e) && e is ImgPartError),
            !has_soi(self@.0) ==> r is Err,
            encoded matches Ok(d) && !has_soi(d@) ==> r is Err,
            r matches Ok(v) ==> has_soi(v@),
            r matches Err(e) ==> !(e is JippigyInternalError),
    {
        let image = match CompressImage::new(self.bytes.clone(), self.quality).compress(encoded) {
            Err(e) => return Err(e),
            Ok(image) => image,
        };
        let preserved = match image.into_preserve_exif().preserve_exif() {
            Err(e) => return Err(e),
            Ok(p) => p,
        };
        preserved.get_compressed_bytes()
    }
}

/// An image with its original bytes and the codec's output.
struct CompressImage {
    bytes: Vec<u8>,
    compressed_bytes: Vec<u8>,
    q: u8,
}

impl CompressImage {
    /// Creates a new image to be compressed.
    fn new(bytes: Vec<u8>, q: u8) -> (r: Self)
        ensures
            r.bytes@ == bytes@,
            r.compressed_bytes@.len() == 0,
            r.q == q,
    {
        CompressImage { q, bytes, compressed_bytes: Vec::new() }
    }

    /// Takes the codec's output for this image, retaining the original and
    /// the compressed bytes.
    fn compress(self, encoded: Result<Vec<u8>, String>) -> (r: Result<Self, Error>)
        ensures
            encoded matches Err(m) ==> r == Err::<Self, Error>(Error::TurboJPEGError(m)),
            encoded matches Ok(d) ==> (r matches Ok(c) && c.bytes@ == self.bytes@
                && c.compressed_bytes@ == d@ && c.q == self.q),
    {
        match encoded {
            Err(m) => Err(Error::TurboJPEGError(m)),
            Ok(data) => Ok(CompressImage { bytes: self.bytes, compressed_bytes: data, q: self.q }),
        }
    }

    /// Produce PreserveExif.
    fn into_preserve_exif(self) -> (r: PreserveExif)
        ensures
            r.original_bytes@ == self.bytes@,
            r.compressed_bytes@ == self.compressed_bytes@,
            r.with_exif_preserved@.len() == 0,
    {
        PreserveExif {
            original_bytes: self.bytes,
            compressed_bytes: self.compressed_bytes,
            with_exif_preserved: Vec::new(),
        }
    }
}

/// An image's bytes before and after compression, and the compressed bytes
/// once the original's metadata has been written into them.
struct PreserveExif {
    original_bytes: Vec<u8>,
    compressed_bytes: Vec<u8>,
    with_exif_preserved: Vec<u8>,
}

impl PreserveExif {
    /// Parses the EXIF data and ICC profile of the original bytes and writes
    /// them into the compressed bytes. A missing EXIF segment or ICC profile
    /// is written as an empty one.
    fn preserve_exif(self) -> (r: Result<Self, Error>)
        ensures
            r is Ok <==> metadata_fits(self.original_bytes@, self.compressed_bytes@),
            !both_parse(self.original_bytes@, self.compressed_bytes@) ==> (r matches Err(e)
                && e is TurboJPEGError),
            both_parse(self.original_bytes@, self.compressed_bytes@) && !metadata_fits(
                self.original_bytes@,
                self.compressed_bytes@,
            ) ==> (r matches Err(e) && e is ImgPartError),
            !has_soi(self.original_bytes@) ==> r is Err,
            !has_soi(self.compressed_bytes@) ==> r is Err,
            r matches Ok(p) ==> p.original_bytes@ == self.original_bytes@
                && p.compressed_bytes@.len() == 0 && has_soi(p.with_exif_preserved@),
    {
        let original = match parse_jpeg(&self.original_bytes) {
            Err(e) => return Err(Error::TurboJPEGError(error_text(&e))),
            Ok(j) => j,
        };
        let mut compressed = match parse_jpeg(&self.compressed_bytes) {
            Err(e) => return Err(Error::TurboJPEGError(error_text(&e))),
            Ok(j) => j,
        };
        let ghost o = jpeg_segments(original);
        let ghost c = jpeg_segments(compressed);
        if !all_icc_segments_complete(&segments_of(&original)) {
            return Err(Error::ImgPartError("truncated ICC profile segment".to_string()));
        }
        let exif = match exif_of(&original) {
            None => Vec::new(),
            Some(e) => e,
        };
        let icc_profile = match icc_of(&original) {
            None => Vec::new(),
            Some(p) => p,
        };
        assert(exif@ == exif_or_empty(o));
        if count_without_exif(&segments_of(&compressed)) < 3 {
            return Err(Error::ImgPartError("too few segments for EXIF data".to_string()));
        }
        proof {
            lemma_first_exif_fits(o);
        }
        set_exif(&mut compressed, exif);
        let segments = segments_of(&compressed);
        if !all_icc_segments_complete(&segments) || count_without_icc(&segments) < 3 {
            return Err(Error::ImgPartError("too few segments for an ICC profile".to_string()));
        }
        set_icc(&mut compressed, icc_profile);
        proof {
            lemma_framed_encodable(c, exif_or_empty(o), jpeg_segments(compressed));
        }
        Ok(PreserveExif {
            original_bytes: self.original_bytes,
            compressed_bytes: Vec::new(),
            with_exif_preserved: encode_jpeg(compressed),
        })
    }

    /// Returns the compressed bytes with EXIF preserved.
    /// Fails if EXIF has not been preserved yet.
    fn get_compressed_bytes(self) -> (r: Result<Vec<u8>, Error>)
        ensures
            self.compressed_bytes@.len() == 0 && self.with_exif_preserved@.len() != 0 ==> r
                == Ok::<Vec<u8>, Error>(self.with_exif_preserved),
            !(self.compressed_bytes@.len() == 0 && self.with_exif_preserved@.len() != 0) ==> (r
                matches Err(e) && e is JippigyInternalError),
    {
        if self.compressed_bytes.len() == 0 && self.with_exif_preserved.len() != 0 {
            Ok(self.with_exif_preserved)
        } else {
            Err(Error::JippigyInternalError("EXIF data is not preserved".to_string()))
        }
    }
}

} // verus!
