//! JPEG segment framing through img_parts: parsing, reading and replacing the
//! EXIF and ICC segments, and encoding back to bytes.
use vstd::prelude::*;

use img_parts::jpeg::Jpeg;
use img_parts::Error as PartsError;
use img_parts::{ImageEXIF, ImageICC};

verus! {

#[verifier::external_type_specification]
#[verifier::external_body]
pub struct ExJpeg(img_parts::jpeg::Jpeg);

#[verifier::external_type_specification]
#[verifier::external_body]
pub struct ExPartsError(PartsError);

/// The marker and the contents of each segment of a parsed JPEG, in order
/// (the entropy-coded data that follows a scan header is not part of it).
pub uninterp spec fn jpeg_segments(j: Jpeg) -> Seq<(u8, Seq<u8>)>;

/// What img_parts reads from `b`: the marker and contents of each segment,
/// or nothing where `b` is not a JPEG it can read.
pub uninterp spec fn parsed_segments(b: Seq<u8>) -> Option<Seq<(u8, Seq<u8>)>>;

/// The start-of-image marker that every JPEG begins with.
pub open spec fn has_soi(b: Seq<u8>) -> bool {
    b.len() >= 2 && b[0] == 0xFF && b[1] == 0xD8
}

/// `p` is a prefix of `s`.
pub open spec fn starts_with(s: Seq<u8>, p: Seq<u8>) -> bool {
    p.len() <= s.len() && s.subrange(0, p.len() as int) == p
}

/// `Exif\0\0`, the start of the contents of an EXIF segment.
pub open spec fn exif_prefix() -> Seq<u8> {
    seq![0x45u8, 0x78u8, 0x69u8, 0x66u8, 0x00u8, 0x00u8]
}

/// `ICC_PROFILE\0`, the start of the contents of an ICC segment.
pub open spec fn icc_prefix() -> Seq<u8> {
    seq![
        0x49u8, 0x43u8, 0x43u8, 0x5Fu8, 0x50u8, 0x52u8, 0x4Fu8, 0x46u8, 0x49u8, 0x4Cu8, 0x45u8,
        0x00u8,
    ]
}

/// An APP1 segment that holds EXIF data.
pub open spec fn is_exif_segment(s: (u8, Seq<u8>)) -> bool {
    s.0 == 0xE1 && starts_with(s.1, exif_prefix())
}

/// An APP2 segment that holds a part of an ICC profile.
pub open spec fn is_icc_segment(s: (u8, Seq<u8>)) -> bool {
    s.0 == 0xE2 && starts_with(s.1, icc_prefix())
}

/// The segments that are not EXIF segments, in order.
pub open spec fn without_exif(segs: Seq<(u8, Seq<u8>)>) -> Seq<(u8, Seq<u8>)>
    decreases segs.len(),
{
    if segs.len() == 0 {
        segs
    } else {
        let rest = without_exif(segs.drop_last());
        if is_exif_segment(segs.last()) {
            rest
        } else {
            rest.push(segs.last())
        }
    }
}

/// The segments that are not ICC segments, in order.
pub open spec fn without_icc(segs: Seq<(u8, Seq<u8>)>) -> Seq<(u8, Seq<u8>)>
    decreases segs.len(),
{
    if segs.len() == 0 {
        segs
    } else {
        let rest = without_icc(segs.drop_last());
        if is_icc_segment(segs.last()) {
            rest
        } else {
            rest.push(segs.last())
        }
    }
}

/// The EXIF data of the first EXIF segment, if there is one.
pub open spec fn first_exif(segs: Seq<(u8, Seq<u8>)>) -> Option<Seq<u8>>
    decreases segs.len(),
{
    if segs.len() == 0 {
        None
    } else if is_exif_segment(segs[0]) {
        Some(segs[0].1.subrange(exif_prefix().len() as int, segs[0].1.len() as int))
    } else {
        first_exif(segs.drop_first())
    }
}

/// Some segment is an ICC segment.
pub open spec fn has_icc_segment(segs: Seq<(u8, Seq<u8>)>) -> bool {
    exists|i: int| 0 <= i < segs.len() && is_icc_segment(#[trigger] segs[i])
}

/// Every ICC segment carries its sequence number and count after the prefix.
pub open spec fn icc_segments_complete(segs: Seq<(u8, Seq<u8>)>) -> bool {
    forall|i: int|
        0 <= i < segs.len() && is_icc_segment(#[trigger] segs[i]) ==> segs[i].1.len()
            >= icc_prefix().len() + 2
}

/// Every segment is small enough for its length to be written in two bytes.
pub open spec fn segments_encodable(segs: Seq<(u8, Seq<u8>)>) -> bool {
    forall|i: int| 0 <= i < segs.len() ==> (#[trigger] segs[i]).1.len() <= 65533
}

/// Segments as handed out in memory, seen as values.
pub open spec fn segments_view(v: Seq<(u8, Vec<u8>)>) -> Seq<(u8, Seq<u8>)> {
    v.map_values(|s: (u8, Vec<u8>)| (s.0, s.1@))
}

/// Relies on img_parts::jpeg::Jpeg::from_bytes: it fails unless the bytes
/// start with the start-of-image marker, and each segment it reads holds at
/// most 65533 bytes of contents, its length being read from two bytes.
#[verifier::external_body]
pub(crate) fn parse_jpeg(b: &Vec<u8>) -> (r: Result<Jpeg, PartsError>)
    ensures
        r is Ok <==> parsed_segments(b@) is Some,
        r matches Ok(j) ==> parsed_segments(b@) == Some(jpeg_segments(j)),
        r is Ok ==> has_soi(b@),
        r matches Ok(j) ==> segments_encodable(jpeg_segments(j)),
{
    Jpeg::from_bytes(img_parts::Bytes::copy_from_slice(b.as_slice()))
}

/// Relies on img_parts::Error's Display impl, for the text of an error.
#[verifier::external_body]
pub(crate) fn error_text(e: &PartsError) -> String {
    e.to_string()
}

/// Relies on img_parts::jpeg::Jpeg::segments, JpegSegment::marker and
/// JpegSegment::contents: the marker and contents of each segment.
#[verifier::external_body]
pub(crate) fn segments_of(j: &Jpeg) -> (r: Vec<(u8, Vec<u8>)>)
    ensures
        segments_view(r@) == jpeg_segments(*j),
{
    j.segments().iter().map(|s| (s.marker(), s.contents().to_vec())).collect()
}

/// Relies on img_parts' ImageEXIF::exif for Jpeg: the contents of the first
/// EXIF segment, after the EXIF prefix.
#[verifier::external_body]
pub(crate) fn exif_of(j: &Jpeg) -> (r: Option<Vec<u8>>)
    ensures
        r is Some <==> first_exif(jpeg_segments(*j)) is Some,
        r matches Some(v) ==> first_exif(jpeg_segments(*j)) == Some(v@),
{
    j.exif().map(|b| b.to_vec())
}

/// Relies on img_parts' ImageICC::icc_profile for Jpeg: there is a profile
/// exactly when there is an ICC segment. It reads two bytes after the prefix
/// of each ICC segment, and panics where they are missing.
#[verifier::external_body]
pub(crate) fn icc_of(j: &Jpeg) -> (r: Option<Vec<u8>>)
    requires
        icc_segments_complete(jpeg_segments(*j)),
    ensures
        r is Some <==> has_icc_segment(jpeg_segments(*j)),
{
    j.icc_profile().map(|b| b.to_vec())
}

/// Relies on img_parts' ImageEXIF::set_exif for Jpeg: it removes every EXIF
/// segment, then inserts one holding `exif` at position 3, which panics
/// where fewer than 3 segments are left.
#[verifier::external_body]
pub(crate) fn set_exif(j: &mut Jpeg, exif: Vec<u8>)
    requires
        without_exif(jpeg_segments(*old(j))).len() >= 3,
    ensures
        jpeg_segments(*final(j)) == without_exif(jpeg_segments(*old(j))).insert(
            3,
            (0xE1u8, exif_prefix() + exif@),
        ),
{
    j.set_exif(Some(img_parts::Bytes::from(exif)));
}

/// Relies on img_parts' ImageICC::set_icc_profile for Jpeg: it removes every
/// ICC segment, then inserts the parts of `icc` as ICC segments at position
/// 3, which panics where fewer than 3 segments are left. Each part holds at
/// most 65519 bytes, after the prefix and two bytes of numbering. Telling
/// ICC segments apart reads two bytes after their prefix.
#[verifier::external_body]
pub(crate) fn set_icc(j: &mut Jpeg, icc: Vec<u8>)
    requires
        icc_segments_complete(jpeg_segments(*old(j))),
        without_icc(jpeg_segments(*old(j))).len() >= 3,
    ensures
        without_icc(jpeg_segments(*final(j))) == without_icc(jpeg_segments(*old(j))),
        forall|i: int|
            0 <= i < jpeg_segments(*final(j)).len() && is_icc_segment(
                #[trigger] jpeg_segments(*final(j))[i],
            ) ==> jpeg_segments(*final(j))[i].1.len() <= 65533,
{
    j.set_icc_profile(Some(img_parts::Bytes::from(icc)));
}

/// Relies on img_parts::jpeg::Jpeg::encoder and ImageEncoder::bytes: the
/// start-of-image marker, then each segment. Writing a segment's length in
/// two bytes panics where its contents exceed 65533 bytes.
#[verifier::external_body]
pub(crate) fn encode_jpeg(j: Jpeg) -> (r: Vec<u8>)
    requires
        segments_encodable(jpeg_segments(j)),
    ensures
        has_soi(r@),
{
    j.encoder().bytes().to_vec()
}

/// Whether `p` is a prefix of `c`.
fn prefix_matches(c: &Vec<u8>, p: &Vec<u8>) -> (r: bool)
    ensures
        r == starts_with(c@, p@),
{
    if p.len() > c.len() {
        return false;
    }
    let mut i: usize = 0;
    while i < p.len()
        invariant
            p.len() <= c.len(),
            i <= p.len(),
            c@.subrange(0, i as int) == p@.subrange(0, i as int),
        decreases p.len() - i,
    {
        if c[i] != p[i] {
            assert(c@.subrange(0, p.len() as int)[i as int] != p@[i as int]);
            return false;
        }
        i = i + 1;
        assert(c@.subrange(0, i as int) =~= p@.subrange(0, i as int));
    }
    assert(p@.subrange(0, p.len() as int) =~= p@);
    true
}

fn exif_prefix_bytes() -> (r: Vec<u8>)
    ensures
        r@ == exif_prefix(),
{
    let r = vec![0x45u8, 0x78u8, 0x69u8, 0x66u8, 0x00u8, 0x00u8];
    assert(r@ =~= exif_prefix());
    r
}

fn icc_prefix_bytes() -> (r: Vec<u8>)
    ensures
        r@ == icc_prefix(),
{
    let r = vec![
        0x49u8, 0x43u8, 0x43u8, 0x5Fu8, 0x50u8, 0x52u8, 0x4Fu8, 0x46u8, 0x49u8, 0x4Cu8, 0x45u8,
        0x00u8,
    ];
    assert(r@ =~= icc_prefix());
    r
}

/// The number of segments that are not EXIF segments.
pub fn count_without_exif(segs: &Vec<(u8, Vec<u8>)>) -> (r: usize)
    ensures
        r == without_exif(segments_view(segs@)).len(),
{
    let prefix = exif_prefix_bytes();
    let ghost all = segments_view(segs@);
    let mut n: usize = 0;
    let mut i: usize = 0;
    while i < segs.len()
        invariant
            i <= segs.len(),
            all == segments_view(segs@),
            prefix@ == exif_prefix(),
            n == without_exif(all.subrange(0, i as int)).len(),
            n <= i,
        decreases segs.len() - i,
    {
        let seg = &segs[i];
        let exif = seg.0 == 0xE1u8 && prefix_matches(&seg.1, &prefix);
        proof {
            assert(all.subrange(0, i + 1).drop_last() =~= all.subrange(0, i as int));
            assert(all[i as int] == (seg.0, seg.1@));
        }
        if !exif {
            n = n + 1;
        }
        i = i + 1;
    }
    assert(all.subrange(0, segs.len() as int) =~= all);
    n
}

/// The number of segments that are not ICC segments.
pub fn count_without_icc(segs: &Vec<(u8, Vec<u8>)>) -> (r: usize)
    ensures
        r == without_icc(segments_view(segs@)).len(),
{
    let prefix = icc_prefix_bytes();
    let ghost all = segments_view(segs@);
    let mut n: usize = 0;
    let mut i: usize = 0;
    while i < segs.len()
        invariant
            i <= segs.len(),
            all == segments_view(segs@),
            prefix@ == icc_prefix(),
            n == without_icc(all.subrange(0, i as int)).len(),
            n <= i,
        decreases segs.len() - i,
    {
        let seg = &segs[i];
        let icc = seg.0 == 0xE2u8 && prefix_matches(&seg.1, &prefix);
        proof {
            assert(all.subrange(0, i + 1).drop_last() =~= all.subrange(0, i as int));
            assert(all[i as int] == (seg.0, seg.1@));
        }
        if !icc {
            n = n + 1;
        }
        i = i + 1;
    }
    assert(all.subrange(0, segs.len() as int) =~= all);
    n
}

/// Whether every ICC segment carries its sequence number and count.
pub fn all_icc_segments_complete(segs: &Vec<(u8, Vec<u8>)>) -> (r: bool)
    ensures
        r == icc_segments_complete(segments_view(segs@)),
{
    let prefix = icc_prefix_bytes();
    let ghost all = segments_view(segs@);
    let mut i: usize = 0;
    while i < segs.len()
        invariant
            i <= segs.len(),
            all == segments_view(segs@),
            prefix@ == icc_prefix(),
            forall|t: int|
                0 <= t < i && is_icc_segment(#[trigger] all[t]) ==> all[t].1.len()
                    >= icc_prefix().len() + 2,
        decreases segs.len() - i,
    {
        let seg = &segs[i];
        assert(all[i as int] == (seg.0, seg.1@));
        if seg.0 == 0xE2u8 && prefix_matches(&seg.1, &prefix) && seg.1.len() < 14 {
            return false;
        }
        i = i + 1;
    }
    true
}

/// A segment that is kept by `without_icc` is one of the segments.
proof fn lemma_without_icc_from(segs: Seq<(u8, Seq<u8>)>, x: (u8, Seq<u8>))
    requires
        without_icc(segs).contains(x),
    ensures
        segs.contains(x),
    decreases segs.len(),
{
    let rest = without_icc(segs.drop_last());
    if rest.contains(x) {
        lemma_without_icc_from(segs.drop_last(), x);
        let t = choose|t: int| 0 <= t < segs.drop_last().len() && segs.drop_last()[t] == x;
        assert(segs[t] == x);
    } else {
        assert(x == segs.last());
    }
}

/// A segment that is not an ICC segment is kept by `without_icc`.
proof fn lemma_without_icc_keeps(segs: Seq<(u8, Seq<u8>)>, i: int)
    requires
        0 <= i < segs.len(),
        !is_icc_segment(segs[i]),
    ensures
        without_icc(segs).contains(segs[i]),
    decreases segs.len(),
{
    let rest = without_icc(segs.drop_last());
    if i == segs.len() - 1 {
        assert(without_icc(segs).last() == segs[i]);
    } else {
        lemma_without_icc_keeps(segs.drop_last(), i);
        let t = choose|t: int| 0 <= t < rest.len() && rest[t] == segs[i];
        if !is_icc_segment(segs.last()) {
            assert(without_icc(segs)[t] == rest[t]);
        }
    }
}

/// A segment that is kept by `without_exif` is one of the segments.
proof fn lemma_without_exif_from(segs: Seq<(u8, Seq<u8>)>, x: (u8, Seq<u8>))
    requires
        without_exif(segs).contains(x),
    ensures
        segs.contains(x),
    decreases segs.len(),
{
    let rest = without_exif(segs.drop_last());
    if rest.contains(x) {
        lemma_without_exif_from(segs.drop_last(), x);
        let t = choose|t: int| 0 <= t < segs.drop_last().len() && segs.drop_last()[t] == x;
        assert(segs[t] == x);
    } else {
        assert(x == segs.last());
    }
}

/// The EXIF data of an encodable image leaves room for its prefix.
pub(crate) proof fn lemma_first_exif_fits(segs: Seq<(u8, Seq<u8>)>)
    requires
        segments_encodable(segs),
    ensures
        first_exif(segs) matches Some(e) ==> exif_prefix().len() + e.len() <= 65533,
    decreases segs.len(),
{
    if segs.len() > 0 {
        assert(segs[0].1.len() <= 65533);
        if !is_exif_segment(segs[0]) {
            assert forall|i: int| 0 <= i < segs.drop_first().len() implies (
            #[trigger] segs.drop_first()[i]).1.len() <= 65533 by {
                assert(segs.drop_first()[i] == segs[i + 1]);
            }
            lemma_first_exif_fits(segs.drop_first());
        }
    }
}

/// Replacing the EXIF segment of an encodable image by one of `exif`, then
/// its ICC segments by the parts of a profile, leaves it encodable when
/// `exif` fits a segment.
pub(crate) proof fn lemma_framed_encodable(
    c: Seq<(u8, Seq<u8>)>,
    exif: Seq<u8>,
    framed: Seq<(u8, Seq<u8>)>,
)
    requires
        segments_encodable(c),
        without_exif(c).len() >= 3,
        exif_prefix().len() + exif.len() <= 65533,
        without_icc(framed) == without_icc(without_exif(c).insert(3, (0xE1u8, exif_prefix() + exif))),
        forall|i: int|
            0 <= i < framed.len() && is_icc_segment(#[trigger] framed[i]) ==> framed[i].1.len()
                <= 65533,
    ensures
        segments_encodable(framed),
{
    let e = (0xE1u8, exif_prefix() + exif);
    let mid = without_exif(c).insert(3, e);
    assert forall|i: int| 0 <= i < framed.len() implies (#[trigger] framed[i]).1.len()
        <= 65533 by {
        if !is_icc_segment(framed[i]) {
            lemma_without_icc_keeps(framed, i);
            lemma_without_icc_from(mid, framed[i]);
            let k = choose|k: int| 0 <= k < mid.len() && mid[k] == framed[i];
            if k != 3 {
                let x = if k < 3 { without_exif(c)[k] } else { without_exif(c)[k - 1] };
                assert(x == mid[k]);
                assert(without_exif(c).contains(x));
                lemma_without_exif_from(c, x);
            }
        }
    }
}

} // verus!
