use image::codecs::jpeg::JpegEncoder;
use image::{ImageFormat, RgbImage};
use jippigy::jpeg::{
    all_icc_segments_complete, count_without_exif, count_without_icc,
};
use jippigy::{
    Compress, Error, Parallel, Sequencer, Single, SingleBuilder, TaskQueue, TaskWorkerBuilder,
    DEVICE, QUALITY,
};
use std::io::Cursor;

fn jpeg_of_size(width: u32, height: u32) -> Vec<u8> {
    let mut jpeg = Vec::new();
    RgbImage::new(width, height)
        .write_to(&mut Cursor::new(&mut jpeg), ImageFormat::Jpeg)
        .unwrap();
    jpeg
}

fn codec(bytes: &[u8], quality: u8) -> Result<Vec<u8>, String> {
    let image = image::load_from_memory(bytes).map_err(|e| e.to_string())?.to_rgb8();
    let mut out = Vec::new();
    JpegEncoder::new_with_quality(&mut out, quality)
        .encode_image(&image)
        .map_err(|e| e.to_string())?;
    Ok(out)
}

fn dimensions(jpeg: &[u8]) -> (u32, u32) {
    let image = image::load_from_memory(jpeg).unwrap().to_rgb8();
    (image.width(), image.height())
}

/// Simulates `device_num` workers: in each round every worker steals one
/// item, and the workers then finish in reverse order.
fn run_with_workers(
    payloads: Vec<Vec<u8>>,
    device_num: u8,
    quality: u8,
) -> Vec<Result<Vec<u8>, Error>> {
    let work = Parallel::from_vec(payloads)
        .with_quality(quality)
        .with_device(device_num)
        .build()
        .into_work();
    let workers = work.device_num();
    let quality = work.quality();
    let mut sequencer = work.sequencer();
    let mut queue = work.into_queue();
    let mut results = Vec::new();
    loop {
        let mut held = Vec::new();
        for _ in 0..workers {
            if let Some(item) = queue.steal() {
                held.push(item);
            }
        }
        if held.is_empty() {
            break;
        }
        for (k, bytes) in held.into_iter().rev() {
            let task = Compress::new(bytes, quality);
            let encoded = codec(task.bytes(), task.quality());
            results.extend(sequencer.complete(k, task.compress(encoded)).unwrap());
        }
    }
    assert!(sequencer.is_finished());
    results
}

fn outcomes(results: &[Result<Vec<u8>, Error>]) -> Vec<bool> {
    results.iter().map(|r| r.is_ok()).collect()
}

#[test]
fn every_payload_yields_exactly_one_result() {
    for n in [1usize, 2, 7] {
        for workers in [1u8, 3, 8] {
            let payloads = (0..n).map(|i| jpeg_of_size(8 + i as u32, 8)).collect();
            let results = run_with_workers(payloads, workers, 70);
            assert_eq!(results.len(), n);
        }
    }
}

#[test]
fn results_follow_submission_order() {
    let payloads: Vec<Vec<u8>> = (0..6).map(|i| jpeg_of_size(8 * (i + 1), 8)).collect();
    for workers in [1u8, 2, 4] {
        let results = run_with_workers(payloads.clone(), workers, 90);
        for (i, r) in results.iter().enumerate() {
            assert_eq!(dimensions(r.as_ref().unwrap()), (8 * (i as u32 + 1), 8));
        }
    }
}

#[test]
fn invalid_payload_fails_and_valid_one_succeeds() {
    let invalid = Single::from_bytes(vec![0u8; 300]).build();
    let encoded = codec(invalid.bytes(), invalid.codec_quality());
    assert!(invalid.compress(encoded).is_err());
    let valid = Single::from_bytes(jpeg_of_size(1, 1)).build();
    let encoded = codec(valid.bytes(), valid.codec_quality());
    let out = valid.compress(encoded).unwrap();
    assert!(out.len() > 0);
}

#[test]
fn worker_count_keeps_outcomes() {
    let mut payloads = Vec::new();
    for i in 0..9 {
        if i % 3 == 0 {
            payloads.push(vec![0u8; 64]);
        } else {
            payloads.push(jpeg_of_size(16, 16));
        }
    }
    let one = outcomes(&run_with_workers(payloads.clone(), 1, 80));
    let four = outcomes(&run_with_workers(payloads.clone(), 4, 80));
    let nine = outcomes(&run_with_workers(payloads, 9, 80));
    assert_eq!(one, four);
    assert_eq!(one, nine);
    assert_eq!(one, vec![false, true, true, false, true, true, false, true, true]);
}

#[test]
fn twenty_invalid_payloads_all_fail() {
    let payloads = vec![vec![0u8; 1024]; 20];
    let results = run_with_workers(payloads, 4, 95);
    assert_eq!(results.len(), 20);
    assert!(results.iter().all(|r| r.is_err()));
}

#[test]
fn twenty_minimal_jpegs_all_succeed() {
    let payloads = vec![jpeg_of_size(1, 1); 20];
    let results = run_with_workers(payloads, 4, 80);
    assert_eq!(results.len(), 20);
    for r in results {
        assert!(r.unwrap().len() > 0);
    }
}

#[test]
fn reversed_completion_still_releases_in_index_order() {
    let payloads: Vec<Vec<u8>> = (0..5).map(|i| jpeg_of_size(8 * (i + 1), 8)).collect();
    let work = Parallel::from_vec(payloads).with_device(5).build().into_work();
    let quality = work.quality();
    let mut sequencer = work.sequencer();
    let mut queue = work.into_queue();
    let mut stolen = Vec::new();
    while let Some(item) = queue.steal() {
        stolen.push(item);
    }
    assert_eq!(stolen.iter().map(|s| s.0).collect::<Vec<_>>(), vec![0, 1, 2, 3, 4]);
    let mut released = Vec::new();
    for (k, bytes) in stolen.into_iter().rev() {
        let task = Compress::new(bytes, quality);
        let encoded = codec(task.bytes(), task.quality());
        let ready = sequencer.complete(k, task.compress(encoded)).unwrap();
        if k > 0 {
            assert!(ready.is_empty());
        } else {
            assert_eq!(ready.len(), 5);
        }
        released.extend(ready);
    }
    for (i, r) in released.iter().enumerate() {
        assert_eq!(dimensions(r.as_ref().unwrap()), (8 * (i as u32 + 1), 8));
    }
}

#[test]
fn single_worker_terminates_with_correct_results() {
    let payloads = vec![jpeg_of_size(4, 4), vec![1u8, 2, 3], jpeg_of_size(5, 3)];
    let results = run_with_workers(payloads, 1, 60);
    assert_eq!(outcomes(&results), vec![true, false, true]);
    assert_eq!(dimensions(results[2].as_ref().unwrap()), (5, 3));
}

#[test]
fn zero_workers_run_as_one() {
    let work = Parallel::from_vec(vec![vec![1u8]]).with_device(0).build().into_work();
    assert_eq!(work.device_num(), 1);
    let results = run_with_workers(vec![jpeg_of_size(2, 2)], 0, 50);
    assert_eq!(results.len(), 1);
    assert!(results[0].is_ok());
}

#[test]
fn sequencer_holds_results_until_their_turn() {
    let mut s: Sequencer<u32> = Sequencer::new(3);
    assert_eq!(s.total(), 3);
    assert_eq!(s.complete(1, 10).unwrap(), Vec::<u32>::new());
    assert_eq!(s.released(), 0);
    assert_eq!(s.complete(0, 5).unwrap(), vec![5, 10]);
    assert_eq!(s.released(), 2);
    assert!(!s.is_finished());
    assert_eq!(s.complete(2, 7).unwrap(), vec![7]);
    assert!(s.is_finished());
}

#[test]
fn sequencer_refuses_a_second_report() {
    let mut s: Sequencer<u32> = Sequencer::new(2);
    assert!(s.complete(1, 1).is_ok());
    assert!(matches!(s.complete(1, 2), Err(Error::JippigyInternalError(_))));
    assert!(matches!(s.complete(2, 2), Err(Error::JippigyInternalError(_))));
    assert_eq!(s.complete(0, 0).unwrap(), vec![0, 1]);
    assert!(matches!(s.complete(0, 3), Err(Error::JippigyInternalError(_))));
}

#[test]
fn empty_batch_is_finished_at_once() {
    let work = Parallel::from_vec(Vec::new()).build().into_work();
    assert_eq!(work.len(), 0);
    assert!(work.sequencer().is_finished());
    let mut queue = work.into_queue();
    assert!(queue.steal().is_none());
}

#[test]
fn queue_hands_out_each_item_once_in_order() {
    let mut q = TaskQueue::from_payloads(vec![vec![7u8], vec![8u8, 9], vec![]]);
    assert_eq!(q.len(), 3);
    assert_eq!(q.steal(), Some((0, vec![7u8])));
    assert_eq!(q.steal(), Some((1, vec![8u8, 9])));
    assert_eq!(q.steal(), Some((2, vec![])));
    assert!(q.is_empty());
    assert_eq!(q.steal(), None);
    assert!(TaskQueue::new().is_empty());
}

#[test]
fn codec_error_is_reported_as_such() {
    let task = Compress::new(jpeg_of_size(2, 2), 50);
    assert_eq!(
        task.compress(Err("boom".to_string())),
        Err(Error::TurboJPEGError("boom".to_string()))
    );
}

#[test]
fn original_that_is_not_jpeg_fails_to_parse() {
    let task = Compress::new(vec![0u8; 16], 50);
    let r = task.compress(Ok(jpeg_of_size(2, 2)));
    assert!(matches!(r, Err(Error::TurboJPEGError(_))));
}

#[test]
fn output_with_too_few_segments_is_refused() {
    let task = Compress::new(jpeg_of_size(2, 2), 50);
    let r = task.compress(Ok(vec![0xFF, 0xD8, 0xFF, 0xD9]));
    assert!(matches!(r, Err(Error::ImgPartError(_))));
}

#[test]
fn exif_of_the_original_is_kept() {
    let plain = jpeg_of_size(6, 6);
    let mut exif_segment = vec![0xFFu8, 0xE1, 0x00, 18];
    exif_segment.extend_from_slice(b"Exif\0\0hello-exif");
    let mut original = plain[..2].to_vec();
    original.extend_from_slice(&exif_segment);
    original.extend_from_slice(&plain[2..]);
    let task = Compress::new(original, 75);
    let encoded = codec(task.bytes(), task.quality()).unwrap();
    let out = task.compress(Ok(encoded.clone())).unwrap();
    assert_ne!(out, encoded);
    assert!(out.windows(16).any(|w| w == b"Exif\0\0hello-exif"));
    assert_eq!(&out[..2], &[0xFF, 0xD8]);
    assert_eq!(dimensions(&out), (6, 6));
}

#[test]
fn quality_is_clamped() {
    assert_eq!(Compress::new(Vec::new(), 0).quality(), 1);
    assert_eq!(Compress::new(Vec::new(), 1).quality(), 1);
    assert_eq!(Compress::new(Vec::new(), 55).quality(), 55);
    assert_eq!(Compress::new(Vec::new(), 100).quality(), 100);
    assert_eq!(Compress::new(Vec::new(), 250).quality(), 100);
}

#[test]
fn single_builder_defaults_and_settings() {
    let builder = Single::from_bytes(vec![1u8, 2, 3]);
    assert_eq!(builder.quality(), QUALITY);
    assert_eq!(builder.quality(), 95);
    assert_eq!(builder.bytes(), &vec![1u8, 2, 3]);
    let builder = builder.with_quality(80);
    assert_eq!(builder.quality(), 80);
    let single = builder.build();
    assert_eq!(single.quality(), 80);
    assert_eq!(single.bytes(), &vec![1u8, 2, 3]);
}

#[test]
fn single_equality() {
    let a = Single::from_bytes(vec![1u8, 2]);
    let b = Single::from_bytes(vec![1u8, 2]);
    let c = Single::from_bytes(vec![1u8, 3]);
    assert_eq!(a, b);
    assert_ne!(a, c);
    assert_ne!(a.clone(), a.clone().with_quality(10));
    assert_eq!(a.clone().build(), b.build());
    assert_ne!(a.build(), c.build());
    assert_eq!(SingleBuilder::default().quality(), 0);
}

#[test]
fn parallel_builder_defaults_and_settings() {
    let work = Parallel::from_vec(vec![vec![1u8], vec![2u8]]).build().into_work();
    assert_eq!(work.quality(), QUALITY);
    assert_eq!(work.device_num(), DEVICE);
    assert_eq!(work.device_num(), 2);
    assert_eq!(work.len(), 2);
    let work = Parallel::from_vec(vec![vec![1u8]])
        .with_quality(50)
        .with_device(4)
        .build()
        .into_work();
    assert_eq!(work.quality(), 50);
    assert_eq!(work.device_num(), 4);
}

#[test]
fn task_worker_builder_settings() {
    let builder = TaskWorkerBuilder::new("images", "");
    assert_eq!(builder.get_quality(), 50);
    assert_eq!(builder.get_device(), 4);
    let builder = builder.quality(70).device(8).output_dir("compressed");
    assert_eq!(builder.get_quality(), 70);
    assert_eq!(builder.get_device(), 8);
    assert_eq!(*builder.image_dir(), "images");
    assert_eq!(*builder.get_output_dir(), "compressed");
}

#[test]
fn segment_counts() {
    let segments = vec![
        (0xE1u8, b"Exif\0\0abc".to_vec()),
        (0xE1u8, b"http://ns".to_vec()),
        (0xE2u8, b"ICC_PROFILE\0\x01\x01xyz".to_vec()),
        (0xDBu8, vec![0u8; 4]),
    ];
    assert_eq!(count_without_exif(&segments), 3);
    assert_eq!(count_without_icc(&segments), 3);
    assert!(all_icc_segments_complete(&segments));
    let truncated = vec![(0xE2u8, b"ICC_PROFILE\0\x01".to_vec())];
    assert!(!all_icc_segments_complete(&truncated));
}

/// `plain` with `segment` inserted right after its start-of-image marker.
fn with_segment(plain: &[u8], segment: &[u8]) -> Vec<u8> {
    let mut out = plain[..2].to_vec();
    out.extend_from_slice(segment);
    out.extend_from_slice(&plain[2..]);
    out
}

#[test]
fn coded_output_that_is_not_jpeg_fails_to_parse() {
    let task = Compress::new(jpeg_of_size(2, 2), 50);
    let r = task.compress(Ok(vec![0x12u8, 0x34, 0x56]));
    assert!(matches!(r, Err(Error::TurboJPEGError(_))));
}

#[test]
fn missing_metadata_still_succeeds() {
    let original = jpeg_of_size(3, 5);
    let task = Compress::new(original, 90);
    let encoded = codec(task.bytes(), task.quality()).unwrap();
    let out = task.compress(Ok(encoded)).unwrap();
    assert!(out.windows(6).any(|w| w == b"Exif\0\0"));
    assert!(out.windows(12).any(|w| w == b"ICC_PROFILE\0"));
    assert_eq!(dimensions(&out), (3, 5));
}

#[test]
fn icc_profile_of_the_original_is_kept() {
    let mut icc = vec![0xFFu8, 0xE2, 0x00, 24];
    icc.extend_from_slice(b"ICC_PROFILE\0\x01\x01profile!");
    let original = with_segment(&jpeg_of_size(4, 4), &icc);
    let task = Compress::new(original, 80);
    let encoded = codec(task.bytes(), task.quality()).unwrap();
    let out = task.compress(Ok(encoded)).unwrap();
    assert!(out.windows(22).any(|w| w == b"ICC_PROFILE\0\x01\x01profile!"));
}

#[test]
fn truncated_icc_segment_is_refused() {
    let mut icc = vec![0xFFu8, 0xE2, 0x00, 15];
    icc.extend_from_slice(b"ICC_PROFILE\0\x01");
    let original = with_segment(&jpeg_of_size(4, 4), &icc);
    let task = Compress::new(original, 80);
    let encoded = codec(&jpeg_of_size(4, 4), 80).unwrap();
    assert!(matches!(task.compress(Ok(encoded)), Err(Error::ImgPartError(_))));
}

#[test]
fn same_input_and_codec_output_agree() {
    let original = jpeg_of_size(7, 7);
    let encoded = codec(&original, 60).unwrap();
    let a = Compress::new(original.clone(), 60).compress(Ok(encoded.clone()));
    let b = Compress::new(original, 60).compress(Ok(encoded));
    assert_eq!(a, b);
}

#[test]
fn single_hands_the_codec_a_clamped_quality() {
    assert_eq!(Single::from_bytes(vec![]).with_quality(0).build().codec_quality(), 1);
    assert_eq!(Single::from_bytes(vec![]).with_quality(200).build().codec_quality(), 100);
    assert_eq!(Single::from_bytes(vec![]).build().codec_quality(), 95);
}
