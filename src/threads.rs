//! Configuration of a bulk compression of a directory: where the images
//! are, where the compressed images go, the quality and the worker count.
use std::marker::PhantomData;

use vstd::prelude::*;

verus! {

/// Current state has image directory.
pub struct HasImageDir;

/// Current state has output directory.
pub struct HasOutputDir;

/// Custom configuration for building a directory worker. The markers `IM`
/// and `O` record whether the image and output directories have been given.
pub struct TaskWorkerBuilder<IM, O, T> {
    image_dir: T,
    quality: u8,
    output_dir: T,
    device_num: u8,
    _marker: PhantomData<(IM, O)>,
}

impl<IM, O, T> View for TaskWorkerBuilder<IM, O, T> {
    /// The image directory, the quality, the output directory and the
    /// number of worker threads.
    type V = (T, u8, T, u8);

    closed spec fn view(&self) -> (T, u8, T, u8) {
        (self.image_dir, self.quality, self.output_dir, self.device_num)
    }
}

impl<T> TaskWorkerBuilder<HasImageDir, T, T> {
    /// A configuration for the images in `image_dir`, at quality 50 with 4
    /// worker threads; `output_dir` stands until the output directory is given.
    pub fn new(image_dir: T, output_dir: T) -> (r: Self)
        ensures
            r@ == (image_dir, 50u8, output_dir, 4u8),
    {
        TaskWorkerBuilder { image_dir, quality: 50, output_dir, device_num: 4, _marker: PhantomData }
    }
}

impl<IM, O, T> TaskWorkerBuilder<IM, O, T> {
    /// Sets the output directory for compressed images; the directory
    /// itself is created by whoever runs the work.
    /// This method is required.
    pub fn output_dir(self, output_dir: T) -> (r: TaskWorkerBuilder<HasImageDir, HasOutputDir, T>)
        ensures
            r@ == (self@.0, self@.1, output_dir, self@.3),
    {
        TaskWorkerBuilder {
            image_dir: self.image_dir,
            quality: self.quality,
            output_dir,
            device_num: self.device_num,
            _marker: PhantomData,
        }
    }

    /// Specifies the quality of compressed images.
    /// Defaults to 50 (50% of the original quality).
    pub fn quality(self, quality: u8) -> (r: TaskWorkerBuilder<HasImageDir, O, T>)
        ensures
            r@ == (self@.0, quality, self@.2, self@.3),
    {
        TaskWorkerBuilder {
            image_dir: self.image_dir,
            quality,
            device_num: self.device_num,
            output_dir: self.output_dir,
            _marker: PhantomData,
        }
    }

    /// Specifies the number of threads to be used.
    /// Defaults to 4.
    pub fn device(self, device_num: u8) -> (r: TaskWorkerBuilder<HasImageDir, O, T>)
        ensures
            r@ == (self@.0, self@.1, self@.2, device_num),
    {
        TaskWorkerBuilder {
            image_dir: self.image_dir,
            quality: self.quality,
            output_dir: self.output_dir,
            device_num,
            _marker: PhantomData,
        }
    }

    /// The directory of the images to compress.
    pub fn image_dir(&self) -> (r: &T)
        ensures
            *r == self@.0,
    {
        &self.image_dir
    }

    /// The directory the compressed images go to.
    pub fn get_output_dir(&self) -> (r: &T)
        ensures
            *r == self@.2,
    {
        &self.output_dir
    }

    /// The quality to compress at.
    pub fn get_quality(&self) -> (r: u8)
        ensures
            r == self@.1,
    {
        self.quality
    }

    /// The number of worker threads.
    pub fn get_device(&self) -> (r: u8)
        ensures
            r == self@.3,
    {
        self.device_num
    }
}

} // verus!
