//! Multi-threaded JPEG recompression: a work queue that hands each payload
//! to exactly one worker, a sequencer that releases the results in the
//! order in which the payloads were submitted, and the framing that keeps
//! each image's EXIF data and ICC profile across recompression.
pub mod bulk;
pub mod compress;
mod defaults;
mod error;
pub mod jpeg;
pub mod queue;
pub mod sequencer;
pub mod single;
pub mod threads;

pub use self::bulk::{Parallel, ParallelBuilder, StuffThatNeedsToBeSent};
pub use self::compress::Compress;
pub use self::defaults::{DEVICE, QUALITY};
pub use self::error::Error;
pub use self::queue::TaskQueue;
pub use self::sequencer::Sequencer;
pub use self::single::{Single, SingleBuilder};
pub use self::threads::{HasImageDir, HasOutputDir, TaskWorkerBuilder};
