/// Readings of the wall clock and of the monotonic clock.
pub mod clock;
/// The control loop and the ticket pool.
pub mod dispatcher;
/// The error of a task, and how the errors of its steps become one.
pub mod error;
/// Prompts for pictures, and pictures out of the image service's answers.
pub mod image;
/// Messages of a conversation with a completion model.
pub mod message;
/// Prompts for stories, and stories that fit a post.
pub mod story;
/// The work on one mention, step by step.
pub mod task;
/// Texts as sequences of characters: searching, joining, trimming, numbers.
pub mod text;
/// Mentions, the per-actor rate limit, the filter, and replies.
pub mod twitter;
/// The expiring cache, the validator, settings and counters.
pub mod utils;
/// Prompts for labels, and keywords out of the labels of a picture.
pub mod vision_analyzer;

pub use error::AppError;
pub use image::{ImageConfig, ImageError, ImageGenerator};
pub use story::{StoryConfig, StoryError, StoryGenerator};
pub use utils::{CacheManager, UtilError, Validator};
pub use vision_analyzer::{VisionAnalyzer, VisionError};
