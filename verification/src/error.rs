use vstd::prelude::*;
use vstd::std_specs::convert::FromSpecImpl;
use crate::image::ImageError;
use crate::story::StoryError;
use crate::twitter::TwitterError;
use crate::vision_analyzer::VisionError;

verus! {

/// What can go wrong while one mention is served.
#[derive(Debug)]
pub enum AppError {
    RigError(String),
    TwitterError(TwitterError),
    VisionError(VisionError),
    ImageError(ImageError),
    StoryError(StoryError),
    CacheError(String),
}

impl AppError {
    /// The text that describes the error.
    pub open spec fn message_spec(&self) -> Seq<char> {
        match self {
            AppError::RigError(detail) => "Rig error: "@ + detail@,
            AppError::TwitterError(cause) => "Twitter error: "@ + cause.message_spec(),
            AppError::VisionError(cause) => "Vision error: "@ + cause.message_spec(),
            AppError::ImageError(cause) => "Image error: "@ + cause.message_spec(),
            AppError::StoryError(cause) => "Story error: "@ + cause.message_spec(),
            AppError::CacheError(detail) => "Cache error: "@ + detail@,
        }
    }

    /// The text that describes the error.
    pub fn message(&self) -> (text: String)
        ensures
            text@ == self.message_spec(),
    {
        match self {
            AppError::RigError(detail) => "Rig error: ".to_owned().concat(detail.as_str()),
            AppError::TwitterError(cause) => "Twitter error: ".to_owned().concat(cause.message().as_str()),
            AppError::VisionError(cause) => "Vision error: ".to_owned().concat(cause.message().as_str()),
            AppError::ImageError(cause) => "Image error: ".to_owned().concat(cause.message().as_str()),
            AppError::StoryError(cause) => "Story error: ".to_owned().concat(cause.message().as_str()),
            AppError::CacheError(detail) => "Cache error: ".to_owned().concat(detail.as_str()),
        }
    }
}

impl From<TwitterError> for AppError {
    fn from(cause: TwitterError) -> (error: Self) {
        AppError::TwitterError(cause)
    }
}

impl FromSpecImpl<TwitterError> for AppError {
    open spec fn obeys_from_spec() -> bool {
        true
    }

    open spec fn from_spec(cause: TwitterError) -> Self {
        AppError::TwitterError(cause)
    }
}

impl From<VisionError> for AppError {
    fn from(cause: VisionError) -> (error: Self) {
        AppError::VisionError(cause)
    }
}

impl FromSpecImpl<VisionError> for AppError {
    open spec fn obeys_from_spec() -> bool {
        true
    }

    open spec fn from_spec(cause: VisionError) -> Self {
        AppError::VisionError(cause)
    }
}

impl From<ImageError> for AppError {
    fn from(cause: ImageError) -> (error: Self) {
        AppError::ImageError(cause)
    }
}

impl FromSpecImpl<ImageError> for AppError {
    open spec fn obeys_from_spec() -> bool {
        true
    }

    open spec fn from_spec(cause: ImageError) -> Self {
        AppError::ImageError(cause)
    }
}

impl From<StoryError> for AppError {
    fn from(cause: StoryError) -> (error: Self) {
        AppError::StoryError(cause)
    }
}

impl FromSpecImpl<StoryError> for AppError {
    open spec fn obeys_from_spec() -> bool {
        true
    }

    open spec fn from_spec(cause: StoryError) -> Self {
        AppError::StoryError(cause)
    }
}

} // verus!
