use vstd::prelude::*;
use base64::Engine;
use crate::message::{Message, MessageView};
use crate::text::{hashed_key, join, joined, key_of};

verus! {

/// The bytes that standard base64 decoding yields for a text, or nothing
/// where the text is not valid standard base64.
pub uninterp spec fn base64_decoded(text: Seq<char>) -> Option<Seq<u8>>;

/// `base64::DecodeError`, the reason why a text could not be decoded. It
/// is carried through; nothing of its inside is visible here.
#[verifier::external_type_specification]
#[verifier::external_body]
pub struct ExDecodeError(base64::DecodeError);

/// Calls `decode` of `base64::prelude::BASE64_STANDARD`, the engine of the
/// standard alphabet with padding. The contract names the result: the text
/// alone decides whether decoding succeeds and what it yields.
#[verifier::external_body]
fn decode_standard(text: &str) -> (decoded: Result<Vec<u8>, base64::DecodeError>)
    ensures
        match decoded {
            Ok(bytes) => base64_decoded(text@) == Some(bytes@),
            Err(_) => base64_decoded(text@) is None,
        },
{
    base64::prelude::BASE64_STANDARD.decode(text)
}

/// Renders a `base64::DecodeError` as its `Display` text, by `to_string`.
/// Nothing is claimed of the text.
#[verifier::external_body]
fn decode_error_text(error: &base64::DecodeError) -> String {
    error.to_string()
}

/// Why no picture could be had.
#[derive(Debug)]
pub enum ImageError {
    NoImageGenerated,
    InvalidImageFormat,
    ApiError(String),
    ProcessingError(String),
}

impl ImageError {
    /// The text that describes the error.
    pub open spec fn message_spec(&self) -> Seq<char> {
        match self {
            ImageError::NoImageGenerated => "No image was generated"@,
            ImageError::InvalidImageFormat => "Invalid image format"@,
            ImageError::ApiError(detail) => "API error: "@ + detail@,
            ImageError::ProcessingError(detail) => "Processing error: "@ + detail@,
        }
    }

    /// The text that describes the error.
    pub fn message(&self) -> (text: String)
        ensures
            text@ == self.message_spec(),
    {
        match self {
            ImageError::NoImageGenerated => "No image was generated".to_owned(),
            ImageError::InvalidImageFormat => "Invalid image format".to_owned(),
            ImageError::ApiError(detail) => "API error: ".to_owned().concat(detail.as_str()),
            ImageError::ProcessingError(detail) => "Processing error: ".to_owned().concat(detail.as_str()),
        }
    }
}

/// How pictures are asked for: their size and the style of drawing.
#[derive(Debug)]
pub struct ImageConfig {
    pub size: String,
    pub style: String,
}

impl Default for ImageConfig {
    fn default() -> (config: Self)
        ensures
            config.size@ == "1024x1024"@,
            config.style@ == "children's book illustration style"@,
    {
        ImageConfig { size: "1024x1024".to_owned(), style: "children's book illustration style".to_owned() }
    }
}

/// One generated picture, base64-encoded.
#[derive(Debug)]
pub struct ImageData {
    pub b64_json: String,
}

/// What the image service answers: when it was made, and the pictures.
#[derive(Debug)]
pub struct ImageGenerationResponse {
    pub created: u64,
    pub data: Vec<ImageData>,
}

impl ImageGenerationResponse {
    /// The encoded pictures of the answer, in order.
    pub open spec fn pictures(&self) -> Seq<Seq<char>> {
        Seq::new(self.data@.len(), |i: int| self.data@[i].b64_json@)
    }

    /// The answer that holds the one picture `encoded`, made at `created`.
    pub fn from_completion(encoded: String, created: u64) -> (response: Self)
        ensures
            response.created == created,
            response.pictures() == seq![encoded@],
    {
        let mut data: Vec<ImageData> = Vec::new();
        data.push(ImageData { b64_json: encoded });
        let response = ImageGenerationResponse { created, data };
        assert(response.pictures() =~= seq![encoded@]);
        response
    }
}

/// The bytes begin with the mark of a JPEG file.
pub open spec fn is_jpeg(bytes: Seq<u8>) -> bool {
    bytes.len() >= 3 && bytes[0] == 0xFF && bytes[1] == 0xD8 && bytes[2] == 0xFF
}

/// The bytes begin with the mark of a PNG file.
pub open spec fn is_png(bytes: Seq<u8>) -> bool {
    bytes.len() >= 4 && bytes[0] == 0x89 && bytes[1] == 0x50 && bytes[2] == 0x4E && bytes[3] == 0x47
}

/// The bytes are a picture in a format that can be posted.
pub open spec fn is_supported_image(bytes: Seq<u8>) -> bool {
    is_jpeg(bytes) || is_png(bytes)
}

/// The prompt that asks for a picture of a cat with the given traits.
pub open spec fn image_prompt(keywords: Seq<Seq<char>>, style: Seq<char>) -> Seq<char> {
    "A cute cartoon cat with characteristics of "@ + joined(keywords, ", "@) + ", drawn in "@ + style
        + ", warm colors, friendly expression, simple background, safe for children"@
}

/// The request that is sent to the image model for a prompt.
pub open spec fn image_request_text(prompt: Seq<char>) -> Seq<char> {
    "Generate an image: "@ + prompt + ". Return the image data in base64 format."@
}

/// What becomes of the first picture of an answer: the bytes it decodes
/// to, or the reason why there are none.
pub open spec fn decoded_picture(pictures: Seq<Seq<char>>) -> Result<Seq<u8>, ImageFault> {
    if pictures.len() == 0 {
        Err(ImageFault::Missing)
    } else {
        match base64_decoded(pictures[0]) {
            None => Err(ImageFault::Undecodable),
            Some(bytes) => Ok(bytes),
        }
    }
}

/// What becomes of an answer: the bytes of its first picture, if they
/// decode and are in a supported format.
pub open spec fn generated_picture(pictures: Seq<Seq<char>>) -> Result<Seq<u8>, ImageFault> {
    match decoded_picture(pictures) {
        Err(fault) => Err(fault),
        Ok(bytes) => if is_supported_image(bytes) {
            Ok(bytes)
        } else {
            Err(ImageFault::Unsupported)
        },
    }
}

/// Why an answer gives no picture.
pub enum ImageFault {
    /// The answer holds no picture.
    Missing,
    /// The first picture is not valid base64.
    Undecodable,
    /// The bytes are neither JPEG nor PNG.
    Unsupported,
}

/// The result tells what `expected` tells: the same bytes, or the error
/// that belongs to the fault.
pub open spec fn agrees(result: Result<Vec<u8>, ImageError>, expected: Result<Seq<u8>, ImageFault>) -> bool {
    match result {
        Ok(bytes) => expected == Ok::<Seq<u8>, ImageFault>(bytes@),
        Err(ImageError::NoImageGenerated) => expected == Err::<Seq<u8>, ImageFault>(ImageFault::Missing),
        Err(ImageError::ProcessingError(_)) => expected == Err::<Seq<u8>, ImageFault>(ImageFault::Undecodable),
        Err(ImageError::InvalidImageFormat) => expected == Err::<Seq<u8>, ImageFault>(ImageFault::Unsupported),
        Err(ImageError::ApiError(_)) => false,
    }
}

/// Turns keywords into a request for a picture, and the image service's
/// answer into the picture's bytes.
pub struct ImageGenerator {
    config: ImageConfig,
}

impl ImageGenerator {
    /// The style in which pictures are drawn.
    pub closed spec fn style(&self) -> Seq<char> {
        self.config.style@
    }

    pub fn new() -> (generator: Result<Self, ImageError>)
        ensures
            generator matches Ok(made) && made.style() == "children's book illustration style"@,
    {
        Ok(ImageGenerator { config: ImageConfig::default() })
    }

    /// The name of the model that draws.
    pub fn model() -> (name: &'static str)
        ensures
            name@ == "dall-e-3"@,
    {
        "dall-e-3"
    }

    pub fn build_prompt(&self, keywords: &[String]) -> (prompt: String)
        ensures
            prompt@ == image_prompt(keywords.deep_view(), self.style()),
    {
        let keywords_str = join(keywords, ", ");
        let mut prompt = "A cute cartoon cat with characteristics of ".to_owned();
        prompt.append(keywords_str.as_str());
        prompt.append(", drawn in ");
        prompt.append(self.config.style.as_str());
        prompt.append(", warm colors, friendly expression, simple background, safe for children");
        prompt
    }

    /// The conversation that asks the model for a picture of a cat with
    /// the given traits: one message of the user.
    pub fn request(&self, keywords: &[String]) -> (messages: Vec<Message>)
        ensures
            messages.deep_view() == seq![
                MessageView {
                    role: "user"@,
                    content: image_request_text(image_prompt(keywords.deep_view(), self.style())),
                },
            ],
    {
        let prompt = self.build_prompt(keywords);
        let mut content = "Generate an image: ".to_owned();
        content.append(prompt.as_str());
        content.append(". Return the image data in base64 format.");
        let mut messages: Vec<Message> = Vec::new();
        messages.push(Message::user(content));
        assert(messages.deep_view() =~= seq![messages@[0]@]);
        messages
    }

    /// Decodes the first picture of an answer.
    pub fn process_response(&self, response: &ImageGenerationResponse) -> (image: Result<Vec<u8>, ImageError>)
        ensures
            agrees(image, decoded_picture(response.pictures())),
    {
        if response.data.len() == 0 {
            return Err(ImageError::NoImageGenerated);
        }
        match decode_standard(response.data[0].b64_json.as_str()) {
            Ok(bytes) => Ok(bytes),
            Err(error) => Err(ImageError::ProcessingError(decode_error_text(&error))),
        }
    }

    /// Whether the bytes are a JPEG or a PNG picture.
    pub fn validate_image(&self, image_data: &[u8]) -> (valid: Result<bool, ImageError>)
        ensures
            valid matches Ok(supported) && supported == is_supported_image(image_data@),
    {
        if image_data.len() == 0 {
            return Ok(false);
        }
        if image_data.len() >= 3 && image_data[0] == 0xFF && image_data[1] == 0xD8 && image_data[2] == 0xFF {
            return Ok(true);
        }
        if image_data.len() >= 4 && image_data[0] == 0x89 && image_data[1] == 0x50 && image_data[2] == 0x4E
            && image_data[3] == 0x47 {
            return Ok(true);
        }
        Ok(false)
    }

    /// Takes the picture out of the image service's answer: decodes the
    /// first picture and accepts it if its format is supported.
    pub fn generate_cat_image(&self, response: &ImageGenerationResponse) -> (image: Result<Vec<u8>, ImageError>)
        ensures
            agrees(image, generated_picture(response.pictures())),
    {
        let image_data = self.process_response(response)?;
        match self.validate_image(image_data.as_slice()) {
            Ok(true) => Ok(image_data),
            Ok(false) => Err(ImageError::InvalidImageFormat),
            Err(error) => Err(error),
        }
    }
}

/// The cache key of a picture made from the given keywords.
pub fn generate_cache_key(keywords: &[String]) -> (key: String)
    ensures
        key@ == key_of("img_"@, keywords.deep_view()),
{
    hashed_key("img_", keywords)
}

} // verus!
