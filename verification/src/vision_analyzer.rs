use vstd::prelude::*;
use crate::message::{Message, MessageView};
use crate::text::{
    chars_of, contains_char, decimal, digits, has_prefix, hashed_key, key_of, lowercase_of, slice_of,
    string_of, to_lowercase, trim, trimmed,
};

verus! {

/// The most labels that an analysis keeps.
pub const MAX_LABELS: usize = 4;

/// The least confidence that a kept label has: 0.75, as the bits of a
/// single-precision number.
pub const MIN_CONFIDENCE: u32 = 0x3F40_0000;

/// Why a picture could not be analysed.
#[derive(Debug)]
pub enum VisionError {
    AnalysisFailed(String),
    InvalidImageUrl,
    ApiError(String),
    InitializationError(String),
}

impl VisionError {
    /// The text that describes the error.
    pub open spec fn message_spec(&self) -> Seq<char> {
        match self {
            VisionError::AnalysisFailed(detail) => "Failed to analyze image: "@ + detail@,
            VisionError::InvalidImageUrl => "Invalid image URL"@,
            VisionError::ApiError(detail) => "API error: "@ + detail@,
            VisionError::InitializationError(detail) => "Initialization error: "@ + detail@,
        }
    }

    /// The text that describes the error.
    pub fn message(&self) -> (text: String)
        ensures
            text@ == self.message_spec(),
    {
        match self {
            VisionError::AnalysisFailed(detail) => "Failed to analyze image: ".to_owned().concat(detail.as_str()),
            VisionError::InvalidImageUrl => "Invalid image URL".to_owned(),
            VisionError::ApiError(detail) => "API error: ".to_owned().concat(detail.as_str()),
            VisionError::InitializationError(detail) => "Initialization error: ".to_owned().concat(
                detail.as_str(),
            ),
        }
    }
}

/// How pictures are analysed: how many labels are kept at most, and the
/// confidence that a label needs, as the bits of a single-precision number.
#[derive(Clone, Copy, Debug)]
pub struct VisionConfig {
    pub max_labels: usize,
    pub confidence_threshold: u32,
}

impl Default for VisionConfig {
    fn default() -> (config: Self)
        ensures
            config.max_labels == MAX_LABELS,
            config.confidence_threshold == MIN_CONFIDENCE,
    {
        VisionConfig { max_labels: MAX_LABELS, confidence_threshold: MIN_CONFIDENCE }
    }
}

/// A label that the analysis proposes, with its confidence as the bits of
/// a single-precision number.
#[derive(Debug)]
pub struct LabelAnnotation {
    pub description: String,
    pub score: u32,
}

/// A label as plain values.
pub struct LabelView {
    pub description: Seq<char>,
    pub score: u32,
}

impl View for LabelAnnotation {
    type V = LabelView;

    open spec fn view(&self) -> LabelView {
        LabelView { description: self.description@, score: self.score }
    }
}

impl DeepView for LabelAnnotation {
    type V = LabelView;

    open spec fn deep_view(&self) -> LabelView {
        self@
    }
}

/// Where a single-precision number stands among the numbers, given its
/// bits: numbers compare as their ranks do, both zeros have rank zero, and
/// what is not a number has no rank.
pub open spec fn rank(bits: u32) -> Option<int> {
    let magnitude = bits as int % 0x8000_0000;
    if magnitude > 0x7F80_0000 {
        None
    } else if bits >= 0x8000_0000 {
        Some(-magnitude)
    } else {
        Some(magnitude)
    }
}

/// The score is a number and at least the threshold.
pub open spec fn meets(score: u32, threshold: u32) -> bool {
    rank(score) matches Some(high) && rank(threshold) matches Some(low) && high >= low
}

/// The keyword that a label gives: its description, trimmed and in lower
/// case.
pub open spec fn keyword_of(description: Seq<char>) -> Seq<char> {
    lowercase_of(trimmed(description))
}

/// The keywords of the labels that meet the threshold, in order.
pub open spec fn confident_keywords(labels: Seq<LabelView>, threshold: u32) -> Seq<Seq<char>>
    decreases labels.len(),
{
    if labels.len() == 0 {
        Seq::empty()
    } else if meets(labels.last().score, threshold) {
        confident_keywords(labels.drop_last(), threshold).push(keyword_of(labels.last().description))
    } else {
        confident_keywords(labels.drop_last(), threshold)
    }
}

/// The keyword that stands in when no label meets the threshold.
pub open spec fn fallback_keyword() -> Seq<char> {
    "unclassified"@
}

/// The keywords that an analysis hands on: those of the confident labels,
/// or the fallback where there is none, cut to `max_labels`.
pub open spec fn keywords_of(labels: Seq<LabelView>, threshold: u32, max_labels: nat) -> Seq<Seq<char>> {
    let confident = confident_keywords(labels, threshold);
    let all = if confident.len() == 0 {
        seq![fallback_keyword()]
    } else {
        confident
    };
    if all.len() <= max_labels {
        all
    } else {
        all.take(max_labels as int)
    }
}

/// The two halves of a line of the form `label:confidence`.
#[derive(Debug)]
pub struct LabelLine {
    pub label: String,
    pub confidence: String,
}

/// A line's halves as plain values.
pub struct LabelLineView {
    pub label: Seq<char>,
    pub confidence: Seq<char>,
}

impl View for LabelLine {
    type V = LabelLineView;

    open spec fn view(&self) -> LabelLineView {
        LabelLineView { label: self.label@, confidence: self.confidence@ }
    }
}

impl DeepView for LabelLine {
    type V = LabelLineView;

    open spec fn deep_view(&self) -> LabelLineView {
        self@
    }
}

/// Where `c` first stands in `text`; the length of `text` where it does
/// not occur.
pub open spec fn position_of(text: Seq<char>, c: char) -> nat
    decreases text.len(),
{
    if text.len() == 0 || text[0] == c {
        0
    } else {
        1 + position_of(text.drop_first(), c)
    }
}

/// A line without the carriage return that ends it, if one does.
pub open spec fn without_carriage_return(line: Seq<char>) -> Seq<char> {
    if line.len() > 0 && line.last() == '\r' {
        line.drop_last()
    } else {
        line
    }
}

/// The halves of a line: what stands before its first colon, and the
/// confidence after it, trimmed. A line without a colon has none.
pub open spec fn halves_of(line: Seq<char>) -> Option<LabelLineView> {
    let colon = position_of(line, ':') as int;
    if colon < line.len() {
        Some(LabelLineView { label: line.take(colon), confidence: trimmed(line.skip(colon + 1)) })
    } else {
        None
    }
}

/// The halves of the lines of a text that hold a colon, in order. A line
/// ends with a line feed, or with a carriage return and a line feed; the
/// last line need not end.
pub open spec fn label_lines_of(text: Seq<char>) -> Seq<LabelLineView>
    decreases text.len(),
{
    if text.len() == 0 {
        Seq::empty()
    } else {
        let end = position_of(text, '\n') as int;
        if end < text.len() {
            let first = halves_of(without_carriage_return(text.take(end)));
            let rest = label_lines_of(text.skip(end + 1));
            match first {
                Some(halves) => seq![halves] + rest,
                None => rest,
            }
        } else {
            match halves_of(text) {
                Some(halves) => seq![halves],
                None => Seq::empty(),
            }
        }
    }
}

proof fn lemma_position_of(text: Seq<char>, c: char, at: int)
    requires
        0 <= at <= text.len(),
        forall|j: int| 0 <= j < at ==> text[j] != c,
        at < text.len() ==> text[at] == c,
    ensures
        position_of(text, c) == at,
    decreases at,
{
    if at > 0 {
        let tail = text.drop_first();
        assert forall|j: int| 0 <= j < at - 1 implies tail[j] != c by {
            assert(tail[j] == text[j + 1]);
        }
        lemma_position_of(tail, c, at - 1);
    }
}

/// Where `c` first stands in `text` at or after `from`.
fn find(text: &[char], from: usize, c: char) -> (at: usize)
    requires
        from <= text@.len(),
    ensures
        from <= at <= text@.len(),
        at - from == position_of(text@.skip(from as int), c),
{
    let mut at: usize = from;
    while at < text.len() && text[at] != c
        invariant
            from <= at <= text@.len(),
            forall|j: int| from <= j < at ==> text@[j] != c,
        decreases text@.len() - at,
    {
        at += 1;
    }
    proof {
        lemma_position_of(text@.skip(from as int), c, at - from);
    }
    at
}

/// Splits one line at its first colon.
fn halves(line: &[char]) -> (found: Option<LabelLine>)
    ensures
        match found {
            Some(parts) => halves_of(line@) == Some(parts@),
            None => halves_of(line@) is None,
        },
{
    assert(line@.skip(0) =~= line@);
    let colon = find(line, 0, ':');
    if colon < line.len() {
        let label = slice_of(line, 0, colon);
        let after = slice_of(line, colon + 1, line.len());
        let confidence = trim(after.as_slice());
        assert(line@.subrange(0, colon as int) =~= line@.take(colon as int));
        assert(line@.subrange(colon + 1, line@.len() as int) =~= line@.skip(colon + 1));
        Some(LabelLine { label: string_of(label.as_slice()), confidence: string_of(confidence.as_slice()) })
    } else {
        None
    }
}

/// Reads the lines of the form `label:confidence` out of an answer.
pub fn label_lines(response: &str) -> (lines: Vec<LabelLine>)
    ensures
        lines.deep_view() == label_lines_of(response@),
{
    let text = chars_of(response);
    let mut lines: Vec<LabelLine> = Vec::new();
    let mut start: usize = 0;
    assert(text@.skip(0) =~= text@);
    assert(lines.deep_view() =~= Seq::<LabelLineView>::empty());
    while start < text.len()
        invariant
            start <= text@.len(),
            text@ == response@,
            label_lines_of(text@) == lines.deep_view() + label_lines_of(text@.skip(start as int)),
        decreases text@.len() - start,
    {
        let ghost done = lines.deep_view();
        let ghost rest = text@.skip(start as int);
        let end = find(text.as_slice(), start, '\n');
        let found = if end < text.len() {
            let mut stop: usize = end;
            if stop > start && text[stop - 1] == '\r' {
                stop -= 1;
            }
            let line = slice_of(text.as_slice(), start, stop);
            proof {
                let whole = rest.take(end - start);
                assert(whole =~= text@.subrange(start as int, end as int));
                if whole.len() > 0 {
                    assert(whole.last() == text@[end - 1]);
                }
                assert(line@ =~= without_carriage_return(whole));
                assert(rest.skip(end - start + 1) =~= text@.skip(end + 1));
            }
            halves(line.as_slice())
        } else {
            let line = slice_of(text.as_slice(), start, end);
            assert(line@ =~= rest);
            halves(line.as_slice())
        };
        match found {
            Some(parts) => {
                lines.push(parts);
                assert(lines.deep_view() =~= done.push(parts@));
            },
            None => {},
        }
        proof {
            if end >= text.len() {
                assert(label_lines_of(text@.skip(text@.len() as int)) =~= Seq::<LabelLineView>::empty());
            }
            assert(label_lines_of(text@) =~= lines.deep_view() + label_lines_of(
                text@.skip(if end < text.len() { end + 1 } else { end as int }),
            ));
        }
        start = if end < text.len() {
            end + 1
        } else {
            end
        };
    }
    assert(label_lines_of(text@.skip(start as int)) =~= Seq::<LabelLineView>::empty());
    assert(lines.deep_view() + Seq::<LabelLineView>::empty() =~= lines.deep_view());
    lines
}

/// Whether a text has the outer shape of a web address: it begins with
/// `http` and holds a dot.
pub open spec fn has_url_shape(url: Seq<char>) -> bool {
    "http"@.is_prefix_of(url) && url.contains('.')
}

/// What is known of a URL once it was probed, or not: a URL without the
/// shape of a web address is no picture, whatever the probe; a failed
/// probe is an error; an answer tells by its content type.
pub open spec fn url_verdict(url: Seq<char>, probe: Option<Seq<char>>) -> Option<bool> {
    if !has_url_shape(url) {
        Some(false)
    } else {
        match probe {
            None => None,
            Some(content_type) => Some("image/"@.is_prefix_of(content_type)),
        }
    }
}

/// The content type that a probe gave, as plain text.
pub open spec fn content_type_of(probe: Option<&str>) -> Option<Seq<char>> {
    match probe {
        Some(content_type) => Some(content_type@),
        None => None,
    }
}

/// Turns a picture's address into a request for labels, and the model's
/// answer into keywords.
pub struct VisionAnalyzer {
    config: VisionConfig,
}

impl VisionAnalyzer {
    #[verifier::type_invariant]
    spec fn well_formed(&self) -> bool {
        self.config.max_labels >= 1
    }

    /// The settings of the analyzer.
    pub closed spec fn config(&self) -> VisionConfig {
        self.config
    }

    pub fn new() -> (analyzer: Result<Self, VisionError>)
        ensures
            analyzer matches Ok(made) && made.config().max_labels == MAX_LABELS
                && made.config().confidence_threshold == MIN_CONFIDENCE,
    {
        Ok(VisionAnalyzer { config: VisionConfig::default() })
    }

    /// The name of the model that looks at pictures.
    pub fn model() -> (name: &'static str)
        ensures
            name@ == "gpt-4-vision-preview"@,
    {
        "gpt-4-vision-preview"
    }

    /// The settings of the analyzer; it keeps at least one label.
    pub fn settings(&self) -> (config: VisionConfig)
        ensures
            config == self.config(),
            config.max_labels >= 1,
    {
        proof {
            use_type_invariant(self);
        }
        self.config
    }

    /// Whether the score, a single-precision number given by its bits, is
    /// a number and at least the threshold.
    pub fn is_confident(score: u32, threshold: u32) -> (confident: bool)
        ensures
            confident == meets(score, threshold),
    {
        let high: u32 = score % 0x8000_0000;
        let low: u32 = threshold % 0x8000_0000;
        if high > 0x7F80_0000 || low > 0x7F80_0000 {
            return false;
        }
        let score_rank: i64 = if score >= 0x8000_0000 {
            -(high as i64)
        } else {
            high as i64
        };
        let threshold_rank: i64 = if threshold >= 0x8000_0000 {
            -(low as i64)
        } else {
            low as i64
        };
        score_rank >= threshold_rank
    }

    /// The keywords of an analysis: the descriptions of the labels that
    /// meet the threshold, trimmed and in lower case; `unclassified` where
    /// none does; at most as many as the analyzer keeps, and at least one.
    pub fn process_response(&self, labels: &[LabelAnnotation]) -> (keywords: Result<Vec<String>, VisionError>)
        ensures
            keywords matches Ok(kept) && kept.deep_view() == keywords_of(
                labels.deep_view(),
                self.config().confidence_threshold,
                self.config().max_labels as nat,
            ) && 1 <= kept@.len() <= self.config().max_labels,
    {
        proof {
            use_type_invariant(self);
        }
        let ghost views = labels.deep_view();
        let threshold = self.config.confidence_threshold;
        let mut keywords: Vec<String> = Vec::new();
        let mut i: usize = 0;
        assert(views.take(0) =~= Seq::<LabelView>::empty());
        assert(keywords.deep_view() =~= Seq::<Seq<char>>::empty());
        while i < labels.len()
            invariant
                i <= labels@.len(),
                views == labels.deep_view(),
                keywords.deep_view() == confident_keywords(views.take(i as int), threshold),
            decreases labels@.len() - i,
        {
            let ghost before = keywords.deep_view();
            assert(views.take(i + 1).drop_last() =~= views.take(i as int));
            assert(views.take(i + 1).last() == labels@[i as int]@);
            if Self::is_confident(labels[i].score, threshold) {
                let description = chars_of(labels[i].description.as_str());
                let label = string_of(trim(description.as_slice()).as_slice());
                let keyword = to_lowercase(label.as_str());
                keywords.push(keyword);
                assert(keywords.deep_view() =~= before.push(keyword@));
            }
            i += 1;
        }
        assert(views.take(i as int) =~= views);
        if keywords.len() == 0 {
            let fallback = "unclassified".to_owned();
            keywords.push(fallback);
            assert(keywords.deep_view() =~= seq![fallback@]);
        }
        let ghost all = keywords.deep_view();
        if keywords.len() > self.config.max_labels {
            keywords.truncate(self.config.max_labels);
            assert(keywords.deep_view() =~= all.take(self.config.max_labels as int));
        }
        Ok(keywords)
    }

    /// Whether a URL is worth probing: it has the shape of a web address.
    pub fn should_probe(url: &str) -> (worth: bool)
        ensures
            worth == has_url_shape(url@),
    {
        let chars = chars_of(url);
        let scheme = chars_of("http");
        has_prefix(chars.as_slice(), scheme.as_slice()) && contains_char(chars.as_slice(), '.')
    }

    /// Judges whether a URL leads to a picture. `probe` is what a request
    /// for the URL's headers gave: nothing where it failed, else the
    /// content type, empty where none was sent.
    pub fn validate_image_url(&self, url: &str, probe: Option<&str>) -> (valid: Result<bool, VisionError>)
        ensures
            match valid {
                Ok(picture) => url_verdict(url@, content_type_of(probe)) == Some(picture),
                Err(error) => error is InvalidImageUrl && url_verdict(url@, content_type_of(probe))
                    is None,
            },
    {
        if !Self::should_probe(url) {
            return Ok(false);
        }
        match probe {
            None => Err(VisionError::InvalidImageUrl),
            Some(content_type) => {
                let chars = chars_of(content_type);
                let wanted = chars_of("image/");
                Ok(has_prefix(chars.as_slice(), wanted.as_slice()))
            },
        }
    }
}

/// The instructions that ask the model for labels of a picture.
pub open spec fn analysis_prompt(image_url: Seq<char>, max_labels: nat, threshold: Seq<char>) -> Seq<char> {
    "You are a vision analysis assistant. Analyze images and provide labels with confidence scores.\n\nAnalyze this image "@
        + image_url + " and provide up to "@ + digits(max_labels, 10) + " labels with confidence above "@
        + threshold + ". Format each label as 'label:confidence'. Focus on clear, descriptive labels."@
}

impl VisionAnalyzer {
    /// The conversation that asks the model for labels of the picture at
    /// `image_url`: one message of the user. `threshold` is the least
    /// confidence, written out as the model should read it.
    pub fn request(&self, image_url: &str, threshold: &str) -> (messages: Vec<Message>)
        ensures
            messages.deep_view() == seq![
                MessageView {
                    role: "user"@,
                    content: analysis_prompt(image_url@, self.config().max_labels as nat, threshold@),
                },
            ],
    {
        let mut prompt =
            "You are a vision analysis assistant. Analyze images and provide labels with confidence scores.\n\nAnalyze this image ".to_owned();
        prompt.append(image_url);
        prompt.append(" and provide up to ");
        prompt.append(decimal(self.config.max_labels as u64).as_str());
        prompt.append(" labels with confidence above ");
        prompt.append(threshold);
        prompt.append(". Format each label as 'label:confidence'. Focus on clear, descriptive labels.");
        let mut messages: Vec<Message> = Vec::new();
        messages.push(Message::user(prompt));
        assert(messages.deep_view() =~= seq![messages@[0]@]);
        messages
    }
}

/// The cache key of an analysis that gave the given keywords.
pub fn generate_cache_key(keywords: &[String]) -> (key: String)
    ensures
        key@ == key_of("img_"@, keywords.deep_view()),
{
    hashed_key("img_", keywords)
}

} // verus!
