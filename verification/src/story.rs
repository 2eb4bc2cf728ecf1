use vstd::prelude::*;
use crate::message::{Message, MessageView};
use crate::text::{
    byte_len, byte_length, chars_of, decimal, digits, hashed_key, join, joined, key_of, slice_of,
    string_of, trim, trimmed,
};

verus! {

/// The longest story that fits a post, in bytes.
pub const MAX_STORY_LENGTH: usize = 280;

/// Why no story could be had.
#[derive(Debug)]
pub enum StoryError {
    NoStoryGenerated,
    InvalidStory,
    ApiError(String),
}

impl StoryError {
    /// The text that describes the error.
    pub open spec fn message_spec(&self) -> Seq<char> {
        match self {
            StoryError::NoStoryGenerated => "No story was generated"@,
            StoryError::InvalidStory => "Invalid story content"@,
            StoryError::ApiError(detail) => "API error: "@ + detail@,
        }
    }

    /// The text that describes the error.
    pub fn message(&self) -> (text: String)
        ensures
            text@ == self.message_spec(),
    {
        match self {
            StoryError::NoStoryGenerated => "No story was generated".to_owned(),
            StoryError::InvalidStory => "Invalid story content".to_owned(),
            StoryError::ApiError(detail) => "API error: ".to_owned().concat(detail.as_str()),
        }
    }
}

/// How stories are asked for: their greatest length in bytes and their
/// tone.
#[derive(Debug)]
pub struct StoryConfig {
    pub max_length: usize,
    pub style: String,
}

impl Default for StoryConfig {
    fn default() -> (config: Self)
        ensures
            config.max_length == MAX_STORY_LENGTH,
            config.style@ == "cheerful and adventurous"@,
    {
        StoryConfig { max_length: MAX_STORY_LENGTH, style: "cheerful and adventurous".to_owned() }
    }
}

/// What the model is told about its part.
pub open spec fn story_system_text() -> Seq<char> {
    "You are a creative children's story writer. Keep stories short, positive, and engaging."@
}

/// The prompt that asks for a story with the given elements.
pub open spec fn story_prompt(keywords: Seq<Seq<char>>, style: Seq<char>, max_length: nat) -> Seq<char> {
    "Create a short, "@ + style + " story (max "@ + digits(max_length, 10) + " characters) about a cat. Include these elements: "@
        + joined(keywords, ", "@)
        + ". The story should be child-friendly and end positively. Focus on fun and adventure."@
}

/// The conversation that carries a prompt to the model: the model's
/// part, then the user's request, which repeats the part before the
/// prompt.
pub open spec fn story_messages(prompt: Seq<char>) -> Seq<MessageView> {
    seq![
        MessageView { role: "system"@, content: story_system_text() },
        MessageView { role: "user"@, content: story_system_text() + "\n\n"@ + prompt },
    ]
}

/// A character that a story may keep: any but `@` and `#`.
pub open spec fn is_plain(c: char) -> bool {
    c != '@' && c != '#'
}

/// A text without the characters `@` and `#`.
pub open spec fn without_marks(text: Seq<char>) -> Seq<char> {
    text.filter(|c: char| is_plain(c))
}

/// A text cut to fit: one that takes more than `max_length` bytes keeps
/// its first `max_length - 3` characters, followed by three dots.
pub open spec fn shortened(text: Seq<char>, max_length: nat) -> Seq<char> {
    if byte_len(text) > max_length {
        let keep = if text.len() < max_length - 3 {
            text.len() as int
        } else {
            max_length - 3
        };
        text.take(keep) + "..."@
    } else {
        text
    }
}

/// A story made fit to post: trimmed, without `@` and `#`, cut to fit.
pub open spec fn formatted_story(story: Seq<char>, max_length: nat) -> Seq<char> {
    shortened(without_marks(trimmed(story)), max_length)
}

/// A story made fit to post holds neither `@` nor `#`.
pub proof fn lemma_formatted_story_has_no_marks(story: Seq<char>, max_length: nat, at: int)
    requires
        max_length >= 3,
        0 <= at < formatted_story(story, max_length).len(),
    ensures
        is_plain(formatted_story(story, max_length)[at]),
{
    let plain = without_marks(trimmed(story));
    assert forall|i: int| 0 <= i < plain.len() implies is_plain(#[trigger] plain[i]) by {
        trimmed(story).lemma_filter_pred(|c: char| is_plain(c), i);
    }
    if byte_len(plain) > max_length {
        reveal_strlit("...");
        let keep = if plain.len() < max_length - 3 {
            plain.len() as int
        } else {
            max_length - 3
        };
        let cut = plain.take(keep) + "..."@;
        assert(formatted_story(story, max_length) == cut);
        if at >= keep {
            assert(cut[at] == "..."@[at - keep]);
            assert("..."@[0] == '.' && "..."@[1] == '.' && "..."@[2] == '.');
        } else {
            assert(cut[at] == plain[at]);
        }
    }
}

/// Turns keywords into a request for a story, and the model's answer
/// into a story that fits a post.
pub struct StoryGenerator {
    config: StoryConfig,
}

impl StoryGenerator {
    #[verifier::type_invariant]
    spec fn well_formed(&self) -> bool {
        self.config.max_length >= 3
    }

    /// The tone in which stories are told.
    pub closed spec fn style(&self) -> Seq<char> {
        self.config.style@
    }

    /// The greatest length of a story, in bytes.
    pub closed spec fn max_length(&self) -> nat {
        self.config.max_length as nat
    }

    pub fn new() -> (generator: Result<Self, StoryError>)
        ensures
            generator matches Ok(made) && made.style() == "cheerful and adventurous"@ && made.max_length()
                == MAX_STORY_LENGTH,
    {
        Ok(StoryGenerator { config: StoryConfig::default() })
    }

    /// The name of the model that narrates.
    pub fn model() -> (name: &'static str)
        ensures
            name@ == "gpt-4"@,
    {
        "gpt-4"
    }

    /// The greatest length of a story, in bytes; it is never under three.
    pub fn max_story_length(&self) -> (length: usize)
        ensures
            length == self.max_length(),
            length >= 3,
    {
        proof {
            use_type_invariant(self);
        }
        self.config.max_length
    }

    pub fn build_prompt(&self, keywords: &[String]) -> (prompt: String)
        ensures
            prompt@ == story_prompt(keywords.deep_view(), self.style(), self.max_length()),
    {
        let mut prompt = "Create a short, ".to_owned();
        prompt.append(self.config.style.as_str());
        prompt.append(" story (max ");
        prompt.append(decimal(self.config.max_length as u64).as_str());
        prompt.append(" characters) about a cat. Include these elements: ");
        prompt.append(join(keywords, ", ").as_str());
        prompt.append(". The story should be child-friendly and end positively. Focus on fun and adventure.");
        prompt
    }

    pub fn build_messages(&self, prompt: &str) -> (messages: Vec<Message>)
        ensures
            messages.deep_view() == story_messages(prompt@),
    {
        let system = "You are a creative children's story writer. Keep stories short, positive, and engaging.";
        let mut content = system.to_owned();
        content.append("\n\n");
        content.append(prompt);
        let mut messages: Vec<Message> = Vec::new();
        messages.push(Message::system(system.to_owned()));
        messages.push(Message::user(content));
        assert(messages.deep_view() =~= seq![messages@[0]@, messages@[1]@]);
        messages
    }

    /// The conversation that asks the model for a story with the given
    /// elements.
    pub fn request(&self, keywords: &[String]) -> (messages: Vec<Message>)
        ensures
            messages.deep_view() == story_messages(
                story_prompt(keywords.deep_view(), self.style(), self.max_length()),
            ),
    {
        let prompt = self.build_prompt(keywords);
        self.build_messages(prompt.as_str())
    }

    /// Makes a story fit to post. A story of which nothing is left is
    /// refused.
    pub fn format_story(&self, story: &str) -> (formatted: Result<String, StoryError>)
        ensures
            match formatted {
                Ok(text) => text@ == formatted_story(story@, self.max_length()) && text@.len() > 0,
                Err(error) => error is InvalidStory && formatted_story(story@, self.max_length()).len() == 0,
            },
    {
        proof {
            use_type_invariant(self);
        }
        let chars = chars_of(story);
        let kept = trim(chars.as_slice());
        let mut plain: Vec<char> = Vec::new();
        let mut i: usize = 0;
        proof {
            reveal(Seq::filter);
            assert(kept@.take(0) =~= Seq::<char>::empty());
        }
        while i < kept.len()
            invariant
                i <= kept@.len(),
                plain@ == without_marks(kept@.take(i as int)),
            decreases kept@.len() - i,
        {
            proof {
                reveal(Seq::filter);
                assert(kept@.take(i + 1).drop_last() =~= kept@.take(i as int));
            }
            let c = kept[i];
            if c != '@' && c != '#' {
                plain.push(c);
            }
            i += 1;
        }
        assert(kept@.take(i as int) =~= kept@);
        let mut processed = string_of(plain.as_slice());
        if byte_length(processed.as_str()) > self.config.max_length {
            let room: usize = self.config.max_length - 3;
            let keep: usize = if plain.len() < room {
                plain.len()
            } else {
                room
            };
            let head = slice_of(plain.as_slice(), 0, keep);
            assert(plain@.subrange(0, keep as int) =~= plain@.take(keep as int));
            processed = string_of(head.as_slice());
            processed.append("...");
            proof {
                reveal_strlit("...");
            }
        }
        if processed.as_str().is_empty() {
            return Err(StoryError::InvalidStory);
        }
        Ok(processed)
    }

    /// Takes the story out of the model's answer.
    pub fn generate_story(&self, answer: &str) -> (story: Result<String, StoryError>)
        ensures
            match story {
                Ok(text) => text@ == formatted_story(answer@, self.max_length()) && text@.len() > 0,
                Err(error) => error is InvalidStory && formatted_story(answer@, self.max_length()).len() == 0,
            },
    {
        self.format_story(answer)
    }
}

/// The cache key of a story made from the given keywords.
pub fn generate_cache_key(keywords: &[String]) -> (key: String)
    ensures
        key@ == key_of("story_"@, keywords.deep_view()),
{
    hashed_key("story_", keywords)
}

} // verus!
