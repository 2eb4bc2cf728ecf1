use clara::story::{generate_cache_key, StoryConfig, StoryError, StoryGenerator, MAX_STORY_LENGTH};
use std::collections::hash_map::DefaultHasher;
use std::hash::{Hash, Hasher};

fn setup_test_generator() -> StoryGenerator {
    StoryGenerator::new().unwrap()
}

#[test]
fn test_story_formatting() {
    let generator = setup_test_generator();
    let story = "Hello @user! This is a #test story.";
    let formatted = generator.format_story(story).unwrap();
    assert!(!formatted.contains('@'));
    assert!(!formatted.contains('#'));
}

#[test]
fn test_story_length_limit() {
    let generator = setup_test_generator();
    let long_story = "a".repeat(MAX_STORY_LENGTH + 100);
    let formatted = generator.format_story(&long_story).unwrap();
    assert!(formatted.len() <= MAX_STORY_LENGTH);
    assert!(formatted.ends_with("..."));
}

#[test]
fn story_is_trimmed_and_stripped() {
    let generator = setup_test_generator();
    assert_eq!(
        generator.format_story("  Hello @user! This is a #test story.\n").unwrap(),
        "Hello user! This is a test story."
    );
    assert_eq!(generator.format_story("\t A short tale. \r\n").unwrap(), "A short tale.");
    // Marks go after trimming: white space that they uncover stays.
    assert_eq!(generator.format_story("@ tale #").unwrap(), " tale ");
}

#[test]
fn story_of_nothing_is_refused() {
    let generator = setup_test_generator();
    assert!(matches!(generator.format_story(""), Err(StoryError::InvalidStory)));
    assert!(matches!(generator.format_story("   \n"), Err(StoryError::InvalidStory)));
    assert!(matches!(generator.format_story(" @#@ "), Err(StoryError::InvalidStory)));
    assert!(matches!(generator.generate_story("#"), Err(StoryError::InvalidStory)));
}

#[test]
fn story_is_cut_to_fit() {
    let generator = setup_test_generator();
    let fits = "a".repeat(MAX_STORY_LENGTH);
    assert_eq!(generator.format_story(&fits).unwrap(), fits);
    let too_long = "a".repeat(MAX_STORY_LENGTH + 1);
    assert_eq!(generator.format_story(&too_long).unwrap(), format!("{}...", "a".repeat(277)));
    assert_eq!(generator.generate_story(&too_long).unwrap().len(), 280);
}

#[test]
fn story_length_counts_bytes_and_cuts_characters() {
    let generator = setup_test_generator();
    // 100 characters of three bytes each: too long in bytes, and fewer
    // characters than the cut keeps, so all stay.
    let wide = "あ".repeat(100);
    assert_eq!(generator.format_story(&wide).unwrap(), format!("{}...", wide));
    // 300 such characters: the first 277 stay.
    let wider = "あ".repeat(300);
    assert_eq!(generator.format_story(&wider).unwrap(), format!("{}...", "あ".repeat(277)));
}

#[test]
fn story_prompt_is_exact() {
    let generator = setup_test_generator();
    let keywords = vec!["orange".to_string(), "tabby".to_string()];
    assert_eq!(
        generator.build_prompt(&keywords),
        "Create a short, cheerful and adventurous story (max 280 characters) about a cat. \
         Include these elements: orange, tabby. \
         The story should be child-friendly and end positively. \
         Focus on fun and adventure."
    );
}

#[test]
fn story_messages_are_system_then_user() {
    let generator = setup_test_generator();
    let system = "You are a creative children's story writer. Keep stories short, positive, and engaging.";
    let messages = generator.build_messages("Tell it.");
    assert_eq!(messages.len(), 2);
    assert_eq!(messages[0].role, "system");
    assert_eq!(messages[0].content, system);
    assert_eq!(messages[1].role, "user");
    assert_eq!(messages[1].content, format!("{}\n\nTell it.", system));
    let keywords = vec!["orange".to_string()];
    let request = generator.request(&keywords);
    assert_eq!(request.len(), 2);
    assert_eq!(request[1].content, format!("{}\n\n{}", system, generator.build_prompt(&keywords)));
    assert_eq!(StoryGenerator::model(), "gpt-4");
    assert_eq!(generator.max_story_length(), 280);
}

#[test]
fn story_defaults() {
    let config = StoryConfig::default();
    assert_eq!(config.max_length, 280);
    assert_eq!(config.style, "cheerful and adventurous");
}

#[test]
fn story_cache_key_is_the_hash_in_hex() {
    let keywords = vec!["orange".to_string(), "tabby".to_string()];
    let mut hasher = DefaultHasher::new();
    "orange-tabby".to_string().hash(&mut hasher);
    assert_eq!(generate_cache_key(&keywords), format!("story_{:x}", hasher.finish()));
}

#[test]
fn story_error_messages() {
    assert_eq!(StoryError::NoStoryGenerated.message(), "No story was generated");
    assert_eq!(StoryError::InvalidStory.message(), "Invalid story content");
    assert_eq!(StoryError::ApiError("x".to_string()).message(), "API error: x");
}
