use clara::dispatcher::{
    Dispatcher, DispatcherAction, DispatcherEvent, DispatcherState, TicketPool, MAX_CONCURRENT_REQUESTS,
    POLL_RETRY_SECS,
};
use clara::error::AppError;
use clara::image::{ImageError, ImageGenerationResponse, ImageGenerator};
use clara::story::{StoryError, StoryGenerator};
use clara::task::{GeneratedArtifact, MentionTask, TaskAction, TaskEvent, TaskOutcome, TaskStage};
use clara::twitter::{Timestamp, TwitterError, TwitterHandler, TwitterMention};
use clara::utils::CacheManager;
use clara::vision_analyzer::VisionError;
use std::sync::atomic::{AtomicUsize, Ordering};
use std::sync::Arc;

const PNG: [u8; 8] = [0x89, 0x50, 0x4E, 0x47, 0x0D, 0x0A, 0x1A, 0x0A];

fn mention(id: &str, user: &str, text: &str) -> TwitterMention {
    TwitterMention {
        tweet_id: id.to_string(),
        user_id: user.to_string(),
        username: user.to_string(),
        avatar_url: "http://x/a.png".to_string(),
        text: text.to_string(),
        timestamp: Timestamp { secs: 1_700_000_000, nanos: 0 },
    }
}

/// Collaborators that answer as told and remember what they were asked.
struct Collaborators {
    keywords: Vec<String>,
    picture: Result<String, String>,
    story: Result<String, String>,
    analyzed: Vec<String>,
    illustrated: Vec<Vec<String>>,
    narrated: Vec<Vec<String>>,
    posts: Vec<(String, Vec<u8>, String)>,
}

impl Collaborators {
    fn new(picture: Result<&str, &str>) -> Self {
        Collaborators {
            keywords: vec!["orange".to_string(), "tabby".to_string()],
            picture: picture.map(|p| p.to_string()).map_err(|e| e.to_string()),
            story: Ok("A short tale.".to_string()),
            analyzed: Vec::new(),
            illustrated: Vec::new(),
            narrated: Vec::new(),
            posts: Vec::new(),
        }
    }
}

/// Serves one mention to its end, as the program's task does, and tells
/// which actions were asked for.
fn serve(
    mention: TwitterMention,
    pool: &mut TicketPool,
    cache: &mut CacheManager,
    now: u128,
    world: &mut Collaborators,
) -> (MentionTask, Vec<String>) {
    let illustrator = ImageGenerator::new().unwrap();
    let narrator = StoryGenerator::new().unwrap();
    let mut task = MentionTask::new(mention);
    let mut asked = Vec::new();
    let mut action = task.next_action();
    loop {
        let event = match action {
            TaskAction::AcquireTicket => {
                asked.push("ticket".to_string());
                assert!(pool.try_acquire());
                TaskEvent::TicketAcquired
            }
            TaskAction::CheckCache(key) => {
                asked.push(format!("check {}", key));
                TaskEvent::CacheChecked(cache.contains_key(&key))
            }
            TaskAction::Analyze(url) => {
                asked.push("analyze".to_string());
                world.analyzed.push(url);
                TaskEvent::Analyzed(world.keywords.clone())
            }
            TaskAction::Illustrate(keywords) => {
                asked.push("illustrate".to_string());
                world.illustrated.push(keywords);
                match world.picture.clone() {
                    Err(detail) => TaskEvent::Failed(AppError::ImageError(ImageError::ApiError(detail))),
                    Ok(encoded) => {
                        let answer = ImageGenerationResponse::from_completion(encoded, 0);
                        match illustrator.generate_cat_image(&answer) {
                            Ok(image) => TaskEvent::Illustrated(image),
                            Err(error) => TaskEvent::Failed(AppError::from(error)),
                        }
                    }
                }
            }
            TaskAction::Narrate(keywords) => {
                asked.push("narrate".to_string());
                world.narrated.push(keywords);
                match world.story.clone() {
                    Err(detail) => TaskEvent::Failed(AppError::StoryError(StoryError::ApiError(detail))),
                    Ok(answer) => match narrator.generate_story(&answer) {
                        Ok(story) => TaskEvent::Narrated(story),
                        Err(error) => TaskEvent::Failed(AppError::from(error)),
                    },
                }
            }
            TaskAction::Reply(GeneratedArtifact { mention_id, image, story }) => {
                asked.push("reply".to_string());
                world.posts.push((mention_id, image, story));
                TaskEvent::Replied
            }
            TaskAction::MarkCache(key, marker) => {
                asked.push(format!("mark {}", key));
                cache.set_at(&key, marker, now).unwrap();
                TaskEvent::Marked
            }
            TaskAction::ReleaseTicket => {
                asked.push("release".to_string());
                pool.release();
                TaskEvent::Released
            }
            TaskAction::Finish => break,
        };
        action = task.step(event);
    }
    (task, asked)
}

#[test]
fn end_to_end_one_mention_one_post_one_cache_entry() {
    let mut handler = TwitterHandler::new();
    let mut dispatcher = Dispatcher::new();
    let mut pool = TicketPool::with_default_capacity();
    let mut cache = CacheManager::new();
    let mut world = Collaborators::new(Ok("iVBORw0KGgo="));

    assert!(matches!(dispatcher.next_action(), DispatcherAction::Poll));
    let polled = Ok(vec![mention("t1", "alice", "please draw for my avatar")]);
    let valid = handler.listen_mentions(polled);
    let mut action = dispatcher.step(DispatcherEvent::Polled(valid));
    let mut outcomes = Vec::new();
    while let DispatcherAction::Spawn(next) = action {
        let (task, asked) = serve(next, &mut pool, &mut cache, 1_000, &mut world);
        assert_eq!(
            asked,
            vec![
                "ticket",
                "check mention:t1",
                "analyze",
                "illustrate",
                "narrate",
                "reply",
                "mark mention:t1",
                "release"
            ]
        );
        outcomes.push(task.outcome());
        action = dispatcher.step(DispatcherEvent::Spawned);
    }
    assert!(matches!(action, DispatcherAction::Poll));
    assert_eq!(outcomes, vec![TaskOutcome::Completed]);
    assert_eq!(world.analyzed, vec!["http://x/a.png"]);
    assert_eq!(world.illustrated, vec![vec!["orange", "tabby"]]);
    assert_eq!(world.narrated, vec![vec!["orange", "tabby"]]);
    assert_eq!(world.posts, vec![("t1".to_string(), PNG.to_vec(), "A short tale.".to_string())]);
    assert!(cache.contains_key("mention:t1"));
    assert_eq!(cache.get_at("mention:t1", 1_000), Some("completed".to_string()));
    assert_eq!(pool.in_use(), 0);

    // The same mention, polled again, is not served twice.
    let (task, asked) =
        serve(mention("t1", "alice", "please draw for my avatar"), &mut pool, &mut cache, 2_000, &mut world);
    assert_eq!(asked, vec!["ticket", "check mention:t1", "release"]);
    assert_eq!(task.outcome(), TaskOutcome::Skipped);
    assert_eq!(world.posts.len(), 1);
    assert_eq!(pool.in_use(), 0);
}

#[test]
fn failed_illustration_marks_nothing_and_spares_the_siblings() {
    let mut pool = TicketPool::with_default_capacity();
    let mut cache = CacheManager::new();
    let mut failing = Collaborators::new(Err("no pixels today"));
    let mut working = Collaborators::new(Ok("iVBORw0KGgo="));

    let (first, _) = serve(mention("a", "alice", "draw for my avatar"), &mut pool, &mut cache, 10, &mut working);
    let (second, asked) = serve(mention("b", "bob", "draw for my avatar"), &mut pool, &mut cache, 10, &mut failing);
    let (third, _) = serve(mention("c", "carol", "draw for my avatar"), &mut pool, &mut cache, 10, &mut working);

    assert_eq!(asked, vec!["ticket", "check mention:b", "analyze", "illustrate", "release"]);
    assert_eq!(second.outcome(), TaskOutcome::Failed);
    assert_eq!(second.stage(), TaskStage::Finished);
    assert!(!second.holds_ticket());
    match second.failure() {
        Some(AppError::ImageError(ImageError::ApiError(detail))) => assert_eq!(detail, "no pixels today"),
        other => panic!("expected the illustrator's error, got {:?}", other),
    }
    assert!(failing.posts.is_empty());
    assert!(!cache.contains_key("mention:b"));

    assert_eq!(first.outcome(), TaskOutcome::Completed);
    assert_eq!(third.outcome(), TaskOutcome::Completed);
    assert!(cache.contains_key("mention:a"));
    assert!(cache.contains_key("mention:c"));
    assert_eq!(working.posts.len(), 2);
    assert_eq!(pool.in_use(), 0);
}

#[test]
fn picture_in_an_unknown_format_fails_the_task() {
    let mut pool = TicketPool::new(1);
    let mut cache = CacheManager::new();
    let mut world = Collaborators::new(Ok("aGVsbG8="));
    let (task, asked) = serve(mention("t", "alice", "draw for my avatar"), &mut pool, &mut cache, 10, &mut world);
    assert_eq!(asked, vec!["ticket", "check mention:t", "analyze", "illustrate", "release"]);
    assert!(matches!(task.failure(), Some(AppError::ImageError(ImageError::InvalidImageFormat))));
    assert!(!cache.contains_key("mention:t"));
}

#[test]
fn each_stage_failure_gives_the_task_up() {
    let stages: [(usize, TaskStage); 5] = [
        (2, TaskStage::Analyzing),
        (3, TaskStage::Illustrating),
        (4, TaskStage::Narrating),
        (5, TaskStage::Replying),
        (6, TaskStage::Marking),
    ];
    for (steps, stage) in stages {
        let mut task = MentionTask::new(mention("t", "alice", "draw for my avatar"));
        let events = vec![
            TaskEvent::TicketAcquired,
            TaskEvent::CacheChecked(false),
            TaskEvent::Analyzed(vec!["k".to_string()]),
            TaskEvent::Illustrated(PNG.to_vec()),
            TaskEvent::Narrated("s".to_string()),
            TaskEvent::Replied,
        ];
        for event in events.into_iter().take(steps) {
            task.handle(event);
        }
        assert_eq!(task.stage(), stage);
        assert!(task.holds_ticket());
        let action = task.step(TaskEvent::Failed(AppError::VisionError(VisionError::ApiError("x".to_string()))));
        assert!(matches!(action, TaskAction::ReleaseTicket));
        assert_eq!(task.outcome(), TaskOutcome::Failed);
        // Nothing that is reported later brings the task back to work.
        for late in [TaskEvent::Replied, TaskEvent::Marked, TaskEvent::CacheChecked(false), TaskEvent::TicketAcquired] {
            assert!(matches!(task.step(late), TaskAction::ReleaseTicket));
        }
        assert!(matches!(task.step(TaskEvent::Released), TaskAction::Finish));
        assert!(!task.holds_ticket());
        assert!(matches!(task.step(TaskEvent::Released), TaskAction::Finish));
        assert_eq!(task.outcome(), TaskOutcome::Failed);
    }
}

#[test]
fn task_without_a_ticket_ends_at_once_when_none_can_be_had() {
    let mut task = MentionTask::new(mention("t", "alice", "draw for my avatar"));
    assert!(matches!(task.next_action(), TaskAction::AcquireTicket));
    let action = task.step(TaskEvent::Failed(AppError::RigError("pool closed".to_string())));
    assert!(matches!(action, TaskAction::Finish));
    assert_eq!(task.outcome(), TaskOutcome::Failed);
    assert!(!task.holds_ticket());
}

#[test]
fn cache_that_cannot_be_asked_counts_as_a_miss() {
    let mut task = MentionTask::new(mention("t", "alice", "draw for my avatar"));
    task.handle(TaskEvent::TicketAcquired);
    let action = task.step(TaskEvent::Failed(AppError::CacheError("unavailable".to_string())));
    match action {
        TaskAction::Analyze(url) => assert_eq!(url, "http://x/a.png"),
        other => panic!("expected the analysis to be asked for, got {:?}", other),
    }
    assert_eq!(task.outcome(), TaskOutcome::Pending);
    assert!(task.failure().is_none());
}

#[test]
fn task_ignores_events_that_answer_nothing() {
    let mut task = MentionTask::new(mention("t", "alice", "draw for my avatar"));
    for stray in [TaskEvent::Marked, TaskEvent::Replied, TaskEvent::Released, TaskEvent::CacheChecked(true)] {
        assert!(matches!(task.step(stray), TaskAction::AcquireTicket));
    }
    assert_eq!(task.stage(), TaskStage::AwaitingTicket);
    assert_eq!(task.cache_key(), "mention:t");
    assert_eq!(task.mention().tweet_id, "t");
}

#[test]
fn dispatcher_rests_after_a_failed_poll() {
    let mut dispatcher = Dispatcher::new();
    assert_eq!(dispatcher.state(), DispatcherState::Polling);
    let action = dispatcher.step(DispatcherEvent::Polled(Err(TwitterError::ApiError("down".to_string()))));
    assert!(matches!(action, DispatcherAction::Sleep(5)));
    assert_eq!(POLL_RETRY_SECS, 5);
    assert_eq!(dispatcher.state(), DispatcherState::Backoff);
    // A stray report does not end the rest.
    assert!(matches!(dispatcher.step(DispatcherEvent::Spawned), DispatcherAction::Sleep(5)));
    assert!(matches!(dispatcher.step(DispatcherEvent::Polled(Ok(Vec::new()))), DispatcherAction::Sleep(5)));
    assert!(matches!(dispatcher.step(DispatcherEvent::BackoffElapsed), DispatcherAction::Poll));
    assert_eq!(dispatcher.state(), DispatcherState::Polling);
}

#[test]
fn dispatcher_hands_out_a_batch_in_order() {
    let mut dispatcher = Dispatcher::new();
    let batch = vec![mention("1", "a", "x"), mention("2", "b", "y"), mention("3", "c", "z")];
    let mut action = dispatcher.step(DispatcherEvent::Polled(Ok(batch)));
    let mut spawned = Vec::new();
    while let DispatcherAction::Spawn(next) = action {
        assert_eq!(dispatcher.state(), DispatcherState::Dispatching);
        // Asking again gives the same mention: nothing was reported yet.
        match dispatcher.next_action() {
            DispatcherAction::Spawn(again) => assert_eq!(again.tweet_id, next.tweet_id),
            other => panic!("expected the same mention, got {:?}", other),
        }
        assert!(matches!(dispatcher.step(DispatcherEvent::BackoffElapsed), DispatcherAction::Spawn(_)));
        spawned.push(next.tweet_id);
        action = dispatcher.step(DispatcherEvent::Spawned);
    }
    assert_eq!(spawned, vec!["1", "2", "3"]);
    assert!(matches!(action, DispatcherAction::Poll));
    assert_eq!(dispatcher.state(), DispatcherState::Polling);
}

#[test]
fn dispatcher_polls_again_after_an_empty_batch() {
    let mut dispatcher = Dispatcher::new();
    assert!(matches!(dispatcher.step(DispatcherEvent::Polled(Ok(Vec::new()))), DispatcherAction::Poll));
    assert!(matches!(dispatcher.step(DispatcherEvent::BackoffElapsed), DispatcherAction::Poll));
    assert!(matches!(dispatcher.step(DispatcherEvent::Spawned), DispatcherAction::Poll));
    assert_eq!(dispatcher.state(), DispatcherState::Polling);
}

#[test]
fn pool_of_ten_admits_ten_of_fifteen() {
    let mut pool = TicketPool::with_default_capacity();
    assert_eq!(MAX_CONCURRENT_REQUESTS, 10);
    assert_eq!(pool.capacity(), 10);
    let taken = (0..15).filter(|_| pool.try_acquire()).count();
    assert_eq!(taken, 10);
    assert_eq!(pool.in_use(), 10);
    pool.release();
    assert_eq!(pool.in_use(), 9);
    assert!(pool.try_acquire());
    assert!(!pool.try_acquire());
    for _ in 0..20 {
        pool.release();
    }
    assert_eq!(pool.in_use(), 0);
    let mut none = TicketPool::new(0);
    assert!(!none.try_acquire());
    none.release();
    assert_eq!(none.in_use(), 0);
}

#[test]
fn fifteen_tasks_under_a_cap_of_ten_never_run_more_than_ten_at_once() {
    let runtime = tokio::runtime::Builder::new_multi_thread()
        .worker_threads(4)
        .enable_all()
        .build()
        .unwrap();
    let pool = Arc::new(tokio::sync::Mutex::new(TicketPool::with_default_capacity()));
    let freed = Arc::new(tokio::sync::Notify::new());
    let active = Arc::new(AtomicUsize::new(0));
    let most = Arc::new(AtomicUsize::new(0));
    let served = Arc::new(AtomicUsize::new(0));
    runtime.block_on(async {
        let mut handles = Vec::new();
        for n in 0..15 {
            let pool = pool.clone();
            let freed = freed.clone();
            let active = active.clone();
            let most = most.clone();
            let served = served.clone();
            handles.push(tokio::spawn(async move {
                let mut task = MentionTask::new(mention(&format!("t{}", n), "alice", "draw for my avatar"));
                let mut action = task.next_action();
                loop {
                    let event = match action {
                        TaskAction::AcquireTicket => {
                            loop {
                                if pool.lock().await.try_acquire() {
                                    break;
                                }
                                let _ = tokio::time::timeout(std::time::Duration::from_millis(5), freed.notified()).await;
                            }
                            TaskEvent::TicketAcquired
                        }
                        TaskAction::CheckCache(_) => TaskEvent::CacheChecked(false),
                        TaskAction::Analyze(_) => {
                            // The instrumented collaborator: counts who is inside.
                            let inside = active.fetch_add(1, Ordering::SeqCst) + 1;
                            most.fetch_max(inside, Ordering::SeqCst);
                            tokio::time::sleep(std::time::Duration::from_millis(20)).await;
                            TaskEvent::Analyzed(vec!["k".to_string()])
                        }
                        TaskAction::Illustrate(_) => TaskEvent::Illustrated(PNG.to_vec()),
                        TaskAction::Narrate(_) => TaskEvent::Narrated("s".to_string()),
                        TaskAction::Reply(_) => {
                            active.fetch_sub(1, Ordering::SeqCst);
                            TaskEvent::Replied
                        }
                        TaskAction::MarkCache(_, _) => TaskEvent::Marked,
                        TaskAction::ReleaseTicket => {
                            pool.lock().await.release();
                            freed.notify_one();
                            TaskEvent::Released
                        }
                        TaskAction::Finish => break,
                    };
                    action = task.step(event);
                }
                if task.outcome() == TaskOutcome::Completed {
                    served.fetch_add(1, Ordering::SeqCst);
                }
            }));
        }
        for handle in handles {
            handle.await.unwrap();
        }
    });
    assert_eq!(served.load(Ordering::SeqCst), 15);
    assert!(most.load(Ordering::SeqCst) <= 10);
    assert!(most.load(Ordering::SeqCst) >= 1);
    assert_eq!(active.load(Ordering::SeqCst), 0);
}

#[test]
fn app_error_messages_and_conversions() {
    assert_eq!(AppError::RigError("x".to_string()).message(), "Rig error: x");
    assert_eq!(AppError::CacheError("y".to_string()).message(), "Cache error: y");
    assert_eq!(AppError::from(TwitterError::InvalidMention).message(), "Twitter error: Invalid mention format");
    assert_eq!(AppError::from(VisionError::InvalidImageUrl).message(), "Vision error: Invalid image URL");
    assert_eq!(AppError::from(ImageError::NoImageGenerated).message(), "Image error: No image was generated");
    assert_eq!(AppError::from(StoryError::InvalidStory).message(), "Story error: Invalid story content");
    assert!(matches!(AppError::from(StoryError::ApiError("z".to_string())), AppError::StoryError(StoryError::ApiError(_))));
}
