use vstd::prelude::*;
use crate::error::AppError;
use crate::twitter::{MentionView, TwitterMention};

verus! {

/// How far the work on one mention has come.
#[derive(Clone, Copy, Debug, PartialEq, Eq, Structural)]
pub enum TaskStage {
    /// Waiting for a ticket of the pool.
    AwaitingTicket,
    /// Asking the cache whether the mention was served before.
    CheckingCache,
    /// Having the avatar analysed.
    Analyzing,
    /// Having the picture drawn.
    Illustrating,
    /// Having the story told.
    Narrating,
    /// Posting the reply.
    Replying,
    /// Writing the completion marker to the cache.
    Marking,
    /// Giving the ticket back.
    Releasing,
    /// Done; nothing is left to do.
    Finished,
}

/// How the work on one mention ended, once it has.
#[derive(Clone, Copy, Debug, PartialEq, Eq, Structural)]
pub enum TaskOutcome {
    /// The work has not ended yet.
    Pending,
    /// The reply was posted and the marker written.
    Completed,
    /// The mention was served before; nothing was done.
    Skipped,
    /// A step failed; the work was given up.
    Failed,
}

/// What was made for one mention: the picture and the story.
#[derive(Debug)]
pub struct GeneratedArtifact {
    pub mention_id: String,
    pub image: Vec<u8>,
    pub story: String,
}

/// An artifact as plain values.
pub struct ArtifactView {
    pub mention_id: Seq<char>,
    pub image: Seq<u8>,
    pub story: Seq<char>,
}

impl View for GeneratedArtifact {
    type V = ArtifactView;

    open spec fn view(&self) -> ArtifactView {
        ArtifactView { mention_id: self.mention_id@, image: self.image@, story: self.story@ }
    }
}

/// What the outside world reports to a task.
pub enum TaskEvent {
    /// A ticket was taken for the task.
    TicketAcquired,
    /// The cache answered: whether the mention's key is there.
    CacheChecked(bool),
    /// The analysis gave these keywords.
    Analyzed(Vec<String>),
    /// The picture was drawn.
    Illustrated(Vec<u8>),
    /// The story was told.
    Narrated(String),
    /// The reply was posted.
    Replied,
    /// The completion marker was written.
    Marked,
    /// The ticket was given back.
    Released,
    /// What the task was waiting for has failed.
    Failed(AppError),
}

/// What a task asks the outside world to do next.
#[derive(Debug)]
pub enum TaskAction {
    /// Take a ticket of the pool, waiting for one if need be.
    AcquireTicket,
    /// Ask the cache whether this key is there.
    CheckCache(String),
    /// Analyse the picture at this address.
    Analyze(String),
    /// Draw a picture for these keywords.
    Illustrate(Vec<String>),
    /// Tell a story for these keywords.
    Narrate(Vec<String>),
    /// Post the picture and the story as a reply to the mention.
    Reply(GeneratedArtifact),
    /// Store this marker in the cache under this key.
    MarkCache(String, String),
    /// Give the ticket back.
    ReleaseTicket,
    /// Nothing: the task has ended.
    Finish,
}

/// An event as plain values.
pub enum TaskEventView {
    TicketAcquired,
    CacheChecked(bool),
    Analyzed(Seq<Seq<char>>),
    Illustrated(Seq<u8>),
    Narrated(Seq<char>),
    Replied,
    Marked,
    Released,
    Failed(AppError),
}

/// An action as plain values.
pub enum TaskActionView {
    AcquireTicket,
    CheckCache(Seq<char>),
    Analyze(Seq<char>),
    Illustrate(Seq<Seq<char>>),
    Narrate(Seq<Seq<char>>),
    Reply(ArtifactView),
    MarkCache(Seq<char>, Seq<char>),
    ReleaseTicket,
    Finish,
}

impl View for TaskEvent {
    type V = TaskEventView;

    open spec fn view(&self) -> TaskEventView {
        match self {
            TaskEvent::TicketAcquired => TaskEventView::TicketAcquired,
            TaskEvent::CacheChecked(hit) => TaskEventView::CacheChecked(*hit),
            TaskEvent::Analyzed(keywords) => TaskEventView::Analyzed(keywords.deep_view()),
            TaskEvent::Illustrated(image) => TaskEventView::Illustrated(image@),
            TaskEvent::Narrated(story) => TaskEventView::Narrated(story@),
            TaskEvent::Replied => TaskEventView::Replied,
            TaskEvent::Marked => TaskEventView::Marked,
            TaskEvent::Released => TaskEventView::Released,
            TaskEvent::Failed(error) => TaskEventView::Failed(*error),
        }
    }
}

impl View for TaskAction {
    type V = TaskActionView;

    open spec fn view(&self) -> TaskActionView {
        match self {
            TaskAction::AcquireTicket => TaskActionView::AcquireTicket,
            TaskAction::CheckCache(key) => TaskActionView::CheckCache(key@),
            TaskAction::Analyze(url) => TaskActionView::Analyze(url@),
            TaskAction::Illustrate(keywords) => TaskActionView::Illustrate(keywords.deep_view()),
            TaskAction::Narrate(keywords) => TaskActionView::Narrate(keywords.deep_view()),
            TaskAction::Reply(artifact) => TaskActionView::Reply(artifact@),
            TaskAction::MarkCache(key, marker) => TaskActionView::MarkCache(key@, marker@),
            TaskAction::ReleaseTicket => TaskActionView::ReleaseTicket,
            TaskAction::Finish => TaskActionView::Finish,
        }
    }
}

/// The key under which the cache remembers that a mention was served.
pub open spec fn dedup_key(tweet_id: Seq<char>) -> Seq<char> {
    "mention:"@ + tweet_id
}

/// What the cache holds under the key of a mention that was served.
pub open spec fn completion_marker() -> Seq<char> {
    "completed"@
}

/// A task as plain values.
pub struct TaskView {
    pub mention: MentionView,
    pub stage: TaskStage,
    pub outcome: TaskOutcome,
    pub holds_ticket: bool,
    pub keywords: Seq<Seq<char>>,
    pub image: Seq<u8>,
    pub story: Seq<char>,
    pub failure: Option<AppError>,
}

impl TaskView {
    /// The task for a mention, before anything was done.
    pub open spec fn fresh(mention: MentionView) -> TaskView {
        TaskView {
            mention,
            stage: TaskStage::AwaitingTicket,
            outcome: TaskOutcome::Pending,
            holds_ticket: false,
            keywords: Seq::empty(),
            image: Seq::empty(),
            story: Seq::empty(),
            failure: None,
        }
    }

    /// The task is at one of the steps that make and deliver the reply.
    pub open spec fn in_pipeline(self) -> bool {
        self.stage is Analyzing || self.stage is Illustrating || self.stage is Narrating
            || self.stage is Replying || self.stage is Marking
    }

    /// The task is over, or only has its ticket left to give back.
    pub open spec fn winding_down(self) -> bool {
        self.stage is Releasing || self.stage is Finished
    }

    /// What the task is waiting for the outside world to do.
    pub open spec fn awaited(self) -> TaskActionView {
        match self.stage {
            TaskStage::AwaitingTicket => TaskActionView::AcquireTicket,
            TaskStage::CheckingCache => TaskActionView::CheckCache(dedup_key(self.mention.tweet_id)),
            TaskStage::Analyzing => TaskActionView::Analyze(self.mention.avatar_url),
            TaskStage::Illustrating => TaskActionView::Illustrate(self.keywords),
            TaskStage::Narrating => TaskActionView::Narrate(self.keywords),
            TaskStage::Replying => TaskActionView::Reply(
                ArtifactView { mention_id: self.mention.tweet_id, image: self.image, story: self.story },
            ),
            TaskStage::Marking => TaskActionView::MarkCache(
                dedup_key(self.mention.tweet_id),
                completion_marker(),
            ),
            TaskStage::Releasing => TaskActionView::ReleaseTicket,
            TaskStage::Finished => TaskActionView::Finish,
        }
    }

    /// The task given up because of `error`: it gives its ticket back if
    /// it holds one, and ends.
    pub open spec fn given_up(self, error: AppError) -> TaskView {
        TaskView {
            stage: if self.holds_ticket {
                TaskStage::Releasing
            } else {
                TaskStage::Finished
            },
            outcome: TaskOutcome::Failed,
            failure: Some(error),
            ..self
        }
    }

    /// The task after an event. Each step goes on to the next when it
    /// succeeds; a mention found in the cache is skipped; a cache that
    /// cannot be asked counts as one that does not know the mention; any
    /// other failure gives the task up. An event that does not answer
    /// what the task is waiting for changes nothing.
    pub open spec fn after(self, event: TaskEventView) -> TaskView {
        match (self.stage, event) {
            (TaskStage::AwaitingTicket, TaskEventView::TicketAcquired) => TaskView {
                stage: TaskStage::CheckingCache,
                holds_ticket: true,
                ..self
            },
            (TaskStage::AwaitingTicket, TaskEventView::Failed(error)) => self.given_up(error),
            (TaskStage::CheckingCache, TaskEventView::CacheChecked(true)) => TaskView {
                stage: TaskStage::Releasing,
                outcome: TaskOutcome::Skipped,
                ..self
            },
            (TaskStage::CheckingCache, TaskEventView::CacheChecked(false)) => TaskView {
                stage: TaskStage::Analyzing,
                ..self
            },
            (TaskStage::CheckingCache, TaskEventView::Failed(_)) => TaskView {
                stage: TaskStage::Analyzing,
                ..self
            },
            (TaskStage::Analyzing, TaskEventView::Analyzed(keywords)) => TaskView {
                stage: TaskStage::Illustrating,
                keywords,
                ..self
            },
            (TaskStage::Illustrating, TaskEventView::Illustrated(image)) => TaskView {
                stage: TaskStage::Narrating,
                image,
                ..self
            },
            (TaskStage::Narrating, TaskEventView::Narrated(story)) => TaskView {
                stage: TaskStage::Replying,
                story,
                ..self
            },
            (TaskStage::Replying, TaskEventView::Replied) => TaskView { stage: TaskStage::Marking, ..self },
            (TaskStage::Marking, TaskEventView::Marked) => TaskView {
                stage: TaskStage::Releasing,
                outcome: TaskOutcome::Completed,
                ..self
            },
            (TaskStage::Analyzing, TaskEventView::Failed(error)) => self.given_up(error),
            (TaskStage::Illustrating, TaskEventView::Failed(error)) => self.given_up(error),
            (TaskStage::Narrating, TaskEventView::Failed(error)) => self.given_up(error),
            (TaskStage::Replying, TaskEventView::Failed(error)) => self.given_up(error),
            (TaskStage::Marking, TaskEventView::Failed(error)) => self.given_up(error),
            (TaskStage::Releasing, TaskEventView::Released) => TaskView {
                stage: TaskStage::Finished,
                holds_ticket: false,
                ..self
            },
            _ => self,
        }
    }

    /// The task after a series of events.
    pub open spec fn after_all(self, events: Seq<TaskEventView>) -> TaskView
        decreases events.len(),
    {
        if events.len() == 0 {
            self
        } else {
            self.after_all(events.drop_last()).after(events.last())
        }
    }

    /// What holds of a task at every moment: it holds a ticket exactly
    /// from the moment it got one until it gave it back; it has failed
    /// exactly when it keeps an error; and once it has an outcome it only
    /// winds down.
    pub open spec fn sound(self) -> bool {
        &&& self.holds_ticket <==> !(self.stage is AwaitingTicket) && !(self.stage is Finished)
        &&& self.outcome is Failed <==> self.failure is Some
        &&& !(self.outcome is Pending) <==> self.winding_down()
    }
}

/// A task that was just made is sound, and no event makes a sound task
/// unsound.
pub proof fn lemma_task_stays_sound(task: TaskView, event: TaskEventView)
    requires
        task.sound(),
    ensures
        TaskView::fresh(task.mention).sound(),
        task.after(event).sound(),
{
}

/// Whatever is reported to a task from its beginning on, it is sound
/// afterwards: in particular, a task that has ended holds no ticket.
pub proof fn lemma_task_is_always_sound(mention: MentionView, events: Seq<TaskEventView>)
    ensures
        TaskView::fresh(mention).after_all(events).sound(),
        TaskView::fresh(mention).after_all(events).stage is Finished ==> !TaskView::fresh(mention).after_all(
            events,
        ).holds_ticket,
    decreases events.len(),
{
    if events.len() > 0 {
        lemma_task_is_always_sound(mention, events.drop_last());
        lemma_task_stays_sound(TaskView::fresh(mention).after_all(events.drop_last()), events.last());
    }
}

proof fn lemma_winding_down_is_final(task: TaskView, events: Seq<TaskEventView>)
    requires
        task.winding_down(),
    ensures
        task.after_all(events).winding_down(),
        task.after_all(events).outcome == task.outcome,
        task.after_all(events).failure == task.failure,
    decreases events.len(),
{
    if events.len() > 0 {
        lemma_winding_down_is_final(task, events.drop_last());
    }
}

/// A task of which a step has failed gives its ticket back and ends as
/// failed, whatever is reported to it afterwards: it never comes to write
/// the completion marker, and it keeps the error.
pub proof fn lemma_failed_task_never_marks(task: TaskView, error: AppError, later: Seq<TaskEventView>)
    requires
        task.sound(),
        task.in_pipeline(),
    ensures
        task.after(TaskEventView::Failed(error)).stage is Releasing,
        task.after(TaskEventView::Failed(error)).after_all(later).winding_down(),
        !(task.after(TaskEventView::Failed(error)).after_all(later).awaited() is MarkCache),
        task.after(TaskEventView::Failed(error)).after_all(later).outcome is Failed,
        task.after(TaskEventView::Failed(error)).after_all(later).failure == Some(error),
{
    lemma_winding_down_is_final(task.after(TaskEventView::Failed(error)), later);
}

/// A mention that the cache knows is skipped: the task gives its ticket
/// back and ends, whatever is reported to it afterwards, without having
/// anything analysed, drawn, told, posted or marked.
pub proof fn lemma_cached_mention_is_skipped(task: TaskView, later: Seq<TaskEventView>)
    requires
        task.stage is CheckingCache,
    ensures
        task.after(TaskEventView::CacheChecked(true)).awaited() == TaskActionView::ReleaseTicket,
        task.after(TaskEventView::CacheChecked(true)).after_all(later).winding_down(),
        task.after(TaskEventView::CacheChecked(true)).after_all(later).outcome is Skipped,
{
    lemma_winding_down_is_final(task.after(TaskEventView::CacheChecked(true)), later);
}

/// The steps of a task follow one another in a fixed order, each working
/// on what the steps before it gave: ticket, cache, analysis, picture,
/// story, reply, marker, ticket back.
pub proof fn lemma_steps_run_in_order(
    mention: MentionView,
    keywords: Seq<Seq<char>>,
    image: Seq<u8>,
    story: Seq<char>,
)
    ensures
        ({
            let start = TaskView::fresh(mention);
            let ticketed = start.after(TaskEventView::TicketAcquired);
            let unseen = ticketed.after(TaskEventView::CacheChecked(false));
            let analyzed = unseen.after(TaskEventView::Analyzed(keywords));
            let drawn = analyzed.after(TaskEventView::Illustrated(image));
            let told = drawn.after(TaskEventView::Narrated(story));
            let posted = told.after(TaskEventView::Replied);
            let marked = posted.after(TaskEventView::Marked);
            let ended = marked.after(TaskEventView::Released);
            &&& start.awaited() == TaskActionView::AcquireTicket
            &&& ticketed.awaited() == TaskActionView::CheckCache(dedup_key(mention.tweet_id))
            &&& unseen.awaited() == TaskActionView::Analyze(mention.avatar_url)
            &&& analyzed.awaited() == TaskActionView::Illustrate(keywords)
            &&& drawn.awaited() == TaskActionView::Narrate(keywords)
            &&& told.awaited() == TaskActionView::Reply(
                ArtifactView { mention_id: mention.tweet_id, image, story },
            )
            &&& posted.awaited() == TaskActionView::MarkCache(dedup_key(mention.tweet_id), completion_marker())
            &&& marked.awaited() == TaskActionView::ReleaseTicket
            &&& ended.awaited() == TaskActionView::Finish
            &&& ended.outcome is Completed
            &&& !ended.holds_ticket
        }),
{
}

fn copy_of_texts(texts: &Vec<String>) -> (copy: Vec<String>)
    ensures
        copy.deep_view() == texts.deep_view(),
{
    let mut copy: Vec<String> = Vec::new();
    let mut i: usize = 0;
    while i < texts.len()
        invariant
            i <= texts@.len(),
            copy@.len() == i,
            forall|j: int| 0 <= j < i ==> copy@[j]@ == texts@[j]@,
        decreases texts@.len() - i,
    {
        copy.push(texts[i].clone());
        i += 1;
    }
    assert(copy.deep_view() =~= texts.deep_view());
    copy
}

fn copy_of_bytes(bytes: &Vec<u8>) -> (copy: Vec<u8>)
    ensures
        copy@ == bytes@,
{
    let mut copy: Vec<u8> = Vec::new();
    let mut i: usize = 0;
    while i < bytes.len()
        invariant
            i <= bytes@.len(),
            copy@ == bytes@.take(i as int),
        decreases bytes@.len() - i,
    {
        copy.push(bytes[i]);
        assert(copy@ =~= bytes@.take(i + 1));
        i += 1;
    }
    assert(bytes@.take(i as int) =~= bytes@);
    copy
}

/// The work on one mention: a ticket is taken, the cache is asked, the
/// avatar is analysed, the picture drawn, the story told, the reply
/// posted, the marker written and the ticket given back, each step after
/// the one before. The task decides; the outside world does the steps and
/// reports how they went.
///
/// The marker is written only once the reply is posted, so a task that
/// fails leaves nothing in the cache and its mention can be served again.
/// The price is a gap between the question to the cache and the marker:
/// two tasks for the same mention that both ask before either has marked
/// will both reply. A caller that cannot accept this must not start a
/// second task for a mention while the first is running.
pub struct MentionTask {
    mention: TwitterMention,
    stage: TaskStage,
    outcome: TaskOutcome,
    holds_ticket: bool,
    keywords: Vec<String>,
    image: Vec<u8>,
    story: String,
    failure: Option<AppError>,
}

impl View for MentionTask {
    type V = TaskView;

    closed spec fn view(&self) -> TaskView {
        TaskView {
            mention: self.mention@,
            stage: self.stage,
            outcome: self.outcome,
            holds_ticket: self.holds_ticket,
            keywords: self.keywords.deep_view(),
            image: self.image@,
            story: self.story@,
            failure: self.failure,
        }
    }
}

impl MentionTask {
    /// The task for a mention, before anything was done.
    pub fn new(mention: TwitterMention) -> (task: Self)
        ensures
            task@ == TaskView::fresh(mention@),
    {
        let task = MentionTask {
            mention,
            stage: TaskStage::AwaitingTicket,
            outcome: TaskOutcome::Pending,
            holds_ticket: false,
            keywords: Vec::new(),
            image: Vec::new(),
            story: String::new(),
            failure: None,
        };
        assert(task.keywords.deep_view() =~= Seq::<Seq<char>>::empty());
        task
    }

    /// The mention that the task serves.
    pub fn mention(&self) -> (mention: &TwitterMention)
        ensures
            mention@ == self@.mention,
    {
        &self.mention
    }

    /// How far the task has come.
    pub fn stage(&self) -> (stage: TaskStage)
        ensures
            stage == self@.stage,
    {
        self.stage
    }

    /// How the task ended, once it has.
    pub fn outcome(&self) -> (outcome: TaskOutcome)
        ensures
            outcome == self@.outcome,
    {
        self.outcome
    }

    /// Whether the task holds a ticket of the pool.
    pub fn holds_ticket(&self) -> (held: bool)
        ensures
            held == self@.holds_ticket,
    {
        self.holds_ticket
    }

    /// The error that made the task give up, if it did.
    pub fn failure(&self) -> (failure: &Option<AppError>)
        ensures
            *failure == self@.failure,
    {
        &self.failure
    }

    /// The key under which the cache remembers that the mention was
    /// served.
    pub fn cache_key(&self) -> (key: String)
        ensures
            key@ == dedup_key(self@.mention.tweet_id),
    {
        let mut key = "mention:".to_owned();
        key.append(self.mention.tweet_id.as_str());
        key
    }

    /// What the task is waiting for the outside world to do.
    pub fn next_action(&self) -> (action: TaskAction)
        ensures
            action@ == self@.awaited(),
    {
        match self.stage {
            TaskStage::AwaitingTicket => TaskAction::AcquireTicket,
            TaskStage::CheckingCache => TaskAction::CheckCache(self.cache_key()),
            TaskStage::Analyzing => TaskAction::Analyze(self.mention.avatar_url.clone()),
            TaskStage::Illustrating => TaskAction::Illustrate(copy_of_texts(&self.keywords)),
            TaskStage::Narrating => TaskAction::Narrate(copy_of_texts(&self.keywords)),
            TaskStage::Replying => TaskAction::Reply(
                GeneratedArtifact {
                    mention_id: self.mention.tweet_id.clone(),
                    image: copy_of_bytes(&self.image),
                    story: self.story.clone(),
                },
            ),
            TaskStage::Marking => TaskAction::MarkCache(self.cache_key(), "completed".to_owned()),
            TaskStage::Releasing => TaskAction::ReleaseTicket,
            TaskStage::Finished => TaskAction::Finish,
        }
    }

    /// Gives the task up because of `error`.
    fn give_up(&mut self, error: AppError)
        ensures
            final(self)@ == old(self)@.given_up(error),
    {
        self.stage = if self.holds_ticket {
            TaskStage::Releasing
        } else {
            TaskStage::Finished
        };
        self.outcome = TaskOutcome::Failed;
        self.failure = Some(error);
    }

    /// Takes note of an event.
    pub fn handle(&mut self, event: TaskEvent)
        ensures
            final(self)@ == old(self)@.after(event@),
    {
        match (self.stage, event) {
            (TaskStage::AwaitingTicket, TaskEvent::TicketAcquired) => {
                self.stage = TaskStage::CheckingCache;
                self.holds_ticket = true;
            },
            (TaskStage::AwaitingTicket, TaskEvent::Failed(error)) => {
                self.give_up(error);
            },
            (TaskStage::CheckingCache, TaskEvent::CacheChecked(true)) => {
                self.stage = TaskStage::Releasing;
                self.outcome = TaskOutcome::Skipped;
            },
            (TaskStage::CheckingCache, TaskEvent::CacheChecked(false)) => {
                self.stage = TaskStage::Analyzing;
            },
            (TaskStage::CheckingCache, TaskEvent::Failed(_)) => {
                self.stage = TaskStage::Analyzing;
            },
            (TaskStage::Analyzing, TaskEvent::Analyzed(keywords)) => {
                self.stage = TaskStage::Illustrating;
                self.keywords = keywords;
            },
            (TaskStage::Illustrating, TaskEvent::Illustrated(image)) => {
                self.stage = TaskStage::Narrating;
                self.image = image;
            },
            (TaskStage::Narrating, TaskEvent::Narrated(story)) => {
                self.stage = TaskStage::Replying;
                self.story = story;
            },
            (TaskStage::Replying, TaskEvent::Replied) => {
                self.stage = TaskStage::Marking;
            },
            (TaskStage::Marking, TaskEvent::Marked) => {
                self.stage = TaskStage::Releasing;
                self.outcome = TaskOutcome::Completed;
            },
            (TaskStage::Analyzing, TaskEvent::Failed(error)) => {
                self.give_up(error);
            },
            (TaskStage::Illustrating, TaskEvent::Failed(error)) => {
                self.give_up(error);
            },
            (TaskStage::Narrating, TaskEvent::Failed(error)) => {
                self.give_up(error);
            },
            (TaskStage::Replying, TaskEvent::Failed(error)) => {
                self.give_up(error);
            },
            (TaskStage::Marking, TaskEvent::Failed(error)) => {
                self.give_up(error);
            },
            (TaskStage::Releasing, TaskEvent::Released) => {
                self.stage = TaskStage::Finished;
                self.holds_ticket = false;
            },
            _ => {},
        }
    }

    /// Takes note of an event and tells what to do next.
    pub fn step(&mut self, event: TaskEvent) -> (action: TaskAction)
        ensures
            final(self)@ == old(self)@.after(event@),
            action@ == old(self)@.after(event@).awaited(),
    {
        self.handle(event);
        self.next_action()
    }
}

} // verus!
