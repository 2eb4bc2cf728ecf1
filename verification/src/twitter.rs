use vstd::prelude::*;
use vstd::hash_map::StringHashMap;
use crate::clock::{instant_now, nanos_since};
use crate::text::{chars_of, contains_text, lowercase_of, occurs_in, to_lowercase};

verus! {

/// How many requests one actor is granted in one window.
pub const MAX_REQUESTS_PER_DAY: u32 = 3;

/// The length of a window, in hours.
pub const RATE_LIMIT_HOURS: u64 = 24;

/// The length of a window, in nanoseconds.
pub const RATE_LIMIT_WINDOW_NANOS: u128 = 86_400_000_000_000;

/// One actor's count: the requests granted in the current window, and the
/// clock reading, in nanoseconds, at which that window began.
#[derive(Clone, Copy, Debug, PartialEq, Eq, Structural)]
pub struct RateLimit {
    pub count: u32,
    pub last_reset: u128,
}

/// The window that began at `record.last_reset` is over at `now`: more than
/// the window's length lies between them. A `now` before the window's
/// beginning counts as no time passed.
pub open spec fn window_expired(record: RateLimit, now: u128) -> bool {
    now - record.last_reset > RATE_LIMIT_WINDOW_NANOS
}

/// The record that a call at `now` consults: a new one for an actor not
/// seen before, a reset one where the window is over, else the old one.
pub open spec fn opened(known: Option<RateLimit>, now: u128) -> RateLimit {
    match known {
        None => RateLimit { count: 0, last_reset: now },
        Some(record) => if window_expired(record, now) {
            RateLimit { count: 0, last_reset: now }
        } else {
            record
        },
    }
}

/// Whether a call at `now` is granted.
pub open spec fn admits(known: Option<RateLimit>, now: u128) -> bool {
    opened(known, now).count < MAX_REQUESTS_PER_DAY
}

/// The record that a call at `now` leaves behind: a granted call is
/// counted, a refused one is not.
pub open spec fn consumed(known: Option<RateLimit>, now: u128) -> RateLimit {
    let record = opened(known, now);
    if record.count < MAX_REQUESTS_PER_DAY {
        RateLimit { count: (record.count + 1) as u32, last_reset: record.last_reset }
    } else {
        record
    }
}

/// Grants each actor at most `MAX_REQUESTS_PER_DAY` requests per window. A
/// window opens with an actor's first call and lasts until a call comes
/// more than 24 hours after it began; that call opens the next one.
pub struct RateLimiter {
    started: tokio::time::Instant,
    records: StringHashMap<RateLimit>,
}

impl View for RateLimiter {
    type V = Map<Seq<char>, RateLimit>;

    closed spec fn view(&self) -> Map<Seq<char>, RateLimit> {
        self.records@
    }
}

impl RateLimiter {
    #[verifier::type_invariant]
    spec fn well_formed(&self) -> bool {
        forall|actor: Seq<char>|
            self.records@.dom().contains(actor) ==> (#[trigger] self.records@[actor]).count
                <= MAX_REQUESTS_PER_DAY
    }

    pub fn new() -> (limiter: Self)
        ensures
            limiter@ == Map::<Seq<char>, RateLimit>::empty(),
    {
        RateLimiter { started: instant_now(), records: StringHashMap::new() }
    }

    /// The record of `actor`, if the limiter has one. Its count never
    /// exceeds what a window grants.
    pub fn record_of(&self, actor: &str) -> (known: Option<RateLimit>)
        ensures
            known == self@.get(actor@),
            known matches Some(record) ==> record.count <= MAX_REQUESTS_PER_DAY,
    {
        proof {
            use_type_invariant(self);
        }
        match self.records.get(actor) {
            Some(record) => Some(*record),
            None => None,
        }
    }

    /// Decides a request of `actor` that comes at `now` on the limiter's
    /// clock, and counts it if it is granted.
    pub fn check_and_consume_at(&mut self, actor: &str, now: u128) -> (admitted: bool)
        ensures
            admitted == admits(old(self)@.get(actor@), now),
            final(self)@ == old(self)@.insert(actor@, consumed(old(self)@.get(actor@), now)),
    {
        let mut rate_limit = match self.record_of(actor) {
            Some(record) => record,
            None => RateLimit { count: 0, last_reset: now },
        };
        if now > rate_limit.last_reset && now - rate_limit.last_reset > RATE_LIMIT_WINDOW_NANOS {
            rate_limit.count = 0;
            rate_limit.last_reset = now;
        }
        let admitted = rate_limit.count < MAX_REQUESTS_PER_DAY;
        if admitted {
            rate_limit.count += 1;
        }
        proof {
            use_type_invariant(&*self);
        }
        let mut records: StringHashMap<RateLimit> = StringHashMap::new();
        std::mem::swap(&mut self.records, &mut records);
        records.insert(actor.to_owned(), rate_limit);
        self.records = records;
        admitted
    }

    /// Reads the limiter's clock: the nanoseconds since it was made.
    pub(crate) fn now(&self) -> u128 {
        nanos_since(&self.started)
    }

    /// Decides a request of `actor` that comes now, by the limiter's clock.
    pub fn check_and_consume(&mut self, actor: &str) -> (admitted: bool)
        ensures
            exists|now: u128|
                {
                    &&& admitted == #[trigger] admits(old(self)@.get(actor@), now)
                    &&& final(self)@ == old(self)@.insert(actor@, consumed(old(self)@.get(actor@), now))
                },
    {
        let now: u128 = self.now();
        self.check_and_consume_at(actor, now)
    }
}

/// A call of one actor leaves the record of every other actor as it was.
pub proof fn lemma_actors_do_not_interfere(
    limits: Map<Seq<char>, RateLimit>,
    actor: Seq<char>,
    other: Seq<char>,
    now: u128,
)
    requires
        actor != other,
    ensures
        limits.insert(actor, consumed(limits.get(actor), now)).get(other) == limits.get(other),
{
}

/// How many of the calls of one actor are granted, when they come in the
/// given order at the given clock readings and the actor's record is
/// `known` before the first.
pub open spec fn admitted_among(known: Option<RateLimit>, calls: Seq<u128>) -> nat
    decreases calls.len(),
{
    if calls.len() == 0 {
        0
    } else {
        let granted: nat = if admits(known, calls[0]) { 1 } else { 0 };
        granted + admitted_among(Some(consumed(known, calls[0])), calls.drop_first())
    }
}

/// The clock readings never go back.
pub open spec fn non_decreasing(calls: Seq<u128>) -> bool {
    forall|i: int, j: int| 0 <= i <= j < calls.len() ==> calls[i] <= calls[j]
}

/// The first call of an actor is granted.
pub proof fn lemma_first_call_is_admitted(now: u128)
    ensures
        admits(None, now),
        consumed(None, now) == (RateLimit { count: 1, last_reset: now }),
{
}

/// A call that comes after the window is over is granted, whatever the
/// count had reached, and opens a window of its own.
pub proof fn lemma_call_after_window_is_admitted(record: RateLimit, now: u128)
    requires
        window_expired(record, now),
    ensures
        admits(Some(record), now),
        consumed(Some(record), now) == (RateLimit { count: 1, last_reset: now }),
{
}

/// A call never moves the beginning of a window back, and leaves the count
/// within what a window grants.
pub proof fn lemma_window_start_never_goes_back(record: RateLimit, now: u128)
    requires
        record.count <= MAX_REQUESTS_PER_DAY,
    ensures
        consumed(Some(record), now).last_reset >= record.last_reset,
        consumed(Some(record), now).count <= MAX_REQUESTS_PER_DAY,
{
}

proof fn lemma_calls_inside_window(record: RateLimit, calls: Seq<u128>)
    requires
        record.count <= MAX_REQUESTS_PER_DAY,
        forall|i: int|
            0 <= i < calls.len() ==> record.last_reset <= #[trigger] calls[i] && calls[i] - record.last_reset
                <= RATE_LIMIT_WINDOW_NANOS,
    ensures
        admitted_among(Some(record), calls) + record.count <= MAX_REQUESTS_PER_DAY,
    decreases calls.len(),
{
    if calls.len() > 0 {
        let tail = calls.drop_first();
        assert(record.last_reset <= calls[0]);
        assert forall|i: int| 0 <= i < tail.len() implies record.last_reset <= #[trigger] tail[i] && tail[i]
            - record.last_reset <= RATE_LIMIT_WINDOW_NANOS by {
            assert(tail[i] == calls[i + 1]);
        }
        lemma_calls_inside_window(consumed(Some(record), calls[0]), tail);
    }
}

/// In the 24 hours that follow the call that opens a window, that call
/// included, at most `MAX_REQUESTS_PER_DAY` calls of the actor are granted.
pub proof fn lemma_window_grants_at_most_max(known: Option<RateLimit>, opening: u128, later: Seq<u128>)
    requires
        known matches Some(record) ==> window_expired(record, opening),
        forall|i: int|
            0 <= i < later.len() ==> opening <= #[trigger] later[i] && later[i] - opening
                <= RATE_LIMIT_WINDOW_NANOS,
    ensures
        admitted_among(known, seq![opening] + later) <= MAX_REQUESTS_PER_DAY,
{
    let calls = seq![opening] + later;
    assert(calls.drop_first() =~= later);
    lemma_calls_inside_window(consumed(known, opening), later);
}

proof fn lemma_calls_inside_day(known: Option<RateLimit>, calls: Seq<u128>)
    requires
        known matches Some(record) ==> record.count <= MAX_REQUESTS_PER_DAY,
        non_decreasing(calls),
        calls.len() > 0 ==> calls.last() - calls[0] <= RATE_LIMIT_WINDOW_NANOS,
    ensures
        admitted_among(known, calls) + (match known {
            Some(record) => record.count,
            None => 0,
        }) <= 2 * MAX_REQUESTS_PER_DAY,
    decreases calls.len(),
{
    if calls.len() > 0 {
        let first = calls[0];
        let tail = calls.drop_first();
        let next = consumed(known, first);
        assert forall|i: int| 0 <= i < tail.len() implies first <= #[trigger] tail[i] && tail[i] - first
            <= RATE_LIMIT_WINDOW_NANOS by {
            assert(tail[i] == calls[i + 1]);
            assert(calls[0] <= calls[i + 1]);
            assert(calls[i + 1] <= calls[calls.len() - 1]);
        }
        if known is None || window_expired(known->0, first) {
            lemma_calls_inside_window(next, tail);
        } else {
            assert forall|i: int, j: int| 0 <= i <= j < tail.len() implies tail[i] <= tail[j] by {
                assert(tail[i] == calls[i + 1]);
                assert(tail[j] == calls[j + 1]);
            }
            if tail.len() > 0 {
                assert(tail.last() == calls.last());
                assert(tail[0] == calls[1]);
                assert(calls[0] <= calls[1]);
            }
            lemma_calls_inside_day(Some(next), tail);
        }
    }
}

/// Of the calls of one actor that fall within any 24 hours, at most twice
/// `MAX_REQUESTS_PER_DAY` are granted: such a span meets at most two
/// windows.
pub proof fn lemma_day_grants_at_most_twice_max(known: Option<RateLimit>, calls: Seq<u128>)
    requires
        known matches Some(record) ==> record.count <= MAX_REQUESTS_PER_DAY,
        non_decreasing(calls),
        calls.len() > 0 ==> calls.last() - calls[0] <= RATE_LIMIT_WINDOW_NANOS,
    ensures
        admitted_among(known, calls) <= 2 * MAX_REQUESTS_PER_DAY,
{
    lemma_calls_inside_day(known, calls);
}

/// A point in time as seconds and nanoseconds since the Unix epoch, UTC.
#[derive(Clone, Copy, Debug, PartialEq, Eq, Structural)]
pub struct Timestamp {
    pub secs: i64,
    pub nanos: u32,
}

/// One inbound request: who asks, for which picture, in what words.
#[derive(Debug)]
pub struct TwitterMention {
    pub tweet_id: String,
    pub user_id: String,
    pub username: String,
    pub avatar_url: String,
    pub text: String,
    pub timestamp: Timestamp,
}

/// A mention as plain values.
pub struct MentionView {
    pub tweet_id: Seq<char>,
    pub user_id: Seq<char>,
    pub username: Seq<char>,
    pub avatar_url: Seq<char>,
    pub text: Seq<char>,
    pub timestamp: Timestamp,
}

impl View for TwitterMention {
    type V = MentionView;

    open spec fn view(&self) -> MentionView {
        MentionView {
            tweet_id: self.tweet_id@,
            user_id: self.user_id@,
            username: self.username@,
            avatar_url: self.avatar_url@,
            text: self.text@,
            timestamp: self.timestamp,
        }
    }
}

impl DeepView for TwitterMention {
    type V = MentionView;

    open spec fn deep_view(&self) -> MentionView {
        self@
    }
}

impl Clone for TwitterMention {
    fn clone(&self) -> (copy: Self)
        ensures
            copy@ == self@,
    {
        TwitterMention {
            tweet_id: self.tweet_id.clone(),
            user_id: self.user_id.clone(),
            username: self.username.clone(),
            avatar_url: self.avatar_url.clone(),
            text: self.text.clone(),
            timestamp: self.timestamp,
        }
    }
}

/// What can go wrong between the bot and the social platform.
#[derive(Debug)]
pub enum TwitterError {
    RateLimitExceeded,
    InvalidMention,
    ApiError(String),
    ClientError(String),
}

impl TwitterError {
    /// The text that describes the error.
    pub open spec fn message_spec(&self) -> Seq<char> {
        match self {
            TwitterError::RateLimitExceeded => "Rate limit exceeded"@,
            TwitterError::InvalidMention => "Invalid mention format"@,
            TwitterError::ApiError(detail) => "API error: "@ + detail@,
            TwitterError::ClientError(detail) => "Client error: "@ + detail@,
        }
    }

    /// The text that describes the error.
    pub fn message(&self) -> (text: String)
        ensures
            text@ == self.message_spec(),
    {
        match self {
            TwitterError::RateLimitExceeded => "Rate limit exceeded".to_owned(),
            TwitterError::InvalidMention => "Invalid mention format".to_owned(),
            TwitterError::ApiError(detail) => "API error: ".to_owned().concat(detail.as_str()),
            TwitterError::ClientError(detail) => "Client error: ".to_owned().concat(detail.as_str()),
        }
    }
}

/// The words that a mention has to hold, in any letter case, to be served.
pub open spec fn activation_phrase() -> Seq<char> {
    "draw for my avatar"@
}

/// The text holds the activation phrase once it is put in lower case.
pub open spec fn has_activation_phrase(text: Seq<char>) -> bool {
    occurs_in(activation_phrase(), lowercase_of(text))
}

/// What filtering a batch at `now` gives: the mentions that hold the
/// activation phrase and whose actor is granted a request, in the
/// order of the batch, and the limiter's table afterwards. Only mentions with
/// the phrase reach the limiter.
pub open spec fn filtered(
    limits: Map<Seq<char>, RateLimit>,
    mentions: Seq<MentionView>,
    now: u128,
) -> (Seq<MentionView>, Map<Seq<char>, RateLimit>)
    decreases mentions.len(),
{
    if mentions.len() == 0 {
        (Seq::empty(), limits)
    } else {
        let (kept, table) = filtered(limits, mentions.drop_last(), now);
        let mention = mentions.last();
        if !has_activation_phrase(mention.text) {
            (kept, table)
        } else {
            let known = table.get(mention.user_id);
            let after = table.insert(mention.user_id, consumed(known, now));
            if admits(known, now) {
                (kept.push(mention), after)
            } else {
                (kept, after)
            }
        }
    }
}

/// Every mention that the filter lets through holds the activation
/// phrase and stood in the batch.
pub proof fn lemma_filter_admits_only_with_phrase(
    limits: Map<Seq<char>, RateLimit>,
    mentions: Seq<MentionView>,
    now: u128,
)
    ensures
        forall|i: int|
            0 <= i < filtered(limits, mentions, now).0.len() ==> has_activation_phrase(
                (#[trigger] filtered(limits, mentions, now).0[i]).text,
            ) && mentions.contains(filtered(limits, mentions, now).0[i]),
        filtered(limits, mentions, now).0.len() <= mentions.len(),
    decreases mentions.len(),
{
    if mentions.len() > 0 {
        let shorter = mentions.drop_last();
        lemma_filter_admits_only_with_phrase(limits, shorter, now);
        let kept = filtered(limits, shorter, now).0;
        let all = filtered(limits, mentions, now).0;
        assert forall|i: int| 0 <= i < all.len() implies has_activation_phrase((#[trigger] all[i]).text)
            && mentions.contains(all[i]) by {
            if i < kept.len() {
                assert(all[i] == kept[i]);
                let j = choose|j: int| 0 <= j < shorter.len() && shorter[j] == kept[i];
                assert(mentions[j] == kept[i]);
            } else {
                assert(all[i] == mentions.last());
                assert(mentions[mentions.len() - 1] == all[i]);
            }
        }
    }
}

/// `kept` is what is left of `all` when some of its elements are taken
/// out: the elements that stay keep their order.
pub open spec fn is_selection_of(kept: Seq<MentionView>, all: Seq<MentionView>) -> bool
    decreases all.len(),
{
    if all.len() == 0 {
        kept.len() == 0
    } else {
        ||| is_selection_of(kept, all.drop_last())
        ||| kept.len() > 0 && kept.last() == all.last() && is_selection_of(kept.drop_last(), all.drop_last())
    }
}

/// The filter hands the mentions on in the order in which they came.
pub proof fn lemma_filter_keeps_order(limits: Map<Seq<char>, RateLimit>, mentions: Seq<MentionView>, now: u128)
    ensures
        is_selection_of(filtered(limits, mentions, now).0, mentions),
    decreases mentions.len(),
{
    if mentions.len() > 0 {
        lemma_filter_keeps_order(limits, mentions.drop_last(), now);
        let kept = filtered(limits, mentions.drop_last(), now).0;
        assert(kept.push(mentions.last()).drop_last() =~= kept);
    }
}

/// Listens for mentions on behalf of the bot: keeps the per-actor limits
/// and decides which polled mentions are served.
pub struct TwitterHandler {
    rate_limits: RateLimiter,
}

impl View for TwitterHandler {
    type V = Map<Seq<char>, RateLimit>;

    closed spec fn view(&self) -> Map<Seq<char>, RateLimit> {
        self.rate_limits@
    }
}

impl TwitterHandler {
    pub fn new() -> (handler: Self)
        ensures
            handler@ == Map::<Seq<char>, RateLimit>::empty(),
    {
        TwitterHandler { rate_limits: RateLimiter::new() }
    }

    /// Whether the text holds the activation phrase, in any letter case.
    pub fn mentions_phrase(text: &str) -> (found: bool)
        ensures
            found == has_activation_phrase(text@),
    {
        let lowered = to_lowercase(text);
        let hay = chars_of(lowered.as_str());
        let phrase = chars_of("draw for my avatar");
        contains_text(hay.as_slice(), phrase.as_slice())
    }

    /// Decides a request of `user_id` that comes at `now`, and counts it
    /// if it is granted.
    pub fn check_rate_limit_at(&mut self, user_id: &str, now: u128) -> (admitted: Result<bool, TwitterError>)
        ensures
            admitted matches Ok(granted) && granted == admits(old(self)@.get(user_id@), now),
            final(self)@ == old(self)@.insert(user_id@, consumed(old(self)@.get(user_id@), now)),
    {
        Ok(self.rate_limits.check_and_consume_at(user_id, now))
    }

    /// Decides a request of `user_id` that comes now.
    pub fn check_rate_limit(&mut self, user_id: &str) -> (admitted: Result<bool, TwitterError>)
        ensures
            exists|now: u128|
                {
                    &&& admitted matches Ok(granted) && granted == #[trigger] admits(
                        old(self)@.get(user_id@),
                        now,
                    )
                    &&& final(self)@ == old(self)@.insert(user_id@, consumed(old(self)@.get(user_id@), now))
                },
    {
        Ok(self.rate_limits.check_and_consume(user_id))
    }

    /// Filters a batch of mentions that was polled at `now`.
    pub fn filter_valid_mentions_at(&mut self, mentions: Vec<TwitterMention>, now: u128) -> (valid: Result<
        Vec<TwitterMention>,
        TwitterError,
    >)
        ensures
            valid matches Ok(kept) && kept.deep_view() == filtered(old(self)@, mentions.deep_view(), now).0,
            final(self)@ == filtered(old(self)@, mentions.deep_view(), now).1,
    {
        let ghost before = self@;
        let ghost batch = mentions.deep_view();
        let mut valid_mentions: Vec<TwitterMention> = Vec::new();
        let mut i: usize = 0;
        assert(batch.take(0) =~= Seq::<MentionView>::empty());
        assert(valid_mentions.deep_view() =~= Seq::<MentionView>::empty());
        while i < mentions.len()
            invariant
                i <= mentions@.len(),
                batch == mentions.deep_view(),
                valid_mentions.deep_view() == filtered(before, batch.take(i as int), now).0,
                self@ == filtered(before, batch.take(i as int), now).1,
            decreases mentions@.len() - i,
        {
            let ghost kept = valid_mentions.deep_view();
            assert(batch.take(i + 1).drop_last() =~= batch.take(i as int));
            assert(batch.take(i + 1).last() == mentions@[i as int]@);
            if Self::mentions_phrase(mentions[i].text.as_str()) {
                if self.rate_limits.check_and_consume_at(mentions[i].user_id.as_str(), now) {
                    valid_mentions.push(mentions[i].clone());
                    assert(valid_mentions.deep_view() =~= kept.push(mentions@[i as int]@));
                }
            }
            i += 1;
        }
        assert(batch.take(i as int) =~= batch);
        Ok(valid_mentions)
    }

    /// Filters a batch of mentions that was polled just now.
    pub fn filter_valid_mentions(&mut self, mentions: Vec<TwitterMention>) -> (valid: Result<
        Vec<TwitterMention>,
        TwitterError,
    >)
        ensures
            exists|now: u128|
                {
                    &&& valid matches Ok(kept) && kept.deep_view() == (#[trigger] filtered(
                        old(self)@,
                        mentions.deep_view(),
                        now,
                    )).0
                    &&& final(self)@ == filtered(old(self)@, mentions.deep_view(), now).1
                },
    {
        let now: u128 = self.rate_limits.now();
        self.filter_valid_mentions_at(mentions, now)
    }

    /// Takes what a poll of the mention source gave: a failed poll is
    /// handed on as it is, a batch is filtered.
    pub fn listen_mentions(&mut self, polled: Result<Vec<TwitterMention>, TwitterError>) -> (valid: Result<
        Vec<TwitterMention>,
        TwitterError,
    >)
        ensures
            match polled {
                Err(error) => valid == Err::<Vec<TwitterMention>, TwitterError>(error) && final(self)@ == old(
                    self,
                )@,
                Ok(mentions) => exists|now: u128|
                    {
                        &&& valid matches Ok(kept) && kept.deep_view() == (#[trigger] filtered(
                            old(self)@,
                            mentions.deep_view(),
                            now,
                        )).0
                        &&& final(self)@ == filtered(old(self)@, mentions.deep_view(), now).1
                    },
            },
    {
        match polled {
            Err(error) => Err(error),
            Ok(mentions) => self.filter_valid_mentions(mentions),
        }
    }
}

/// The text of the reply to `username` that carries `story`.
pub open spec fn reply_text(username: Seq<char>, story: Seq<char>) -> Seq<char> {
    "@"@ + username + " Here's your cat illustration with a story:\n\n"@ + story
}

/// A reply that is ready to be sent: the post it answers, its text, and
/// the uploaded picture that goes with it.
#[derive(Debug)]
pub struct Reply {
    pub tweet_id: String,
    pub text: String,
    pub media_id: Option<String>,
}

impl TwitterHandler {
    /// The media type under which pictures are uploaded.
    pub fn media_type() -> (name: &'static str)
        ensures
            name@ == "image/jpeg"@,
    {
        "image/jpeg"
    }

    /// Makes the reply to a mention, once its picture was uploaded as
    /// `media_id`.
    pub fn compose_reply(mention: &TwitterMention, media_id: String, story: &str) -> (reply: Reply)
        ensures
            reply.tweet_id@ == mention@.tweet_id,
            reply.text@ == reply_text(mention@.username, story@),
            reply.media_id matches Some(id) && id@ == media_id@,
    {
        let mut text = "@".to_owned();
        text.append(mention.username.as_str());
        text.append(" Here's your cat illustration with a story:\n\n");
        text.append(story);
        Reply { tweet_id: mention.tweet_id.clone(), text, media_id: Some(media_id) }
    }
}

} // verus!
