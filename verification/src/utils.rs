use vstd::prelude::*;
use crate::clock::unix_nanos;
use crate::text::{
    byte_len, byte_length, char_is_alphanumeric, char_is_whitespace, chars_of, contains_char, has_prefix,
    is_alphanumeric, is_whitespace,
};

verus! {

/// How long a cache entry stays readable: 24 hours, in nanoseconds.
pub const CACHE_TIMEOUT_NANOS: u128 = 86_400_000_000_000;

/// How long a cache entry stays readable, in seconds.
pub const CACHE_TIMEOUT_SECS: u64 = 86400;

/// What the helpers of this module report when they fail.
#[derive(Debug)]
pub enum UtilError {
    CacheError(String),
    RateLimitExceeded,
    InvalidInput(String),
    ConfigError(String),
}

impl UtilError {
    /// The text that describes the error.
    pub open spec fn message_spec(&self) -> Seq<char> {
        match self {
            UtilError::CacheError(detail) => "Cache error: "@ + detail@,
            UtilError::RateLimitExceeded => "Rate limit exceeded"@,
            UtilError::InvalidInput(detail) => "Invalid input: "@ + detail@,
            UtilError::ConfigError(detail) => "Configuration error: "@ + detail@,
        }
    }

    /// The text that describes the error.
    pub fn message(&self) -> (text: String)
        ensures
            text@ == self.message_spec(),
    {
        match self {
            UtilError::CacheError(detail) => "Cache error: ".to_owned().concat(detail.as_str()),
            UtilError::RateLimitExceeded => "Rate limit exceeded".to_owned(),
            UtilError::InvalidInput(detail) => "Invalid input: ".to_owned().concat(detail.as_str()),
            UtilError::ConfigError(detail) => "Configuration error: ".to_owned().concat(detail.as_str()),
        }
    }
}

/// What the cache holds under one key: the stored text and the clock
/// reading, in nanoseconds, at which it was written.
pub struct CachedValue {
    pub data: Seq<char>,
    pub written: nat,
}

/// An entry written at `written` can still be read at `now`: it is not from
/// the future, and its age does not exceed the timeout.
pub open spec fn is_fresh(written: nat, now: nat) -> bool {
    written <= now && now - written <= CACHE_TIMEOUT_NANOS
}

/// The cache after a sweep at `now`: the entries that are fresh at `now`.
pub open spec fn swept(cache: Map<Seq<char>, CachedValue>, now: nat) -> Map<Seq<char>, CachedValue> {
    cache.restrict(Set::new(|key: Seq<char>| cache.dom().contains(key) && is_fresh(cache[key].written, now)))
}

/// The cache after `data` was stored under `key` at `now`: the entry
/// replaces what stood under the key, then the cache is swept.
pub open spec fn after_set(
    cache: Map<Seq<char>, CachedValue>,
    key: Seq<char>,
    data: Seq<char>,
    now: nat,
) -> Map<Seq<char>, CachedValue> {
    swept(cache.insert(key, CachedValue { data, written: now }), now)
}

/// What a read of `key` at `now` returns: the stored text if the entry is
/// there and fresh, nothing otherwise.
pub open spec fn lookup(cache: Map<Seq<char>, CachedValue>, key: Seq<char>, now: nat) -> Option<Seq<char>> {
    if swept(cache, now).dom().contains(key) {
        Some(cache[key].data)
    } else {
        None
    }
}

/// One stored entry with its key.
struct CacheEntry {
    key: String,
    data: String,
    timestamp: u128,
}

impl CacheEntry {
    spec fn key(&self) -> Seq<char> {
        self.key@
    }

    spec fn value(&self) -> CachedValue {
        CachedValue { data: self.data@, written: self.timestamp as nat }
    }
}

/// No two entries share a key.
spec fn distinct_keys(entries: Seq<CacheEntry>) -> bool {
    forall|i: int, j: int|
        0 <= i < j < entries.len() ==> (#[trigger] entries[i]).key() != (#[trigger] entries[j]).key()
}

/// Some entry of `entries` stands under `key`.
spec fn has_key(entries: Seq<CacheEntry>, key: Seq<char>) -> bool {
    exists|i: int| 0 <= i < entries.len() && (#[trigger] entries[i]).key() == key
}

/// The map that a list of entries stands for.
spec fn entries_map(entries: Seq<CacheEntry>) -> Map<Seq<char>, CachedValue> {
    Map::new(
        |key: Seq<char>| has_key(entries, key),
        |key: Seq<char>|
            entries[choose|i: int| 0 <= i < entries.len() && (#[trigger] entries[i]).key() == key].value(),
    )
}

proof fn lemma_entry_in_map(entries: Seq<CacheEntry>, i: int)
    requires
        distinct_keys(entries),
        0 <= i < entries.len(),
    ensures
        entries_map(entries).dom().contains(entries[i].key()),
        entries_map(entries)[entries[i].key()] == entries[i].value(),
{
    let key = entries[i].key();
    assert(has_key(entries, key));
    let j = choose|j: int| 0 <= j < entries.len() && (#[trigger] entries[j]).key() == key;
    assert(j == i);
}

proof fn lemma_push_is_insert(entries: Seq<CacheEntry>, entry: CacheEntry)
    requires
        distinct_keys(entries),
        !has_key(entries, entry.key()),
    ensures
        distinct_keys(entries.push(entry)),
        entries_map(entries.push(entry)) == entries_map(entries).insert(entry.key(), entry.value()),
{
    let longer = entries.push(entry);
    assert forall|i: int, j: int| 0 <= i < j < longer.len() implies (#[trigger] longer[i]).key() != (
    #[trigger] longer[j]).key() by {
        if j == entries.len() {
            assert(entries[i].key() != entry.key());
        } else {
            assert(entries[i].key() != entries[j].key());
        }
    }
    let left = entries_map(longer);
    let right = entries_map(entries).insert(entry.key(), entry.value());
    assert forall|key: Seq<char>| left.dom().contains(key) <==> right.dom().contains(key) by {
        if has_key(longer, key) {
            let i = choose|i: int| 0 <= i < longer.len() && (#[trigger] longer[i]).key() == key;
            if i < entries.len() {
                assert(entries[i].key() == key);
            }
        }
        if has_key(entries, key) {
            let i = choose|i: int| 0 <= i < entries.len() && (#[trigger] entries[i]).key() == key;
            assert(longer[i].key() == key);
        }
        if key == entry.key() {
            assert(longer[entries.len() as int].key() == key);
        }
    }
    assert forall|key: Seq<char>| left.dom().contains(key) implies left[key] == right[key] by {
        let i = choose|i: int| 0 <= i < longer.len() && (#[trigger] longer[i]).key() == key;
        lemma_entry_in_map(longer, i);
        if i < entries.len() {
            lemma_entry_in_map(entries, i);
        }
    }
    assert(left =~= right);
}

proof fn lemma_update_is_insert(entries: Seq<CacheEntry>, at: int, entry: CacheEntry)
    requires
        distinct_keys(entries),
        0 <= at < entries.len(),
        entries[at].key() == entry.key(),
    ensures
        distinct_keys(entries.update(at, entry)),
        entries_map(entries.update(at, entry)) == entries_map(entries).insert(entry.key(), entry.value()),
{
    let changed = entries.update(at, entry);
    assert forall|i: int, j: int| 0 <= i < j < changed.len() implies (#[trigger] changed[i]).key() != (
    #[trigger] changed[j]).key() by {
        assert(entries[i].key() != entries[j].key());
    }
    let left = entries_map(changed);
    let right = entries_map(entries).insert(entry.key(), entry.value());
    assert forall|key: Seq<char>| left.dom().contains(key) <==> right.dom().contains(key) by {
        if has_key(changed, key) {
            let i = choose|i: int| 0 <= i < changed.len() && (#[trigger] changed[i]).key() == key;
            assert(entries[i].key() == key);
        }
        if has_key(entries, key) {
            let i = choose|i: int| 0 <= i < entries.len() && (#[trigger] entries[i]).key() == key;
            assert(changed[i].key() == key);
        }
        if key == entry.key() {
            assert(changed[at].key() == key);
        }
    }
    assert forall|key: Seq<char>| left.dom().contains(key) implies left[key] == right[key] by {
        let i = choose|i: int| 0 <= i < changed.len() && (#[trigger] changed[i]).key() == key;
        lemma_entry_in_map(changed, i);
        if i != at {
            lemma_entry_in_map(entries, i);
        }
    }
    assert(left =~= right);
}

/// The entries of `entries` that are fresh at `now`, last one first.
spec fn fresh_entries(entries: Seq<CacheEntry>, now: nat) -> Seq<CacheEntry>
    decreases entries.len(),
{
    if entries.len() == 0 {
        Seq::empty()
    } else if is_fresh(entries[0].value().written, now) {
        fresh_entries(entries.drop_first(), now).push(entries[0])
    } else {
        fresh_entries(entries.drop_first(), now)
    }
}

proof fn lemma_prepend_is_insert(entries: Seq<CacheEntry>)
    requires
        distinct_keys(entries),
        entries.len() > 0,
    ensures
        distinct_keys(entries.drop_first()),
        !has_key(entries.drop_first(), entries[0].key()),
        entries_map(entries) == entries_map(entries.drop_first()).insert(
            entries[0].key(),
            entries[0].value(),
        ),
{
    let tail = entries.drop_first();
    assert forall|i: int, j: int| 0 <= i < j < tail.len() implies (#[trigger] tail[i]).key() != (
    #[trigger] tail[j]).key() by {
        assert(entries[i + 1].key() != entries[j + 1].key());
    }
    if has_key(tail, entries[0].key()) {
        let i = choose|i: int| 0 <= i < tail.len() && (#[trigger] tail[i]).key() == entries[0].key();
        assert(entries[0].key() != entries[i + 1].key());
    }
    let left = entries_map(entries);
    let right = entries_map(tail).insert(entries[0].key(), entries[0].value());
    assert forall|key: Seq<char>| left.dom().contains(key) <==> right.dom().contains(key) by {
        if has_key(entries, key) {
            let i = choose|i: int| 0 <= i < entries.len() && (#[trigger] entries[i]).key() == key;
            if i > 0 {
                assert(tail[i - 1].key() == key);
            }
        }
        if has_key(tail, key) {
            let i = choose|i: int| 0 <= i < tail.len() && (#[trigger] tail[i]).key() == key;
            assert(entries[i + 1].key() == key);
        }
        if key == entries[0].key() {
            assert(entries[0].key() == key);
        }
    }
    assert forall|key: Seq<char>| left.dom().contains(key) implies left[key] == right[key] by {
        let i = choose|i: int| 0 <= i < entries.len() && (#[trigger] entries[i]).key() == key;
        lemma_entry_in_map(entries, i);
        if i > 0 {
            assert(tail[i - 1] == entries[i]);
            lemma_entry_in_map(tail, i - 1);
        }
    }
    assert(left =~= right);
}

proof fn lemma_fresh_is_swept(entries: Seq<CacheEntry>, now: nat)
    requires
        distinct_keys(entries),
    ensures
        distinct_keys(fresh_entries(entries, now)),
        entries_map(fresh_entries(entries, now)) == swept(entries_map(entries), now),
    decreases entries.len(),
{
    if entries.len() == 0 {
        assert(entries_map(fresh_entries(entries, now)) =~= swept(entries_map(entries), now));
    } else {
        let head = entries[0];
        let tail = entries.drop_first();
        lemma_prepend_is_insert(entries);
        lemma_fresh_is_swept(tail, now);
        let kept = fresh_entries(tail, now);
        if is_fresh(head.value().written, now) {
            assert(!entries_map(kept).dom().contains(head.key()));
            lemma_push_is_insert(kept, head);
            assert(swept(entries_map(tail), now).insert(head.key(), head.value()) =~= swept(
                entries_map(tail).insert(head.key(), head.value()),
                now,
            ));
        } else {
            assert(swept(entries_map(tail), now) =~= swept(
                entries_map(tail).insert(head.key(), head.value()),
                now,
            ));
        }
    }
}

/// A store of texts under text keys in which an entry can be read for 24
/// hours after it was written. Expired entries are swept out by every call
/// that changes the store; `contains_key` neither sweeps nor looks at the clock.
pub struct CacheManager {
    cache: Vec<CacheEntry>,
}

impl View for CacheManager {
    type V = Map<Seq<char>, CachedValue>;

    closed spec fn view(&self) -> Map<Seq<char>, CachedValue> {
        entries_map(self.cache@)
    }
}

impl CacheManager {
    #[verifier::type_invariant]
    spec fn well_formed(&self) -> bool {
        distinct_keys(self.cache@)
    }

    pub fn new() -> (cache: Self)
        ensures
            cache@ == Map::<Seq<char>, CachedValue>::empty(),
    {
        let cache = CacheManager { cache: Vec::new() };
        assert(cache@ =~= Map::<Seq<char>, CachedValue>::empty());
        cache
    }

    /// Where the entry under `key` stands, if there is one.
    fn position(&self, key: &str) -> (found: Option<usize>)
        ensures
            match found {
                Some(i) => i < self.cache@.len() && self.cache@[i as int].key() == key@,
                None => !has_key(self.cache@, key@),
            },
    {
        let wanted = key.to_owned();
        let mut i: usize = 0;
        while i < self.cache.len()
            invariant
                i <= self.cache@.len(),
                wanted@ == key@,
                forall|j: int| 0 <= j < i ==> (#[trigger] self.cache@[j]).key() != key@,
            decreases self.cache@.len() - i,
        {
            if self.cache[i].key == wanted {
                return Some(i);
            }
            i += 1;
        }
        None
    }

    /// Whether an entry stands under `key` that can still be read at `now`.
    /// Nothing is swept.
    pub fn is_entry_valid(&self, key: &str, now: u128) -> (valid: bool)
        ensures
            valid == (self@.dom().contains(key@) && is_fresh(self@[key@].written, now as nat)),
    {
        proof {
            use_type_invariant(self);
        }
        match self.position(key) {
            Some(at) => {
                proof {
                    lemma_entry_in_map(self.cache@, at as int);
                }
                Self::is_fresh_at(&self.cache[at], now)
            },
            None => false,
        }
    }

    /// Whether `entry` can still be read at `now`.
    fn is_fresh_at(entry: &CacheEntry, now: u128) -> (fresh: bool)
        ensures
            fresh == is_fresh(entry.value().written, now as nat),
    {
        entry.timestamp <= now && now - entry.timestamp <= CACHE_TIMEOUT_NANOS
    }

    /// Sweeps out every entry that is not fresh at `now`.
    pub fn cleanup(&mut self, now: u128)
        ensures
            final(self)@ == swept(old(self)@, now as nat),
    {
        proof {
            use_type_invariant(&*self);
        }
        let ghost all = self.cache@;
        let mut rest: Vec<CacheEntry> = Vec::new();
        std::mem::swap(&mut self.cache, &mut rest);
        let mut kept: Vec<CacheEntry> = Vec::new();
        while rest.len() > 0
            invariant
                rest@.len() <= all.len(),
                rest@ == all.take(rest@.len() as int),
                kept@ == fresh_entries(all.skip(rest@.len() as int), now as nat),
            decreases rest@.len(),
        {
            let entry = rest.pop().unwrap();
            let ghost at = rest@.len() as int;
            assert(all.skip(at).drop_first() =~= all.skip(at + 1));
            assert(rest@ =~= all.take(at));
            if Self::is_fresh_at(&entry, now) {
                kept.push(entry);
            }
        }
        proof {
            assert(all.skip(0) =~= all);
            lemma_fresh_is_swept(all, now as nat);
        }
        self.cache = kept;
    }

    /// Stores `data` under `key` as written at `now`, replacing what stood
    /// under the key, and sweeps the cache.
    pub fn set_at(&mut self, key: &str, data: String, now: u128) -> (stored: Result<(), UtilError>)
        ensures
            stored is Ok,
            final(self)@ == after_set(old(self)@, key@, data@, now as nat),
    {
        proof {
            use_type_invariant(&*self);
        }
        let entry = CacheEntry { key: key.to_owned(), data, timestamp: now };
        let found = self.position(key);
        let mut entries: Vec<CacheEntry> = Vec::new();
        std::mem::swap(&mut self.cache, &mut entries);
        match found {
            Some(at) => {
                proof {
                    lemma_update_is_insert(entries@, at as int, entry);
                }
                entries.set(at, entry);
            },
            None => {
                proof {
                    lemma_push_is_insert(entries@, entry);
                }
                entries.push(entry);
            },
        }
        self.cache = entries;
        self.cleanup(now);
        Ok(())
    }

    /// Sweeps the cache at `now` and returns the text under `key`, if an
    /// entry is left there.
    pub fn get_at(&mut self, key: &str, now: u128) -> (found: Option<String>)
        ensures
            final(self)@ == swept(old(self)@, now as nat),
            match found {
                Some(data) => lookup(old(self)@, key@, now as nat) == Some(data@),
                None => lookup(old(self)@, key@, now as nat) is None,
            },
            found is Some <==> old(self)@.dom().contains(key@) && is_fresh(
                old(self)@[key@].written,
                now as nat,
            ),
    {
        self.cleanup(now);
        proof {
            use_type_invariant(&*self);
        }
        match self.position(key) {
            Some(at) => {
                proof {
                    lemma_entry_in_map(self.cache@, at as int);
                }
                Some(self.cache[at].data.clone())
            },
            None => None,
        }
    }

    /// Stores `data` under `key` as written now, by the wall clock.
    pub fn set(&mut self, key: &str, data: String) -> (stored: Result<(), UtilError>)
        ensures
            stored is Ok,
            exists|now: nat| final(self)@ == #[trigger] after_set(old(self)@, key@, data@, now),
    {
        let now: u128 = unix_nanos();
        self.set_at(key, data, now)
    }

    /// Sweeps the cache by the wall clock and returns the text under `key`,
    /// if an entry is left there.
    pub fn get(&mut self, key: &str) -> (found: Option<String>)
        ensures
            exists|now: nat|
                {
                    &&& final(self)@ == #[trigger] swept(old(self)@, now)
                    &&& match found {
                        Some(data) => lookup(old(self)@, key@, now) == Some(data@),
                        None => lookup(old(self)@, key@, now) is None,
                    }
                },
    {
        let now: u128 = unix_nanos();
        self.get_at(key, now)
    }

    /// Whether an entry stands under `key`. Nothing is swept and the clock
    /// is not read, so an entry that has expired since the last sweep is
    /// still reported: the answer can be a stale yes, never a wrong no.
    pub fn contains_key(&self, key: &str) -> (present: bool)
        ensures
            present == self@.dom().contains(key@),
    {
        self.position(key).is_some()
    }
}

/// A text stored under a key is what a later read of that key returns,
/// as long as the read comes no more than the timeout after the write.
pub proof fn lemma_get_returns_what_set_stored(
    cache: Map<Seq<char>, CachedValue>,
    key: Seq<char>,
    data: Seq<char>,
    written: nat,
    now: nat,
)
    requires
        written <= now,
        now - written <= CACHE_TIMEOUT_NANOS,
    ensures
        lookup(after_set(cache, key, data, written), key, now) == Some(data),
{
    let stored = cache.insert(key, CachedValue { data, written });
    assert(swept(stored, written).dom().contains(key));
    assert(swept(after_set(cache, key, data, written), now).dom().contains(key));
}

/// An entry written more than the timeout before a read is absent to that
/// read, and the sweep that the read makes removes it.
pub proof fn lemma_expired_entry_is_gone(cache: Map<Seq<char>, CachedValue>, key: Seq<char>, now: nat)
    requires
        cache.dom().contains(key),
        cache[key].written + CACHE_TIMEOUT_NANOS < now,
    ensures
        lookup(cache, key, now) is None,
        !swept(cache, now).dom().contains(key),
{
}

/// A sweep removes nothing that is fresh and keeps nothing that is not.
pub proof fn lemma_sweep_keeps_the_fresh(cache: Map<Seq<char>, CachedValue>, key: Seq<char>, now: nat)
    ensures
        swept(cache, now).dom().contains(key) <==> cache.dom().contains(key) && is_fresh(
            cache[key].written,
            now,
        ),
        swept(cache, now).dom().contains(key) ==> swept(cache, now)[key] == cache[key],
{
}

/// Checks what comes from outside before it is used.
pub struct Validator;

/// The outcome of a validation: success where there is no fault, else the
/// error `InvalidInput` that carries the fault's message.
pub open spec fn reports(outcome: Result<(), UtilError>, fault: Option<Seq<char>>) -> bool {
    match outcome {
        Ok(_) => fault is None,
        Err(error) => error matches UtilError::InvalidInput(message) && fault == Some(message@),
    }
}

/// A user name may hold alphanumeric characters and the underscore.
pub open spec fn username_char_ok(c: char) -> bool {
    char_is_alphanumeric(c) || c == '_'
}

/// What is wrong with a user name, if anything: it is empty or longer than
/// 15 bytes, or else holds a character that a user name may not hold.
pub open spec fn username_fault(username: Seq<char>) -> Option<Seq<char>> {
    if username.len() == 0 || byte_len(username) > 15 {
        Some("Invalid username length"@)
    } else if exists|i: int| 0 <= i < username.len() && !username_char_ok(#[trigger] username[i]) {
        Some("Invalid username characters"@)
    } else {
        None
    }
}

/// What is wrong with a URL, if anything: it is empty or longer than 2048
/// bytes, or else does not begin with `http` or holds no dot.
pub open spec fn url_fault(url: Seq<char>) -> Option<Seq<char>> {
    if url.len() == 0 || byte_len(url) > 2048 {
        Some("Invalid URL length"@)
    } else if !"http"@.is_prefix_of(url) || !url.contains('.') {
        Some("Invalid URL format"@)
    } else {
        None
    }
}

/// A keyword may hold alphanumeric characters, white space and the hyphen.
pub open spec fn keyword_char_ok(c: char) -> bool {
    char_is_alphanumeric(c) || char_is_whitespace(c) || c == '-'
}

/// What is wrong with one keyword, if anything: it is empty or longer than
/// 30 bytes, or else holds a character that a keyword may not hold.
pub open spec fn keyword_fault(keyword: Seq<char>) -> Option<Seq<char>> {
    if keyword.len() == 0 || byte_len(keyword) > 30 {
        Some("Invalid keyword length"@)
    } else if exists|i: int| 0 <= i < keyword.len() && !keyword_char_ok(#[trigger] keyword[i]) {
        Some("Invalid keyword characters"@)
    } else {
        None
    }
}

/// The fault of the first keyword that has one.
pub open spec fn first_keyword_fault(keywords: Seq<Seq<char>>) -> Option<Seq<char>>
    decreases keywords.len(),
{
    if keywords.len() == 0 {
        None
    } else if keyword_fault(keywords[0]) is Some {
        keyword_fault(keywords[0])
    } else {
        first_keyword_fault(keywords.drop_first())
    }
}

/// What is wrong with a list of keywords, if anything: it is empty or holds
/// more than 5, or else one of them has a fault.
pub open spec fn keywords_fault(keywords: Seq<Seq<char>>) -> Option<Seq<char>> {
    if keywords.len() == 0 || keywords.len() > 5 {
        Some("Invalid number of keywords"@)
    } else {
        first_keyword_fault(keywords)
    }
}

/// A list of keywords has no fault exactly when it holds between one and
/// five keywords and none of them has a fault.
pub proof fn lemma_keywords_without_fault(keywords: Seq<Seq<char>>)
    ensures
        keywords_fault(keywords) is None <==> 1 <= keywords.len() <= 5 && forall|i: int|
            0 <= i < keywords.len() ==> keyword_fault(#[trigger] keywords[i]) is None,
{
    lemma_first_keyword_fault(keywords);
}

proof fn lemma_first_keyword_fault(keywords: Seq<Seq<char>>)
    ensures
        first_keyword_fault(keywords) is None <==> forall|i: int|
            0 <= i < keywords.len() ==> keyword_fault(#[trigger] keywords[i]) is None,
    decreases keywords.len(),
{
    if keywords.len() > 0 {
        let tail = keywords.drop_first();
        lemma_first_keyword_fault(tail);
        if first_keyword_fault(keywords) is None {
            assert forall|i: int| 0 <= i < keywords.len() implies keyword_fault(
                #[trigger] keywords[i],
            ) is None by {
                if i > 0 {
                    assert(tail[i - 1] == keywords[i]);
                }
            }
        } else if keyword_fault(keywords[0]) is None {
            let i = choose|i: int| 0 <= i < tail.len() && !(keyword_fault(#[trigger] tail[i]) is None);
            assert(keywords[i + 1] == tail[i]);
        }
    }
}

fn invalid_input(message: &str) -> (outcome: Result<(), UtilError>)
    ensures
        reports(outcome, Some(message@)),
{
    Err(UtilError::InvalidInput(message.to_owned()))
}

impl Validator {
    pub fn validate_username(username: &str) -> (outcome: Result<(), UtilError>)
        ensures
            reports(outcome, username_fault(username@)),
    {
        if username.is_empty() || byte_length(username) > 15 {
            return invalid_input("Invalid username length");
        }
        let chars = chars_of(username);
        let mut i: usize = 0;
        while i < chars.len()
            invariant
                i <= chars@.len(),
                chars@ == username@,
                username@.len() != 0 && byte_len(username@) <= 15,
                forall|j: int| 0 <= j < i ==> username_char_ok(#[trigger] chars@[j]),
            decreases chars@.len() - i,
        {
            let c = chars[i];
            if !(is_alphanumeric(c) || c == '_') {
                return invalid_input("Invalid username characters");
            }
            i += 1;
        }
        Ok(())
    }

    pub fn validate_url(url: &str) -> (outcome: Result<(), UtilError>)
        ensures
            reports(outcome, url_fault(url@)),
    {
        if url.is_empty() || byte_length(url) > 2048 {
            return invalid_input("Invalid URL length");
        }
        let chars = chars_of(url);
        let scheme = chars_of("http");
        if !has_prefix(chars.as_slice(), scheme.as_slice()) || !contains_char(chars.as_slice(), '.') {
            return invalid_input("Invalid URL format");
        }
        Ok(())
    }

    /// The fault of one keyword, as a message, if it has one.
    fn keyword_message(keyword: &str) -> (message: Option<&'static str>)
        ensures
            match message {
                Some(text) => keyword_fault(keyword@) == Some(text@),
                None => keyword_fault(keyword@) is None,
            },
    {
        if keyword.is_empty() || byte_length(keyword) > 30 {
            return Some("Invalid keyword length");
        }
        let chars = chars_of(keyword);
        let mut i: usize = 0;
        while i < chars.len()
            invariant
                i <= chars@.len(),
                chars@ == keyword@,
                keyword@.len() != 0 && byte_len(keyword@) <= 30,
                forall|j: int| 0 <= j < i ==> keyword_char_ok(#[trigger] chars@[j]),
            decreases chars@.len() - i,
        {
            let c = chars[i];
            if !(is_alphanumeric(c) || is_whitespace(c) || c == '-') {
                return Some("Invalid keyword characters");
            }
            i += 1;
        }
        None
    }

    pub fn validate_keywords(keywords: &[String]) -> (outcome: Result<(), UtilError>)
        ensures
            reports(outcome, keywords_fault(keywords.deep_view())),
    {
        if keywords.len() == 0 || keywords.len() > 5 {
            return invalid_input("Invalid number of keywords");
        }
        let ghost all = keywords.deep_view();
        assert(all.skip(0) =~= all);
        let mut i: usize = 0;
        while i < keywords.len()
            invariant
                i <= keywords@.len(),
                1 <= keywords@.len() <= 5,
                all == keywords.deep_view(),
                first_keyword_fault(all) == first_keyword_fault(all.skip(i as int)),
            decreases keywords@.len() - i,
        {
            assert(all.skip(i as int)[0] == keywords@[i as int]@);
            assert(all.skip(i as int).drop_first() =~= all.skip(i + 1));
            match Self::keyword_message(keywords[i].as_str()) {
                Some(message) => {
                    return invalid_input(message);
                },
                None => {},
            }
            i += 1;
        }
        Ok(())
    }
}

/// How the mention source is used: the length of a window in seconds, and
/// the calls that a window allows.
#[derive(Clone, Copy, Debug)]
pub struct TwitterConfig {
    pub rate_limit_window: u64,
    pub max_calls_per_window: usize,
}

/// How pictures are analysed: the confidence that a label needs, as the
/// bits of a single-precision number, and how many labels are kept.
#[derive(Clone, Copy, Debug)]
pub struct VisionConfig {
    pub confidence_threshold: u32,
    pub max_labels: usize,
}

/// How pictures are asked for.
#[derive(Debug)]
pub struct ImageConfig {
    pub size: String,
    pub style: String,
}

/// How stories are asked for: the tokens a story may take, and the
/// sampling temperature as the bits of a single-precision number.
#[derive(Clone, Copy, Debug)]
pub struct StoryConfig {
    pub max_tokens: usize,
    pub temperature: u32,
}

/// The settings of the whole bot.
#[derive(Debug)]
pub struct AppConfig {
    pub twitter: TwitterConfig,
    pub vision: VisionConfig,
    pub image: ImageConfig,
    pub story: StoryConfig,
}

impl Default for AppConfig {
    /// The settings that hold where nothing else is configured: windows of
    /// an hour with 100 calls, four labels of confidence 0.75 or more,
    /// pictures of 512 by 512, stories of 280 tokens at temperature 0.7.
    fn default() -> (config: Self)
        ensures
            config.twitter == (TwitterConfig { rate_limit_window: 3600, max_calls_per_window: 100 }),
            config.vision == (VisionConfig { confidence_threshold: 0x3F40_0000, max_labels: 4 }),
            config.image.size@ == "512x512"@,
            config.image.style@ == "children's book illustration"@,
            config.story == (StoryConfig { max_tokens: 280, temperature: 0x3F33_3333 }),
    {
        AppConfig {
            twitter: TwitterConfig { rate_limit_window: 3600, max_calls_per_window: 100 },
            vision: VisionConfig { confidence_threshold: 0x3F40_0000, max_labels: 4 },
            image: ImageConfig { size: "512x512".to_owned(), style: "children's book illustration".to_owned() },
            story: StoryConfig { max_tokens: 280, temperature: 0x3F33_3333 },
        }
    }
}

/// How many requests were served, and how many of them well.
#[derive(Clone, Copy, Debug)]
pub struct AppMetrics {
    requests: usize,
    successes: usize,
    failures: usize,
}

impl AppMetrics {
    #[verifier::type_invariant]
    spec fn well_formed(&self) -> bool {
        self.successes + self.failures == self.requests
    }

    /// The requests counted so far.
    pub closed spec fn requests_spec(&self) -> nat {
        self.requests as nat
    }

    /// The successful requests counted so far.
    pub closed spec fn successes_spec(&self) -> nat {
        self.successes as nat
    }

    /// The failed requests counted so far.
    pub closed spec fn failures_spec(&self) -> nat {
        self.failures as nat
    }

    pub fn new() -> (metrics: Self)
        ensures
            metrics.requests_spec() == 0,
            metrics.successes_spec() == 0,
            metrics.failures_spec() == 0,
    {
        AppMetrics { requests: 0, successes: 0, failures: 0 }
    }

    /// The requests counted so far: the successes and the failures.
    pub fn requests(&self) -> (count: usize)
        ensures
            count == self.requests_spec(),
            count == self.successes_spec() + self.failures_spec(),
    {
        proof {
            use_type_invariant(self);
        }
        self.requests
    }

    /// The successful requests counted so far.
    pub fn successes(&self) -> (count: usize)
        ensures
            count == self.successes_spec(),
    {
        self.successes
    }

    /// The failed requests counted so far.
    pub fn failures(&self) -> (count: usize)
        ensures
            count == self.failures_spec(),
    {
        self.failures
    }

    /// Counts one request and how it went.
    pub fn record_request(&mut self, success: bool)
        requires
            old(self).requests_spec() < usize::MAX,
        ensures
            final(self).requests_spec() == old(self).requests_spec() + 1,
            final(self).successes_spec() == old(self).successes_spec() + if success { 1nat } else { 0nat },
            final(self).failures_spec() == old(self).failures_spec() + if success { 0nat } else { 1nat },
    {
        proof {
            use_type_invariant(&*self);
        }
        let counted = if success {
            AppMetrics { requests: self.requests + 1, successes: self.successes + 1, failures: self.failures }
        } else {
            AppMetrics { requests: self.requests + 1, successes: self.successes, failures: self.failures + 1 }
        };
        *self = counted;
    }
}

} // verus!
