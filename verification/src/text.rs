use vstd::prelude::*;
use std::collections::hash_map::DefaultHasher;
use std::hash::{Hash, Hasher};
use vstd::std_specs::hash::DefaultHasherAdditionalSpecFns;

verus! {

/// The lower-case form that `str::to_lowercase` gives a text.
pub uninterp spec fn lowercase_of(text: Seq<char>) -> Seq<char>;

/// Calls `str::to_lowercase`. The contract only names the result: the
/// Unicode case tables are not restated here.
#[verifier::external_body]
pub(crate) fn to_lowercase(text: &str) -> (lowered: String)
    ensures
        lowered@ == lowercase_of(text@),
{
    text.to_lowercase()
}

/// Whether `char::is_alphanumeric` holds of a character.
pub uninterp spec fn char_is_alphanumeric(c: char) -> bool;

/// Calls `char::is_alphanumeric`; the contract only names the answer.
#[verifier::external_body]
pub(crate) fn is_alphanumeric(c: char) -> (yes: bool)
    ensures
        yes == char_is_alphanumeric(c),
{
    c.is_alphanumeric()
}

/// Whether `char::is_whitespace` holds of a character.
pub uninterp spec fn char_is_whitespace(c: char) -> bool;

/// Calls `char::is_whitespace`; the contract only names the answer.
#[verifier::external_body]
pub(crate) fn is_whitespace(c: char) -> (yes: bool)
    ensures
        yes == char_is_whitespace(c),
{
    c.is_whitespace()
}

/// Calls `String::push`, which appends one character.
#[verifier::external_body]
pub(crate) fn push_char(text: &mut String, c: char)
    ensures
        final(text)@ == old(text)@.push(c),
{
    text.push(c)
}

/// The number of bytes that a text takes in UTF-8: what `str::len` counts.
pub open spec fn byte_len(text: Seq<char>) -> nat {
    vstd::utf8::encode_utf8(text).len()
}

/// The length of a text in bytes.
pub fn byte_length(text: &str) -> (length: usize)
    ensures
        length == byte_len(text@),
{
    text.as_bytes().len()
}

/// The characters of a text, in order.
pub fn chars_of(text: &str) -> (chars: Vec<char>)
    ensures
        chars@ == text@,
{
    let mut chars: Vec<char> = Vec::new();
    for c in it: text.chars()
        invariant
            chars@ == it.seq().take(it.index() as int),
            it.seq() == text@,
    {
        chars.push(c);
    }
    chars
}

/// The text made of the given characters.
pub fn string_of(chars: &[char]) -> (text: String)
    ensures
        text@ == chars@,
{
    let mut text = String::new();
    let mut i: usize = 0;
    while i < chars.len()
        invariant
            i <= chars.len(),
            text@ == chars@.take(i as int),
        decreases chars.len() - i,
    {
        push_char(&mut text, chars[i]);
        i += 1;
    }
    text
}

/// The characters of `text` from `from` up to `to`.
pub(crate) fn slice_of(text: &[char], from: usize, to: usize) -> (part: Vec<char>)
    requires
        from <= to <= text@.len(),
    ensures
        part@ == text@.subrange(from as int, to as int),
{
    let mut part: Vec<char> = Vec::new();
    let mut i: usize = from;
    while i < to
        invariant
            from <= i <= to <= text@.len(),
            part@ == text@.subrange(from as int, i as int),
        decreases to - i,
    {
        part.push(text[i]);
        assert(part@ =~= text@.subrange(from as int, i + 1));
        i += 1;
    }
    part
}

/// Whether two texts hold the same characters.
pub fn same_text(a: &str, b: &str) -> (same: bool)
    ensures
        same == (a@ == b@),
{
    let left = a.to_owned();
    let right = b.to_owned();
    left == right
}

/// `needle` occurs in `hay` as a run of consecutive characters.
pub open spec fn occurs_in(needle: Seq<char>, hay: Seq<char>) -> bool {
    exists|at: int| occurs_at(needle, hay, at)
}

/// `needle` stands in `hay` at position `at`.
pub open spec fn occurs_at(needle: Seq<char>, hay: Seq<char>, at: int) -> bool {
    0 <= at && at + needle.len() <= hay.len() && hay.subrange(at, at + needle.len()) == needle
}

/// Whether `needle` stands in `hay` at `at`.
pub fn matches_at(needle: &[char], hay: &[char], at: usize) -> (found: bool)
    ensures
        found == occurs_at(needle@, hay@, at as int),
{
    if at > hay.len() || needle.len() > hay.len() - at {
        return false;
    }
    let mut k: usize = 0;
    while k < needle.len()
        invariant
            k <= needle.len(),
            at + needle.len() <= hay.len(),
            forall|j: int| 0 <= j < k ==> hay@[at + j] == needle@[j],
        decreases needle.len() - k,
    {
        if hay[at + k] != needle[k] {
            assert(hay@.subrange(at as int, at + needle.len())[k as int] == hay@[at + k]);
            return false;
        }
        k += 1;
    }
    assert(hay@.subrange(at as int, at + needle.len()) =~= needle@);
    true
}

/// Whether `needle` occurs somewhere in `hay`.
pub fn contains_text(hay: &[char], needle: &[char]) -> (found: bool)
    ensures
        found == occurs_in(needle@, hay@),
{
    if needle.len() > hay.len() {
        return false;
    }
    let last: usize = hay.len() - needle.len();
    let mut at: usize = 0;
    while at < last
        invariant
            last == hay.len() - needle.len(),
            at <= last,
            forall|j: int| 0 <= j < at ==> !occurs_at(needle@, hay@, j),
        decreases last - at,
    {
        if matches_at(needle, hay, at) {
            return true;
        }
        at += 1;
    }
    matches_at(needle, hay, last)
}

/// Whether `text` begins with `prefix`.
pub fn has_prefix(text: &[char], prefix: &[char]) -> (yes: bool)
    ensures
        yes == prefix@.is_prefix_of(text@),
{
    let yes = matches_at(prefix, text, 0);
    proof {
        if prefix@.len() <= text@.len() {
            assert(text@.subrange(0, prefix@.len() as int) =~= text@.take(prefix@.len() as int));
        }
    }
    yes
}

/// Whether `c` is one of the characters of `text`.
pub fn contains_char(text: &[char], c: char) -> (found: bool)
    ensures
        found == text@.contains(c),
{
    let mut i: usize = 0;
    while i < text.len()
        invariant
            i <= text.len(),
            forall|j: int| 0 <= j < i ==> text@[j] != c,
        decreases text.len() - i,
    {
        if text[i] == c {
            return true;
        }
        i += 1;
    }
    false
}

/// The parts written one after another with `separator` between them.
pub open spec fn joined(parts: Seq<Seq<char>>, separator: Seq<char>) -> Seq<char>
    decreases parts.len(),
{
    if parts.len() == 0 {
        Seq::empty()
    } else if parts.len() == 1 {
        parts[0]
    } else {
        joined(parts.drop_last(), separator) + separator + parts.last()
    }
}

/// Writes the parts one after another with `separator` between them.
pub fn join(parts: &[String], separator: &str) -> (text: String)
    ensures
        text@ == joined(parts.deep_view(), separator@),
{
    let mut text = String::new();
    let ghost views = parts.deep_view();
    let mut i: usize = 0;
    while i < parts.len()
        invariant
            i <= parts@.len(),
            views == parts.deep_view(),
            text@ == joined(views.take(i as int), separator@),
        decreases parts@.len() - i,
    {
        assert(views.take(i + 1).drop_last() =~= views.take(i as int));
        assert(views.take(i + 1).last() == parts@[i as int]@);
        if i > 0 {
            text.append(separator);
        }
        text.append(parts[i].as_str());
        proof {
            if i == 0 {
                assert(text@ =~= parts@[0]@);
            }
        }
        i += 1;
    }
    assert(views.take(i as int) =~= views);
    text
}

/// The character that stands for a digit below sixteen: `0` to `9`, then
/// `a` to `f`.
pub open spec fn digit_char(digit: nat) -> char {
    if digit < 10 {
        (48 + digit) as u8 as char
    } else {
        (87 + digit) as u8 as char
    }
}

/// A number written in a base from two to sixteen, without leading zeros.
pub open spec fn digits(number: nat, base: nat) -> Seq<char>
    decreases number,
    via digits_terminates
{
    if base < 2 || number < base {
        seq![digit_char(number)]
    } else {
        digits(number / base, base).push(digit_char(number % base))
    }
}

#[via_fn]
proof fn digits_terminates(number: nat, base: nat) {
    if base >= 2 && number >= base {
        assert(number / base < number) by (nonlinear_arith)
            requires
                base >= 2,
                number >= base,
        ;
    }
}

fn digit_of(digit: u64) -> (c: char)
    requires
        digit < 16,
    ensures
        c == digit_char(digit as nat),
{
    if digit < 10 {
        (48u8 + digit as u8) as char
    } else {
        (87u8 + digit as u8) as char
    }
}

/// Writes a number in a base from two to sixteen.
fn render(number: u64, base: u64) -> (text: String)
    requires
        2 <= base <= 16,
    ensures
        text@ == digits(number as nat, base as nat),
{
    let mut low_first: Vec<char> = Vec::new();
    let mut rest: u64 = number;
    while rest >= base
        invariant
            2 <= base <= 16,
            digits(number as nat, base as nat) == digits(rest as nat, base as nat) + low_first@.reverse(),
        decreases rest,
    {
        let ghost before = low_first@;
        let c = digit_of(rest % base);
        low_first.push(c);
        assert(low_first@.reverse() =~= seq![c] + before.reverse());
        assert(digits(rest as nat, base as nat) + before.reverse() =~= digits(
            (rest / base) as nat,
            base as nat,
        ) + (seq![c] + before.reverse()));
        rest = rest / base;
    }
    let ghost before = low_first@;
    let c = digit_of(rest);
    low_first.push(c);
    assert(low_first@.reverse() =~= seq![c] + before.reverse());
    let mut text = String::new();
    let mut left: usize = low_first.len();
    while left > 0
        invariant
            left <= low_first@.len(),
            text@ == low_first@.reverse().take(low_first@.len() - left),
        decreases left,
    {
        left -= 1;
        push_char(&mut text, low_first[left]);
        assert(text@ =~= low_first@.reverse().take(low_first@.len() - left));
    }
    assert(low_first@.reverse().take(low_first@.len() as int) =~= low_first@.reverse());
    text
}

/// Writes a number in decimal, as `{}` formats it.
pub fn decimal(number: u64) -> (text: String)
    ensures
        text@ == digits(number as nat, 10),
{
    render(number, 10)
}

/// Writes a number in lower-case hexadecimal, as `{:x}` formats it.
pub fn lower_hex(number: u64) -> (text: String)
    ensures
        text@ == digits(number as nat, 16),
{
    render(number, 16)
}

/// A text with leading and trailing white space removed.
pub open spec fn trimmed(text: Seq<char>) -> Seq<char> {
    trimmed_end(trimmed_start(text))
}

/// A text without its leading white space.
pub open spec fn trimmed_start(text: Seq<char>) -> Seq<char>
    decreases text.len(),
{
    if text.len() > 0 && char_is_whitespace(text[0]) {
        trimmed_start(text.drop_first())
    } else {
        text
    }
}

/// A text without its trailing white space.
pub open spec fn trimmed_end(text: Seq<char>) -> Seq<char>
    decreases text.len(),
{
    if text.len() > 0 && char_is_whitespace(text.last()) {
        trimmed_end(text.drop_last())
    } else {
        text
    }
}

/// Removes leading and trailing white space, as `str::trim` does.
pub fn trim(text: &[char]) -> (kept: Vec<char>)
    ensures
        kept@ == trimmed(text@),
{
    let mut start: usize = 0;
    assert(text@.skip(0) =~= text@);
    while start < text.len() && is_whitespace(text[start])
        invariant
            start <= text@.len(),
            trimmed_start(text@) == trimmed_start(text@.skip(start as int)),
        decreases text@.len() - start,
    {
        assert(text@.skip(start as int).drop_first() =~= text@.skip(start + 1));
        start += 1;
    }
    let ghost body = text@.skip(start as int);
    assert(trimmed_start(text@) == body);
    let mut end: usize = text.len();
    assert(body.take(body.len() as int) =~= body);
    while end > start && is_whitespace(text[end - 1])
        invariant
            start <= end <= text@.len(),
            body == text@.skip(start as int),
            trimmed_end(body) == trimmed_end(body.take(end - start)),
        decreases end,
    {
        assert(body.take(end - start).last() == text@[end - 1]);
        assert(body.take(end - start).drop_last() =~= body.take(end - 1 - start));
        end -= 1;
    }
    proof {
        let left = body.take(end - start);
        if left.len() > 0 {
            assert(left.last() == text@[end - 1]);
        }
        assert(trimmed_end(left) == left);
    }
    let kept = slice_of(text, start, end);
    assert(text@.subrange(start as int, end as int) =~= body.take(end - start));
    kept
}

/// The writes that hashing a text makes on a hasher.
pub uninterp spec fn hash_writes(text: Seq<char>) -> Seq<Seq<u8>>;

/// Calls `Hash::hash` of `str` on a `DefaultHasher`. The contract names
/// what the call writes to the hasher: the text alone decides it.
#[verifier::external_body]
fn hash_text(text: &str, state: &mut DefaultHasher)
    ensures
        final(state)@ == old(state)@ + hash_writes(text@),
{
    text.hash(state)
}

/// The key under which what was made from the given keywords is cached:
/// the prefix, then the hash of the keywords joined by hyphens, in
/// hexadecimal.
pub open spec fn key_of(prefix: Seq<char>, keywords: Seq<Seq<char>>) -> Seq<char> {
    prefix + digits(DefaultHasher::spec_finish(hash_writes(joined(keywords, "-"@))) as nat, 16)
}

/// Makes the cache key for the given keywords under a prefix.
pub fn hashed_key(prefix: &str, keywords: &[String]) -> (key: String)
    ensures
        key@ == key_of(prefix@, keywords.deep_view()),
{
    let mut hasher = DefaultHasher::new();
    let joined_keywords = join(keywords, "-");
    hash_text(joined_keywords.as_str(), &mut hasher);
    assert(hasher@ =~= hash_writes(joined_keywords@));
    let hash: u64 = hasher.finish();
    let mut key = prefix.to_owned();
    key.append(lower_hex(hash).as_str());
    key
}

} // verus!
