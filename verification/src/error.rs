//! The library's error type and the small validation helpers that produce it.

use vstd::prelude::*;
use vstd::string::*;

use vstd::utf8::*;

use crate::text::{
    byte_len, concat2, decimal, first_byte_occurrence, owned, piece, str_find, str_trim, trim_ws,
    usize_to_string,
};

verus! {

/// Unified error type for the application.
///
/// Errors raised by outside crates (the database, HTTP, JSON, the file
/// system, image decoding) are carried by their rendered message, so the
/// library can talk about them without holding the outside types.
#[derive(Debug, Clone, PartialEq, Eq)]
pub enum MythicError {
    Database(String),
    DatabaseOp(String),
    Http(String),
    Serialization(String),
    Io(String),
    Image(String),
    Provider(String),
    Validation(String),
    NotFound(String),
    Config(String),
    Cancelled,
}

/// The wire code of each error kind (the `error` field of the IPC payload).
pub open spec fn error_code(e: MythicError) -> Seq<char> {
    match e {
        MythicError::Database(_) => "database"@,
        MythicError::DatabaseOp(_) => "database_op"@,
        MythicError::Http(_) => "http"@,
        MythicError::Serialization(_) => "serialization"@,
        MythicError::Io(_) => "io"@,
        MythicError::Image(_) => "image"@,
        MythicError::Provider(_) => "provider"@,
        MythicError::Validation(_) => "validation"@,
        MythicError::NotFound(_) => "not_found"@,
        MythicError::Config(_) => "config"@,
        MythicError::Cancelled => "cancelled"@,
    }
}

/// The human-readable rendering of each error (the `message` field).
pub open spec fn error_message(e: MythicError) -> Seq<char> {
    match e {
        MythicError::Database(m) => "Database error: "@ + m@,
        MythicError::DatabaseOp(m) => "Database operation failed: "@ + m@,
        MythicError::Http(m) => "HTTP request error: "@ + m@,
        MythicError::Serialization(m) => "Serialization error: "@ + m@,
        MythicError::Io(m) => "IO error: "@ + m@,
        MythicError::Image(m) => "Image processing error: "@ + m@,
        MythicError::Provider(m) => "Provider error: "@ + m@,
        MythicError::Validation(m) => "Validation error: "@ + m@,
        MythicError::NotFound(m) => "Not found: "@ + m@,
        MythicError::Config(m) => "Configuration error: "@ + m@,
        MythicError::Cancelled => "Cancelled"@,
    }
}

impl MythicError {
    /// The wire code of this error kind.
    pub fn code(&self) -> (r: String)
        ensures
            r@ == error_code(*self),
    {
        match self {
            MythicError::Database(_) => owned("database"),
            MythicError::DatabaseOp(_) => owned("database_op"),
            MythicError::Http(_) => owned("http"),
            MythicError::Serialization(_) => owned("serialization"),
            MythicError::Io(_) => owned("io"),
            MythicError::Image(_) => owned("image"),
            MythicError::Provider(_) => owned("provider"),
            MythicError::Validation(_) => owned("validation"),
            MythicError::NotFound(_) => owned("not_found"),
            MythicError::Config(_) => owned("config"),
            MythicError::Cancelled => owned("cancelled"),
        }
    }

    /// The human-readable message of this error.
    pub fn message(&self) -> (r: String)
        ensures
            r@ == error_message(*self),
    {
        match self {
            MythicError::Database(m) => concat2("Database error: ", m.as_str()),
            MythicError::DatabaseOp(m) => concat2("Database operation failed: ", m.as_str()),
            MythicError::Http(m) => concat2("HTTP request error: ", m.as_str()),
            MythicError::Serialization(m) => concat2("Serialization error: ", m.as_str()),
            MythicError::Io(m) => concat2("IO error: ", m.as_str()),
            MythicError::Image(m) => concat2("Image processing error: ", m.as_str()),
            MythicError::Provider(m) => concat2("Provider error: ", m.as_str()),
            MythicError::Validation(m) => concat2("Validation error: ", m.as_str()),
            MythicError::NotFound(m) => concat2("Not found: ", m.as_str()),
            MythicError::Config(m) => concat2("Configuration error: ", m.as_str()),
            MythicError::Cancelled => owned("Cancelled"),
        }
    }
}

/// The message of a too-long field: `"{field} is too long ({len} chars, max {max})"`.
pub open spec fn too_long_message(field: Seq<char>, len: nat, max: nat) -> Seq<char> {
    field + " is too long ("@ + decimal(len) + " chars, max "@ + decimal(max) + ")"@
}

/// Validates that a string field doesn't exceed `max_len` bytes (`str::len`).
pub fn validate_string_length(field: &str, value: &str, max_len: usize) -> (r: Result<(), MythicError>)
    ensures
        value.len() <= max_len ==> r is Ok,
        value.len() > max_len ==> (r matches Err(MythicError::Validation(m)) && m@
            == too_long_message(field@, value.len() as nat, max_len as nat)),
{
    if value.len() > max_len {
        let mut msg = owned(field);
        msg.append(" is too long (");
        let len_text = usize_to_string(value.len());
        msg.append(len_text.as_str());
        msg.append(" chars, max ");
        let max_text = usize_to_string(max_len);
        msg.append(max_text.as_str());
        msg.append(")");
        Err(MythicError::Validation(msg))
    } else {
        Ok(())
    }
}

/// The message of an empty required field: `"{field} cannot be empty"`.
pub open spec fn empty_field_message(field: Seq<char>) -> Seq<char> {
    field + " cannot be empty"@
}

/// Validates that a required string field is not empty (after trimming
/// whitespace) and that its trimmed form is at most `max_len` bytes.
pub fn validate_required_string(field: &str, value: &str, max_len: usize) -> (r: Result<(), MythicError>)
    ensures
        trim_ws(value@).len() == 0 ==> (r matches Err(MythicError::Validation(m)) && m@
            == empty_field_message(field@)),
        trim_ws(value@).len() > 0 && encode_utf8(trim_ws(value@)).len() <= max_len ==> r is Ok,
        trim_ws(value@).len() > 0 && encode_utf8(trim_ws(value@)).len() > max_len ==> (r matches Err(
            MythicError::Validation(m),
        ) && m@ == too_long_message(field@, encode_utf8(trim_ws(value@)).len(), max_len as nat)),
{
    let trimmed = str_trim(value);
    if trimmed.is_empty() {
        return Err(MythicError::Validation(concat2(field, " cannot be empty")));
    }
    // `str::len` of the trimmed text is its UTF-8 byte count.
    let _trimmed_bytes = byte_len(trimmed);
    validate_string_length(field, trimmed, max_len)
}

/// Whether `end` is the largest character boundary of `bytes` that is at most `max`.
pub open spec fn is_last_boundary_at_most(bytes: Seq<u8>, end: int, max: int) -> bool {
    &&& 0 <= end <= max
    &&& is_char_boundary(bytes, end)
    &&& forall|k: int| end < k <= max ==> !is_char_boundary(bytes, k)
}

/// Whether `start` is the smallest character boundary of `bytes` that is at least `min`.
pub open spec fn is_first_boundary_at_least(bytes: Seq<u8>, start: int, min: int) -> bool {
    &&& min <= start <= bytes.len()
    &&& is_char_boundary(bytes, start)
    &&& forall|k: int| min <= k < start ==> !is_char_boundary(bytes, k)
}

/// The largest character boundary of `bytes` that is at most `max`.
pub open spec fn last_boundary_at_most(bytes: Seq<u8>, max: int) -> int {
    choose|end: int| is_last_boundary_at_most(bytes, end, max)
}

/// The smallest character boundary of `bytes` that is at least `min`.
pub open spec fn first_boundary_at_least(bytes: Seq<u8>, min: int) -> int {
    choose|start: int| is_first_boundary_at_least(bytes, start, min)
}

/// `s` cut to its first `max` bytes, backing off to a character boundary.
pub open spec fn truncated_head(s: Seq<char>, max: nat) -> Seq<char> {
    if encode_utf8(s).len() <= max {
        s
    } else {
        piece(s, 0, last_boundary_at_most(encode_utf8(s), max as int))
    }
}

/// The last `max` bytes of `s`, moving forward to a character boundary.
pub open spec fn truncated_tail(s: Seq<char>, max: nat) -> Seq<char> {
    let len = encode_utf8(s).len() as int;
    if len <= max {
        s
    } else {
        piece(s, first_boundary_at_least(encode_utf8(s), len - max), len)
    }
}

proof fn lemma_last_boundary_unique(bytes: Seq<u8>, end: int, max: int)
    requires
        is_last_boundary_at_most(bytes, end, max),
    ensures
        last_boundary_at_most(bytes, max) == end,
{
    let c = last_boundary_at_most(bytes, max);
    assert(is_last_boundary_at_most(bytes, c, max));
    if c < end {
        assert(!is_char_boundary(bytes, end));
    } else if c > end {
        assert(!is_char_boundary(bytes, c));
    }
}

proof fn lemma_first_boundary_unique(bytes: Seq<u8>, start: int, min: int)
    requires
        is_first_boundary_at_least(bytes, start, min),
    ensures
        first_boundary_at_least(bytes, min) == start,
{
    let c = first_boundary_at_least(bytes, min);
    assert(is_first_boundary_at_least(bytes, c, min));
    if c < start {
        assert(!is_char_boundary(bytes, c));
    } else if c > start {
        assert(!is_char_boundary(bytes, start));
    }
}

/// Truncates `s` to at most `max_bytes` bytes, backing off to the nearest
/// preceding UTF-8 character boundary rather than landing mid-character.
pub fn truncate_at_char_boundary(s: &str, max_bytes: usize) -> (r: &str)
    ensures
        r@ == truncated_head(s@, max_bytes as nat),
        s.spec_bytes().len() <= max_bytes ==> r@ == s@,
        s.spec_bytes().len() > max_bytes ==> {
            &&& is_last_boundary_at_most(s.spec_bytes(), r.spec_bytes().len() as int, max_bytes as int)
            &&& r.spec_bytes() == s.spec_bytes().subrange(0, r.spec_bytes().len() as int)
        },
{
    broadcast use encode_utf8_valid_utf8;
    let n = byte_len(s);
    if n <= max_bytes {
        return s;
    }
    let mut end = max_bytes;
    while end > 0 && !s.is_char_boundary(end)
        invariant
            end <= max_bytes < n,
            n == s.spec_bytes().len(),
            forall|k: int| end < k <= max_bytes ==> !is_char_boundary(s.spec_bytes(), k),
        decreases end,
    {
        end = end - 1;
    }
    proof {
        assert(valid_utf8(s.spec_bytes()));
        lemma_last_boundary_unique(s.spec_bytes(), end as int, max_bytes as int);
    }
    let (head, _) = s.split_at(end);
    proof {
        broadcast use encode_utf8_decode_utf8;
        assert(decode_utf8(encode_utf8(head@)) == head@);
    }
    head
}

/// Same as `truncate_at_char_boundary` but keeps the *last* `max_bytes`
/// bytes, moving forward to the next character boundary.
pub fn truncate_tail_at_char_boundary(s: &str, max_bytes: usize) -> (r: &str)
    ensures
        r@ == truncated_tail(s@, max_bytes as nat),
        s.spec_bytes().len() <= max_bytes ==> r@ == s@,
        s.spec_bytes().len() > max_bytes ==> {
            let start = s.spec_bytes().len() - r.spec_bytes().len();
            &&& is_first_boundary_at_least(s.spec_bytes(), start, s.spec_bytes().len() - max_bytes)
            &&& r.spec_bytes() == s.spec_bytes().subrange(start, s.spec_bytes().len() as int)
        },
{
    broadcast use encode_utf8_valid_utf8;
    let n = byte_len(s);
    if n <= max_bytes {
        return s;
    }
    let mut start = n - max_bytes;
    while start < n && !s.is_char_boundary(start)
        invariant
            n - max_bytes <= start <= n,
            n == s.spec_bytes().len(),
            forall|k: int| n - max_bytes <= k < start ==> !is_char_boundary(s.spec_bytes(), k),
        decreases n - start,
    {
        start = start + 1;
    }
    proof {
        assert(valid_utf8(s.spec_bytes()));
        if start == n {
            assert(is_char_boundary(s.spec_bytes(), n as int)) by {
                lemma_end_is_char_boundary(s.spec_bytes());
            }
        }
    }
    proof {
        lemma_first_boundary_unique(s.spec_bytes(), start as int, n - max_bytes);
    }
    let (_, tail) = s.split_at(start);
    proof {
        broadcast use encode_utf8_decode_utf8;
        assert(decode_utf8(encode_utf8(tail@)) == tail@);
    }
    tail
}

/// The end of a valid UTF-8 sequence is a character boundary.
pub proof fn lemma_end_is_char_boundary(bytes: Seq<u8>)
    requires
        valid_utf8(bytes),
    ensures
        is_char_boundary(bytes, bytes.len() as int),
    decreases bytes.len(),
{
    if bytes.len() > 0 {
        reveal_with_fuel(valid_utf8, 2);
        lemma_end_is_char_boundary(pop_first_scalar(bytes));
    }
}

/// What to do after a database operation failed: try again after a pause,
/// or give up and report the error.
#[derive(Debug, Clone, Copy, PartialEq, Eq, Structural)]
pub enum ConflictStep {
    /// Retry after this many milliseconds.
    RetryAfterMillis(u64),
    /// Report the error.
    GiveUp,
}

/// Extra attempts made for a transaction conflict before giving up.
pub const CONFLICT_RETRIES: u32 = 2;

/// Whether an error's text says the transaction can be retried.
pub open spec fn is_retryable_text(error_text: Seq<char>) -> bool {
    first_byte_occurrence(encode_utf8(error_text), encode_utf8("can be retried"@)) is Some
}

/// The step after failed attempt number `attempt` (counting retries made
/// so far): a conflict the database reports as retryable is retried up to
/// twice, after 120 ms and then 240 ms; any other error, or a third
/// conflict, is reported.
pub open spec fn conflict_step(error_text: Seq<char>, attempt: u32) -> ConflictStep {
    if is_retryable_text(error_text) && attempt < CONFLICT_RETRIES {
        ConflictStep::RetryAfterMillis((120 * (attempt + 1)) as u64)
    } else {
        ConflictStep::GiveUp
    }
}

/// The step after a failed attempt (see `conflict_step`).
pub fn next_conflict_step(error_text: &str, attempt: u32) -> (r: ConflictStep)
    ensures
        r == conflict_step(error_text@, attempt),
{
    let retryable = str_find(error_text, "can be retried").is_some();
    if retryable && attempt < CONFLICT_RETRIES {
        ConflictStep::RetryAfterMillis(120 * (attempt as u64 + 1))
    } else {
        ConflictStep::GiveUp
    }
}

/// Whether an outcome ends the retries: a success (`None`) or an error
/// whose text is not a retryable conflict.
pub open spec fn ends_retries(outcome: Option<Seq<char>>) -> bool {
    match outcome {
        None => true,
        Some(text) => !is_retryable_text(text),
    }
}

/// How many times the operation runs when its `i`-th run gives
/// `outcomes[i]` (`None` for success, `Some(text)` for an error), driving
/// the retries by `conflict_step` from attempt `attempt` on.
pub open spec fn retry_calls(outcomes: Seq<Option<Seq<char>>>, attempt: u32) -> nat
    decreases CONFLICT_RETRIES - attempt,
{
    match outcomes[attempt as int] {
        None => (attempt + 1) as nat,
        Some(text) => match conflict_step(text, attempt) {
            ConflictStep::RetryAfterMillis(_) => if attempt < CONFLICT_RETRIES {
                retry_calls(outcomes, (attempt + 1) as u32)
            } else {
                (attempt + 1) as nat
            },
            ConflictStep::GiveUp => (attempt + 1) as nat,
        },
    }
}

/// A conflicting operation runs at most three times: once, plus a retry
/// after each of the first two retryable conflicts (after 120 ms, then
/// 240 ms). The run that ends it is the first success, the first error
/// that is not a retryable conflict, or the third retryable conflict.
pub proof fn law_conflicts_are_retried_at_most_twice(outcomes: Seq<Option<Seq<char>>>)
    requires
        outcomes.len() >= 3,
    ensures
        retry_calls(outcomes, 0) == (if ends_retries(outcomes[0]) {
            1nat
        } else if ends_retries(outcomes[1]) {
            2nat
        } else {
            3nat
        }),
        !ends_retries(outcomes[0]) ==> conflict_step(outcomes[0]->0, 0) == ConflictStep::RetryAfterMillis(120),
        !ends_retries(outcomes[0]) && !ends_retries(outcomes[1]) ==> conflict_step(outcomes[1]->0, 1)
            == ConflictStep::RetryAfterMillis(240),
{
    reveal_with_fuel(retry_calls, 3);
}

} // verus!
