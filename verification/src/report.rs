//! What is told and logged of what happens, and when a failure is tried again.
use vstd::prelude::*;

use crate::text::{
    ascii_lower, chars_of, contains, contains_text, same_text, text_of, to_ascii_lowercase,
};

verus! {

/// How many characters of a message are shown.
pub const MESSAGE_LIMIT: usize = 400;

/// How many bytes of a hash are logged.
pub const SHORT_HASH_SIZE: usize = 16;

/// How many bytes a character takes in UTF-8.
pub open spec fn utf8_size(c: char) -> nat {
    if (c as u32) < 0x80 {
        1
    } else if (c as u32) < 0x800 {
        2
    } else if (c as u32) < 0x1_0000 {
        3
    } else {
        4
    }
}

/// How many bytes a text takes in UTF-8.
pub open spec fn text_size(text: Seq<char>) -> nat
    decreases text.len(),
{
    if text.len() == 0 {
        0
    } else {
        text_size(text.drop_last()) + utf8_size(text.last())
    }
}

/// Whether `short` is what is logged of a hash: its first sixteen bytes, where a character ends
/// there, and else the whole.
pub open spec fn is_short_form(short: Seq<char>, hash: Seq<char>) -> bool {
    ||| short.is_prefix_of(hash) && text_size(short) == SHORT_HASH_SIZE
    ||| short == hash && forall|n: int|
        0 <= n <= hash.len() ==> text_size(#[trigger] hash.take(n)) != SHORT_HASH_SIZE
}

proof fn longer_texts_are_larger(text: Seq<char>, from: int, to: int)
    requires
        0 <= from <= to <= text.len(),
    ensures
        text_size(text.take(from)) <= text_size(text.take(to)),
        from < to ==> text_size(text.take(from)) < text_size(text.take(to)),
    decreases to - from,
{
    if from < to {
        longer_texts_are_larger(text, from, to - 1);
        assert(text.take(to).drop_last() =~= text.take(to - 1));
    }
}

/// What is logged of a hash.
pub fn short_hash(value: &str) -> (short: String)
    ensures
        is_short_form(short@, value@),
{
    let chars: Vec<char> = chars_of(value);
    let mut size: usize = 0;
    let mut i: usize = 0;
    assert(chars@.take(0) =~= Seq::<char>::empty());
    while i < chars.len() && size < SHORT_HASH_SIZE
        invariant
            i <= chars@.len(),
            size == text_size(chars@.take(i as int)),
            size < SHORT_HASH_SIZE + 4,
            i > 0 ==> text_size(chars@.take(i - 1)) < SHORT_HASH_SIZE,
        decreases chars@.len() - i,
    {
        proof {
            assert(chars@.take(i + 1).drop_last() =~= chars@.take(i as int));
            assert(chars@.take(i + 1).last() == chars@[i as int]);
        }
        let code: u32 = chars[i] as u32;
        size = size + if code < 0x80 {
            1
        } else if code < 0x800 {
            2
        } else if code < 0x1_0000 {
            3
        } else {
            4
        };
        i += 1;
    }
    if size == SHORT_HASH_SIZE {
        let short: String = text_of(&chars, 0, i);
        assert(short@ =~= chars@.take(i as int));
        return short;
    }
    proof {
        assert forall|n: int| 0 <= n <= chars@.len() implies text_size(#[trigger] chars@.take(n))
            != SHORT_HASH_SIZE by {
            if n < i {
                longer_texts_are_larger(chars@, n, i - 1);
            } else {
                longer_texts_are_larger(chars@, i as int, n);
            }
        }
    }
    value.to_owned()
}

/// How many dots a text holds.
pub open spec fn dots(text: Seq<char>) -> nat
    decreases text.len(),
{
    if text.len() == 0 {
        0
    } else {
        dots(text.drop_last()) + if text.last() == '.' {
            1nat
        } else {
            0nat
        }
    }
}

/// Whether a message may hold an address or a token: it holds a scheme, or two dots.
pub open spec fn may_disclose(message: Seq<char>) -> bool {
    contains_text(message, "http://"@) || contains_text(message, "https://"@) || dots(message) >= 2
}

/// What is shown of a message.
pub open spec fn shown_message(message: Seq<char>) -> Seq<char> {
    if may_disclose(message) {
        "Steam network operation failed; local play is still available"@
    } else if message.len() <= MESSAGE_LIMIT {
        message
    } else {
        message.take(MESSAGE_LIMIT as int)
    }
}

/// Whether a text holds two dots.
fn has_two_dots(chars: &Vec<char>) -> (found: bool)
    ensures
        found == (dots(chars@) >= 2),
{
    let mut count: usize = 0;
    let mut i: usize = 0;
    assert(chars@.take(0) =~= Seq::<char>::empty());
    while i < chars.len()
        invariant
            i <= chars@.len(),
            count == dots(chars@.take(i as int)),
            count <= i,
        decreases chars@.len() - i,
    {
        proof {
            let upto = chars@.take(i + 1);
            assert(upto.drop_last() =~= chars@.take(i as int));
            assert(upto.last() == chars@[i as int]);
        }
        if chars[i] == '.' {
            count += 1;
        }
        i += 1;
    }
    assert(chars@.take(i as int) =~= chars@);
    count >= 2
}

/// What is shown of a message.
pub fn safe_error(message: &str) -> (shown: String)
    ensures
        shown@ == shown_message(message@),
{
    let chars: Vec<char> = chars_of(message);
    if contains(message, "http://") || contains(message, "https://") || has_two_dots(&chars) {
        return "Steam network operation failed; local play is still available".to_owned();
    }
    let end: usize = if chars.len() <= MESSAGE_LIMIT {
        chars.len()
    } else {
        MESSAGE_LIMIT
    };
    proof {
        assert(chars@.subrange(0, end as int) =~= shown_message(message@));
    }
    text_of(&chars, 0, end)
}

proof fn dots_of_part(text: Seq<char>, count: int)
    requires
        0 <= count <= text.len(),
    ensures
        dots(text.take(count)) <= dots(text),
    decreases text.len(),
{
    if count < text.len() {
        dots_of_part(text.drop_last(), count);
        assert(text.drop_last().take(count) =~= text.take(count));
    } else {
        assert(text.take(count) =~= text);
    }
}

/// No address with a scheme and no token with two dots in it is ever shown.
pub proof fn nothing_is_disclosed(message: Seq<char>)
    ensures
        !contains_text(shown_message(message), "http://"@),
        !contains_text(shown_message(message), "https://"@),
        dots(shown_message(message)) < 2,
        shown_message(message).len() <= MESSAGE_LIMIT,
{
    let shown = shown_message(message);
    if may_disclose(message) {
        reveal_strlit("Steam network operation failed; local play is still available");
        reveal_strlit("http://");
        reveal_strlit("https://");
        without_char(shown, "http://"@, 4);
        without_char(shown, "https://"@, 5);
        no_dots(shown);
    } else if message.len() > MESSAGE_LIMIT {
        part_contains_less(message, "http://"@);
        part_contains_less(message, "https://"@);
        dots_of_part(message, MESSAGE_LIMIT as int);
    }
}

proof fn no_dots(text: Seq<char>)
    requires
        forall|i: int| 0 <= i < text.len() ==> text[i] != '.',
    ensures
        dots(text) == 0,
    decreases text.len(),
{
    if text.len() > 0 {
        no_dots(text.drop_last());
    }
}

proof fn without_char(text: Seq<char>, part: Seq<char>, at: int)
    requires
        0 <= at < part.len(),
        forall|i: int| 0 <= i < text.len() ==> text[i] != part[at],
    ensures
        !contains_text(text, part),
{
    if contains_text(text, part) {
        let start = choose|start: int| crate::text::stands_at(text, part, start);
        assert(text.subrange(start, start + part.len())[at] == text[start + at]);
    }
}

proof fn part_contains_less(message: Seq<char>, part: Seq<char>)
    requires
        message.len() > MESSAGE_LIMIT,
        !contains_text(message, part),
    ensures
        !contains_text(message.take(MESSAGE_LIMIT as int), part),
{
    let cut = message.take(MESSAGE_LIMIT as int);
    if contains_text(cut, part) {
        let start = choose|start: int| crate::text::stands_at(cut, part, start);
        assert(message.subrange(start, start + part.len()) =~= cut.subrange(
            start,
            start + part.len(),
        ));
        assert(crate::text::stands_at(message, part, start));
    }
}

/// How long to wait before the state of an operation is looked at again.
pub const POLL_INTERVAL_MS: u64 = 25;

/// How often the state of an operation is looked at.
pub const POLL_ATTEMPTS: usize = 200;

/// How long to wait before a lost connection is tried again.
pub const RETRY_DELAY_MS: u64 = 100;

/// How long to wait before the start of the game is tried again.
pub const PREFLIGHT_RETRY_DELAY_MS: u64 = 150;

/// Whether an operation has not published its end yet.
pub open spec fn runs(phase: Seq<char>) -> bool {
    phase == "syncing"@ || phase == "connecting"@
}

/// Whether an operation has not published its end yet.
pub fn is_running(phase: &str) -> (running: bool)
    ensures
        running == runs(phase@),
{
    same_text(phase, "syncing") || same_text(phase, "connecting")
}

/// Whether an operation failed because Steam closed the connection, which is worth one more
/// attempt.
pub open spec fn closed_by_steam(phase: Seq<char>, detail: Seq<char>) -> bool {
    (phase == "error"@ || phase == "offline"@) && (contains_text(
        ascii_lower(detail),
        "steam cm closed the connection"@,
    ) || contains_text(ascii_lower(detail), "unexpected websocket close"@))
}

/// Whether an operation failed because Steam closed the connection.
pub fn is_transient_cm_close(phase: &str, detail: &str) -> (transient: bool)
    ensures
        transient == closed_by_steam(phase@, detail@),
{
    let lower: String = to_ascii_lowercase(detail);
    (same_text(phase, "error") || same_text(phase, "offline")) && (contains(
        lower.as_str(),
        "steam cm closed the connection",
    ) || contains(lower.as_str(), "unexpected websocket close"))
}

} // verus!
