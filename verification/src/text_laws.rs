//! What texts, names and orders mean, told by their characters.
use vstd::prelude::*;

use crate::digest::hex_text;
use crate::ids::{client_id, hyphenated, temp_name};
use crate::order::{bytes_before, text_before};
use crate::report::{
    closed_by_steam, dots, is_short_form, may_disclose, runs, shown_message, text_size,
};
use crate::sync_engine::{label, SyncDecision};
use crate::text::{ascii_lower, contains_text, lower_char, signed_decimal, stands_at};

verus! {

/// Only the letters A to Z change in lower case, each to the letter of its place in a to z.
pub proof fn letters_have_a_lower_case(text: Seq<char>, at: int)
    requires
        0 <= at < text.len(),
    ensures
        ascii_lower(text).len() == text.len(),
        forall|k: int|
            0 <= k < 26 && text[at] == #[trigger] "ABCDEFGHIJKLMNOPQRSTUVWXYZ"@[k] ==> ascii_lower(
                text,
            )[at] == "abcdefghijklmnopqrstuvwxyz"@[k],
        (forall|k: int| 0 <= k < 26 ==> text[at] != #[trigger] "ABCDEFGHIJKLMNOPQRSTUVWXYZ"@[k])
            ==> ascii_lower(text)[at] == text[at],
{
    reveal_strlit("ABCDEFGHIJKLMNOPQRSTUVWXYZ");
    reveal_strlit("abcdefghijklmnopqrstuvwxyz");
    let c = text[at];
    let upper = "ABCDEFGHIJKLMNOPQRSTUVWXYZ"@;
    assert forall|k: int| 0 <= k < 26 implies #[trigger] upper[k] as int == 'A' as int + k by {}
    let lower = "abcdefghijklmnopqrstuvwxyz"@;
    assert forall|k: int| 0 <= k < 26 implies #[trigger] lower[k] as int == 'a' as int + k by {}
    assert forall|k: int| 0 <= k < 26 && c == #[trigger] upper[k] implies ascii_lower(text)[at]
        == lower[k] by {
        assert(lower_char(c) as int == c as int + 32);
        assert(lower[k] as int == 'a' as int + k);
    }
    if 'A' <= c <= 'Z' {
        let k = c as int - 'A' as int;
        assert(upper[k] == c);
    }
}

/// A text contains another exactly where it is that with something in front of it and something
/// behind it.
pub proof fn contained_texts_stand_in_between(
    text: Seq<char>,
    part: Seq<char>,
    front: Seq<char>,
    back: Seq<char>,
)
    ensures
        text == front + part + back ==> contains_text(text, part),
        contains_text(text, part) ==> exists|at: int|
            0 <= at <= text.len() - part.len() && text == #[trigger] text.take(at) + part
                + text.skip(at + part.len()),
{
    if text == front + part + back {
        let at = front.len() as int;
        assert(text.subrange(at, at + part.len()) =~= part);
        assert(stands_at(text, part, at));
    }
    if contains_text(text, part) {
        let at = choose|at: int| #[trigger] stands_at(text, part, at);
        assert(text =~= text.take(at) + text.subrange(at, at + part.len()) + text.skip(
            at + part.len(),
        ));
    }
}

/// Whether `a` and `b` agree up to a position at which `a` has the smaller item, or has ended and
/// `b` has not.
pub open spec fn differs_at_bytes(a: Seq<u8>, b: Seq<u8>, at: int) -> bool {
    &&& 0 <= at <= a.len() && at < b.len()
    &&& forall|k: int| 0 <= k < at ==> #[trigger] a[k] == b[k]
    &&& at < a.len() ==> a[at] < b[at]
}

/// Whether `a` and `b` agree up to a position at which `a` has the smaller character, or has ended
/// and `b` has not.
pub open spec fn differs_at_chars(a: Seq<char>, b: Seq<char>, at: int) -> bool {
    &&& 0 <= at <= a.len() && at < b.len()
    &&& forall|k: int| 0 <= k < at ==> #[trigger] a[k] == b[k]
    &&& at < a.len() ==> a[at] < b[at]
}

/// Bytes are ordered by the first in which they differ, and what is shorter comes first.
pub proof fn bytes_are_ordered_by_the_first_difference(a: Seq<u8>, b: Seq<u8>)
    ensures
        bytes_before(a, b) <==> exists|at: int| #[trigger] differs_at_bytes(a, b, at),
    decreases a.len(),
{
    if a.len() > 0 && b.len() > 0 && a[0] == b[0] {
        let (x, y) = (a.drop_first(), b.drop_first());
        bytes_are_ordered_by_the_first_difference(x, y);
        if bytes_before(x, y) {
            let at = choose|at: int| #[trigger] differs_at_bytes(x, y, at);
            assert forall|k: int| 0 <= k < at + 1 implies #[trigger] a[k] == b[k] by {
                if k > 0 {
                    assert(x[k - 1] == y[k - 1]);
                }
            }
            assert(differs_at_bytes(a, b, at + 1));
        }
        if exists|at: int| #[trigger] differs_at_bytes(a, b, at) {
            let at = choose|at: int| #[trigger] differs_at_bytes(a, b, at);
            assert forall|k: int| 0 <= k < at - 1 implies #[trigger] x[k] == y[k] by {
                assert(a[k + 1] == b[k + 1]);
            }
            assert(differs_at_bytes(x, y, at - 1));
        }
    } else {
        if bytes_before(a, b) {
            assert(differs_at_bytes(a, b, 0));
        }
        if exists|at: int| #[trigger] differs_at_bytes(a, b, at) {
            let at = choose|at: int| #[trigger] differs_at_bytes(a, b, at);
            if at > 0 {
                assert(a[0] == b[0]);
            }
        }
    }
}

/// Texts are ordered by the first character in which they differ, and what is shorter comes
/// first.
pub proof fn texts_are_ordered_by_the_first_difference(a: Seq<char>, b: Seq<char>)
    ensures
        text_before(a, b) <==> exists|at: int| #[trigger] differs_at_chars(a, b, at),
    decreases a.len(),
{
    if a.len() > 0 && b.len() > 0 && a[0] == b[0] {
        let (x, y) = (a.drop_first(), b.drop_first());
        texts_are_ordered_by_the_first_difference(x, y);
        if text_before(x, y) {
            let at = choose|at: int| #[trigger] differs_at_chars(x, y, at);
            assert forall|k: int| 0 <= k < at + 1 implies #[trigger] a[k] == b[k] by {
                if k > 0 {
                    assert(x[k - 1] == y[k - 1]);
                }
            }
            assert(differs_at_chars(a, b, at + 1));
        }
        if exists|at: int| #[trigger] differs_at_chars(a, b, at) {
            let at = choose|at: int| #[trigger] differs_at_chars(a, b, at);
            assert forall|k: int| 0 <= k < at - 1 implies #[trigger] x[k] == y[k] by {
                assert(a[k + 1] == b[k + 1]);
            }
            assert(differs_at_chars(x, y, at - 1));
        }
    } else {
        if text_before(a, b) {
            assert(differs_at_chars(a, b, 0));
        }
        if exists|at: int| #[trigger] differs_at_chars(a, b, at) {
            let at = choose|at: int| #[trigger] differs_at_chars(a, b, at);
            if at > 0 {
                assert(a[0] == b[0]);
            }
        }
    }
}

/// Whether two of the characters are dots.
pub open spec fn two_dots_at(text: Seq<char>, i: int, j: int) -> bool {
    0 <= i < j < text.len() && text[i] == '.' && text[j] == '.'
}

proof fn dots_are_counted(text: Seq<char>)
    ensures
        dots(text) == 0 <==> forall|i: int| 0 <= i < text.len() ==> #[trigger] text[i] != '.',
        dots(text) >= 2 <==> exists|i: int, j: int| #[trigger] two_dots_at(text, i, j),
    decreases text.len(),
{
    if text.len() > 0 {
        let rest = text.drop_last();
        let last = text.len() - 1;
        dots_are_counted(rest);
        assert forall|i: int| 0 <= i < last implies #[trigger] text[i] == rest[i] by {}
        if dots(rest) >= 2 {
            let (i, j) = choose|i: int, j: int| #[trigger] two_dots_at(rest, i, j);
            assert(two_dots_at(text, i, j));
        } else if dots(rest) == 1 && text[last] == '.' {
            let i = choose|i: int| 0 <= i < rest.len() && #[trigger] rest[i] == '.';
            assert(two_dots_at(text, i, last));
        }
        if exists|i: int, j: int| #[trigger] two_dots_at(text, i, j) {
            let (i, j) = choose|i: int, j: int| #[trigger] two_dots_at(text, i, j);
            if j < last {
                assert(two_dots_at(rest, i, j));
            } else {
                assert(rest[i] == '.');
            }
        }
        if dots(text) == 0 {
            assert(text[last] != '.');
        }
    }
}

/// A message that holds a scheme or two dots is not shown at all, and of any other the first 400
/// characters are.
pub proof fn harmless_messages_are_shown(message: Seq<char>)
    ensures
        ({
            let harmful = contains_text(message, "http://"@) || contains_text(message, "https://"@)
                || exists|i: int, j: int| #[trigger] two_dots_at(message, i, j);
            &&& harmful ==> shown_message(message)
                == "Steam network operation failed; local play is still available"@
            &&& !harmful && message.len() <= 400 ==> shown_message(message) == message
            &&& !harmful && message.len() > 400 ==> shown_message(message) == message.take(400)
            &&& may_disclose(message) == harmful
        }),
{
    dots_are_counted(message);
}

/// An operation runs while it synchronizes or connects.
pub proof fn operations_run_in_two_phases(phase: Seq<char>)
    ensures
        runs("syncing"@),
        runs("connecting"@),
        runs(phase) ==> phase == "syncing"@ || phase == "connecting"@,
{
}

/// A connection counts as closed by Steam exactly where an operation failed or the game is offline
/// and the detail says one of two things, in any case of letters.
pub proof fn closed_connections_are_recognized(phase: Seq<char>, detail: Seq<char>)
    ensures
        closed_by_steam(phase, detail) <==> (phase == "error"@ || phase == "offline"@) && (
        contains_text(ascii_lower(detail), "steam cm closed the connection"@) || contains_text(
            ascii_lower(detail),
            "unexpected websocket close"@,
        )),
{
}

proof fn ascii_takes_one_byte(text: Seq<char>)
    requires
        forall|i: int| 0 <= i < text.len() ==> (#[trigger] text[i] as u32) < 0x80,
    ensures
        text_size(text) == text.len(),
    decreases text.len(),
{
    if text.len() > 0 {
        assert((text[text.len() - 1] as u32) < 0x80);
        ascii_takes_one_byte(text.drop_last());
    }
}

/// Of a hash in ASCII the first sixteen characters are logged, and all where it has fewer.
pub proof fn hashes_are_logged_by_sixteen_characters(short: Seq<char>, hash: Seq<char>)
    requires
        is_short_form(short, hash),
        forall|i: int| 0 <= i < hash.len() ==> (#[trigger] hash[i] as u32) < 0x80,
    ensures
        hash.len() >= 16 ==> short == hash.take(16),
        hash.len() < 16 ==> short == hash,
{
    if short.is_prefix_of(hash) && text_size(short) == 16 {
        assert forall|i: int| 0 <= i < short.len() implies (#[trigger] short[i] as u32) < 0x80 by {
            assert(short[i] == hash[i]);
        }
        ascii_takes_one_byte(short);
        assert(short =~= hash.take(16));
    } else if hash.len() >= 16 {
        let first = hash.take(16);
        assert forall|i: int| 0 <= i < first.len() implies (#[trigger] first[i] as u32) < 0x80 by {
            assert(first[i] == hash[i]);
        }
        ascii_takes_one_byte(first);
    }
}

/// An id in text has 36 characters: the hexadecimal digits of its sixteen bytes in groups of 8, 4,
/// 4, 4 and 12, with hyphens in between. A temporary file is called by its prefix and an id.
pub proof fn ids_are_written_in_groups(id: Seq<u8>, prefix: Seq<char>, at: int)
    requires
        id.len() == 16,
        0 <= at < 32,
    ensures
        ({
            let text = hyphenated(id);
            let shift = if at < 8 {
                0int
            } else if at < 12 {
                1
            } else if at < 16 {
                2
            } else if at < 20 {
                3
            } else {
                4
            };
            &&& text.len() == 36
            &&& text[8] == '-' && text[13] == '-' && text[18] == '-' && text[23] == '-'
            &&& text[at + shift] == hex_text(id)[at]
            &&& temp_name(prefix, id) == "."@ + prefix + "."@ + text + ".tmp"@
        }),
{
    reveal_strlit("-");
    let whole = hex_text(id);
    assert(hex_text(id.subrange(0, 4)) =~= whole.subrange(0, 8));
    assert(hex_text(id.subrange(4, 6)) =~= whole.subrange(8, 12));
    assert(hex_text(id.subrange(6, 8)) =~= whole.subrange(12, 16));
    assert(hex_text(id.subrange(8, 10)) =~= whole.subrange(16, 20));
    assert(hex_text(id.subrange(10, 16)) =~= whole.subrange(20, 32));
}

/// The number of a client is made of the first eight bytes of an id, the first byte counting
/// least.
pub proof fn clients_are_numbered_by_eight_bytes(id: Seq<u8>)
    requires
        id.len() == 16,
    ensures
        client_id(id) == id[0] + id[1] * 0x100 + id[2] * 0x1_0000 + id[3] * 0x100_0000 + id[4]
            * 0x1_0000_0000 + id[5] * 0x100_0000_0000 + id[6] * 0x1_0000_0000_0000 + id[7]
            * 0x100_0000_0000_0000,
{
}

/// A negative number is written behind a minus sign.
pub proof fn negative_numbers_have_a_sign(n: int)
    ensures
        n < 0 ==> signed_decimal(n).len() > 0 && signed_decimal(n)[0] == '-' && signed_decimal(
            n,
        ).skip(1) == signed_decimal(-n),
        n >= 0 ==> signed_decimal(n) == crate::text::decimal(n as nat),
{
    reveal_strlit("-");
    if n < 0 {
        assert(signed_decimal(n).skip(1) =~= crate::text::decimal((-n) as nat));
    }
}

/// What a comparison found is logged in words.
pub proof fn comparisons_are_logged_in_words()
    ensures
        label(SyncDecision::Unchanged) == "unchanged"@,
        label(SyncDecision::UploadLocal) == "local-only change"@,
        label(SyncDecision::DownloadRemote) == "remote-only change"@,
        label(SyncDecision::Converged) == "already converged"@,
        label(SyncDecision::Conflict) == "true divergence"@,
        label(SyncDecision::FirstSyncChoiceRequired) == "first sync choice required"@,
{
}

} // verus!
