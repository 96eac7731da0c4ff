//! Save slots: which file belongs to which, and which are excluded from synchronization.
use std::collections::BTreeSet;
use vstd::prelude::*;

use crate::order::views;
use crate::text::{
    all_digits, ascii_lower, ascii_upper, chars_of, decimal, decimal_reads_back, digits_value,
    is_digit, is_number, lower_char, numbers_are_digits, numbers_are_read, parse_decimal, parsed,
    stands_at, starts_with, text_of, to_ascii_lowercase, to_decimal, upper_char, without_sign,
};

verus! {

/// The name of the persistent save of `slot` behind the prefix of its generation.
pub open spec fn slot_name(prefix: Seq<char>, slot: u8) -> Seq<char> {
    prefix + "persistentgamedata"@ + decimal(slot as nat) + ".dat"@
}

/// Whether `lower` is the lower-case name of the persistent save of `slot`, of Repentance+,
/// Repentance or Rebirth.
pub open spec fn names_slot(lower: Seq<char>, slot: u8) -> bool {
    lower == slot_name("rep+"@, slot) || lower == slot_name("rep_"@, slot) || lower == slot_name(
        ""@,
        slot,
    )
}

/// The slot that a file belongs to by its name, whatever its case.
pub open spec fn slot_of(name: Seq<char>) -> Option<u8> {
    if names_slot(ascii_lower(name), 1) {
        Some(1u8)
    } else if names_slot(ascii_lower(name), 2) {
        Some(2u8)
    } else if names_slot(ascii_lower(name), 3) {
        Some(3u8)
    } else {
        None
    }
}

/// Whether a file is of the Repentance or Repentance+ generation by its name.
pub open spec fn is_rep_name(name: Seq<char>) -> bool {
    stands_at(ascii_lower(name), "rep_persistentgamedata"@, 0) || stands_at(
        ascii_lower(name),
        "rep+persistentgamedata"@,
        0,
    )
}

/// The name of the persistent save of `slot` behind `prefix`.
pub fn slot_filename(prefix: &str, slot: u8) -> (name: String)
    ensures
        name@ == slot_name(prefix@, slot),
{
    let mut name: String = prefix.to_owned();
    name.append("persistentgamedata");
    name.append(to_decimal(slot as u64).as_str());
    name.append(".dat");
    name
}

/// The slot that a file belongs to by its name.
pub fn slot_for_filename(name: &str) -> (slot: Option<u8>)
    ensures
        slot == slot_of(name@),
{
    let lower: String = to_ascii_lowercase(name);
    let mut slot: u8 = 1;
    while slot <= 3
        invariant
            1 <= slot <= 4,
            lower@ == ascii_lower(name@),
            forall|s: u8| 1 <= s < slot ==> !#[trigger] names_slot(lower@, s),
        decreases 4 - slot,
    {
        let rep_plus: String = slot_filename("rep+", slot);
        let repentance: String = slot_filename("rep_", slot);
        let rebirth: String = slot_filename("", slot);
        if lower == rep_plus || lower == repentance || lower == rebirth {
            assert(names_slot(lower@, slot));
            return Some(slot);
        }
        slot += 1;
    }
    None
}

/// Whether a file is of the Repentance or Repentance+ generation by its name.
pub fn is_repentance_name(name: &str) -> (found: bool)
    ensures
        found == is_rep_name(name@),
{
    let lower: String = to_ascii_lowercase(name);
    starts_with(lower.as_str(), "rep_persistentgamedata") || starts_with(
        lower.as_str(),
        "rep+persistentgamedata",
    )
}

/// Only the slots 1 to 3 exist, and no name belongs to two of them.
pub proof fn slots_are_distinct(name: Seq<char>, slot: u8)
    requires
        1 <= slot <= 3,
    ensures
        names_slot(ascii_lower(name), slot) <==> slot_of(name) == Some(slot),
        slot_of(name) matches Some(found) ==> 1 <= found <= 3,
{
    reveal_strlit("rep+");
    reveal_strlit("rep_");
    reveal_strlit("");
    reveal_strlit("persistentgamedata");
    reveal_strlit(".dat");
    let lower = ascii_lower(name);
    assert forall|s: u8| 1 <= s <= 3 && #[trigger] names_slot(lower, s) implies lower[lower.len()
        - 5] == (s + 48) as char by {
        assert(decimal(s as nat) =~= seq![(s + 48) as char]);
    }
}

/// A name belongs to a slot exactly where the slot exists and the name is, whatever its case,
/// that of the slot's save behind one of the three prefixes.
pub proof fn slots_go_by_name(name: Seq<char>, slot: u8)
    ensures
        slot_of(name) == Some(slot) <==> 1 <= slot <= 3 && (ascii_lower(name) == slot_name(
            ""@,
            slot,
        ) || ascii_lower(name) == slot_name("rep_"@, slot) || ascii_lower(name) == slot_name(
            "rep+"@,
            slot,
        )),
{
    if 1 <= slot <= 3 {
        slots_are_distinct(name, slot);
    }
}

/// Letters of either case make no difference to the slot of a name.
pub proof fn case_does_not_matter(name: Seq<char>)
    ensures
        slot_of(ascii_upper(name)) == slot_of(name),
        slot_of(ascii_lower(name)) == slot_of(name),
{
    assert forall|c: char| #![trigger lower_char(c)]
        lower_char(upper_char(c)) == lower_char(c) && lower_char(lower_char(c)) == lower_char(c) by {
    }
    assert(ascii_lower(ascii_upper(name)) =~= ascii_lower(name));
    assert(ascii_lower(ascii_lower(name)) =~= ascii_lower(name));
}

/// A name with a directory part belongs to no slot.
pub proof fn paths_have_no_slot(name: Seq<char>)
    requires
        name.contains('/') || name.contains('\\'),
    ensures
        slot_of(name) is None,
{
    reveal_strlit("rep+");
    reveal_strlit("rep_");
    reveal_strlit("");
    reveal_strlit("persistentgamedata");
    reveal_strlit(".dat");
    let lower = ascii_lower(name);
    let at = choose|at: int| 0 <= at < name.len() && (name[at] == '/' || name[at] == '\\');
    assert(lower[at] == '/' || lower[at] == '\\');
    assert forall|s: u8| 1 <= s <= 3 implies !#[trigger] names_slot(lower, s) by {
        assert(decimal(s as nat) =~= seq![(s + 48) as char]);
        if names_slot(lower, s) {
            let prefix = if lower == slot_name("rep+"@, s) {
                "rep+"@
            } else if lower == slot_name("rep_"@, s) {
                "rep_"@
            } else {
                ""@
            };
            assert(lower == slot_name(prefix, s));
            assert(no_separator(prefix));
            assert(no_separator("persistentgamedata"@));
            assert(no_separator(decimal(s as nat)));
            assert(no_separator(".dat"@));
            assert(no_separator(lower));
        }
    }
}

/// Whether none of the characters separates the parts of a path.
spec fn no_separator(text: Seq<char>) -> bool {
    forall|i: int| 0 <= i < text.len() ==> #[trigger] text[i] != '/' && text[i] != '\\'
}

/// A run in progress is never synchronized: no game state or rerun state belongs to a slot.
pub proof fn run_states_have_no_slot(name: Seq<char>)
    requires
        stands_at(ascii_lower(name), "rep_gamestate"@, 0) || stands_at(
            ascii_lower(name),
            "rep_rerunstate"@,
            0,
        ),
    ensures
        slot_of(name) is None,
{
    reveal_strlit("rep+");
    reveal_strlit("rep_");
    reveal_strlit("");
    reveal_strlit("persistentgamedata");
    reveal_strlit(".dat");
    reveal_strlit("rep_gamestate");
    reveal_strlit("rep_rerunstate");
    let lower = ascii_lower(name);
    if stands_at(lower, "rep_gamestate"@, 0) {
        assert(lower.subrange(0, 13)[4] == 'g');
        assert(lower.subrange(0, 13)[3] == '_');
        assert(lower[4] == 'g' && lower[3] == '_');
    } else {
        assert(lower.subrange(0, 14)[4] == 'r');
        assert(lower.subrange(0, 14)[3] == '_');
        assert(lower[4] == 'r' && lower[3] == '_');
    }
}

/// The slots that `text` lists as a JSON array of numbers up to 255, where it is one.
pub uninterp spec fn json_slots(text: Seq<char>) -> Option<Set<u8>>;

/// `serde_json::from_str` for `BTreeSet<u8>`: what it returns is a function of the text
/// alone, and only an array, which starts with a bracket, is accepted.
#[verifier::external_body]
fn parse_json_slots(text: &str) -> (slots: Option<BTreeSet<u8>>)
    ensures
        match slots {
            Some(slots) => json_slots(text@) == Some(slots@) && text@.contains('['),
            None => json_slots(text@) is None,
        },
{
    serde_json::from_str::<BTreeSet<u8>>(text).ok()
}

/// Whether `text[from..to]` is a run of digits that no further digit extends.
pub open spec fn is_digit_run(text: Seq<char>, from: int, to: int) -> bool {
    &&& 0 <= from < to <= text.len()
    &&& all_digits(text.subrange(from, to))
    &&& from == 0 || !is_digit(text[from - 1])
    &&& to == text.len() || !is_digit(text[to])
}

/// Whether a run of digits in `text` stands for `slot`, one of 1 to 3.
pub open spec fn lists_slot(text: Seq<char>, slot: u8) -> bool {
    1 <= slot <= 3 && exists|from: int, to: int| #[trigger]
        is_digit_run(text, from, to) && digits_value(text.subrange(from, to)) == slot
}

/// The slots that `text` excludes, where `json` is what it reads as JSON: those of the
/// array, or else those that its runs of digits stand for.
pub open spec fn excluded_with(text: Seq<char>, json: Option<Set<u8>>) -> Set<u8> {
    match json {
        Some(slots) => slots,
        None => Set::new(|slot: u8| lists_slot(text, slot)),
    }
}

/// The slots that the file contents `text` excludes: only a text with a bracket can be a JSON
/// array.
pub open spec fn excluded_by(text: Seq<char>) -> Set<u8> {
    if text.contains('[') {
        excluded_with(text, json_slots(text))
    } else {
        excluded_with(text, None)
    }
}

/// The slots that any of the file contents excludes.
pub open spec fn excluded_by_any(contents: Seq<Seq<char>>) -> Set<u8> {
    Set::new(
        |slot: u8|
            exists|i: int|
                0 <= i < contents.len() && (#[trigger] excluded_by(contents[i])).contains(slot),
    )
}

/// The slots that the runs of digits in `text` stand for.
pub fn listed_slots(text: &str) -> (slots: BTreeSet<u8>)
    ensures
        slots@ == excluded_with(text@, None),
{
    let chars: Vec<char> = chars_of(text);
    let mut slots: BTreeSet<u8> = BTreeSet::new();
    let mut i: usize = 0;
    while i < chars.len()
        invariant
            i <= chars@.len(),
            chars@ == text@,
            i == 0 || i == chars@.len() || !is_digit(chars@[i - 1]) || !is_digit(chars@[i as int]),
            slots@ =~= Set::new(|slot: u8| lists_slot_before(text@, slot, i as int)),
        decreases chars@.len() - i,
    {
        if !('0' <= chars[i] && chars[i] <= '9') {
            proof {
                assert forall|slot: u8|
                    lists_slot_before(text@, slot, i as int) == lists_slot_before(
                        text@,
                        slot,
                        i + 1,
                    ) by {
                    no_run_ends_behind(text@, i as int, slot);
                }
            }
            i += 1;
            continue;
        }
        let from: usize = i;
        while i < chars.len() && '0' <= chars[i] && chars[i] <= '9'
            invariant
                from <= i <= chars@.len(),
                forall|k: int| from <= k < i ==> is_digit(#[trigger] chars@[k]),
            decreases chars@.len() - i,
        {
            i += 1;
        }
        let token: String = text_of(&chars, from, i);
        let number: Option<u64> = parse_decimal(token.as_str(), 255);
        proof {
            let run = text@.subrange(from as int, i as int);
            assert(token@ == run);
            assert(all_digits(run)) by {
                assert forall|k: int| 0 <= k < run.len() implies is_digit(#[trigger] run[k]) by {
                    assert(run[k] == chars@[from + k]);
                }
            }
            assert(run[0] == chars@[from as int]);
            assert(without_sign(run) == run);
            assert(is_digit_run(text@, from as int, i as int));
            assert forall|slot: u8| #[trigger]
                lists_slot_before(text@, slot, i as int) == (lists_slot_before(
                    text@,
                    slot,
                    from as int,
                ) || (1 <= slot <= 3 && digits_value(run) == slot)) by {
                one_run_between(text@, from as int, i as int, slot);
            }
        }
        if let Some(number) = number {
            if 1 <= number && number <= 3 {
                slots.insert(number as u8);
            }
        }
    }
    assert(slots@ =~= excluded_with(text@, None)) by {
        assert forall|slot: u8| lists_slot_before(text@, slot, chars@.len() as int) == lists_slot(
            text@,
            slot,
        ) by {}
    }
    slots
}

/// Whether a run of digits that ends at `limit` or before stands for `slot`.
spec fn lists_slot_before(text: Seq<char>, slot: u8, limit: int) -> bool {
    1 <= slot <= 3 && exists|from: int, to: int| #[trigger]
        is_digit_run(text, from, to) && to <= limit && digits_value(text.subrange(from, to)) == slot
}

proof fn no_run_ends_behind(text: Seq<char>, at: int, slot: u8)
    requires
        0 <= at < text.len(),
        !is_digit(text[at]),
    ensures
        lists_slot_before(text, slot, at) == lists_slot_before(text, slot, at + 1),
{
    assert forall|from: int, to: int| #[trigger] is_digit_run(text, from, to) && to <= at
        + 1 implies to <= at by {
        if to == at + 1 {
            let run = text.subrange(from, to);
            assert(is_digit(run[run.len() - 1]));
        }
    }
}

proof fn one_run_between(text: Seq<char>, start: int, end: int, slot: u8)
    requires
        is_digit_run(text, start, end),
    ensures
        lists_slot_before(text, slot, end) == (lists_slot_before(text, slot, start) || (1 <= slot
            <= 3 && digits_value(text.subrange(start, end)) == slot)),
{
    let whole = text.subrange(start, end);
    assert forall|from: int, to: int| #[trigger]
        is_digit_run(text, from, to) && start < to <= end implies from == start && to == end by {
        let run = text.subrange(from, to);
        if to < end {
            assert(is_digit(whole[to - start]));
        }
        if from < start {
            assert(is_digit(run[start - 1 - from]));
        }
        if from > start {
            assert(is_digit(whole[from - 1 - start]));
        }
    }
}

/// The slots that the contents of one file exclude.
pub fn excluded_in(text: &str) -> (slots: BTreeSet<u8>)
    ensures
        slots@ == excluded_by(text@),
{
    match parse_json_slots(text) {
        Some(slots) => slots,
        None => listed_slots(text),
    }
}

/// Adds all of `more` to `slots`.
fn add_all(slots: &mut BTreeSet<u8>, more: &BTreeSet<u8>)
    ensures
        final(slots)@ == old(slots)@.union(more@),
{
    let ghost before = slots@;
    for slot in it: more.iter()
        invariant
            it.seq().unref().to_set() == more@,
            slots@ =~= before.union(it.seq().unref().take(it.index() as int).to_set()),
            it.index() == it.seq().len() ==> slots@ =~= before.union(more@),
    {
        proof {
            let all = it.seq().unref();
            let k = it.index() as int;
            assert(all.take(k + 1) =~= all.take(k).push(all[k]));
            assert(all.take(k + 1).to_set() =~= all.take(k).to_set().insert(all[k])) by {
                broadcast use vstd::seq_lib::group_seq_properties;
            }
            assert(all.take(all.len() as int) =~= all);
        }
        slots.insert(*slot);
    }
}

/// The slots that are excluded by the contents of the exclusion files that could be read.
pub fn get_excluded_slots(contents: &Vec<String>) -> (excluded: BTreeSet<u8>)
    ensures
        excluded@ == excluded_by_any(views(contents@)),
{
    let mut excluded: BTreeSet<u8> = BTreeSet::new();
    let mut i: usize = 0;
    let ghost texts = views(contents@);
    while i < contents.len()
        invariant
            i <= contents@.len(),
            texts == views(contents@),
            excluded@ =~= excluded_by_any(texts.take(i as int)),
        decreases contents@.len() - i,
    {
        let slots: BTreeSet<u8> = excluded_in(contents[i].as_str());
        add_all(&mut excluded, &slots);
        proof {
            let longer = texts.take(i + 1);
            assert forall|slot: u8| #[trigger]
                excluded_by_any(longer).contains(slot) == (excluded_by_any(
                    texts.take(i as int),
                ).contains(slot) || excluded_by(texts[i as int]).contains(slot)) by {
                if excluded_by(longer[i as int]).contains(slot) {
                }
                assert forall|k: int| 0 <= k < i implies longer[k] == #[trigger] texts.take(
                    i as int,
                )[k] by {}
            }
        }
        i += 1;
    }
    assert(texts.take(i as int) =~= texts);
    excluded
}

/// A slot that does not exist.
#[derive(Debug, Clone, Copy, PartialEq, Eq, Structural)]
pub struct InvalidSlot(pub u8);

impl InvalidSlot {
    /// The message that names the slot.
    pub open spec fn text(self) -> Seq<char> {
        "invalid slot "@ + decimal(self.0 as nat)
    }

    /// The message that names the slot.
    pub fn message(&self) -> (message: String)
        ensures
            message@ == self.text(),
    {
        let mut message: String = "invalid slot ".to_owned();
        message.append(to_decimal(self.0 as u64).as_str());
        message
    }
}

/// The members of `slots` that are less than `limit`, in ascending order.
pub open spec fn ascending(slots: Set<u8>, limit: nat) -> Seq<u8>
    decreases limit,
{
    if limit == 0 {
        seq![]
    } else if slots.contains((limit - 1) as u8) {
        ascending(slots, (limit - 1) as nat).push((limit - 1) as u8)
    } else {
        ascending(slots, (limit - 1) as nat)
    }
}

/// Numbers on lines of their own.
pub open spec fn lines(numbers: Seq<u8>) -> Seq<char>
    decreases numbers.len(),
{
    if numbers.len() == 0 {
        seq![]
    } else if numbers.len() == 1 {
        decimal(numbers[0] as nat)
    } else {
        lines(numbers.drop_last()) + "\n"@ + decimal(numbers.last() as nat)
    }
}

/// The text of an exclusion file that lists `slots`.
pub open spec fn exclusion_list(slots: Set<u8>) -> Seq<char> {
    lines(ascending(slots, 256))
}

/// `slots` with or without `slot`.
pub open spec fn toggled(slots: Set<u8>, slot: u8, exclude: bool) -> Set<u8> {
    if exclude {
        slots.insert(slot)
    } else {
        slots.remove(slot)
    }
}

/// The exclusion file to write so that `slot` is excluded or no longer so, where `texts` are the
/// exclusion files that could be read.
pub open spec fn changed_list(texts: Seq<Seq<char>>, slot: u8, exclude: bool) -> Result<
    Seq<char>,
    InvalidSlot,
> {
    if 1 <= slot <= 3 {
        Ok(exclusion_list(toggled(excluded_by_any(texts), slot, exclude)))
    } else {
        Err(InvalidSlot(slot))
    }
}

/// The exclusion file to write so that `slot` is excluded or no longer so, where `contents`
/// are the exclusion files that could be read.
pub fn set_slot_excluded(contents: &Vec<String>, slot: u8, exclude: bool) -> (list: Result<
    String,
    InvalidSlot,
>)
    ensures
        match list {
            Ok(list) => changed_list(views(contents@), slot, exclude) == Ok::<
                Seq<char>,
                InvalidSlot,
            >(list@),
            Err(error) => changed_list(views(contents@), slot, exclude) == Err::<
                Seq<char>,
                InvalidSlot,
            >(error),
        },
{
    if !(1 <= slot && slot <= 3) {
        return Err(InvalidSlot(slot));
    }
    let mut current: BTreeSet<u8> = get_excluded_slots(contents);
    if exclude {
        current.insert(slot);
    } else {
        current.remove(&slot);
    }
    assert(current@ =~= toggled(excluded_by_any(views(contents@)), slot, exclude));
    let mut list: String = "".to_owned();
    let mut empty: bool = true;
    proof {
        reveal_strlit("");
        assert(list@ =~= lines(ascending(current@, 0)));
    }
    let mut number: u16 = 0;
    while number < 256
        invariant
            number <= 256,
            list@ == lines(ascending(current@, number as nat)),
            empty == (ascending(current@, number as nat).len() == 0),
        decreases 256 - number,
    {
        let candidate: u8 = number as u8;
        let ghost before = ascending(current@, number as nat);
        if current.contains(&candidate) {
            proof {
                assert(ascending(current@, (number + 1) as nat) == before.push(candidate));
                assert(before.push(candidate).drop_last() =~= before);
            }
            let digits: String = to_decimal(candidate as u64);
            if empty {
                proof {
                    assert(list@ + digits@ =~= digits@);
                }
                list.append(digits.as_str());
            } else {
                list.append("\n");
                list.append(digits.as_str());
            }
            empty = false;
        }
        number += 1;
    }
    Ok(list)
}

proof fn ascending_members(slots: Set<u8>, limit: nat, slot: u8)
    requires
        limit <= 256,
    ensures
        ascending(slots, limit).contains(slot) == (slots.contains(slot) && slot < limit),
    decreases limit,
{
    if limit > 0 {
        ascending_members(slots, (limit - 1) as nat, slot);
        let shorter = ascending(slots, (limit - 1) as nat);
        let last = (limit - 1) as u8;
        if slots.contains(last) {
            let longer = shorter.push(last);
            assert(longer[shorter.len() as int] == last);
            if shorter.contains(slot) {
                let i = choose|i: int| 0 <= i < shorter.len() && shorter[i] == slot;
                assert(longer[i] == slot);
            }
        }
    }
}

/// The runs of digits of `head + "\n" + digits` are those of `head` and `digits` itself.
proof fn runs_of_lines(head: Seq<char>, digits: Seq<char>, slot: u8)
    requires
        all_digits(digits),
        digits.len() > 0,
    ensures
        lists_slot(head + "\n"@ + digits, slot) == (lists_slot(head, slot) || (1 <= slot <= 3
            && digits_value(digits) == slot)),
{
    reveal_strlit("\n");
    let text = head + "\n"@ + digits;
    let start = head.len() + 1;
    assert(text.subrange(start as int, text.len() as int) =~= digits);
    assert(is_digit_run(text, start as int, text.len() as int));
    assert forall|from: int, to: int| #[trigger] is_digit_run(head, from, to) implies is_digit_run(
        text,
        from,
        to,
    ) && text.subrange(from, to) == head.subrange(from, to) by {
        assert(text.subrange(from, to) =~= head.subrange(from, to));
    }
    assert forall|from: int, to: int| #[trigger] is_digit_run(text, from, to) implies (is_digit_run(
        head,
        from,
        to,
    ) && text.subrange(from, to) == head.subrange(from, to)) || (from == start && to
        == text.len()) by {
        let run = text.subrange(from, to);
        if from < start {
            if to >= start {
                assert(!is_digit(run[head.len() - from]));
            }
            assert(run =~= head.subrange(from, to));
            assert(is_digit_run(head, from, to));
        } else {
            if from > start {
                assert(is_digit(digits[from - 1 - start]));
            }
            if to < text.len() {
                assert(is_digit(digits[to - start]));
            }
        }
    }
}

proof fn lines_read_back(numbers: Seq<u8>, slot: u8)
    ensures
        lists_slot(lines(numbers), slot) == (1 <= slot <= 3 && numbers.contains(slot)),
        !lines(numbers).contains('['),
    decreases numbers.len(),
{
    reveal_strlit("\n");
    if numbers.len() == 0 {
    } else {
        let last = numbers.last();
        let digits = decimal(last as nat);
        decimal_reads_back(last as nat);
        if numbers.len() == 1 {
            assert(digits.subrange(0, digits.len() as int) =~= digits);
            assert(is_digit_run(digits, 0, digits.len() as int));
            assert forall|from: int, to: int| #[trigger]
                is_digit_run(digits, from, to) implies from == 0 && to == digits.len() by {
                if from > 0 {
                    assert(is_digit(digits[from - 1]));
                }
                if to < digits.len() {
                    assert(is_digit(digits[to]));
                }
            }
            assert(numbers[0] == last);
        } else {
            let head = numbers.drop_last();
            lines_read_back(head, slot);
            runs_of_lines(lines(head), digits, slot);
            assert(numbers[numbers.len() - 1] == last);
            if head.contains(slot) {
                let i = choose|i: int| 0 <= i < head.len() && head[i] == slot;
                assert(numbers[i] == slot);
            }
            if numbers.contains(slot) && slot != last {
                let i = choose|i: int| 0 <= i < numbers.len() && numbers[i] == slot;
                assert(head[i] == slot);
            }
            let text = lines(numbers);
            if text.contains('[') {
                let i = choose|i: int| 0 <= i < text.len() && text[i] == '[';
                if i < lines(head).len() {
                    assert(lines(head)[i] == '[');
                } else if i > lines(head).len() {
                    assert(is_digit(digits[i - lines(head).len() - 1]));
                }
            }
        }
    }
}

/// A written exclusion list excludes, when it is read, the existing slots that it was
/// written for and no others.
pub proof fn exclusion_list_reads_back(slots: Set<u8>)
    ensures
        excluded_by(exclusion_list(slots)) == slots.filter(|slot: u8| 1 <= slot <= 3),
{
    let numbers = ascending(slots, 256);
    lines_read_back(numbers, 0);
    assert forall|slot: u8| #[trigger]
        excluded_by(exclusion_list(slots)).contains(slot) == (1 <= slot <= 3 && slots.contains(
            slot,
        )) by {
        lines_read_back(numbers, slot);
        ascending_members(slots, 256, slot);
    }
    assert(excluded_by(exclusion_list(slots)) =~= slots.filter(|slot: u8| 1 <= slot <= 3));
}

/// Whether a text is an exclusion list that was written.
pub open spec fn is_exclusion_list(text: Seq<char>) -> bool {
    exists|slots: Set<u8>| text == #[trigger] exclusion_list(slots)
}

/// Changing an exclusion takes effect and changes nothing else: where there are only exclusion
/// files that were written here, and the new list then stands in all of them, what they exclude
/// is what they excluded before with, or without, the slot.
pub proof fn exclusion_changes_take_effect(
    before: Seq<Seq<char>>,
    after: Seq<Seq<char>>,
    slot: u8,
    exclude: bool,
)
    requires
        1 <= slot <= 3,
        forall|i: int| 0 <= i < before.len() ==> is_exclusion_list(#[trigger] before[i]),
        after.len() > 0,
        forall|i: int|
            0 <= i < after.len() ==> #[trigger] after[i] == exclusion_list(
                toggled(excluded_by_any(before), slot, exclude),
            ),
    ensures
        excluded_by_any(after) == toggled(excluded_by_any(before), slot, exclude),
{
    let old = excluded_by_any(before);
    let wanted = toggled(old, slot, exclude);
    assert forall|s: u8| #[trigger] old.contains(s) implies 1 <= s <= 3 by {
        let i = choose|i: int|
            0 <= i < before.len() && (#[trigger] excluded_by(before[i])).contains(s);
        assert(is_exclusion_list(before[i]));
        let slots = choose|slots: Set<u8>| before[i] == #[trigger] exclusion_list(slots);
        exclusion_list_reads_back(slots);
    }
    exclusion_list_reads_back(wanted);
    assert(after[0] == exclusion_list(wanted));
    assert forall|s: u8| #[trigger] excluded_by_any(after).contains(s) == wanted.contains(s) by {
        if wanted.contains(s) {
            assert(excluded_by(after[0]).contains(s));
        }
    }
    assert(excluded_by_any(after) =~= wanted);
}

/// What is written for a change of an exclusion, once it stands in all exclusion files, excludes
/// the slot or no longer does, and every other slot as before. For a slot that does not exist
/// nothing is written.
pub proof fn exclusion_changes_are_exact(
    before: Seq<Seq<char>>,
    after: Seq<Seq<char>>,
    slot: u8,
    exclude: bool,
    other: u8,
)
    requires
        forall|i: int| 0 <= i < before.len() ==> is_exclusion_list(#[trigger] before[i]),
        after.len() > 0,
    ensures
        1 <= slot <= 3 ==> (changed_list(before, slot, exclude) matches Ok(list) && ((forall|i: int|
            0 <= i < after.len() ==> #[trigger] after[i] == list) ==> excluded_by_any(
            after,
        ).contains(slot) == exclude && (other != slot ==> excluded_by_any(after).contains(other)
            == excluded_by_any(before).contains(other)))),
        !(1 <= slot <= 3) ==> changed_list(before, slot, exclude) == Err::<Seq<char>, InvalidSlot>(
            InvalidSlot(slot),
        ),
{
    if 1 <= slot <= 3 && forall|i: int|
        0 <= i < after.len() ==> #[trigger] after[i] == exclusion_list(
            toggled(excluded_by_any(before), slot, exclude),
        ) {
        exclusion_changes_take_effect(before, after, slot, exclude);
    }
}

/// Whether a number stands alone in a text, with no digit in front of it and none behind it.
pub open spec fn number_stands_alone(text: Seq<char>, from: int, to: int, n: nat) -> bool {
    &&& 0 <= from < to <= text.len()
    &&& is_number(text.subrange(from, to), n)
    &&& from > 0 ==> !('0' <= text[from - 1] <= '9')
    &&& to < text.len() ==> !('0' <= text[to] <= '9')
}

/// A file of loose numbers excludes exactly the slots from 1 to 3 whose numbers stand alone in it,
/// with zeros in front of them or not. A file that is an array of numbers excludes those.
pub proof fn loose_numbers_exclude_slots(text: Seq<char>, slot: u8)
    ensures
        !text.contains('[') || json_slots(text) is None ==> (excluded_by(text).contains(slot)
            <==> 1 <= slot <= 3 && exists|from: int, to: int| #[trigger]
            number_stands_alone(text, from, to, slot as nat)),
        text.contains('[') ==> (json_slots(text) matches Some(slots) ==> excluded_by(text)
            == slots),
{
    if lists_slot(text, slot) {
        let (from, to) = choose|from: int, to: int| #[trigger]
            is_digit_run(text, from, to) && digits_value(text.subrange(from, to)) == slot;
        let run = text.subrange(from, to);
        assert(is_digit(run[0]));
        assert(without_sign(run) == run);
        assert(parsed(run, slot as int) == Some(slot as int));
        numbers_are_read(run, slot as int, slot as nat);
        assert(number_stands_alone(text, from, to, slot as nat));
    }
    if 1 <= slot <= 3 && exists|from: int, to: int| #[trigger]
        number_stands_alone(text, from, to, slot as nat) {
        let (from, to) = choose|from: int, to: int| #[trigger]
            number_stands_alone(text, from, to, slot as nat);
        let run = text.subrange(from, to);
        numbers_are_read(run, slot as int, slot as nat);
        assert(parsed(run, slot as int) == Some(slot as int));
        numbers_are_digits(run, slot as nat);
        assert(is_digit_run(text, from, to));
    }
}

/// Several files exclude together what each of them excludes.
pub proof fn every_file_excludes(texts: Seq<Seq<char>>, slot: u8)
    ensures
        excluded_by_any(texts).contains(slot) <==> exists|i: int|
            0 <= i < texts.len() && (#[trigger] excluded_by(texts[i])).contains(slot),
{
}

} // verus!
