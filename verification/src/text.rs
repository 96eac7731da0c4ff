//! Text: ASCII case, searching, decimal numbers.
use vstd::prelude::*;

verus! {

/// `String::push` appends one character.
pub assume_specification[ String::push ](text: &mut String, c: char)
    ensures
        final(text)@ == old(text)@.push(c),
;

/// `c` with the ASCII letters A to Z in lower case.
pub open spec fn lower_char(c: char) -> char {
    if 'A' <= c <= 'Z' {
        (c as int + 32) as char
    } else {
        c
    }
}

/// `text` with the ASCII letters A to Z in lower case.
pub open spec fn ascii_lower(text: Seq<char>) -> Seq<char> {
    Seq::new(text.len(), |i: int| lower_char(text[i]))
}

/// `c` with the ASCII letters a to z in upper case.
pub open spec fn upper_char(c: char) -> char {
    if 'a' <= c <= 'z' {
        (c as int - 32) as char
    } else {
        c
    }
}

/// `text` with the ASCII letters a to z in upper case.
pub open spec fn ascii_upper(text: Seq<char>) -> Seq<char> {
    Seq::new(text.len(), |i: int| upper_char(text[i]))
}

/// Whether `part` stands in `text` from position `at` on.
pub open spec fn stands_at(text: Seq<char>, part: Seq<char>, at: int) -> bool {
    0 <= at && at + part.len() <= text.len() && text.subrange(at, at + part.len()) == part
}

/// Whether `part` occurs somewhere in `text`.
pub open spec fn contains_text(text: Seq<char>, part: Seq<char>) -> bool {
    exists|at: int| #[trigger] stands_at(text, part, at)
}

/// Whether `c` is an ASCII digit.
pub open spec fn is_digit(c: char) -> bool {
    '0' <= c <= '9'
}

/// Whether every character of `text` is an ASCII digit.
pub open spec fn all_digits(text: Seq<char>) -> bool {
    forall|i: int| 0 <= i < text.len() ==> is_digit(#[trigger] text[i])
}

/// The number that a sequence of digits stands for.
pub open spec fn digits_value(digits: Seq<char>) -> int
    decreases digits.len(),
{
    if digits.len() == 0 {
        0
    } else {
        digits_value(digits.drop_last()) * 10 + (digits.last() as int - '0' as int)
    }
}

/// `text` without a leading plus sign.
pub open spec fn without_sign(text: Seq<char>) -> Seq<char> {
    if text.len() > 0 && text[0] == '+' {
        text.skip(1)
    } else {
        text
    }
}

/// The number of at most `max` that `text` spells: an optional plus sign and at least one
/// digit, nothing else.
pub open spec fn parsed(text: Seq<char>, max: int) -> Option<int> {
    let digits = without_sign(text);
    if digits.len() > 0 && all_digits(digits) && digits_value(digits) <= max {
        Some(digits_value(digits))
    } else {
        None
    }
}

/// The decimal digits of `n`, without leading zeros.
pub open spec fn decimal(n: nat) -> Seq<char>
    decreases n,
{
    if n < 10 {
        seq![(n + '0' as int) as char]
    } else {
        decimal(n / 10).push((n % 10 + '0' as int) as char)
    }
}

/// The decimal digits of a number read as that number.
pub proof fn decimal_reads_back(n: nat)
    ensures
        decimal(n).len() > 0,
        all_digits(decimal(n)),
        digits_value(decimal(n)) == n,
        parsed(decimal(n), n as int) == Some(n as int),
    decreases n,
{
    if n >= 10 {
        decimal_reads_back(n / 10);
        assert(decimal(n).drop_last() =~= decimal(n / 10));
    } else {
        assert(decimal(n).drop_last() =~= Seq::<char>::empty());
        assert(digits_value(Seq::<char>::empty()) == 0);
    }
    assert(is_digit(decimal(n)[0]));
    assert(without_sign(decimal(n)) == decimal(n));
}

proof fn more_digits_are_more(digits: Seq<char>, k: int)
    requires
        0 <= k <= digits.len(),
        all_digits(digits),
    ensures
        0 <= digits_value(digits.take(k)) <= digits_value(digits),
    decreases digits.len(),
{
    if k == digits.len() {
        assert(digits.take(k) =~= digits);
        if digits.len() > 0 {
            more_digits_are_more(digits.drop_last(), digits.len() - 1);
            assert(digits.drop_last().take(digits.len() - 1) =~= digits.drop_last());
        }
    } else {
        more_digits_are_more(digits.drop_last(), k);
        assert(digits.drop_last().take(k) =~= digits.take(k));
        assert(is_digit(digits[digits.len() - 1]));
    }
}

/// The characters of `text`.
pub fn chars_of(text: &str) -> (chars: Vec<char>)
    ensures
        chars@ == text@,
{
    let mut chars: Vec<char> = Vec::new();
    for c in it: text.chars()
        invariant
            it.seq() == text@,
            chars@ == text@.take(it.index() as int),
    {
        chars.push(c);
        assert(chars@ =~= text@.take(it.index() + 1));
    }
    assert(text@.take(text@.len() as int) =~= text@);
    chars
}

/// The text of `chars[from..to]`.
pub fn text_of(chars: &Vec<char>, from: usize, to: usize) -> (text: String)
    requires
        from <= to <= chars@.len(),
    ensures
        text@ == chars@.subrange(from as int, to as int),
{
    let mut text: String = String::new();
    let mut i: usize = from;
    while i < to
        invariant
            from <= i <= to <= chars@.len(),
            text@ =~= chars@.subrange(from as int, i as int),
        decreases to - i,
    {
        text.push(chars[i]);
        i += 1;
    }
    text
}

/// Whether two texts are equal.
pub fn same_text(a: &str, b: &str) -> (same: bool)
    ensures
        same == (a@ == b@),
{
    let left: String = a.to_owned();
    let right: String = b.to_owned();
    left == right
}

/// Whether two optional texts are equal: both absent, or both present and the same.
pub fn same_optional_text(a: &Option<String>, b: &Option<String>) -> (same: bool)
    ensures
        same == (optional_text(*a) == optional_text(*b)),
{
    match (a, b) {
        (Some(a), Some(b)) => same_text(a.as_str(), b.as_str()),
        (None, None) => true,
        _ => false,
    }
}

/// The characters of an optional text.
pub open spec fn optional_text(text: Option<String>) -> Option<Seq<char>> {
    match text {
        Some(text) => Some(text@),
        None => None,
    }
}

/// `c` with the ASCII letters A to Z in lower case.
pub fn to_lower_char(c: char) -> (lower: char)
    ensures
        lower == lower_char(c),
{
    if 'A' <= c && c <= 'Z' {
        ((c as u8) + 32) as char
    } else {
        c
    }
}

/// `text` with the ASCII letters A to Z in lower case.
pub fn to_ascii_lowercase(text: &str) -> (lower: String)
    ensures
        lower@ == ascii_lower(text@),
{
    let mut lower: String = String::new();
    for c in it: text.chars()
        invariant
            it.seq() == text@,
            lower@ == ascii_lower(text@).take(it.index() as int),
    {
        lower.push(to_lower_char(c));
        assert(lower@ =~= ascii_lower(text@).take(it.index() + 1));
    }
    assert(ascii_lower(text@).take(text@.len() as int) =~= ascii_lower(text@));
    lower
}

/// Whether two texts are equal up to the case of ASCII letters.
pub fn eq_ignore_ascii_case(a: &str, b: &str) -> (same: bool)
    ensures
        same == (ascii_lower(a@) == ascii_lower(b@)),
{
    to_ascii_lowercase(a) == to_ascii_lowercase(b)
}

/// Whether `part` stands in `text` from position `at` on.
fn matches_at(text: &Vec<char>, part: &Vec<char>, at: usize) -> (found: bool)
    requires
        at + part@.len() <= text@.len(),
    ensures
        found == stands_at(text@, part@, at as int),
{
    let end: usize = text.len();
    let mut i: usize = 0;
    while i < part.len()
        invariant
            i <= part@.len(),
            at + part@.len() <= text@.len(),
            end == text@.len(),
            forall|j: int| 0 <= j < i ==> text@[at + j] == part@[j],
        decreases part@.len() - i,
    {
        if text[at + i] != part[i] {
            assert(text@.subrange(at as int, at + part@.len())[i as int] != part@[i as int]);
            return false;
        }
        i += 1;
    }
    assert(text@.subrange(at as int, at + part@.len()) =~= part@);
    true
}

/// Whether `text` starts with `part`.
pub fn starts_with(text: &str, part: &str) -> (found: bool)
    ensures
        found == stands_at(text@, part@, 0),
{
    let chars: Vec<char> = chars_of(text);
    let wanted: Vec<char> = chars_of(part);
    wanted.len() <= chars.len() && matches_at(&chars, &wanted, 0)
}

/// Whether `part` occurs somewhere in `text`.
pub fn contains(text: &str, part: &str) -> (found: bool)
    ensures
        found == contains_text(text@, part@),
{
    let chars: Vec<char> = chars_of(text);
    let wanted: Vec<char> = chars_of(part);
    let mut at: usize = 0;
    while at <= chars.len() && wanted.len() <= chars.len() - at
        invariant
            chars@ == text@,
            wanted@ == part@,
            at <= chars@.len() + 1,
            forall|k: int| 0 <= k < at ==> !#[trigger] stands_at(text@, part@, k),
        decreases chars@.len() + 1 - at,
    {
        if matches_at(&chars, &wanted, at) {
            return true;
        }
        if at == chars.len() {
            assert(forall|k: int| !#[trigger] stands_at(text@, part@, k));
            return false;
        }
        at += 1;
    }
    assert(forall|k: int| !#[trigger] stands_at(text@, part@, k));
    false
}

/// The decimal digits of `n`.
pub fn to_decimal(n: u64) -> (text: String)
    ensures
        text@ == decimal(n as nat),
    decreases n,
{
    let mut text: String = if n < 10 {
        String::new()
    } else {
        to_decimal(n / 10)
    };
    text.push(((n % 10) as u8 + 48) as char);
    assert(text@ =~= decimal(n as nat));
    text
}

/// Reads a number of at most `max`: an optional plus sign and digits, as integers parse.
pub fn parse_decimal(text: &str, max: u64) -> (number: Option<u64>)
    ensures
        match number {
            Some(number) => parsed(text@, max as int) == Some(number as int),
            None => parsed(text@, max as int) is None,
        },
{
    let chars: Vec<char> = chars_of(text);
    let start: usize = if chars.len() > 0 && chars[0] == '+' {
        1
    } else {
        0
    };
    let ghost digits = without_sign(text@);
    assert(digits =~= chars@.skip(start as int));
    if chars.len() == start {
        return None;
    }
    let mut value: u64 = 0;
    let mut i: usize = start;
    while i < chars.len()
        invariant
            start <= i <= chars@.len(),
            chars@ == text@,
            digits == without_sign(text@),
            digits == chars@.skip(start as int),
            forall|j: int| 0 <= j < i - start ==> is_digit(#[trigger] digits[j]),
            value == digits_value(digits.take(i - start)),
            value <= max,
        decreases chars@.len() - i,
    {
        let c: char = chars[i];
        assert(c == digits[i - start]);
        if !('0' <= c && c <= '9') {
            return None;
        }
        let digit: u64 = (c as u8 - 48) as u64;
        proof {
            assert(digits.take(i + 1 - start).drop_last() =~= digits.take(i - start));
            if all_digits(digits) {
                more_digits_are_more(digits, i + 1 - start);
            }
        }
        let longer: u128 = value as u128 * 10 + digit as u128;
        if longer > max as u128 {
            return None;
        }
        value = longer as u64;
        i += 1;
    }
    assert(digits.take(digits.len() as int) =~= digits);
    Some(value)
}

/// The decimal digits of `n`, with a sign in front where it is negative.
pub open spec fn signed_decimal(n: int) -> Seq<char> {
    if n < 0 {
        "-"@ + decimal((-n) as nat)
    } else {
        decimal(n as nat)
    }
}

/// The decimal digits of `n`, with a sign in front where it is negative.
pub fn to_signed_decimal(n: i32) -> (text: String)
    ensures
        text@ == signed_decimal(n as int),
{
    if n < 0 {
        let mut text: String = "-".to_owned();
        text.append(to_decimal((-(n as i64)) as u64).as_str());
        text
    } else {
        to_decimal(n as u64)
    }
}

/// So many zeros in decimal.
pub open spec fn zeros(count: nat) -> Seq<char> {
    Seq::new(count, |i: int| '0')
}

proof fn digits_are_zeros_and_decimal(digits: Seq<char>) -> (leading: nat)
    requires
        digits.len() > 0,
        all_digits(digits),
    ensures
        digits_value(digits) >= 0,
        digits == zeros(leading) + decimal(digits_value(digits) as nat),
    decreases digits.len(),
{
    let fewer = digits.drop_last();
    let last = digits.last();
    assert(is_digit(digits[digits.len() - 1]));
    reveal_with_fuel(digits_value, 2);
    assert forall|i: int| 0 <= i < fewer.len() implies is_digit(#[trigger] fewer[i]) by {
        assert(fewer[i] == digits[i]);
    }
    if fewer.len() == 0 {
        assert(decimal(digits_value(digits) as nat) =~= seq![last]);
        assert(digits =~= zeros(0) + seq![last]);
        0
    } else {
        let leading = digits_are_zeros_and_decimal(fewer);
        let before = digits_value(fewer);
        assert(digits =~= fewer.push(last));
        if before > 0 {
            assert(decimal(digits_value(digits) as nat) =~= decimal(before as nat).push(last));
            assert(digits =~= zeros(leading) + decimal(digits_value(digits) as nat));
            leading
        } else {
            assert(decimal(0) =~= seq!['0']);
            assert(decimal(digits_value(digits) as nat) =~= seq![last]);
            assert(digits =~= zeros(leading + 1) + seq![last]);
            leading + 1
        }
    }
}

proof fn leading_zeros_add_nothing(leading: nat, n: nat)
    ensures
        all_digits(zeros(leading) + decimal(n)),
        digits_value(zeros(leading) + decimal(n)) == n,
    decreases leading + decimal(n).len(),
{
    decimal_reads_back(n);
    zeros_have_no_value(leading);
    let text = zeros(leading) + decimal(n);
    if n < 10 {
        assert(text.drop_last() =~= zeros(leading));
        assert(text.last() == decimal(n)[0]);
    } else {
        assert(decimal(n).drop_last() =~= decimal(n / 10));
        leading_zeros_add_nothing(leading, n / 10);
        assert(text.drop_last() =~= zeros(leading) + decimal(n / 10));
        assert(text.last() == decimal(n).last());
    }
}

proof fn zeros_have_no_value(leading: nat)
    ensures
        digits_value(zeros(leading)) == 0,
    decreases leading,
{
    if leading > 0 {
        zeros_have_no_value((leading - 1) as nat);
        assert(zeros(leading).drop_last() =~= zeros((leading - 1) as nat));
    }
}

/// Whether a text is a number in decimal, behind any number of zeros.
pub open spec fn is_number(text: Seq<char>, n: nat) -> bool {
    exists|leading: nat| text == #[trigger] zeros(leading) + decimal(n)
}

/// Exactly the numbers in decimal up to the limit are read, with zeros in front of them or not,
/// and with a plus sign in front of that or not.
pub proof fn numbers_are_read(text: Seq<char>, max: int, n: nat)
    ensures
        parsed(text, max) matches Some(number) ==> 0 <= number <= max,
        parsed(text, max) == Some(n as int) <==> n <= max && (is_number(text, n) || (text.len() > 0
            && text[0] == '+' && is_number(text.skip(1), n))),
{
    let digits = without_sign(text);
    if digits.len() > 0 && all_digits(digits) {
        let leading = digits_are_zeros_and_decimal(digits);
        assert(is_number(digits, digits_value(digits) as nat));
    }
    decimal_reads_back(n);
    if is_number(text, n) {
        let leading = choose|leading: nat| text == #[trigger] zeros(leading) + decimal(n);
        leading_zeros_add_nothing(leading, n);
        assert(is_digit(text[0]));
    }
    if text.len() > 0 && text[0] == '+' && is_number(text.skip(1), n) {
        let leading = choose|leading: nat| text.skip(1) == #[trigger] zeros(leading) + decimal(n);
        leading_zeros_add_nothing(leading, n);
    }
}

/// A number in decimal is made of digits, and its value is the number.
pub proof fn numbers_are_digits(text: Seq<char>, n: nat)
    requires
        is_number(text, n),
    ensures
        text.len() > 0,
        all_digits(text),
        digits_value(text) == n,
        without_sign(text) == text,
{
    let leading = choose|leading: nat| text == #[trigger] zeros(leading) + decimal(n);
    decimal_reads_back(n);
    leading_zeros_add_nothing(leading, n);
    assert(is_digit(text[0]));
}

} // verus!
