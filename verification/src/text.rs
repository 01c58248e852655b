//! Text helpers: comparison, white space, trimming, decimal numbers and joining.
use vstd::prelude::*;
use vstd::string::StringExecFns;

verus! {

/// The 25 code points with the Unicode `White_Space` property.
pub open spec fn is_white_space(c: char) -> bool {
    let code = c as u32;
    ||| 0x09 <= code <= 0x0d
    ||| code == 0x20
    ||| code == 0x85
    ||| code == 0xa0
    ||| code == 0x1680
    ||| 0x2000 <= code <= 0x200a
    ||| code == 0x2028
    ||| code == 0x2029
    ||| code == 0x202f
    ||| code == 0x205f
    ||| code == 0x3000
}

/// Whether a text has no character outside white space.
pub open spec fn blank(text: Seq<char>) -> bool {
    forall|i: int| 0 <= i < text.len() ==> is_white_space(#[trigger] text[i])
}

/// A text without its leading white space.
pub open spec fn trim_start_text(text: Seq<char>) -> Seq<char>
    decreases text.len(),
{
    if text.len() > 0 && is_white_space(text[0]) {
        trim_start_text(text.drop_first())
    } else {
        text
    }
}

/// A text without its trailing white space.
pub open spec fn trim_end_text(text: Seq<char>) -> Seq<char>
    decreases text.len(),
{
    if text.len() > 0 && is_white_space(text.last()) {
        trim_end_text(text.drop_last())
    } else {
        text
    }
}

/// A text without the white space at both ends.
pub open spec fn trim_text(text: Seq<char>) -> Seq<char> {
    trim_end_text(trim_start_text(text))
}

/// A text without the copies of one character at its end.
pub open spec fn strip_end_text(text: Seq<char>, c: char) -> Seq<char>
    decreases text.len(),
{
    if text.len() > 0 && text.last() == c {
        strip_end_text(text.drop_last(), c)
    } else {
        text
    }
}

/// The decimal digit of a number below ten.
pub open spec fn digit_char(digit: int) -> char {
    (('0' as u8) + digit) as u8 as char
}

/// A natural number in decimal, without leading zeros.
pub open spec fn decimal_text(n: nat) -> Seq<char>
    decreases n,
{
    if n < 10 {
        seq![digit_char(n as int)]
    } else {
        decimal_text(n / 10).push(digit_char((n % 10) as int))
    }
}

/// Whether every character is an ASCII digit.
pub open spec fn all_digits(text: Seq<char>) -> bool {
    forall|i: int| 0 <= i < text.len() ==> '0' <= #[trigger] text[i] <= '9'
}

/// The number that a text of ASCII digits writes.
pub open spec fn decimal_value(text: Seq<char>) -> nat
    decreases text.len(),
{
    if text.len() == 0 {
        0
    } else {
        decimal_value(text.drop_last()) * 10 + (text.last() as nat - '0' as nat) as nat
    }
}

/// The text of a number without the `+` that may stand before it.
pub open spec fn unsigned_part(text: Seq<char>) -> Seq<char> {
    if text.len() > 0 && text[0] == '+' {
        text.drop_first()
    } else {
        text
    }
}

/// What a text says as an unsigned 64-bit number: an optional `+` and at least
/// one digit, and a value that fits.
pub open spec fn parsed_u64(text: Seq<char>) -> Option<u64> {
    let digits = unsigned_part(text);
    if digits.len() > 0 && all_digits(digits) && decimal_value(digits) <= u64::MAX {
        Some(decimal_value(digits) as u64)
    } else {
        None
    }
}

/// The parts of a text in order, with a separator between neighbours.
pub open spec fn joined(parts: Seq<Seq<char>>, separator: Seq<char>) -> Seq<char>
    decreases parts.len(),
{
    if parts.len() == 0 {
        Seq::empty()
    } else if parts.len() == 1 {
        parts[0]
    } else {
        joined(parts.drop_last(), separator) + separator + parts.last()
    }
}

/// The texts that a sequence of strings holds.
pub open spec fn texts(parts: Seq<String>) -> Seq<Seq<char>> {
    parts.map_values(|part: String| part@)
}

/// An optional text.
pub open spec fn text_option(text: Option<String>) -> Option<Seq<char>> {
    match text {
        Some(value) => Some(value@),
        None => None,
    }
}

/// The length of a text in UTF-8 bytes.
pub open spec fn byte_len(text: Seq<char>) -> nat {
    vstd::utf8::encode_utf8(text).len()
}

/// `str`'s `==` of std: two strings are equal when they hold the same characters.
#[verifier::external_body]
pub(crate) fn same_text(left: &str, right: &str) -> (same: bool)
    ensures
        same == (left@ == right@),
{
    left == right
}

/// `String::push` of std: appends one character.
#[verifier::external_body]
pub(crate) fn push_char(text: &mut String, c: char)
    ensures
        final(text)@ == old(text)@.push(c),
{
    text.push(c)
}

/// The characters of a text.
pub fn to_chars(text: &str) -> (chars: Vec<char>)
    ensures
        chars@ == text@,
{
    let mut chars: Vec<char> = Vec::new();
    for c in it: text.chars()
        invariant
            it.seq() == text@,
            chars@ == text@.take(it.index()),
    {
        proof {
            assert(text@.take(it.index() + 1) =~= text@.take(it.index()).push(c));
        }
        chars.push(c);
    }
    assert(text@.take(text@.len() as int) =~= text@);
    chars
}

/// The text made of the characters from `start` up to `end`.
pub fn from_chars(chars: &Vec<char>, start: usize, end: usize) -> (text: String)
    requires
        start <= end <= chars@.len(),
    ensures
        text@ == chars@.subrange(start as int, end as int),
{
    let mut text = String::new();
    let mut i: usize = start;
    while i < end
        invariant
            start <= i <= end <= chars@.len(),
            text@ == chars@.subrange(start as int, i as int),
        decreases end - i,
    {
        push_char(&mut text, chars[i]);
        i += 1;
        assert(chars@.subrange(start as int, i as int) =~= chars@.subrange(
            start as int,
            i - 1,
        ).push(chars@[i - 1]));
    }
    assert(text@ =~= chars@.subrange(start as int, end as int));
    text
}

/// Whether a character is white space.
pub fn is_white(c: char) -> (white: bool)
    ensures
        white == is_white_space(c),
{
    let code: u32 = c as u32;
    (code >= 0x09 && code <= 0x0d) || code == 0x20 || code == 0x85 || code == 0xa0 || code == 0x1680
        || (code >= 0x2000 && code <= 0x200a) || code == 0x2028 || code == 0x2029 || code == 0x202f
        || code == 0x205f || code == 0x3000
}

/// Whether a text is empty or white space only.
pub fn is_blank(text: &str) -> (result: bool)
    ensures
        result == blank(text@),
{
    let chars = to_chars(text);
    let mut i: usize = 0;
    while i < chars.len()
        invariant
            i <= chars@.len(),
            chars@ == text@,
            forall|j: int| 0 <= j < i ==> is_white_space(#[trigger] text@[j]),
        decreases chars@.len() - i,
    {
        if !is_white(chars[i]) {
            return false;
        }
        i += 1;
    }
    true
}

/// Trimming from the front moves over the white space and stops.
proof fn lemma_trim_start_at(text: Seq<char>, start: int)
    requires
        0 <= start <= text.len(),
        forall|j: int| 0 <= j < start ==> is_white_space(#[trigger] text[j]),
        start == text.len() || !is_white_space(text[start]),
    ensures
        trim_start_text(text) == text.subrange(start, text.len() as int),
    decreases start,
{
    if start > 0 {
        assert(is_white_space(text[0]));
        let rest = text.drop_first();
        assert forall|j: int| 0 <= j < start - 1 implies is_white_space(#[trigger] rest[j]) by {
            assert(rest[j] == text[j + 1]);
        }
        lemma_trim_start_at(rest, start - 1);
        assert(rest.subrange(start - 1, rest.len() as int) =~= text.subrange(
            start,
            text.len() as int,
        ));
    } else {
        assert(text.subrange(0, text.len() as int) =~= text);
    }
}

/// Trimming from the back moves over the white space and stops.
proof fn lemma_trim_end_at(text: Seq<char>, end: int)
    requires
        0 <= end <= text.len(),
        forall|j: int| end <= j < text.len() ==> is_white_space(#[trigger] text[j]),
        end == 0 || !is_white_space(text[end - 1]),
    ensures
        trim_end_text(text) == text.subrange(0, end),
    decreases text.len() - end,
{
    if end < text.len() {
        assert(is_white_space(text[text.len() - 1]));
        lemma_trim_end_at(text.drop_last(), end);
        assert(text.drop_last().subrange(0, end) =~= text.subrange(0, end));
    } else {
        assert(text.subrange(0, end) =~= text);
    }
}

/// Trimming leaves nothing exactly of a blank text.
pub proof fn blank_texts_trim_to_nothing(text: Seq<char>)
    ensures
        blank(text) <==> trim_text(text).len() == 0,
    decreases text.len(),
{
    if text.len() > 0 && is_white_space(text[0]) {
        let rest = text.drop_first();
        blank_texts_trim_to_nothing(rest);
        if blank(rest) {
            assert forall|i: int| 0 <= i < text.len() implies is_white_space(#[trigger] text[i]) by {
                if i > 0 {
                    assert(rest[i - 1] == text[i]);
                }
            }
        }
        if blank(text) {
            assert forall|i: int| 0 <= i < rest.len() implies is_white_space(#[trigger] rest[i]) by {
                assert(rest[i] == text[i + 1]);
            }
        }
    } else if text.len() > 0 {
        lemma_trim_end_keeps(text);
    }
}

/// Trimming from the back keeps a first character that is no white space.
proof fn lemma_trim_end_keeps(text: Seq<char>)
    requires
        text.len() > 0,
        !is_white_space(text[0]),
    ensures
        trim_end_text(text).len() > 0,
    decreases text.len(),
{
    if is_white_space(text.last()) {
        assert(text.len() > 1);
        assert(text.drop_last()[0] == text[0]);
        lemma_trim_end_keeps(text.drop_last());
    }
}

/// The text without its leading white space.
pub fn trim_start(text: &str) -> (trimmed: String)
    ensures
        trimmed@ == trim_start_text(text@),
{
    let chars = to_chars(text);
    let mut i: usize = 0;
    while i < chars.len() && is_white(chars[i])
        invariant
            i <= chars@.len(),
            forall|j: int| 0 <= j < i ==> is_white_space(#[trigger] chars@[j]),
        decreases chars@.len() - i,
    {
        i += 1;
    }
    proof {
        lemma_trim_start_at(chars@, i as int);
    }
    from_chars(&chars, i, chars.len())
}

/// The text without the white space at both ends.
pub fn trim(text: &str) -> (trimmed: String)
    ensures
        trimmed@ == trim_text(text@),
{
    let start = trim_start(text);
    let chars = to_chars(start.as_str());
    let mut end: usize = chars.len();
    while end > 0 && is_white(chars[end - 1])
        invariant
            end <= chars@.len(),
            forall|j: int| end <= j < chars@.len() ==> is_white_space(#[trigger] chars@[j]),
        decreases end,
    {
        end -= 1;
    }
    proof {
        lemma_trim_end_at(chars@, end as int);
    }
    from_chars(&chars, 0, end)
}

/// The text without the copies of `c` at its end.
pub fn strip_end(text: &str, c: char) -> (stripped: String)
    ensures
        stripped@ == strip_end_text(text@, c),
{
    let chars = to_chars(text);
    let mut end: usize = chars.len();
    proof {
        assert(chars@.subrange(0, end as int) =~= chars@);
    }
    while end > 0 && chars[end - 1] == c
        invariant
            end <= chars@.len(),
            strip_end_text(chars@.subrange(0, end as int), c) == strip_end_text(chars@, c),
        decreases end,
    {
        end -= 1;
        assert(chars@.subrange(0, end + 1).drop_last() =~= chars@.subrange(0, end as int));
    }
    from_chars(&chars, 0, end)
}

/// The character of a decimal digit.
fn digit(d: u64) -> (c: char)
    requires
        d < 10,
    ensures
        c == digit_char(d as int),
{
    (48u8 + d as u8) as char
}

/// A number in decimal.
pub fn decimal(n: u64) -> (text: String)
    ensures
        text@ == decimal_text(n as nat),
    decreases n,
{
    if n < 10 {
        let mut text = String::new();
        push_char(&mut text, digit(n));
        assert(text@ =~= seq![digit_char(n as int)]);
        text
    } else {
        let mut text = decimal(n / 10);
        push_char(&mut text, digit(n % 10));
        text
    }
}

/// A longer run of digits never writes a smaller number.
proof fn lemma_decimal_value_grows(text: Seq<char>, count: int)
    requires
        0 <= count <= text.len(),
    ensures
        decimal_value(text.take(count)) <= decimal_value(text),
    decreases text.len() - count,
{
    if count < text.len() {
        lemma_decimal_value_grows(text, count + 1);
        assert(text.take(count + 1).drop_last() =~= text.take(count));
    } else {
        assert(text.take(count) =~= text);
    }
}

/// Reads an unsigned 64-bit number: an optional `+`, then digits only.
pub fn parse_u64(text: &str) -> (parsed: Option<u64>)
    ensures
        parsed == parsed_u64(text@),
{
    let chars = to_chars(text);
    let start: usize = if chars.len() > 0 && chars[0] == '+' {
        1
    } else {
        0
    };
    let ghost digits = unsigned_part(text@);
    assert(digits =~= chars@.subrange(start as int, chars@.len() as int));
    if start == chars.len() {
        return None;
    }
    let mut value: u64 = 0;
    let mut i: usize = start;
    while i < chars.len()
        invariant
            start <= i <= chars@.len(),
            digits == unsigned_part(text@),
            digits == chars@.subrange(start as int, chars@.len() as int),
            forall|j: int| 0 <= j < i - start ==> '0' <= #[trigger] digits[j] <= '9',
            value == decimal_value(digits.take(i - start)),
        decreases chars@.len() - i,
    {
        let c = chars[i];
        assert(c == digits[i - start]);
        if c < '0' || c > '9' {
            return None;
        }
        let d: u64 = (c as u32 - '0' as u32) as u64;
        proof {
            assert(digits.take(i - start + 1).drop_last() =~= digits.take(i - start));
            assert(decimal_value(digits.take(i - start + 1)) == value * 10 + d);
            lemma_decimal_value_grows(digits, i - start + 1);
        }
        if value > (u64::MAX - d) / 10 {
            return None;
        }
        value = value * 10 + d;
        i += 1;
    }
    assert(digits.take(digits.len() as int) =~= digits);
    Some(value)
}

/// Appends a text.
pub fn append(text: &mut String, more: &str)
    ensures
        final(text)@ == old(text)@ + more@,
{
    text.append(more)
}

/// Two texts, one after the other.
pub fn concat2(a: &str, b: &str) -> (text: String)
    ensures
        text@ == a@ + b@,
{
    let mut text = a.to_owned();
    text.append(b);
    text
}

/// Three texts, one after the other.
pub fn concat3(a: &str, b: &str, c: &str) -> (text: String)
    ensures
        text@ == a@ + b@ + c@,
{
    let mut text = concat2(a, b);
    text.append(c);
    text
}

/// The parts in order, with the separator between neighbours.
pub fn join(parts: &Vec<String>, separator: &str) -> (text: String)
    ensures
        text@ == joined(texts(parts@), separator@),
{
    let mut text = String::new();
    let mut i: usize = 0;
    while i < parts.len()
        invariant
            i <= parts@.len(),
            text@ == joined(texts(parts@.take(i as int)), separator@),
        decreases parts@.len() - i,
    {
        if i > 0 {
            text.append(separator);
        }
        text.append(parts[i].as_str());
        proof {
            let before = texts(parts@.take(i as int));
            let after = texts(parts@.take(i + 1));
            assert(after.drop_last() =~= before);
            if i == 0 {
                assert(text@ =~= after[0]);
            }
        }
        i += 1;
    }
    assert(parts@.take(parts@.len() as int) =~= parts@);
    text
}

/// The index of the first copy of a character at or after a position.
pub open spec fn char_from(text: Seq<char>, c: char, start: int) -> Option<int>
    decreases text.len() - start,
{
    if start < 0 || start >= text.len() {
        None
    } else if text[start] == c {
        Some(start)
    } else {
        char_from(text, c, start + 1)
    }
}

/// A line without the carriage return before its line feed.
pub open spec fn without_return(line: Seq<char>) -> Seq<char> {
    if line.len() > 0 && line.last() == '\r' {
        line.drop_last()
    } else {
        line
    }
}

/// The lines of a text from a position on. A line feed ends a line, with a
/// carriage return before it where there is one; the last line needs no end.
pub open spec fn lines_from(text: Seq<char>, start: int) -> Seq<Seq<char>>
    decreases text.len() - start,
    when 0 <= start
    via lines_from_decreases
{
    if start >= text.len() {
        Seq::empty()
    } else {
        match char_from(text, '\n', start) {
            Some(end) => seq![without_return(text.subrange(start, end))] + lines_from(
                text,
                end + 1,
            ),
            None => seq![text.subrange(start, text.len() as int)],
        }
    }
}

#[via_fn]
proof fn lines_from_decreases(text: Seq<char>, start: int) {
    lemma_char_from(text, '\n', start);
}

/// The lines of a text.
pub open spec fn lines_of(text: Seq<char>) -> Seq<Seq<char>> {
    lines_from(text, 0)
}

/// A character found is the first one.
pub proof fn lemma_char_from(text: Seq<char>, c: char, start: int)
    requires
        0 <= start,
    ensures
        match char_from(text, c, start) {
            Some(end) => start <= end < text.len() && text[end] == c && forall|j: int|
                start <= j < end ==> (#[trigger] text[j]) != c,
            None => forall|j: int| start <= j < text.len() ==> (#[trigger] text[j]) != c,
        },
    decreases text.len() - start,
{
    if start < text.len() && text[start] != c {
        lemma_char_from(text, c, start + 1);
    }
}

/// The first copy of a character that stands at `end`.
proof fn lemma_char_from_is(text: Seq<char>, c: char, start: int, end: int)
    requires
        0 <= start <= end <= text.len(),
        end == text.len() || text[end] == c,
        forall|j: int| start <= j < end ==> (#[trigger] text[j]) != c,
    ensures
        char_from(text, c, start) == if end == text.len() {
            None
        } else {
            Some(end)
        },
    decreases end - start,
{
    if start < end {
        assert(text[start] != c);
        lemma_char_from_is(text, c, start + 1, end);
    }
}

/// The lines of a text.
pub fn lines(text: &str) -> (result: Vec<String>)
    ensures
        texts(result@) == lines_of(text@),
{
    let chars = to_chars(text);
    let mut result: Vec<String> = Vec::new();
    let mut start: usize = 0;
    assert(texts(result@) + lines_from(chars@, 0) =~= lines_of(text@));
    while start < chars.len()
        invariant
            start <= chars@.len(),
            chars@ == text@,
            texts(result@) + lines_from(chars@, start as int) == lines_of(text@),
        decreases chars@.len() - start,
    {
        let mut end: usize = start;
        while end < chars.len() && chars[end] != '\n'
            invariant
                start <= end <= chars@.len(),
                forall|j: int| start <= j < end ==> (#[trigger] chars@[j]) != '\n',
            decreases chars@.len() - end,
        {
            end += 1;
        }
        proof {
            lemma_char_from_is(chars@, '\n', start as int, end as int);
        }
        let ghost before = texts(result@);
        let ghost rest = lines_from(chars@, start as int);
        if end == chars.len() {
            let line = from_chars(&chars, start, end);
            result.push(line);
            assert(texts(result@) =~= before.push(line@));
            assert(rest =~= seq![line@]);
            assert(before.push(line@) =~= before + rest);
            assert(lines_from(chars@, end as int) =~= Seq::empty());
            assert(texts(result@) + lines_from(chars@, end as int) =~= before + rest);
            start = end;
        } else {
            let stop: usize = if end > start && chars[end - 1] == '\r' {
                end - 1
            } else {
                end
            };
            let line = from_chars(&chars, start, stop);
            result.push(line);
            proof {
                assert(texts(result@) =~= before.push(line@));
                let full = chars@.subrange(start as int, end as int);
                if end > start {
                    assert(full.last() == chars@[end - 1]);
                }
                assert(line@ =~= without_return(full));
                let tail = lines_from(chars@, end + 1);
                assert(rest == seq![line@] + tail);
                assert(before.push(line@) + tail =~= before + (seq![line@] + tail));
            }
            start = end + 1;
        }
    }
    assert(lines_from(chars@, start as int) =~= Seq::empty());
    assert(texts(result@) + Seq::<Seq<char>>::empty() =~= texts(result@));
    result
}

/// A text without a prefix, if it has it.
pub open spec fn without_prefix(text: Seq<char>, prefix: Seq<char>) -> Option<Seq<char>> {
    if prefix.is_prefix_of(text) {
        Some(text.subrange(prefix.len() as int, text.len() as int))
    } else {
        None
    }
}

/// The text without a prefix, if it has it.
pub fn strip_prefix(text: &str, prefix: &str) -> (rest: Option<String>)
    ensures
        text_option(rest) == without_prefix(text@, prefix@),
{
    let chars = to_chars(text);
    let start = to_chars(prefix);
    if start.len() > chars.len() {
        return None;
    }
    let mut i: usize = 0;
    while i < start.len()
        invariant
            i <= start@.len() <= chars@.len(),
            chars@ == text@,
            start@ == prefix@,
            forall|j: int| 0 <= j < i ==> chars@[j] == #[trigger] start@[j],
        decreases start@.len() - i,
    {
        if chars[i] != start[i] {
            assert(text@[i as int] != prefix@[i as int]);
            assert(!prefix@.is_prefix_of(text@)) by {
                if prefix@.is_prefix_of(text@) {
                    assert(text@.subrange(0, prefix@.len() as int)[i as int] == prefix@[i as int]);
                }
            }
            return None;
        }
        i += 1;
    }
    assert(text@.subrange(0, prefix@.len() as int) =~= prefix@);
    Some(from_chars(&chars, start.len(), chars.len()))
}

/// An integer in decimal.
pub open spec fn integer_text(number: i64) -> Seq<char> {
    if number < 0 {
        "-"@ + decimal_text((-number) as nat)
    } else {
        decimal_text(number as nat)
    }
}

/// An integer in decimal.
pub(crate) fn integer(number: i64) -> (text: String)
    ensures
        text@ == integer_text(number),
{
    if number < 0 {
        let size: u64 = (-(number as i128)) as u64;
        concat2("-", decimal(size).as_str())
    } else {
        decimal(number as u64)
    }
}

/// The message of std's error for bytes that are not UTF-8.
pub uninterp spec fn utf8_fault(bytes: Seq<u8>) -> Seq<char>;

/// `String::from_utf8` of std: the text that bytes encode in UTF-8, or what is
/// wrong with them.
#[verifier::external_body]
pub(crate) fn decode_text(bytes: Vec<u8>) -> (result: Result<String, String>)
    ensures
        match result {
            Ok(text) => vstd::utf8::valid_utf8(bytes@) && text@ == vstd::utf8::decode_utf8(bytes@),
            Err(message) => !vstd::utf8::valid_utf8(bytes@) && message@ == utf8_fault(bytes@),
        },
{
    String::from_utf8(bytes).map_err(|error| error.utf8_error().to_string())
}

/// A number that is written in decimal is read back as it was.
pub proof fn lemma_decimal_round_trip(n: nat)
    ensures
        decimal_text(n).len() > 0,
        all_digits(decimal_text(n)),
        decimal_value(decimal_text(n)) == n,
    decreases n,
{
    let text = decimal_text(n);
    if n < 10 {
        assert(text[0] == digit_char(n as int));
        assert(text.drop_last() =~= Seq::empty());
        assert(decimal_value(text.drop_last()) == 0);
    } else {
        lemma_decimal_round_trip(n / 10);
        assert(text.drop_last() =~= decimal_text(n / 10));
        assert forall|i: int| 0 <= i < text.len() implies '0' <= #[trigger] text[i] <= '9' by {
            if i < text.len() - 1 {
                assert(text[i] == decimal_text(n / 10)[i]);
            }
        }
    }
}

/// Trimming takes away the white space around a text and nothing of the text.
pub proof fn lemma_trim_around(before: Seq<char>, text: Seq<char>, after: Seq<char>)
    requires
        blank(before),
        blank(after),
        text.len() > 0,
        !is_white_space(text[0]),
        !is_white_space(text.last()),
    ensures
        trim_text(before + text + after) == text,
    decreases before.len() + after.len(),
{
    let whole = before + text + after;
    if before.len() > 0 {
        assert(is_white_space(before[0]));
        assert(whole[0] == before[0]);
        assert(whole.drop_first() =~= before.drop_first() + text + after);
        assert forall|i: int| 0 <= i < before.drop_first().len() implies is_white_space(
            #[trigger] before.drop_first()[i],
        ) by {
            assert(before.drop_first()[i] == before[i + 1]);
        }
        lemma_trim_around(before.drop_first(), text, after);
    } else {
        assert(whole[0] == text[0]);
        assert(trim_start_text(whole) == whole);
        if after.len() > 0 {
            assert(is_white_space(after[after.len() - 1]));
            assert(whole.last() == after.last());
            let shorter = before + text + after.drop_last();
            assert(whole.drop_last() =~= shorter);
            assert forall|i: int| 0 <= i < after.drop_last().len() implies is_white_space(
                #[trigger] after.drop_last()[i],
            ) by {
                assert(after.drop_last()[i] == after[i]);
            }
            lemma_trim_around(before, text, after.drop_last());
            assert(shorter[0] == text[0]);
            assert(trim_start_text(shorter) == shorter);
        } else {
            assert(whole =~= text);
        }
    }
}

} // verus!
