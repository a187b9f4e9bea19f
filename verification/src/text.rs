//! Text building and text reading, with the exact characters as the contract.

use vstd::prelude::*;

verus! {

/// `String::push` appends the character at the end; nothing else changes.
pub assume_specification[ String::push ](s: &mut String, c: char)
    ensures
        final(s)@ == old(s)@.push(c),
;

/// The text that the standard library's `Debug` formatting gives for a string: quoted, with
/// escapes for quotes, backslashes and unprintable characters.
pub uninterp spec fn debug_text(text: Seq<char>) -> Seq<char>;

/// Calls `format!("{:?}", text)`; the result is a function of the text alone.
#[verifier::external_body]
pub(crate) fn debug_str(text: &str) -> (quoted: String)
    ensures
        quoted@ == debug_text(text@),
{
    format!("{:?}", text)
}

/// The decimal digit `d`, for `d` below ten.
pub open spec fn digit_char(d: nat) -> char {
    ('0' as u32 + d as u32) as char
}

/// A number in decimal, without leading zeros.
pub open spec fn decimal(n: nat) -> Seq<char>
    decreases n,
{
    if n < 10 {
        seq![digit_char(n)]
    } else {
        decimal(n / 10).push(digit_char(n % 10))
    }
}

/// A signed number in decimal.
pub open spec fn signed_decimal(n: int) -> Seq<char> {
    if n < 0 {
        seq!['-'] + decimal((-n) as nat)
    } else {
        decimal(n as nat)
    }
}

/// What `{:?}` prints for an optional string.
pub open spec fn debug_option_text(text: Option<Seq<char>>) -> Seq<char> {
    match text {
        Some(inner) => "Some("@ + debug_text(inner) + ")"@,
        None => "None"@,
    }
}

/// What `{:?}` prints for an optional signed number.
pub open spec fn debug_option_int(number: Option<int>) -> Seq<char> {
    match number {
        Some(inner) => "Some("@ + signed_decimal(inner) + ")"@,
        None => "None"@,
    }
}

/// What `{:?}` prints for a pair of unsigned numbers.
pub open spec fn debug_pair(pair: (u64, u32)) -> Seq<char> {
    "("@ + decimal(pair.0 as nat) + ", "@ + decimal(pair.1 as nat) + ")"@
}

fn digit_to_char(d: u64) -> (c: char)
    requires
        d < 10,
    ensures
        c == digit_char(d as nat),
{
    match d {
        0 => '0',
        1 => '1',
        2 => '2',
        3 => '3',
        4 => '4',
        5 => '5',
        6 => '6',
        7 => '7',
        8 => '8',
        _ => '9',
    }
}

/// Appends `n` in decimal.
pub fn append_u64(out: &mut String, n: u64)
    ensures
        final(out)@ == old(out)@ + decimal(n as nat),
    decreases n,
{
    if n < 10 {
        out.push(digit_to_char(n));
        assert(out@ =~= old(out)@ + decimal(n as nat));
    } else {
        append_u64(out, n / 10);
        out.push(digit_to_char(n % 10));
        assert(out@ =~= old(out)@ + decimal(n as nat));
    }
}

/// Appends `n` in decimal, with a sign if it is negative.
pub fn append_i64(out: &mut String, n: i64)
    ensures
        final(out)@ == old(out)@ + signed_decimal(n as int),
{
    if n >= 0 {
        append_u64(out, n as u64);
    } else {
        out.push('-');
        let magnitude: u64 = if n == i64::MIN {
            9223372036854775808
        } else {
            (-n) as u64
        };
        append_u64(out, magnitude);
        assert(out@ =~= old(out)@ + signed_decimal(n as int));
    }
}

/// `n` in decimal.
pub fn u64_text(n: u64) -> (text: String)
    ensures
        text@ == decimal(n as nat),
{
    let mut text = String::new();
    append_u64(&mut text, n);
    assert(text@ =~= decimal(n as nat));
    text
}

/// What `{:?}` prints for an optional string.
pub fn debug_option_string(text: Option<&String>) -> (printed: String)
    ensures
        printed@ == debug_option_text(
            match text {
                Some(inner) => Some(inner@),
                None => None,
            },
        ),
{
    match text {
        Some(inner) => "Some(".to_owned().concat(debug_str(inner.as_str()).as_str()).concat(")"),
        None => "None".to_owned(),
    }
}

/// What `{:?}` prints for an optional signed number.
pub fn debug_option_i64(number: Option<i64>) -> (printed: String)
    ensures
        printed@ == debug_option_int(
            match number {
                Some(inner) => Some(inner as int),
                None => None,
            },
        ),
{
    match number {
        Some(inner) => {
            let mut printed = "Some(".to_owned();
            append_i64(&mut printed, inner);
            printed.concat(")")
        },
        None => "None".to_owned(),
    }
}

/// What `{:?}` prints for a pair of unsigned numbers.
pub fn debug_pair_text(pair: (u64, u32)) -> (printed: String)
    ensures
        printed@ == debug_pair(pair),
{
    let mut printed = "(".to_owned();
    append_u64(&mut printed, pair.0);
    printed.append(", ");
    append_u64(&mut printed, pair.1 as u64);
    printed.concat(")")
}

/// Two strings have the same characters.
pub fn same_text(a: &str, b: &str) -> (same: bool)
    ensures
        same == (a@ == b@),
{
    let left = a.as_bytes();
    let right = b.as_bytes();
    proof {
        vstd::utf8::encode_utf8_decode_utf8(a@);
        vstd::utf8::encode_utf8_decode_utf8(b@);
    }
    if left.len() != right.len() {
        return false;
    }
    let mut i: usize = 0;
    while i < left.len()
        invariant
            i <= left@.len(),
            left@.len() == right@.len(),
            left@ == vstd::utf8::encode_utf8(a@),
            right@ == vstd::utf8::encode_utf8(b@),
            forall|j: int| 0 <= j < i ==> left@[j] == right@[j],
        decreases left@.len() - i,
    {
        if left[i] != right[i] {
            return false;
        }
        i = i + 1;
    }
    assert(left@ =~= right@);
    true
}

/// An optional text is present and has the given characters.
pub fn option_is(text: Option<&String>, expected: &str) -> (is: bool)
    ensures
        is == (text matches Some(inner) && inner@ == expected@),
{
    match text {
        Some(inner) => same_text(inner.as_str(), expected),
        None => false,
    }
}

/// A text has no characters.
pub fn is_empty(text: &str) -> (empty: bool)
    ensures
        empty == (text@.len() == 0),
{
    proof {
        reveal_strlit("");
        if text@.len() == 0 {
            assert(text@ =~= ""@);
        }
    }
    same_text(text, "")
}

/// The characters of a text.
pub fn chars_of(text: &str) -> (chars: Vec<char>)
    ensures
        chars@ == text@,
{
    let mut chars: Vec<char> = Vec::new();
    for c in it: text.chars()
        invariant
            it.seq() == text@,
            chars@ == it.seq().take(it.index() as int),
    {
        chars.push(c);
        assert(it.seq().take(it.index() + 1) =~= it.seq().take(it.index() as int).push(c));
    }
    assert(chars@ =~= text@);
    chars
}

/// Copies of some texts.
pub fn clone_texts(texts: &Vec<String>) -> (copies: Vec<String>)
    ensures
        copies@ == texts@,
{
    let mut copies: Vec<String> = Vec::new();
    let mut i: usize = 0;
    while i < texts.len()
        invariant
            i <= texts@.len(),
            copies@ == texts@.take(i as int),
        decreases texts@.len() - i,
    {
        copies.push(texts[i].clone());
        assert(texts@.take(i + 1) =~= texts@.take(i as int).push(texts@[i as int]));
        i = i + 1;
    }
    assert(texts@.take(i as int) =~= texts@);
    copies
}

/// A copy of an optional text.
pub fn clone_option(text: &Option<String>) -> (copy: Option<String>)
    ensures
        copy == *text,
{
    match text {
        Some(inner) => Some(inner.clone()),
        None => None,
    }
}

/// The first characters of a text.
pub fn first_chars(text: &str, count: usize) -> (first: String)
    requires
        count <= text@.len(),
    ensures
        first@ == text@.take(count as int),
{
    let chars = chars_of(text);
    let mut first = String::new();
    let mut i: usize = 0;
    assert(first@ =~= text@.take(0));
    while i < count
        invariant
            i <= count <= chars@.len(),
            chars@ == text@,
            first@ == text@.take(i as int),
        decreases count - i,
    {
        first.push(chars[i]);
        assert(text@.take(i + 1) =~= text@.take(i as int).push(chars@[i as int]));
        i = i + 1;
    }
    first
}

/// Appends some characters.
pub fn push_chars(out: &mut String, chars: &Vec<char>)
    ensures
        final(out)@ == old(out)@ + chars@,
{
    let ghost before = out@;
    let mut i: usize = 0;
    assert(before + chars@.take(0) =~= before);
    while i < chars.len()
        invariant
            i <= chars@.len(),
            before == old(out)@,
            out@ == before + chars@.take(i as int),
        decreases chars@.len() - i,
    {
        out.push(chars[i]);
        assert(before + chars@.take(i + 1) =~= (before + chars@.take(i as int)).push(
            chars@[i as int],
        ));
        i = i + 1;
    }
    assert(chars@.take(i as int) =~= chars@);
}

/// A text from its characters.
pub fn text_of(chars: &Vec<char>) -> (text: String)
    ensures
        text@ == chars@,
{
    let mut text = String::new();
    push_chars(&mut text, chars);
    assert(text@ =~= chars@);
    text
}

/// The parts of a text between separators.
pub open spec fn parts(text: Seq<char>, separator: char) -> Seq<Seq<char>>
    decreases text.len(),
{
    if text.len() == 0 {
        seq![Seq::empty()]
    } else {
        let before = parts(text.drop_last(), separator);
        if text.last() == separator {
            before.push(Seq::empty())
        } else {
            before.update(before.len() - 1, before.last().push(text.last()))
        }
    }
}

/// The characters of some texts.
pub open spec fn char_views(parts: Seq<Vec<char>>) -> Seq<Seq<char>> {
    parts.map_values(|part: Vec<char>| part@)
}

/// The parts of a text between separators.
pub fn split_chars(chars: &Vec<char>, separator: char) -> (split: Vec<Vec<char>>)
    ensures
        char_views(split@) == parts(chars@, separator),
        split@.len() > 0,
{
    let mut done: Vec<Vec<char>> = Vec::new();
    let mut current: Vec<char> = Vec::new();
    let mut i: usize = 0;
    proof {
        assert(chars@.take(0) =~= Seq::<char>::empty());
        assert(char_views(done@).push(current@) =~= seq![Seq::<char>::empty()]);
    }
    while i < chars.len()
        invariant
            i <= chars@.len(),
            char_views(done@).push(current@) == parts(chars@.take(i as int), separator),
        decreases chars@.len() - i,
    {
        proof {
            assert(chars@.take(i + 1).drop_last() =~= chars@.take(i as int));
        }
        let ghost before = parts(chars@.take(i as int), separator);
        let ghost done_before = done@;
        let ghost current_before = current@;
        if chars[i] == separator {
            let mut finished: Vec<char> = Vec::new();
            std::mem::swap(&mut finished, &mut current);
            done.push(finished);
            proof {
                assert(char_views(done@) =~= char_views(done_before).push(current_before));
                assert(char_views(done@).push(current@) =~= before.push(Seq::<char>::empty()));
            }
        } else {
            current.push(chars[i]);
            proof {
                assert(char_views(done@).push(current@) =~= before.update(
                    before.len() - 1,
                    before.last().push(chars@[i as int]),
                ));
            }
        }
        i = i + 1;
    }
    proof {
        assert(chars@.take(i as int) =~= chars@);
    }
    let ghost done_before = done@;
    let ghost last = current@;
    done.push(current);
    assert(char_views(done@) =~= char_views(done_before).push(last));
    done
}

/// Unicode counts the character as white space.
pub open spec fn is_whitespace(c: char) -> bool {
    let n = c as u32;
    9 <= n <= 13 || n == 0x20 || n == 0x85 || n == 0xa0 || n == 0x1680 || 0x2000 <= n <= 0x200a || n
        == 0x2028 || n == 0x2029 || n == 0x202f || n == 0x205f || n == 0x3000
}

fn char_is_whitespace(c: char) -> (is: bool)
    ensures
        is == is_whitespace(c),
{
    let n: u32 = c as u32;
    (9 <= n && n <= 13) || n == 0x20 || n == 0x85 || n == 0xa0 || n == 0x1680 || (0x2000 <= n && n
        <= 0x200a) || n == 0x2028 || n == 0x2029 || n == 0x202f || n == 0x205f || n == 0x3000
}

/// Nothing is left of the text without the white space around it.
pub open spec fn blank(text: Seq<char>) -> bool {
    forall|i: int| 0 <= i < text.len() ==> is_whitespace(#[trigger] text[i])
}

/// The text without the white space in front of it.
pub open spec fn trimmed_start(text: Seq<char>) -> Seq<char>
    decreases text.len(),
{
    if text.len() > 0 && is_whitespace(text[0]) {
        trimmed_start(text.drop_first())
    } else {
        text
    }
}

/// The text without the white space behind it.
pub open spec fn trimmed_end(text: Seq<char>) -> Seq<char>
    decreases text.len(),
{
    if text.len() > 0 && is_whitespace(text.last()) {
        trimmed_end(text.drop_last())
    } else {
        text
    }
}

/// The text without the white space around it, as `str::trim` gives it.
pub open spec fn trimmed(text: Seq<char>) -> Seq<char> {
    trimmed_end(trimmed_start(text))
}

/// The text without the white space around it.
pub fn trim(chars: &Vec<char>) -> (inner: String)
    ensures
        inner@ == trimmed(chars@),
{
    let mut start: usize = 0;
    assert(chars@.skip(0) =~= chars@);
    while start < chars.len() && char_is_whitespace(chars[start])
        invariant
            start <= chars@.len(),
            trimmed_start(chars@.skip(start as int)) == trimmed_start(chars@),
        decreases chars@.len() - start,
    {
        assert(chars@.skip(start as int).drop_first() =~= chars@.skip(start + 1));
        start = start + 1;
    }
    let ghost rest = chars@.skip(start as int);
    assert(trimmed_start(chars@) == rest) by {
        if rest.len() > 0 {
            assert(rest[0] == chars@[start as int]);
        }
    }
    let mut end: usize = chars.len();
    assert(rest.take(end - start) =~= rest);
    while end > start && char_is_whitespace(chars[end - 1])
        invariant
            start <= end <= chars@.len(),
            rest == chars@.skip(start as int),
            trimmed_end(rest.take(end - start)) == trimmed_end(rest),
        decreases end,
    {
        assert(rest.take(end - start).drop_last() =~= rest.take(end - 1 - start));
        assert(rest.take(end - start).last() == chars@[end - 1]);
        end = end - 1;
    }
    let ghost kept = rest.take(end - start);
    assert(trimmed_end(kept) == kept) by {
        if kept.len() > 0 {
            assert(kept.last() == chars@[end - 1]);
        }
    }
    let mut inner = String::new();
    let mut i: usize = start;
    assert(inner@ =~= rest.take(0));
    while i < end
        invariant
            start <= i <= end <= chars@.len(),
            rest == chars@.skip(start as int),
            inner@ == rest.take(i - start),
        decreases end - i,
    {
        inner.push(chars[i]);
        assert(rest.take(i + 1 - start) =~= rest.take(i - start).push(chars@[i as int]));
        i = i + 1;
    }
    inner
}

/// Nothing is left of the text without the white space around it.
pub fn is_blank(text: &str) -> (is: bool)
    ensures
        is == blank(text@),
{
    let chars = chars_of(text);
    let mut i: usize = 0;
    while i < chars.len()
        invariant
            i <= chars@.len(),
            chars@ == text@,
            forall|j: int| 0 <= j < i ==> is_whitespace(#[trigger] text@[j]),
        decreases chars@.len() - i,
    {
        if !char_is_whitespace(chars[i]) {
            assert(!is_whitespace(text@[i as int]));
            return false;
        }
        i = i + 1;
    }
    true
}

/// `c` is one of `0` to `9`.
pub open spec fn is_digit(c: char) -> bool {
    '0' <= c <= '9'
}

/// The number that a sequence of digits stands for.
pub open spec fn digits_value(digits: Seq<char>) -> nat
    decreases digits.len(),
{
    if digits.len() == 0 {
        0
    } else {
        digits_value(digits.drop_last()) * 10 + (digits.last() as nat - '0' as nat) as nat
    }
}

/// The digits of a number with an optional sign, and whether the sign is a minus.
pub open spec fn signed_digits(text: Seq<char>) -> (bool, Seq<char>) {
    if text.len() > 0 && text[0] == '-' {
        (true, text.drop_first())
    } else if text.len() > 0 && text[0] == '+' {
        (false, text.drop_first())
    } else {
        (false, text)
    }
}

/// The 64-bit signed number that a text is: an optional sign and at least one digit.
pub open spec fn parsed_i64(text: Seq<char>) -> Option<int> {
    let (negative, digits) = signed_digits(text);
    let number = if negative {
        -(digits_value(digits) as int)
    } else {
        digits_value(digits) as int
    };
    if digits.len() > 0 && (forall|i: int| 0 <= i < digits.len() ==> is_digit(#[trigger] digits[i]))
        && i64::MIN <= number <= i64::MAX {
        Some(number)
    } else {
        None
    }
}

/// Reads a 64-bit signed number, as `str::parse::<i64>` does.
pub fn parse_i64(text: &str) -> (number: Option<i64>)
    ensures
        match number {
            Some(number) => parsed_i64(text@) == Some(number as int),
            None => parsed_i64(text@) is None,
        },
{
    let chars = chars_of(text);
    let mut start: usize = 0;
    let mut negative: bool = false;
    if chars.len() > 0 {
        if chars[0] == '-' {
            negative = true;
            start = 1;
        } else if chars[0] == '+' {
            start = 1;
        }
    }
    let ghost digits = signed_digits(text@).1;
    assert(digits =~= chars@.skip(start as int));
    if start == chars.len() {
        return None;
    }
    let mut value: u64 = 0;
    let mut too_large: bool = false;
    let mut i: usize = start;
    assert(digits.take(0) =~= Seq::<char>::empty());
    while i < chars.len()
        invariant
            chars@ == text@,
            start <= i <= chars@.len(),
            digits == signed_digits(text@).1,
            digits == chars@.skip(start as int),
            forall|j: int| 0 <= j < i - start ==> is_digit(#[trigger] digits[j]),
            too_large ==> digits_value(digits.take(i - start)) > u64::MAX,
            !too_large ==> digits_value(digits.take(i - start)) == value,
        decreases chars@.len() - i,
    {
        let c = chars[i];
        assert(digits[i - start] == c);
        if c < '0' || c > '9' {
            return None;
        }
        assert(digits.take(i + 1 - start).drop_last() =~= digits.take(i - start));
        let d: u64 = c as u64 - '0' as u64;
        if !too_large {
            match value.checked_mul(10) {
                Some(tens) => {
                    match tens.checked_add(d) {
                        Some(sum) => {
                            value = sum;
                        },
                        None => {
                            too_large = true;
                        },
                    }
                },
                None => {
                    too_large = true;
                },
            }
        }
        i = i + 1;
    }
    assert(digits.take(i - start) =~= digits);
    if too_large {
        None
    } else if negative {
        if value <= 9223372036854775807 {
            Some(-(value as i64))
        } else if value == 9223372036854775808 {
            Some(i64::MIN)
        } else {
            None
        }
    } else if value <= 9223372036854775807 {
        Some(value as i64)
    } else {
        None
    }
}

/// The 16-bit number that a text is: an optional plus and at least one digit.
pub open spec fn parsed_u16(text: Seq<char>) -> Option<int> {
    match parsed_i64(text) {
        Some(number) => if text[0] != '-' && 0 <= number <= u16::MAX {
            Some(number)
        } else {
            None
        },
        None => None,
    }
}

/// Reads a 16-bit number, as `str::parse::<u16>` does.
pub fn parse_u16(text: &str) -> (number: Option<u16>)
    ensures
        match number {
            Some(number) => parsed_u16(text@) == Some(number as int),
            None => parsed_u16(text@) is None,
        },
{
    let minus = starts_with(text, "-");
    proof {
        reveal_strlit("-");
        assert("-"@ =~= seq!['-']);
        if text@.len() > 0 && text@[0] == '-' {
            assert(text@.subrange(0, 1) =~= "-"@);
        }
        if minus {
            assert("-"@[0] == text@.subrange(0, 1)[0]);
        }
    }
    match parse_i64(text) {
        Some(number) => {
            if minus || number < 0 || number > 65535 {
                None
            } else {
                Some(number as u16)
            }
        },
        None => None,
    }
}

/// A text begins with another.
pub fn starts_with(text: &str, prefix: &str) -> (starts: bool)
    ensures
        starts == prefix@.is_prefix_of(text@),
{
    let whole = text.as_bytes();
    let part = prefix.as_bytes();
    proof {
        lemma_encoding_keeps_prefixes(prefix@, text@);
    }
    if part.len() > whole.len() {
        return false;
    }
    let mut i: usize = 0;
    while i < part.len()
        invariant
            i <= part@.len() <= whole@.len(),
            whole@ == vstd::utf8::encode_utf8(text@),
            part@ == vstd::utf8::encode_utf8(prefix@),
            part@.is_prefix_of(whole@) <==> prefix@.is_prefix_of(text@),
            forall|j: int| 0 <= j < i ==> part@[j] == whole@[j],
        decreases part@.len() - i,
    {
        if part[i] != whole[i] {
            assert(!part@.is_prefix_of(whole@)) by {
                if part@.is_prefix_of(whole@) {
                    assert(part@[i as int] == whole@.subrange(0, part@.len() as int)[i as int]);
                }
            }
            return false;
        }
        i = i + 1;
    }
    assert(whole@.subrange(0, part@.len() as int) =~= part@);
    true
}

/// A prefix of the UTF-8 encoding that is itself an encoding is a prefix in characters.
pub proof fn lemma_encoding_keeps_prefixes(prefix: Seq<char>, key: Seq<char>)
    ensures
        vstd::utf8::encode_utf8(prefix).is_prefix_of(vstd::utf8::encode_utf8(key)) <==> prefix.is_prefix_of(key),
    decreases prefix.len(),
{
    let p = vstd::utf8::encode_utf8(prefix);
    let k = vstd::utf8::encode_utf8(key);
    if prefix.len() == 0 {
        assert(k.subrange(0, 0) =~= p);
        assert(key.subrange(0, 0) =~= prefix);
    } else if key.len() == 0 {
        vstd::utf8::encode_utf8_first_scalar(prefix);
        assert(p.len() > 0);
    } else {
        vstd::utf8::encode_utf8_first_scalar(prefix);
        vstd::utf8::encode_utf8_first_scalar(key);
        lemma_encoding_keeps_prefixes(prefix.drop_first(), key.drop_first());
        let p0 = vstd::utf8::encode_scalar(prefix[0] as u32);
        let k0 = vstd::utf8::encode_scalar(key[0] as u32);
        let p1 = vstd::utf8::encode_utf8(prefix.drop_first());
        let k1 = vstd::utf8::encode_utf8(key.drop_first());
        assert(p == p0 + p1);
        assert(k == k0 + k1);
        if p.is_prefix_of(k) {
            assert forall|i: int| 0 <= i < p.len() implies p[i] == k[i] by {
                assert(k.subrange(0, p.len() as int)[i] == k[i]);
            }
            assert(prefix[0] == key[0]) by {
                assert(vstd::utf8::decode_first_scalar(p) == vstd::utf8::decode_first_scalar(k));
                vstd::utf8::char_u32_cast(prefix[0], prefix[0] as u32);
                vstd::utf8::char_u32_cast(key[0], key[0] as u32);
            }
            assert(p0 == k0);
            assert(k1.subrange(0, p1.len() as int) =~= p1) by {
                assert forall|i: int| 0 <= i < p1.len() implies k1[i] == p1[i] by {
                    assert(p[p0.len() + i] == k[p0.len() + i]);
                }
            }
            assert(p1.is_prefix_of(k1));
            assert(key.subrange(0, prefix.len() as int) =~= prefix) by {
                assert forall|i: int| 0 <= i < prefix.len() implies key[i] == prefix[i] by {
                    if i > 0 {
                        assert(key.drop_first().subrange(0, prefix.len() - 1)[i - 1]
                            == prefix.drop_first()[i - 1]);
                    }
                }
            }
        }
        if prefix.is_prefix_of(key) {
            assert(prefix[0] == key.subrange(0, prefix.len() as int)[0]);
            assert(key.drop_first().subrange(0, prefix.len() - 1) =~= prefix.drop_first());
            assert(p1.is_prefix_of(k1));
            assert(k.subrange(0, p.len() as int) =~= p) by {
                assert forall|i: int| 0 <= i < p.len() implies k[i] == p[i] by {
                    if i >= p0.len() {
                        assert(k1.subrange(0, p1.len() as int)[i - p0.len()] == p1[i - p0.len()]);
                    }
                }
            }
        }
    }
}

/// `a` comes before `b` in the order of strings, which compares them byte by byte.
pub open spec fn bytes_before(a: Seq<u8>, b: Seq<u8>) -> bool
    decreases a.len(),
{
    if a.len() == 0 {
        b.len() > 0
    } else if b.len() == 0 {
        false
    } else {
        a[0] < b[0] || (a[0] == b[0] && bytes_before(a.drop_first(), b.drop_first()))
    }
}

/// `a` comes before `b` in the order of strings.
pub open spec fn text_before(a: Seq<char>, b: Seq<char>) -> bool {
    bytes_before(vstd::utf8::encode_utf8(a), vstd::utf8::encode_utf8(b))
}

/// The order of strings is strict and total.
pub proof fn lemma_bytes_before_total(a: Seq<u8>, b: Seq<u8>)
    ensures
        bytes_before(a, b) ==> !bytes_before(b, a),
        bytes_before(a, b) || bytes_before(b, a) || a == b,
    decreases a.len(),
{
    if a.len() > 0 && b.len() > 0 && a[0] == b[0] {
        lemma_bytes_before_total(a.drop_first(), b.drop_first());
        if a.drop_first() == b.drop_first() {
            assert(a =~= seq![a[0]] + a.drop_first());
            assert(b =~= seq![b[0]] + b.drop_first());
        }
    } else if a.len() == 0 && b.len() == 0 {
        assert(a =~= b);
    }
}

/// The order of strings is transitive.
pub proof fn lemma_bytes_before_transitive(a: Seq<u8>, b: Seq<u8>, c: Seq<u8>)
    requires
        bytes_before(a, b),
        bytes_before(b, c),
    ensures
        bytes_before(a, c),
    decreases a.len(),
{
    if a.len() > 0 && a[0] == b[0] && b[0] == c[0] {
        lemma_bytes_before_transitive(a.drop_first(), b.drop_first(), c.drop_first());
    }
}

/// `a` comes before `b` in the order of strings.
pub fn comes_before(a: &str, b: &str) -> (before: bool)
    ensures
        before == text_before(a@, b@),
{
    let left = a.as_bytes();
    let right = b.as_bytes();
    let mut i: usize = 0;
    assert(left@.skip(0) =~= left@);
    assert(right@.skip(0) =~= right@);
    while i < left.len() && i < right.len()
        invariant
            i <= left@.len(),
            i <= right@.len(),
            text_before(a@, b@) == bytes_before(left@.skip(i as int), right@.skip(i as int)),
        decreases left@.len() - i,
    {
        assert(left@.skip(i as int).drop_first() =~= left@.skip(i + 1));
        assert(right@.skip(i as int).drop_first() =~= right@.skip(i + 1));
        if left[i] != right[i] {
            return left[i] < right[i];
        }
        i = i + 1;
    }
    i < right.len()
}

} // verus!
