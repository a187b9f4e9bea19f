//! Texts: numbers are read as they were written, and parts of a text are parts of it.

use crate::text;
use vstd::prelude::*;

verus! {

/// The digits of a number are digits, and their value is the number.
pub proof fn lemma_decimal(n: nat)
    ensures
        text::decimal(n).len() > 0,
        forall|i: int| 0 <= i < text::decimal(n).len() ==> text::is_digit(#[trigger] text::decimal(n)[i]),
        text::digits_value(text::decimal(n)) == n,
    decreases n,
{
    reveal_with_fuel(text::digits_value, 2);
    if n < 10 {
        assert(text::decimal(n) == seq![text::digit_char(n)]);
        assert(text::decimal(n).drop_last() =~= Seq::empty());
    } else {
        lemma_decimal(n / 10);
        assert(text::decimal(n).drop_last() =~= text::decimal(n / 10));
        assert(text::decimal(n).last() == text::digit_char(n % 10));
        assert forall|i: int| 0 <= i < text::decimal(n).len() implies text::is_digit(#[trigger] text::decimal(n)[i]) by {
            if i < text::decimal(n / 10).len() {
                assert(text::decimal(n)[i] == text::decimal(n / 10)[i]);
            }
        }
    }
}

/// A number that was written is read again.
pub proof fn law_written_numbers_are_read(n: i64)
    ensures
        text::parsed_i64(text::signed_decimal(n as int)) == Some(n as int),
{
    let magnitude: nat = if n < 0 {
        (-n) as nat
    } else {
        n as nat
    };
    lemma_decimal(magnitude);
    let text = text::signed_decimal(n as int);
    if n < 0 {
        assert(text.drop_first() =~= text::decimal(magnitude));
    } else {
        assert(text::is_digit(text[0]));
    }
}

/// A lane that was written is read again.
pub proof fn law_written_lanes_are_read(lane: u16)
    ensures
        text::parsed_u16(text::decimal(lane as nat)) == Some(lane as int),
{
    lemma_decimal(lane as nat);
    assert(text::is_digit(text::decimal(lane as nat)[0]));
    law_written_numbers_are_read(lane as i64);
}

/// What stands between separators, with one separator between each two.
pub open spec fn joined(split: Seq<Seq<char>>, separator: char) -> Seq<char>
    decreases split.len(),
{
    if split.len() == 0 {
        Seq::empty()
    } else if split.len() == 1 {
        split[0]
    } else {
        joined(split.drop_last(), separator).push(separator) + split.last()
    }
}

/// The parts of a text, put together again, are the text, and no part holds the separator.
pub proof fn law_parts_make_up_the_text(text: Seq<char>, separator: char)
    ensures
        text::parts(text, separator).len() > 0,
        joined(text::parts(text, separator), separator) == text,
        forall|i: int|
            0 <= i < text::parts(text, separator).len() ==> !(#[trigger] text::parts(text, separator)[i]).contains(
                separator,
            ),
    decreases text.len(),
{
    reveal_with_fuel(joined, 2);
    let split = text::parts(text, separator);
    if text.len() == 0 {
        assert(split == seq![Seq::<char>::empty()]);
    } else {
        let before = text::parts(text.drop_last(), separator);
        law_parts_make_up_the_text(text.drop_last(), separator);
        let c = text.last();
        assert(text =~= text.drop_last().push(c));
        if c == separator {
            assert(split.drop_last() =~= before);
            assert(joined(split, separator) =~= text.drop_last().push(separator));
        } else {
            let last = before.last().push(c);
            assert(split.drop_last() =~= before.drop_last());
            assert(split.last() == last);
            assert(joined(split, separator) =~= joined(before, separator).push(c));
            assert forall|i: int| 0 <= i < split.len() implies !(#[trigger] split[i]).contains(
                separator,
            ) by {
                if i < split.len() - 1 {
                    assert(split[i] == before[i]);
                } else {
                    assert(!before[i].contains(separator));
                    if last.contains(separator) {
                        let k = choose|k: int| 0 <= k < last.len() && last[k] == separator;
                        assert(before[i][k] == separator);
                    }
                }
            }
        }
    }
}

/// What follows a separator, and holds none itself, is the last part.
pub proof fn lemma_parts_after_separator(dir: Seq<char>, name: Seq<char>, separator: char)
    requires
        !name.contains(separator),
    ensures
        text::parts(dir.push(separator) + name, separator) == text::parts(dir, separator).push(name),
    decreases name.len(),
{
    let path = dir.push(separator) + name;
    if name.len() == 0 {
        assert(path =~= dir.push(separator));
        assert(path.drop_last() =~= dir);
        assert(name =~= Seq::empty());
    } else {
        let shorter = name.drop_last();
        assert(!shorter.contains(separator)) by {
            if shorter.contains(separator) {
                let k = choose|k: int| 0 <= k < shorter.len() && shorter[k] == separator;
                assert(name[k] == separator);
            }
        }
        lemma_parts_after_separator(dir, shorter, separator);
        assert(path.drop_last() =~= dir.push(separator) + shorter);
        assert(path.last() == name.last());
        assert(name[name.len() - 1] == name.last());
        assert(path.last() != separator);
        assert(shorter.push(name.last()) =~= name);
        assert(text::parts(path, separator) =~= text::parts(dir, separator).push(name));
    }
}

/// A text without a separator is one part.
pub proof fn lemma_one_part(name: Seq<char>, separator: char)
    requires
        !name.contains(separator),
    ensures
        text::parts(name, separator) == seq![name],
    decreases name.len(),
{
    if name.len() > 0 {
        let shorter = name.drop_last();
        assert(name[name.len() - 1] != separator);
        assert(!shorter.contains(separator)) by {
            if shorter.contains(separator) {
                let k = choose|k: int| 0 <= k < shorter.len() && shorter[k] == separator;
                assert(name[k] == separator);
            }
        }
        lemma_one_part(shorter, separator);
        assert(shorter.push(name.last()) =~= name);
        assert(text::parts(name, separator) =~= seq![name]);
    } else {
        assert(name =~= Seq::empty());
    }
}

proof fn lemma_trimmed_end(text: Seq<char>)
    ensures
        text::trimmed_end(text).is_prefix_of(text),
        text::blank(text.skip(text::trimmed_end(text).len() as int)),
        text::trimmed_end(text).len() > 0 ==> !text::is_whitespace(text::trimmed_end(text).last()),
    decreases text.len(),
{
    if text.len() > 0 && text::is_whitespace(text.last()) {
        lemma_trimmed_end(text.drop_last());
        let kept = text::trimmed_end(text).len() as int;
        assert forall|i: int| 0 <= i < text.skip(kept).len() implies text::is_whitespace(
            #[trigger] text.skip(kept)[i],
        ) by {
            if i < text.len() - 1 - kept {
                assert(text.drop_last().skip(kept)[i] == text.skip(kept)[i]);
            }
        }
    }
}

proof fn lemma_trimmed_start(text: Seq<char>)
    ensures
        text::trimmed_start(text).len() <= text.len(),
        text.skip(text.len() - text::trimmed_start(text).len()) == text::trimmed_start(text),
        text::blank(text.take(text.len() - text::trimmed_start(text).len())),
        text::trimmed_start(text).len() > 0 ==> !text::is_whitespace(text::trimmed_start(text)[0]),
    decreases text.len(),
{
    if text.len() > 0 && text::is_whitespace(text[0]) {
        let rest = text.drop_first();
        lemma_trimmed_start(rest);
        let cut = text.len() - text::trimmed_start(text).len();
        assert(text.skip(cut) =~= rest.skip(cut - 1));
        assert forall|i: int| 0 <= i < cut implies text::is_whitespace(#[trigger] text.take(cut)[i]) by {
            if i > 0 {
                assert(rest.take(cut - 1)[i - 1] == text.take(cut)[i]);
            }
        }
    } else {
        assert(text.skip(0) =~= text);
    }
}

/// The text is the inner text with whitespace on both sides.
pub open spec fn is_padded(text: Seq<char>, inner: Seq<char>) -> bool {
    exists|left: Seq<char>, right: Seq<char>|
        #![trigger text::blank(left), text::blank(right)]
        text::blank(left) && text::blank(right) && text == left + inner + right
}

/// Trimming takes whitespace away on both sides, all of it and nothing else.
pub proof fn law_trimming_takes_the_whitespace_around(text: Seq<char>)
    ensures
        is_padded(text, text::trimmed(text)),
        text::trimmed(text).len() > 0 ==> !text::is_whitespace(text::trimmed(text)[0]) && !text::is_whitespace(
            text::trimmed(text).last(),
        ),
{
    let started = text::trimmed_start(text);
    lemma_trimmed_start(text);
    lemma_trimmed_end(started);
    let inner = text::trimmed(text);
    let left = text.take(text.len() - started.len());
    let right = started.skip(inner.len() as int);
    assert(started =~= inner + right);
    assert(text =~= left + started);
    assert(text =~= left + inner + right);
    assert(text::blank(left) && text::blank(right));
}

/// The first place where two byte strings differ decides which comes first; where there is none, the
/// shorter one does.
pub proof fn law_the_first_difference_orders(a: Seq<u8>, b: Seq<u8>, k: int)
    requires
        0 <= k <= a.len(),
        k <= b.len(),
        a.take(k) == b.take(k),
        k < a.len() && k < b.len() ==> a[k] != b[k],
    ensures
        text::bytes_before(a, b) <==> if k < a.len() && k < b.len() {
            a[k] < b[k]
        } else {
            a.len() < b.len()
        },
    decreases a.len(),
{
    if k > 0 {
        assert(a.take(k)[0] == a[0] && b.take(k)[0] == b[0]);
        if k < a.len() && k < b.len() {
            assert(a.drop_first()[k - 1] == a[k] && b.drop_first()[k - 1] == b[k]);
        }
        assert(a.drop_first().take(k - 1) =~= a.take(k).drop_first());
        assert(b.drop_first().take(k - 1) =~= b.take(k).drop_first());
        law_the_first_difference_orders(a.drop_first(), b.drop_first(), k - 1);
    }
}

} // verus!
