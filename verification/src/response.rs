//! The text of a response: numeric fields separated by white space.

use vstd::prelude::*;

use crate::text::{decimal, digit_char};

verus! {

/// Whether a character separates fields: the Unicode white space
/// characters.
pub open spec fn is_space(c: char) -> bool {
    let code: u32 = c as u32;
    ||| 0x9 <= code <= 0xd
    ||| code == 0x20
    ||| code == 0x85
    ||| code == 0xa0
    ||| code == 0x1680
    ||| 0x2000 <= code <= 0x200a
    ||| code == 0x2028
    ||| code == 0x2029
    ||| code == 0x202f
    ||| code == 0x205f
    ||| code == 0x3000
}

/// The fields of a text, in order: its maximal runs of characters that are
/// not white space. Read from the left, a character that is white space
/// adds nothing; one that follows a character of a field extends that
/// field; any other starts a new field.
pub open spec fn fields(text: Seq<char>) -> Seq<Seq<char>>
    decreases text.len(),
{
    if text.len() == 0 {
        Seq::empty()
    } else {
        let before = fields(text.drop_last());
        let c = text.last();
        if is_space(c) {
            before
        } else if text.len() >= 2 && !is_space(text[text.len() - 2]) {
            before.drop_last().push(before.last().push(c))
        } else {
            before.push(seq![c])
        }
    }
}

/// View of a list of strings, element by element.
pub open spec fn texts_view(texts: Seq<String>) -> Seq<Seq<char>> {
    texts.map_values(|t: String| t@)
}

/// Whether `c` separates fields.
pub fn is_whitespace(c: char) -> (yes: bool)
    ensures
        yes == is_space(c),
{
    let code: u32 = c as u32;
    (0x9 <= code && code <= 0xd) || code == 0x20 || code == 0x85 || code == 0xa0 || code == 0x1680
        || (0x2000 <= code && code <= 0x200a) || code == 0x2028 || code == 0x2029 || code
        == 0x202f || code == 0x205f || code == 0x3000
}

/// Splits a response into its fields.
pub fn split_fields(text: &str) -> (result: Vec<String>)
    ensures
        texts_view(result@) == fields(text@),
{
    let mut done: Vec<String> = Vec::new();
    let mut current = String::new();
    let mut in_field = false;
    for c in it: text.chars()
        invariant
            it.seq() == text@,
            in_field ==> it.index() > 0 && !is_space(text@[it.index() - 1]) && fields(
                text@.take(it.index() as int),
            ) == texts_view(done@).push(current@),
            !in_field ==> (it.index() == 0 || is_space(text@[it.index() - 1])) && fields(
                text@.take(it.index() as int),
            ) == texts_view(done@) && current@.len() == 0,
    {
        let ghost prefix = text@.take(it.index() as int);
        let ghost longer = text@.take(it.index() + 1);
        assert(longer.drop_last() =~= prefix);
        assert(longer.last() == c);
        if is_whitespace(c) {
            if in_field {
                let ghost before = texts_view(done@);
                done.push(current);
                assert(texts_view(done@) =~= before.push(done@.last()@));
                current = String::new();
                in_field = false;
            }
        } else {
            if in_field {
                let ghost word = current@;
                current.push(c);
                assert(texts_view(done@).push(word).drop_last() =~= texts_view(done@));
            } else {
                current.push(c);
                assert(current@ =~= seq![c]);
            }
            in_field = true;
        }
    }
    assert(text@.take(text@.len() as int) =~= text@);
    if in_field {
        let ghost before = texts_view(done@);
        done.push(current);
        assert(texts_view(done@) =~= before.push(done@.last()@));
    }
    done
}

/// Whether a text is one field: not empty, and free of white space.
pub open spec fn is_word(text: Seq<char>) -> bool {
    text.len() > 0 && forall|i: int| 0 <= i < text.len() ==> !is_space(#[trigger] text[i])
}

/// Every field is a word, and a text that ends in a character of a field
/// has at least one field.
pub proof fn lemma_fields_are_words(text: Seq<char>)
    ensures
        forall|i: int| 0 <= i < fields(text).len() ==> is_word(#[trigger] fields(text)[i]),
        text.len() > 0 && !is_space(text.last()) ==> fields(text).len() > 0,
    decreases text.len(),
{
    if text.len() > 0 {
        let shorter = text.drop_last();
        let before = fields(shorter);
        lemma_fields_are_words(shorter);
        let c = text.last();
        if is_space(c) {
        } else if text.len() >= 2 && !is_space(text[text.len() - 2]) {
            assert(shorter.last() == text[text.len() - 2]);
            let grown = before.last().push(c);
            assert(is_word(before.last()));
            assert(is_word(grown)) by {
                assert forall|j: int| 0 <= j < grown.len() implies !is_space(
                    #[trigger] grown[j],
                ) by {
                    if j < before.last().len() {
                        assert(grown[j] == before.last()[j]);
                    }
                }
            }
            assert forall|i: int| 0 <= i < fields(text).len() implies is_word(
                #[trigger] fields(text)[i],
            ) by {
                if i < before.len() - 1 {
                    assert(fields(text)[i] == before[i]);
                }
            }
        } else {
            assert(is_word(seq![c]));
            assert forall|i: int| 0 <= i < fields(text).len() implies is_word(
                #[trigger] fields(text)[i],
            ) by {
                if i < before.len() {
                    assert(fields(text)[i] == before[i]);
                }
            }
        }
    }
}

/// A word is its own and only field.
pub proof fn lemma_fields_of_word(word: Seq<char>)
    requires
        is_word(word),
    ensures
        fields(word) == seq![word],
    decreases word.len(),
{
    let c = word.last();
    assert(c == word[word.len() - 1]);
    if word.len() == 1 {
        assert(word.drop_last().len() == 0);
        assert(fields(word.drop_last()) =~= Seq::<Seq<char>>::empty());
        assert(!is_space(c));
        assert(fields(word) =~= seq![seq![c]]);
        assert(seq![c] =~= word);
    } else {
        let shorter = word.drop_last();
        assert(is_word(shorter)) by {
            assert forall|i: int| 0 <= i < shorter.len() implies !is_space(
                #[trigger] shorter[i],
            ) by {
                assert(shorter[i] == word[i]);
            }
        }
        lemma_fields_of_word(shorter);
        assert(shorter.push(c) =~= word);
        assert(fields(word) =~= seq![word]);
    }
}

/// The fields of two texts joined by white space are the fields of the
/// first followed by the fields of the second.
pub proof fn lemma_fields_of_joined(first: Seq<char>, space: char, second: Seq<char>)
    requires
        is_space(space),
    ensures
        fields(first + seq![space] + second) == fields(first) + fields(second),
    decreases second.len(),
{
    let head = first + seq![space];
    let text = head + second;
    if second.len() == 0 {
        assert(text =~= head);
        assert(head.drop_last() =~= first);
        assert(fields(first) + fields(second) =~= fields(first));
    } else {
        let shorter = second.drop_last();
        let c = second.last();
        lemma_fields_of_joined(first, space, shorter);
        lemma_fields_are_words(shorter);
        assert(text.drop_last() =~= head + shorter);
        assert(text.last() == c);
        let joined = fields(first) + fields(shorter);
        if is_space(c) {
        } else if shorter.len() > 0 && !is_space(shorter.last()) {
            assert(text[text.len() - 2] == shorter.last());
            assert(second[second.len() - 2] == shorter.last());
            assert(joined.drop_last() =~= fields(first) + fields(shorter).drop_last());
            assert(joined.last() == fields(shorter).last());
            assert(fields(text) =~= fields(first) + fields(second));
        } else {
            if shorter.len() > 0 {
                assert(text[text.len() - 2] == shorter.last());
                assert(second[second.len() - 2] == shorter.last());
            } else {
                assert(text[text.len() - 2] == space);
            }
            assert(fields(text) =~= fields(first) + fields(second));
        }
    }
}

/// Splits a response into its fields and hands them out last field first,
/// which is the order the rigs' readings are addressed in.
pub fn parse_response(text: &str) -> (result: Vec<String>)
    ensures
        texts_view(result@) == fields(text@).reverse(),
{
    let mut forward = split_fields(text);
    let ghost all = forward@;
    let mut result: Vec<String> = Vec::new();
    while forward.len() > 0
        invariant
            forward@ == all.take(forward@.len() as int),
            forward@.len() + result@.len() == all.len(),
            forall|j: int| 0 <= j < result@.len() ==> result@[j] == all[all.len() - 1 - j],
        decreases forward.len(),
    {
        let last = forward.pop().unwrap();
        result.push(last);
    }
    assert(texts_view(result@) =~= texts_view(all).reverse());
    result
}

/// Whether a character is a decimal digit.
pub open spec fn is_digit(c: char) -> bool {
    0x30 <= c as u32 <= 0x39
}

/// Length of the longest prefix of `text` that consists of decimal digits.
pub open spec fn digit_run(text: Seq<char>) -> nat
    decreases text.len(),
{
    if text.len() > 0 && is_digit(text[0]) {
        1 + digit_run(text.drop_first())
    } else {
        0
    }
}

/// Length of the sign that `text` starts with: one for `+` or `-`, else
/// nothing.
pub open spec fn sign_len(text: Seq<char>) -> nat {
    if text.len() > 0 && (text[0] == '+' || text[0] == '-') {
        1
    } else {
        0
    }
}

/// Whether `text` is an exponent: `e` or `E`, an optional sign, and one or
/// more digits.
pub open spec fn is_exponent(text: Seq<char>) -> bool {
    &&& text.len() > 0
    &&& text[0] == 'e' || text[0] == 'E'
    &&& {
        let digits = text.skip(1 + sign_len(text.skip(1)) as int);
        digits.len() > 0 && digit_run(digits) == digits.len()
    }
}

/// Whether `text` is a decimal numeral: an optional sign; digits, with at
/// most one point among, before or after them, and at least one digit in
/// all; and an optional exponent. Nothing else may follow. The names of
/// infinities and of not-a-number are no numerals.
pub open spec fn is_number(text: Seq<char>) -> bool {
    let body = text.skip(sign_len(text) as int);
    let whole: nat = digit_run(body);
    let after_whole = body.skip(whole as int);
    let has_point = after_whole.len() > 0 && after_whole[0] == '.';
    let fraction: nat = if has_point {
        digit_run(after_whole.skip(1))
    } else {
        0
    };
    let tail = if has_point {
        after_whole.skip(1 + fraction as int)
    } else {
        after_whole
    };
    whole + fraction > 0 && (tail.len() == 0 || is_exponent(tail))
}

/// Whether a text consists of decimal digits only.
pub open spec fn all_digits(text: Seq<char>) -> bool {
    forall|i: int| 0 <= i < text.len() ==> is_digit(#[trigger] text[i])
}

/// A text of digits only is one run of digits.
pub proof fn lemma_digit_run_of_digits(text: Seq<char>)
    requires
        all_digits(text),
    ensures
        digit_run(text) == text.len(),
    decreases text.len(),
{
    if text.len() > 0 {
        assert(is_digit(text[0]));
        assert(all_digits(text.drop_first())) by {
            assert forall|i: int| 0 <= i < text.drop_first().len() implies is_digit(
                #[trigger] text.drop_first()[i],
            ) by {
                assert(text.drop_first()[i] == text[i + 1]);
            }
        }
        lemma_digit_run_of_digits(text.drop_first());
    }
}

/// A text of one or more digits is a numeral.
pub proof fn lemma_digits_are_a_number(text: Seq<char>)
    requires
        text.len() > 0,
        all_digits(text),
    ensures
        is_number(text),
{
    assert(is_digit(text[0]));
    assert(sign_len(text) == 0);
    assert(text.skip(0) =~= text);
    lemma_digit_run_of_digits(text);
    assert(text.skip(text.len() as int) =~= Seq::<char>::empty());
}

/// The decimal numeral of a number is a numeral: what is written as a
/// number is read as one.
pub proof fn lemma_decimal_is_a_number(n: nat)
    ensures
        is_number(decimal(n)),
{
    lemma_decimal_is_digits(n);
    lemma_digits_are_a_number(decimal(n));
}

proof fn lemma_decimal_is_digits(n: nat)
    ensures
        decimal(n).len() > 0,
        all_digits(decimal(n)),
    decreases n,
{
    if n >= 10 {
        lemma_decimal_is_digits(n / 10);
        let shorter = decimal(n / 10);
        let last = digit_char(n % 10);
        assert(is_digit(last));
        assert forall|i: int| 0 <= i < decimal(n).len() implies is_digit(
            #[trigger] decimal(n)[i],
        ) by {
            if i < shorter.len() {
                assert(decimal(n)[i] == shorter[i]);
            }
        }
    } else {
        assert(is_digit(digit_char(n)));
    }
}

/// Why a response is no list of numeric fields.
#[derive(Clone, Copy, Debug, PartialEq, Eq, Structural)]
pub enum ParseError {
    /// The response holds no field at all.
    Empty,
    /// The field at this position, counted from the first, is no numeral.
    NotANumber(usize),
}

/// Whether every field of a list is a numeral.
pub open spec fn all_numbers(list: Seq<Seq<char>>) -> bool {
    forall|i: int| 0 <= i < list.len() ==> is_number(#[trigger] list[i])
}

/// Whether a response can be decoded: it holds at least one field, and
/// every field is a numeral.
pub open spec fn is_numeric(text: Seq<char>) -> bool {
    fields(text).len() > 0 && all_numbers(fields(text))
}

/// Why a response cannot be decoded, if it cannot: it is empty, or else the
/// first field that is no numeral is named.
pub open spec fn parse_error(text: Seq<char>) -> Option<ParseError> {
    let list = fields(text);
    if list.len() == 0 {
        Some(ParseError::Empty)
    } else if all_numbers(list) {
        None
    } else {
        Some(ParseError::NotANumber(first_bad(list) as usize))
    }
}

/// Position of the first field of a list that is no numeral; the length of
/// the list where all are.
pub open spec fn first_bad(list: Seq<Seq<char>>) -> nat
    decreases list.len(),
{
    if list.len() == 0 || !is_number(list[0]) {
        0
    } else {
        1 + first_bad(list.drop_first())
    }
}

/// The characters of a text, one by one.
fn chars_of(text: &str) -> (chars: Vec<char>)
    ensures
        chars@ == text@,
{
    let mut chars: Vec<char> = Vec::new();
    for c in it: text.chars()
        invariant
            it.seq() == text@,
            chars@ == text@.take(it.index() as int),
    {
        chars.push(c);
        assert(chars@ =~= text@.take(it.index() + 1));
    }
    assert(text@.take(text@.len() as int) =~= text@);
    chars
}

/// Whether `c` is a decimal digit.
fn is_decimal_digit(c: char) -> (yes: bool)
    ensures
        yes == is_digit(c),
{
    let code: u32 = c as u32;
    0x30 <= code && code <= 0x39
}

/// Length of the run of digits that starts at `start`.
fn digit_run_from(chars: &Vec<char>, start: usize) -> (n: usize)
    requires
        start <= chars@.len(),
    ensures
        n == digit_run(chars@.skip(start as int)),
        start + n <= chars@.len(),
{
    let mut end: usize = start;
    while end < chars.len() && is_decimal_digit(chars[end])
        invariant
            start <= end <= chars@.len(),
            digit_run(chars@.skip(start as int)) == (end - start) + digit_run(
                chars@.skip(end as int),
            ),
        decreases chars@.len() - end,
    {
        assert(chars@.skip(end as int).drop_first() =~= chars@.skip(end + 1));
        end += 1;
    }
    end - start
}

/// Length of the sign at `start`.
fn sign_len_from(chars: &Vec<char>, start: usize) -> (n: usize)
    requires
        start <= chars@.len(),
    ensures
        n == sign_len(chars@.skip(start as int)),
        start + n <= chars@.len(),
{
    if start < chars.len() && (chars[start] == '+' || chars[start] == '-') {
        1
    } else {
        0
    }
}

/// Whether what starts at `start` is an exponent.
fn is_exponent_from(chars: &Vec<char>, start: usize) -> (yes: bool)
    requires
        start <= chars@.len(),
    ensures
        yes == is_exponent(chars@.skip(start as int)),
{
    if start >= chars.len() {
        return false;
    }
    if !(chars[start] == 'e' || chars[start] == 'E') {
        return false;
    }
    let ghost tail = chars@.skip(start as int);
    assert(tail.skip(1) =~= chars@.skip(start + 1));
    let sign: usize = sign_len_from(chars, start + 1);
    let digits_at: usize = start + 1 + sign;
    assert(tail.skip(1 + sign) =~= chars@.skip(digits_at as int));
    let run: usize = digit_run_from(chars, digits_at);
    digits_at < chars.len() && digits_at + run == chars.len()
}

/// Whether a field is a decimal numeral.
pub fn is_numeric_field(field: &str) -> (yes: bool)
    ensures
        yes == is_number(field@),
{
    let chars = chars_of(field);
    let len: usize = chars.len();
    let sign: usize = sign_len_from(&chars, 0);
    assert(chars@.skip(0) =~= chars@);
    let ghost body = chars@.skip(sign as int);
    let whole: usize = digit_run_from(&chars, sign);
    let point_at: usize = sign + whole;
    assert(body.skip(whole as int) =~= chars@.skip(point_at as int));
    let has_point = point_at < len && chars[point_at] == '.';
    let mut fraction: usize = 0;
    let mut tail_at: usize = point_at;
    if has_point {
        assert(body.skip(whole as int).skip(1) =~= chars@.skip(point_at + 1));
        fraction = digit_run_from(&chars, point_at + 1);
        tail_at = point_at + 1 + fraction;
        assert(body.skip(whole as int).skip(1 + fraction) =~= chars@.skip(tail_at as int));
    }
    if whole + fraction == 0 {
        return false;
    }
    tail_at == len || is_exponent_from(&chars, tail_at)
}

/// Decodes a response into its fields, first field first, and checks that
/// each is a numeral. No field is ever replaced by a default.
pub fn decode_fields(text: &str) -> (result: Result<Vec<String>, ParseError>)
    ensures
        match result {
            Ok(list) => parse_error(text@) is None && texts_view(list@) == fields(text@),
            Err(error) => parse_error(text@) == Some(error),
        },
{
    let list = split_fields(text);
    if list.len() == 0 {
        return Err(ParseError::Empty);
    }
    let ghost all = texts_view(list@);
    assert(all.skip(0) =~= all);
    let mut i: usize = 0;
    while i < list.len()
        invariant
            i <= list@.len(),
            all == texts_view(list@),
            all == fields(text@),
            all.len() > 0,
            forall|j: int| 0 <= j < i ==> is_number(#[trigger] all[j]),
            first_bad(all) == i + first_bad(all.skip(i as int)),
        decreases list@.len() - i,
    {
        assert(all.skip(i as int)[0] == all[i as int]);
        assert(all[i as int] == list@[i as int]@);
        if !is_numeric_field(list[i].as_str()) {
            assert(!is_number(all[i as int]));
            assert(first_bad(all.skip(i as int)) == 0);
            return Err(ParseError::NotANumber(i));
        }
        assert(all.skip(i as int).drop_first() =~= all.skip(i + 1));
        i += 1;
    }
    Ok(list)
}

/// Whether a response can be decoded into numeric fields.
pub fn is_numeric_response(text: &str) -> (yes: bool)
    ensures
        yes == is_numeric(text@),
{
    decode_fields(text).is_ok()
}

} // verus!
