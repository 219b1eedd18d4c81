//! The text that crosses the host boundary.
//!
//! The engine hands names over as UTF-8 and wide strings as UTF-16; the realm
//! gives and takes ordinary text. A text is modelled by its sequence of
//! characters.

use vstd::prelude::*;
use vstd::utf8::{char_is_scalar, char_u32_cast, decode_utf8, encode_utf8, encode_utf8_decode_utf8, encode_utf8_valid_utf8, valid_utf8};

verus! {

/// `String::push` of the standard library appends one character.
pub assume_specification[ String::push ](s: &mut String, c: char)
    ensures
        final(s)@ == old(s)@.push(c),
;

/// `char::from_u32` of the standard library gives the character of a scalar
/// value, and nothing for a surrogate or for a number beyond the last character.
pub assume_specification[ char::from_u32 ](v: u32) -> (c: Option<char>)
    ensures
        c == (if v < 0xD800 || 0xE000 <= v <= 0x10FFFF {
            Some(v as char)
        } else {
            None
        }),
;

/// Calls `std::str::from_utf8`, which accepts exactly the bytes that are valid
/// UTF-8 and gives the text they encode.
#[verifier::external_body]
fn from_utf8(bytes: &[u8]) -> (text: Option<String>)
    ensures
        text is Some <==> valid_utf8(bytes@),
        text matches Some(s) ==> s@ == decode_utf8(bytes@),
{
    match std::str::from_utf8(bytes) {
        Ok(s) => Some(s.to_owned()),
        Err(_) => None,
    }
}

/// What `String::from_utf8_lossy` makes of some bytes: valid UTF-8 as it is, and
/// U+FFFD in place of what is not.
pub uninterp spec fn utf8_lossy(bytes: Seq<u8>) -> Seq<char>;

/// Calls `String::from_utf8_lossy`. The result is a function of the bytes alone,
/// and valid UTF-8 comes out as the text it encodes; how many replacement
/// characters stand for a run of invalid bytes is left to the name.
#[verifier::external_body]
pub(crate) fn from_utf8_lossy(bytes: &[u8]) -> (text: String)
    ensures
        text@ == utf8_lossy(bytes@),
        valid_utf8(bytes@) ==> text@ == decode_utf8(bytes@),
{
    String::from_utf8_lossy(bytes).into_owned()
}

/// A name handed over as UTF-8: the text it encodes, or nothing at all where the
/// bytes are missing or are not UTF-8.
pub open spec fn name_text(bytes: Seq<u8>) -> Seq<char> {
    if valid_utf8(bytes) {
        decode_utf8(bytes)
    } else {
        Seq::empty()
    }
}

/// Reads a name handed over as UTF-8.
pub fn str_from(bytes: &[u8]) -> (text: String)
    ensures
        text@ == name_text(bytes@),
{
    match from_utf8(bytes) {
        Some(text) => text,
        None => String::new(),
    }
}

/// The characters of a text.
pub fn characters(text: &str) -> (chars: Vec<char>)
    ensures
        chars@ == text@,
{
    let mut chars: Vec<char> = Vec::new();
    for c in it: text.chars()
        invariant
            chars@ == it.seq().take(it.index() as int),
    {
        chars.push(c);
    }
    assert(chars@ =~= text@);
    chars
}

/// A text made of the given characters.
pub fn text_of(chars: &Vec<char>) -> (text: String)
    ensures
        text@ == chars@,
{
    let mut text = String::new();
    for i in 0..chars.len()
        invariant
            text@ == chars@.take(i as int),
    {
        text.push(chars[i]);
    }
    assert(chars@.take(chars@.len() as int) =~= chars@);
    text
}

/// Whether two texts are the same.
pub fn same(a: &str, b: &str) -> (r: bool)
    ensures
        r == (a@ == b@),
{
    let x = characters(a);
    let y = characters(b);
    if x.len() != y.len() {
        return false;
    }
    for i in 0..x.len()
        invariant
            x@ == a@,
            y@ == b@,
            x@.len() == y@.len(),
            forall|j: int| 0 <= j < i ==> x@[j] == y@[j],
    {
        if x[i] != y[i] {
            return false;
        }
    }
    assert(x@ =~= y@);
    true
}

// ---- UTF-16 ---------------------------------------------------------------

/// The UTF-16 code units of one character: itself, or a surrogate pair.
pub open spec fn char_units(c: char) -> Seq<u16> {
    let v = c as u32;
    if v < 0x10000 {
        seq![v as u16]
    } else {
        seq![(0xD800 + (v - 0x10000) / 0x400) as u16, (0xDC00 + (v - 0x10000) % 0x400) as u16]
    }
}

/// A text in UTF-16.
pub open spec fn encode16(text: Seq<char>) -> Seq<u16>
    decreases text.len(),
{
    if text.len() == 0 {
        Seq::empty()
    } else {
        char_units(text[0]) + encode16(text.drop_first())
    }
}

/// The first half of a surrogate pair.
pub open spec fn high_surrogate(u: u16) -> bool {
    0xD800 <= u < 0xDC00
}

/// The second half of a surrogate pair.
pub open spec fn low_surrogate(u: u16) -> bool {
    0xDC00 <= u < 0xE000
}

/// The character that a surrogate pair stands for.
pub open spec fn pair_char(high: u16, low: u16) -> char {
    (0x10000 + (high - 0xD800) * 0x400 + (low - 0xDC00)) as char
}

/// The text that some UTF-16 stands for, with U+FFFD for each surrogate that is
/// not part of a pair.
pub open spec fn decode16(units: Seq<u16>) -> Seq<char>
    decreases units.len(),
{
    if units.len() == 0 {
        Seq::empty()
    } else if units.len() >= 2 && high_surrogate(units[0]) && low_surrogate(units[1]) {
        seq![pair_char(units[0], units[1])] + decode16(units.skip(2))
    } else if high_surrogate(units[0]) || low_surrogate(units[0]) {
        seq!['\u{FFFD}'] + decode16(units.skip(1))
    } else {
        seq![units[0] as char] + decode16(units.skip(1))
    }
}

/// Writes a text as UTF-16.
pub fn to_utf16(text: &str) -> (units: Vec<u16>)
    ensures
        units@ == encode16(text@),
{
    let chars = characters(text);
    let mut units: Vec<u16> = Vec::new();
    proof {
        assert(chars@.skip(0) =~= chars@);
        assert(units@ + encode16(chars@) =~= encode16(chars@));
    }
    for i in 0..chars.len()
        invariant
            units@ + encode16(chars@.skip(i as int)) == encode16(chars@),
    {
        let v: u32 = chars[i] as u32;
        let ghost before = units@;
        proof {
            char_is_scalar(chars@[i as int]);
        }
        if v < 0x10000 {
            units.push(v as u16);
        } else {
            units.push((0xD800 + (v - 0x10000) / 0x400) as u16);
            units.push((0xDC00 + (v - 0x10000) % 0x400) as u16);
        }
        proof {
            assert(chars@.skip(i as int).drop_first() =~= chars@.skip(i + 1));
            assert(units@ =~= before + char_units(chars@[i as int]));
            assert(units@ + encode16(chars@.skip(i + 1)) =~= before + encode16(chars@.skip(i as int)));
        }
    }
    proof {
        assert(chars@.skip(chars@.len() as int) =~= Seq::<char>::empty());
        assert(units@ + Seq::<u16>::empty() =~= units@);
    }
    units
}

/// Reads UTF-16, with U+FFFD for each surrogate that is not part of a pair.
pub fn from_utf16(units: &Vec<u16>) -> (text: String)
    ensures
        text@ == decode16(units@),
{
    let mut text = String::new();
    let mut i: usize = 0;
    proof {
        assert(units@.skip(0) =~= units@);
        assert(text@ + decode16(units@) =~= decode16(units@));
    }
    while i < units.len()
        invariant
            i <= units.len(),
            text@ + decode16(units@.skip(i as int)) == decode16(units@),
        decreases units.len() - i,
    {
        let ghost before = text@;
        let ghost rest = units@.skip(i as int);
        let u: u16 = units[i];
        if u < 0xD800 || u >= 0xE000 {
            match char::from_u32(u as u32) {
                Some(c) => text.push(c),
                None => {},
            }
            i = i + 1;
            proof {
                assert(rest.skip(1) =~= units@.skip(i as int));
                assert(text@ =~= before + seq![u as char]);
            }
        } else if u < 0xDC00 && i + 1 < units.len() && units[i + 1] >= 0xDC00 && units[i + 1] < 0xE000 {
            let v: u32 = 0x10000 + (u as u32 - 0xD800) * 0x400 + (units[i + 1] as u32 - 0xDC00);
            match char::from_u32(v) {
                Some(c) => text.push(c),
                None => {},
            }
            i = i + 2;
            proof {
                assert(rest.skip(2) =~= units@.skip(i as int));
                assert(text@ =~= before + seq![pair_char(rest[0], rest[1])]);
            }
        } else {
            text.push('\u{FFFD}');
            i = i + 1;
            proof {
                assert(rest.skip(1) =~= units@.skip(i as int));
                assert(text@ =~= before + seq!['\u{FFFD}']);
            }
        }
        assert(text@ + decode16(units@.skip(i as int)) =~= before + decode16(rest));
    }
    proof {
        assert(units@.skip(i as int) =~= Seq::<u16>::empty());
        assert(text@ + Seq::<char>::empty() =~= text@);
    }
    text
}

/// A text written as UTF-16 reads back as the same text.
pub proof fn law_utf16_round_trip(text: Seq<char>)
    ensures
        decode16(encode16(text)) == text,
    decreases text.len(),
{
    if text.len() > 0 {
        let rest = text.drop_first();
        let tail = encode16(rest);
        law_utf16_round_trip(rest);
        let v = text[0] as u32;
        char_is_scalar(text[0]);
        let units = encode16(text);
        if v < 0x10000 {
            assert(units[0] == v);
            assert(units.skip(1) =~= tail);
            char_u32_cast(text[0], v);
        } else {
            assert(units[0] == 0xD800 + (v - 0x10000) / 0x400);
            assert(units[1] == 0xDC00 + (v - 0x10000) % 0x400);
            assert(units.skip(2) =~= tail);
            char_u32_cast(text[0], v);
            assert(pair_char(units[0], units[1]) == text[0]);
        }
        assert(seq![text[0]] + rest =~= text);
    }
}

// ---- decimal numbers -------------------------------------------------------

/// The digit that stands for `d`, which is at most 9.
pub open spec fn digit_char(d: int) -> char {
    (48 + d) as char
}

/// Whether the character is an ASCII digit.
pub open spec fn is_digit(c: char) -> bool {
    48 <= c as u32 <= 57
}

/// A natural number in decimal.
pub open spec fn digits(n: nat) -> Seq<char>
    decreases n,
{
    if n < 10 {
        seq![digit_char(n as int)]
    } else {
        digits(n / 10).push(digit_char((n % 10) as int))
    }
}

/// An integer in decimal.
pub open spec fn decimal(v: int) -> Seq<char> {
    if v < 0 {
        seq!['-'] + digits((-v) as nat)
    } else {
        digits(v as nat)
    }
}

/// The number that a run of digits stands for.
pub open spec fn digits_value(text: Seq<char>) -> int
    decreases text.len(),
{
    if text.len() == 0 {
        0
    } else {
        10 * digits_value(text.drop_last()) + (text.last() as u32 - 48)
    }
}

/// Appends a natural number in decimal.
fn push_digits(text: &mut String, n: u64)
    ensures
        final(text)@ == old(text)@ + digits(n as nat),
    decreases n,
{
    let ghost before = text@;
    if n >= 10 {
        push_digits(text, n / 10);
    }
    match char::from_u32(48 + (n % 10) as u32) {
        Some(c) => text.push(c),
        None => {},
    }
    assert(text@ =~= before + digits(n as nat));
}

/// Writes an integer in decimal.
pub fn to_decimal(v: i64) -> (text: String)
    ensures
        text@ == decimal(v as int),
{
    let mut text = String::new();
    if v < 0 {
        text.push('-');
        if v == i64::MIN {
            push_digits(&mut text, 0x8000_0000_0000_0000);
        } else {
            push_digits(&mut text, (-v) as u64);
        }
    } else {
        push_digits(&mut text, v as u64);
    }
    assert(text@ =~= decimal(v as int));
    text
}

/// Whether a text is a run of one to nine digits, the form in which an indexed
/// access crosses as a property name.
pub open spec fn is_index(text: Seq<char>) -> bool {
    1 <= text.len() <= 9 && forall|i: int| 0 <= i < text.len() ==> is_digit(#[trigger] text[i])
}

proof fn lemma_index_bound(text: Seq<char>)
    requires
        text.len() <= 9,
        forall|i: int| 0 <= i < text.len() ==> is_digit(#[trigger] text[i]),
    ensures
        0 <= digits_value(text) < 1_000_000_000,
        text.len() <= 8 ==> digits_value(text) < 100_000_000,
        text.len() <= 7 ==> digits_value(text) < 10_000_000,
        text.len() <= 6 ==> digits_value(text) < 1_000_000,
        text.len() <= 5 ==> digits_value(text) < 100_000,
        text.len() <= 4 ==> digits_value(text) < 10_000,
        text.len() <= 3 ==> digits_value(text) < 1_000,
        text.len() <= 2 ==> digits_value(text) < 100,
        text.len() <= 1 ==> digits_value(text) < 10,
        text.len() == 0 ==> digits_value(text) == 0,
    decreases text.len(),
{
    if text.len() > 0 {
        lemma_index_bound(text.drop_last());
        assert(is_digit(text[text.len() - 1]));
    }
}

/// Reads a run of one to nine digits.
pub fn to_index(text: &str) -> (index: Option<u32>)
    ensures
        index is Some <==> is_index(text@),
        index matches Some(i) ==> i == digits_value(text@),
{
    let chars = characters(text);
    if chars.len() == 0 || chars.len() > 9 {
        return None;
    }
    let mut value: u32 = 0;
    for i in 0..chars.len()
        invariant
            chars@ == text@,
            1 <= chars@.len() <= 9,
            forall|j: int| 0 <= j < i ==> is_digit(#[trigger] chars@[j]),
            value == digits_value(chars@.take(i as int)),
    {
        let d: u32 = chars[i] as u32;
        if d < 48 || d > 57 {
            assert(!is_digit(chars@[i as int]));
            return None;
        }
        proof {
            let next = chars@.take(i + 1);
            assert(next.drop_last() =~= chars@.take(i as int));
            assert forall|j: int| 0 <= j < next.len() implies is_digit(#[trigger] next[j]) by {
                assert(is_digit(chars@[j]));
            }
            lemma_index_bound(next);
        }
        value = value * 10 + (d - 48);
    }
    assert(chars@.take(chars@.len() as int) =~= chars@);
    Some(value)
}

proof fn lemma_digits(n: nat)
    ensures
        digits(n).len() >= 1,
        forall|i: int| 0 <= i < digits(n).len() ==> is_digit(#[trigger] digits(n)[i]),
        digits_value(digits(n)) == n,
        n < 10 ==> digits(n).len() == 1,
        n < 100 ==> digits(n).len() <= 2,
        n < 1_000 ==> digits(n).len() <= 3,
        n < 10_000 ==> digits(n).len() <= 4,
        n < 100_000 ==> digits(n).len() <= 5,
        n < 1_000_000 ==> digits(n).len() <= 6,
        n < 10_000_000 ==> digits(n).len() <= 7,
        n < 100_000_000 ==> digits(n).len() <= 8,
        n < 1_000_000_000 ==> digits(n).len() <= 9,
    decreases n,
{
    let d = (n % 10) as int;
    assert(digit_char(d) as u32 == 48 + d);
    if n >= 10 {
        lemma_digits(n / 10);
        assert(digits(n).drop_last() =~= digits(n / 10));
    } else {
        assert(digits(n).drop_last() =~= Seq::<char>::empty());
        assert(digits_value(digits(n).drop_last()) == 0);
    }
}

/// An index below a thousand million written in decimal is recognised as an
/// index and reads back as itself.
pub proof fn law_index_round_trip(index: nat)
    requires
        index < 1_000_000_000,
    ensures
        is_index(digits(index)),
        digits_value(digits(index)) == index,
{
    lemma_digits(index);
}

// ---- messages and JSON -----------------------------------------------------

/// A text with every percent sign doubled, so that a formatter that takes
/// directives prints it as it stands.
pub open spec fn doubled(text: Seq<char>) -> Seq<char>
    decreases text.len(),
{
    if text.len() == 0 {
        Seq::empty()
    } else if text[0] == '%' {
        seq!['%', '%'] + doubled(text.drop_first())
    } else {
        seq![text[0]] + doubled(text.drop_first())
    }
}

/// What a formatter prints for a format that holds no directive but the doubled
/// percent sign.
pub open spec fn printed(format: Seq<char>) -> Seq<char>
    decreases format.len(),
{
    if format.len() == 0 {
        Seq::empty()
    } else if format.len() >= 2 && format[0] == '%' && format[1] == '%' {
        seq!['%'] + printed(format.skip(2))
    } else {
        seq![format[0]] + printed(format.skip(1))
    }
}

/// Doubles every percent sign.
pub fn double_percents(chars: &Vec<char>, from: usize) -> (text: String)
    requires
        from <= chars@.len(),
    ensures
        text@ == doubled(chars@.skip(from as int)),
{
    let mut text = String::new();
    let ghost whole = doubled(chars@.skip(from as int));
    for i in from..chars.len()
        invariant
            from <= i <= chars@.len(),
            text@ + doubled(chars@.skip(i as int)) == whole,
    {
        let ghost before = text@;
        let c: char = chars[i];
        if c == '%' {
            text.push('%');
        }
        text.push(c);
        proof {
            let rest = chars@.skip(i as int);
            assert(rest.drop_first() =~= chars@.skip(i + 1));
            assert(text@ + doubled(chars@.skip(i + 1)) =~= before + doubled(rest));
        }
    }
    proof {
        assert(chars@.skip(chars@.len() as int) =~= Seq::<char>::empty());
        assert(text@ + Seq::<char>::empty() =~= text@);
    }
    text
}

/// A text whose percent signs are doubled prints as the text itself.
pub proof fn law_doubled_prints_as_itself(text: Seq<char>)
    ensures
        printed(doubled(text)) == text,
    decreases text.len(),
{
    if text.len() > 0 {
        let rest = text.drop_first();
        let format = doubled(text);
        law_doubled_prints_as_itself(rest);
        if text[0] == '%' {
            assert(format.skip(2) =~= doubled(rest));
        } else {
            assert(format.skip(1) =~= doubled(rest));
        }
        assert(seq![text[0]] + rest =~= text);
    }
}

/// Texts separated by commas.
pub open spec fn joined(texts: Seq<Seq<char>>) -> Seq<char>
    decreases texts.len(),
{
    if texts.len() == 0 {
        Seq::empty()
    } else if texts.len() == 1 {
        texts[0]
    } else {
        joined(texts.drop_last()) + seq![','] + texts.last()
    }
}

/// A JSON array of the given items.
pub open spec fn json_array(items: Seq<Seq<char>>) -> Seq<char> {
    seq!['['] + joined(items) + seq![']']
}

/// The texts held by some strings.
pub open spec fn texts(strings: Seq<String>) -> Seq<Seq<char>> {
    Seq::new(strings.len(), |i: int| strings[i]@)
}

/// Writes a JSON array of the given items.
pub fn to_json_array(items: &Vec<String>) -> (text: String)
    ensures
        text@ == json_array(texts(items@)),
{
    let mut text = String::new();
    text.push('[');
    for i in 0..items.len()
        invariant
            text@ == seq!['['] + joined(texts(items@).take(i as int)),
    {
        let ghost before = text@;
        if i > 0 {
            text.push(',');
        }
        text.append(items[i].as_str());
        proof {
            let next = texts(items@).take(i + 1);
            assert(next.drop_last() =~= texts(items@).take(i as int));
            assert(next.last() == items@[i as int]@);
            assert(text@ =~= seq!['['] + joined(next));
        }
    }
    text.push(']');
    proof {
        assert(texts(items@).take(items@.len() as int) =~= texts(items@));
        assert(text@ =~= json_array(texts(items@)));
    }
    text
}

/// The parts of a text between its commas: as many as it has commas, and one more.
pub open spec fn parts(text: Seq<char>) -> Seq<Seq<char>>
    decreases text.len(),
{
    if text.len() == 0 {
        seq![Seq::empty()]
    } else {
        let rest = parts(text.drop_last());
        if text.last() == ',' {
            rest.push(Seq::empty())
        } else {
            rest.drop_last().push(rest.last().push(text.last()))
        }
    }
}

/// The items of an array, as texts: what stands between the brackets, parted at
/// the commas, and no item where nothing stands there.
pub open spec fn array_items(array: Seq<char>) -> Seq<Seq<char>> {
    let inner = array.subrange(1, array.len() - 1);
    if inner.len() == 0 {
        Seq::empty()
    } else {
        parts(inner)
    }
}

proof fn lemma_parts_extend(text: Seq<char>, item: Seq<char>)
    requires
        !item.contains(','),
    ensures
        parts(text).len() > 0,
        parts(text + item).len() == parts(text).len(),
        parts(text + item) == parts(text).drop_last().push(parts(text).last() + item),
    decreases item.len(), text.len(),
{
    if item.len() == 0 {
        if text.len() > 0 {
            lemma_parts_extend(text.drop_last(), Seq::empty());
        }
        assert(text + item =~= text);
        assert(parts(text).last() + item =~= parts(text).last());
        assert(parts(text).drop_last().push(parts(text).last()) =~= parts(text));
    } else {
        let init = item.drop_last();
        assert forall|i: int| 0 <= i < init.len() implies init[i] != ',' by {
            assert(item.contains(item[i]));
        }
        lemma_parts_extend(text, init);
        assert(item.contains(item.last()));
        assert((text + item).drop_last() =~= text + init);
        assert((text + item).last() == item.last());
        assert((parts(text).last() + init).push(item.last()) =~= parts(text).last() + item);
        assert(parts(text + init).drop_last() =~= parts(text).drop_last());
        assert(parts(text + item) =~= parts(text).drop_last().push(parts(text).last() + item));
    }
}

proof fn lemma_joined_parts(items: Seq<Seq<char>>)
    requires
        items.len() > 0,
        forall|i: int| 0 <= i < items.len() ==> !(#[trigger] items[i]).contains(','),
    ensures
        parts(joined(items)) == items,
        joined(items).len() == 0 ==> items.len() == 1,
    decreases items.len(),
{
    if items.len() == 1 {
        lemma_parts_extend(Seq::empty(), items[0]);
        assert(Seq::<char>::empty() + items[0] =~= items[0]);
        assert(parts(items[0]) =~= items);
    } else {
        let init = items.drop_last();
        assert forall|i: int| 0 <= i < init.len() implies !(#[trigger] init[i]).contains(',') by {
            assert(init[i] == items[i]);
        }
        lemma_joined_parts(init);
        let text = joined(init) + seq![','];
        assert(text.drop_last() =~= joined(init));
        assert(parts(text) == init.push(Seq::empty()));
        lemma_parts_extend(text, items.last());
        assert(init.push(Seq::<char>::empty()).drop_last() =~= init);
        assert(Seq::<char>::empty() + items.last() =~= items.last());
        assert(init.push(items.last()) =~= items);
    }
}

/// An array whose items hold no commas parts into its items again: as many as were
/// written, in order, with no comma too many. The one exception is an array of a
/// single empty item, which is written as the empty array is.
pub proof fn law_array_parts_into_its_items(items: Seq<Seq<char>>)
    requires
        forall|i: int| 0 <= i < items.len() ==> !(#[trigger] items[i]).contains(','),
        items.len() == 1 ==> items[0].len() > 0,
    ensures
        array_items(json_array(items)) == items,
        json_array(items)[0] == '[',
        json_array(items).last() == ']',
{
    let array = json_array(items);
    assert(array.subrange(1, array.len() - 1) =~= joined(items));
    if items.len() == 0 {
        assert(array_items(array) =~= items);
    } else {
        lemma_joined_parts(items);
    }
}

// ---- what texts cross as ---------------------------------------------------

/// A text handed over as UTF-8 arrives as the text itself, and bytes that are no
/// UTF-8 arrive as the empty text.
pub proof fn law_utf8_arrives(text: Seq<char>, bytes: Seq<u8>)
    ensures
        name_text(encode_utf8(text)) == text,
        !valid_utf8(bytes) ==> name_text(bytes).len() == 0,
{
    encode_utf8_valid_utf8(text);
    encode_utf8_decode_utf8(text);
}

/// In UTF-16 a character below U+10000 is one unit, its own number, and any other
/// is a pair of units, in the two ranges set aside for that, which carry the upper
/// and the lower ten bits of its number less 0x10000.
pub proof fn law_utf16_of_a_character(c: char)
    ensures
        ({
            let v = c as u32;
            let units = encode16(seq![c]);
            &&& v < 0x10000 ==> units.len() == 1 && units[0] == v
            &&& v >= 0x10000 ==> {
                &&& units.len() == 2
                &&& 0xD800 <= units[0] <= 0xDBFF
                &&& 0xDC00 <= units[1] <= 0xDFFF
                &&& (units[0] - 0xD800) * 0x400 + (units[1] - 0xDC00) == v - 0x10000
            }
        }),
{
    char_is_scalar(c);
    assert(seq![c].drop_first() =~= Seq::<char>::empty());
    assert(encode16(seq![c].drop_first()) =~= Seq::<u16>::empty());
    assert(encode16(seq![c]) =~= char_units(c));
}

/// UTF-16 is written character by character.
pub proof fn law_utf16_is_written_in_order(a: Seq<char>, b: Seq<char>)
    ensures
        encode16(a + b) == encode16(a) + encode16(b),
        encode16(Seq::empty()).len() == 0,
    decreases a.len(),
{
    if a.len() == 0 {
        assert(a + b =~= b);
        assert(encode16(a) + encode16(b) =~= encode16(b));
    } else {
        law_utf16_is_written_in_order(a.drop_first(), b);
        assert((a + b).drop_first() =~= a.drop_first() + b);
        assert(char_units(a[0]) + (encode16(a.drop_first()) + encode16(b)) =~= encode16(a)
            + encode16(b));
    }
}

/// A unit of UTF-16 that is no surrogate reads as the character of its number, a
/// surrogate on its own reads as U+FFFD, and a pair as the one character it carries.
pub proof fn law_utf16_units_read(u: u16, low: u16)
    ensures
        u < 0xD800 || u >= 0xE000 ==> decode16(seq![u]) == seq![u as char],
        0xD800 <= u < 0xE000 ==> decode16(seq![u]) == seq!['\u{FFFD}'],
        0xD800 <= u < 0xDC00 && 0xDC00 <= low < 0xE000 ==> decode16(seq![u, low]) == seq![
            (0x10000 + (u - 0xD800) * 0x400 + (low - 0xDC00)) as char,
        ],
{
    assert(seq![u].skip(1) =~= Seq::<u16>::empty());
    assert(decode16(seq![u].skip(1)) =~= Seq::<char>::empty());
    assert(seq![u, low].skip(2) =~= Seq::<u16>::empty());
    assert(decode16(seq![u, low].skip(2)) =~= Seq::<char>::empty());
    if u < 0xD800 || u >= 0xE000 {
        assert(decode16(seq![u]) =~= seq![u as char]);
    } else {
        assert(decode16(seq![u]) =~= seq!['\u{FFFD}']);
    }
    if 0xD800 <= u < 0xDC00 && 0xDC00 <= low < 0xE000 {
        assert(decode16(seq![u, low]) =~= seq![pair_char(u, low)]);
    }
}

/// UTF-16 is read in order: where no pair is cut apart, two pieces read as what
/// each of them reads as.
pub proof fn law_utf16_is_read_in_order(a: Seq<u16>, b: Seq<u16>)
    requires
        a.len() == 0 || b.len() == 0 || !(0xD800 <= a.last() < 0xDC00) || !(0xDC00 <= b[0]
            < 0xE000),
    ensures
        decode16(a + b) == decode16(a) + decode16(b),
    decreases a.len(),
{
    if a.len() == 0 {
        assert(a + b =~= b);
        assert(decode16(a) + decode16(b) =~= decode16(b));
    } else {
        let whole = a + b;
        if a.len() >= 2 && high_surrogate(a[0]) && low_surrogate(a[1]) {
            let rest = a.skip(2);
            law_utf16_is_read_in_order(rest, b);
            assert(whole.skip(2) =~= rest + b);
            assert(decode16(whole) =~= decode16(a) + decode16(b));
        } else {
            let rest = a.skip(1);
            law_utf16_is_read_in_order(rest, b);
            assert(whole.skip(1) =~= rest + b);
            assert(a.len() == 1 ==> a.last() == a[0]);
            assert(a.len() >= 2 ==> whole[1] == a[1]);
            assert(a.len() == 1 && b.len() > 0 ==> whole[1] == b[0]);
            assert(decode16(whole) =~= decode16(a) + decode16(b));
        }
    }
}

/// A name reads as an index exactly where it is made of one to nine of the
/// characters 0 to 9.
pub proof fn law_index_is_made_of_digits(text: Seq<char>)
    ensures
        is_index(text) <==> 1 <= text.len() <= 9 && forall|i: int|
            0 <= i < text.len() ==> 48 <= (#[trigger] text[i]) as u32 <= 57,
{
    assert(is_index(text) ==> forall|i: int|
        0 <= i < text.len() ==> is_digit(#[trigger] text[i]));
}

/// Digits are positional: a digit added at the end counts for itself, and all those
/// before it for ten times as much.
pub proof fn law_digits_are_positional(text: Seq<char>, digit: char)
    ensures
        digits_value(Seq::empty()) == 0,
        digits_value(text.push(digit)) == 10 * digits_value(text) + (digit as u32 - 48),
{
    assert(text.push(digit).drop_last() =~= text);
}

/// An integer in decimal is a minus sign where it is negative, and then digits that
/// stand for its absolute value, the first of them no zero but for zero itself.
pub proof fn law_decimal_reads_back(v: int)
    ensures
        ({
            let text = decimal(v);
            let rest = if v < 0 {
                text.drop_first()
            } else {
                text
            };
            &&& v < 0 ==> text[0] == '-'
            &&& rest.len() >= 1
            &&& forall|i: int| 0 <= i < rest.len() ==> 48 <= (#[trigger] rest[i]) as u32 <= 57
            &&& digits_value(rest) == if v < 0 {
                -v
            } else {
                v
            }
            &&& v != 0 ==> rest[0] != '0'
            &&& v == 0 ==> rest == seq!['0']
        }),
{
    let n = if v < 0 {
        (-v) as nat
    } else {
        v as nat
    };
    lemma_digits(n);
    lemma_first_digit(n);
    if v < 0 {
        assert(decimal(v).drop_first() =~= digits(n));
    }
    assert forall|i: int| 0 <= i < digits(n).len() implies 48 <= (#[trigger] digits(n)[i]) as u32
        <= 57 by {
        assert(is_digit(digits(n)[i]));
    }
    if v == 0 {
        assert(digits(n) =~= seq!['0']);
    }
}

proof fn lemma_first_digit(n: nat)
    ensures
        digits(n).len() >= 1,
        n > 0 ==> digits(n)[0] != '0',
    decreases n,
{
    let d = (n % 10) as int;
    assert(digit_char(d) as u32 == 48 + d);
    if n >= 10 {
        lemma_first_digit(n / 10);
    }
}

/// Percent signs are doubled character by character, and nothing else is touched.
pub proof fn law_only_percents_are_doubled(a: Seq<char>, b: Seq<char>, c: char)
    ensures
        doubled(a + b) == doubled(a) + doubled(b),
        doubled(Seq::empty()).len() == 0,
        c == '%' ==> doubled(seq![c]) == seq!['%', '%'],
        c != '%' ==> doubled(seq![c]) == seq![c],
    decreases a.len(),
{
    assert(seq![c].drop_first() =~= Seq::<char>::empty());
    assert(doubled(seq![c].drop_first()) =~= Seq::<char>::empty());
    if c == '%' {
        assert(doubled(seq![c]) =~= seq!['%', '%']);
    } else {
        assert(doubled(seq![c]) =~= seq![c]);
    }
    if a.len() == 0 {
        assert(a + b =~= b);
        assert(doubled(a) + doubled(b) =~= doubled(b));
    } else {
        law_only_percents_are_doubled(a.drop_first(), b, c);
        assert((a + b).drop_first() =~= a.drop_first() + b);
        assert(doubled(a + b) =~= doubled(a) + doubled(b));
    }
}

}
