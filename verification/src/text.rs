//! Text building blocks: strings as sequences of characters and numbers in decimal and
//! hexadecimal notation.
use vstd::prelude::*;
use vstd::string::*;
use vstd::utf8::*;

verus! {

/// `String::push` appends one character.
pub assume_specification[ std::string::String::push ](s: &mut std::string::String, c: char)
    ensures
        final(s)@ == old(s)@.push(c),
;

/// `str`'s `==`: two texts are equal if they consist of the same characters.
#[verifier::external_body]
pub(crate) fn same_text(a: &str, b: &str) -> (result: bool)
    ensures
        result == (a@ == b@),
{
    a == b
}

/// The text of an optional string.
pub open spec fn text_of(value: Option<String>) -> Option<Seq<char>> {
    match value {
        Some(text) => Some(text@),
        None => None,
    }
}

/// The texts of a list of strings.
pub open spec fn texts_of(list: Seq<String>) -> Seq<Seq<char>> {
    list.map_values(|s: String| s@)
}

/// The texts of an optional list.
pub open spec fn list_of(list: Option<Vec<String>>) -> Option<Seq<Seq<char>>> {
    match list {
        Some(items) => Some(texts_of(items@)),
        None => None,
    }
}

/// The characters of a text.
pub fn chars_of(text: &str) -> (result: Vec<char>)
    ensures
        result@ == text@,
{
    let mut out: Vec<char> = Vec::new();
    for c in it: text.chars()
        invariant
            out@ == it.seq().take(it.index()),
            it.seq() == text@,
    {
        out.push(c);
        assert(out@ =~= it.seq().take(it.index() + 1));
    }
    assert(text@.take(text@.len() as int) =~= text@);
    out
}

/// The text that consists of the characters `chars[from..to]`.
pub fn string_of(chars: &Vec<char>, from: usize, to: usize) -> (result: String)
    requires
        from <= to <= chars@.len(),
    ensures
        result@ == chars@.subrange(from as int, to as int),
{
    let mut out: String = String::new();
    let mut i: usize = from;
    while i < to
        invariant
            from <= i <= to <= chars@.len(),
            out@ == chars@.subrange(from as int, i as int),
        decreases to - i,
    {
        out.push(chars[i]);
        i = i + 1;
        assert(out@ =~= chars@.subrange(from as int, i as int));
    }
    out
}

/// `std`'s classification of alphanumeric characters.
pub uninterp spec fn is_alphanumeric(c: char) -> bool;

/// `char::is_alphanumeric` depends on the character alone.
pub assume_specification[ char::is_alphanumeric ](c: char) -> (result: bool)
    ensures
        result == is_alphanumeric(c),
;

/// `std`'s classification of white space.
pub uninterp spec fn is_whitespace(c: char) -> bool;

/// `char::is_whitespace` depends on the character alone.
pub assume_specification[ char::is_whitespace ](c: char) -> (result: bool)
    ensures
        result == is_whitespace(c),
;

/// A character that may stand in the name of a tool.
pub open spec fn is_name_char(c: char) -> bool {
    is_alphanumeric(c) || c == '_'
}

/// A text with everything but name characters taken out.
pub open spec fn name_part(text: Seq<char>) -> Seq<char> {
    text.filter(|c: char| is_name_char(c))
}

/// Takes everything but name characters out of a text.
pub fn keep_name_chars(text: &str) -> (result: String)
    ensures
        result@ == name_part(text@),
{
    let chars = chars_of(text);
    let mut out: String = String::new();
    let mut i: usize = 0;
    proof {
        reveal(Seq::filter);
    }
    while i < chars.len()
        invariant
            i <= chars@.len(),
            out@ == name_part(chars@.take(i as int)),
        decreases chars.len() - i,
    {
        let c: char = chars[i];
        proof {
            reveal(Seq::filter);
            assert(chars@.take(i + 1).drop_last() =~= chars@.take(i as int));
        }
        if c.is_alphanumeric() || c == '_' {
            out.push(c);
        }
        i = i + 1;
    }
    assert(chars@.take(chars@.len() as int) =~= chars@);
    out
}

/// A cleaned name consists of name characters, is no longer than the text, and cleaning it again
/// changes nothing.
pub proof fn law_name_part(text: Seq<char>)
    ensures
        forall|i: int|
            0 <= i < name_part(text).len() ==> is_name_char(#[trigger] name_part(text)[i]),
        name_part(text).len() <= text.len(),
        name_part(name_part(text)) == name_part(text),
    decreases text.len(),
{
    reveal(Seq::filter);
    let keep = |c: char| is_name_char(c);
    if text.len() > 0 {
        law_name_part(text.drop_last());
        let head = name_part(text.drop_last());
        if keep(text.last()) {
            assert(name_part(text) == head.push(text.last()));
            assert(head.push(text.last()).drop_last() =~= head);
        }
    }
}

/// The parts of two texts that are names make up that of the whole.
pub proof fn law_name_part_pieces(first: Seq<char>, second: Seq<char>)
    ensures
        name_part(first + second) == name_part(first) + name_part(second),
{
    Seq::filter_distributes_over_add(first, second, |c: char| is_name_char(c));
}

proof fn lemma_uniform_name_part(text: Seq<char>, named: bool)
    requires
        forall|i: int|
            0 <= i < text.len() ==> (is_alphanumeric(#[trigger] text[i]) || text[i] == '_')
                == named,
    ensures
        name_part(text) == (if named {
            text
        } else {
            seq![]
        }),
    decreases text.len(),
{
    reveal(Seq::filter);
    if text.len() > 0 {
        let less = text.drop_last();
        assert forall|i: int| 0 <= i < less.len() implies (is_alphanumeric(#[trigger] less[i])
            || less[i] == '_') == named by {
            assert(less[i] == text[i]);
        }
        lemma_uniform_name_part(less, named);
        assert(text[text.len() - 1] == text.last());
        assert(less.push(text.last()) =~= text);
    } else {
        assert(text =~= seq![]);
    }
}

/// What is no part of a name is taken out, what is one is kept, in its order.
pub proof fn law_name_part_keeps_names(noise: Seq<char>, word: Seq<char>)
    requires
        forall|i: int|
            0 <= i < noise.len() ==> !(is_alphanumeric(#[trigger] noise[i]) || noise[i] == '_'),
        forall|i: int|
            0 <= i < word.len() ==> is_alphanumeric(#[trigger] word[i]) || word[i] == '_',
    ensures
        name_part(noise + word) == word,
        name_part(word + noise) == word,
{
    lemma_uniform_name_part(noise, false);
    lemma_uniform_name_part(word, true);
    law_name_part_pieces(noise, word);
    law_name_part_pieces(word, noise);
    assert(Seq::<char>::empty() + word =~= word);
    assert(word + Seq::<char>::empty() =~= word);
}

/// Some character of the text is alphanumeric.
pub open spec fn has_alphanumeric(text: Seq<char>) -> bool {
    exists|i: int| 0 <= i < text.len() && is_alphanumeric(#[trigger] text[i])
}

/// Whether some character of the text is alphanumeric.
pub fn any_alphanumeric(text: &str) -> (result: bool)
    ensures
        result == has_alphanumeric(text@),
{
    let chars = chars_of(text);
    let mut i: usize = 0;
    while i < chars.len()
        invariant
            chars@ == text@,
            i <= chars@.len(),
            forall|q: int| 0 <= q < i ==> !is_alphanumeric(#[trigger] chars@[q]),
        decreases chars.len() - i,
    {
        if chars[i].is_alphanumeric() {
            assert(is_alphanumeric(text@[i as int]));
            return true;
        }
        i = i + 1;
    }
    false
}

/// `pattern` stands in `text` at `i`.
pub open spec fn stands_at(text: Seq<char>, pattern: Seq<char>, i: int) -> bool {
    0 <= i && i + pattern.len() <= text.len() && text.subrange(i, i + pattern.len()) == pattern
}

/// The last place at or before `i` where `pattern` stands in `text`.
pub open spec fn last_place_from(text: Seq<char>, pattern: Seq<char>, i: int) -> Option<int>
    decreases i + 1,
{
    if i < 0 {
        None
    } else if stands_at(text, pattern, i) {
        Some(i)
    } else {
        last_place_from(text, pattern, i - 1)
    }
}

/// The last place where `pattern` stands in `text`.
pub open spec fn last_place(text: Seq<char>, pattern: Seq<char>) -> Option<int> {
    last_place_from(text, pattern, text.len() - pattern.len())
}

/// The last place is one, and nothing stands behind it.
pub proof fn lemma_last_place(text: Seq<char>, pattern: Seq<char>, i: int)
    ensures
        last_place_from(text, pattern, i) matches Some(k) ==> stands_at(text, pattern, k) && k <= i
            && forall|q: int| k < q <= i ==> !#[trigger] stands_at(text, pattern, q),
        last_place_from(text, pattern, i) is None ==> forall|q: int|
            q <= i ==> !#[trigger] stands_at(text, pattern, q),
    decreases i + 1,
{
    if i >= 0 && !stands_at(text, pattern, i) {
        lemma_last_place(text, pattern, i - 1);
    }
}

fn matches_at(chars: &Vec<char>, pattern: &Vec<char>, at: usize) -> (result: bool)
    requires
        at + pattern@.len() <= chars@.len(),
    ensures
        result == stands_at(chars@, pattern@, at as int),
{
    let n: usize = chars.len();
    let mut i: usize = 0;
    while i < pattern.len()
        invariant
            n == chars@.len(),
            i <= pattern@.len(),
            at + pattern@.len() <= chars@.len(),
            forall|q: int| 0 <= q < i ==> chars@[at + q] == #[trigger] pattern@[q],
        decreases pattern.len() - i,
    {
        if chars[at + i] != pattern[i] {
            assert(chars@.subrange(at as int, at + pattern@.len())[i as int] != pattern@[i as int]);
            return false;
        }
        i = i + 1;
    }
    assert(chars@.subrange(at as int, at + pattern@.len()) =~= pattern@);
    true
}

/// Finds the last place where `pattern` stands in the characters.
pub fn find_last(chars: &Vec<char>, pattern: &Vec<char>) -> (result: Option<usize>)
    ensures
        match result {
            Some(k) => last_place(chars@, pattern@) == Some(k as int) && stands_at(
                chars@,
                pattern@,
                k as int,
            ),
            None => last_place(chars@, pattern@) is None,
        },
{
    if pattern.len() > chars.len() {
        return None;
    }
    let mut k: usize = chars.len() - pattern.len();
    loop
        invariant
            k + pattern@.len() <= chars@.len(),
            last_place(chars@, pattern@) == last_place_from(chars@, pattern@, k as int),
        decreases k,
    {
        if matches_at(chars, pattern, k) {
            return Some(k);
        }
        if k == 0 {
            assert(last_place_from(chars@, pattern@, -1) is None);
            return None;
        }
        k = k - 1;
    }
}

/// The text before and behind the last place of a pattern.
pub open spec fn split_at_last(text: Seq<char>, pattern: Seq<char>) -> Option<
    (Seq<char>, Seq<char>),
> {
    match last_place(text, pattern) {
        Some(k) => Some((text.take(k), text.skip(k + pattern.len()))),
        None => None,
    }
}

/// Splits a text at the last place of a pattern.
pub fn rsplit_text(text: &str, pattern: &str) -> (result: Option<(String, String)>)
    ensures
        match result {
            Some((before, behind)) => split_at_last(text@, pattern@) == Some((before@, behind@)),
            None => split_at_last(text@, pattern@) is None,
        },
{
    let chars = chars_of(text);
    let wanted = chars_of(pattern);
    match find_last(&chars, &wanted) {
        Some(k) => {
            let n: usize = chars.len();
            let before = string_of(&chars, 0, k);
            let behind = string_of(&chars, k + wanted.len(), n);
            assert(before@ =~= text@.take(k as int));
            assert(behind@ =~= text@.skip(k + pattern@.len()));
            Some((before, behind))
        },
        None => None,
    }
}

/// The text with white space taken off both ends is not empty and does not end in `c`.
pub open spec fn lacks_end(text: Seq<char>, c: char) -> bool
    decreases text.len(),
{
    if text.len() == 0 {
        false
    } else if is_whitespace(text.last()) {
        lacks_end(text.drop_last(), c)
    } else {
        text.last() != c
    }
}

/// Whether the trimmed text is not empty and does not end in `c`.
pub fn trimmed_lacks_end(text: &str, c: char) -> (result: bool)
    ensures
        result == lacks_end(text@, c),
{
    let chars = chars_of(text);
    let mut n: usize = chars.len();
    assert(chars@.take(n as int) =~= chars@);
    while n > 0
        invariant
            chars@ == text@,
            n <= chars@.len(),
            lacks_end(chars@, c) == lacks_end(chars@.take(n as int), c),
        decreases n,
    {
        let last: char = chars[n - 1];
        assert(chars@.take(n as int).drop_last() =~= chars@.take(n - 1));
        assert(chars@.take(n as int).last() == last);
        if !last.is_whitespace() {
            return last != c;
        }
        n = n - 1;
    }
    false
}

/// A decimal digit.
pub open spec fn digit(d: int) -> char {
    (48 + d) as char
}

/// A number in decimal notation, without leading zeros.
pub open spec fn dec(n: nat) -> Seq<char>
    decreases n,
{
    if n < 10 {
        seq![digit(n as int)]
    } else {
        dec(n / 10).push(digit((n % 10) as int))
    }
}

/// An integer in decimal notation.
pub open spec fn dec_int(n: int) -> Seq<char> {
    if n < 0 {
        seq!['-'] + dec((-n) as nat)
    } else {
        dec(n as nat)
    }
}

/// The value of a hexadecimal digit.
pub open spec fn hex_digit(d: int) -> char {
    if d < 10 {
        (48 + d) as char
    } else {
        (87 + d) as char
    }
}

/// A number in lower case hexadecimal notation, without leading zeros.
pub open spec fn hex(n: nat) -> Seq<char>
    decreases n,
{
    if n < 16 {
        seq![hex_digit(n as int)]
    } else {
        hex(n / 16).push(hex_digit((n % 16) as int))
    }
}

/// Appends a number in decimal notation.
pub fn push_dec(out: &mut String, n: u64)
    ensures
        final(out)@ == old(out)@ + dec(n as nat),
    decreases n,
{
    if n >= 10 {
        push_dec(out, n / 10);
    }
    let d: u8 = (n % 10) as u8;
    out.push((48u8 + d) as char);
    assert(out@ =~= old(out)@ + dec(n as nat));
}

/// Appends an integer in decimal notation.
pub fn push_dec_int(out: &mut String, n: i64)
    ensures
        final(out)@ == old(out)@ + dec_int(n as int),
{
    if n < 0 {
        out.push('-');
        let magnitude: u64 = (-(n as i128)) as u64;
        push_dec(out, magnitude);
        assert(out@ =~= old(out)@ + dec_int(n as int));
    } else {
        push_dec(out, n as u64);
    }
}

/// Appends a number in hexadecimal notation.
pub fn push_hex(out: &mut String, n: u64)
    ensures
        final(out)@ == old(out)@ + hex(n as nat),
    decreases n,
{
    if n >= 16 {
        push_hex(out, n / 16);
    }
    let d: u8 = (n % 16) as u8;
    if d < 10 {
        out.push((48u8 + d) as char);
    } else {
        out.push((87u8 + d) as char);
    }
    assert(out@ =~= old(out)@ + hex(n as nat));
}

/// A number in decimal notation.
pub fn dec_string(n: u64) -> (result: String)
    ensures
        result@ == dec(n as nat),
{
    let mut out: String = String::new();
    push_dec(&mut out, n);
    assert(out@ =~= dec(n as nat));
    out
}

/// The text is a non-empty run of decimal digits.
pub open spec fn is_digits(text: Seq<char>) -> bool {
    &&& text.len() > 0
    &&& forall|i: int| 0 <= i < text.len() ==> '0' <= #[trigger] text[i] && text[i] <= '9'
}

/// The number that a run of decimal digits denotes; leading zeros do not matter.
pub open spec fn digits_value(text: Seq<char>) -> nat
    decreases text.len(),
{
    if text.len() == 0 {
        0
    } else {
        digits_value(text.drop_last()) * 10 + (text.last() as int - 48) as nat
    }
}

/// What the standard integer parser makes of a text for a machine word: an optional plus sign and
/// decimal digits whose value fits.
pub open spec fn parsed_usize(text: Seq<char>) -> Option<usize> {
    let digits = if text.len() > 0 && text[0] == '+' {
        text.skip(1)
    } else {
        text
    };
    if is_digits(digits) && digits_value(digits) <= usize::MAX {
        Some(digits_value(digits) as usize)
    } else {
        None
    }
}

proof fn lemma_digits_value_grows(text: Seq<char>, k: int)
    requires
        0 <= k <= text.len(),
        forall|i: int| 0 <= i < text.len() ==> '0' <= #[trigger] text[i] && text[i] <= '9',
    ensures
        digits_value(text.take(k)) <= digits_value(text),
    decreases text.len() - k,
{
    if k < text.len() {
        lemma_digits_value_grows(text, k + 1);
        assert(text.take(k + 1).drop_last() =~= text.take(k));
    } else {
        assert(text.take(k) =~= text);
    }
}

/// Parses a machine word from the characters `chars[from..to]`.
pub fn parse_usize(chars: &Vec<char>, from: usize, to: usize) -> (result: Option<usize>)
    requires
        from <= to <= chars@.len(),
    ensures
        result == parsed_usize(chars@.subrange(from as int, to as int)),
{
    let ghost text = chars@.subrange(from as int, to as int);
    let mut start: usize = from;
    if from < to && chars[from] == '+' {
        start = from + 1;
    }
    let ghost digits = if text.len() > 0 && text[0] == '+' {
        text.skip(1)
    } else {
        text
    };
    assert(digits =~= chars@.subrange(start as int, to as int));
    if start == to {
        return None;
    }
    let mut value: usize = 0;
    let mut i: usize = start;
    while i < to
        invariant
            from <= start <= i <= to <= chars@.len(),
            text == chars@.subrange(from as int, to as int),
            digits == chars@.subrange(start as int, to as int),
            digits == (if text.len() > 0 && text[0] == '+' {
                text.skip(1)
            } else {
                text
            }),
            digits.len() > 0,
            value == digits_value(digits.take(i - start)),
            forall|q: int|
                0 <= q < i - start ==> '0' <= #[trigger] digits[q] && digits[q] <= '9',
        decreases to - i,
    {
        let c: char = chars[i];
        assert(c == digits[i - start]);
        if c < '0' || c > '9' {
            return None;
        }
        let d: usize = (c as u32 - 48) as usize;
        proof {
            assert(digits.take(i - start + 1).drop_last() =~= digits.take(i - start));
        }
        if value > (usize::MAX - d) / 10 {
            proof {
                let longer = digits.take(i - start + 1);
                assert(longer.last() == c);
                assert(digits_value(longer) == value * 10 + d);
                assert(value * 10 + d > usize::MAX);
                if is_digits(digits) {
                    lemma_digits_value_grows(digits, i - start + 1);
                }
            }
            return None;
        }
        value = value * 10 + d;
        i = i + 1;
    }
    assert(digits.take(to - start) =~= digits);
    Some(value)
}

/// Decimal notation is read back as the number that was written.
pub proof fn law_dec_parses(n: nat)
    ensures
        is_digits(dec(n)),
        digits_value(dec(n)) == n,
        n <= usize::MAX ==> parsed_usize(dec(n)) == Some(n as usize),
    decreases n,
{
    if n >= 10 {
        law_dec_parses(n / 10);
        assert(dec(n).drop_last() =~= dec(n / 10));
    } else {
        assert(dec(n).drop_last() =~= Seq::<char>::empty());
        assert(digits_value(Seq::<char>::empty()) == 0);
    }
    assert(dec(n).last() == digit((n % 10) as int));
    assert(dec(n)[0] != '+');
}

/// The number of bytes of a text.
pub open spec fn byte_len(text: Seq<char>) -> nat {
    encode_utf8(text).len()
}

/// A number of bytes ends between two characters of a text.
pub open spec fn is_boundary(text: Seq<char>, pos: int) -> bool {
    is_char_boundary(encode_utf8(text), pos)
}

/// The text before a number of bytes.
pub open spec fn text_before(text: Seq<char>, pos: int) -> Seq<char> {
    decode_utf8(encode_utf8(text).subrange(0, pos))
}

/// The text after a number of bytes.
pub open spec fn text_after(text: Seq<char>, pos: int) -> Seq<char> {
    decode_utf8(encode_utf8(text).subrange(pos, encode_utf8(text).len() as int))
}

/// The number of bytes of a text.
pub fn bytes_of(text: &str) -> (result: usize)
    ensures
        result == byte_len(text@),
{
    text.as_bytes().len()
}

/// The text after a number of bytes.
pub fn after_bytes(text: &str, pos: usize) -> (result: String)
    requires
        is_boundary(text@, pos as int),
    ensures
        result@ == text_after(text@, pos as int),
{
    let (_, rest) = text.split_at(pos);
    proof {
        encode_utf8_decode_utf8(rest@);
    }
    String::from_str(rest)
}

/// The beginning and the end of a text are boundaries.
pub proof fn lemma_outer_boundaries(text: Seq<char>)
    ensures
        is_boundary(text, 0),
        is_boundary(text, byte_len(text) as int),
{
    encode_utf8_valid_utf8(text);
    is_char_boundary_start_end_of_seq(encode_utf8(text));
}

/// A boundary of a text is one of every longer text.
pub proof fn lemma_boundary_stays(text: Seq<char>, longer: Seq<char>, pos: int)
    requires
        is_boundary(text, pos),
        text.is_prefix_of(longer),
    ensures
        is_boundary(longer, pos),
        pos <= byte_len(text) <= byte_len(longer),
    decreases text.len(),
{
    encode_utf8_valid_utf8(text);
    encode_utf8_valid_utf8(longer);
    if text.len() > 0 {
        let bytes = encode_utf8(text);
        let all = encode_utf8(longer);
        encode_utf8_first_scalar(text);
        encode_utf8_first_scalar(longer);
        assert(longer[0] == text[0]);
        assert(pop_first_scalar(bytes) =~= encode_utf8(text.drop_first()));
        assert(pop_first_scalar(all) =~= encode_utf8(longer.drop_first()));
        assert(text.drop_first() =~= longer.drop_first().subrange(
            0,
            text.drop_first().len() as int,
        ));
        if pos == 0 {
            lemma_outer_boundaries(text.drop_first());
            lemma_boundary_stays(text.drop_first(), longer.drop_first(), 0);
        } else {
            lemma_boundary_stays(
                text.drop_first(),
                longer.drop_first(),
                pos - length_of_first_scalar(bytes),
            );
        }
    }
}

/// All bytes of a text make up the text.
pub proof fn lemma_whole_text(text: Seq<char>)
    ensures
        text_before(text, byte_len(text) as int) == text,
{
    let bytes = encode_utf8(text);
    assert(bytes.subrange(0, bytes.len() as int) =~= bytes);
    encode_utf8_decode_utf8(text);
}

/// The text before a boundary and the text after it are together the text.
pub proof fn lemma_split_at_boundary(text: Seq<char>, pos: int)
    requires
        is_boundary(text, pos),
    ensures
        text_before(text, pos) + text_after(text, pos) == text,
{
    encode_utf8_valid_utf8(text);
    encode_utf8_decode_utf8(text);
    decode_utf8_split(encode_utf8(text), pos);
}

/// The value of a text of hexadecimal digits in lower case.
pub open spec fn hex_value(text: Seq<char>) -> nat
    decreases text.len(),
{
    if text.len() == 0 {
        0
    } else {
        let c = text.last();
        let d: int = if '0' <= c <= '9' {
            c as int - '0' as int
        } else {
            c as int - 'a' as int + 10
        };
        hex_value(text.drop_last()) * 16 + d as nat
    }
}

/// Hexadecimal notation denotes the number that was written, without leading zeros.
pub proof fn law_hex_parses(n: nat)
    ensures
        hex_value(hex(n)) == n,
        hex(n).len() > 0,
        n > 0 ==> hex(n)[0] != '0',
    decreases n,
{
    if n >= 16 {
        law_hex_parses(n / 16);
        assert(hex(n).drop_last() =~= hex(n / 16));
    } else {
        assert(hex(n).drop_last() =~= Seq::<char>::empty());
        assert(hex_value(Seq::<char>::empty()) == 0);
    }
    assert(hex(n).last() == hex_digit((n % 16) as int));
}

/// An integer is written with its sign if it is negative, and as its magnitude.
pub proof fn law_dec_int_parses(n: int)
    ensures
        n >= 0 ==> is_digits(dec_int(n)) && digits_value(dec_int(n)) == n,
        n < 0 ==> dec_int(n)[0] == '-' && digits_value(dec_int(n).skip(1)) == -n,
{
    if n < 0 {
        law_dec_parses((-n) as nat);
        assert(dec_int(n).skip(1) =~= dec((-n) as nat));
    } else {
        law_dec_parses(n as nat);
    }
}

/// A text that is no number is not taken for one: an empty one, or one with anything but digits
/// behind the sign.
pub proof fn law_no_number_is_parsed(text: Seq<char>, i: int)
    requires
        0 < i < text.len(),
        !('0' <= text[i] && text[i] <= '9'),
    ensures
        parsed_usize(text) is None,
        parsed_usize(Seq::<char>::empty()) is None,
{
    assert(text.skip(1)[i - 1] == text[i]);
}

} // verus!
