//! Text handling shared by the transports: ASCII case folding, trimming,
//! decimal numbers, lossy decoding and shortening of foreign text for errors.

use vstd::prelude::*;
use vstd::string::*;
use vstd::utf8::*;

verus! {

/// Longest piece of foreign text, in characters, that an error quotes whole.
pub const MAX_ERROR_CHARS: usize = 300;

/// The contents of a string that may be absent.
pub open spec fn opt_text(text: Option<String>) -> Option<Seq<char>> {
    match text {
        Some(t) => Some(t@),
        None => None,
    }
}

/// The contents of some strings.
pub open spec fn texts(strings: Seq<String>) -> Seq<Seq<char>> {
    strings.map_values(|s: String| s@)
}

/// The upper case of an ASCII letter; every other character stands for itself.
pub open spec fn ascii_upper(c: char) -> char {
    if 'a' <= c <= 'z' {
        (c as int - 32) as char
    } else {
        c
    }
}

/// `text` with its ASCII letters in upper case.
pub open spec fn upper(text: Seq<char>) -> Seq<char> {
    text.map_values(|c: char| ascii_upper(c))
}

/// The lower case of an ASCII letter; every other character stands for itself.
pub open spec fn ascii_lower(c: char) -> char {
    if 'A' <= c <= 'Z' {
        (c as int + 32) as char
    } else {
        c
    }
}

/// `text` with its ASCII letters in lower case.
pub open spec fn lower(text: Seq<char>) -> Seq<char> {
    text.map_values(|c: char| ascii_lower(c))
}

/// The characters of `text`.
pub fn chars_of(text: &str) -> (chars: Vec<char>)
    ensures
        chars@ == text@,
{
    let mut chars: Vec<char> = Vec::new();
    for c in it: text.chars()
        invariant
            it.seq() == text@,
            chars@ == text@.take(it.index()),
    {
        chars.push(c);
    }
    assert(text@.take(text@.len() as int) == text@);
    chars
}

/// The characters of `text`, ASCII letters in upper case.
pub fn upper_chars(text: &str) -> (chars: Vec<char>)
    ensures
        chars@ == upper(text@),
{
    let all = chars_of(text);
    let mut chars: Vec<char> = Vec::new();
    for i in 0..all.len()
        invariant
            all@ == text@,
            chars@ == upper(text@).take(i as int),
    {
        let c = all[i];
        if 'a' <= c && c <= 'z' {
            chars.push((c as u8 - 32) as char);
        } else {
            chars.push(c);
        }
    }
    chars
}

/// The characters of `text`, ASCII letters in lower case.
pub fn lower_chars(text: &str) -> (chars: Vec<char>)
    ensures
        chars@ == lower(text@),
{
    let all = chars_of(text);
    let mut chars: Vec<char> = Vec::new();
    for i in 0..all.len()
        invariant
            all@ == text@,
            chars@ == lower(text@).take(i as int),
    {
        let c = all[i];
        if 'A' <= c && c <= 'Z' {
            chars.push((c as u8 + 32) as char);
        } else {
            chars.push(c);
        }
    }
    chars
}

/// Whether `chars` begins with `prefix`.
pub fn starts_with(chars: &Vec<char>, prefix: &str) -> (yes: bool)
    ensures
        yes == prefix@.is_prefix_of(chars@),
{
    let wanted = chars_of(prefix);
    if wanted.len() > chars.len() {
        return false;
    }
    for i in 0..wanted.len()
        invariant
            wanted@ == prefix@,
            wanted.len() <= chars.len(),
            forall|j: int| 0 <= j < i ==> #[trigger] wanted@[j] == chars@[j],
    {
        if wanted[i] != chars[i] {
            assert(prefix@[i as int] != chars@.subrange(0, prefix@.len() as int)[i as int]);
            return false;
        }
    }
    assert(prefix@ =~= chars@.subrange(0, prefix@.len() as int));
    true
}

/// Whether `chars` ends with `suffix`.
pub fn ends_with(chars: &Vec<char>, suffix: &str) -> (yes: bool)
    ensures
        yes == suffix@.is_suffix_of(chars@),
{
    let wanted = chars_of(suffix);
    if wanted.len() > chars.len() {
        return false;
    }
    let start: usize = chars.len() - wanted.len();
    for i in 0..wanted.len()
        invariant
            wanted@ == suffix@,
            start + wanted.len() == chars.len(),
            forall|j: int| 0 <= j < i ==> #[trigger] wanted@[j] == chars@[start + j],
    {
        if wanted[i] != chars[start + i] {
            assert(suffix@[i as int] != chars@.subrange(start as int, chars@.len() as int)[i as int]);
            return false;
        }
    }
    assert(suffix@ =~= chars@.subrange(start as int, chars@.len() as int));
    true
}

/// Whether `chars` spells `text`.
pub fn spells(chars: &Vec<char>, text: &str) -> (yes: bool)
    ensures
        yes == (chars@ == text@),
{
    if chars.len() != text.unicode_len() {
        return false;
    }
    let same = starts_with(chars, text);
    assert(chars@.subrange(0, chars@.len() as int) =~= chars@);
    same
}

/// Whether two texts are the same.
pub fn same_text(a: &str, b: &str) -> (yes: bool)
    ensures
        yes == (a@ == b@),
{
    let chars = chars_of(a);
    spells(&chars, b)
}

/// The characters with the Unicode property `White_Space`.
pub open spec fn white_space(c: char) -> bool {
    ||| '\u{9}' <= c <= '\u{d}'
    ||| c == '\u{20}'
    ||| c == '\u{85}'
    ||| c == '\u{a0}'
    ||| c == '\u{1680}'
    ||| '\u{2000}' <= c <= '\u{200a}'
    ||| c == '\u{2028}'
    ||| c == '\u{2029}'
    ||| c == '\u{202f}'
    ||| c == '\u{205f}'
    ||| c == '\u{3000}'
}

/// Whether `c` has the Unicode property `White_Space`.
pub fn is_white_space(c: char) -> (yes: bool)
    ensures
        yes == white_space(c),
{
    ('\u{9}' <= c && c <= '\u{d}') || c == '\u{20}' || c == '\u{85}' || c == '\u{a0}'
        || c == '\u{1680}' || ('\u{2000}' <= c && c <= '\u{200a}') || c == '\u{2028}'
        || c == '\u{2029}' || c == '\u{202f}' || c == '\u{205f}' || c == '\u{3000}'
}

/// `text` without the white space it begins with.
pub open spec fn trimmed_start(text: Seq<char>) -> Seq<char>
    decreases text.len(),
{
    if text.len() > 0 && white_space(text[0]) {
        trimmed_start(text.drop_first())
    } else {
        text
    }
}

/// `text` without the white space it ends with.
pub open spec fn trimmed_end(text: Seq<char>) -> Seq<char>
    decreases text.len(),
{
    if text.len() > 0 && white_space(text.last()) {
        trimmed_end(text.drop_last())
    } else {
        text
    }
}

/// `text` without white space at either end.
pub open spec fn trimmed(text: Seq<char>) -> Seq<char> {
    trimmed_end(trimmed_start(text))
}

/// Removes white space from both ends of `text`.
pub fn trim(text: &str) -> (inner: &str)
    ensures
        inner@ == trimmed(text@),
{
    let chars = chars_of(text);
    let n: usize = chars.len();
    let mut from: usize = 0;
    assert(text@.subrange(0, n as int) == text@);
    while from < n && is_white_space(chars[from])
        invariant
            from <= n == chars.len(),
            chars@ == text@,
            trimmed_start(text@) == trimmed_start(text@.subrange(from as int, n as int)),
        decreases n - from,
    {
        assert(text@.subrange(from as int, n as int).drop_first() == text@.subrange(
            from + 1,
            n as int,
        ));
        from = from + 1;
    }
    let mut to: usize = n;
    while to > from && is_white_space(chars[to - 1])
        invariant
            from <= to <= n == chars.len(),
            chars@ == text@,
            trimmed(text@) == trimmed_end(text@.subrange(from as int, to as int)),
        decreases to,
    {
        assert(text@.subrange(from as int, to as int).drop_last() == text@.subrange(
            from as int,
            to - 1,
        ));
        to = to - 1;
    }
    text.substring_char(from, to)
}

/// The digit that stands for `d`.
pub open spec fn digit(d: nat) -> char {
    (48 + d) as char
}

/// `n` in decimal, without leading zeros.
pub open spec fn decimal(n: nat) -> Seq<char>
    decreases n,
{
    if n < 10 {
        seq![digit(n)]
    } else {
        decimal(n / 10).push(digit(n % 10))
    }
}

/// `n` in decimal, a minus sign before it where it is negative.
pub open spec fn signed_decimal(n: int) -> Seq<char> {
    if n < 0 {
        seq!['-'] + decimal((-n) as nat)
    } else {
        decimal(n as nat)
    }
}

fn digit_text(d: u64) -> (text: &'static str)
    requires
        d < 10,
    ensures
        text@ == seq![digit(d as nat)],
{
    proof {
        reveal_strlit("0");
        reveal_strlit("1");
        reveal_strlit("2");
        reveal_strlit("3");
        reveal_strlit("4");
        reveal_strlit("5");
        reveal_strlit("6");
        reveal_strlit("7");
        reveal_strlit("8");
        reveal_strlit("9");
    }
    match d {
        0 => "0",
        1 => "1",
        2 => "2",
        3 => "3",
        4 => "4",
        5 => "5",
        6 => "6",
        7 => "7",
        8 => "8",
        _ => "9",
    }
}

/// Writes `n` in decimal.
pub fn decimal_text(n: u64) -> (text: String)
    ensures
        text@ == decimal(n as nat),
    decreases n,
{
    if n < 10 {
        digit_text(n).to_string()
    } else {
        let mut text = decimal_text(n / 10);
        text.append(digit_text(n % 10));
        text
    }
}

/// Writes `n` in decimal, a minus sign before it where it is negative.
pub fn signed_decimal_text(n: i64) -> (text: String)
    ensures
        text@ == signed_decimal(n as int),
{
    if n < 0 {
        let magnitude: u64 = (-(n + 1)) as u64 + 1;
        let mut text = "-".to_string();
        proof {
            reveal_strlit("-");
        }
        text.append(decimal_text(magnitude).as_str());
        text
    } else {
        decimal_text(n as u64)
    }
}

/// `text` as an error quotes it: whole, or its first characters and an
/// ellipsis.
pub open spec fn quoted_for_error(text: Seq<char>) -> Seq<char> {
    if text.len() <= MAX_ERROR_CHARS {
        text
    } else {
        text.take(MAX_ERROR_CHARS as int).push('\u{2026}')
    }
}

/// Shortens foreign text for an error message.
pub fn truncate_for_error(text: &str) -> (shown: String)
    ensures
        shown@ == quoted_for_error(text@),
{
    if text.unicode_len() <= MAX_ERROR_CHARS {
        text.to_string()
    } else {
        let mut shown = text.substring_char(0, MAX_ERROR_CHARS).to_string();
        proof {
            reveal_strlit("\u{2026}");
        }
        shown.append("\u{2026}");
        shown
    }
}

/// Whether no byte of `bytes` is ASCII.
pub open spec fn no_ascii(bytes: Seq<u8>) -> bool {
    forall|i: int| 0 <= i < bytes.len() ==> #[trigger] bytes[i] >= 128
}

/// The bytes behind the last ASCII byte of `bytes`; all of them where there is
/// none.
pub open spec fn last_run(bytes: Seq<u8>) -> Seq<u8>
    decreases bytes.len(),
{
    if bytes.len() == 0 || bytes.last() < 128 {
        Seq::empty()
    } else {
        last_run(bytes.drop_last()).push(bytes.last())
    }
}

/// What [`String::from_utf8_lossy`] makes of bytes of which none is ASCII, where
/// they are not valid UTF-8.
pub uninterp spec fn lossy_chars(bytes: Seq<u8>) -> Seq<char>;

/// The text of a run of bytes of which none is ASCII: what they encode, where
/// they are valid UTF-8. It holds no ASCII character.
pub open spec fn run_text(run: Seq<u8>) -> Seq<char> {
    if valid_utf8(run) {
        decode_utf8(run)
    } else {
        lossy_chars(run).map_values(|c: char| if (c as int) < 128 { '\u{fffd}' } else { c })
    }
}

/// The text in `bytes`: every ASCII byte stands for itself, and the runs of other
/// bytes between them for their own text.
pub open spec fn decoded(bytes: Seq<u8>) -> Seq<char>
    decreases bytes.len(),
{
    let run = last_run(bytes);
    if run.len() >= bytes.len() {
        run_text(bytes)
    } else {
        let i = bytes.len() - run.len() - 1;
        decoded(bytes.take(i)).push(bytes[i] as char) + run_text(run)
    }
}

/// Calls [`String::from_utf8_lossy`]. Trusted: it replaces invalid sequences
/// only. An ASCII byte is valid wherever it stands, and comes out as itself; the
/// bytes between two ASCII bytes come out by themselves, decoded where they are
/// valid UTF-8. Where they are not, their text depends on them alone and holds no
/// ASCII character; `lossy_chars` names it, and nothing more is said of it.
#[verifier::external_body]
pub(crate) fn lossy_text(bytes: &[u8]) -> (text: String)
    ensures
        text@ == decoded(bytes@),
        no_ascii(bytes@) && !valid_utf8(bytes@) ==> text@ == lossy_chars(bytes@),
{
    String::from_utf8_lossy(bytes).into_owned()
}

proof fn lemma_last_run(bytes: Seq<u8>)
    ensures
        last_run(bytes).len() <= bytes.len(),
        last_run(bytes) == bytes.skip(bytes.len() - last_run(bytes).len()),
        no_ascii(last_run(bytes)),
        last_run(bytes).len() < bytes.len() ==> bytes[bytes.len() - last_run(bytes).len() - 1]
            < 128,
    decreases bytes.len(),
{
    let run = last_run(bytes);
    if bytes.len() > 0 && bytes.last() >= 128 {
        lemma_last_run(bytes.drop_last());
    }
    assert(run =~= bytes.skip(bytes.len() - run.len()));
}

/// An ASCII byte at the end of some bytes is the last character of their text.
pub proof fn lemma_decoded_push_ascii(bytes: Seq<u8>, byte: u8)
    requires
        byte < 128,
    ensures
        decoded(bytes.push(byte)) == decoded(bytes).push(byte as char),
{
    let all = bytes.push(byte);
    assert(all.take(bytes.len() as int) =~= bytes);
    assert(run_text(last_run(all)) =~= Seq::empty());
    assert(decoded(bytes).push(byte as char) + Seq::empty() =~= decoded(bytes).push(byte as char));
}

/// Behind an ASCII byte of valid UTF-8 a character begins, or the text ends.
pub proof fn lemma_boundary_after_ascii(bytes: Seq<u8>, at: int)
    requires
        valid_utf8(bytes),
        0 < at <= bytes.len(),
        bytes[at - 1] < 128,
    ensures
        is_char_boundary(bytes, at),
    decreases bytes.len(),
{
    let first = length_of_first_scalar(bytes);
    reveal_with_fuel(is_char_boundary, 2);
    if at > first {
        assert(pop_first_scalar(bytes)[at - first - 1] == bytes[at - 1]);
        lemma_boundary_after_ascii(pop_first_scalar(bytes), at - first);
    }
}

/// The text in valid UTF-8 is what it encodes.
pub proof fn lemma_decoded_utf8(bytes: Seq<u8>)
    requires
        valid_utf8(bytes),
    ensures
        decoded(bytes) == decode_utf8(bytes),
    decreases bytes.len(),
{
    let run = last_run(bytes);
    lemma_last_run(bytes);
    if run.len() < bytes.len() {
        let n = bytes.len() as int;
        let i = n - run.len() - 1;
        let byte = bytes[i];
        let head = bytes.subrange(0, i);
        let one = bytes.subrange(0, i + 1);
        is_char_boundary_iff_not_is_continuation_byte(bytes, i);
        valid_utf8_split(bytes, i);
        lemma_boundary_after_ascii(bytes, i + 1);
        valid_utf8_split(bytes, i + 1);
        decode_utf8_split(bytes, i + 1);
        assert(bytes.take(i) =~= head);
        assert(run =~= bytes.subrange(i + 1, n));
        lemma_decoded_utf8(head);
        is_char_boundary_iff_not_is_continuation_byte(one, i);
        decode_utf8_split(one, i);
        assert(one.subrange(0, i) =~= head);
        let last = one.subrange(i, i + 1);
        assert(last =~= seq![byte]);
        valid_utf8_split(one, i);
        reveal_with_fuel(valid_utf8, 2);
        reveal_with_fuel(decode_utf8, 2);
        assert((byte & 0x7F) as u32 == byte as u32) by (bit_vector)
            requires
                byte < 128,
        ;
        assert(pop_first_scalar(last) =~= Seq::empty());
        assert(decode_utf8(last) =~= seq![byte as char]);
        assert(decode_utf8(head) + seq![byte as char] =~= decode_utf8(head).push(byte as char));
    }
}

proof fn lemma_encoding_holds_ascii(text: Seq<char>, i: int)
    requires
        0 <= i < text.len(),
        (text[i] as int) < 128,
    ensures
        !no_ascii(encode_utf8(text)),
    decreases text.len(),
{
    let scalar: u32 = text[0] as u32;
    let first = encode_scalar(scalar);
    let rest = encode_utf8(text.drop_first());
    let whole = encode_utf8(text);
    assert(whole == first + rest);
    if i == 0 {
        char_is_scalar(text[0]);
        char_u32_cast(text[0], scalar);
        assert(((scalar & 0x7F) as u8) < 128u8) by (bit_vector);
        assert(whole[0] == first[0]);
    } else {
        lemma_encoding_holds_ascii(text.drop_first(), i - 1);
        let j = choose|j: int| 0 <= j < rest.len() && rest[j] < 128;
        assert(whole[first.len() + j] == rest[j]);
    }
}

/// The text in some bytes holds no ASCII character that is not among the bytes.
pub proof fn lemma_decoded_holds_no_other_ascii(bytes: Seq<u8>, byte: u8)
    requires
        byte < 128,
        !bytes.contains(byte),
    ensures
        !decoded(bytes).contains(byte as char),
    decreases bytes.len(),
{
    let run = last_run(bytes);
    lemma_last_run(bytes);
    let tail = run_text(run);
    assert forall|i: int| 0 <= i < tail.len() implies tail[i] as int >= 128 by {
        if valid_utf8(run) && (tail[i] as int) < 128 {
            decode_utf8_encode_utf8(run);
            lemma_encoding_holds_ascii(tail, i);
        }
    }
    if run.len() < bytes.len() {
        let i = bytes.len() - run.len() - 1;
        let head = bytes.take(i);
        assert forall|j: int| 0 <= j < head.len() implies head[j] != byte by {
            assert(bytes.contains(bytes[j]));
        }
        lemma_decoded_holds_no_other_ascii(head, byte);
        assert(bytes.contains(bytes[i]));
        let whole = decoded(bytes);
        assert(whole == decoded(head).push(bytes[i] as char) + tail);
        assert forall|j: int| 0 <= j < whole.len() implies whole[j] != byte as char by {
            if j < decoded(head).len() {
                assert(decoded(head).contains(decoded(head)[j]));
                assert(whole[j] == decoded(head)[j]);
            } else if j > decoded(head).len() {
                assert(whole[j] == tail[j - decoded(head).len() - 1]);
            }
        }
    } else {
        assert(bytes =~= run);
    }
}

/// Shortening shortened text changes nothing.
pub proof fn law_truncation_is_idempotent(text: Seq<char>)
    ensures
        quoted_for_error(quoted_for_error(text)) == quoted_for_error(text),
{
    if text.len() > MAX_ERROR_CHARS {
        let shown = quoted_for_error(text);
        assert(shown.take(MAX_ERROR_CHARS as int) == text.take(MAX_ERROR_CHARS as int));
    }
}

/// Shortened text is never more than the limit and an ellipsis, and what is
/// kept is the beginning of the text.
pub proof fn law_truncation_keeps_a_bounded_beginning(text: Seq<char>)
    ensures
        quoted_for_error(text).len() <= MAX_ERROR_CHARS + 1,
        quoted_for_error(text) != text ==> quoted_for_error(text).drop_last().is_prefix_of(text),
{
    if text.len() > MAX_ERROR_CHARS {
        assert(quoted_for_error(text).drop_last() == text.take(MAX_ERROR_CHARS as int));
    }
}

/// Upper case is stable: folding twice is folding once, and folding the lower
/// case gives the same as folding the text.
pub proof fn law_upper_forgets_case(text: Seq<char>)
    ensures
        upper(upper(text)) == upper(text),
        upper(lower(text)) == upper(text),
{
    assert forall|i: int| 0 <= i < text.len() implies upper(upper(text))[i] == upper(text)[i]
        && upper(lower(text))[i] == upper(text)[i] by {
        assert(upper(text)[i] == ascii_upper(text[i]));
        assert(lower(text)[i] == ascii_lower(text[i]));
    }
    assert(upper(upper(text)) =~= upper(text));
    assert(upper(lower(text)) =~= upper(text));
}

/// Whether `a` and `b` are the same text but for the case of ASCII letters.
pub open spec fn alike(a: Seq<char>, b: Seq<char>) -> bool {
    &&& a.len() == b.len()
    &&& forall|i: int|
        0 <= i < a.len() ==> {
            ||| #[trigger] a[i] == b[i]
            ||| 'A' <= a[i] <= 'Z' && b[i] as int == a[i] as int + 32
            ||| 'A' <= b[i] <= 'Z' && a[i] as int == b[i] as int + 32
        }
}

/// Upper case is reached by exactly the texts that are alike: a text without
/// small letters is the upper case of those that are the same but for case.
pub proof fn law_upper_case_is_shared_by_texts_alike(text: Seq<char>, capital: Seq<char>)
    requires
        forall|i: int| 0 <= i < capital.len() ==> !('a' <= #[trigger] capital[i] <= 'z'),
    ensures
        upper(text) == capital <==> alike(text, capital),
{
    if upper(text) == capital {
        assert forall|i: int| 0 <= i < text.len() implies {
            ||| #[trigger] text[i] == capital[i]
            ||| 'A' <= text[i] <= 'Z' && capital[i] as int == text[i] as int + 32
            ||| 'A' <= capital[i] <= 'Z' && text[i] as int == capital[i] as int + 32
        } by {
            assert(upper(text)[i] == ascii_upper(text[i]));
        }
    }
    if alike(text, capital) {
        assert forall|i: int| 0 <= i < text.len() implies upper(text)[i] == capital[i] by {
            assert(text[i] == text[i]);
            assert(!('a' <= capital[i] <= 'z'));
        }
        assert(upper(text) =~= capital);
    }
}

/// Lower case is reached by exactly the texts that are alike: a text without
/// capital letters is the lower case of those that are the same but for case.
pub proof fn law_lower_case_is_shared_by_texts_alike(text: Seq<char>, small: Seq<char>)
    requires
        forall|i: int| 0 <= i < small.len() ==> !('A' <= #[trigger] small[i] <= 'Z'),
    ensures
        lower(text) == small <==> alike(text, small),
{
    if lower(text) == small {
        assert forall|i: int| 0 <= i < text.len() implies {
            ||| #[trigger] text[i] == small[i]
            ||| 'A' <= text[i] <= 'Z' && small[i] as int == text[i] as int + 32
            ||| 'A' <= small[i] <= 'Z' && text[i] as int == small[i] as int + 32
        } by {
            assert(lower(text)[i] == ascii_lower(text[i]));
        }
    }
    if alike(text, small) {
        assert forall|i: int| 0 <= i < text.len() implies lower(text)[i] == small[i] by {
            assert(text[i] == text[i]);
            assert(!('A' <= small[i] <= 'Z'));
        }
        assert(lower(text) =~= small);
    }
}

/// Folding case changes letters only, and each into a text alike that has no
/// letter of the other case left.
pub proof fn law_folded_text_is_alike(text: Seq<char>)
    ensures
        alike(text, upper(text)),
        alike(text, lower(text)),
        forall|i: int| 0 <= i < upper(text).len() ==> !('a' <= #[trigger] upper(text)[i] <= 'z'),
        forall|i: int| 0 <= i < lower(text).len() ==> !('A' <= #[trigger] lower(text)[i] <= 'Z'),
{
    assert forall|i: int| 0 <= i < text.len() implies !('a' <= #[trigger] upper(text)[i] <= 'z') by {
        assert(upper(text)[i] == ascii_upper(text[i]));
    }
    assert forall|i: int| 0 <= i < text.len() implies !('A' <= #[trigger] lower(text)[i] <= 'Z') by {
        assert(lower(text)[i] == ascii_lower(text[i]));
    }
    law_upper_case_is_shared_by_texts_alike(text, upper(text));
    law_lower_case_is_shared_by_texts_alike(text, lower(text));
}

/// The contents of strings are the strings' own characters, none left out.
pub proof fn law_texts_are_the_strings(strings: Seq<String>, text: Option<String>)
    ensures
        texts(strings).len() == strings.len(),
        forall|i: int| 0 <= i < strings.len() ==> #[trigger] texts(strings)[i] == strings[i]@,
        opt_text(text) is Some <==> text is Some,
        text is Some ==> opt_text(text)->0 == text->0@,
{
}

/// Trimming takes white space off both ends and nothing else: what it leaves
/// stands in the text between two stretches of white space, and neither begins
/// nor ends with any.
pub proof fn law_trimming_removes_white_space_only(text: Seq<char>)
    ensures
        exists|i: int, j: int|
            0 <= i <= j <= text.len() && #[trigger] text.subrange(i, j) == trimmed(text)
                && (forall|k: int| 0 <= k < i ==> white_space(#[trigger] text[k])) && (forall|k: int|
                j <= k < text.len() ==> white_space(#[trigger] text[k])),
        trimmed(text).len() > 0 ==> !white_space(trimmed(text)[0]) && !white_space(
            trimmed(text).last(),
        ),
{
    lemma_trimmed_start(text);
    let i = text.len() - trimmed_start(text).len();
    let rest = trimmed_start(text);
    lemma_trimmed_end(rest);
    let j = i + trimmed_end(rest).len();
    assert(text.subrange(i, j) =~= trimmed(text));
    assert forall|k: int| j <= k < text.len() implies white_space(#[trigger] text[k]) by {
        assert(rest[k - i] == text[k]);
    }
}

proof fn lemma_trimmed_start(text: Seq<char>)
    ensures
        trimmed_start(text).len() <= text.len(),
        trimmed_start(text) == text.skip(text.len() - trimmed_start(text).len()),
        forall|k: int|
            0 <= k < text.len() - trimmed_start(text).len() ==> white_space(#[trigger] text[k]),
        trimmed_start(text).len() > 0 ==> !white_space(trimmed_start(text)[0]),
    decreases text.len(),
{
    let left = trimmed_start(text);
    if text.len() > 0 && white_space(text[0]) {
        lemma_trimmed_start(text.drop_first());
        assert forall|k: int| 0 <= k < text.len() - left.len() implies white_space(
            #[trigger] text[k],
        ) by {
            if k > 0 {
                assert(text.drop_first()[k - 1] == text[k]);
            }
        }
    }
    assert(left =~= text.skip(text.len() - left.len()));
}

proof fn lemma_trimmed_end(text: Seq<char>)
    ensures
        trimmed_end(text).len() <= text.len(),
        trimmed_end(text) == text.take(trimmed_end(text).len() as int),
        forall|k: int| trimmed_end(text).len() <= k < text.len() ==> white_space(#[trigger] text[k]),
        trimmed_end(text).len() > 0 ==> !white_space(trimmed_end(text).last()),
    decreases text.len(),
{
    let left = trimmed_end(text);
    if text.len() > 0 && white_space(text.last()) {
        lemma_trimmed_end(text.drop_last());
        assert forall|k: int| left.len() <= k < text.len() implies white_space(
            #[trigger] text[k],
        ) by {
            if k < text.len() - 1 {
                assert(text.drop_last()[k] == text[k]);
            }
        }
    }
    assert(left =~= text.take(left.len() as int));
}

/// The number that some decimal digits stand for.
pub open spec fn value_of(digits: Seq<char>) -> int
    decreases digits.len(),
{
    if digits.len() == 0 {
        0
    } else {
        10 * value_of(digits.drop_last()) + (digits.last() as int - 48)
    }
}

/// A number in decimal is read back as itself: it is written with the digits 0
/// to 9, and with no zero before them; a minus sign marks the negative ones.
pub proof fn law_decimal_is_read_back(n: nat, signed: int)
    ensures
        value_of(decimal(n)) == n,
        decimal(n).len() > 0,
        forall|i: int| 0 <= i < decimal(n).len() ==> 48 <= #[trigger] decimal(n)[i] as int <= 57,
        n > 0 ==> decimal(n)[0] != '0',
        n == 0 ==> decimal(n).len() == 1,
        signed >= 0 ==> value_of(signed_decimal(signed)) == signed,
        signed < 0 ==> signed_decimal(signed).len() > 1 && signed_decimal(signed)[0] == '-'
            && value_of(signed_decimal(signed).skip(1)) == -signed,
{
    lemma_decimal(n);
    if signed >= 0 {
        lemma_decimal(signed as nat);
    } else {
        lemma_decimal((-signed) as nat);
        assert(signed_decimal(signed).skip(1) =~= decimal((-signed) as nat));
    }
}

proof fn lemma_decimal(n: nat)
    ensures
        value_of(decimal(n)) == n,
        decimal(n).len() > 0,
        forall|i: int| 0 <= i < decimal(n).len() ==> 48 <= #[trigger] decimal(n)[i] as int <= 57,
        n > 0 ==> decimal(n)[0] != '0',
    decreases n,
{
    assert(digit((n % 10) as nat) as int == 48 + n % 10);
    if n >= 10 {
        lemma_decimal(n / 10);
        let text = decimal(n);
        assert(text.drop_last() =~= decimal(n / 10));
        assert forall|i: int| 0 <= i < text.len() implies 48 <= #[trigger] text[i] as int <= 57 by {
            if i < text.len() - 1 {
                assert(text[i] == decimal(n / 10)[i]);
            }
        }
        assert(text[0] == decimal(n / 10)[0]);
    } else {
        reveal_with_fuel(value_of, 2);
        assert(decimal(n).drop_last() =~= Seq::empty());
        assert(decimal(n)[0] as int == 48 + n);
    }
}

/// Text of up to 300 characters is quoted whole; of a longer text the first 300
/// are, and an ellipsis.
pub proof fn law_errors_quote_three_hundred_characters(text: Seq<char>)
    ensures
        text.len() <= 300 ==> quoted_for_error(text) == text,
        text.len() > 300 ==> quoted_for_error(text).len() == 301 && quoted_for_error(text).last()
            == '\u{2026}' && (forall|i: int|
            0 <= i < 300 ==> #[trigger] quoted_for_error(text)[i] == text[i]),
{
}

} // verus!
