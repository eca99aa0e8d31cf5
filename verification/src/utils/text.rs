//! Text helpers shared by the validator, the query engine and the renderers.

use vstd::prelude::*;
use vstd::string::*;

verus! {

/// Whether `c` has the Unicode property `White_Space`, which is what
/// `char::is_whitespace` reports: the controls from tab to carriage return, the space,
/// the next-line control, the no-break space, the Ogham space mark, the spaces from en
/// quad to hair space, the line and paragraph separators, the narrow no-break space,
/// the medium mathematical space and the ideographic space.
pub open spec fn is_whitespace(c: char) -> bool {
    let code = c as u32;
    ||| 0x0009 <= code <= 0x000D
    ||| code == 0x0020
    ||| code == 0x0085
    ||| code == 0x00A0
    ||| code == 0x1680
    ||| 0x2000 <= code <= 0x200A
    ||| code == 0x2028
    ||| code == 0x2029
    ||| code == 0x202F
    ||| code == 0x205F
    ||| code == 0x3000
}

/// The Unicode lowercase mapping of `text`, as `str::to_lowercase` computes it.
pub uninterp spec fn lowercase(text: Seq<char>) -> Seq<char>;

/// A text is blank when every character of it is whitespace; the empty text is blank.
pub open spec fn blank(text: Seq<char>) -> bool {
    forall|i: int| 0 <= i < text.len() ==> is_whitespace(#[trigger] text[i])
}

/// `needle` occurs in `haystack` as a contiguous run of characters.
pub open spec fn occurs_in(needle: Seq<char>, haystack: Seq<char>) -> bool {
    exists|start: int|
        0 <= start && start + needle.len() <= haystack.len() && #[trigger] haystack.subrange(
            start,
            start + needle.len(),
        ) == needle
}

/// Number of bytes that `text` takes in UTF-8, which is what `str::len` counts.
pub open spec fn byte_length(text: Seq<char>) -> nat {
    vstd::utf8::encode_utf8(text).len()
}

/// The character that writes the decimal digit `d`.
pub open spec fn digit_char(d: int) -> char {
    if d == 0 {
        '0'
    } else if d == 1 {
        '1'
    } else if d == 2 {
        '2'
    } else if d == 3 {
        '3'
    } else if d == 4 {
        '4'
    } else if d == 5 {
        '5'
    } else if d == 6 {
        '6'
    } else if d == 7 {
        '7'
    } else if d == 8 {
        '8'
    } else {
        '9'
    }
}

/// Decimal digits of `n`, most significant first, without leading zeros.
pub open spec fn decimal_digits(n: nat) -> Seq<char>
    decreases n,
{
    if n < 10 {
        seq![digit_char(n as int)]
    } else {
        decimal_digits(n / 10).push(digit_char((n % 10) as int))
    }
}

/// Decimal notation of an integer: a minus sign for negative values, then the digits.
pub open spec fn decimal_text(value: int) -> Seq<char> {
    if value < 0 {
        seq!['-'] + decimal_digits((-value) as nat)
    } else {
        decimal_digits(value as nat)
    }
}

/// Calls `char::is_whitespace`, which reports whether a character has the Unicode
/// property `White_Space`: the characters that [`is_whitespace`] lists.
#[verifier::external_body]
fn char_is_whitespace(c: char) -> (b: bool)
    ensures
        b == is_whitespace(c),
{
    c.is_whitespace()
}

/// Calls `str::to_lowercase`; the result is named [`lowercase`].
#[verifier::external_body]
pub(crate) fn to_lowercase(text: &str) -> (lowered: String)
    ensures
        lowered@ == lowercase(text@),
{
    text.to_lowercase()
}

/// Calls `str::contains` with a string pattern, which reports whether the pattern
/// matches a sub-slice of the text: here, whether `needle` occurs in `haystack`.
#[verifier::external_body]
pub(crate) fn text_contains(haystack: &str, needle: &str) -> (found: bool)
    ensures
        found == occurs_in(needle@, haystack@),
{
    haystack.contains(needle)
}

/// Number of bytes of `text`, as `str::len` counts them.
pub fn byte_len(text: &str) -> (n: usize)
    ensures
        n == byte_length(text@),
{
    text.as_bytes().len()
}

/// A copy of an optional text.
pub fn copy_optional_text(text: &Option<String>) -> (copy: Option<String>)
    ensures
        copy == *text,
{
    match text {
        Some(t) => Some(t.clone()),
        None => None,
    }
}

/// Whether trimming whitespace off `text` would leave nothing.
pub fn is_blank(text: &str) -> (b: bool)
    ensures
        b == blank(text@),
{
    for c in it: text.chars()
        invariant
            it.seq() == text@,
            forall|i: int| 0 <= i < it.index() ==> is_whitespace(#[trigger] text@[i]),
    {
        if !char_is_whitespace(c) {
            return false;
        }
    }
    true
}

/// A one-character pattern occurs in a text exactly when the text holds that character.
pub proof fn lemma_single_char_occurs(c: char, haystack: Seq<char>)
    ensures
        occurs_in(seq![c], haystack) <==> haystack.contains(c),
{
    if occurs_in(seq![c], haystack) {
        let start = choose|start: int|
            0 <= start && start + 1 <= haystack.len() && #[trigger] haystack.subrange(
                start,
                start + 1,
            ) == seq![c];
        assert(haystack.subrange(start, start + 1)[0] == c);
        assert(haystack[start] == c);
    }
    if haystack.contains(c) {
        let at = choose|at: int| 0 <= at < haystack.len() && haystack[at] == c;
        assert(haystack.subrange(at, at + 1) =~= seq![c]);
    }
}

fn digit_text(d: u8) -> (text: &'static str)
    requires
        d < 10,
    ensures
        text@ == seq![digit_char(d as int)],
{
    proof {
        reveal_strlit("0");
        reveal_strlit("1");
        reveal_strlit("2");
        reveal_strlit("3");
        reveal_strlit("4");
        reveal_strlit("5");
        reveal_strlit("6");
        reveal_strlit("7");
        reveal_strlit("8");
        reveal_strlit("9");
    }
    let text = if d == 0 {
        "0"
    } else if d == 1 {
        "1"
    } else if d == 2 {
        "2"
    } else if d == 3 {
        "3"
    } else if d == 4 {
        "4"
    } else if d == 5 {
        "5"
    } else if d == 6 {
        "6"
    } else if d == 7 {
        "7"
    } else if d == 8 {
        "8"
    } else {
        "9"
    };
    assert(text@ =~= seq![digit_char(d as int)]);
    text
}

/// Writes `n` in decimal.
pub fn u64_to_decimal(n: u64) -> (text: String)
    ensures
        text@ == decimal_digits(n as nat),
{
    let mut text = String::from_str(digit_text((n % 10) as u8));
    let mut rest: u64 = n / 10;
    while rest > 0
        invariant
            rest > 0 ==> decimal_digits(n as nat) == decimal_digits(rest as nat) + text@,
            rest == 0 ==> decimal_digits(n as nat) == text@,
        decreases rest,
    {
        let digit = digit_text((rest % 10) as u8);
        let ghost before = text@;
        text = String::from_str(digit).concat(text.as_str());
        proof {
            if rest >= 10 {
                assert(decimal_digits(rest as nat) + before =~= decimal_digits((rest / 10) as nat)
                    + text@);
            } else {
                assert(decimal_digits(rest as nat) + before =~= text@);
            }
        }
        rest = rest / 10;
    }
    text
}

/// Writes `value` in decimal, with a leading minus sign when it is negative.
pub fn i64_to_decimal(value: i64) -> (text: String)
    ensures
        text@ == decimal_text(value as int),
{
    if value < 0 {
        let magnitude: u64 = (-(value + 1)) as u64 + 1;
        let digits = u64_to_decimal(magnitude);
        proof {
            reveal_strlit("-");
            assert("-"@ =~= seq!['-']);
        }
        String::from_str("-").concat(digits.as_str())
    } else {
        u64_to_decimal(value as u64)
    }
}

/// How one text stands to another in the order of `str`.
#[derive(Clone, Copy, Debug, PartialEq, Eq, Structural)]
pub enum TextOrder {
    Before,
    Same,
    After,
}

/// `x` comes strictly before `y` in the lexicographic order of byte strings: at the
/// first place where they differ `x` has the smaller byte, or `x` ends there and `y`
/// goes on.
pub open spec fn bytes_before(x: Seq<u8>, y: Seq<u8>) -> bool
    decreases x.len(),
{
    if y.len() == 0 {
        false
    } else if x.len() == 0 {
        true
    } else if x[0] != y[0] {
        x[0] < y[0]
    } else {
        bytes_before(x.drop_first(), y.drop_first())
    }
}

/// `a` comes strictly before `b` in the order of `str`, which compares the UTF-8 bytes.
pub open spec fn text_before(a: Seq<char>, b: Seq<char>) -> bool {
    bytes_before(vstd::utf8::encode_utf8(a), vstd::utf8::encode_utf8(b))
}

/// Of two byte strings exactly one thing holds: the first comes before the second,
/// they are equal, or the second comes before the first.
pub proof fn lemma_bytes_trichotomy(x: Seq<u8>, y: Seq<u8>)
    ensures
        bytes_before(x, y) || x == y || bytes_before(y, x),
        !(bytes_before(x, y) && x == y),
        !(bytes_before(y, x) && x == y),
        !(bytes_before(x, y) && bytes_before(y, x)),
    decreases x.len(),
{
    if x.len() == 0 || y.len() == 0 {
        if x.len() == 0 && y.len() == 0 {
            assert(x =~= y);
        }
    } else if x[0] == y[0] {
        lemma_bytes_trichotomy(x.drop_first(), y.drop_first());
        if x.drop_first() == y.drop_first() {
            assert(x =~= seq![x[0]] + x.drop_first());
            assert(y =~= seq![y[0]] + y.drop_first());
        }
        if x == y {
            assert(x.drop_first() == y.drop_first());
        }
    }
}

/// The order of byte strings is transitive.
pub proof fn lemma_bytes_transitive(x: Seq<u8>, y: Seq<u8>, z: Seq<u8>)
    requires
        bytes_before(x, y),
        bytes_before(y, z),
    ensures
        bytes_before(x, z),
    decreases x.len(),
{
    if x.len() > 0 && x[0] == y[0] && y[0] == z[0] {
        lemma_bytes_transitive(x.drop_first(), y.drop_first(), z.drop_first());
    }
}

/// Common leading bytes play no part in the order.
proof fn lemma_bytes_skip_common(x: Seq<u8>, y: Seq<u8>, shared: int)
    requires
        0 <= shared <= x.len(),
        shared <= y.len(),
        x.take(shared) == y.take(shared),
    ensures
        bytes_before(x, y) == bytes_before(x.skip(shared), y.skip(shared)),
    decreases shared,
{
    if shared == 0 {
        assert(x.skip(0) =~= x);
        assert(y.skip(0) =~= y);
    } else {
        assert(x[0] == x.take(shared)[0]);
        assert(y[0] == y.take(shared)[0]);
        assert(x.drop_first().take(shared - 1) =~= x.take(shared).drop_first());
        assert(y.drop_first().take(shared - 1) =~= y.take(shared).drop_first());
        lemma_bytes_skip_common(x.drop_first(), y.drop_first(), shared - 1);
        assert(x.drop_first().skip(shared - 1) =~= x.skip(shared));
        assert(y.drop_first().skip(shared - 1) =~= y.skip(shared));
    }
}

/// The order of texts is a strict total order: of two texts exactly one comes first
/// unless they are equal, and the order is transitive.
pub proof fn lemma_text_order(a: Seq<char>, b: Seq<char>, c: Seq<char>)
    ensures
        text_before(a, b) || a == b || text_before(b, a),
        !(text_before(a, b) && a == b),
        !(text_before(a, b) && text_before(b, a)),
        text_before(a, b) && text_before(b, c) ==> text_before(a, c),
{
    broadcast use vstd::utf8::encode_utf8_decode_utf8;

    let x = vstd::utf8::encode_utf8(a);
    let y = vstd::utf8::encode_utf8(b);
    lemma_bytes_trichotomy(x, y);
    if x == y {
        assert(vstd::utf8::decode_utf8(x) == a);
        assert(vstd::utf8::decode_utf8(y) == b);
    }
    if text_before(a, b) && text_before(b, c) {
        lemma_bytes_transitive(x, y, vstd::utf8::encode_utf8(c));
    }
}

/// Compares two texts as `str` orders them.
pub fn text_order(a: &str, b: &str) -> (order: TextOrder)
    ensures
        order == TextOrder::Before <==> text_before(a@, b@),
        order == TextOrder::Same <==> a@ == b@,
        order == TextOrder::After <==> text_before(b@, a@),
{
    let x = a.as_bytes();
    let y = b.as_bytes();
    proof {
        lemma_text_order(a@, b@, a@);
    }
    let mut at: usize = 0;
    while at < x.len() && at < y.len()
        invariant
            at <= x.len(),
            at <= y.len(),
            x@ == vstd::utf8::encode_utf8(a@),
            y@ == vstd::utf8::encode_utf8(b@),
            x@.take(at as int) == y@.take(at as int),
        decreases x.len() - at,
    {
        if x[at] != y[at] {
            proof {
                lemma_bytes_skip_common(x@, y@, at as int);
                lemma_bytes_skip_common(y@, x@, at as int);
            }
            if x[at] < y[at] {
                return TextOrder::Before;
            } else {
                return TextOrder::After;
            }
        }
        proof {
            assert(x@.take(at + 1) =~= x@.take(at as int).push(x@[at as int]));
            assert(y@.take(at + 1) =~= y@.take(at as int).push(y@[at as int]));
        }
        at += 1;
    }
    proof {
        lemma_bytes_skip_common(x@, y@, at as int);
        lemma_bytes_skip_common(y@, x@, at as int);
    }
    if at < y.len() {
        TextOrder::Before
    } else if at < x.len() {
        TextOrder::After
    } else {
        proof {
            assert(x@.take(at as int) =~= x@);
            assert(y@.take(at as int) =~= y@);
        }
        TextOrder::Same
    }
}

/// Whether `c` is one of the decimal digits `0` to `9`.
pub open spec fn is_digit(c: char) -> bool {
    '0' <= c <= '9'
}

/// Whether a text consists of decimal digits only.
pub open spec fn all_digits(text: Seq<char>) -> bool {
    forall|i: int| 0 <= i < text.len() ==> is_digit(#[trigger] text[i])
}

/// The number that a run of decimal digits writes.
pub open spec fn digits_value(text: Seq<char>) -> nat
    decreases text.len(),
{
    if text.len() == 0 {
        0
    } else {
        (digits_value(text.drop_last()) * 10 + (text.last() as u32 - '0' as u32)) as nat
    }
}

/// The digits of a number text: the text itself, or what follows a leading plus sign
/// that does not stand alone.
pub open spec fn unsigned_digits(text: Seq<char>) -> Seq<char> {
    if text.len() > 1 && text[0] == '+' {
        text.drop_first()
    } else {
        text
    }
}

/// The number up to `max` that `text` writes in decimal, as the integer types of the
/// standard library parse it: at least one digit, leading zeros allowed, one plus
/// sign allowed in front, nothing else.
pub open spec fn parsed_unsigned(text: Seq<char>, max: nat) -> Option<nat> {
    let digits = unsigned_digits(text);
    if digits.len() > 0 && all_digits(digits) && digits_value(digits) <= max {
        Some(digits_value(digits))
    } else {
        None
    }
}

/// More digits never write a smaller number.
proof fn lemma_digits_value_grows(text: Seq<char>, shorter: int)
    requires
        0 <= shorter <= text.len(),
        all_digits(text),
    ensures
        digits_value(text.take(shorter)) <= digits_value(text),
    decreases text.len() - shorter,
{
    if shorter == text.len() {
        assert(text.take(shorter) =~= text);
    } else {
        let longer = text.take(shorter + 1);
        assert(longer.drop_last() =~= text.take(shorter));
        assert(is_digit(text[shorter]));
        assert(longer.last() == text[shorter]);
        let digit = longer.last() as u32 - '0' as u32;
        assert(digits_value(text.take(shorter)) <= digits_value(longer)) by (nonlinear_arith)
            requires
                digits_value(longer) == digits_value(text.take(shorter)) * 10 + digit,
                digit >= 0,
        ;
        lemma_digits_value_grows(text, shorter + 1);
    }
}

/// Reads a decimal number that is at most `max`.
pub fn parse_unsigned(text: &str, max: u64) -> (parsed: Option<u64>)
    ensures
        parsed matches Some(value) ==> parsed_unsigned(text@, max as nat) == Some(value as nat),
        parsed is None ==> parsed_unsigned(text@, max as nat) is None,
{
    let ghost digits = unsigned_digits(text@);
    let length = text.unicode_len();
    let mut value: u64 = 0;
    let mut seen: usize = 0;
    let mut first = true;
    for c in it: text.chars()
        invariant
            it.seq() == text@,
            length == text@.len(),
            digits == unsigned_digits(text@),
            first == (it.index() == 0),
            it.index() == 0 ==> value == 0,
            value <= max,
            seen <= it.index(),
            it.index() > 0 ==> seen == it.index() - (text@.len() - digits.len()),
            it.index() > 0 ==> all_digits(digits.take(seen as int)),
            it.index() > 0 ==> value == digits_value(digits.take(seen as int)),
    {
        let skip = first && c == '+' && length > 1;
        first = false;
        if skip {
            proof {
                assert(digits.take(0) =~= Seq::<char>::empty());
            }
        } else {
            proof {
                if it.index() == 0 {
                    assert(digits =~= text@);
                    assert(digits.take(0) =~= Seq::<char>::empty());
                }
                assert(digits[seen as int] == c);
                assert(digits.take(seen + 1).drop_last() =~= digits.take(seen as int));
                assert(digits.take(seen + 1).last() == c);
            }
            if c < '0' || c > '9' {
                assert(!is_digit(digits[seen as int]));
                return None;
            }
            let digit: u64 = (c as u32 - '0' as u32) as u64;
            let next: u128 = value as u128 * 10 + digit as u128;
            proof {
                assert forall|i: int| 0 <= i < seen + 1 implies is_digit(
                    #[trigger] digits.take(seen + 1)[i],
                ) by {
                    if i < seen {
                        assert(digits.take(seen as int)[i] == digits.take(seen + 1)[i]);
                    }
                }
                assert(digits_value(digits.take(seen + 1)) == digits_value(
                    digits.take(seen + 1).drop_last(),
                ) * 10 + (c as u32 - '0' as u32));
                assert(next == digits_value(digits.take(seen + 1)));
            }
            if next > max as u128 {
                proof {
                    if all_digits(digits) {
                        lemma_digits_value_grows(digits, seen + 1);
                    }
                }
                return None;
            }
            value = next as u64;
            seen += 1;
        }
    }
    if seen == 0 {
        proof {
            if text@.len() > 0 {
                assert(digits.len() == seen);
            }
        }
        return None;
    }
    proof {
        assert(digits.take(seen as int) =~= digits);
    }
    Some(value)
}

} // verus!
