//! Text built from numbers and from pieces, and the decoding of raw bytes.

use vstd::prelude::*;
use vstd::string::*;
use vstd::utf8::*;

verus! {

/// `String::push` appends the given character at the end.
pub assume_specification[ String::push ](s: &mut String, c: char)
    ensures
        final(s)@ == old(s)@.push(c),
;

/// The views of the elements of a list of texts.
pub open spec fn texts(list: Seq<String>) -> Seq<Seq<char>> {
    list.map_values(|s: String| s@)
}

/// The view of an optional text.
pub open spec fn optional_text(text: Option<String>) -> Option<Seq<char>> {
    match text {
        Some(s) => Some(s@),
        None => None,
    }
}

/// Two texts, one after the other.
pub fn joined(a: &str, b: &str) -> (r: String)
    ensures
        r@ == a@ + b@,
{
    let mut r = a.to_owned();
    r.append(b);
    r
}

/// Whether a text is the given one.
pub fn is_text(text: &str, expected: &str) -> (r: bool)
    ensures
        r == (text@ == expected@),
{
    text.to_owned() == expected.to_owned()
}

/// An optional text, copied.
pub fn copied(text: &Option<String>) -> (r: Option<String>)
    ensures
        optional_text(r) == optional_text(*text),
        match (r, *text) {
            (Some(a), Some(b)) => a@ == b@,
            (None, None) => true,
            _ => false,
        },
{
    match text {
        Some(s) => Some(s.clone()),
        None => None,
    }
}

/// A list of texts, copied.
pub fn copied_list(list: &Vec<String>) -> (r: Vec<String>)
    ensures
        texts(r@) == texts(list@),
        r@.len() == list@.len(),
        forall|i: int| 0 <= i < list@.len() ==> (#[trigger] r@[i])@ == list@[i]@,
{
    let mut r: Vec<String> = Vec::new();
    let mut i: usize = 0;
    while i < list.len()
        invariant
            i <= list.len(),
            texts(r@) == texts(list@).take(i as int),
        decreases list.len() - i,
    {
        let ghost before = r@;
        r.push(list[i].clone());
        proof {
            assert(texts(r@) =~= texts(before).push(texts(list@)[i as int]));
        }
        i = i + 1;
    }
    assert forall|k: int| 0 <= k < list@.len() implies (#[trigger] r@[k])@ == list@[k]@ by {
        assert(texts(r@)[k] == texts(list@)[k]);
    }
    r
}

/// The character of a decimal digit.
pub open spec fn digit(d: nat) -> char {
    (48 + d) as char
}

/// A number in decimal, without leading zeros.
pub open spec fn decimal(n: nat) -> Seq<char>
    decreases n,
{
    if n < 10 {
        seq![digit(n)]
    } else {
        decimal(n / 10).push(digit(n % 10))
    }
}

/// Writes a number in decimal.
pub fn decimal_text(n: u128) -> (r: String)
    ensures
        r@ == decimal(n as nat),
    decreases n,
{
    let last = (48u8 + (n % 10) as u8) as char;
    if n < 10 {
        let mut r = String::new();
        r.push(last);
        assert(r@ =~= seq![digit(n as nat)]);
        r
    } else {
        let mut r = decimal_text(n / 10);
        r.push(last);
        r
    }
}

/// The character of a hexadecimal digit, in lower case.
pub open spec fn hex_digit(d: nat) -> char {
    if d < 10 {
        (48 + d) as char
    } else {
        (87 + d) as char
    }
}

/// The last `width` hexadecimal digits of a number, padded with zeros.
pub open spec fn hex(n: nat, width: nat) -> Seq<char>
    decreases width,
{
    if width == 0 {
        Seq::empty()
    } else {
        hex(n / 16, (width - 1) as nat).push(hex_digit(n % 16))
    }
}

/// The character of a hexadecimal digit, in lower case.
fn hex_character(d: u8) -> (r: char)
    requires
        d < 16,
    ensures
        r == hex_digit(d as nat),
{
    if d < 10 {
        (48u8 + d) as char
    } else {
        (87u8 + d) as char
    }
}

/// Writes the last `width` hexadecimal digits of a number.
pub fn hex_text(n: u64, width: usize) -> (r: String)
    ensures
        r@ == hex(n as nat, width as nat),
{
    let mut digits: Vec<char> = Vec::new();
    let mut rest: u64 = n;
    let mut left: usize = width;
    assert(hex(n as nat, width as nat) + digits@.reverse() =~= hex(n as nat, width as nat));
    while left > 0
        invariant
            hex(n as nat, width as nat) == hex(rest as nat, left as nat) + digits@.reverse(),
        decreases left,
    {
        let ghost before = digits@;
        digits.push(hex_character((rest % 16) as u8));
        proof {
            let d = hex_digit(rest as nat % 16);
            let head = hex(rest as nat / 16, (left - 1) as nat);
            assert(digits@.reverse() =~= seq![d] + before.reverse());
            assert(hex(rest as nat, left as nat) == head.push(d));
            assert(head.push(d) + before.reverse() =~= head + digits@.reverse());
        }
        rest = rest / 16;
        left = left - 1;
    }
    let mut r = String::new();
    let mut i: usize = digits.len();
    while i > 0
        invariant
            i <= digits@.len(),
            r@ == digits@.reverse().take(digits@.len() - i),
        decreases i,
    {
        i = i - 1;
        r.push(digits[i]);
        assert(r@ =~= digits@.reverse().take(digits@.len() - i));
    }
    assert(r@ =~= hex(n as nat, width as nat));
    r
}

/// `core::str::from_utf8` accepts exactly the valid UTF-8 sequences, and gives
/// the characters that they encode.
#[verifier::external_body]
pub(crate) fn utf8_text(bytes: &[u8]) -> (r: Option<&str>)
    ensures
        r is Some <==> valid_utf8(bytes@),
        r matches Some(s) ==> s@ == decode_utf8(bytes@),
{
    core::str::from_utf8(bytes).ok()
}

/// The characters that `String::from_utf8_lossy` finds in a byte sequence.
pub uninterp spec fn utf8_lossy(bytes: Seq<u8>) -> Seq<char>;

/// `String::from_utf8_lossy` decodes valid UTF-8 to the characters it encodes,
/// and puts U+FFFD in the place of each invalid part. Which bytes make up one
/// invalid part is left unsaid.
#[verifier::external_body]
fn from_utf8_lossy(bytes: &[u8]) -> (r: String)
    ensures
        r@ == utf8_lossy(bytes@),
        valid_utf8(bytes@) ==> r@ == decode_utf8(bytes@),
{
    String::from_utf8_lossy(bytes).into_owned()
}

/// Decodes bytes that should be UTF-8, with a replacement character for what is
/// not.
pub fn lossy_text(bytes: &[u8]) -> (r: String)
    ensures
        r@ == utf8_lossy(bytes@),
        valid_utf8(bytes@) ==> r@ == decode_utf8(bytes@),
{
    from_utf8_lossy(bytes)
}

/// The number that a decimal text stands for.
pub open spec fn decimal_value(text: Seq<char>) -> int
    decreases text.len(),
{
    if text.len() == 0 {
        0
    } else {
        decimal_value(text.drop_last()) * 10 + (text.last() as int - 48)
    }
}

/// A number is read back from its decimal text, so different numbers have
/// different texts.
pub proof fn law_decimal_round_trip(n: nat)
    ensures
        decimal_value(decimal(n)) == n,
    decreases n,
{
    if n < 10 {
        let text = seq![digit(n)];
        assert(text.drop_last() =~= Seq::empty());
        assert(text.last() == digit(n));
        assert(decimal_value(text.drop_last()) == 0);
    } else {
        law_decimal_round_trip(n / 10);
        assert(decimal(n).drop_last() =~= decimal(n / 10));
        assert(decimal(n).last() == digit(n % 10));
    }
}

/// A decimal text holds digits only, and at least one.
pub proof fn law_decimal_is_all_digits(n: nat)
    ensures
        decimal(n).len() > 0,
        forall|i: int| 0 <= i < decimal(n).len() ==> 48 <= (#[trigger] decimal(n)[i]) as int <= 57,
    decreases n,
{
    if n >= 10 {
        law_decimal_is_all_digits(n / 10);
        assert forall|i: int| 0 <= i < decimal(n).len() implies 48 <= (
        #[trigger] decimal(n)[i]) as int <= 57 by {
            if i < decimal(n / 10).len() {
                assert(decimal(n)[i] == decimal(n / 10)[i]);
            }
        }
    }
}

/// The number that a hexadecimal text in lower case stands for.
pub open spec fn hex_value(text: Seq<char>) -> int
    decreases text.len(),
{
    if text.len() == 0 {
        0
    } else {
        let c = text.last() as int;
        hex_value(text.drop_last()) * 16 + (if c < 87 {
            c - 48
        } else {
            c - 87
        })
    }
}

/// How many numbers can be written in `width` hexadecimal digits.
pub open spec fn hex_limit(width: nat) -> nat
    decreases width,
{
    if width == 0 {
        1
    } else {
        16 * hex_limit((width - 1) as nat)
    }
}

/// A number that fits is read back from its hexadecimal text, which has exactly
/// the given width.
pub proof fn law_hex_round_trip(n: nat, width: nat)
    requires
        n < hex_limit(width),
    ensures
        hex(n, width).len() == width,
        hex_value(hex(n, width)) == n,
    decreases width,
{
    if width > 0 {
        law_hex_round_trip(n / 16, (width - 1) as nat);
        assert(hex(n, width).drop_last() =~= hex(n / 16, (width - 1) as nat));
        assert(hex(n, width).last() == hex_digit(n % 16));
    }
}

/// The views of a list are those of its elements, one for each, in their order.
pub proof fn law_texts_are_the_elements(list: Seq<String>)
    ensures
        texts(list).len() == list.len(),
        forall|i: int| 0 <= i < list.len() ==> #[trigger] texts(list)[i] == list[i]@,
{
}

/// An optional text has a view exactly where there is a text, and it is that of
/// the text.
pub proof fn law_optional_text_is_the_text(text: String)
    ensures
        optional_text(Some(text)) == Some(text@),
        optional_text(None) is None,
{
}

/// A decimal text is one digit, or the text of the tenth of the number and then
/// the digit that is left over: the most significant digit comes first, and no
/// digit is added or left out.
pub proof fn law_decimal_digit_by_digit(n: nat)
    ensures
        n < 10 ==> decimal(n) == seq![(48 + n) as char],
        n >= 10 ==> decimal(n) == decimal(n / 10).push((48 + n % 10) as char),
{
}

/// A hexadecimal text of one more digit is that of the sixteenth of the number,
/// and then the digit that is left over, in lower case.
pub proof fn law_hex_digit_by_digit(n: nat, width: nat)
    ensures
        hex(n, 0) == Seq::<char>::empty(),
        n % 16 < 10 ==> hex(n, width + 1) == hex(n / 16, width).push((48 + n % 16) as char),
        n % 16 >= 10 ==> hex(n, width + 1) == hex(n / 16, width).push((87 + n % 16) as char),
{
}

} // verus!
