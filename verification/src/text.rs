//! Text: UTF-8 decoding, numbers in decimal, order and division.

use vstd::prelude::*;
use vstd::utf8::*;

verus! {

/// Calls `String::from_utf8`: the result is the text that the bytes encode if
/// they are valid UTF-8, and nothing if they are not.
#[verifier::external_body]
pub(crate) fn text_from_utf8(bytes: Vec<u8>) -> (text: Option<String>)
    ensures
        match text {
            Some(t) => valid_utf8(bytes@) && t@ == decode_utf8(bytes@),
            None => !valid_utf8(bytes@),
        },
{
    String::from_utf8(bytes).ok()
}

/// The texts of a list of strings.
pub open spec fn texts(strings: Seq<String>) -> Seq<Seq<char>> {
    strings.map_values(|s: String| s@)
}

/// Appends a text to a list.
pub fn push_text(strings: &mut Vec<String>, text: String)
    ensures
        texts(final(strings)@) == texts(old(strings)@).push(text@),
{
    strings.push(text);
    assert(texts(strings@) =~= texts(old(strings)@).push(text@));
}

/// The character of a decimal digit.
pub open spec fn digit(d: nat) -> char {
    ('0' as nat + d) as char
}

/// Whether a character is a decimal digit.
pub open spec fn is_digit(c: char) -> bool {
    '0' <= c <= '9'
}

/// The decimal digits of a number, without leading zeros.
pub open spec fn decimal(n: nat) -> Seq<char>
    decreases n,
{
    if n < 10 {
        seq![digit(n)]
    } else {
        decimal(n / 10).push(digit(n % 10))
    }
}

/// A signed number in decimal.
pub open spec fn signed_decimal(n: int) -> Seq<char> {
    if n < 0 {
        seq!['-'] + decimal((-n) as nat)
    } else {
        decimal(n as nat)
    }
}

/// A signed number in decimal, with a zero in front if it would be a single
/// character.
pub open spec fn two_digits(n: int) -> Seq<char> {
    if 0 <= n < 10 {
        seq!['0'] + decimal(n as nat)
    } else {
        signed_decimal(n)
    }
}

/// The number that a row of digits stands for.
pub open spec fn digits_value(s: Seq<char>) -> nat
    decreases s.len(),
{
    if s.len() == 0 {
        0
    } else {
        digits_value(s.drop_last()) * 10 + (s.last() as nat - '0' as nat) as nat
    }
}

/// Whether a text is a row of digits, and not empty.
pub open spec fn is_number(s: Seq<char>) -> bool {
    s.len() > 0 && forall|i: int| 0 <= i < s.len() ==> is_digit(#[trigger] s[i])
}

/// A text without its first character, if that is the given sign.
pub open spec fn after_sign(s: Seq<char>, sign: char) -> Seq<char> {
    if s.len() > 0 && s[0] == sign {
        s.skip(1)
    } else {
        s
    }
}

/// The unsigned number that a text stands for: digits, after `+` or not, whose
/// value is at most `limit`.
pub open spec fn parsed_unsigned(s: Seq<char>, limit: nat) -> Option<nat> {
    let digits = after_sign(s, '+');
    if is_number(digits) && digits_value(digits) <= limit {
        Some(digits_value(digits))
    } else {
        None
    }
}

/// The 32-bit signed number that a text stands for: digits after `+`, `-` or
/// neither.
pub open spec fn parsed_i32(s: Seq<char>) -> Option<int> {
    if s.len() > 0 && s[0] == '-' {
        let digits = s.skip(1);
        if is_number(digits) && digits_value(digits) <= 0x8000_0000 {
            Some(-digits_value(digits))
        } else {
            None
        }
    } else {
        match parsed_unsigned(s, 0x7fff_ffff) {
            Some(n) => Some(n as int),
            None => None,
        }
    }
}

/// Removing digits from the end makes a number no larger.
proof fn lemma_prefix_value(s: Seq<char>, i: int)
    requires
        0 <= i <= s.len(),
    ensures
        digits_value(s.take(i)) <= digits_value(s),
    decreases s.len() - i,
{
    if i < s.len() {
        lemma_prefix_value(s, i + 1);
        assert(s.take(i + 1).drop_last() =~= s.take(i));
    } else {
        assert(s.take(i) =~= s);
    }
}

/// What was written in decimal is read back as a number.
pub proof fn law_decimal_round_trip(n: nat)
    ensures
        is_number(decimal(n)),
        digits_value(decimal(n)) == n,
    decreases n,
{
    reveal_with_fuel(digits_value, 2);
    if n < 10 {
        assert(seq![digit(n)].drop_last() =~= Seq::empty());
    } else {
        law_decimal_round_trip(n / 10);
        let s = decimal(n / 10);
        assert(s.push(digit(n % 10)).drop_last() =~= s);
        assert forall|i: int| 0 <= i < decimal(n).len() implies is_digit(
            #[trigger] decimal(n)[i],
        ) by {
            if i < s.len() {
                assert(decimal(n)[i] == s[i]);
            }
        }
    }
}

/// A 32-bit unsigned number in decimal is read back.
pub proof fn law_u32_text_round_trip(n: u32)
    ensures
        parsed_unsigned(decimal(n as nat), u32::MAX as nat) == Some(n as nat),
{
    law_decimal_round_trip(n as nat);
    assert(is_digit(decimal(n as nat)[0]));
}

/// A 32-bit signed number in decimal is read back.
pub proof fn law_i32_text_round_trip(n: i32)
    ensures
        parsed_i32(signed_decimal(n as int)) == Some(n as int),
{
    if n < 0 {
        law_decimal_round_trip((-n) as nat);
        assert(signed_decimal(n as int).skip(1) =~= decimal((-n) as nat));
    } else {
        law_decimal_round_trip(n as nat);
        assert(is_digit(decimal(n as nat)[0]));
    }
}

/// The text of one digit.
fn digit_text(d: u32) -> (text: &'static str)
    requires
        d < 10,
    ensures
        text@ == seq![digit(d as nat)],
{
    proof {
        reveal_strlit("0");
        reveal_strlit("1");
        reveal_strlit("2");
        reveal_strlit("3");
        reveal_strlit("4");
        reveal_strlit("5");
        reveal_strlit("6");
        reveal_strlit("7");
        reveal_strlit("8");
        reveal_strlit("9");
    }
    let text: &'static str = match d {
        0 => "0",
        1 => "1",
        2 => "2",
        3 => "3",
        4 => "4",
        5 => "5",
        6 => "6",
        7 => "7",
        8 => "8",
        _ => "9",
    };
    assert(text@ =~= seq![digit(d as nat)]);
    text
}

/// Appends a number in decimal.
pub fn push_u32(text: &mut String, n: u32)
    ensures
        final(text)@ == old(text)@ + decimal(n as nat),
    decreases n,
{
    if n >= 10 {
        push_u32(text, n / 10);
    }
    text.append(digit_text(n % 10));
    assert(text@ =~= old(text)@ + decimal(n as nat));
}

/// Appends a signed number in decimal.
pub fn push_i32(text: &mut String, n: i32)
    ensures
        final(text)@ == old(text)@ + signed_decimal(n as int),
{
    if n < 0 {
        proof {
            reveal_strlit("-");
        }
        text.append("-");
        push_u32(text, (-(n as i64)) as u32);
        assert(text@ =~= old(text)@ + signed_decimal(n as int));
    } else {
        push_u32(text, n as u32);
    }
}

/// Appends a signed number in decimal, padded to two digits.
pub fn push_two_digits(text: &mut String, n: i32)
    ensures
        final(text)@ == old(text)@ + two_digits(n as int),
{
    if 0 <= n && n < 10 {
        proof {
            reveal_strlit("0");
        }
        text.append("0");
    }
    push_i32(text, n);
    assert(text@ =~= old(text)@ + two_digits(n as int));
}

/// A number in decimal.
pub fn u32_to_text(n: u32) -> (text: String)
    ensures
        text@ == decimal(n as nat),
{
    let mut text: String = String::new();
    push_u32(&mut text, n);
    assert(text@ =~= decimal(n as nat));
    text
}

/// A signed number in decimal.
pub fn i32_to_text(n: i32) -> (text: String)
    ensures
        text@ == signed_decimal(n as int),
{
    let mut text: String = String::new();
    push_i32(&mut text, n);
    assert(text@ =~= signed_decimal(n as int));
    text
}

/// The value of the digits from `start` on, if there are only digits and the
/// value is at most `limit`.
fn parse_digits(text: &str, start: usize, limit: u32) -> (value: Option<u32>)
    requires
        start <= text@.len(),
    ensures
        ({
            let digits = text@.skip(start as int);
            match value {
                Some(v) => is_number(digits) && digits_value(digits) == v && v <= limit,
                None => !(is_number(digits) && digits_value(digits) <= limit),
            }
        }),
{
    let ghost digits = text@.skip(start as int);
    let n: usize = text.unicode_len();
    if n == start {
        return None;
    }
    let mut value: u64 = 0;
    let mut i: usize = start;
    assert(digits.take(0) =~= Seq::empty());
    while i < n
        invariant
            start <= i <= n,
            n == text@.len(),
            digits == text@.skip(start as int),
            value <= limit,
            value == digits_value(digits.take(i - start)),
            forall|j: int| 0 <= j < i - start ==> is_digit(#[trigger] digits[j]),
        decreases n - i,
    {
        let c: char = text.get_char(i);
        let ghost k = i - start;
        assert(digits[k] == c);
        if c < '0' || c > '9' {
            assert(!is_digit(digits[k]));
            return None;
        }
        value = value * 10 + (c as u64 - '0' as u64);
        assert(digits.take(k + 1).drop_last() =~= digits.take(k));
        if value > limit as u64 {
            proof {
                lemma_prefix_value(digits, k + 1);
            }
            return None;
        }
        i += 1;
    }
    assert(digits.take(n - start) =~= digits);
    Some(value as u32)
}

/// Reads an unsigned number.
pub fn parse_u32(text: &str) -> (value: Option<u32>)
    ensures
        match value {
            Some(v) => parsed_unsigned(text@, u32::MAX as nat) == Some(v as nat),
            None => parsed_unsigned(text@, u32::MAX as nat) is None,
        },
{
    let start: usize = if text.unicode_len() > 0 && text.get_char(0) == '+' {
        1
    } else {
        0
    };
    assert(text@.skip(0) =~= text@);
    parse_digits(text, start, u32::MAX)
}

/// Reads a signed number.
pub fn parse_i32(text: &str) -> (value: Option<i32>)
    ensures
        match value {
            Some(v) => parsed_i32(text@) == Some(v as int),
            None => parsed_i32(text@) is None,
        },
{
    assert(text@.skip(0) =~= text@);
    if text.unicode_len() > 0 && text.get_char(0) == '-' {
        match parse_digits(text, 1, 0x8000_0000) {
            Some(v) => Some((-(v as i64)) as i32),
            None => None,
        }
    } else {
        let start: usize = if text.unicode_len() > 0 && text.get_char(0) == '+' {
            1
        } else {
            0
        };
        match parse_digits(text, start, 0x7fff_ffff) {
            Some(v) => Some(v as i32),
            None => None,
        }
    }
}

/// Whether `a` comes before `b` in the dictionary order of bytes.
pub open spec fn bytes_less(a: Seq<u8>, b: Seq<u8>) -> bool {
    exists|k: int| #[trigger]
        differ_at(a, b, k) && (k == a.len() || (k < a.len() && k < b.len() && a[k] < b[k]))
}

/// Whether `a` and `b` agree up to `k`, and not at `k`: one of them ends there,
/// but not both, or they hold different bytes.
pub open spec fn differ_at(a: Seq<u8>, b: Seq<u8>, k: int) -> bool {
    &&& 0 <= k <= a.len()
    &&& k <= b.len()
    &&& a.take(k) == b.take(k)
    &&& (k < a.len() || k < b.len())
    &&& (k < a.len() && k < b.len() ==> a[k] != b[k])
}

/// Two sequences differ first at one place.
proof fn lemma_differ_once(a: Seq<u8>, b: Seq<u8>, i: int, j: int)
    requires
        differ_at(a, b, i),
        differ_at(a, b, j),
    ensures
        i == j,
{
    if i < j {
        assert(a.take(j)[i] == b.take(j)[i]);
    } else if j < i {
        assert(a.take(i)[j] == b.take(i)[j]);
    }
}

/// The order of bytes is strict and total.
pub proof fn law_bytes_order(a: Seq<u8>, b: Seq<u8>)
    ensures
        !bytes_less(a, a),
        bytes_less(a, b) ==> !bytes_less(b, a),
        a != b ==> bytes_less(a, b) || bytes_less(b, a),
{
    if bytes_less(a, b) && bytes_less(b, a) {
        let i = choose|k: int| #[trigger]
            differ_at(a, b, k) && (k == a.len() || (k < a.len() && k < b.len() && a[k] < b[k]));
        let j = choose|k: int| #[trigger]
            differ_at(b, a, k) && (k == b.len() || (k < b.len() && k < a.len() && b[k] < a[k]));
        assert(differ_at(a, b, j));
        lemma_differ_once(a, b, i, j);
    }
    if a != b {
        assert(a.take(0) =~= b.take(0));
        let k = first_difference(a, b, 0);
        assert(differ_at(a, b, k) && differ_at(b, a, k));
    }
}

/// Where two different sequences differ first.
proof fn first_difference(a: Seq<u8>, b: Seq<u8>, from: int) -> (k: int)
    requires
        a != b,
        0 <= from <= a.len(),
        from <= b.len(),
        a.take(from) == b.take(from),
    ensures
        differ_at(a, b, k),
    decreases a.len() - from,
{
    if from < a.len() && from < b.len() && a[from] == b[from] {
        assert(a.take(from + 1) =~= a.take(from).push(a[from]));
        assert(b.take(from + 1) =~= b.take(from).push(b[from]));
        first_difference(a, b, from + 1)
    } else {
        if from == a.len() && from == b.len() {
            assert(a.take(from) =~= a);
            assert(b.take(from) =~= b);
        }
        from
    }
}

/// The order of bytes is transitive.
pub proof fn law_bytes_order_transitive(a: Seq<u8>, b: Seq<u8>, c: Seq<u8>)
    requires
        bytes_less(a, b),
        bytes_less(b, c),
    ensures
        bytes_less(a, c),
{
    let i = choose|k: int| #[trigger]
        differ_at(a, b, k) && (k == a.len() || (k < a.len() && k < b.len() && a[k] < b[k]));
    let j = choose|k: int| #[trigger]
        differ_at(b, c, k) && (k == b.len() || (k < b.len() && k < c.len() && b[k] < c[k]));
    let m = if i < j {
        i
    } else {
        j
    };
    assert(a.take(m) =~= b.take(m)) by {
        assert(a.take(i).take(m) =~= a.take(m));
        assert(b.take(i).take(m) =~= b.take(m));
    }
    assert(b.take(m) =~= c.take(m)) by {
        assert(b.take(j).take(m) =~= b.take(m));
        assert(c.take(j).take(m) =~= c.take(m));
    }
    if i < j {
        assert(b.take(j)[i] == c.take(j)[i]);
    } else if j < i {
        assert(a.take(i)[j] == b.take(i)[j]);
    }
    assert(differ_at(a, c, m));
}

/// Whether a text comes before another in the dictionary order of their bytes.
pub fn text_less(a: &str, b: &str) -> (less: bool)
    ensures
        less == bytes_less(encode_utf8(a@), encode_utf8(b@)),
{
    let x: &[u8] = a.as_bytes();
    let y: &[u8] = b.as_bytes();
    let mut k: usize = 0;
    while k < x.len() && k < y.len() && x[k] == y[k]
        invariant
            k <= x@.len(),
            k <= y@.len(),
            x@.take(k as int) == y@.take(k as int),
        decreases x@.len() - k,
    {
        assert(x@.take(k + 1) =~= x@.take(k as int).push(x@[k as int]));
        assert(y@.take(k + 1) =~= y@.take(k as int).push(y@[k as int]));
        k += 1;
    }
    let less: bool = k < y.len() && (k == x.len() || x[k] < y[k]);
    proof {
        if k < x@.len() || k < y@.len() {
            assert(differ_at(x@, y@, k as int));
            if bytes_less(x@, y@) {
                let i = choose|i: int| #[trigger]
                    differ_at(x@, y@, i) && (i == x@.len() || (i < x@.len() && i < y@.len() && x@[i]
                        < y@[i]));
                lemma_differ_once(x@, y@, i, k as int);
            }
        } else {
            assert(x@ =~= x@.take(k as int));
            assert(y@ =~= y@.take(k as int));
            law_bytes_order(x@, y@);
        }
    }
    less
}

/// Whether the separator between a name and what was said stands at `i`.
pub open spec fn separator_at(s: Seq<char>, i: int) -> bool {
    0 <= i && i + 1 < s.len() && s[i] == ':' && s[i + 1] == ' '
}

/// A text divided at the first colon that is followed by a space, without
/// these two.
pub open spec fn split_message(s: Seq<char>) -> Option<(Seq<char>, Seq<char>)> {
    if exists|i: int| separator_at(s, i) {
        let i = first_separator(s);
        Some((s.take(i), s.skip(i + 2)))
    } else {
        None
    }
}

/// Whether the first separator stands at `i`.
pub open spec fn is_first_separator(s: Seq<char>, i: int) -> bool {
    separator_at(s, i) && forall|j: int| 0 <= j < i ==> !separator_at(s, j)
}

/// Where the first separator stands.
pub open spec fn first_separator(s: Seq<char>) -> int {
    choose|i: int| is_first_separator(s, i)
}

/// The first separator is the one before which there is none.
pub proof fn lemma_first_separator(s: Seq<char>, i: int)
    requires
        is_first_separator(s, i),
    ensures
        first_separator(s) == i,
        split_message(s) == Some((s.take(i), s.skip(i + 2))),
{
    assert(is_first_separator(s, first_separator(s)));
    assert(separator_at(s, i));
}

/// Divides a text at the first `": "`.
pub fn split_once(text: &str) -> (parts: Option<(&str, &str)>)
    ensures
        match parts {
            Some((before, after)) => split_message(text@) == Some((before@, after@)),
            None => split_message(text@) is None,
        },
{
    let n: usize = text.unicode_len();
    let mut i: usize = 0;
    while i < n
        invariant
            i <= n,
            n == text@.len(),
            forall|j: int| 0 <= j < i ==> !separator_at(text@, j),
        decreases n - i,
    {
        if n - i >= 2 && text.get_char(i) == ':' && text.get_char(i + 1) == ' ' {
            proof {
                lemma_first_separator(text@, i as int);
            }
            let before: &str = text.substring_char(0, i);
            let after: &str = text.substring_char(i + 2, n);
            assert(before@ =~= text@.take(i as int));
            assert(after@ =~= text@.skip(i + 2));
            return Some((before, after));
        }
        i += 1;
    }
    None
}

/// A message is divided at its first colon with a space behind it, and nothing
/// of it is lost; one without such a colon is not divided.
pub proof fn law_split_message(s: Seq<char>)
    ensures
        match split_message(s) {
            Some((name, content)) => {
                &&& s == name + seq![':', ' '] + content
                &&& forall|j: int|
                    0 <= j < name.len() ==> !(#[trigger] s[j] == ':' && s[j + 1] == ' ')
            },
            None => forall|j: int|
                0 <= j && j + 1 < s.len() ==> !(#[trigger] s[j] == ':' && s[j + 1] == ' '),
        },
{
    if exists|i: int| separator_at(s, i) {
        let i = choose|i: int| separator_at(s, i);
        lemma_some_first_separator(s, i);
        let k = first_separator(s);
        assert(is_first_separator(s, k));
        assert(s =~= s.take(k) + seq![':', ' '] + s.skip(k + 2));
        assert forall|j: int| 0 <= j < k implies !(#[trigger] s[j] == ':' && s[j + 1] == ' ') by {
            assert(!separator_at(s, j));
        }
    } else {
        assert forall|j: int| 0 <= j && j + 1 < s.len() implies !(#[trigger] s[j] == ':' && s[j + 1]
            == ' ') by {
            assert(!separator_at(s, j));
        }
    }
}

/// Where there is a separator, there is a first one.
proof fn lemma_some_first_separator(s: Seq<char>, i: int)
    requires
        separator_at(s, i),
    ensures
        exists|k: int| is_first_separator(s, k),
    decreases i,
{
    if exists|j: int| 0 <= j < i && separator_at(s, j) {
        let j = choose|j: int| 0 <= j < i && separator_at(s, j);
        lemma_some_first_separator(s, j);
    } else {
        assert(is_first_separator(s, i));
    }
}

/// The characters of a number are the ten digits, each of which counts ten
/// times as much as the one behind it.
pub proof fn law_value_of_digits(s: Seq<char>, c: char)
    ensures
        digits_value(Seq::empty()) == 0,
        is_number(seq![c]) <==> 48 <= c as int <= 57,
        is_number(seq![c]) ==> digits_value(s.push(c)) == digits_value(s) * 10 + (c as int - 48),
        is_number(s.push(c)) <==> (s.len() == 0 || is_number(s)) && 48 <= c as int <= 57,
        !is_number(Seq::empty()),
{
    assert(s.push(c).drop_last() =~= s);
    assert(seq![c][0] == c);
    if is_number(s.push(c)) {
        assert(is_digit(s.push(c)[s.len() as int]));
        assert forall|i: int| 0 <= i < s.len() implies is_digit(#[trigger] s[i]) by {
            assert(s.push(c)[i] == s[i]);
        }
    }
    if (s.len() == 0 || is_number(s)) && 48 <= c as int <= 57 {
        assert forall|i: int| 0 <= i < s.push(c).len() implies is_digit(#[trigger] s.push(c)[i]) by {
            if i < s.len() {
                assert(s.push(c)[i] == s[i]);
            }
        }
    }
}

/// A number has no zero in front, unless it is zero, and a sign only if it is
/// negative.
pub proof fn law_numbers_are_written_short(n: nat)
    ensures
        n == 0 ==> decimal(n) == seq!['0'],
        n > 0 ==> decimal(n)[0] != '0',
        n > 0 ==> signed_decimal(-(n as int)) == seq!['-'] + decimal(n),
        signed_decimal(n as int) == decimal(n),
    decreases n,
{
    if n >= 10 {
        law_numbers_are_written_short(n / 10);
        law_decimal_round_trip(n / 10);
        assert(decimal(n)[0] == decimal(n / 10)[0]);
    }
}

/// A number from 0 to 9 is padded with a zero in front, and no other is.
pub proof fn law_two_digits(n: int)
    ensures
        0 <= n < 10 ==> two_digits(n).len() == 2 && two_digits(n)[0] == '0' && two_digits(n)[1] as int
            == '0' as int + n,
        n < 0 || n >= 10 ==> two_digits(n) == signed_decimal(n),
{
}

/// Exactly the rows of digits are read as unsigned numbers, with a plus sign in
/// front or not, as long as their value is not above the limit; what is read is
/// their value.
pub proof fn law_reading_unsigned(s: Seq<char>, limit: nat)
    ensures
        is_number(s) ==> (parsed_unsigned(s, limit) is Some <==> digits_value(s) <= limit),
        is_number(s) && digits_value(s) <= limit ==> parsed_unsigned(s, limit) == Some(
            digits_value(s),
        ),
        is_number(s) ==> parsed_unsigned(seq!['+'] + s, limit) == parsed_unsigned(s, limit),
        parsed_unsigned(s, limit) is Some ==> is_number(s) || (s.len() > 0 && s[0] == '+'
            && is_number(s.skip(1))),
{
    if is_number(s) {
        assert(is_digit(s[0]));
        assert((seq!['+'] + s).skip(1) =~= s);
    }
}

/// Exactly the rows of digits are read as signed numbers, with a sign in front
/// or not, as long as their value has 32 bits; a minus sign makes it negative.
pub proof fn law_reading_signed(s: Seq<char>)
    ensures
        is_number(s) ==> parsed_i32(s) == if digits_value(s) <= 0x7fff_ffff {
            Some(digits_value(s) as int)
        } else {
            None
        },
        is_number(s) ==> parsed_i32(seq!['+'] + s) == parsed_i32(s),
        is_number(s) ==> parsed_i32(seq!['-'] + s) == if digits_value(s) <= 0x8000_0000 {
            Some(-(digits_value(s) as int))
        } else {
            None
        },
        parsed_i32(s) is Some ==> is_number(s) || (s.len() > 0 && (s[0] == '+' || s[0] == '-')
            && is_number(s.skip(1))),
{
    if is_number(s) {
        assert(is_digit(s[0]));
        assert((seq!['+'] + s).skip(1) =~= s);
        assert((seq!['-'] + s).skip(1) =~= s);
    }
}

/// The order of bytes is that of a dictionary: what continues a row comes after
/// it, and else the first place where two rows differ decides, by the smaller
/// byte.
pub proof fn law_dictionary_order(
    front: Seq<u8>,
    x: u8,
    y: u8,
    a: Seq<u8>,
    b: Seq<u8>,
)
    ensures
        bytes_less(front, front + seq![x] + a),
        x < y ==> bytes_less(front + seq![x] + a, front + seq![y] + b),
        x > y ==> !bytes_less(front + seq![x] + a, front + seq![y] + b),
{
    let n = front.len() as int;
    let u = front + seq![x] + a;
    let v = front + seq![y] + b;
    assert(front.take(n) =~= front);
    assert(u.take(n) =~= front);
    assert(v.take(n) =~= front);
    assert(differ_at(front, u, n));
    if x < y {
        assert(differ_at(u, v, n));
    }
    if x > y {
        assert(differ_at(v, u, n));
        assert(bytes_less(v, u));
        law_bytes_order(v, u);
    }
}

} // verus!
