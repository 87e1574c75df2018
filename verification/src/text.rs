//! Small text functions: decimal numerals, whitespace trimming, joining, lossy decoding.
use vstd::prelude::*;
use vstd::string::*;

verus! {

/// The character of one decimal digit.
pub open spec fn digit_char(d: nat) -> char
    recommends
        d < 10,
{
    ('0' as int + d) as char
}

/// The decimal numeral of `n`, most significant digit first and without leading zeros.
pub open spec fn decimal(n: nat) -> Seq<char>
    decreases n,
{
    if n < 10 {
        seq![digit_char(n)]
    } else {
        decimal(n / 10).push(digit_char(n % 10))
    }
}

/// The decimal numeral of `n`, with a leading minus sign where `n` is negative.
pub open spec fn signed_decimal(n: int) -> Seq<char> {
    if n < 0 {
        seq!['-'] + decimal((-n) as nat)
    } else {
        decimal(n as nat)
    }
}

/// The decimal numeral of `n`, padded with a zero on the left to two digits.
pub open spec fn two_digits(n: nat) -> Seq<char> {
    if n < 10 {
        seq!['0'] + decimal(n)
    } else {
        decimal(n)
    }
}

/// Whether `c` is an ASCII decimal digit.
pub open spec fn is_digit(c: char) -> bool {
    '0' <= c <= '9'
}

/// Whether every character of `s` is an ASCII decimal digit.
pub open spec fn all_digits(s: Seq<char>) -> bool {
    forall|i: int| 0 <= i < s.len() ==> is_digit(#[trigger] s[i])
}

/// The number that a sequence of digits denotes.
pub open spec fn digits_value(s: Seq<char>) -> nat
    decreases s.len(),
{
    if s.len() == 0 {
        0
    } else {
        digits_value(s.drop_last()) * 10 + (s.last() as int - '0' as int) as nat
    }
}

/// The digits of a numeral: what is left once an optional plus sign in front is taken away.
pub open spec fn numeral_digits(s: Seq<char>) -> Seq<char> {
    if s.len() > 0 && s[0] == '+' {
        s.subrange(1, s.len() as int)
    } else {
        s
    }
}

/// What a numeral parses to: an optional plus sign, then one digit or more, of a number that fits
/// in 32 bits. Anything else does not parse.
pub open spec fn parsed_u32(s: Seq<char>) -> Option<u32> {
    let digits = numeral_digits(s);
    if digits.len() > 0 && all_digits(digits) && digits_value(digits) <= u32::MAX {
        Some(digits_value(digits) as u32)
    } else {
        None
    }
}

/// The text of one decimal digit.
fn digit_text(d: u64) -> (text: &'static str)
    requires
        d < 10,
    ensures
        text@ == seq![digit_char(d as nat)],
{
    proof {
        reveal_strlit("0");
        reveal_strlit("1");
        reveal_strlit("2");
        reveal_strlit("3");
        reveal_strlit("4");
        reveal_strlit("5");
        reveal_strlit("6");
        reveal_strlit("7");
        reveal_strlit("8");
        reveal_strlit("9");
    }
    match d {
        0 => "0",
        1 => "1",
        2 => "2",
        3 => "3",
        4 => "4",
        5 => "5",
        6 => "6",
        7 => "7",
        8 => "8",
        _ => "9",
    }
}

/// Writes `n` in decimal.
pub fn decimal_text(n: u64) -> (text: String)
    ensures
        text@ == decimal(n as nat),
    decreases n,
{
    if n < 10 {
        digit_text(n).to_string()
    } else {
        let mut text = decimal_text(n / 10);
        text.append(digit_text(n % 10));
        text
    }
}

/// Writes `n` in decimal, with a minus sign where it is negative.
pub fn signed_text(n: i64) -> (text: String)
    ensures
        text@ == signed_decimal(n as int),
{
    if n >= 0 {
        decimal_text(n as u64)
    } else {
        proof {
            reveal_strlit("-");
        }
        let magnitude: u64 = (-(n as i128)) as u64;
        let mut text = "-".to_string();
        text.append(decimal_text(magnitude).as_str());
        assert(text@ =~= signed_decimal(n as int));
        text
    }
}

/// Writes `n` in decimal, with at least two digits.
pub fn two_digit_text(n: u32) -> (text: String)
    ensures
        text@ == two_digits(n as nat),
{
    if n < 10 {
        proof {
            reveal_strlit("0");
        }
        let mut text = "0".to_string();
        text.append(decimal_text(n as u64).as_str());
        assert(text@ =~= two_digits(n as nat));
        text
    } else {
        decimal_text(n as u64)
    }
}

/// The pieces one after another, with `separator` between each two neighbours.
pub open spec fn joined(pieces: Seq<Seq<char>>, separator: Seq<char>) -> Seq<char>
    decreases pieces.len(),
{
    if pieces.len() == 0 {
        seq![]
    } else if pieces.len() == 1 {
        pieces[0]
    } else {
        joined(pieces.drop_last(), separator) + separator + pieces.last()
    }
}

/// The texts of a list of strings.
pub open spec fn texts(strings: Seq<String>) -> Seq<Seq<char>> {
    Seq::new(strings.len(), |i: int| strings[i]@)
}

/// Joins `strings` with `separator` between each two neighbours.
pub fn join(strings: &Vec<String>, separator: &str) -> (text: String)
    ensures
        text@ == joined(texts(strings@), separator@),
{
    let mut text = String::new();
    let ghost pieces = texts(strings@);
    let mut i: usize = 0;
    while i < strings.len()
        invariant
            i <= strings@.len(),
            pieces == texts(strings@),
            text@ == joined(pieces.take(i as int), separator@),
        decreases strings@.len() - i,
    {
        if i > 0 {
            text.append(separator);
        }
        text.append(strings[i].as_str());
        assert(pieces.take(i + 1).drop_last() =~= pieces.take(i as int));
        assert(pieces.take(i + 1).last() == strings@[i as int]@);
        if i == 0 {
            assert(text@ =~= pieces[0]);
        }
        i += 1;
    }
    assert(pieces.take(i as int) =~= pieces);
    text
}

/// Whether `c` has the Unicode property White_Space.
pub open spec fn is_white_space(c: char) -> bool {
    let code = c as u32;
    ||| 0x09 <= code <= 0x0d
    ||| code == 0x20
    ||| code == 0x85
    ||| code == 0xa0
    ||| code == 0x1680
    ||| 0x2000 <= code <= 0x200a
    ||| code == 0x2028
    ||| code == 0x2029
    ||| code == 0x202f
    ||| code == 0x205f
    ||| code == 0x3000
}

/// `s` without the whitespace in front.
pub open spec fn trimmed_start(s: Seq<char>) -> Seq<char>
    decreases s.len(),
{
    if s.len() > 0 && is_white_space(s[0]) {
        trimmed_start(s.subrange(1, s.len() as int))
    } else {
        s
    }
}

/// `s` without the whitespace behind.
pub open spec fn trimmed_end(s: Seq<char>) -> Seq<char>
    decreases s.len(),
{
    if s.len() > 0 && is_white_space(s.last()) {
        trimmed_end(s.drop_last())
    } else {
        s
    }
}

/// `s` without the whitespace in front and behind.
pub open spec fn trimmed(s: Seq<char>) -> Seq<char> {
    trimmed_end(trimmed_start(s))
}

/// Tells whether `c` is whitespace.
pub fn white_space(c: char) -> (yes: bool)
    ensures
        yes == is_white_space(c),
{
    let code: u32 = c as u32;
    (0x09 <= code && code <= 0x0d) || code == 0x20 || code == 0x85 || code == 0xa0 || code == 0x1680
        || (0x2000 <= code && code <= 0x200a) || code == 0x2028 || code == 0x2029 || code == 0x202f
        || code == 0x205f || code == 0x3000
}

/// The characters of `text` as a vector.
fn char_vec(text: &str) -> (chars: Vec<char>)
    ensures
        chars@ == text@,
{
    let mut chars: Vec<char> = Vec::new();
    for c in iter: text.chars()
        invariant
            chars@ == text@.take(iter.index() as int),
            iter.seq() == text@,
    {
        chars.push(c);
    }
    assert(text@.take(text@.len() as int) =~= text@);
    chars
}

/// Takes the whitespace off both ends of `text`.
pub fn trim(text: &str) -> (rest: &str)
    ensures
        rest@ == trimmed(text@),
{
    let chars = char_vec(text);
    assert(chars@.subrange(0, chars@.len() as int) =~= chars@);
    let mut start: usize = 0;
    while start < chars.len() && white_space(chars[start])
        invariant
            start <= chars@.len(),
            trimmed_start(chars@) == trimmed_start(
                chars@.subrange(start as int, chars@.len() as int),
            ),
        decreases chars@.len() - start,
    {
        let ghost rest = chars@.subrange(start as int, chars@.len() as int);
        assert(rest.subrange(1, rest.len() as int) =~= chars@.subrange(
            start + 1,
            chars@.len() as int,
        ));
        start += 1;
    }
    let ghost front = chars@.subrange(start as int, chars@.len() as int);
    assert(trimmed_start(chars@) == front);
    let mut end: usize = chars.len();
    while end > start && white_space(chars[end - 1])
        invariant
            start <= end <= chars@.len(),
            trimmed_end(front) == trimmed_end(chars@.subrange(start as int, end as int)),
        decreases end,
    {
        assert(chars@.subrange(start as int, end as int).drop_last() =~= chars@.subrange(
            start as int,
            end - 1,
        ));
        end -= 1;
    }
    text.substring_char(start, end)
}

/// Parses `text` as a 32-bit number.
pub fn parse_u32(text: &str) -> (number: Option<u32>)
    ensures
        number == parsed_u32(text@),
{
    let chars = char_vec(text);
    let start: usize = if chars.len() > 0 && chars[0] == '+' { 1 } else { 0 };
    let ghost digits = numeral_digits(text@);
    assert(digits =~= chars@.subrange(start as int, chars@.len() as int));
    if start == chars.len() {
        return None;
    }
    let mut value: u64 = 0;
    let mut i: usize = start;
    while i < chars.len()
        invariant
            start <= i <= chars@.len(),
            chars@ == text@,
            digits == numeral_digits(text@),
            digits == chars@.subrange(start as int, chars@.len() as int),
            all_digits(digits.take(i - start)),
            value == digits_value(digits.take(i - start)),
            value <= u32::MAX,
        decreases chars@.len() - i,
    {
        let c = chars[i];
        let ghost at = i - start;
        assert(digits[at] == c);
        if !('0' <= c && c <= '9') {
            assert(!is_digit(digits[at]));
            return None;
        }
        value = value * 10 + (c as u32 - '0' as u32) as u64;
        assert(digits.take(at + 1).drop_last() =~= digits.take(at));
        assert(digits.take(at + 1).last() == c);
        assert forall|j: int| 0 <= j < digits.take(at + 1).len() implies is_digit(
            #[trigger] digits.take(at + 1)[j],
        ) by {
            if j < at {
                assert(digits.take(at)[j] == digits[j]);
            }
        }
        if value > u32::MAX as u64 {
            proof {
                lemma_prefix_value(digits, at + 1);
            }
            return None;
        }
        i += 1;
    }
    assert(digits.take(digits.len() as int) =~= digits);
    Some(value as u32)
}

/// A prefix of a numeral denotes no more than the whole.
proof fn lemma_prefix_value(s: Seq<char>, n: int)
    requires
        0 <= n <= s.len(),
    ensures
        digits_value(s.take(n)) <= digits_value(s),
    decreases s.len() - n,
{
    if n == s.len() {
        assert(s.take(n) =~= s);
    } else {
        lemma_prefix_value(s, n + 1);
        assert(s.take(n + 1).drop_last() =~= s.take(n));
    }
}

/// The text that UTF-8 bytes decode to, each ill-formed stretch turned into replacement characters.
pub uninterp spec fn utf8_lossy(bytes: Seq<u8>) -> Seq<char>;

/// Decodes `bytes` with `String::from_utf8_lossy`.
///
/// Trusted: the text depends on the bytes alone, and well-formed UTF-8 decodes to exactly the
/// characters that it encodes. Where the replacement characters fall in ill-formed bytes is left
/// to the name `utf8_lossy`.
#[verifier::external_body]
pub(crate) fn decode_lossy(bytes: &[u8]) -> (text: String)
    ensures
        text@ == utf8_lossy(bytes@),
        vstd::utf8::valid_utf8(bytes@) ==> text@ == vstd::utf8::decode_utf8(bytes@),
{
    String::from_utf8_lossy(bytes).into_owned()
}

/// The numeral of `n` is a non-empty run of digits that denotes `n`.
pub proof fn lemma_decimal_digits(n: nat)
    ensures
        decimal(n).len() > 0,
        all_digits(decimal(n)),
        digits_value(decimal(n)) == n,
    decreases n,
{
    if n < 10 {
        let s = decimal(n);
        assert(s.drop_last() =~= Seq::<char>::empty());
        assert(digits_value(s.drop_last()) == 0);
        assert(s.last() as int - '0' as int == n);
    } else {
        lemma_decimal_digits(n / 10);
        let s = decimal(n);
        assert(s.drop_last() =~= decimal(n / 10));
        assert forall|i: int| 0 <= i < s.len() implies is_digit(#[trigger] s[i]) by {
            if i < s.len() - 1 {
                assert(s[i] == decimal(n / 10)[i]);
            }
        }
    }
}

/// Parsing undoes writing: the numeral of a 32-bit number parses to that number.
pub proof fn law_parse_reads_decimal(n: u32)
    ensures
        parsed_u32(decimal(n as nat)) == Some(n),
{
    lemma_decimal_digits(n as nat);
    let s = decimal(n as nat);
    assert(is_digit(s[0]));
    assert(numeral_digits(s) == s);
}

/// Trimming twice is trimming once, and what is left has no whitespace at either end.
pub proof fn law_trim_idempotent(s: Seq<char>)
    ensures
        trimmed(trimmed(s)) == trimmed(s),
        trimmed(s).len() > 0 ==> !is_white_space(trimmed(s)[0]) && !is_white_space(
            trimmed(s).last(),
        ),
{
    lemma_trimmed_start(s);
    lemma_trimmed_end(trimmed_start(s));
    let t = trimmed(s);
    assert(trimmed_start(t) == t);
    assert(trimmed_end(t) == t);
}

/// No whitespace stands in front of what `trimmed_start` leaves.
proof fn lemma_trimmed_start(s: Seq<char>)
    ensures
        trimmed_start(s).len() > 0 ==> !is_white_space(trimmed_start(s)[0]),
    decreases s.len(),
{
    if s.len() > 0 && is_white_space(s[0]) {
        lemma_trimmed_start(s.subrange(1, s.len() as int));
    }
}

/// `trimmed_end` leaves a prefix with no whitespace behind it.
proof fn lemma_trimmed_end(s: Seq<char>)
    ensures
        trimmed_end(s).len() > 0 ==> !is_white_space(trimmed_end(s).last()),
        trimmed_end(s).len() <= s.len(),
        trimmed_end(s) == s.take(trimmed_end(s).len() as int),
    decreases s.len(),
{
    if s.len() > 0 && is_white_space(s.last()) {
        lemma_trimmed_end(s.drop_last());
        let n = trimmed_end(s).len() as int;
        assert(s.drop_last().take(n) =~= s.take(n));
    } else {
        assert(s.take(s.len() as int) =~= s);
    }
}

/// A numeral has no leading zero, and two numbers never share a numeral.
pub proof fn law_numerals_are_unique(m: nat, n: nat)
    ensures
        decimal(n).len() > 1 ==> decimal(n)[0] != '0',
        decimal(n).len() == 1 <==> n < 10,
        decimal(m) == decimal(n) ==> m == n,
    decreases n,
{
    lemma_decimal_digits(m);
    lemma_decimal_digits(n);
    if n >= 10 {
        law_numerals_are_unique(m, n / 10);
        assert(decimal(n)[0] == decimal(n / 10)[0]);
        if n / 10 < 10 {
            assert(decimal(n / 10)[0] == digit_char(n / 10));
            assert(digit_char(n / 10) as int == '0' as int + n / 10);
        }
    }
}

/// Every digit behind a numeral makes ten times as much of it, and adds its own worth.
pub proof fn law_digits_count_in_tens(s: Seq<char>, d: nat)
    requires
        d < 10,
    ensures
        digits_value(s.push(digit_char(d))) == 10 * digits_value(s) + d,
        digits_value(seq![]) == 0,
        digit_char(d) as int == '0' as int + d,
{
    assert(s.push(digit_char(d)).drop_last() =~= s);
}

/// A negative number is the numeral of its magnitude behind a minus sign; no other number has one.
pub proof fn law_sign_stands_in_front(n: int)
    ensures
        n < 0 <==> signed_decimal(n)[0] == '-',
        n >= 0 ==> digits_value(signed_decimal(n)) == n,
        n < 0 ==> digits_value(signed_decimal(n).skip(1)) == -n,
        n < 0 ==> all_digits(signed_decimal(n).skip(1)),
        n >= 0 ==> all_digits(signed_decimal(n)),
{
    if n < 0 {
        lemma_decimal_digits((-n) as nat);
        assert(signed_decimal(n).skip(1) =~= decimal((-n) as nat));
    } else {
        lemma_decimal_digits(n as nat);
        assert(is_digit(decimal(n as nat)[0]));
    }
}

/// Padded to two digits, a number is still the same number; nothing is added to a longer one.
pub proof fn law_padding_keeps_the_number(n: nat)
    ensures
        all_digits(two_digits(n)),
        digits_value(two_digits(n)) == n,
        two_digits(n).len() >= 2,
        n < 100 ==> two_digits(n).len() == 2,
        n >= 10 ==> two_digits(n)[0] != '0',
{
    lemma_decimal_digits(n);
    law_numerals_are_unique(n, n);
    if n < 10 {
        let s = two_digits(n);
        assert(s =~= seq!['0', digit_char(n)]);
        assert(s.drop_last() =~= seq!['0']);
        assert(seq!['0'].drop_last() =~= Seq::<char>::empty());
        reveal_with_fuel(digits_value, 3);
    } else if n < 100 {
        law_numerals_are_unique(n, n / 10);
    }
}

/// Only a numeral parses, with or without a plus sign in front, and it parses to the number that
/// its digits denote.
pub proof fn law_parse_takes_numerals(s: Seq<char>)
    ensures
        all_digits(s) && s.len() > 0 && digits_value(s) <= u32::MAX ==> parsed_u32(s) == Some(
            digits_value(s) as u32,
        ) && parsed_u32(seq!['+'] + s) == parsed_u32(s),
        digits_value(s) > u32::MAX && all_digits(s) ==> parsed_u32(s) is None,
        s.len() == 0 ==> parsed_u32(s) is None,
        forall|i: int|
            0 <= i < s.len() && !('0' <= #[trigger] s[i] <= '9') && !(i == 0 && s[i] == '+')
                ==> parsed_u32(s) is None,
{
    let signed = seq!['+'] + s;
    assert(numeral_digits(signed) =~= s);
    if all_digits(s) && s.len() > 0 {
        assert(is_digit(s[0]));
        assert(numeral_digits(s) == s);
    }
    assert forall|i: int|
        0 <= i < s.len() && !('0' <= #[trigger] s[i] <= '9') && !(i == 0 && s[i]
            == '+') implies parsed_u32(s) is None by {
        let digits = numeral_digits(s);
        if s[0] == '+' {
            assert(digits[i - 1] == s[i]);
            assert(!is_digit(digits[i - 1]));
        } else {
            assert(!is_digit(digits[i]));
        }
    }
}

/// Whether `s` is nothing but whitespace.
pub open spec fn blank(s: Seq<char>) -> bool {
    forall|i: int| 0 <= i < s.len() ==> is_white_space(#[trigger] s[i])
}

/// Of ASCII, blanks and the control characters from tab to carriage return are whitespace, and
/// nothing else. Beyond it, the separators and the wide spaces are.
pub proof fn law_what_is_white_space(c: char)
    ensures
        c <= '\u{7f}' ==> (is_white_space(c) <==> c == ' ' || '\t' <= c <= '\r'),
        '\u{7f}' < c < '\u{2000}' ==> (is_white_space(c) <==> c == '\u{85}' || c == '\u{a0}' || c
            == '\u{1680}'),
        '\u{2000}' <= c <= '\u{200a}' ==> is_white_space(c),
        '\u{200a}' < c ==> (is_white_space(c) <==> c == '\u{2028}' || c == '\u{2029}' || c
            == '\u{202f}' || c == '\u{205f}' || c == '\u{3000}'),
        is_digit(c) ==> !is_white_space(c),
{
}

/// What stands between whitespace comes out of trimming as it is.
pub proof fn law_trim_takes_off_whitespace(front: Seq<char>, s: Seq<char>, behind: Seq<char>)
    requires
        blank(front),
        blank(behind),
        s.len() > 0 ==> !is_white_space(s[0]) && !is_white_space(s.last()),
    ensures
        trimmed(front + s + behind) == s,
{
    lemma_trim_front(front, s + behind);
    assert(front + s + behind =~= front + (s + behind));
    if s.len() > 0 {
        assert((s + behind)[0] == s[0]);
        assert(trimmed_start(s + behind) == s + behind);
        lemma_trim_behind(s, behind);
    } else {
        assert(s + behind =~= behind + s);
        lemma_trim_front(behind, s);
        assert(s =~= Seq::<char>::empty());
    }
}

proof fn lemma_trim_front(front: Seq<char>, s: Seq<char>)
    requires
        blank(front),
    ensures
        trimmed_start(front + s) == trimmed_start(s),
    decreases front.len(),
{
    if front.len() > 0 {
        let rest = front.skip(1);
        assert forall|i: int| 0 <= i < rest.len() implies is_white_space(#[trigger] rest[i]) by {
            assert(rest[i] == front[i + 1]);
        }
        assert((front + s)[0] == front[0]);
        assert((front + s).subrange(1, (front + s).len() as int) =~= rest + s);
        lemma_trim_front(rest, s);
    } else {
        assert(front + s =~= s);
    }
}

proof fn lemma_trim_behind(s: Seq<char>, behind: Seq<char>)
    requires
        blank(behind),
        s.len() > 0,
        !is_white_space(s.last()),
    ensures
        trimmed_end(s + behind) == s,
    decreases behind.len(),
{
    if behind.len() > 0 {
        let rest = behind.drop_last();
        assert forall|i: int| 0 <= i < rest.len() implies is_white_space(#[trigger] rest[i]) by {
            assert(rest[i] == behind[i]);
        }
        assert((s + behind).last() == behind.last());
        assert((s + behind).drop_last() =~= s + rest);
        lemma_trim_behind(s, rest);
    } else {
        assert(s + behind =~= s);
    }
}

/// Nothing but whitespace is taken off: a text is what is left of it, between whitespace.
pub proof fn law_trim_leaves_the_rest(s: Seq<char>)
    ensures
        exists|front: Seq<char>, behind: Seq<char>|
            blank(front) && blank(behind) && s == #[trigger] (front + trimmed(s) + behind),
{
    let (start, front) = lemma_front_of(s);
    let (end, behind) = lemma_back_of(start);
    assert(front + end + behind =~= s);
    assert(end == trimmed(s));
}

/// What trimming leaves at the end, and the whitespace that it takes off in front.
proof fn lemma_front_of(s: Seq<char>) -> (parts: (Seq<char>, Seq<char>))
    ensures
        parts.0 == trimmed_start(s),
        blank(parts.1),
        s == parts.1 + parts.0,
    decreases s.len(),
{
    if s.len() > 0 && is_white_space(s[0]) {
        let rest = s.subrange(1, s.len() as int);
        let (start, front) = lemma_front_of(rest);
        let whole = seq![s[0]] + front;
        assert forall|i: int| 0 <= i < whole.len() implies is_white_space(#[trigger] whole[i]) by {
            if i > 0 {
                assert(whole[i] == front[i - 1]);
            }
        }
        assert(s =~= seq![s[0]] + rest);
        assert(seq![s[0]] + (front + start) =~= whole + start);
        (start, whole)
    } else {
        let none = Seq::<char>::empty();
        assert(s =~= none + s);
        (s, none)
    }
}

/// What trimming leaves in front, and the whitespace that it takes off at the end.
proof fn lemma_back_of(s: Seq<char>) -> (parts: (Seq<char>, Seq<char>))
    ensures
        parts.0 == trimmed_end(s),
        blank(parts.1),
        s == parts.0 + parts.1,
    decreases s.len(),
{
    if s.len() > 0 && is_white_space(s.last()) {
        let (end, behind) = lemma_back_of(s.drop_last());
        let whole = behind.push(s.last());
        assert forall|i: int| 0 <= i < whole.len() implies is_white_space(#[trigger] whole[i]) by {
            if i < behind.len() {
                assert(whole[i] == behind[i]);
            }
        }
        assert(s =~= s.drop_last().push(s.last()));
        assert((end + behind).push(s.last()) =~= end + whole);
        (end, whole)
    } else {
        let none = Seq::<char>::empty();
        assert(s =~= s + none);
        (s, none)
    }
}

/// Joining two lists puts one separator between what each of them joins to. A single piece is
/// joined to itself, and nothing to nothing.
pub proof fn law_join_goes_through_lists(a: Seq<Seq<char>>, b: Seq<Seq<char>>, separator: Seq<char>)
    requires
        a.len() > 0,
        b.len() > 0,
    ensures
        joined(a + b, separator) == joined(a, separator) + separator + joined(b, separator),
        joined(seq![a[0]], separator) == a[0],
        joined(seq![], separator) == Seq::<char>::empty(),
    decreases b.len(),
{
    let whole = a + b;
    assert(whole.last() == b.last());
    assert(whole.drop_last() =~= a + b.drop_last());
    if b.len() == 1 {
        assert(a + b.drop_last() =~= a);
    } else {
        law_join_goes_through_lists(a, b.drop_last(), separator);
        assert(joined(whole, separator) =~= joined(a, separator) + separator + joined(b, separator));
    }
}

/// The texts of a list of strings are those of its strings, in order.
pub proof fn law_texts_are_those_of_the_strings(strings: Seq<String>, i: int)
    requires
        0 <= i < strings.len(),
    ensures
        texts(strings).len() == strings.len(),
        texts(strings)[i] == strings[i]@,
{
}

} // verus!
