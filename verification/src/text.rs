//! Text operations over the characters of a string.
use vstd::prelude::*;
use vstd::string::*;

verus! {

/// The characters of `text`, in order.
pub fn chars_of(text: &str) -> (r: Vec<char>)
    ensures
        r@ == text@,
{
    let mut out: Vec<char> = Vec::new();
    for c in it: text.chars()
        invariant
            it.seq() == text@,
            out@ == text@.take(it.index() as int),
    {
        out.push(c);
        assert(text@.take(it.index() as int).push(c) == text@.take(it.index() + 1));
    }
    assert(text@.take(text@.len() as int) == text@);
    out
}

/// Whether two texts hold the same characters.
pub fn same(a: &str, b: &str) -> (r: bool)
    ensures
        r == (a@ == b@),
{
    a.to_owned() == b.to_owned()
}

/// `a` followed by `b`.
pub fn join2(a: &str, b: &str) -> (r: String)
    ensures
        r@ == a@ + b@,
{
    let mut out: String = a.to_owned();
    out.append(b);
    out
}

/// `a`, `b` and `c`, one after the other.
pub fn join3(a: &str, b: &str, c: &str) -> (r: String)
    ensures
        r@ == a@ + b@ + c@,
{
    let mut out: String = a.to_owned();
    out.append(b);
    out.append(c);
    out
}

/// `parts` joined, with `separator` between each two of them.
pub open spec fn joined(parts: Seq<Seq<char>>, separator: Seq<char>) -> Seq<char>
    decreases parts.len(),
{
    if parts.len() == 0 {
        Seq::empty()
    } else if parts.len() == 1 {
        parts[0]
    } else {
        joined(parts.drop_last(), separator) + separator + parts.last()
    }
}

/// Joins `parts`, with `separator` between each two of them.
pub fn join(parts: &Vec<String>, separator: &str) -> (r: String)
    ensures
        r@ == joined(parts.deep_view(), separator@),
{
    let ghost all = parts.deep_view();
    let mut out: String = String::new();
    let mut i: usize = 0;
    while i < parts.len()
        invariant
            i <= parts.len(),
            all == parts.deep_view(),
            out@ == joined(all.take(i as int), separator@),
        decreases parts.len() - i,
    {
        if i > 0 {
            out.append(separator);
        }
        out.append(parts[i].as_str());
        assert(all.take(i + 1).drop_last() == all.take(i as int));
        i = i + 1;
    }
    assert(all.take(i as int) == all);
    out
}

// ---------------------------------------------------------------------------
// Numbers
// ---------------------------------------------------------------------------

/// The decimal digit for `n`, where `n` is below ten.
pub open spec fn digit(n: nat) -> char {
    (48 + n) as char
}

/// The usual decimal notation of `n`: no sign and no leading zero.
pub open spec fn decimal(n: nat) -> Seq<char>
    decreases n,
{
    if n < 10 {
        seq![digit(n)]
    } else {
        decimal(n / 10).push(digit(n % 10))
    }
}

fn digit_text(n: u64) -> (r: &'static str)
    requires
        n < 10,
    ensures
        r@ == seq![digit(n as nat)],
{
    proof {
        reveal_strlit("0");
        reveal_strlit("1");
        reveal_strlit("2");
        reveal_strlit("3");
        reveal_strlit("4");
        reveal_strlit("5");
        reveal_strlit("6");
        reveal_strlit("7");
        reveal_strlit("8");
        reveal_strlit("9");
    }
    if n == 0 {
        "0"
    } else if n == 1 {
        "1"
    } else if n == 2 {
        "2"
    } else if n == 3 {
        "3"
    } else if n == 4 {
        "4"
    } else if n == 5 {
        "5"
    } else if n == 6 {
        "6"
    } else if n == 7 {
        "7"
    } else if n == 8 {
        "8"
    } else {
        "9"
    }
}

/// The decimal notation of `n`.
pub fn decimal_text(n: u64) -> (r: String)
    ensures
        r@ == decimal(n as nat),
    decreases n,
{
    if n < 10 {
        digit_text(n).to_owned()
    } else {
        let mut out: String = decimal_text(n / 10);
        out.append(digit_text(n % 10));
        out
    }
}

/// Whether `c` is one of the ten decimal digits.
pub open spec fn is_digit(c: char) -> bool {
    '0' <= c <= '9'
}

/// The number that a run of decimal digits stands for.
pub open spec fn digits_value(digits: Seq<char>) -> nat
    decreases digits.len(),
{
    if digits.len() == 0 {
        0
    } else {
        digits_value(digits.drop_last()) * 10 + (digits.last() as nat - 48) as nat
    }
}

/// `text` without one leading plus sign.
pub open spec fn unsigned(text: Seq<char>) -> Seq<char> {
    if text.len() > 0 && text[0] == '+' {
        text.skip(1)
    } else {
        text
    }
}

/// Reading `text` as a number of at most `max`: one or more digits, which a
/// plus sign may precede, and nothing else.
pub open spec fn number(text: Seq<char>, max: nat) -> Option<nat> {
    let digits = unsigned(text);
    if digits.len() > 0 && (forall|i: int| 0 <= i < digits.len() ==> is_digit(#[trigger] digits[i]))
        && digits_value(digits) <= max {
        Some(digits_value(digits))
    } else {
        None
    }
}

proof fn lemma_value_grows(digits: Seq<char>, n: int)
    requires
        0 <= n <= digits.len(),
    ensures
        digits_value(digits.take(n)) <= digits_value(digits),
    decreases digits.len(),
{
    if n < digits.len() {
        lemma_value_grows(digits.drop_last(), n);
        assert(digits.drop_last().take(n) == digits.take(n));
    } else {
        assert(digits.take(n) == digits);
    }
}

/// The decimal notation of a number is made of digits, is not empty, and reads
/// back as that number.
pub proof fn law_decimal_reads_back(n: nat, max: nat)
    requires
        n <= max,
    ensures
        number(decimal(n), max) == Some(n),
        forall|i: int| 0 <= i < decimal(n).len() ==> is_digit(#[trigger] decimal(n)[i]),
{
    lemma_decimal_digits(n);
    assert(decimal(n)[0] != '+');
}

proof fn lemma_decimal_digits(n: nat)
    ensures
        decimal(n).len() > 0,
        forall|i: int| 0 <= i < decimal(n).len() ==> is_digit(#[trigger] decimal(n)[i]),
        digits_value(decimal(n)) == n,
    decreases n,
{
    if n >= 10 {
        lemma_decimal_digits(n / 10);
        assert(decimal(n).drop_last() == decimal(n / 10));
    } else {
        assert(decimal(n).drop_last() == Seq::<char>::empty());
        assert(digits_value(decimal(n).drop_last()) == 0);
    }
}

/// Two numbers with the same decimal notation are the same.
pub proof fn law_decimal_is_injective(a: nat, b: nat)
    requires
        decimal(a) == decimal(b),
    ensures
        a == b,
{
    lemma_decimal_digits(a);
    lemma_decimal_digits(b);
}

/// Reads `chars` as a number of at most `max`.
pub fn parse_number(chars: &Vec<char>, max: u64) -> (r: Option<u64>)
    ensures
        r is Some <==> number(chars@, max as nat) is Some,
        r matches Some(n) ==> number(chars@, max as nat) == Some(n as nat),
{
    let start: usize = if chars.len() > 0 && chars[0] == '+' { 1 } else { 0 };
    let ghost digits = unsigned(chars@);
    assert(digits == chars@.skip(start as int));
    if start == chars.len() {
        return None;
    }
    let mut value: u64 = 0;
    let mut i: usize = start;
    while i < chars.len()
        invariant
            start <= i <= chars.len(),
            start <= 1,
            start < chars.len(),
            digits == unsigned(chars@),
            digits == chars@.skip(start as int),
            value == digits_value(digits.take(i - start)),
            value <= max,
            forall|j: int| 0 <= j < i - start ==> is_digit(#[trigger] digits[j]),
        decreases chars.len() - i,
    {
        let c: char = chars[i];
        assert(digits[i - start] == c);
        if !('0' <= c && c <= '9') {
            return None;
        }
        let d: u64 = (c as u32 - 48) as u64;
        assert(digits.take(i - start + 1).drop_last() == digits.take(i - start));
        assert(digits_value(digits.take(i - start + 1)) == value * 10 + d);
        if d > max || value > max / 10 || value * 10 > max - d {
            proof {
                lemma_value_grows(digits, i - start + 1);
            }
            return None;
        }
        value = value * 10 + d;
        i = i + 1;
    }
    assert(digits.take(i - start) == digits);
    Some(value)
}

// ---------------------------------------------------------------------------
// White space
// ---------------------------------------------------------------------------

/// The characters with the Unicode property `White_Space`.
pub open spec fn is_white_space(c: char) -> bool {
    let n = c as u32;
    ||| 0x9 <= n <= 0xd
    ||| n == 0x20
    ||| n == 0x85
    ||| n == 0xa0
    ||| n == 0x1680
    ||| 0x2000 <= n <= 0x200a
    ||| n == 0x2028
    ||| n == 0x2029
    ||| n == 0x202f
    ||| n == 0x205f
    ||| n == 0x3000
}

/// `s` without the white space that it starts with.
pub open spec fn trimmed_start(s: Seq<char>) -> Seq<char>
    decreases s.len(),
{
    if s.len() > 0 && is_white_space(s[0]) {
        trimmed_start(s.drop_first())
    } else {
        s
    }
}

/// `s` without the white space that it ends with.
pub open spec fn trimmed_end(s: Seq<char>) -> Seq<char>
    decreases s.len(),
{
    if s.len() > 0 && is_white_space(s.last()) {
        trimmed_end(s.drop_last())
    } else {
        s
    }
}

/// `s` without the white space at its two ends.
pub open spec fn trimmed(s: Seq<char>) -> Seq<char> {
    trimmed_end(trimmed_start(s))
}

fn white_space(c: char) -> (r: bool)
    ensures
        r == is_white_space(c),
{
    let n: u32 = c as u32;
    let in_runs: bool = (0x9 <= n && n <= 0xd) || (0x2000 <= n && n <= 0x200a);
    in_runs || n == 0x20 || n == 0x85 || n == 0xa0 || n == 0x1680 || n == 0x2028 || n == 0x2029
        || n == 0x202f || n == 0x205f || n == 0x3000
}

/// `text` without the white space at its two ends.
pub fn trim(text: &str) -> (r: String)
    ensures
        r@ == trimmed(text@),
{
    let chars: Vec<char> = chars_of(text);
    let mut from: usize = 0;
    assert(chars@.skip(0) == chars@);
    while from < chars.len() && white_space(chars[from])
        invariant
            from <= chars.len(),
            chars@ == text@,
            trimmed_start(chars@) == trimmed_start(chars@.skip(from as int)),
        decreases chars.len() - from,
    {
        assert(chars@.skip(from as int).drop_first() == chars@.skip(from + 1));
        from = from + 1;
    }
    let ghost rest = chars@.skip(from as int);
    assert(trimmed_start(chars@) == rest);
    let mut to: usize = chars.len();
    assert(rest == chars@.subrange(from as int, to as int));
    while to > from && white_space(chars[to - 1])
        invariant
            from <= to <= chars.len(),
            chars@ == text@,
            trimmed_end(rest) == trimmed_end(chars@.subrange(from as int, to as int)),
        decreases to,
    {
        let ghost s = chars@.subrange(from as int, to as int);
        assert(s.last() == chars@[to - 1]);
        assert(s.drop_last() == chars@.subrange(from as int, to - 1));
        to = to - 1;
    }
    let ghost s = chars@.subrange(from as int, to as int);
    assert(to > from ==> s.last() == chars@[to - 1]);
    text.substring_char(from, to).to_owned()
}

// ---------------------------------------------------------------------------
// Prefixes and letter case
// ---------------------------------------------------------------------------

/// Whether `s` starts with `prefix`.
pub open spec fn has_prefix(s: Seq<char>, prefix: Seq<char>) -> bool {
    s.len() >= prefix.len() && s.take(prefix.len() as int) == prefix
}

/// What follows `prefix` in `text`, or `None` where `text` does not start with
/// it.
pub fn after_prefix(text: &str, prefix: &str) -> (r: Option<String>)
    ensures
        r is Some <==> has_prefix(text@, prefix@),
        r matches Some(rest) ==> rest@ == text@.skip(prefix@.len() as int),
{
    let n: usize = prefix.unicode_len();
    let total: usize = text.unicode_len();
    if total < n {
        return None;
    }
    if same(text.substring_char(0, n), prefix) {
        assert(text@.subrange(0, n as int) == text@.take(n as int));
        assert(text@.subrange(n as int, total as int) == text@.skip(n as int));
        Some(text.substring_char(n, total).to_owned())
    } else {
        assert(text@.subrange(0, n as int) == text@.take(n as int));
        None
    }
}

/// `c` in lower case where it is one of the letters `A` to `Z`.
pub open spec fn lower(c: char) -> char {
    if 'A' <= c <= 'Z' {
        (c as u32 + 32) as char
    } else {
        c
    }
}

/// `s` with the letters `A` to `Z` in lower case.
pub open spec fn lowered(s: Seq<char>) -> Seq<char> {
    s.map_values(|c: char| lower(c))
}

fn lower_char(c: char) -> (r: char)
    ensures
        r == lower(c),
{
    if 'A' <= c && c <= 'Z' {
        ((c as u32 as u8) + 32) as char
    } else {
        c
    }
}

/// Whether `text` is `word`, the letters `A` to `Z` of `text` taken as lower
/// case.
pub fn same_lowered(text: &str, word: &str) -> (r: bool)
    ensures
        r == (lowered(text@) == word@),
{
    let a: Vec<char> = chars_of(text);
    let b: Vec<char> = chars_of(word);
    if a.len() != b.len() {
        return false;
    }
    let mut i: usize = 0;
    while i < a.len()
        invariant
            i <= a.len(),
            a.len() == b.len(),
            a@ == text@,
            b@ == word@,
            forall|j: int| 0 <= j < i ==> lowered(a@)[j] == b@[j],
        decreases a.len() - i,
    {
        if lower_char(a[i]) != b[i] {
            assert(lowered(a@)[i as int] != b@[i as int]);
            return false;
        }
        i = i + 1;
    }
    assert(lowered(a@) == b@);
    true
}

// ---------------------------------------------------------------------------
// Laws
// ---------------------------------------------------------------------------

/// Joining two lists is joining each, with one separator between them where both
/// hold something; one part joined is that part, and nothing joined is empty.
pub proof fn law_joined_lists_are_joined(
    a: Seq<Seq<char>>,
    b: Seq<Seq<char>>,
    part: Seq<char>,
    separator: Seq<char>,
)
    ensures
        joined(Seq::empty(), separator) == Seq::<char>::empty(),
        joined(seq![part], separator) == part,
        a.len() > 0 && b.len() > 0 ==> joined(a + b, separator) == joined(a, separator) + separator
            + joined(b, separator),
    decreases b.len(),
{
    let whole = a + b;
    if a.len() > 0 && b.len() > 0 {
        assert(whole.drop_last() =~= a + b.drop_last());
        assert(whole.last() == b.last());
        if b.len() == 1 {
            assert(a + b.drop_last() =~= a);
            assert(b.last() == b[0]);
        } else {
            law_joined_lists_are_joined(a, b.drop_last(), part, separator);
            let front = joined(a, separator) + separator;
            assert(front + joined(b.drop_last(), separator) + separator + b.last() =~= front + (
            joined(b.drop_last(), separator) + separator + b.last()));
        }
    }
}

/// Decimal notation is by place: a number below ten is its digit, and any other
/// is the notation of its tens followed by that of its ones.
pub proof fn law_decimal_is_by_place(tens: nat, ones: nat)
    requires
        ones < 10,
    ensures
        decimal(ones).len() == 1,
        decimal(ones)[0] as int == '0' as int + ones,
        tens > 0 ==> decimal(tens * 10 + ones) == decimal(tens) + decimal(ones),
{
    if tens > 0 {
        let n = tens * 10 + ones;
        assert(n / 10 == tens && n % 10 == ones);
        assert(decimal(n) =~= decimal(tens) + decimal(ones));
    }
}

/// A text is read as a number by place: a digit is its value, another digit after
/// a number that was read counts ten times the number more, and is not read where
/// that is too large; a plus before digits makes no difference.
pub proof fn law_numbers_are_read_by_place(text: Seq<char>, digit: char, max: nat)
    requires
        '0' <= digit <= '9',
    ensures
        number(seq![digit], max) == (if digit as int - '0' as int <= max {
            Some((digit as int - '0' as int) as nat)
        } else {
            None
        }),
        number(text, max) matches Some(n) ==> number(text.push(digit), max) == (if n * 10 + (
        digit as int - '0' as int) <= max {
            Some((n * 10 + (digit as int - '0' as int)) as nat)
        } else {
            None
        }),
        text.len() > 0 && text[0] != '+' ==> number(seq!['+'] + text, max) == number(text, max),
        number(text, max) matches Some(n) ==> n <= max,
{
    let one = seq![digit];
    assert(unsigned(one) == one);
    assert(one.drop_last() =~= Seq::empty());
    reveal_with_fuel(digits_value, 2);
    if number(text, max) is Some {
        let digits = unsigned(text);
        let more = unsigned(text.push(digit));
        assert(more =~= digits.push(digit));
        assert(more.drop_last() =~= digits);
        assert forall|i: int| 0 <= i < more.len() implies is_digit(#[trigger] more[i]) by {
            if i < digits.len() {
                assert(more[i] == digits[i]);
            }
        }
    }
    if text.len() > 0 && text[0] != '+' {
        let signed = seq!['+'] + text;
        assert(signed[0] == '+');
        assert(signed.skip(1) =~= text);
    }
}

/// A text that is empty, that is a plus alone, or that holds anything but digits
/// after a plus at its front is no number.
pub proof fn law_other_texts_are_no_numbers(text: Seq<char>, i: int, max: nat)
    ensures
        number(Seq::empty(), max) is None,
        number(seq!['+'], max) is None,
        0 <= i < text.len() && !('0' <= text[i] <= '9') && !(i == 0 && text[i] == '+') ==> number(
            text,
            max,
        ) is None,
{
    let plus = seq!['+'];
    assert(plus[0] == '+');
    assert(plus.skip(1).len() == 0);
    if 0 <= i < text.len() && !('0' <= text[i] <= '9') && !(i == 0 && text[i] == '+') {
        let digits = unsigned(text);
        if text[0] == '+' {
            assert(digits[i - 1] == text[i]);
        } else {
            assert(digits[i] == text[i]);
        }
    }
}

/// The white space of Unicode: the characters with that property, and no others.
pub proof fn law_white_space_is_that_of_unicode(c: char)
    ensures
        is_white_space(c) <==> {
            ||| c == '\t' || c == '\n' || c == '\u{b}' || c == '\u{c}' || c == '\r' || c == ' '
            ||| c == '\u{85}' || c == '\u{a0}' || c == '\u{1680}'
            ||| '\u{2000}' <= c <= '\u{200a}'
            ||| c == '\u{2028}' || c == '\u{2029}' || c == '\u{202f}' || c == '\u{205f}'
            ||| c == '\u{3000}'
        },
{
}

/// Trimming takes white space off the two ends of a text, all of it and nothing
/// else.
pub proof fn law_trimming_takes_off_white_space(
    before: Seq<char>,
    text: Seq<char>,
    after: Seq<char>,
)
    requires
        forall|i: int| 0 <= i < before.len() ==> is_white_space(#[trigger] before[i]),
        forall|i: int| 0 <= i < after.len() ==> is_white_space(#[trigger] after[i]),
        text.len() > 0 ==> !is_white_space(text[0]) && !is_white_space(text.last()),
    ensures
        trimmed(before + text + after) == text,
{
    if text.len() > 0 {
        assert(before + text + after =~= before + (text + after));
        assert((text + after)[0] == text[0]);
        lemma_trimmed_start(before, text + after);
        lemma_trimmed_end(text, after);
    } else {
        let whole = before + after;
        assert(before + text + after =~= whole);
        assert forall|i: int| 0 <= i < whole.len() implies is_white_space(#[trigger] whole[i]) by {
            if i < before.len() {
                assert(whole[i] == before[i]);
            } else {
                assert(whole[i] == after[i - before.len()]);
            }
        }
        lemma_blank_is_trimmed(whole);
        assert(text =~= Seq::empty());
    }
}

proof fn lemma_trimmed_start(before: Seq<char>, rest: Seq<char>)
    requires
        forall|i: int| 0 <= i < before.len() ==> is_white_space(#[trigger] before[i]),
        rest.len() > 0,
        !is_white_space(rest[0]),
    ensures
        trimmed_start(before + rest) == rest,
    decreases before.len(),
{
    let whole = before + rest;
    if before.len() > 0 {
        assert(whole[0] == before[0]);
        assert(whole.drop_first() =~= before.drop_first() + rest);
        lemma_trimmed_start(before.drop_first(), rest);
    } else {
        assert(whole =~= rest);
    }
}

proof fn lemma_trimmed_end(text: Seq<char>, after: Seq<char>)
    requires
        forall|i: int| 0 <= i < after.len() ==> is_white_space(#[trigger] after[i]),
        text.len() > 0,
        !is_white_space(text.last()),
    ensures
        trimmed_end(text + after) == text,
    decreases after.len(),
{
    let whole = text + after;
    if after.len() > 0 {
        assert(whole.last() == after.last());
        assert(whole.drop_last() =~= text + after.drop_last());
        lemma_trimmed_end(text, after.drop_last());
    } else {
        assert(whole =~= text);
    }
}

proof fn lemma_blank_is_trimmed(s: Seq<char>)
    requires
        forall|i: int| 0 <= i < s.len() ==> is_white_space(#[trigger] s[i]),
    ensures
        trimmed(s) == Seq::<char>::empty(),
    decreases s.len(),
{
    if s.len() > 0 {
        assert(is_white_space(s[0]));
        assert forall|i: int| 0 <= i < s.drop_first().len() implies is_white_space(
            #[trigger] s.drop_first()[i],
        ) by {
            assert(s.drop_first()[i] == s[i + 1]);
        }
        lemma_blank_is_trimmed(s.drop_first());
    } else {
        assert(s =~= Seq::empty());
    }
}

/// A text has a prefix exactly where it is the prefix and something after it.
pub proof fn law_prefix_is_what_comes_first(prefix: Seq<char>, rest: Seq<char>, text: Seq<char>)
    ensures
        has_prefix(prefix + rest, prefix),
        (prefix + rest).skip(prefix.len() as int) == rest,
        has_prefix(text, prefix) ==> text == prefix + text.skip(prefix.len() as int),
{
    assert((prefix + rest).take(prefix.len() as int) =~= prefix);
    assert((prefix + rest).skip(prefix.len() as int) =~= rest);
    if has_prefix(text, prefix) {
        assert(text =~= prefix + text.skip(prefix.len() as int));
    }
}

/// Lower case is by character: the letters `A` to `Z` become those 32 places
/// further on, and every other character stays as it is.
pub proof fn law_lower_case_is_by_character(s: Seq<char>, i: int)
    requires
        0 <= i < s.len(),
    ensures
        lowered(s).len() == s.len(),
        'A' <= s[i] <= 'Z' ==> lowered(s)[i] as int == s[i] as int + 32,
        !('A' <= s[i] <= 'Z') ==> lowered(s)[i] == s[i],
{
}

/// What the operations on texts come to: a text and itself are the same, texts are
/// joined in their order, a number is written in decimal notation, a text is
/// trimmed at both ends, and what follows a prefix is given exactly where the text
/// begins with it.
pub proof fn law_texts_are_handled_as_they_are(
    a: &str,
    b: &str,
    c: &str,
    n: u64,
    equal: bool,
    two: String,
    three: String,
    written: String,
    clean: String,
    rest: Option<String>,
    like: bool,
)
    requires
        call_ensures(same, (a, b), equal),
        call_ensures(join2, (a, b), two),
        call_ensures(join3, (a, b, c), three),
        call_ensures(decimal_text, (n,), written),
        call_ensures(trim, (a,), clean),
        call_ensures(after_prefix, (a, b), rest),
        call_ensures(same_lowered, (a, b), like),
    ensures
        equal <==> a@ == b@,
        two@ == a@ + b@,
        three@ == a@ + b@ + c@,
        written@ == decimal(n as nat),
        clean@ == trimmed(a@),
        rest is Some ==> a@ == b@ + rest->0@,
        rest is None ==> !has_prefix(a@, b@),
        like <==> lowered(a@) == b@,
{
    if rest is Some {
        law_prefix_is_what_comes_first(b@, Seq::empty(), a@);
    }
}

/// A number that is read is the one that is written, and every number is written
/// so that it is read back.
pub proof fn law_numbers_are_read_as_written(
    n: u64,
    written: String,
    chars: &Vec<char>,
    max: u64,
    read: Option<u64>,
)
    requires
        call_ensures(decimal_text, (n,), written),
        chars@ == written@,
        call_ensures(parse_number, (chars, max), read),
    ensures
        n <= max ==> read == Some(n),
        n > max ==> read is None,
{
    if n <= max {
        law_decimal_reads_back(n as nat, max as nat);
    } else {
        law_decimal_reads_back(n as nat, n as nat);
    }
}

}
