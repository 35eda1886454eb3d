//! Text over sequences of characters: searching, trimming, and decimal
//! numbers, each with the exact sequence it yields.

use vstd::prelude::*;

verus! {

/// `String::push`: the given character is put behind the text.
pub assume_specification[ String::push ](text: &mut String, c: char)
    ensures
        final(text)@ == old(text)@.push(c),
;

/// The characters of `text`, in order.
pub fn chars_of(text: &str) -> (chars: Vec<char>)
    ensures
        chars@ == text@,
{
    let mut chars: Vec<char> = Vec::new();
    for c in iter: text.chars()
        invariant
            iter.seq() == text@,
            chars@ == text@.take(iter.index()),
    {
        chars.push(c);
    }
    chars
}

/// The text made of `chars[from..to]`.
pub fn text_of(chars: &[char], from: usize, to: usize) -> (text: String)
    requires
        from <= to <= chars@.len(),
    ensures
        text@ == chars@.subrange(from as int, to as int),
{
    let mut text = String::new();
    let mut i: usize = from;
    while i < to
        invariant
            from <= i <= to <= chars@.len(),
            text@ == chars@.subrange(from as int, i as int),
        decreases to - i,
    {
        text.push(chars[i]);
        i += 1;
    }
    text
}

/// The character of one decimal digit.
pub open spec fn digit_char(digit: nat) -> char {
    (48 + digit) as char
}

/// The decimal notation of a number, without leading zeros.
pub open spec fn decimal(n: nat) -> Seq<char>
    decreases n,
{
    if n < 10 {
        seq![digit_char(n)]
    } else {
        decimal(n / 10).push(digit_char(n % 10))
    }
}

/// Puts the decimal notation of `n` behind `text`.
pub fn push_decimal(text: &mut String, n: u64)
    ensures
        final(text)@ == old(text)@ + decimal(n as nat),
    decreases n,
{
    if n >= 10 {
        push_decimal(text, n / 10);
    }
    let digit: u8 = (n % 10) as u8;
    text.push((48 + digit) as char);
}

pub open spec fn is_digit(c: char) -> bool {
    '0' <= c <= '9'
}

pub open spec fn all_digits(s: Seq<char>) -> bool {
    forall|i: int| 0 <= i < s.len() ==> is_digit(#[trigger] s[i])
}

/// The number that a sequence of digits denotes.
pub open spec fn digits_value(s: Seq<char>) -> nat
    decreases s.len(),
{
    if s.len() == 0 {
        0
    } else {
        (digits_value(s.drop_last()) * 10 + (s.last() as int - 48)) as nat
    }
}

/// Why a text is no unsigned 64-bit number.
#[derive(Debug, Clone, Copy, PartialEq, Eq, Structural)]
pub enum ParseNumberError {
    Empty,
    InvalidDigit,
    PosOverflow,
}

/// The digits of a number text: all of it, but for one leading `+` that
/// something follows.
pub open spec fn number_digits(s: Seq<char>) -> Seq<char> {
    if s.len() > 1 && s[0] == '+' {
        s.skip(1)
    } else {
        s
    }
}

/// Position `k` holds the first character that is no digit, and what stands
/// before it is still in range.
pub open spec fn breaks_at(s: Seq<char>, k: int) -> bool {
    &&& 0 <= k < s.len()
    &&& !is_digit(s[k])
    &&& all_digits(s.take(k))
    &&& digits_value(s.take(k)) <= u64::MAX
}

/// What a text reads as when it is taken for an unsigned 64-bit number: the
/// rules of `u64::from_str`.
pub open spec fn parsed_number(s: Seq<char>) -> Result<u64, ParseNumberError> {
    let digits = number_digits(s);
    if s.len() == 0 {
        Err(ParseNumberError::Empty)
    } else if all_digits(digits) && digits_value(digits) <= u64::MAX {
        Ok(digits_value(digits) as u64)
    } else if exists|k: int| breaks_at(digits, k) {
        Err(ParseNumberError::InvalidDigit)
    } else {
        Err(ParseNumberError::PosOverflow)
    }
}

impl ParseNumberError {
    /// The sentence that tells a person what is wrong with the number.
    pub open spec fn sentence(self) -> Seq<char> {
        match self {
            ParseNumberError::Empty => "cannot parse integer from empty string"@,
            ParseNumberError::InvalidDigit => "invalid digit found in string"@,
            ParseNumberError::PosOverflow => "number too large to fit in target type"@,
        }
    }

    pub fn message(&self) -> (text: &'static str)
        ensures
            text@ == self.sentence(),
    {
        match self {
            ParseNumberError::Empty => "cannot parse integer from empty string",
            ParseNumberError::InvalidDigit => "invalid digit found in string",
            ParseNumberError::PosOverflow => "number too large to fit in target type",
        }
    }
}

proof fn lemma_digits_value_grows(s: Seq<char>, k: int)
    requires
        all_digits(s),
        0 <= k <= s.len(),
    ensures
        digits_value(s.take(k)) <= digits_value(s),
    decreases s.len() - k,
{
    if k < s.len() {
        let head = s.take(s.len() - 1);
        assert(s.drop_last() =~= head);
        assert(all_digits(head));
        lemma_digits_value_grows(head, k);
        assert(head.take(k) =~= s.take(k));
        assert(is_digit(s.last()));
    } else {
        assert(s.take(k) =~= s);
    }
}

/// Reads an unsigned 64-bit number in decimal notation.
pub fn parse_number(text: &str) -> (r: Result<u64, ParseNumberError>)
    ensures
        r == parsed_number(text@),
{
    let chars = chars_of(text);
    if chars.len() == 0 {
        return Err(ParseNumberError::Empty);
    }
    let skip: usize = if chars.len() > 1 && chars[0] == '+' {
        1
    } else {
        0
    };
    let ghost digits = number_digits(text@);
    assert(digits =~= text@.skip(skip as int));
    let mut value: u64 = 0;
    let mut i: usize = skip;
    assert(digits.take(0) =~= Seq::<char>::empty());
    while i < chars.len()
        invariant
            chars@ == text@,
            text@.len() > 0,
            skip <= i <= chars@.len(),
            digits == number_digits(text@),
            digits =~= text@.skip(skip as int),
            all_digits(digits.take(i - skip)),
            value == digits_value(digits.take(i - skip)),
        decreases chars.len() - i,
    {
        let c: char = chars[i];
        let ghost k: int = i - skip;
        let ghost next = digits.take(k + 1);
        proof {
            assert(digits[k] == c);
            assert(next.drop_last() =~= digits.take(k));
            assert(next.last() == c);
        }
        if c < '0' || c > '9' {
            proof {
                assert(breaks_at(digits, k));
                assert(!all_digits(digits));
            }
            return Err(ParseNumberError::InvalidDigit);
        }
        let digit: u64 = c as u64 - 48;
        proof {
            assert(all_digits(next)) by {
                assert forall|j: int| 0 <= j < next.len() implies is_digit(#[trigger] next[j]) by {
                    if j < k {
                        assert(digits.take(k)[j] == next[j]);
                    }
                }
            }
        }
        if value > (u64::MAX - digit) / 10 {
            proof {
                assert(digits_value(next) == value * 10 + digit);
                assert(digits_value(next) > u64::MAX);
                if all_digits(digits) {
                    lemma_digits_value_grows(digits, k + 1);
                }
                assert forall|j: int| !breaks_at(digits, j) by {
                    if breaks_at(digits, j) {
                        if j <= k {
                            assert(digits[j] == next[j]);
                        } else {
                            let before = digits.take(j);
                            lemma_digits_value_grows(before, k + 1);
                            assert(before.take(k + 1) =~= next);
                        }
                    }
                }
            }
            return Err(ParseNumberError::PosOverflow);
        }
        value = value * 10 + digit;
        i += 1;
    }
    assert(digits.take(i - skip) =~= digits);
    Ok(value)
}

/// The decimal notation of a number holds digits alone, and they give the number.
pub(crate) proof fn lemma_decimal_digits(n: nat)
    ensures
        decimal(n).len() > 0,
        all_digits(decimal(n)),
        digits_value(decimal(n)) == n,
    decreases n,
{
    if n >= 10 {
        lemma_decimal_digits(n / 10);
        assert(decimal(n).drop_last() =~= decimal(n / 10));
    } else {
        assert(decimal(n).drop_last() =~= Seq::<char>::empty());
        assert(digits_value(Seq::<char>::empty()) == 0);
    }
}

/// A number written in decimal notation reads back as that number.
pub proof fn decimal_reads_back(n: u64)
    ensures
        parsed_number(decimal(n as nat)) == Ok::<u64, ParseNumberError>(n),
{
    lemma_decimal_digits(n as nat);
    assert(is_digit(decimal(n as nat)[0]));
}

/// `part` stands in `s` from position `i` on.
pub open spec fn occurs_at(s: Seq<char>, part: Seq<char>, i: int) -> bool {
    &&& 0 <= i
    &&& i + part.len() <= s.len()
    &&& s.subrange(i, i + part.len()) == part
}

/// `i` is the first position, from `from` on, at which `part` stands in `s`.
pub open spec fn first_at(s: Seq<char>, part: Seq<char>, from: int, i: int) -> bool {
    &&& from <= i
    &&& occurs_at(s, part, i)
    &&& forall|j: int| from <= j < i ==> !occurs_at(s, part, j)
}

pub open spec fn contains_text(s: Seq<char>, part: Seq<char>) -> bool {
    exists|i: int| occurs_at(s, part, i)
}

fn stands_at(chars: &[char], part: &[char], at: usize) -> (r: bool)
    requires
        at <= chars@.len(),
    ensures
        r == occurs_at(chars@, part@, at as int),
{
    if part.len() > chars.len() - at {
        return false;
    }
    let total: usize = chars.len();
    let mut i: usize = 0;
    while i < part.len()
        invariant
            at + part@.len() <= chars@.len() == total,
            0 <= i <= part@.len(),
            forall|j: int| 0 <= j < i ==> #[trigger] part@[j] == chars@[at + j],
        decreases part@.len() - i,
    {
        if chars[at + i] != part[i] {
            proof {
                let there = chars@.subrange(at as int, at + part@.len());
                assert(there[i as int] == chars@[at + i]);
            }
            return false;
        }
        i += 1;
    }
    assert(chars@.subrange(at as int, at + part@.len()) =~= part@);
    true
}

/// The first position, from `from` on, at which `part` stands in `chars`.
pub fn find_from(chars: &[char], part: &[char], from: usize) -> (r: Option<usize>)
    requires
        from <= chars@.len(),
    ensures
        match r {
            Some(i) => first_at(chars@, part@, from as int, i as int),
            None => forall|i: int| from <= i ==> !occurs_at(chars@, part@, i),
        },
{
    let mut i: usize = from;
    while i <= chars.len()
        invariant
            from <= i <= chars@.len() + 1,
            forall|j: int| from <= j < i ==> !occurs_at(chars@, part@, j),
        decreases chars@.len() + 1 - i,
    {
        if stands_at(chars, part, i) {
            return Some(i);
        }
        if i == chars.len() {
            return None;
        }
        i += 1;
    }
    None
}

/// Whether `part` stands anywhere in `text`.
pub fn contains(text: &str, part: &str) -> (r: bool)
    ensures
        r == contains_text(text@, part@),
{
    let chars = chars_of(text);
    let wanted = chars_of(part);
    match find_from(chars.as_slice(), wanted.as_slice(), 0) {
        Some(_) => true,
        None => false,
    }
}

/// Whether `text` begins with `prefix`.
pub fn starts_with(text: &str, prefix: &str) -> (r: bool)
    ensures
        r == prefix@.is_prefix_of(text@),
{
    let chars = chars_of(text);
    let wanted = chars_of(prefix);
    let r = stands_at(chars.as_slice(), wanted.as_slice(), 0);
    assert(prefix@.len() <= text@.len() ==> text@.subrange(0, prefix@.len() as int)
        =~= text@.take(prefix@.len() as int));
    r
}

/// Whether `text` ends with `suffix`.
pub fn ends_with(text: &str, suffix: &str) -> (r: bool)
    ensures
        r == suffix@.is_suffix_of(text@),
{
    let chars = chars_of(text);
    let wanted = chars_of(suffix);
    if wanted.len() > chars.len() {
        return false;
    }
    stands_at(chars.as_slice(), wanted.as_slice(), chars.len() - wanted.len())
}

/// The characters with Unicode's `White_Space` property.
pub open spec fn is_space(c: char) -> bool {
    let n = c as u32;
    ||| 0x09 <= n <= 0x0d
    ||| n == 0x20
    ||| n == 0x85
    ||| n == 0xa0
    ||| n == 0x1680
    ||| 0x2000 <= n <= 0x200a
    ||| n == 0x2028
    ||| n == 0x2029
    ||| n == 0x202f
    ||| n == 0x205f
    ||| n == 0x3000
}

fn is_space_char(c: char) -> (r: bool)
    ensures
        r == is_space(c),
{
    let n: u32 = c as u32;
    (0x09 <= n && n <= 0x0d) || n == 0x20 || n == 0x85 || n == 0xa0 || n == 0x1680 || (0x2000 <= n
        && n <= 0x200a) || n == 0x2028 || n == 0x2029 || n == 0x202f || n == 0x205f || n == 0x3000
}

/// `s` without the white space at its start.
pub open spec fn trimmed_start(s: Seq<char>) -> Seq<char>
    decreases s.len(),
{
    if s.len() > 0 && is_space(s[0]) {
        trimmed_start(s.skip(1))
    } else {
        s
    }
}

/// `s` without the white space at its end.
pub open spec fn trimmed_end(s: Seq<char>) -> Seq<char>
    decreases s.len(),
{
    if s.len() > 0 && is_space(s.last()) {
        trimmed_end(s.drop_last())
    } else {
        s
    }
}

/// `s` without the white space at either end.
pub open spec fn trimmed(s: Seq<char>) -> Seq<char> {
    trimmed_end(trimmed_start(s))
}

/// The text of `chars[from..to]` without the white space at either end.
pub fn trim_range(chars: &[char], from: usize, to: usize) -> (text: String)
    requires
        from <= to <= chars@.len(),
    ensures
        text@ == trimmed(chars@.subrange(from as int, to as int)),
{
    let ghost whole = chars@.subrange(from as int, to as int);
    let mut start: usize = from;
    while start < to && is_space_char(chars[start])
        invariant
            from <= start <= to <= chars@.len(),
            trimmed_start(whole) == trimmed_start(chars@.subrange(start as int, to as int)),
        decreases to - start,
    {
        proof {
            let rest = chars@.subrange(start as int, to as int);
            assert(rest[0] == chars@[start as int]);
            assert(rest.skip(1) =~= chars@.subrange(start + 1, to as int));
        }
        start += 1;
    }
    let ghost rest = chars@.subrange(start as int, to as int);
    assert(rest.len() > 0 ==> rest[0] == chars@[start as int]);
    let mut end: usize = to;
    while end > start && is_space_char(chars[end - 1])
        invariant
            start <= end <= to <= chars@.len(),
            trimmed_end(rest) == trimmed_end(chars@.subrange(start as int, end as int)),
        decreases end - start,
    {
        proof {
            let kept = chars@.subrange(start as int, end as int);
            assert(kept.last() == chars@[end - 1]);
            assert(kept.drop_last() =~= chars@.subrange(start as int, end - 1));
        }
        end -= 1;
    }
    let ghost kept = chars@.subrange(start as int, end as int);
    assert(kept.len() > 0 ==> kept.last() == chars@[end - 1]);
    text_of(chars, start, end)
}

/// `text` without the white space at either end.
pub fn trim(text: &str) -> (r: String)
    ensures
        r@ == trimmed(text@),
{
    let chars = chars_of(text);
    assert(text@.subrange(0, text@.len() as int) =~= text@);
    trim_range(chars.as_slice(), 0, chars.len())
}

/// The lower case of an ASCII letter; any other character itself.
pub open spec fn ascii_lower(c: char) -> char {
    if 'A' <= c <= 'Z' {
        (c as u32 + 32) as char
    } else {
        c
    }
}

/// `s` with its ASCII letters in lower case.
pub open spec fn lowered(s: Seq<char>) -> Seq<char> {
    s.map_values(|c: char| ascii_lower(c))
}

/// `text` with its ASCII letters in lower case.
pub fn to_lower(text: &str) -> (r: String)
    ensures
        r@ == lowered(text@),
{
    let chars = chars_of(text);
    let mut r = String::new();
    let mut i: usize = 0;
    while i < chars.len()
        invariant
            chars@ == text@,
            i <= chars@.len(),
            r@ == lowered(text@.take(i as int)),
        decreases chars@.len() - i,
    {
        let c: char = chars[i];
        if 'A' <= c && c <= 'Z' {
            r.push((c as u8 + 32) as char);
        } else {
            r.push(c);
        }
        assert(r@ =~= lowered(text@.take(i + 1)));
        i += 1;
    }
    assert(text@.take(i as int) =~= text@);
    r
}

/// Whether two texts hold the same characters.
pub fn same_text(a: &str, b: &str) -> (r: bool)
    ensures
        r == (a@ == b@),
{
    let left = chars_of(a);
    let right = chars_of(b);
    if left.len() != right.len() {
        return false;
    }
    let r = stands_at(left.as_slice(), right.as_slice(), 0);
    assert(left@.subrange(0, left@.len() as int) =~= left@);
    r
}

/// What an optional text reads.
pub open spec fn str_view(text: Option<&str>) -> Option<Seq<char>> {
    match text {
        Some(t) => Some(t@),
        None => None,
    }
}

/// What an optional text reads.
pub open spec fn string_view(text: Option<String>) -> Option<Seq<char>> {
    match text {
        Some(t) => Some(t@),
        None => None,
    }
}

/// A copy of an optional text.
pub fn copied(text: &Option<String>) -> (r: Option<String>)
    ensures
        r == *text,
{
    match text {
        Some(t) => Some(t.clone()),
        None => None,
    }
}

/// A borrowed view of an optional text.
pub fn as_text(text: &Option<String>) -> (r: Option<&str>)
    ensures
        str_view(r) == string_view(*text),
{
    match text {
        Some(t) => Some(t.as_str()),
        None => None,
    }
}

/// A digit behind a number is read as ten times the number and the digit, as
/// long as that fits.
pub proof fn digit_extends_a_number(s: Seq<char>, n: u64, digit: char)
    requires
        parsed_number(s) == Ok::<u64, ParseNumberError>(n),
        '0' <= digit <= '9',
    ensures
        10 * n + (digit as int - 48) <= u64::MAX ==> parsed_number(s.push(digit)) == Ok::<
            u64,
            ParseNumberError,
        >((10 * n + (digit as int - 48)) as u64),
        10 * n + (digit as int - 48) > u64::MAX ==> parsed_number(s.push(digit)) is Err,
{
    let next = s.push(digit);
    let before = number_digits(s);
    let after = number_digits(next);
    assert(s.len() > 0);
    if s.len() == 1 && s[0] == '+' {
        assert(!is_digit(before[0]));
    }
    assert(after =~= before.push(digit));
    assert(after.drop_last() =~= before);
    assert forall|i: int| 0 <= i < after.len() implies is_digit(#[trigger] after[i]) by {
        if i < before.len() {
            assert(is_digit(before[i]));
        }
    }
}

/// A single digit is read as its value.
pub proof fn digit_is_a_number(digit: char)
    requires
        '0' <= digit <= '9',
    ensures
        parsed_number(seq![digit]) == Ok::<u64, ParseNumberError>((digit as int - 48) as u64),
{
    let s = seq![digit];
    assert(s.drop_last() =~= Seq::<char>::empty());
    assert(digits_value(Seq::<char>::empty()) == 0);
    assert(is_digit(s[0]));
}

/// A text that holds anything but digits, a leading plus sign aside, is no
/// number, and neither is the empty text.
pub proof fn only_digits_are_numbers(s: Seq<char>, i: int)
    requires
        s.len() == 0 || (0 <= i < s.len() && !('0' <= s[i] <= '9') && !(i == 0 && s[0] == '+'
            && s.len() > 1)),
    ensures
        parsed_number(s) is Err,
{
    if s.len() > 0 {
        let digits = number_digits(s);
        let skip = s.len() - digits.len();
        assert(digits[i - skip] == s[i]);
        assert(!is_digit(digits[i - skip]));
    }
}

proof fn lemma_trimmed_start(before: Seq<char>, rest: Seq<char>)
    requires
        forall|i: int| 0 <= i < before.len() ==> is_space(#[trigger] before[i]),
        rest.len() == 0 || !is_space(rest[0]),
    ensures
        trimmed_start(before + rest) == rest,
    decreases before.len(),
{
    if before.len() == 0 {
        assert(before + rest =~= rest);
    } else {
        let tail = before.skip(1);
        assert((before + rest).skip(1) =~= tail + rest);
        assert(is_space((before + rest)[0]));
        assert forall|i: int| 0 <= i < tail.len() implies is_space(#[trigger] tail[i]) by {
            assert(is_space(before[i + 1]));
        }
        lemma_trimmed_start(tail, rest);
    }
}

proof fn lemma_trimmed_end(rest: Seq<char>, after: Seq<char>)
    requires
        forall|i: int| 0 <= i < after.len() ==> is_space(#[trigger] after[i]),
        rest.len() == 0 || !is_space(rest.last()),
    ensures
        trimmed_end(rest + after) == rest,
    decreases after.len(),
{
    if after.len() == 0 {
        assert(rest + after =~= rest);
    } else {
        let head = after.drop_last();
        assert((rest + after).drop_last() =~= rest + head);
        assert(is_space((rest + after).last()));
        assert forall|i: int| 0 <= i < head.len() implies is_space(#[trigger] head[i]) by {
            assert(is_space(after[i]));
        }
        lemma_trimmed_end(rest, head);
    }
}

/// Trimming takes away all the white space around a text and nothing else.
pub proof fn trimming_keeps_the_middle(before: Seq<char>, middle: Seq<char>, after: Seq<char>)
    requires
        forall|i: int| 0 <= i < before.len() ==> is_space(#[trigger] before[i]),
        forall|i: int| 0 <= i < after.len() ==> is_space(#[trigger] after[i]),
        middle.len() > 0 ==> !is_space(middle[0]) && !is_space(middle.last()),
    ensures
        trimmed(before + middle + after) == middle,
{
    if middle.len() > 0 {
        assert(before + middle + after =~= before + (middle + after));
        lemma_trimmed_start(before, middle + after);
        lemma_trimmed_end(middle, after);
    } else {
        let blank = before + middle + after;
        assert forall|i: int| 0 <= i < blank.len() implies is_space(#[trigger] blank[i]) by {
            if i >= before.len() {
                assert(is_space(after[i - before.len()]));
            }
        }
        assert(blank =~= blank + middle);
        lemma_trimmed_start(blank, middle);
        assert(middle =~= Seq::<char>::empty());
    }
}

/// Lowering changes the letters from `A` to `Z`, each to its own small letter,
/// and nothing else.
pub proof fn lowering_changes_capitals(s: Seq<char>, i: int)
    requires
        0 <= i < s.len(),
    ensures
        lowered(s).len() == s.len(),
        'A' <= s[i] <= 'Z' ==> lowered(s)[i] as int == s[i] as int + 32,
        !('A' <= s[i] <= 'Z') ==> lowered(s)[i] == s[i],
{
}

/// A text contains what stands anywhere in it, and nothing that is longer.
pub proof fn text_contains_its_parts(before: Seq<char>, part: Seq<char>, after: Seq<char>)
    ensures
        contains_text(before + part + after, part),
        before.len() > 0 ==> !contains_text(part, before + part),
{
    let whole = before + part + after;
    assert(whole.subrange(before.len() as int, (before.len() + part.len()) as int) =~= part);
    assert(occurs_at(whole, part, before.len() as int));
}

/// The blank, the tab, the ends of lines and the wide blank are white space; no
/// printable character of ASCII and no letter is.
pub proof fn blanks_are_told_from_signs(c: char)
    ensures
        c == ' ' || c == '\t' || c == '\n' || c == '\r' || c == '\u{3000}' ==> is_space(c),
        0x21 <= c as u32 <= 0x7e ==> !is_space(c),
        0x4e00 <= c as u32 <= 0x9fff ==> !is_space(c),
{
}

/// The first fault decides why a text is no number: a sign that is no digit
/// behind a number that is still in range, or the digit that takes it out of
/// range; and nothing that follows changes that.
pub proof fn first_fault_decides(s: Seq<char>, n: u64, c: char)
    ensures
        parsed_number(Seq::empty()) == Err::<u64, ParseNumberError>(ParseNumberError::Empty),
        parsed_number(s) == Ok::<u64, ParseNumberError>(n) && !('0' <= c <= '9') ==> parsed_number(
            s.push(c),
        ) == Err::<u64, ParseNumberError>(ParseNumberError::InvalidDigit),
        parsed_number(s) == Ok::<u64, ParseNumberError>(n) && '0' <= c <= '9' && 10 * n + (c as int
            - 48) > u64::MAX ==> parsed_number(s.push(c)) == Err::<u64, ParseNumberError>(
            ParseNumberError::PosOverflow,
        ),
        parsed_number(s) is Err && s.len() > 0 && s != seq!['+'] ==> parsed_number(s.push(c))
            == parsed_number(s),
{
    let next = s.push(c);
    let digits = number_digits(s);
    let more = number_digits(next);
    if s.len() > 0 && s != seq!['+'] {
        if s.len() == 1 && s[0] == '+' {
            assert(s =~= seq!['+']);
        }
        assert(more =~= digits.push(c));
        assert(more.drop_last() =~= digits);
        assert(more.take(digits.len() as int) =~= digits);
        assert forall|k: int| 0 <= k < digits.len() implies more.take(k) == digits.take(k) by {
            assert(more.take(k) =~= digits.take(k));
        }
        if parsed_number(s) is Ok {
            assert(digits.take(digits.len() as int) =~= digits);
            if !is_digit(c) {
                assert(more[digits.len() as int] == c);
                assert(breaks_at(more, digits.len() as int));
                assert(!all_digits(more)) by {
                    assert(!is_digit(more[digits.len() as int]));
                }
            } else {
                assert(all_digits(more)) by {
                    assert forall|i: int| 0 <= i < more.len() implies is_digit(
                        #[trigger] more[i],
                    ) by {
                        if i < digits.len() {
                            assert(is_digit(digits[i]));
                        }
                    }
                }
                assert forall|k: int| !breaks_at(more, k) by {
                    if 0 <= k < more.len() {
                        assert(is_digit(more[k]));
                    }
                }
            }
        } else {
            if exists|k: int| breaks_at(digits, k) {
                let k = choose|k: int| breaks_at(digits, k);
                assert(more[k] == digits[k]);
                assert(breaks_at(more, k));
                assert(!is_digit(more[k]));
            } else {
                assert(digits_value(digits) > u64::MAX || !all_digits(digits));
                lemma_overflowed(digits, c);
            }
        }
    } else if s.len() == 1 {
        assert(!is_digit(s[0]));
    }
}

proof fn lemma_overflowed(digits: Seq<char>, c: char)
    requires
        digits.len() > 0,
        forall|k: int| !breaks_at(digits, k),
        !(all_digits(digits) && digits_value(digits) <= u64::MAX),
    ensures
        !(all_digits(digits.push(c)) && digits_value(digits.push(c)) <= u64::MAX),
        forall|k: int| !breaks_at(digits.push(c), k),
{
    let more = digits.push(c);
    let n = digits.len() as int;
    assert(more.drop_last() =~= digits);
    assert(digits.take(n) =~= digits);
    if all_digits(more) {
        assert forall|i: int| 0 <= i < n implies is_digit(#[trigger] digits[i]) by {
            assert(is_digit(more[i]));
        }
    }
    assert forall|k: int| !breaks_at(more, k) by {
        if breaks_at(more, k) {
            assert(more.take(k) =~= digits.take(k));
            if k < n {
                assert(breaks_at(digits, k));
            }
        }
    }
}

/// The sentences in which a text that is no number is told of.
pub proof fn faults_have_their_sentences()
    ensures
        ParseNumberError::Empty.sentence() == "cannot parse integer from empty string"@,
        ParseNumberError::InvalidDigit.sentence() == "invalid digit found in string"@,
        ParseNumberError::PosOverflow.sentence() == "number too large to fit in target type"@,
{
}

} // verus!
