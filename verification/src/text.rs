//! Text as sequences of characters: searching, splitting, trimming, and the
//! decimal and hexadecimal forms of integers.

use vstd::prelude::*;

verus! {

/// `String::push` appends the given character to the end of the string.
pub assume_specification[ String::push ](s: &mut String, c: char)
    ensures
        final(s)@ == old(s)@.push(c),
;

/// The characters of `s`, in order.
pub fn chars_of(s: &str) -> (out: Vec<char>)
    ensures
        out@ == s@,
{
    let mut out: Vec<char> = Vec::new();
    for c in it: s.chars()
        invariant
            out@ == it.seq().take(it.index() as int),
            it.seq() == s@,
    {
        out.push(c);
    }
    out
}

/// The string made of `chars`.
pub fn string_of(chars: &Vec<char>) -> (out: String)
    ensures
        out@ == chars@,
{
    let mut out = String::new();
    let mut i: usize = 0;
    while i < chars.len()
        invariant
            i <= chars@.len(),
            out@ == chars@.take(i as int),
        decreases chars@.len() - i,
    {
        out.push(chars[i]);
        i = i + 1;
    }
    out
}

/// Whether `c` has Unicode's `White_Space` property.
pub open spec fn is_white(c: char) -> bool {
    ||| '\u{9}' <= c <= '\u{d}'
    ||| c == ' '
    ||| c == '\u{85}'
    ||| c == '\u{a0}'
    ||| c == '\u{1680}'
    ||| '\u{2000}' <= c <= '\u{200a}'
    ||| c == '\u{2028}'
    ||| c == '\u{2029}'
    ||| c == '\u{202f}'
    ||| c == '\u{205f}'
    ||| c == '\u{3000}'
}

/// Whether `c` is in Unicode's general category `Cc`.
pub open spec fn is_control(c: char) -> bool {
    c <= '\u{1f}' || '\u{7f}' <= c <= '\u{9f}'
}

/// The characters a search can look for.
#[derive(Clone, Copy)]
pub enum Class {
    Is(char),
    IsNot(char),
    Either(char, char),
    White,
    NotWhite,
}

impl Class {
    /// Whether `c` belongs to the class.
    pub open spec fn has(self, c: char) -> bool {
        match self {
            Class::Is(a) => c == a,
            Class::IsNot(a) => c != a,
            Class::Either(a, b) => c == a || c == b,
            Class::White => is_white(c),
            Class::NotWhite => !is_white(c),
        }
    }

    /// Whether `c` belongs to the class.
    pub fn matches(self, c: char) -> (found: bool)
        ensures
            found == self.has(c),
    {
        match self {
            Class::Is(a) => c == a,
            Class::IsNot(a) => c != a,
            Class::Either(a, b) => c == a || c == b,
            Class::White => white(c),
            Class::NotWhite => !white(c),
        }
    }
}

/// Whether `c` has Unicode's `White_Space` property.
pub fn white(c: char) -> (found: bool)
    ensures
        found == is_white(c),
{
    let n: u32 = c as u32;
    (0x9 <= n && n <= 0xd) || n == 0x20 || n == 0x85 || n == 0xa0 || n == 0x1680 || (0x2000 <= n
        && n <= 0x200a) || n == 0x2028 || n == 0x2029 || n == 0x202f || n == 0x205f || n == 0x3000
}

/// Whether `c` is in Unicode's general category `Cc`.
pub fn control(c: char) -> (found: bool)
    ensures
        found == is_control(c),
{
    let n: u32 = c as u32;
    n <= 0x1f || (0x7f <= n && n <= 0x9f)
}

/// Index of the first character of `s` at or after `from` that `class` holds of,
/// or the length of `s`.
pub open spec fn first_from(s: Seq<char>, from: int, class: Class) -> int
    decreases s.len() - from,
{
    if from >= s.len() {
        s.len() as int
    } else if class.has(s[from]) {
        from
    } else {
        first_from(s, from + 1, class)
    }
}

/// One past the last character of `s` before `to` that `class` holds of, or zero.
pub open spec fn last_to(s: Seq<char>, to: int, class: Class) -> int
    decreases to,
{
    if to <= 0 {
        0
    } else if class.has(s[to - 1]) {
        to
    } else {
        last_to(s, to - 1, class)
    }
}

/// What `first_from` finds: nothing before it is in the class, and it is unless
/// it is the end.
pub proof fn lemma_first_from(s: Seq<char>, from: int, class: Class)
    requires
        0 <= from <= s.len(),
    ensures
        from <= first_from(s, from, class) <= s.len(),
        forall|i: int| from <= i < first_from(s, from, class) ==> !class.has(#[trigger] s[i]),
        first_from(s, from, class) < s.len() ==> class.has(s[first_from(s, from, class)]),
    decreases s.len() - from,
{
    if from < s.len() && !class.has(s[from]) {
        lemma_first_from(s, from + 1, class);
    }
}

/// What `last_to` finds: nothing between it and `to` is in the class, and the
/// character before it is unless it is zero.
pub proof fn lemma_last_to(s: Seq<char>, to: int, class: Class)
    requires
        0 <= to <= s.len(),
    ensures
        0 <= last_to(s, to, class) <= to,
        forall|i: int| last_to(s, to, class) <= i < to ==> !class.has(#[trigger] s[i]),
        last_to(s, to, class) > 0 ==> class.has(s[last_to(s, to, class) - 1]),
    decreases to,
{
    if to > 0 && !class.has(s[to - 1]) {
        lemma_last_to(s, to - 1, class);
    }
}

/// Finds the first character at or after `from` that `class` holds of.
pub fn find_from(s: &Vec<char>, from: usize, class: Class) -> (at: usize)
    requires
        from <= s@.len(),
    ensures
        at == first_from(s@, from as int, class),
        from <= at <= s@.len(),
{
    let mut i: usize = from;
    while i < s.len()
        invariant
            from <= i <= s@.len(),
            first_from(s@, from as int, class) == first_from(s@, i as int, class),
        decreases s@.len() - i,
    {
        if class.matches(s[i]) {
            return i;
        }
        i = i + 1;
    }
    i
}

/// Finds one past the last character before `to` that `class` holds of.
pub fn find_last(s: &Vec<char>, to: usize, class: Class) -> (end: usize)
    requires
        to <= s@.len(),
    ensures
        end == last_to(s@, to as int, class),
        end <= to,
{
    let mut i: usize = to;
    while i > 0
        invariant
            i <= to <= s@.len(),
            last_to(s@, to as int, class) == last_to(s@, i as int, class),
        decreases i,
    {
        if class.matches(s[i - 1]) {
            return i;
        }
        i = i - 1;
    }
    i
}

/// The characters of `s` from `from` up to `to`.
pub fn slice_of(s: &Vec<char>, from: usize, to: usize) -> (out: Vec<char>)
    requires
        from <= to <= s@.len(),
    ensures
        out@ == s@.subrange(from as int, to as int),
{
    let mut out: Vec<char> = Vec::new();
    let mut i: usize = from;
    while i < to
        invariant
            from <= i <= to <= s@.len(),
            out@ == s@.subrange(from as int, i as int),
        decreases to - i,
    {
        out.push(s[i]);
        i = i + 1;
    }
    out
}

/// `s` without the characters at either end that `class` does not hold of; empty
/// when it holds of none.
pub open spec fn trimmed_to(s: Seq<char>, class: Class) -> Seq<char> {
    let start = first_from(s, 0, class);
    if start == s.len() {
        Seq::empty()
    } else {
        s.subrange(start, last_to(s, s.len() as int, class))
    }
}

/// Drops the characters at either end that `class` does not hold of.
pub fn trim_to(s: &Vec<char>, class: Class) -> (out: Vec<char>)
    ensures
        out@ == trimmed_to(s@, class),
{
    let start: usize = find_from(s, 0, class);
    if start == s.len() {
        return Vec::new();
    }
    let end: usize = find_last(s, s.len(), class);
    proof {
        lemma_first_from(s@, 0, class);
        lemma_last_to(s@, s@.len() as int, class);
        assert(class.has(s@[start as int]));
    }
    slice_of(s, start, end)
}

/// `s` without the white space at either end.
pub open spec fn trim_spec(s: Seq<char>) -> Seq<char> {
    trimmed_to(s, Class::NotWhite)
}

/// Drops the white space at either end.
pub fn trim(s: &Vec<char>) -> (out: Vec<char>)
    ensures
        out@ == trim_spec(s@),
{
    trim_to(s, Class::NotWhite)
}

/// The pieces of `s` between the characters that `class` holds of.
pub open spec fn split_on(s: Seq<char>, class: Class) -> Seq<Seq<char>>
    decreases s.len(),
{
    let at = first_from(s, 0, class);
    if at < 0 || at >= s.len() {
        seq![s]
    } else {
        seq![s.take(at)] + split_on(s.skip(at + 1), class)
    }
}

/// The sequences behind a list of character vectors.
pub open spec fn views(parts: Seq<Vec<char>>) -> Seq<Seq<char>> {
    parts.map_values(|part: Vec<char>| part@)
}

/// Splits `s` at every character that `class` holds of.
pub fn split(s: &Vec<char>, class: Class) -> (parts: Vec<Vec<char>>)
    ensures
        views(parts@) == split_on(s@, class),
        parts@.len() >= 1,
{
    let mut parts: Vec<Vec<char>> = Vec::new();
    let mut from: usize = 0;
    proof {
        assert(s@.skip(0) == s@);
        assert(views(parts@) + split_on(s@, class) == split_on(s@, class));
    }
    loop
        invariant
            from <= s@.len(),
            split_on(s@, class) == views(parts@) + split_on(s@.skip(from as int), class),
        decreases s@.len() - from,
    {
        let at: usize = find_from(s, from, class);
        let ghost rest = s@.skip(from as int);
        let ghost before = views(parts@);
        proof {
            lemma_first_from_skip(s@, from as int, class);
            lemma_first_from(s@, from as int, class);
        }
        let part = slice_of(s, from, at);
        assert(part@ == rest.take(at - from));
        parts.push(part);
        assert(views(parts@) == before.push(part@));
        if at == s.len() {
            assert(rest.take(at - from) == rest);
            assert(split_on(rest, class) == seq![rest]);
            assert(before + seq![rest] == views(parts@));
            return parts;
        }
        proof {
            assert(rest.skip(at - from + 1) == s@.skip(at + 1));
            assert(split_on(rest, class) == seq![part@] + split_on(s@.skip(at + 1), class));
            assert(before + (seq![part@] + split_on(s@.skip(at + 1), class)) == views(parts@)
                + split_on(s@.skip(at + 1), class));
        }
        from = at + 1;
    }
}

/// Searching a suffix is searching the whole from where the suffix starts.
proof fn lemma_first_from_skip(s: Seq<char>, from: int, class: Class)
    requires
        0 <= from <= s.len(),
    ensures
        first_from(s, from, class) == from + first_from(s.skip(from), 0, class),
{
    lemma_first_from_offset(s, from, 0, class);
}

proof fn lemma_first_from_offset(s: Seq<char>, from: int, i: int, class: Class)
    requires
        0 <= from <= s.len(),
        0 <= i <= s.len() - from,
    ensures
        first_from(s, from + i, class) == from + first_from(s.skip(from), i, class),
    decreases s.len() - from - i,
{
    if from + i < s.len() {
        assert(s.skip(from)[i] == s[from + i]);
        if !class.has(s[from + i]) {
            lemma_first_from_offset(s, from, i + 1, class);
        }
    }
}

/// `c` in lower case when it is an ASCII letter.
pub open spec fn ascii_lower(c: char) -> char {
    if 'A' <= c <= 'Z' {
        (c as u32 + 32) as char
    } else {
        c
    }
}

/// `s` with every ASCII letter in lower case.
pub open spec fn ascii_lowered(s: Seq<char>) -> Seq<char> {
    s.map_values(|c: char| ascii_lower(c))
}

/// `s` with every ASCII letter in upper case.
pub open spec fn ascii_uppered(s: Seq<char>) -> Seq<char> {
    s.map_values(
        |c: char|
            if 'a' <= c <= 'z' {
                (c as u32 - 32) as char
            } else {
                c
            },
    )
}

/// Puts every ASCII letter of `s` in lower case.
pub fn to_ascii_lowercase(s: &Vec<char>) -> (out: Vec<char>)
    ensures
        out@ == ascii_lowered(s@),
{
    let mut out: Vec<char> = Vec::new();
    let mut i: usize = 0;
    while i < s.len()
        invariant
            i <= s@.len(),
            out@ == ascii_lowered(s@.take(i as int)),
        decreases s@.len() - i,
    {
        let n: u32 = s[i] as u32;
        if 65 <= n && n <= 90 {
            out.push((n + 32) as u8 as char);
        } else {
            out.push(s[i]);
        }
        assert(s@.take(i + 1) == s@.take(i as int).push(s@[i as int]));
        i = i + 1;
    }
    assert(s@.take(s@.len() as int) == s@);
    out
}

/// Whether `part` occurs in `s` starting at `at`.
pub open spec fn occurs_at(s: Seq<char>, part: Seq<char>, at: int) -> bool {
    &&& 0 <= at
    &&& at + part.len() <= s.len()
    &&& s.subrange(at, at + part.len()) == part
}

/// Whether `part` occurs in `s`.
pub open spec fn occurs(s: Seq<char>, part: Seq<char>) -> bool {
    exists|at: int| #[trigger] occurs_at(s, part, at)
}

/// Whether `part` occurs in `s` starting at `at`.
pub fn has_at(s: &Vec<char>, part: &Vec<char>, at: usize) -> (found: bool)
    requires
        at <= s@.len(),
    ensures
        found == occurs_at(s@, part@, at as int),
{
    if part.len() > s.len() - at {
        return false;
    }
    let mut i: usize = 0;
    while i < part.len()
        invariant
            i <= part@.len(),
            at + part@.len() <= s@.len() <= usize::MAX,
            forall|j: int| 0 <= j < i ==> s@[at + j] == part@[j],
        decreases part@.len() - i,
    {
        if s[at + i] != part[i] {
            assert(s@.subrange(at as int, at + part@.len())[i as int] != part@[i as int]);
            return false;
        }
        i = i + 1;
    }
    assert(s@.subrange(at as int, at + part@.len()) == part@);
    true
}

/// Whether `part` occurs in `s`.
pub fn contains(s: &Vec<char>, part: &Vec<char>) -> (found: bool)
    ensures
        found == occurs(s@, part@),
{
    let mut at: usize = 0;
    loop
        invariant
            at <= s@.len(),
            forall|i: int| 0 <= i < at ==> !#[trigger] occurs_at(s@, part@, i),
        decreases s@.len() - at,
    {
        if has_at(s, part, at) {
            return true;
        }
        if at == s.len() {
            assert forall|i: int| !#[trigger] occurs_at(s@, part@, i) by {
                if i > s@.len() {
                    assert(i + part@.len() > s@.len());
                }
            }
            return false;
        }
        at = at + 1;
    }
}

/// Whether `s` spells exactly `word`.
pub fn is_word(s: &Vec<char>, word: &str) -> (same: bool)
    ensures
        same == (s@ == word@),
{
    let w = chars_of(word);
    if s.len() != w.len() {
        return false;
    }
    let same = has_at(s, &w, 0);
    assert(s@.subrange(0, w@.len() as int) == s@);
    same
}

/// Whether `a` and `b` spell the same text.
pub fn same_text(a: &str, b: &str) -> (same: bool)
    ensures
        same == (a@ == b@),
{
    is_word(&chars_of(a), b)
}

/// What follows `prefix` in `s`, when `s` starts with it.
pub open spec fn after_prefix(s: Seq<char>, prefix: Seq<char>) -> Option<Seq<char>> {
    if occurs_at(s, prefix, 0) {
        Some(s.skip(prefix.len() as int))
    } else {
        None
    }
}

/// What follows `prefix` in `s`, when `s` starts with it.
pub fn strip_prefix(s: &Vec<char>, prefix: &str) -> (rest: Option<Vec<char>>)
    ensures
        rest is Some == after_prefix(s@, prefix@) is Some,
        rest is Some ==> rest->0@ == after_prefix(s@, prefix@)->0,
{
    let p = chars_of(prefix);
    if has_at(s, &p, 0) {
        Some(slice_of(s, p.len(), s.len()))
    } else {
        None
    }
}

/// The character of a decimal digit.
pub open spec fn digit_char(d: nat) -> char {
    (48 + d) as char
}

/// The value of a decimal digit's character.
pub open spec fn digit_value(c: char) -> nat {
    (c as u32 - 48) as nat
}

/// Whether `c` is a decimal digit.
pub open spec fn is_digit(c: char) -> bool {
    '0' <= c <= '9'
}

/// Whether `s` is made of decimal digits alone.
pub open spec fn all_digits(s: Seq<char>) -> bool {
    forall|i: int| 0 <= i < s.len() ==> is_digit(#[trigger] s[i])
}

/// The decimal form of `n`.
pub open spec fn decimal(n: nat) -> Seq<char>
    decreases n,
{
    if n < 10 {
        seq![digit_char(n)]
    } else {
        decimal(n / 10).push(digit_char(n % 10))
    }
}

/// The number that the digits `s` spell.
pub open spec fn decimal_value(s: Seq<char>) -> nat
    decreases s.len(),
{
    if s.len() == 0 {
        0
    } else {
        decimal_value(s.drop_last()) * 10 + digit_value(s.last())
    }
}

/// The digits that spell a number spell that number.
pub proof fn law_decimal_reads_back(n: nat)
    ensures
        all_digits(decimal(n)),
        decimal(n).len() > 0,
        decimal_value(decimal(n)) == n,
    decreases n,
{
    if n < 10 {
        let s = decimal(n);
        assert(s.drop_last() == Seq::<char>::empty());
        assert(decimal_value(s.drop_last()) == 0);
    } else {
        law_decimal_reads_back(n / 10);
        let s = decimal(n);
        assert(s.drop_last() == decimal(n / 10));
        assert(s.last() == digit_char(n % 10));
    }
}

/// Writes `n` in decimal.
pub fn decimal_of(n: u64) -> (out: Vec<char>)
    ensures
        out@ == decimal(n as nat),
    decreases n,
{
    let last: u64 = n % 10;
    let c: char = (48 + last as u8) as char;
    if n < 10 {
        let mut out: Vec<char> = Vec::new();
        out.push(c);
        return out;
    }
    let mut out = decimal_of(n / 10);
    out.push(c);
    out
}

/// The number spelled by an unsigned decimal literal, which may start with `+`,
/// when it is no larger than `max`.
pub open spec fn parsed(s: Seq<char>, max: nat) -> Option<nat> {
    let digits = if s.len() > 0 && s[0] == '+' {
        s.skip(1)
    } else {
        s
    };
    if digits.len() == 0 || !all_digits(digits) || decimal_value(digits) > max {
        None
    } else {
        Some(decimal_value(digits))
    }
}

/// The value of `c` when it is a decimal digit.
fn digit_of(c: char) -> (value: Option<u64>)
    ensures
        value is Some == is_digit(c),
        value is Some ==> value->0 == digit_value(c) && value->0 < 10,
{
    let n: u32 = c as u32;
    if 48 <= n && n <= 57 {
        Some((n - 48) as u64)
    } else {
        None
    }
}

/// A prefix of digits spells no more than the whole.
proof fn lemma_prefix_value(s: Seq<char>, n: int)
    requires
        0 <= n <= s.len(),
    ensures
        decimal_value(s.take(n)) <= decimal_value(s),
    decreases s.len() - n,
{
    if n < s.len() {
        lemma_prefix_value(s, n + 1);
        assert(s.take(n + 1).drop_last() == s.take(n));
    } else {
        assert(s.take(n) == s);
    }
}

/// Reads an unsigned decimal literal no larger than `max`.
pub fn parse_max(s: &Vec<char>, max: u64) -> (value: Option<u64>)
    ensures
        value is Some == parsed(s@, max as nat) is Some,
        value is Some ==> value->0 == parsed(s@, max as nat)->0,
{
    let from: usize = if s.len() > 0 && s[0] == '+' {
        1
    } else {
        0
    };
    let ghost digits = s@.skip(from as int);
    assert(from == 0 ==> digits == s@);
    if from == s.len() {
        return None;
    }
    let mut total: u64 = 0;
    let mut i: usize = from;
    while i < s.len()
        invariant
            from <= i <= s@.len(),
            digits == s@.skip(from as int),
            total == decimal_value(digits.take(i - from)),
            total <= max,
            forall|j: int| 0 <= j < i - from ==> is_digit(#[trigger] digits[j]),
            parsed(s@, max as nat) == (if digits.len() == 0 || !all_digits(digits)
                || decimal_value(digits) > max {
                None
            } else {
                Some(decimal_value(digits))
            }),
        decreases s@.len() - i,
    {
        let ghost at = i - from;
        assert(digits[at] == s@[i as int]);
        let d: u64 = match digit_of(s[i]) {
            Some(d) => d,
            None => {
                return None;
            },
        };
        proof {
            assert(digits.take(at + 1).drop_last() == digits.take(at));
            assert(digits.take(at + 1).last() == digits[at]);
            lemma_prefix_value(digits, at + 1);
        }
        if total > max / 10 || d > max - total * 10 {
            return None;
        }
        total = total * 10 + d;
        i = i + 1;
    }
    assert(digits.take(digits.len() as int) == digits);
    Some(total)
}

/// `a` followed by `b`.
pub fn concat(a: &str, b: &str) -> (out: String)
    ensures
        out@ == a@ + b@,
{
    let mut out = a.to_owned();
    out.append(b);
    out
}

/// The decimal form of `n`, with a minus sign when it is negative.
pub open spec fn signed_decimal(n: int) -> Seq<char> {
    if n < 0 {
        seq!['-'] + decimal((-n) as nat)
    } else {
        decimal(n as nat)
    }
}

/// Writes `n` in decimal.
pub fn signed_decimal_of(n: i64) -> (out: String)
    ensures
        out@ == signed_decimal(n as int),
{
    if n < 0 {
        let size: u64 = (-(n + 1)) as u64 + 1;
        let digits = string_of(&decimal_of(size));
        let mut out = String::new();
        out.push('-');
        out.append(digits.as_str());
        assert(out@ == seq!['-'] + decimal((-n) as nat));
        out
    } else {
        string_of(&decimal_of(n as u64))
    }
}

/// The character of a hexadecimal digit, letters in lower case.
pub open spec fn hex_char(d: nat) -> char {
    if d < 10 {
        digit_char(d)
    } else {
        (87 + d) as char
    }
}

/// The hexadecimal form of `n`.
pub open spec fn hexadecimal(n: nat) -> Seq<char>
    decreases n,
{
    if n < 16 {
        seq![hex_char(n)]
    } else {
        hexadecimal(n / 16).push(hex_char(n % 16))
    }
}

/// Writes `n` in hexadecimal.
pub fn hexadecimal_of(n: u64) -> (out: String)
    ensures
        out@ == hexadecimal(n as nat),
    decreases n,
{
    let last: u64 = n % 16;
    let c: char = if last < 10 {
        (48 + last as u8) as char
    } else {
        (87 + last as u8) as char
    };
    let mut out = if n < 16 {
        String::new()
    } else {
        hexadecimal_of(n / 16)
    };
    out.push(c);
    assert(n < 16 ==> out@ == seq![c]);
    out
}

/// The words of `s` from `from` on, white space around them.
pub open spec fn words_from(s: Seq<char>, from: int) -> Seq<Seq<char>>
    decreases s.len() - from,
{
    let start = first_from(s, from, Class::NotWhite);
    let end = first_from(s, start, Class::White);
    if from < 0 || start < from || start >= s.len() || end <= start || end > s.len() {
        Seq::empty()
    } else {
        seq![s.subrange(start, end)] + words_from(s, end)
    }
}

/// The words of `s`.
pub fn split_words(s: &Vec<char>) -> (words: Vec<Vec<char>>)
    ensures
        views(words@) == words_from(s@, 0),
{
    let mut words: Vec<Vec<char>> = Vec::new();
    let mut from: usize = 0;
    assert(views(words@) + words_from(s@, 0) == words_from(s@, 0));
    loop
        invariant
            from <= s@.len(),
            views(words@) + words_from(s@, from as int) == words_from(s@, 0),
        decreases s@.len() - from,
    {
        let start: usize = find_from(s, from, Class::NotWhite);
        let end: usize = find_from(s, start, Class::White);
        proof {
            lemma_first_from(s@, from as int, Class::NotWhite);
            lemma_first_from(s@, start as int, Class::White);
        }
        if start >= s.len() {
            assert(views(words@) == words_from(s@, 0));
            return words;
        }
        assert(end > start) by {
            assert(!is_white(s@[start as int]));
        }
        let word = slice_of(s, start, end);
        let ghost before = words@;
        words.push(word);
        assert(views(words@) == views(before).push(word@));
        assert(views(words@) + words_from(s@, end as int) == views(before) + (seq![word@]
            + words_from(s@, end as int)));
        from = end;
    }
}

/// Whether `s` has no white space in it.
pub open spec fn is_solid(s: Seq<char>) -> bool {
    forall|i: int| 0 <= i < s.len() ==> !is_white(#[trigger] s[i])
}

/// A search finds the place it is told of.
pub proof fn lemma_found_at(s: Seq<char>, from: int, class: Class, at: int)
    requires
        0 <= from <= at <= s.len(),
        at < s.len() ==> class.has(s[at]),
        forall|i: int| from <= i < at ==> !class.has(#[trigger] s[i]),
    ensures
        first_from(s, from, class) == at,
    decreases at - from,
{
    if from < at {
        lemma_found_at(s, from + 1, class, at);
    }
}

/// A word that starts at `start`, or after white space from `from` to there, and
/// ends at `end` comes first.
pub proof fn lemma_first_word(s: Seq<char>, from: int, start: int, end: int)
    requires
        0 <= from <= start < end <= s.len(),
        forall|i: int| from <= i < start ==> is_white(#[trigger] s[i]),
        forall|i: int| start <= i < end ==> !is_white(#[trigger] s[i]),
        end < s.len() ==> is_white(s[end]),
    ensures
        words_from(s, from) == seq![s.subrange(start, end)] + words_from(s, end),
{
    lemma_found_at(s, from, Class::NotWhite, start);
    lemma_found_at(s, start, Class::White, end);
}

/// `s` with spaces in front of it, at least `width` characters in all.
pub open spec fn padded_left(s: Seq<char>, width: int) -> Seq<char> {
    if s.len() >= width {
        s
    } else {
        Seq::new((width - s.len()) as nat, |i: int| ' ') + s
    }
}

/// `s` with spaces after it, at least `width` characters in all.
pub open spec fn padded_right(s: Seq<char>, width: int) -> Seq<char> {
    if s.len() >= width {
        s
    } else {
        s + Seq::new((width - s.len()) as nat, |i: int| ' ')
    }
}

fn spaces(n: usize) -> (out: String)
    ensures
        out@ == Seq::new(n as nat, |i: int| ' '),
{
    let mut out = String::new();
    let mut i: usize = 0;
    while i < n
        invariant
            i <= n,
            out@ == Seq::new(i as nat, |i: int| ' '),
        decreases n - i,
    {
        out.push(' ');
        i = i + 1;
    }
    out
}

/// Puts spaces in front of `s` until it is `width` characters long.
pub fn pad_left(s: &str, width: usize) -> (out: String)
    ensures
        out@ == padded_left(s@, width as int),
{
    let len: usize = chars_of(s).len();
    if len >= width {
        return s.to_owned();
    }
    concat(spaces(width - len).as_str(), s)
}

/// Puts spaces after `s` until it is `width` characters long.
pub fn pad_right(s: &str, width: usize) -> (out: String)
    ensures
        out@ == padded_right(s@, width as int),
{
    let len: usize = chars_of(s).len();
    if len >= width {
        return s.to_owned();
    }
    concat(s, spaces(width - len).as_str())
}

/// Whether every character of `s` is ASCII.
pub open spec fn is_ascii_text(s: Seq<char>) -> bool {
    forall|i: int| 0 <= i < s.len() ==> #[trigger] s[i] <= '\u{7f}'
}

/// `s` in Unicode's lower case.
pub uninterp spec fn lowercase(s: Seq<char>) -> Seq<char>;

/// `str::to_lowercase`: a function of the text alone, which turns ASCII text into
/// ASCII lower case. What it makes of other characters is left to Unicode.
#[verifier::external_body]
pub(crate) fn to_lowercase(s: &str) -> (lower: String)
    ensures
        lower@ == lowercase(s@),
        is_ascii_text(s@) ==> lower@ == ascii_lowered(s@),
{
    s.to_lowercase()
}

/// Trimming to a class takes off what is not of it at both ends and nothing else.
pub proof fn law_trim_takes_the_ends(left: Seq<char>, s: Seq<char>, right: Seq<char>, class: Class)
    requires
        forall|i: int| 0 <= i < left.len() ==> !class.has(#[trigger] left[i]),
        forall|i: int| 0 <= i < right.len() ==> !class.has(#[trigger] right[i]),
        s.len() > 0 ==> class.has(s[0]) && class.has(s.last()),
    ensures
        trimmed_to(left + s + right, class) == s,
{
    let all = left + s + right;
    let start = left.len() as int;
    let end = start + s.len();
    assert forall|i: int| 0 <= i < start implies !class.has(#[trigger] all[i]) by {
        assert(all[i] == left[i]);
    }
    assert forall|i: int| end <= i < all.len() implies !class.has(#[trigger] all[i]) by {
        assert(all[i] == right[i - end]);
    }
    if s.len() == 0 {
        assert(forall|i: int| 0 <= i < all.len() ==> !class.has(#[trigger] all[i]));
        lemma_found_at(all, 0, class, all.len() as int);
    } else {
        assert(all[start] == s[0] && all[end - 1] == s.last());
        lemma_found_at(all, 0, class, start);
        lemma_last_to(all, all.len() as int, class);
        let to = last_to(all, all.len() as int, class);
        assert(to >= end);
        assert(to == end);
        assert(all.subrange(start, end) == s);
    }
}

/// Trimming takes off the white space at both ends and nothing else.
pub proof fn law_trim_takes_the_blanks(left: Seq<char>, s: Seq<char>, right: Seq<char>)
    requires
        forall|i: int| 0 <= i < left.len() ==> is_white(#[trigger] left[i]),
        forall|i: int| 0 <= i < right.len() ==> is_white(#[trigger] right[i]),
        s.len() > 0 ==> !is_white(s[0]) && !is_white(s.last()),
    ensures
        trim_spec(left + s + right) == s,
{
    law_trim_takes_the_ends(left, s, right, Class::NotWhite);
}

/// A text that is split has one piece more than the characters it is split at: a piece
/// without any of them comes first, and what follows the first of them is split on.
pub proof fn law_split_takes_piece_by_piece(piece: Seq<char>, c: char, rest: Seq<char>, class: Class)
    requires
        forall|i: int| 0 <= i < piece.len() ==> !class.has(#[trigger] piece[i]),
        class.has(c),
    ensures
        split_on(piece, class) == seq![piece],
        split_on(piece + seq![c] + rest, class) == seq![piece] + split_on(rest, class),
{
    let all = piece + seq![c] + rest;
    let at = piece.len() as int;
    lemma_found_at(piece, 0, class, at);
    assert forall|i: int| 0 <= i < at implies !class.has(#[trigger] all[i]) by {
        assert(all[i] == piece[i]);
    }
    assert(all[at] == c);
    lemma_found_at(all, 0, class, at);
    assert(all.take(at) == piece);
    assert(all.skip(at + 1) == rest);
}

/// A number is read from its decimal form, also behind a plus sign, as long as it is no
/// larger than what is allowed; a text with anything but digits is no number.
pub proof fn law_numbers_read_back(n: nat, max: nat, s: Seq<char>)
    ensures
        n <= max ==> parsed(decimal(n), max) == Some(n),
        n <= max ==> parsed(seq!['+'] + decimal(n), max) == Some(n),
        n > max ==> parsed(decimal(n), max) is None,
        parsed(Seq::<char>::empty(), max) is None,
        (exists|i: int| 1 <= i < s.len() && !('0' <= #[trigger] s[i] <= '9')) ==> parsed(
            s,
            max,
        ) is None,
        s.len() > 0 && s[0] != '+' && !('0' <= s[0] <= '9') ==> parsed(s, max) is None,
{
    law_decimal_reads_back(n);
    let d = decimal(n);
    assert(is_digit(d[0]));
    assert((seq!['+'] + d).skip(1) == d);
    if exists|i: int| 1 <= i < s.len() && !('0' <= #[trigger] s[i] <= '9') {
        let i = choose|i: int| 1 <= i < s.len() && !('0' <= #[trigger] s[i] <= '9');
        if s[0] == '+' {
            assert(!is_digit(s.skip(1)[i - 1]));
        } else {
            assert(!is_digit(s[i]));
        }
    }
    if s.len() > 0 && s[0] != '+' && !('0' <= s[0] <= '9') {
        assert(!is_digit(s[0]));
    }
}

/// Putting text in lower case keeps every character in its place, changes the letters
/// `A` to `Z` alone, and leaves nothing to change.
pub proof fn law_lower_case_is_settled(s: Seq<char>, i: int)
    requires
        0 <= i < s.len(),
    ensures
        ascii_lowered(s).len() == s.len(),
        !('A' <= s[i] <= 'Z') ==> ascii_lowered(s)[i] == s[i],
        'A' <= s[i] <= 'Z' ==> ascii_lowered(s)[i] as int == s[i] as int + ('a' as int - 'A' as int),
        ascii_lowered(ascii_lowered(s)) == ascii_lowered(s),
{
    assert(ascii_lowered(ascii_lowered(s)) =~= ascii_lowered(s));
}

/// Text that is padded is as wide as asked, or as it was if wider, and loses nothing:
/// what is added is spaces on the one side.
pub proof fn law_padding_adds_spaces(s: Seq<char>, width: int, i: int)
    requires
        0 <= width,
    ensures
        ({
            let n = if s.len() < width {
                width - s.len()
            } else {
                0
            };
            let left = padded_left(s, width);
            let right = padded_right(s, width);
            &&& left.len() == s.len() + n
            &&& right.len() == s.len() + n
            &&& left.skip(n) == s
            &&& right.take(s.len() as int) == s
            &&& 0 <= i < n ==> left[i] == ' ' && right[s.len() + i] == ' '
        }),
{
    let n = if s.len() < width {
        width - s.len()
    } else {
        0
    };
    assert(padded_left(s, width).skip(n) == s);
    assert(padded_right(s, width).take(s.len() as int) == s);
}

/// White space is the space and the five characters from the tab to the carriage return;
/// beyond ASCII it is the next line, the spaces that do not break, those of a width of
/// their own, and the separators of lines and paragraphs. Nothing else is.
pub proof fn law_white_space(c: char)
    ensures
        c <= '\u{7f}' ==> (is_white(c) <==> c == ' ' || '\u{9}' <= c <= '\u{d}'),
        '\u{7f}' < c < '\u{1680}' ==> (is_white(c) <==> c == '\u{85}' || c == '\u{a0}'),
        '\u{1680}' <= c < '\u{2000}' ==> (is_white(c) <==> c == '\u{1680}'),
        '\u{2000}' <= c <= '\u{2029}' ==> (is_white(c) <==> c <= '\u{200a}' || c >= '\u{2028}'),
        c > '\u{2029}' ==> (is_white(c) <==> c == '\u{202f}' || c == '\u{205f}' || c
            == '\u{3000}'),
{
}

/// What follows a prefix is all that follows it, and a text that does not start with the
/// prefix has no such rest.
pub proof fn law_prefix_is_taken_off(prefix: Seq<char>, rest: Seq<char>, s: Seq<char>)
    ensures
        after_prefix(prefix + rest, prefix) == Some(rest),
        !prefix.is_prefix_of(s) ==> after_prefix(s, prefix) is None,
{
    let n = prefix.len() as int;
    assert((prefix + rest).subrange(0, n) == prefix);
    assert((prefix + rest).skip(n) == rest);
}

/// A hexadecimal form has a digit for each four bits, the highest first, `a` for ten and
/// so on to `f`.
pub proof fn law_hexadecimal_digit_by_digit(n: nat, d: nat)
    requires
        d < 16,
    ensures
        hexadecimal(d).len() == 1,
        d < 10 ==> hexadecimal(d)[0] as int == '0' as int + d,
        d >= 10 ==> hexadecimal(d)[0] as int == 'a' as int + d - 10,
        n > 0 ==> hexadecimal(16 * n + d) == hexadecimal(n) + hexadecimal(d),
{
    if n > 0 {
        assert((16 * n + d) / 16 == n && (16 * n + d) % 16 == d);
        assert(hexadecimal(16 * n + d) =~= hexadecimal(n) + hexadecimal(d));
    }
}

/// A decimal form has a digit for each power of ten, the highest first.
pub proof fn law_decimal_digit_by_digit(n: nat, d: nat)
    requires
        d < 10,
    ensures
        decimal(d).len() == 1,
        decimal(d)[0] as int == '0' as int + d,
        n > 0 ==> decimal(10 * n + d) == decimal(n) + decimal(d),
{
    if n > 0 {
        assert((10 * n + d) / 10 == n && (10 * n + d) % 10 == d);
        assert(decimal(10 * n + d) =~= decimal(n) + decimal(d));
    }
}

/// A number below zero is that above zero with a minus sign before it.
pub proof fn law_minus_comes_before(n: nat)
    ensures
        signed_decimal(n as int) == decimal(n),
        n > 0 ==> signed_decimal(-n) == "-"@ + decimal(n),
{
    reveal_strlit("-");
    assert("-"@ == seq!['-']);
}

} // verus!
