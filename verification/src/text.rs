//! Character-level text operations: numerals, searching, trimming and joining.

use vstd::prelude::*;

verus! {

/// A decimal digit.
pub open spec fn is_digit(c: char) -> bool {
    '0' <= c <= '9'
}

/// A lower-case hexadecimal digit.
pub open spec fn is_lower_hex_digit(c: char) -> bool {
    is_digit(c) || 'a' <= c <= 'f'
}

/// The number that a digit stands for.
pub open spec fn digit_value(c: char) -> nat {
    (c as int - '0' as int) as nat
}

/// The digit that stands for a number below ten.
pub open spec fn digit_char(n: nat) -> char {
    ('0' as int + n) as char
}

/// One or more decimal digits.
pub open spec fn is_numeral(s: Seq<char>) -> bool {
    &&& s.len() > 0
    &&& forall|i: int| 0 <= i < s.len() ==> is_digit(#[trigger] s[i])
}

/// The number that a run of digits denotes in base ten.
pub open spec fn numeral_value(s: Seq<char>) -> nat
    decreases s.len(),
{
    if s.len() == 0 {
        0
    } else {
        numeral_value(s.drop_last()) * 10 + digit_value(s.last())
    }
}

/// The base-ten digits of a number, without leading zeros.
pub open spec fn decimal(n: nat) -> Seq<char>
    decreases n,
{
    if n < 10 {
        seq![digit_char(n)]
    } else {
        decimal(n / 10).push(digit_char(n % 10))
    }
}

/// The base-ten digits of a number, behind a minus sign where it is negative.
pub open spec fn signed_decimal(n: int) -> Seq<char> {
    if n < 0 {
        seq!['-'] + decimal((-n) as nat)
    } else {
        decimal(n as nat)
    }
}

/// The number that an unsigned integer literal denotes: digits behind an optional plus sign.
pub open spec fn unsigned_literal(s: Seq<char>) -> Option<nat> {
    let digits = if s.len() > 0 && s[0] == '+' {
        s.skip(1)
    } else {
        s
    };
    if is_numeral(digits) {
        Some(numeral_value(digits))
    } else {
        None
    }
}

/// The number that a signed integer literal denotes: digits behind an optional sign.
pub open spec fn signed_literal(s: Seq<char>) -> Option<int> {
    if s.len() > 0 && s[0] == '-' {
        if is_numeral(s.skip(1)) {
            Some(-numeral_value(s.skip(1)))
        } else {
            None
        }
    } else {
        match unsigned_literal(s) {
            Some(n) => Some(n as int),
            None => None,
        }
    }
}

/// The unsigned literal read as a 32-bit number; nothing where it does not fit.
pub open spec fn parsed_u32(s: Seq<char>) -> Option<u32> {
    match unsigned_literal(s) {
        Some(n) => if n <= u32::MAX {
            Some(n as u32)
        } else {
            None
        },
        None => None,
    }
}

/// The signed literal read as a 32-bit number; nothing where it does not fit.
pub open spec fn parsed_i32(s: Seq<char>) -> Option<i32> {
    match signed_literal(s) {
        Some(n) => if i32::MIN <= n <= i32::MAX {
            Some(n as i32)
        } else {
            None
        },
        None => None,
    }
}

/// `part` stands in `whole` at position `at`.
pub open spec fn occurs_at(whole: Seq<char>, part: Seq<char>, at: int) -> bool {
    &&& 0 <= at <= whole.len() - part.len()
    &&& whole.subrange(at, at + part.len()) == part
}

/// `part` stands somewhere in `whole`.
pub open spec fn occurs_in(whole: Seq<char>, part: Seq<char>) -> bool {
    exists|at: int| occurs_at(whole, part, at)
}

/// The position of the last occurrence of a character, or -1.
pub open spec fn last_position(s: Seq<char>, c: char) -> int
    decreases s.len(),
{
    if s.len() == 0 {
        -1
    } else if s.last() == c {
        s.len() - 1
    } else {
        last_position(s.drop_last(), c)
    }
}

/// A character with the Unicode property White_Space.
pub open spec fn is_white_space(c: char) -> bool {
    let n = c as u32;
    ||| 0x9 <= n <= 0xd
    ||| n == 0x20
    ||| n == 0x85
    ||| n == 0xa0
    ||| n == 0x1680
    ||| 0x2000 <= n <= 0x200a
    ||| n == 0x2028
    ||| n == 0x2029
    ||| n == 0x202f
    ||| n == 0x205f
    ||| n == 0x3000
}

/// No character but white space.
pub open spec fn is_blank_text(s: Seq<char>) -> bool {
    forall|i: int| 0 <= i < s.len() ==> is_white_space(#[trigger] s[i])
}

proof fn lemma_numeral_value_grows(s: Seq<char>, n: int)
    requires
        0 <= n <= s.len(),
    ensures
        numeral_value(s.take(n)) <= numeral_value(s),
    decreases s.len() - n,
{
    if n == s.len() {
        assert(s.take(n) == s);
    } else {
        lemma_numeral_value_grows(s, n + 1);
        assert(s.take(n + 1).drop_last() == s.take(n));
    }
}

proof fn lemma_decimal_is_numeral(n: nat)
    ensures
        is_numeral(decimal(n)),
        numeral_value(decimal(n)) == n,
    decreases n,
{
    if n < 10 {
        assert(decimal(n) == seq![digit_char(n)]);
        assert(decimal(n).drop_last() == Seq::<char>::empty());
        assert(numeral_value(decimal(n).drop_last()) == 0);
    } else {
        lemma_decimal_is_numeral(n / 10);
        assert(decimal(n).drop_last() == decimal(n / 10));
        assert(decimal(n).last() == digit_char(n % 10));
    }
}

/// A number written in base ten reads back as the same number.
pub proof fn decimal_reads_back(n: nat)
    ensures
        unsigned_literal(decimal(n)) == Some(n),
{
    lemma_decimal_is_numeral(n);
    assert(is_digit(decimal(n)[0]));
}

/// A signed number written in base ten reads back as the same number.
pub proof fn signed_decimal_reads_back(n: int)
    ensures
        signed_literal(signed_decimal(n)) == Some(n),
{
    if n < 0 {
        lemma_decimal_is_numeral((-n) as nat);
        assert(signed_decimal(n).skip(1) == decimal((-n) as nat));
    } else {
        decimal_reads_back(n as nat);
        lemma_decimal_is_numeral(n as nat);
        assert(is_digit(decimal(n as nat)[0]));
    }
}

/// Two numbers with the same digits are the same number.
pub proof fn decimal_is_injective(m: nat, n: nat)
    requires
        decimal(m) == decimal(n),
    ensures
        m == n,
{
    lemma_decimal_is_numeral(m);
    lemma_decimal_is_numeral(n);
}

/// The characters of a text.
pub fn chars_of(s: &str) -> (chars: Vec<char>)
    ensures
        chars@ == s@,
{
    let mut chars: Vec<char> = Vec::new();
    for c in it: s.chars()
        invariant
            chars@ == it.seq().take(it.index() as int),
            it.seq() == s@,
    {
        chars.push(c);
    }
    chars
}

/// Whether two texts hold the same characters.
pub fn same(a: &str, b: &str) -> (equal: bool)
    ensures
        equal == (a@ == b@),
{
    a.to_owned() == b.to_owned()
}

/// Whether a list of texts holds one with these characters.
pub fn listed(names: &Vec<String>, name: &str) -> (found: bool)
    ensures
        found == exists|i: int| 0 <= i < names@.len() && (#[trigger] names@[i])@ == name@,
{
    let mut i: usize = 0;
    while i < names.len()
        invariant
            i <= names@.len(),
            forall|j: int| 0 <= j < i ==> (#[trigger] names@[j])@ != name@,
        decreases names@.len() - i,
    {
        if same(names[i].as_str(), name) {
            return true;
        }
        i += 1;
    }
    false
}

/// Whether `s` begins with `prefix`.
pub fn begins_with(s: &str, prefix: &str) -> (found: bool)
    ensures
        found == prefix@.is_prefix_of(s@),
{
    let n: usize = prefix.unicode_len();
    if n > s.unicode_len() {
        return false;
    }
    let found = same(s.substring_char(0, n), prefix);
    proof {
        if prefix@.is_prefix_of(s@) {
            assert(s@.subrange(0, n as int) == prefix@);
        }
    }
    found
}

/// Whether `needle` stands somewhere in `s`.
pub fn contains(s: &str, needle: &str) -> (found: bool)
    ensures
        found == occurs_in(s@, needle@),
{
    let n: usize = needle.unicode_len();
    let len: usize = s.unicode_len();
    if n > len {
        return false;
    }
    let mut at: usize = 0;
    while at <= len - n
        invariant
            len == s@.len(),
            n == needle@.len(),
            n <= len,
            at <= len - n + 1,
            forall|j: int| 0 <= j < at ==> !occurs_at(s@, needle@, j),
        decreases len - n + 1 - at,
    {
        if same(s.substring_char(at, at + n), needle) {
            assert(occurs_at(s@, needle@, at as int));
            return true;
        }
        if at == len - n {
            return false;
        }
        at += 1;
    }
    false
}

/// Whether a character stands somewhere in `s`.
pub fn contains_char(s: &str, c: char) -> (found: bool)
    ensures
        found == s@.contains(c),
{
    let chars = chars_of(s);
    let mut i: usize = 0;
    while i < chars.len()
        invariant
            i <= chars@.len(),
            chars@ == s@,
            forall|j: int| 0 <= j < i ==> s@[j] != c,
        decreases chars@.len() - i,
    {
        if chars[i] == c {
            assert(s@[i as int] == c);
            return true;
        }
        i += 1;
    }
    false
}

/// What the last position of a character says.
pub proof fn lemma_last_position(s: Seq<char>, c: char)
    ensures
        -1 <= last_position(s, c) < s.len(),
        last_position(s, c) >= 0 ==> s[last_position(s, c)] == c,
        last_position(s, c) < 0 ==> !s.contains(c),
    decreases s.len(),
{
    if s.len() > 0 {
        lemma_last_position(s.drop_last(), c);
        if s.last() != c && last_position(s, c) < 0 {
            assert forall|i: int| 0 <= i < s.len() implies s[i] != c by {
                if i < s.len() - 1 {
                    assert(s.drop_last()[i] == s[i]);
                    assert(!s.drop_last().contains(c));
                }
            }
        }
    }
}

/// The text before and the text behind the last occurrence of a character.
pub open spec fn split_at_last(s: Seq<char>, c: char) -> Option<(Seq<char>, Seq<char>)> {
    let at = last_position(s, c);
    if at < 0 {
        None
    } else {
        Some((s.take(at), s.skip(at + 1)))
    }
}

/// A text in two parts, of which the second does not hold the character between them, falls into
/// these parts.
pub proof fn parts_split_again(front: Seq<char>, c: char, back: Seq<char>)
    requires
        !back.contains(c),
    ensures
        split_at_last(front + seq![c] + back, c) == Some((front, back)),
    decreases back.len(),
{
    let whole = front + seq![c] + back;
    if back.len() == 0 {
        assert(whole.last() == c);
    } else {
        assert(back.last() != c) by {
            assert(back[back.len() - 1] == back.last());
        }
        assert forall|i: int| 0 <= i < back.len() - 1 implies back.drop_last()[i] != c by {
            assert(back[i] == back.drop_last()[i]);
        }
        parts_split_again(front, c, back.drop_last());
        assert(whole.drop_last() == front + seq![c] + back.drop_last());
        lemma_last_position(whole.drop_last(), c);
        let shorter = whole.drop_last();
        let at = last_position(shorter, c);
        assert(shorter.take(at).len() == front.len());
    }
    assert(whole.take(front.len() as int) == front);
    assert(whole.skip(front.len() as int + 1) == back);
}

/// A number written in base ten holds nothing but digits.
pub proof fn decimal_holds_digits(n: nat, i: int)
    requires
        0 <= i < decimal(n).len(),
    ensures
        is_digit(decimal(n)[i]),
{
    lemma_decimal_is_numeral(n);
}

/// Splits a text at the last occurrence of a character, which neither part holds.
pub fn rsplit_once<'a>(s: &'a str, c: char) -> (parts: Option<(&'a str, &'a str)>)
    ensures
        match parts {
            Some((before, behind)) => split_at_last(s@, c) == Some((before@, behind@)),
            None => split_at_last(s@, c) is None,
        },
{
    let chars = chars_of(s);
    let len: usize = chars.len();
    assert(s@.take(len as int) == s@);
    let mut i: usize = len;
    while i > 0
        invariant
            len == s@.len(),
            chars@ == s@,
            i <= len,
            last_position(s@.take(i as int), c) == last_position(s@, c),
        decreases i,
    {
        assert(s@.take(i as int).drop_last() == s@.take(i - 1));
        if chars[i - 1] == c {
            let before = s.substring_char(0, i - 1);
            let behind = s.substring_char(i, len);
            return Some((before, behind));
        }
        i -= 1;
    }
    None
}

/// Whether a character has the Unicode property White_Space.
pub fn white_space(c: char) -> (found: bool)
    ensures
        found == is_white_space(c),
{
    let n: u32 = c as u32;
    (0x9 <= n && n <= 0xd) || n == 0x20 || n == 0x85 || n == 0xa0 || n == 0x1680 || (0x2000 <= n
        && n <= 0x200a) || n == 0x2028 || n == 0x2029 || n == 0x202f || n == 0x205f || n == 0x3000
}

/// Whether a text is empty or white space throughout.
pub fn is_blank(s: &str) -> (blank: bool)
    ensures
        blank == is_blank_text(s@),
{
    let chars = chars_of(s);
    let mut i: usize = 0;
    while i < chars.len()
        invariant
            i <= chars@.len(),
            chars@ == s@,
            forall|j: int| 0 <= j < i ==> is_white_space(#[trigger] s@[j]),
        decreases chars@.len() - i,
    {
        if !white_space(chars[i]) {
            assert(!is_white_space(s@[i as int]));
            return false;
        }
        i += 1;
    }
    true
}

/// A text without the white space that it begins with.
pub open spec fn without_front_space(s: Seq<char>) -> Seq<char>
    decreases s.len(),
{
    if s.len() > 0 && is_white_space(s[0]) {
        without_front_space(s.skip(1))
    } else {
        s
    }
}

/// A text without the white space that it ends with.
pub open spec fn without_back_space(s: Seq<char>) -> Seq<char>
    decreases s.len(),
{
    if s.len() > 0 && is_white_space(s.last()) {
        without_back_space(s.drop_last())
    } else {
        s
    }
}

/// A text without the white space around it.
pub open spec fn trimmed(s: Seq<char>) -> Seq<char> {
    without_back_space(without_front_space(s))
}

/// Takes the white space around a text off.
pub fn trim<'a>(s: &'a str) -> (core: &'a str)
    ensures
        core@ == trimmed(s@),
{
    let chars = chars_of(s);
    let len: usize = chars.len();
    let mut from: usize = 0;
    assert(s@.skip(0) == s@);
    while from < len && white_space(chars[from])
        invariant
            from <= len,
            len == s@.len(),
            chars@ == s@,
            without_front_space(s@.skip(from as int)) == without_front_space(s@),
        decreases len - from,
    {
        assert(s@.skip(from as int).skip(1) == s@.skip(from + 1));
        from += 1;
    }
    let ghost front = s@.skip(from as int);
    assert(without_front_space(s@) == front);
    let mut to: usize = len;
    assert(s@.subrange(from as int, len as int) == front);
    while to > from && white_space(chars[to - 1])
        invariant
            from <= to <= len,
            len == s@.len(),
            chars@ == s@,
            without_back_space(s@.subrange(from as int, to as int)) == without_back_space(front),
        decreases to - from,
    {
        assert(s@.subrange(from as int, to as int).drop_last() == s@.subrange(
            from as int,
            to - 1,
        ));
        to -= 1;
    }
    s.substring_char(from, to)
}

/// Reads the digits of `chars` from `start` on, where they denote a number up to `limit`.
fn parse_digits(chars: &Vec<char>, start: usize, limit: u64) -> (value: Option<u64>)
    requires
        start <= chars@.len(),
        limit <= u32::MAX,
    ensures
        match value {
            Some(n) => is_numeral(chars@.skip(start as int)) && n == numeral_value(
                chars@.skip(start as int),
            ) && n <= limit,
            None => is_numeral(chars@.skip(start as int)) ==> numeral_value(
                chars@.skip(start as int),
            ) > limit,
        },
{
    let ghost digits = chars@.skip(start as int);
    if start == chars.len() {
        return None;
    }
    let mut value: u64 = 0;
    let mut i: usize = start;
    assert(digits.take(0) == Seq::<char>::empty());
    while i < chars.len()
        invariant
            start <= i <= chars@.len(),
            digits == chars@.skip(start as int),
            value == numeral_value(digits.take(i - start)),
            value <= limit <= u32::MAX,
            forall|j: int| 0 <= j < i - start ==> is_digit(#[trigger] digits[j]),
        decreases chars@.len() - i,
    {
        let c: char = chars[i];
        assert(digits[i - start] == c);
        if !('0' <= c && c <= '9') {
            assert(!is_digit(digits[i - start]));
            return None;
        }
        proof {
            assert(digits.take(i - start + 1).drop_last() == digits.take(i - start));
            lemma_numeral_value_grows(digits, i - start + 1);
        }
        let digit: u64 = (c as u32 - '0' as u32) as u64;
        value = value * 10 + digit;
        if value > limit {
            return None;
        }
        i += 1;
    }
    assert(digits.take(i - start) == digits);
    Some(value)
}

/// Reads a base-ten unsigned 32-bit number.
pub fn parse_u32(s: &str) -> (value: Option<u32>)
    ensures
        value == parsed_u32(s@),
{
    let chars = chars_of(s);
    let start: usize = if chars.len() > 0 && chars[0] == '+' {
        1
    } else {
        0
    };
    assert(s@.skip(0) == s@);
    match parse_digits(&chars, start, 0xffff_ffff) {
        Some(n) => Some(n as u32),
        None => None,
    }
}

/// Reads a base-ten signed 32-bit number.
pub fn parse_i32(s: &str) -> (value: Option<i32>)
    ensures
        value == parsed_i32(s@),
{
    let chars = chars_of(s);
    if chars.len() > 0 && chars[0] == '-' {
        return match parse_digits(&chars, 1, 0x8000_0000) {
            Some(n) => Some((-(n as i64)) as i32),
            None => None,
        };
    }
    let start: usize = if chars.len() > 0 && chars[0] == '+' {
        1
    } else {
        0
    };
    assert(s@.skip(0) == s@);
    match parse_digits(&chars, start, 0x7fff_ffff) {
        Some(n) => Some(n as i32),
        None => None,
    }
}

/// The text of one digit.
fn digit_text(n: u64) -> (s: &'static str)
    requires
        n < 10,
    ensures
        s@ == seq![digit_char(n as nat)],
{
    proof {
        reveal_strlit("0");
        reveal_strlit("1");
        reveal_strlit("2");
        reveal_strlit("3");
        reveal_strlit("4");
        reveal_strlit("5");
        reveal_strlit("6");
        reveal_strlit("7");
        reveal_strlit("8");
        reveal_strlit("9");
    }
    let s: &'static str = match n {
        0 => "0",
        1 => "1",
        2 => "2",
        3 => "3",
        4 => "4",
        5 => "5",
        6 => "6",
        7 => "7",
        8 => "8",
        _ => "9",
    };
    assert(s@ =~= seq![digit_char(n as nat)]);
    s
}

/// Writes a number in base ten.
pub fn decimal_text(n: u64) -> (s: String)
    ensures
        s@ == decimal(n as nat),
    decreases n,
{
    if n < 10 {
        digit_text(n).to_string()
    } else {
        let mut s = decimal_text(n / 10);
        s.append(digit_text(n % 10));
        s
    }
}

/// Writes a signed number in base ten.
pub fn signed_decimal_text(n: i64) -> (s: String)
    ensures
        s@ == signed_decimal(n as int),
{
    if n < 0 {
        proof {
            reveal_strlit("-");
        }
        let magnitude: u64 = (-(n as i128)) as u64;
        let mut s = "-".to_string();
        s.append(decimal_text(magnitude).as_str());
        assert(s@ == signed_decimal(n as int));
        s
    } else {
        decimal_text(n as u64)
    }
}

/// Joins two texts.
pub fn join2(a: &str, b: &str) -> (s: String)
    ensures
        s@ == a@ + b@,
{
    let mut s = a.to_string();
    s.append(b);
    s
}

/// Joins three texts.
pub fn join3(a: &str, b: &str, c: &str) -> (s: String)
    ensures
        s@ == a@ + b@ + c@,
{
    let mut s = join2(a, b);
    s.append(c);
    s
}

/// Joins four texts.
pub fn join4(a: &str, b: &str, c: &str, d: &str) -> (s: String)
    ensures
        s@ == a@ + b@ + c@ + d@,
{
    let mut s = join3(a, b, c);
    s.append(d);
    s
}

/// Joins five texts.
pub fn join5(a: &str, b: &str, c: &str, d: &str, e: &str) -> (s: String)
    ensures
        s@ == a@ + b@ + c@ + d@ + e@,
{
    let mut s = join3(a, b, c);
    s.append(d);
    s.append(e);
    s
}

/// Joins seven texts.
pub fn join7(a: &str, b: &str, c: &str, d: &str, e: &str, f: &str, g: &str) -> (s: String)
    ensures
        s@ == a@ + b@ + c@ + d@ + e@ + f@ + g@,
{
    let mut s = join5(a, b, c, d, e);
    s.append(f);
    s.append(g);
    s
}

/// The parts of a text that was split make it up again, and the second does not hold the character
/// that it was split at.
pub proof fn lemma_split_joins(s: Seq<char>, c: char)
    ensures
        split_at_last(s, c) matches Some((front, back)) ==> s == front + seq![c] + back
            && !back.contains(c),
        split_at_last(s, c) is None <==> !s.contains(c),
    decreases s.len(),
{
    lemma_last_position(s, c);
    let at = last_position(s, c);
    if at >= 0 {
        assert(s =~= s.take(at) + seq![c] + s.skip(at + 1));
        assert(s[at] == c);
        if s.last() != c {
            lemma_split_joins(s.drop_last(), c);
            assert forall|i: int| 0 <= i < s.skip(at + 1).len() implies #[trigger] s.skip(
                at + 1,
            )[i] != c by {
                if i < s.skip(at + 1).len() - 1 {
                    assert(s.drop_last().skip(at + 1)[i] == s.skip(at + 1)[i]);
                }
            }
        }
    }
}

/// What a text is trimmed to is what stands between its white space: a core that neither begins
/// nor ends with any is what is left, whatever white space stands around it.
pub proof fn white_space_around_is_dropped(front: Seq<char>, core: Seq<char>, back: Seq<char>)
    requires
        is_blank_text(front),
        is_blank_text(back),
        core.len() > 0 ==> !is_white_space(core[0]) && !is_white_space(core.last()),
    ensures
        trimmed(front + core + back) == core,
    decreases front.len() + back.len(),
{
    let s = front + core + back;
    if front.len() > 0 {
        let shorter = front.skip(1);
        assert(is_white_space(front[0]));
        assert(s[0] == front[0]);
        assert(s.skip(1) =~= shorter + core + back);
        assert(is_blank_text(shorter)) by {
            assert forall|i: int| 0 <= i < shorter.len() implies is_white_space(
                #[trigger] shorter[i],
            ) by {
                assert(is_white_space(front[i + 1]));
            }
        }
        white_space_around_is_dropped(shorter, core, back);
    } else if core.len() == 0 {
        assert(s =~= back);
        lemma_blank_is_trimmed(back);
    } else {
        assert(s[0] == core[0]);
        lemma_back_is_dropped(core, back);
        assert(s =~= core + back);
    }
}

proof fn lemma_blank_is_trimmed(s: Seq<char>)
    requires
        is_blank_text(s),
    ensures
        without_front_space(s) == Seq::<char>::empty(),
        trimmed(s) == Seq::<char>::empty(),
    decreases s.len(),
{
    if s.len() > 0 {
        let shorter = s.skip(1);
        assert(is_white_space(s[0]));
        assert forall|i: int| 0 <= i < shorter.len() implies is_white_space(
            #[trigger] shorter[i],
        ) by {
            assert(is_white_space(s[i + 1]));
        }
        lemma_blank_is_trimmed(shorter);
    } else {
        assert(s =~= Seq::<char>::empty());
    }
}

proof fn lemma_back_is_dropped(core: Seq<char>, back: Seq<char>)
    requires
        is_blank_text(back),
        core.len() > 0,
        !is_white_space(core.last()),
    ensures
        without_back_space(core + back) == core,
    decreases back.len(),
{
    let s = core + back;
    if back.len() > 0 {
        assert(is_white_space(back[back.len() - 1]));
        assert(s.last() == back.last());
        assert(s.drop_last() =~= core + back.drop_last());
        lemma_back_is_dropped(core, back.drop_last());
    } else {
        assert(s =~= core);
    }
}

/// Spaces, tabs and line ends are white space; no visible character of the ASCII range is, nor
/// any control character but those from the tab to the carriage return.
pub proof fn visible_characters_are_no_space(c: char)
    ensures
        c == ' ' || c == '\t' || c == '\n' || c == '\r' ==> is_white_space(c),
        '!' <= c && c <= '~' ==> !is_white_space(c),
        c < '\t' ==> !is_white_space(c),
        '\r' < c && c < ' ' ==> !is_white_space(c),
{
}

/// A digit behind a numeral makes ten times the number and the digit of it; leading zeros and a
/// plus sign do not change it, and what is empty or holds another character is no number.
pub proof fn literals_are_read_in_base_ten(s: Seq<char>, n: nat)
    requires
        n < 10,
    ensures
        is_numeral(s) ==> unsigned_literal(s.push(digit_char(n))) == Some(
            (unsigned_literal(s)->Some_0 * 10 + n) as nat,
        ),
        unsigned_literal(seq![digit_char(n)]) == Some(n),
        is_numeral(s) ==> unsigned_literal(seq!['0'] + s) == unsigned_literal(s),
        is_numeral(s) ==> unsigned_literal(seq!['+'] + s) == unsigned_literal(s),
        is_numeral(s) ==> signed_literal(seq!['-'] + s) == Some(-(unsigned_literal(s)->Some_0)),
        is_numeral(s) ==> signed_literal(s) == Some(unsigned_literal(s)->Some_0 as int),
        unsigned_literal(Seq::empty()) is None,
        signed_literal(Seq::empty()) is None,
        unsigned_literal(seq!['-'] + s) is None,
        forall|i: int|
            0 < i < s.len() && !is_digit(#[trigger] s[i]) ==> unsigned_literal(s) is None
                && signed_literal(s) is None,
{
    let longer = s.push(digit_char(n));
    let one = seq![digit_char(n)];
    let zeroed = seq!['0'] + s;
    let plus = seq!['+'] + s;
    let minus = seq!['-'] + s;
    assert(longer.drop_last() =~= s);
    assert(plus.skip(1) =~= s);
    assert(minus.skip(1) =~= s);
    assert(minus[0] == '-');
    reveal_with_fuel(numeral_value, 2);
    assert(one.drop_last() =~= Seq::<char>::empty());
    if is_numeral(s) {
        assert(is_digit(s[0]));
        assert(is_numeral(longer)) by {
            assert forall|i: int| 0 <= i < longer.len() implies is_digit(#[trigger] longer[i]) by {
                if i < s.len() {
                    assert(is_digit(s[i]));
                }
            }
        }
        assert(longer[0] == s[0]);
        assert(is_numeral(zeroed)) by {
            assert forall|i: int| 0 <= i < zeroed.len() implies is_digit(#[trigger] zeroed[i]) by {
                if i > 0 {
                    assert(is_digit(s[i - 1]));
                }
            }
        }
        lemma_leading_zero(s);
    }
    assert forall|i: int| 0 < i < s.len() && !is_digit(#[trigger] s[i]) implies unsigned_literal(
        s,
    ) is None && signed_literal(s) is None by {
        assert(s.skip(1)[i - 1] == s[i]);
    }
}

proof fn lemma_leading_zero(s: Seq<char>)
    ensures
        numeral_value(seq!['0'] + s) == numeral_value(s),
    decreases s.len(),
{
    let zeroed = seq!['0'] + s;
    if s.len() > 0 {
        assert(zeroed.drop_last() =~= seq!['0'] + s.drop_last());
        assert(zeroed.last() == s.last());
        lemma_leading_zero(s.drop_last());
    } else {
        reveal_with_fuel(numeral_value, 2);
        assert(zeroed.drop_last() =~= Seq::<char>::empty());
        assert(zeroed.last() == '0');
    }
}

/// A number is read if and only if 32 bits hold it, and then as it is.
pub proof fn only_fitting_numbers_are_read(s: Seq<char>)
    ensures
        parsed_u32(s) is Some <==> unsigned_literal(s) is Some && unsigned_literal(s)->Some_0
            < 0x1_0000_0000,
        parsed_u32(s) is Some ==> parsed_u32(s)->Some_0 == unsigned_literal(s)->Some_0,
        parsed_i32(s) is Some <==> signed_literal(s) is Some && -0x8000_0000
            <= signed_literal(s)->Some_0 < 0x8000_0000,
        parsed_i32(s) is Some ==> parsed_i32(s)->Some_0 == signed_literal(s)->Some_0,
{
}

/// A text occurs in every text that holds it between a front and a back.
pub proof fn parts_occur_in_the_whole(front: Seq<char>, part: Seq<char>, back: Seq<char>)
    ensures
        occurs_in(front + part + back, part),
        occurs_in(part, part),
        part.len() > 0 ==> !occurs_in(Seq::empty(), part),
{
    let at = front.len() as int;
    assert((front + part + back).subrange(at, at + part.len()) =~= part);
    assert(occurs_at(front + part + back, part, at));
    assert(part.subrange(0, part.len() as int) =~= part);
    assert(occurs_at(part, part, 0));
}

/// A text that occurs in another has a front and a back there.
pub proof fn occurrences_have_a_front_and_a_back(whole: Seq<char>, part: Seq<char>)
    requires
        occurs_in(whole, part),
    ensures
        part.len() <= whole.len(),
        exists|at: int|
            0 <= at <= whole.len() - part.len() && whole == #[trigger] whole.take(at) + part
                + whole.skip(at + part.len()),
        forall|c: char| part.contains(c) ==> #[trigger] whole.contains(c),
{
    let at = choose|at: int| occurs_at(whole, part, at);
    assert(whole =~= whole.take(at) + part + whole.skip(at + part.len())) by {
        assert forall|i: int| at <= i < at + part.len() implies whole[i] == part[i - at] by {
            assert(whole.subrange(at, at + part.len())[i - at] == part[i - at]);
        }
    }
    assert forall|c: char| part.contains(c) implies #[trigger] whole.contains(c) by {
        let k = choose|k: int| 0 <= k < part.len() && part[k] == c;
        assert(whole.subrange(at, at + part.len())[k] == c);
        assert(whole[at + k] == c);
    }
}

} // verus!
