//! Text as sequences of characters: what the capture code reads out of sysfs
//! files, helper messages and error texts, and how it writes its own messages.

use vstd::prelude::*;
use vstd::string::*;

verus! {

/// `String::push` appends one character.
pub assume_specification[ String::push ](string: &mut String, ch: char)
    ensures
        final(string)@ == old(string)@.push(ch),
;

/// The characters of Unicode's `White_Space` property.
pub open spec fn white_space(c: char) -> bool {
    let n = c as u32;
    ||| 9 <= n <= 13
    ||| n == 32
    ||| n == 133
    ||| n == 160
    ||| n == 5760
    ||| 8192 <= n <= 8202
    ||| n == 8232
    ||| n == 8233
    ||| n == 8239
    ||| n == 8287
    ||| n == 12288
}

/// `s` without its leading white space.
pub open spec fn trim_start(s: Seq<char>) -> Seq<char>
    decreases s.len(),
{
    if s.len() > 0 && white_space(s[0]) {
        trim_start(s.drop_first())
    } else {
        s
    }
}

/// `s` without its trailing white space.
pub open spec fn trim_end(s: Seq<char>) -> Seq<char>
    decreases s.len(),
{
    if s.len() > 0 && white_space(s.last()) {
        trim_end(s.drop_last())
    } else {
        s
    }
}

/// `s` without white space at either end.
pub open spec fn trimmed(s: Seq<char>) -> Seq<char> {
    trim_end(trim_start(s))
}

/// The ASCII lower case of one character; every other character stays.
pub open spec fn lower(c: char) -> char {
    if 'A' <= c <= 'Z' {
        (c as u8 + 32) as char
    } else {
        c
    }
}

/// ASCII lower case, character by character.
pub open spec fn lowered(s: Seq<char>) -> Seq<char> {
    s.map_values(|c: char| lower(c))
}

/// `part` stands in `s` at position `at`.
pub open spec fn occurs_at(s: Seq<char>, part: Seq<char>, at: int) -> bool {
    &&& 0 <= at
    &&& at + part.len() <= s.len()
    &&& s.subrange(at, at + part.len()) == part
}

/// `part` stands somewhere in `s`.
pub open spec fn contains(s: Seq<char>, part: Seq<char>) -> bool {
    exists|at: int| occurs_at(s, part, at)
}

/// What stands before and behind the first `c` of `s`.
pub open spec fn split_first(s: Seq<char>, c: char) -> Option<(Seq<char>, Seq<char>)> {
    if s.contains(c) {
        let at = s.index_of_first(c).unwrap();
        Some((s.take(at), s.skip(at + 1)))
    } else {
        None
    }
}

/// The first line of `s` that holds more than white space, without the white
/// space at its ends.
pub open spec fn first_line(s: Seq<char>) -> Option<Seq<char>>
    decreases s.len(),
{
    let line = match split_first(s, '\n') {
        Some((line, _)) => line,
        None => s,
    };
    if trimmed(line).len() > 0 {
        Some(trimmed(line))
    } else if s.contains('\n') {
        proof {
            s.index_of_first_ensures('\n');
        }
        first_line(s.skip(s.index_of_first('\n').unwrap() + 1))
    } else {
        None
    }
}

/// Orders texts as `str` does: by the first character in which they differ.
pub open spec fn before(a: Seq<char>, b: Seq<char>) -> bool
    decreases a.len(),
{
    if b.len() == 0 {
        false
    } else if a.len() == 0 {
        true
    } else if a[0] == b[0] {
        before(a.drop_first(), b.drop_first())
    } else {
        a[0] < b[0]
    }
}

pub open spec fn is_digit(c: char) -> bool {
    '0' <= c <= '9'
}

pub open spec fn all_digits(s: Seq<char>) -> bool {
    forall|i: int| 0 <= i < s.len() ==> is_digit(#[trigger] s[i])
}

/// The number that a sequence of decimal digits writes.
pub open spec fn decimal_value(s: Seq<char>) -> nat
    decreases s.len(),
{
    if s.len() == 0 {
        0
    } else {
        decimal_value(s.drop_last()) * 10 + (s.last() as u32 - '0' as u32) as nat
    }
}

/// A number as `usize::from_str` reads it: one `+` may lead, then digits alone.
pub open spec fn usize_value(s: Seq<char>) -> Option<usize> {
    let digits = if s.len() > 0 && s[0] == '+' {
        s.drop_first()
    } else {
        s
    };
    if digits.len() > 0 && all_digits(digits) && decimal_value(digits) <= usize::MAX {
        Some(decimal_value(digits) as usize)
    } else {
        None
    }
}

pub open spec fn digit(n: nat) -> char {
    ('0' as u32 + n) as char
}

/// `n` in decimal digits.
pub open spec fn decimal(n: nat) -> Seq<char>
    decreases n,
{
    if n < 10 {
        seq![digit(n)]
    } else {
        decimal(n / 10).push(digit(n % 10))
    }
}

/// `n` in decimal digits, with a sign where it is negative.
pub open spec fn signed_decimal(n: int) -> Seq<char> {
    if n < 0 {
        seq!['-'] + decimal((-n) as nat)
    } else {
        decimal(n as nat)
    }
}

/// The characters of `s`.
pub fn chars_of(s: &str) -> (chars: Vec<char>)
    ensures
        chars@ == s@,
{
    let mut chars: Vec<char> = Vec::new();
    for c in it: s.chars()
        invariant
            it.seq() == s@,
            chars@ == s@.take(it.index() as int),
    {
        chars.push(c);
    }
    chars
}

pub fn is_white_space(c: char) -> (found: bool)
    ensures
        found == white_space(c),
{
    let n: u32 = c as u32;
    (9 <= n && n <= 13) || n == 32 || n == 133 || n == 160 || n == 5760 || (8192 <= n && n <= 8202)
        || n == 8232 || n == 8233 || n == 8239 || n == 8287 || n == 12288
}

/// The ASCII lower case of one character.
pub fn lower_char(c: char) -> (l: char)
    ensures
        l == lower(c),
{
    if 'A' <= c && c <= 'Z' {
        (c as u8 + 32) as char
    } else {
        c
    }
}

/// `a` followed by `b`.
pub fn join(a: &str, b: &str) -> (text: String)
    ensures
        text@ == a@ + b@,
{
    let mut text = a.to_owned();
    text.append(b);
    text
}

/// `a`, `b` and `c`, one behind the other.
pub fn join3(a: &str, b: &str, c: &str) -> (text: String)
    ensures
        text@ == a@ + b@ + c@,
{
    let mut text = join(a, b);
    text.append(c);
    text
}

/// `a`, `b`, `c` and `d`, one behind the other.
pub fn join4(a: &str, b: &str, c: &str, d: &str) -> (text: String)
    ensures
        text@ == a@ + b@ + c@ + d@,
{
    let mut text = join3(a, b, c);
    text.append(d);
    text
}

/// `s` in ASCII lower case.
pub fn to_lower(s: &str) -> (l: String)
    ensures
        l@ == lowered(s@),
{
    let mut l = String::new();
    for c in it: s.chars()
        invariant
            it.seq() == s@,
            l@ == lowered(s@.take(it.index() as int)),
    {
        l.push(lower_char(c));
        assert(l@ =~= lowered(s@.take(it.index() + 1)));
    }
    assert(s@.take(s@.len() as int) =~= s@);
    l
}

proof fn lemma_trim_start(s: Seq<char>, from: int)
    requires
        0 <= from <= s.len(),
        forall|i: int| 0 <= i < from ==> white_space(#[trigger] s[i]),
        from < s.len() ==> !white_space(s[from]),
    ensures
        trim_start(s) == s.skip(from),
    decreases from,
{
    if from > 0 {
        lemma_trim_start(s.drop_first(), from - 1);
        assert(s.drop_first().skip(from - 1) =~= s.skip(from));
    } else {
        assert(s.skip(0) =~= s);
    }
}

proof fn lemma_trim_end(s: Seq<char>, to: int)
    requires
        0 <= to <= s.len(),
        forall|i: int| to <= i < s.len() ==> white_space(#[trigger] s[i]),
        to > 0 ==> !white_space(s[to - 1]),
    ensures
        trim_end(s) == s.take(to),
    decreases s.len() - to,
{
    if to < s.len() {
        lemma_trim_end(s.drop_last(), to);
        assert(s.drop_last().take(to) =~= s.take(to));
    } else {
        assert(s.take(to) =~= s);
    }
}

/// Trimming a line that neither begins nor ends with white space takes away its
/// newline alone.
pub proof fn lemma_trimmed_line(s: Seq<char>)
    requires
        s.len() > 0,
        !white_space(s[0]),
        !white_space(s.last()),
    ensures
        trimmed(s.push('\n')) == s,
{
    let line = s.push('\n');
    lemma_trim_start(line, 0);
    assert(line.skip(0) =~= line);
    lemma_trim_end(line, s.len() as int);
    assert(line.take(s.len() as int) =~= s);
}

/// `s` without white space at either end.
pub fn trim(s: &str) -> (t: &str)
    ensures
        t@ == trimmed(s@),
{
    let chars = chars_of(s);
    let mut from: usize = 0;
    while from < chars.len() && is_white_space(chars[from])
        invariant
            from <= chars.len(),
            chars@ == s@,
            forall|i: int| 0 <= i < from ==> white_space(#[trigger] s@[i]),
        decreases chars.len() - from,
    {
        from = from + 1;
    }
    let mut to: usize = chars.len();
    while to > from && is_white_space(chars[to - 1])
        invariant
            from <= to <= chars.len(),
            chars@ == s@,
            forall|i: int| to <= i < s@.len() ==> white_space(#[trigger] s@[i]),
        decreases to,
    {
        to = to - 1;
    }
    proof {
        lemma_trim_start(s@, from as int);
        let rest = s@.skip(from as int);
        assert forall|i: int| to - from <= i < rest.len() implies white_space(
            #[trigger] rest[i],
        ) by {
            assert(rest[i] == s@[i + from]);
        }
        lemma_trim_end(rest, to - from);
        assert(rest.take(to - from) =~= s@.subrange(from as int, to as int));
    }
    s.substring_char(from, to)
}

/// Whether `a` and `b` are the same text.
pub fn equals(a: &str, b: &str) -> (same: bool)
    ensures
        same == (a@ == b@),
{
    a.to_owned() == b.to_owned()
}

/// Whether `a` and `b` differ at most in the case of ASCII letters.
pub fn equals_ignoring_case(a: &str, b: &str) -> (same: bool)
    ensures
        same == (lowered(a@) == lowered(b@)),
{
    to_lower(a) == to_lower(b)
}

fn matches_at(s: &Vec<char>, part: &Vec<char>, at: usize) -> (found: bool)
    requires
        at + part@.len() <= s@.len(),
    ensures
        found == occurs_at(s@, part@, at as int),
{
    let ghost window = s@.subrange(at as int, at + part@.len());
    for i in 0..part.len()
        invariant
            at + part.len() <= s.len(),
            window == s@.subrange(at as int, at + part@.len()),
            forall|j: int| 0 <= j < i ==> s@[at + j] == #[trigger] part@[j],
    {
        if s[at + i] != part[i] {
            assert(window[i as int] != part@[i as int]);
            return false;
        }
    }
    assert(window =~= part@);
    true
}

/// Whether `part` stands somewhere in `s`.
pub fn has(s: &str, part: &str) -> (found: bool)
    ensures
        found == contains(s@, part@),
{
    let chars = chars_of(s);
    let wanted = chars_of(part);
    if wanted.len() > chars.len() {
        return false;
    }
    let last: usize = chars.len() - wanted.len();
    let mut at: usize = 0;
    loop
        invariant
            chars@ == s@,
            wanted@ == part@,
            at <= last,
            last == chars.len() - wanted.len(),
            forall|i: int| 0 <= i < at ==> !occurs_at(s@, part@, i),
        decreases last - at,
    {
        if matches_at(&chars, &wanted, at) {
            return true;
        }
        if at == last {
            return false;
        }
        at = at + 1;
    }
}

/// Whether `s` begins with `part`.
pub fn starts_with(s: &str, part: &str) -> (found: bool)
    ensures
        found == occurs_at(s@, part@, 0),
{
    let s = chars_of(s);
    let part = chars_of(part);
    part.len() <= s.len() && matches_at(&s, &part, 0)
}

/// Whether `c` stands in `s`.
pub fn has_char(s: &str, c: char) -> (found: bool)
    ensures
        found == s@.contains(c),
{
    for d in it: s.chars()
        invariant
            it.seq() == s@,
            forall|i: int| 0 <= i < it.index() ==> s@[i] != c,
    {
        if d == c {
            assert(s@[it.index() as int] == c);
            return true;
        }
    }
    false
}

/// What stands before and behind the first `c` of `s`.
pub fn split_once(s: &str, c: char) -> (parts: Option<(&str, &str)>)
    ensures
        match parts {
            Some((head, tail)) => split_first(s@, c) == Some((head@, tail@)),
            None => split_first(s@, c) is None,
        },
{
    let chars = chars_of(s);
    for i in 0..chars.len()
        invariant
            chars@ == s@,
            forall|j: int| 0 <= j < i ==> s@[j] != c,
    {
        if chars[i] == c {
            let head = s.substring_char(0, i);
            let tail = s.substring_char(i + 1, chars.len());
            proof {
                s@.index_of_first_ensures(c);
                assert(s@[i as int] == c);
                assert(s@.index_of_first(c) == Some(i as int));
                assert(s@.take(i as int) =~= head@);
                assert(s@.skip(i + 1) =~= tail@);
            }
            return Some((head, tail));
        }
    }
    None
}

/// The first line of `s` that holds more than white space, trimmed.
pub fn first_filled_line(s: &str) -> (found: Option<String>)
    ensures
        match found {
            Some(line) => first_line(s@) == Some(line@),
            None => first_line(s@) is None,
        },
{
    let mut rest: &str = s;
    loop
        invariant
            first_line(rest@) == first_line(s@),
        decreases rest@.len(),
    {
        match split_once(rest, '\n') {
            Some((line, tail)) => {
                let line = trim(line);
                if !line.is_empty() {
                    return Some(line.to_owned());
                }
                proof {
                    rest@.index_of_first_ensures('\n');
                }
                rest = tail;
            },
            None => {
                let line = trim(rest);
                if !line.is_empty() {
                    return Some(line.to_owned());
                }
                return None;
            },
        }
    }
}

/// Whether `a` sorts before `b`.
pub fn sorts_before(a: &str, b: &str) -> (less: bool)
    ensures
        less == before(a@, b@),
{
    let left = chars_of(a);
    let right = chars_of(b);
    let mut i: usize = 0;
    proof {
        assert(a@.skip(0) =~= a@);
        assert(b@.skip(0) =~= b@);
    }
    while i < left.len() && i < right.len()
        invariant
            left@ == a@,
            right@ == b@,
            i <= left.len(),
            i <= right.len(),
            before(a@, b@) == before(a@.skip(i as int), b@.skip(i as int)),
        decreases left.len() - i,
    {
        if left[i] != right[i] {
            return left[i] < right[i];
        }
        proof {
            assert(a@.skip(i as int).drop_first() =~= a@.skip(i + 1));
            assert(b@.skip(i as int).drop_first() =~= b@.skip(i + 1));
        }
        i = i + 1;
    }
    i < right.len()
}

/// No text sorts before itself.
pub proof fn lemma_before_irreflexive(a: Seq<char>)
    ensures
        !before(a, a),
    decreases a.len(),
{
    if a.len() > 0 {
        lemma_before_irreflexive(a.drop_first());
    }
}

pub proof fn lemma_before_transitive(a: Seq<char>, b: Seq<char>, c: Seq<char>)
    requires
        before(a, b),
        before(b, c),
    ensures
        before(a, c),
    decreases a.len(),
{
    if a.len() > 0 && b.len() > 0 && c.len() > 0 && a[0] == b[0] && b[0] == c[0] {
        lemma_before_transitive(a.drop_first(), b.drop_first(), c.drop_first());
    }
}

/// Of two different texts one sorts before the other.
pub proof fn lemma_before_total(a: Seq<char>, b: Seq<char>)
    ensures
        a == b || before(a, b) || before(b, a),
    decreases a.len(),
{
    if a.len() > 0 && b.len() > 0 && a[0] == b[0] {
        lemma_before_total(a.drop_first(), b.drop_first());
        if a.drop_first() == b.drop_first() {
            assert(a =~= seq![a[0]] + a.drop_first());
            assert(b =~= seq![b[0]] + b.drop_first());
        }
    } else if a.len() == 0 && b.len() == 0 {
        assert(a =~= b);
    }
}

/// What does not sort before a text that does not sort before a third does not
/// sort before the third either.
pub proof fn lemma_before_negatively_transitive(a: Seq<char>, b: Seq<char>, c: Seq<char>)
    ensures
        before(a, b) ==> !before(b, a),
        !before(a, b) && !before(b, c) ==> !before(a, c),
{
    lemma_before_irreflexive(a);
    if before(a, b) && before(b, a) {
        lemma_before_transitive(a, b, a);
    }
    if !before(a, b) && !before(b, c) && before(a, c) {
        lemma_before_total(a, b);
        lemma_before_total(b, c);
        if a != b && b != c {
            lemma_before_transitive(c, b, a);
            lemma_before_transitive(c, a, c);
            lemma_before_irreflexive(c);
        }
    }
}

proof fn lemma_prefix_value(s: Seq<char>, i: int)
    requires
        0 <= i <= s.len(),
    ensures
        decimal_value(s.take(i)) <= decimal_value(s),
    decreases s.len() - i,
{
    if i < s.len() {
        lemma_prefix_value(s, i + 1);
        assert(s.take(i + 1).drop_last() =~= s.take(i));
    } else {
        assert(s.take(i) =~= s);
    }
}

/// Reads a number as `usize::from_str` does.
pub fn parse_usize(s: &str) -> (n: Option<usize>)
    ensures
        n == usize_value(s@),
{
    let chars = chars_of(s);
    let start: usize = if chars.len() > 0 && chars[0] == '+' {
        1
    } else {
        0
    };
    let ghost digits = s@.skip(start as int);
    assert(start == 0 ==> digits =~= s@);
    assert(start == 1 ==> digits =~= s@.drop_first());
    if start == chars.len() {
        return None;
    }
    let mut value: usize = 0;
    for i in start..chars.len()
        invariant
            chars@ == s@,
            start <= 1,
            start < chars.len(),
            start == 1 <==> s@.len() > 0 && s@[0] == '+',
            digits == s@.skip(start as int),
            usize_value(s@) is Some ==> all_digits(digits) && decimal_value(digits) <= usize::MAX,
            digits == (if start == 1 { s@.drop_first() } else { s@ }),
            all_digits(digits.take(i - start)),
            decimal_value(digits.take(i - start)) == value,
    {
        let c: char = chars[i];
        assert(digits[i - start] == c);
        if c < '0' || c > '9' {
            assert(!is_digit(digits[i - start]));
            return None;
        }
        let d: usize = (c as u32 - '0' as u32) as usize;
        proof {
            lemma_prefix_value(digits, i + 1 - start);
            assert(digits.take(i + 1 - start).drop_last() =~= digits.take(i - start));
            assert(digits.take(i + 1 - start).last() == c);
        }
        let tens: usize = match value.checked_mul(10) {
            Some(tens) => tens,
            None => {
                return None;
            },
        };
        value = match tens.checked_add(d) {
            Some(sum) => sum,
            None => {
                return None;
            },
        };
    }
    assert(digits.take(digits.len() as int) =~= digits);
    Some(value)
}

/// Writes a number in decimal digits.
pub fn write_decimal(n: u64) -> (text: String)
    ensures
        text@ == decimal(n as nat),
    decreases n,
{
    let c: char = (48u8 + (n % 10) as u8) as char;
    let mut text = if n < 10 {
        String::new()
    } else {
        write_decimal(n / 10)
    };
    text.push(c);
    text
}

/// Writes a signed number in decimal digits.
pub fn write_signed_decimal(n: i64) -> (text: String)
    ensures
        text@ == signed_decimal(n as int),
{
    if n < 0 {
        let mut text = String::new();
        text.push('-');
        text.append(write_decimal((-(n + 1)) as u64 + 1).as_str());
        text
    } else {
        write_decimal(n as u64)
    }
}

/// Decimal digits are digits, at least one, and write the number.
pub proof fn lemma_decimal(n: nat)
    ensures
        decimal(n).len() > 0,
        all_digits(decimal(n)),
        decimal_value(decimal(n)) == n,
    decreases n,
{
    let last = seq![digit(n % 10)];
    assert(is_digit(digit(n % 10)));
    if n < 10 {
        assert(decimal(n) =~= last);
        assert(decimal(n).drop_last() =~= Seq::<char>::empty());
        assert(decimal_value(Seq::<char>::empty()) == 0);
    } else {
        lemma_decimal(n / 10);
        assert(decimal(n).drop_last() =~= decimal(n / 10));
    }
}

/// Reading back a number that was written in decimal digits gives the number.
pub proof fn law_decimal_reads_back(n: usize)
    ensures
        usize_value(decimal(n as nat)) == Some(n),
{
    lemma_decimal(n as nat);
    assert(is_digit(decimal(n as nat)[0]));
}

/// Parting a text at a character gives back the parts between which it stands for the
/// first time; without the character there is nothing to part at.
pub proof fn law_split_gives_the_parts(head: Seq<char>, tail: Seq<char>, c: char)
    requires
        !head.contains(c),
    ensures
        split_first(head.push(c) + tail, c) == Some((head, tail)),
        split_first(head, c) is None,
{
    let s = head.push(c) + tail;
    assert(s[head.len() as int] == c);
    assert(s.contains(c));
    s.index_of_first_ensures(c);
    let at = s.index_of_first(c).unwrap();
    if at < head.len() {
        assert(head[at] == c);
    }
    assert(s.take(at) =~= head);
    assert(s.skip(at + 1) =~= tail);
}

/// White space is what Unicode counts as such: the blanks and line ends of ASCII and of
/// Latin, the blanks of the general punctuation, and those of Ogham and of CJK.
pub proof fn law_white_space(c: char)
    ensures
        white_space(c) <==> {
            ||| c == ' ' || c == '\t' || c == '\n' || c == '\r'
            ||| c == '\u{b}' || c == '\u{c}' || c == '\u{85}' || c == '\u{a0}'
            ||| c == '\u{1680}' || '\u{2000}' <= c <= '\u{200a}'
            ||| c == '\u{2028}' || c == '\u{2029}' || c == '\u{202f}'
            ||| c == '\u{205f}' || c == '\u{3000}'
        },
{
}

proof fn lemma_trim_start_cuts(s: Seq<char>)
    ensures
        trim_start(s).len() <= s.len(),
        trim_start(s) == s.skip(s.len() - trim_start(s).len()),
        forall|i: int|
            0 <= i < s.len() - trim_start(s).len() ==> white_space(#[trigger] s[i]),
        trim_start(s).len() > 0 ==> !white_space(trim_start(s)[0]),
    decreases s.len(),
{
    if s.len() > 0 && white_space(s[0]) {
        let rest = s.drop_first();
        lemma_trim_start_cuts(rest);
        assert(rest.skip(rest.len() - trim_start(rest).len()) =~= s.skip(
            s.len() - trim_start(rest).len(),
        ));
        assert forall|i: int| 0 <= i < s.len() - trim_start(s).len() implies white_space(
            #[trigger] s[i],
        ) by {
            if i > 0 {
                assert(rest[i - 1] == s[i]);
            }
        }
    } else {
        assert(s.skip(0) =~= s);
    }
}

proof fn lemma_trim_end_cuts(s: Seq<char>)
    ensures
        trim_end(s).len() <= s.len(),
        trim_end(s) == s.take(trim_end(s).len() as int),
        forall|i: int| trim_end(s).len() <= i < s.len() ==> white_space(#[trigger] s[i]),
        trim_end(s).len() > 0 ==> !white_space(trim_end(s).last()),
    decreases s.len(),
{
    if s.len() > 0 && white_space(s.last()) {
        let rest = s.drop_last();
        lemma_trim_end_cuts(rest);
        assert(rest.take(trim_end(rest).len() as int) =~= s.take(trim_end(rest).len() as int));
        assert forall|i: int| trim_end(s).len() <= i < s.len() implies white_space(
            #[trigger] s[i],
        ) by {
            if i < s.len() - 1 {
                assert(rest[i] == s[i]);
            }
        }
    } else {
        assert(s.take(s.len() as int) =~= s);
    }
}

/// Trimming takes away white space at both ends, all of it and nothing else: it leaves
/// one stretch of the text, which neither starts nor ends with white space, and there
/// was nothing but white space around it.
pub proof fn law_trimming_takes_only_white_space(s: Seq<char>)
    ensures
        exists|from: int, to: int|
            0 <= from <= to <= s.len() && trimmed(s) == #[trigger] s.subrange(from, to) && (forall|
                i: int,
            |
                0 <= i < from || to <= i < s.len() ==> white_space(#[trigger] s[i])),
        trimmed(s).len() > 0 ==> !white_space(trimmed(s)[0]) && !white_space(trimmed(s).last()),
{
    let front = trim_start(s);
    let from = s.len() - front.len();
    let to = from + trim_end(front).len();
    lemma_trim_start_cuts(s);
    lemma_trim_end_cuts(front);
    assert(trimmed(s) =~= s.subrange(from, to));
    assert forall|i: int| 0 <= i < from || to <= i < s.len() implies white_space(
        #[trigger] s[i],
    ) by {
        if i >= to {
            assert(front[i - from] == s[i]);
        }
    }
    if trimmed(s).len() > 0 {
        assert(trimmed(s)[0] == front[0]);
    }
}

/// A text between white space is what is left of it, if it has no white space at its
/// own ends.
pub proof fn law_trimming_finds_the_text(head: Seq<char>, s: Seq<char>, tail: Seq<char>)
    requires
        forall|i: int| 0 <= i < head.len() ==> white_space(#[trigger] head[i]),
        forall|i: int| 0 <= i < tail.len() ==> white_space(#[trigger] tail[i]),
        s.len() > 0 ==> !white_space(s[0]) && !white_space(s.last()),
    ensures
        trimmed(head + s + tail) == s,
{
    let all = head + s + tail;
    let front = trim_start(all);
    let from = all.len() - front.len();
    let to = from + trim_end(front).len();
    lemma_trim_start_cuts(all);
    lemma_trim_end_cuts(front);
    assert(trimmed(all) =~= all.subrange(from, to));
    assert(forall|i: int| 0 <= i < head.len() ==> all[i] == head[i]);
    assert(forall|i: int| 0 <= i < s.len() ==> all[head.len() + i] == s[i]);
    assert(forall|i: int|
        0 <= i < tail.len() ==> all[head.len() + s.len() + i] == tail[i]);
    if s.len() > 0 {
        assert(from <= head.len()) by {
            if from > head.len() {
                assert(white_space(all[head.len() as int]));
            }
        }
        assert(front.len() > 0);
        assert(front[0] == all[from]);
        assert(from == head.len()) by {
            if from < head.len() {
                assert(white_space(head[from]));
            }
        }
        let last = head.len() + s.len() - 1;
        assert(all[last] == s.last());
        assert(to >= last + 1) by {
            if to < last + 1 {
                assert(white_space(front[last - from]));
            }
        }
        assert(trim_end(front).last() == all[to - 1]);
        assert(to == last + 1) by {
            if to > last + 1 {
                assert(white_space(tail[to - 1 - last - 1]));
            }
        }
        assert(all.subrange(from, to) =~= s);
    } else {
        assert forall|i: int| 0 <= i < all.len() implies white_space(#[trigger] all[i]) by {
            if i < head.len() {
                assert(white_space(head[i]));
            } else {
                assert(white_space(tail[i - head.len()]));
            }
        }
        if front.len() > 0 {
            assert(front[0] == all[from]);
        }
        assert(trimmed(all) =~= s);
    }
}

/// Lower case changes the letters from `A` to `Z` and nothing else, each to the one
/// that stands as far behind `a` as it stood behind `A`.
pub proof fn law_lower_case(s: Seq<char>, i: int)
    requires
        0 <= i < s.len(),
    ensures
        lowered(s).len() == s.len(),
        'A' <= s[i] <= 'Z' ==> lowered(s)[i] as u32 - 'a' as u32 == s[i] as u32 - 'A' as u32,
        !('A' <= s[i] <= 'Z') ==> lowered(s)[i] == s[i],
        lowered(lowered(s)) == lowered(s),
{
    assert forall|k: int| 0 <= k < s.len() implies #[trigger] lowered(lowered(s))[k] == lowered(
        s,
    )[k] by {}
    assert(lowered(lowered(s)) =~= lowered(s));
}

/// A text holds every part that stands between two others, and nothing else.
pub proof fn law_contains(s: Seq<char>, part: Seq<char>, head: Seq<char>, tail: Seq<char>)
    ensures
        contains(head + part + tail, part),
        contains(s, part) ==> exists|h: Seq<char>, t: Seq<char>| s == #[trigger] (h + part + t),
{
    let all = head + part + tail;
    assert(all.subrange(head.len() as int, (head.len() + part.len()) as int) =~= part);
    assert(occurs_at(all, part, head.len() as int));
    if contains(s, part) {
        let at = choose|at: int| occurs_at(s, part, at);
        let h = s.take(at);
        let t = s.skip(at + part.len());
        assert forall|i: int| 0 <= i < part.len() implies #[trigger] part[i] == s[at + i] by {
            assert(s.subrange(at, at + part.len())[i] == s[at + i]);
        }
        assert(s =~= h + part + t);
    }
}

/// A part stands at a place exactly if each of its characters stands where it would.
pub proof fn law_occurs_at(s: Seq<char>, part: Seq<char>, at: int)
    requires
        0 <= at,
        at + part.len() <= s.len(),
    ensures
        occurs_at(s, part, at) <==> forall|i: int|
            0 <= i < part.len() ==> #[trigger] s[at + i] == part[i],
{
    if forall|i: int| 0 <= i < part.len() ==> #[trigger] s[at + i] == part[i] {
        let found = s.subrange(at, at + part.len());
        assert forall|i: int| 0 <= i < part.len() implies #[trigger] found[i] == part[i] by {
            assert(s[at + i] == part[i]);
        }
        assert(found =~= part);
    }
    if occurs_at(s, part, at) {
        assert forall|i: int| 0 <= i < part.len() implies #[trigger] s[at + i] == part[i] by {
            assert(s.subrange(at, at + part.len())[i] == s[at + i]);
        }
    }
}

/// The first line counts if there is more than white space in it, and is trimmed; else
/// the lines behind it are looked at.
pub proof fn law_first_line_that_is_filled(line: Seq<char>, rest: Seq<char>)
    requires
        !line.contains('\n'),
    ensures
        trimmed(line).len() > 0 ==> first_line(line.push('\n') + rest) == Some(trimmed(line)),
        trimmed(line).len() == 0 ==> first_line(line.push('\n') + rest) == first_line(rest),
        trimmed(line).len() > 0 ==> first_line(line) == Some(trimmed(line)),
        trimmed(line).len() == 0 ==> first_line(line) is None,
{
    law_split_gives_the_parts(line, rest, '\n');
    let s = line.push('\n') + rest;
    assert(s.contains('\n')) by {
        assert(s[line.len() as int] == '\n');
    }
    s.index_of_first_ensures('\n');
    assert(split_first(s, '\n') == Some((line, rest)));
}

/// One text sorts before another exactly if, where they first differ, it has the
/// smaller character or ends.
pub proof fn law_before_by_the_first_difference(
    common: Seq<char>,
    a: Seq<char>,
    b: Seq<char>,
)
    requires
        a.len() == 0 || b.len() == 0 || a[0] != b[0],
    ensures
        before(common + a, common + b) <==> {
            ||| a.len() == 0 && b.len() > 0
            ||| a.len() > 0 && b.len() > 0 && a[0] < b[0]
        },
    decreases common.len(),
{
    let one = common + a;
    let other = common + b;
    if common.len() > 0 {
        law_before_by_the_first_difference(common.drop_first(), a, b);
        assert(one.drop_first() =~= common.drop_first() + a);
        assert(other.drop_first() =~= common.drop_first() + b);
        assert(one[0] == other[0]);
    } else {
        assert(one =~= a);
        assert(other =~= b);
    }
}

/// Each further digit makes a number ten times as large and adds its own value.
pub proof fn law_digits_are_decimal(s: Seq<char>, n: nat)
    requires
        n < 10,
    ensures
        decimal_value(Seq::empty()) == 0,
        decimal_value(s.push(digit(n))) == 10 * decimal_value(s) + n,
        digit(0) == '0',
        digit(n) as u32 == 48 + n,
{
    assert(s.push(digit(n)).drop_last() =~= s);
}

/// A number is read from digits alone, before which one plus sign may stand, as far as
/// it can be held; nothing else is a number.
pub proof fn law_what_is_a_number(digits: Seq<char>)
    ensures
        usize_value(digits) is Some ==> digits.len() > 0 && forall|i: int|
            0 < i < digits.len() ==> '0' <= #[trigger] digits[i] <= '9',
        usize_value(digits) is Some ==> '0' <= digits[0] <= '9' || (digits[0] == '+' && digits.len()
            > 1),
        (digits.len() > 0 && (forall|i: int|
            0 <= i < digits.len() ==> '0' <= #[trigger] digits[i] <= '9')) ==> {
            &&& usize_value(digits) is Some <==> decimal_value(digits) <= usize::MAX
            &&& usize_value(digits) matches Some(value) ==> value == decimal_value(digits)
            &&& usize_value(seq!['+'] + digits) == usize_value(digits)
        },
{
    if usize_value(digits) is Some && digits[0] == '+' {
        let rest = digits.drop_first();
        assert forall|i: int| 0 < i < digits.len() implies '0' <= #[trigger] digits[i] <= '9' by {
            assert(is_digit(rest[i - 1]));
        }
    } else if usize_value(digits) is Some {
        assert(is_digit(digits[0]));
        assert forall|i: int| 0 < i < digits.len() implies '0' <= #[trigger] digits[i] <= '9' by {
            assert(is_digit(digits[i]));
        }
    }
    if digits.len() > 0 && forall|i: int|
        0 <= i < digits.len() ==> '0' <= #[trigger] digits[i] <= '9' {
        assert(all_digits(digits));
        assert(digits[0] != '+');
        assert((seq!['+'] + digits).drop_first() =~= digits);
    }
}

/// A number is written in digits without a leading zero, and its digits have its
/// value.
pub proof fn law_decimal_is_short(n: nat)
    ensures
        decimal(n).len() > 0,
        decimal(n)[0] == '0' ==> n == 0 && decimal(n).len() == 1,
        forall|i: int| 0 <= i < decimal(n).len() ==> '0' <= #[trigger] decimal(n)[i] <= '9',
        decimal_value(decimal(n)) == n,
        signed_decimal(n as int) == decimal(n),
        n > 0 ==> signed_decimal(-(n as int)) == seq!['-'] + decimal(n),
    decreases n,
{
    lemma_decimal(n);
    assert forall|i: int| 0 <= i < decimal(n).len() implies '0' <= #[trigger] decimal(n)[i]
        <= '9' by {
        assert(is_digit(decimal(n)[i]));
    }
    if n >= 10 {
        law_decimal_is_short(n / 10);
    }
}

} // verus!
