//! Text: searching, joining and rendering, stated over sequences of characters.
use vstd::prelude::*;
use vstd::string::*;

verus! {

/// `String::push` of std: the character is added at the end, and nothing else changes.
pub assume_specification[ String::push ](s: &mut String, ch: char)
    ensures
        final(s)@ == old(s)@.push(ch),
;

/// `part` stands in `s` from position `at` on.
pub open spec fn stands_at(s: Seq<char>, part: Seq<char>, at: int) -> bool {
    0 <= at && at + part.len() <= s.len() && s.subrange(at, at + part.len()) == part
}

/// `s` ends with `part`.
pub open spec fn ends_with(s: Seq<char>, part: Seq<char>) -> bool {
    stands_at(s, part, s.len() - part.len())
}

/// `part` occurs somewhere in `s`.
pub open spec fn contains(s: Seq<char>, part: Seq<char>) -> bool {
    exists|at: int| stands_at(s, part, at)
}

/// The character of a hexadecimal digit, in lower case.
pub open spec fn hex_char(digit: int) -> char {
    if digit == 0 { '0' }
    else if digit == 1 { '1' }
    else if digit == 2 { '2' }
    else if digit == 3 { '3' }
    else if digit == 4 { '4' }
    else if digit == 5 { '5' }
    else if digit == 6 { '6' }
    else if digit == 7 { '7' }
    else if digit == 8 { '8' }
    else if digit == 9 { '9' }
    else if digit == 10 { 'a' }
    else if digit == 11 { 'b' }
    else if digit == 12 { 'c' }
    else if digit == 13 { 'd' }
    else if digit == 14 { 'e' }
    else { 'f' }
}

/// The digits of `n` in the given base, most significant first, without leading zeros.
/// Zero has one digit.
pub open spec fn digits(n: nat, base: nat) -> Seq<char>
    decreases n,
{
    if base < 2 || n < base {
        seq![hex_char(n as int)]
    } else {
        proof {
            assert(n / base < n) by (nonlinear_arith)
                requires
                    n >= base,
                    base >= 2,
            ;
        }
        digits(n / base, base).push(hex_char((n % base) as int))
    }
}

/// The characters of a string.
pub fn chars_of(s: &str) -> (chars: Vec<char>)
    ensures
        chars@ == s@,
{
    let mut chars: Vec<char> = Vec::new();
    for c in it: s.chars()
        invariant
            it.seq() == s@,
            chars@ == s@.take(it.index()),
    {
        chars.push(c);
        assert(s@.take(it.index() + 1) =~= s@.take(it.index()).push(c));
    }
    assert(s@.take(s@.len() as int) =~= s@);
    chars
}

/// Whether `part` stands in `s` from position `at` on.
fn stands_here(s: &Vec<char>, part: &Vec<char>, at: usize) -> (found: bool)
    requires
        at + part@.len() <= s@.len(),
    ensures
        found == stands_at(s@, part@, at as int),
{
    let total: usize = s.len();
    let mut i: usize = 0;
    while i < part.len()
        invariant
            i <= part@.len(),
            at + part@.len() <= total,
            total == s@.len(),
            forall|k: int| 0 <= k < i ==> s@[at + k] == part@[k],
        decreases part@.len() - i,
    {
        if s[at + i] != part[i] {
            assert(s@.subrange(at as int, at + part@.len())[i as int] != part@[i as int]);
            return false;
        }
        i = i + 1;
    }
    assert(s@.subrange(at as int, at + part@.len()) =~= part@);
    true
}

/// Whether `s` ends with `part`.
pub fn text_ends_with(s: &Vec<char>, part: &str) -> (found: bool)
    ensures
        found == ends_with(s@, part@),
{
    let part = chars_of(part);
    if part.len() > s.len() {
        return false;
    }
    stands_here(s, &part, s.len() - part.len())
}

/// Whether `part` occurs in `s`.
pub fn text_contains(s: &Vec<char>, part: &str) -> (found: bool)
    ensures
        found == contains(s@, part@),
{
    let wanted = chars_of(part);
    if wanted.len() > s.len() {
        return false;
    }
    let last: usize = s.len() - wanted.len();
    let mut at: usize = 0;
    while at < last
        invariant
            wanted@ == part@,
            last == s@.len() - part@.len(),
            at <= last,
            forall|k: int| 0 <= k < at ==> !stands_at(s@, part@, k),
        decreases last - at,
    {
        if stands_here(s, &wanted, at) {
            return true;
        }
        at = at + 1;
    }
    stands_here(s, &wanted, last)
}

/// Whether two texts are the same.
pub fn text_is(a: &str, b: &str) -> (same: bool)
    ensures
        same == (a@ == b@),
{
    let left = chars_of(a);
    let right = chars_of(b);
    if left.len() != right.len() {
        return false;
    }
    let same = stands_here(&left, &right, 0);
    assert(left@.subrange(0, left@.len() as int) =~= left@);
    same
}

/// The text made of the given characters.
pub fn text_of(chars: &Vec<char>) -> (text: String)
    ensures
        text@ == chars@,
{
    let mut text = String::new();
    let mut i: usize = 0;
    while i < chars.len()
        invariant
            i <= chars@.len(),
            text@ == chars@.take(i as int),
        decreases chars@.len() - i,
    {
        text.push(chars[i]);
        assert(chars@.take(i + 1) =~= chars@.take(i as int).push(chars@[i as int]));
        i = i + 1;
    }
    assert(chars@.take(i as int) =~= chars@);
    text
}

/// Two texts, one after the other.
pub fn join2(a: &str, b: &str) -> (text: String)
    ensures
        text@ == a@ + b@,
{
    let mut text = a.to_owned();
    text.append(b);
    text
}

/// Three texts, one after the other.
pub fn join3(a: &str, b: &str, c: &str) -> (text: String)
    ensures
        text@ == a@ + b@ + c@,
{
    let mut text = join2(a, b);
    text.append(c);
    text
}

/// The first `count` characters of a text, or all of it where it is shorter.
pub fn first_chars(s: &str, count: usize) -> (text: String)
    ensures
        text@ == s@.take(if s@.len() < count { s@.len() as int } else { count as int }),
{
    let mut chars = chars_of(s);
    if chars.len() > count {
        chars.truncate(count);
    }
    let text = text_of(&chars);
    assert(text@ =~= s@.take(if s@.len() < count { s@.len() as int } else { count as int }));
    text
}

/// The character of one digit.
fn digit_char(digit: u64) -> (c: char)
    requires
        digit < 16,
    ensures
        c == hex_char(digit as int),
{
    match digit {
        0 => '0',
        1 => '1',
        2 => '2',
        3 => '3',
        4 => '4',
        5 => '5',
        6 => '6',
        7 => '7',
        8 => '8',
        9 => '9',
        10 => 'a',
        11 => 'b',
        12 => 'c',
        13 => 'd',
        14 => 'e',
        _ => 'f',
    }
}

/// A number in the given base.
fn render(n: u64, base: u64) -> (text: String)
    requires
        2 <= base <= 16,
    ensures
        text@ == digits(n as nat, base as nat),
    decreases n,
{
    if n < base {
        let mut text = String::new();
        text.push(digit_char(n));
        assert(text@ =~= seq![hex_char(n as int)]);
        text
    } else {
        proof {
            assert(n / base < n) by (nonlinear_arith)
                requires
                    n >= base,
                    base >= 2,
            ;
            assert(n % base < base) by (nonlinear_arith)
                requires
                    base >= 2,
            ;
        }
        let mut text = render(n / base, base);
        text.push(digit_char(n % base));
        text
    }
}

/// A number in decimal.
pub fn decimal(n: u64) -> (text: String)
    ensures
        text@ == digits(n as nat, 10),
{
    render(n, 10)
}

/// A text without the characters `c` at its two ends.
pub open spec fn trimmed(s: Seq<char>, c: char) -> Seq<char>
    decreases s.len(),
{
    if s.len() > 0 && s[0] == c {
        trimmed(s.drop_first(), c)
    } else if s.len() > 0 && s.last() == c {
        trimmed(s.drop_last(), c)
    } else {
        s
    }
}

/// A text without the characters `c` at its two ends.
pub fn trim_char(s: &str, c: char) -> (text: String)
    ensures
        text@ == trimmed(s@, c),
{
    let chars = chars_of(s);
    let mut start: usize = 0;
    let mut end: usize = chars.len();
    assert(s@.subrange(0, end as int) =~= s@);
    while start < end && chars[start] == c
        invariant
            chars@ == s@,
            start <= end == chars@.len(),
            trimmed(s@, c) == trimmed(s@.subrange(start as int, end as int), c),
        decreases end - start,
    {
        let ghost part = s@.subrange(start as int, end as int);
        assert(part.drop_first() =~= s@.subrange(start + 1, end as int));
        start = start + 1;
    }
    while start < end && chars[end - 1] == c
        invariant
            chars@ == s@,
            start <= end <= chars@.len(),
            start < end ==> chars@[start as int] != c,
            trimmed(s@, c) == trimmed(s@.subrange(start as int, end as int), c),
        decreases end - start,
    {
        let ghost part = s@.subrange(start as int, end as int);
        assert(part.last() == chars@[end - 1]);
        assert(part.drop_last() =~= s@.subrange(start as int, end - 1));
        end = end - 1;
    }
    let ghost part = s@.subrange(start as int, end as int);
    proof {
        if start < end {
            assert(part[0] == chars@[start as int]);
            assert(part.last() == chars@[end - 1]);
        }
    }
    let mut text = String::new();
    let mut i: usize = start;
    assert(text@ =~= s@.subrange(start as int, start as int));
    while i < end
        invariant
            chars@ == s@,
            start <= i <= end <= chars@.len(),
            text@ == s@.subrange(start as int, i as int),
        decreases end - i,
    {
        text.push(chars[i]);
        assert(s@.subrange(start as int, i + 1) =~= s@.subrange(start as int, i as int).push(
            s@[i as int],
        ));
        i = i + 1;
    }
    text
}

/// Quotes around a text that has none at its ends are all that is trimmed.
pub proof fn lemma_trim_quoted(s: Seq<char>, c: char)
    requires
        s.len() > 0,
        s[0] != c,
        s.last() != c,
    ensures
        trimmed(seq![c] + s + seq![c], c) == s,
{
    let quoted = seq![c] + s + seq![c];
    assert(quoted.drop_first() =~= s.push(c));
    assert(s.push(c).drop_last() =~= s);
    assert(s.push(c)[0] == s[0]);
    assert(trimmed(s.push(c), c) == trimmed(s, c));
}

} // verus!
