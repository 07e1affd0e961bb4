//! What texts of numbers and hashes say, and how they are read back.
use crate::primitives::{BlockId, B256, U256};
use crate::text::{digits, hex_char, trimmed};
use vstd::prelude::*;

verus! {

/// The digit that a character stands for.
pub open spec fn digit_of(c: char) -> nat {
    if '0' <= c && c <= '9' {
        (c as u32 - '0' as u32) as nat
    } else {
        (c as u32 - 'a' as u32 + 10) as nat
    }
}

/// The number that digits stand for, the most significant first.
pub open spec fn number_of(text: Seq<char>, base: nat) -> nat
    decreases text.len(),
{
    if text.len() == 0 {
        0
    } else {
        number_of(text.drop_last(), base) * base + digit_of(text.last())
    }
}

/// A number is read back from its digits, which are digits of the base, the first of them not
/// zero but where it is alone.
pub proof fn law_number_is_read_back(n: nat, base: nat)
    requires
        2 <= base <= 16,
    ensures
        number_of(digits(n, base), base) == n,
        digits(n, base).len() > 0,
        digits(n, base).len() > 1 ==> digits(n, base)[0] != '0',
        forall|i: int| 0 <= i < digits(n, base).len() ==> digit_of(#[trigger] digits(n, base)[i])
            < base,
    decreases n,
{
    reveal_with_fuel(number_of, 2);
    if n < base {
        assert(digits(n, base).drop_last() =~= Seq::empty());
        assert(digit_of(hex_char(n as int)) == n);
        assert(number_of(digits(n, base).drop_last(), base) == 0);
        assert(digits(n, base).last() == hex_char(n as int));
        assert(0 * base == 0);
    } else {
        assert(n / base < n && n / base > 0) by (nonlinear_arith)
            requires
                n >= base,
                base >= 2,
        ;
        assert(n % base < base) by (nonlinear_arith)
            requires
                base >= 2,
        ;
        law_number_is_read_back(n / base, base);
        let front = digits(n / base, base);
        let all = digits(n, base);
        assert(all.drop_last() =~= front);
        assert(all[0] == front[0]);
        assert(digit_of(hex_char((n % base) as int)) == n % base);
        assert((n / base) * base + n % base == n) by (nonlinear_arith)
            requires
                base >= 2,
        ;
        assert(all.last() == hex_char((n % base) as int));
        assert(number_of(all, base) == number_of(front, base) * base + digit_of(all.last()));
        if front.len() == 1 {
            assert(front[0] == front.last());
            assert(number_of(front.drop_last(), base) == 0) by {
                assert(front.drop_last() =~= Seq::empty());
            }
            assert(digit_of('0') == 0);
        }
        assert forall|i: int| 0 <= i < all.len() implies digit_of(#[trigger] all[i]) < base by {
            if i < front.len() {
                assert(all[i] == front[i]);
            }
        }
    }
}

/// Two numbers with the same digits are one.
pub proof fn law_digits_tell_numbers_apart(one: nat, two: nat, base: nat)
    requires
        2 <= base <= 16,
        digits(one, base) == digits(two, base),
    ensures
        one == two,
{
    law_number_is_read_back(one, base);
    law_number_is_read_back(two, base);
}

/// What is left of a text without the characters before one place and from another on, which are
/// all the same.
pub open spec fn is_left(s: Seq<char>, c: char, left: Seq<char>, from: int, to: int) -> bool {
    &&& 0 <= from <= to <= s.len()
    &&& left == s.subrange(from, to)
    &&& forall|i: int| 0 <= i < from ==> #[trigger] s[i] == c
    &&& forall|i: int| to <= i < s.len() ==> #[trigger] s[i] == c
}

/// A trimmed text does not begin or end with the character, and is what stands between the
/// characters that were taken off.
pub proof fn law_trimmed_text_is_the_middle(s: Seq<char>, c: char) -> (ends: (int, int))
    ensures
        trimmed(s, c).len() > 0 ==> trimmed(s, c)[0] != c && trimmed(s, c).last() != c,
        is_left(s, c, trimmed(s, c), ends.0, ends.1),
    decreases s.len(),
{
    if s.len() > 0 && s[0] == c {
        let rest = s.drop_first();
        let (from, to) = law_trimmed_text_is_the_middle(rest, c);
        assert(rest.subrange(from, to) =~= s.subrange(from + 1, to + 1));
        assert forall|i: int| 0 <= i < from + 1 implies #[trigger] s[i] == c by {
            if i > 0 {
                assert(rest[i - 1] == s[i]);
            }
        }
        assert forall|i: int| to + 1 <= i < s.len() implies #[trigger] s[i] == c by {
            assert(rest[i - 1] == s[i]);
        }
        (from + 1, to + 1)
    } else if s.len() > 0 && s.last() == c {
        let rest = s.drop_last();
        let (from, to) = law_trimmed_text_is_the_middle(rest, c);
        assert(rest.subrange(from, to) =~= s.subrange(from, to));
        assert forall|i: int| 0 <= i < from implies #[trigger] s[i] == c by {
            assert(rest[i] == s[i]);
        }
        assert forall|i: int| to <= i < s.len() implies #[trigger] s[i] == c by {
            if i < rest.len() {
                assert(rest[i] == s[i]);
            }
        }
        (from, to)
    } else {
        assert(s.subrange(0, s.len() as int) =~= s);
        (0, s.len() as int)
    }
}

/// Words, numbers and names of blocks are told apart by their parts.
pub proof fn law_words_are_told_apart(one: B256, two: B256, number: U256, other: U256)
    ensures
        one.pair() == two.pair() <==> one == two,
        one.pair().0 == one.hi && one.pair().1 == one.lo,
        number.value() == number.hi * 0x1_0000_0000_0000_0000_0000_0000_0000_0000 + number.lo,
        number.value() == other.value() ==> number == other,
        match BlockId::of_hash(one) {
            BlockId::Hash(hash) => hash.block_hash == one && hash.require_canonical is None,
            BlockId::Number(_) => false,
        },
        one.text().len() == 66,
        one.text()[0] == '0' && one.text()[1] == 'x',
{
}

} // verus!
