//! The ISIN checksum formula, known as "modulus 10 'double-add-double' check
//! digit". The basic idea is to:
//!
//! 1. assign a numeric value to each character
//! 2. split that value into decimal digits
//! 3. iterate over the digits in reverse order
//! 4. double every other digit starting with the right-most one
//! 5. split that result into digits
//! 6. sum over all the digits
//! 7. calculate the sum mod 10
//! 8. compute 10 minus that value
//! 9. if the value is 10, return 0 else return the value itself
//!
//! Two interchangeable implementations are provided, and proved to return the
//! same answer on every valid input.
//!
//! `checksum_functional()` follows the steps above directly, expanding digits
//! on the fly. It is the readable reference form, and its specification
//! [`checksum_spec`] is the semantic definition of the checksum.
//!
//! `checksum_table()` is the faster form used by parsing and validation. For
//! every character value and step parity it looks up the precomputed net
//! effect on the running sum, and how far the character advances the step
//! counter that decides the next character's parity. The lemma
//! [`lemma_checksum_equivalence`] proves that it computes exactly the same
//! function as the reference form.

use vstd::arithmetic::div_mod::{lemma_add_mod_noop, lemma_add_mod_noop_right};
use vstd::prelude::*;

verus! {

/// True for the bytes the checksum is defined on: ASCII decimal digits and
/// uppercase ASCII letters.
pub open spec fn is_checksum_char(b: u8) -> bool {
    ('0' as u8) <= b <= ('9' as u8) || ('A' as u8) <= b <= ('Z' as u8)
}

/// True when every byte of the sequence is a checksum character.
pub open spec fn valid_checksum_input(s: Seq<u8>) -> bool {
    forall|i: int| 0 <= i < s.len() ==> is_checksum_char(#[trigger] s[i])
}

/// The numeric value of a checksum character: digit characters '0' through
/// '9' map to values 0 through 9, and letter characters 'A' through 'Z' map
/// to values 10 through 35.
pub open spec fn char_value_spec(b: u8) -> int
    recommends
        is_checksum_char(b),
{
    if ('0' as u8) <= b <= ('9' as u8) {
        b - ('0' as u8)
    } else {
        b - ('A' as u8) + 10
    }
}

/// The decimal digits of a character's value, most significant first: one
/// digit for a digit character, two digits for a letter character.
pub open spec fn char_value_digits(b: u8) -> Seq<u8>
    recommends
        is_checksum_char(b),
{
    let v = char_value_spec(b);
    if v >= 10 {
        seq![(v / 10) as u8, (v % 10) as u8]
    } else {
        seq![v as u8]
    }
}

/// The full digit expansion of a character sequence, in the order the
/// characters appear.
pub open spec fn value_digits(s: Seq<u8>) -> Seq<u8>
    recommends
        valid_checksum_input(s),
    decreases s.len(),
{
    if s.len() == 0 {
        Seq::empty()
    } else {
        value_digits(s.drop_last()) + char_value_digits(s.last())
    }
}

/// The sum of the decimal digits of `x`, for `x` below 100. Doubling a single
/// digit yields at most 18, so the doubled digits of the formula always fall
/// in this range.
pub open spec fn digit_sum(x: int) -> int {
    if x >= 10 {
        x / 10 + x % 10
    } else {
        x
    }
}

/// The double-add-double sum over an expanded digit sequence: walking the
/// digits from the right, every other digit - starting with the right-most
/// one when `double_last` is true - is doubled and re-split into digits
/// before being added.
pub open spec fn dad_sum(ds: Seq<u8>, double_last: bool) -> int
    decreases ds.len(),
{
    if ds.len() == 0 {
        0
    } else {
        (if double_last {
            digit_sum(2 * ds.last())
        } else {
            ds.last() as int
        }) + dad_sum(ds.drop_last(), !double_last)
    }
}

/// The double-add-double sum of a character sequence: the digit expansion is
/// walked from the right with the right-most digit doubled.
pub open spec fn checksum_sum(s: Seq<u8>) -> int
    recommends
        valid_checksum_input(s),
{
    dad_sum(value_digits(s), true)
}

/// The checksum of a character sequence, as the reference algorithm defines
/// it: `10 - (sum mod 10)`, with a result of exactly 10 reported as 0.
pub open spec fn checksum_spec(s: Seq<u8>) -> int
    recommends
        valid_checksum_input(s),
{
    if checksum_sum(s) % 10 == 0 {
        0
    } else {
        10 - checksum_sum(s) % 10
    }
}

/// The net value a character adds to the sum when the step count at the start
/// of processing that character is even. Even steps go through doubling, so a
/// digit character contributes its doubled-and-resplit value; a letter
/// character contributes the doubled-and-resplit low digit plus the high
/// digit, which lands on an odd step.
pub open spec fn even_contribution(v: int) -> int
    recommends
        0 <= v < 36,
{
    if v < 10 {
        digit_sum(2 * v)
    } else {
        digit_sum(2 * (v % 10)) + v / 10
    }
}

/// The net value a character adds to the sum when the step count at the start
/// of processing that character is odd: the mirror image of
/// [`even_contribution`].
pub open spec fn odd_contribution(v: int) -> int
    recommends
        0 <= v < 36,
{
    if v < 10 {
        v
    } else {
        v % 10 + digit_sum(2 * (v / 10))
    }
}

/// The double-add-double sum of a character sequence computed character by
/// character from the right, without expanding digits: each character adds
/// its precomputed net contribution, and flips the step parity exactly when
/// its value is a single digit.
pub open spec fn table_sum(s: Seq<u8>, double_here: bool) -> int
    recommends
        valid_checksum_input(s),
    decreases s.len(),
{
    if s.len() == 0 {
        0
    } else {
        let v = char_value_spec(s.last());
        (if double_here {
            even_contribution(v)
        } else {
            odd_contribution(v)
        }) + table_sum(
            s.drop_last(),
            if v < 10 {
                !double_here
            } else {
                double_here
            },
        )
    }
}

/// The checksum of a character sequence as the table-driven algorithm
/// defines it.
pub open spec fn table_checksum_spec(s: Seq<u8>) -> int
    recommends
        valid_checksum_input(s),
{
    if table_sum(s, true) % 10 == 0 {
        0
    } else {
        10 - table_sum(s, true) % 10
    }
}

/// The numeric value of a u8 ASCII character. Digit characters '0' through
/// '9' map to values 0 through 9, and letter characters 'A' through 'Z' map
/// to values 10 through 35. Callers must validate the character set first:
/// the precondition admits nothing else.
fn char_value(c: &u8) -> (v: u8)
    requires
        is_checksum_char(*c),
    ensures
        v as int == char_value_spec(*c),
        v < 36,
{
    if ('0' as u8) <= *c && *c <= ('9' as u8) {
        *c - ('0' as u8)
    } else {
        *c - ('A' as u8) + 10
    }
}

/// Every digit in a character sequence's expansion is a single decimal
/// digit.
proof fn lemma_value_digits_bounded(s: Seq<u8>)
    requires
        valid_checksum_input(s),
    ensures
        forall|k: int| 0 <= k < value_digits(s).len() ==> #[trigger] value_digits(s)[k] < 10,
    decreases s.len(),
{
    if s.len() > 0 {
        assert(valid_checksum_input(s.drop_last()));
        lemma_value_digits_bounded(s.drop_last());
        assert(is_checksum_char(s.last()));
        let v = char_value_spec(s.last());
        assert(0 <= v < 36);
        let ds0 = value_digits(s.drop_last());
        let tail = char_value_digits(s.last());
        assert(forall|k: int| 0 <= k < tail.len() ==> #[trigger] tail[k] < 10);
        assert(value_digits(s) == ds0 + tail);
        assert forall|k: int| 0 <= k < value_digits(s).len() implies #[trigger] value_digits(s)[k]
            < 10 by {
            if k < ds0.len() {
                assert(value_digits(s)[k] == ds0[k]);
            } else {
                assert(value_digits(s)[k] == tail[k - ds0.len()]);
            }
        }
    }
}

/// The character-by-character table sum equals the double-add-double sum of
/// the expanded digits, for either starting parity: each character's
/// precomputed contribution accounts for exactly the digits it expands to.
proof fn lemma_table_sum_matches(s: Seq<u8>, double_here: bool)
    requires
        valid_checksum_input(s),
    ensures
        table_sum(s, double_here) == dad_sum(value_digits(s), double_here),
    decreases s.len(),
{
    if s.len() == 0 {
    } else {
        let s0 = s.drop_last();
        let b = s.last();
        let v = char_value_spec(b);
        assert(valid_checksum_input(s0));
        assert(is_checksum_char(b));
        assert(0 <= v < 36);
        let ds0 = value_digits(s0);
        if v < 10 {
            let ds = ds0 + seq![v as u8];
            assert(value_digits(s) == ds);
            assert(ds.last() == v as u8);
            assert(ds.drop_last() =~= ds0);
            lemma_table_sum_matches(s0, !double_here);
            assert(dad_sum(ds, double_here) == (if double_here {
                digit_sum(2 * v)
            } else {
                v
            }) + dad_sum(ds0, !double_here));
        } else {
            let hi = (v / 10) as u8;
            let lo = (v % 10) as u8;
            let ds = ds0 + seq![hi, lo];
            assert(value_digits(s) == ds);
            assert(ds.last() == lo);
            assert(ds.drop_last() =~= ds0 + seq![hi]);
            assert((ds0 + seq![hi]).last() == hi);
            assert((ds0 + seq![hi]).drop_last() =~= ds0);
            lemma_table_sum_matches(s0, double_here);
            assert(dad_sum(ds0 + seq![hi], !double_here) == (if !double_here {
                digit_sum(2 * hi)
            } else {
                hi as int
            }) + dad_sum(ds0, double_here));
            assert(dad_sum(ds, double_here) == (if double_here {
                digit_sum(2 * lo)
            } else {
                lo as int
            }) + dad_sum(ds0 + seq![hi], !double_here));
            assert(hi as int == v / 10);
            assert(lo as int == v % 10);
        }
    }
}

/// Law: the two checksum algorithms agree. For every input made only of
/// ASCII digits and uppercase ASCII letters, the table-driven checksum
/// returns exactly the value of the functional reference definition.
pub proof fn lemma_checksum_equivalence(s: Seq<u8>)
    requires
        valid_checksum_input(s),
    ensures
        table_checksum_spec(s) == checksum_spec(s),
{
    lemma_table_sum_matches(s, true);
}

/// The checksum is always a single decimal digit.
pub proof fn lemma_checksum_in_range(s: Seq<u8>)
    ensures
        0 <= checksum_spec(s) <= 9,
{
}

/// A direct rendition of the formula definition: expand the digits, then
/// walk them from the right, doubling every other digit.
pub fn checksum_functional(s: &[u8]) -> (r: u8)
    requires
        valid_checksum_input(s@),
    ensures
        r as int == checksum_spec(s@),
{
    let n = s.len();
    let mut digits: Vec<u8> = Vec::new();
    let mut i: usize = 0;
    while i < n
        invariant
            valid_checksum_input(s@),
            n == s@.len(),
            i <= n,
            digits@ =~= value_digits(s@.subrange(0, i as int)),
        decreases n - i,
    {
        let v = char_value(&s[i]);
        if v >= 10 {
            digits.push(v / 10);
            digits.push(v % 10);
        } else {
            digits.push(v);
        }
        proof {
            assert(s@.subrange(0, i + 1).drop_last() =~= s@.subrange(0, i as int));
            assert(s@.subrange(0, i + 1).last() == s@[i as int]);
        }
        i += 1;
    }
    proof {
        assert(s@.subrange(0, n as int) =~= s@);
        lemma_value_digits_bounded(s@);
    }
    assert(digits@ =~= value_digits(s@));

    let m = digits.len();
    proof {
        assert(digits@.subrange(0, m as int) =~= digits@);
    }
    let mut sum: u8 = 0;
    let mut double_next: bool = true;
    let mut j: usize = m;
    while j > 0
        invariant
            digits@ =~= value_digits(s@),
            valid_checksum_input(s@),
            forall|k: int| 0 <= k < digits@.len() ==> #[trigger] digits@[k] < 10,
            m == digits@.len(),
            j <= m,
            sum < 10,
            (sum as int + dad_sum(digits@.subrange(0, j as int), double_next)) % 10
                == checksum_sum(s@) % 10,
        decreases j,
    {
        j -= 1;
        let d = digits[j];
        let x = if double_next {
            let t = 2 * d;
            if t >= 10 {
                t / 10 + t % 10
            } else {
                t
            }
        } else {
            d
        };
        proof {
            let ds = digits@;
            let pre = ds.subrange(0, j + 1);
            assert(pre.drop_last() =~= ds.subrange(0, j as int));
            assert(pre.last() == ds[j as int]);
            assert(x as int == if double_next {
                digit_sum(2 * ds[j as int])
            } else {
                ds[j as int] as int
            });
            assert(dad_sum(pre, double_next) == x as int + dad_sum(
                ds.subrange(0, j as int),
                !double_next,
            ));
            lemma_add_mod_noop_right(
                dad_sum(ds.subrange(0, j as int), !double_next),
                sum as int + x as int,
                10,
            );
        }
        sum = (sum + x) % 10;
        double_next = !double_next;
    }
    assert(digits@.subrange(0, 0) =~= Seq::<u8>::empty());
    assert(sum as int == checksum_sum(s@) % 10);

    let diff = 10 - sum;
    if diff == 10 {
        0
    } else {
        diff
    }
}

/// How many steps each character value consumes when processed: decimal
/// digits have width one, letters have width two, because letter values
/// expand to two digits.
const WIDTHS: [u8; 36] = [
    1, 1, 1, 1, 1, 1, 1, 1, 1, 1,
    2, 2, 2, 2, 2, 2, 2, 2, 2, 2,
    2, 2, 2, 2, 2, 2, 2, 2, 2, 2,
    2, 2, 2, 2, 2, 2,
];

/// The net value added to the sum for each character value when the step
/// count at the start of processing that character is odd. Odds and evens
/// differ because even steps go through doubling and potentially splitting
/// into two digits before being summed.
const ODDS: [u8; 36] = [
    0, 1, 2, 3, 4, 5, 6, 7, 8, 9,
    2, 3, 4, 5, 6, 7, 8, 9, 0, 1,
    4, 5, 6, 7, 8, 9, 0, 1, 2, 3,
    6, 7, 8, 9, 0, 1,
];

/// The net value added to the sum for each character value when the step
/// count at the start of processing that character is even.
const EVENS: [u8; 36] = [
    0, 2, 4, 6, 8,
    1, 3, 5, 7, 9,
    1, 3, 5, 7, 9,
    2, 4, 6, 8, 0,
    2, 4, 6, 8, 0,
    3, 5, 7, 9, 1,
    3, 5, 7, 9, 1,
    4,
];

/// The width table holds each character value's step width.
proof fn lemma_widths_table(v: int)
    requires
        0 <= v < 36,
    ensures
        WIDTHS@[v] == 1 <==> v < 10,
        WIDTHS@[v] == 1 || WIDTHS@[v] == 2,
{
}

/// The even table holds each character value's net contribution, reduced
/// mod 10, for even steps.
proof fn lemma_evens_table(v: int)
    requires
        0 <= v < 36,
    ensures
        EVENS@[v] as int == even_contribution(v) % 10,
{
}

/// The odd table holds each character value's net contribution, reduced
/// mod 10, for odd steps.
proof fn lemma_odds_table(v: int)
    requires
        0 <= v < 36,
    ensures
        ODDS@[v] as int == odd_contribution(v) % 10,
{
}

/// Compute the checksum for a u8 array by table lookups, walking the input
/// right to left. The running sum is kept reduced mod 10, and the step
/// counter is kept as its parity, which is all the lookup needs; each
/// character advances the counter by its width from the width table.
pub fn checksum_table(s: &[u8]) -> (r: u8)
    requires
        valid_checksum_input(s@),
    ensures
        r as int == table_checksum_spec(s@),
        r as int == checksum_spec(s@),
{
    let n = s.len();
    proof {
        assert(s@.subrange(0, n as int) =~= s@);
    }
    let mut sum: u8 = 0;
    let mut idx_even: bool = true;
    let mut j: usize = n;
    while j > 0
        invariant
            valid_checksum_input(s@),
            n == s@.len(),
            j <= n,
            sum < 10,
            (sum as int + table_sum(s@.subrange(0, j as int), idx_even)) % 10
                == table_sum(s@, true) % 10,
        decreases j,
    {
        j -= 1;
        let v = char_value(&s[j]);
        let w = WIDTHS[v as usize];
        let x = if idx_even {
            EVENS[v as usize]
        } else {
            ODDS[v as usize]
        };
        proof {
            lemma_widths_table(v as int);
            lemma_evens_table(v as int);
            lemma_odds_table(v as int);
            let pre = s@.subrange(0, j + 1);
            assert(pre.drop_last() =~= s@.subrange(0, j as int));
            assert(pre.last() == s@[j as int]);
            let c = if idx_even {
                even_contribution(v as int)
            } else {
                odd_contribution(v as int)
            };
            let rest = table_sum(
                s@.subrange(0, j as int),
                if char_value_spec(s@[j as int]) < 10 {
                    !idx_even
                } else {
                    idx_even
                },
            );
            assert(table_sum(pre, idx_even) == c + rest);
            assert(x as int == c % 10);
            lemma_add_mod_noop_right(rest, sum as int + x as int, 10);
            lemma_add_mod_noop_right(sum as int + rest, c, 10);
        }
        sum = (sum + x) % 10;
        idx_even = if w == 1 {
            !idx_even
        } else {
            idx_even
        };
    }
    assert(s@.subrange(0, 0) =~= Seq::<u8>::empty());
    assert(sum as int == table_sum(s@, true) % 10);
    proof {
        lemma_checksum_equivalence(s@);
    }

    let diff = 10 - sum;
    if diff == 10 {
        0
    } else {
        diff
    }
}

} // verus!
