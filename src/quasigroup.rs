//! The operation table of the Damm quasigroup and the facts about it that
//! error detection rests on.
use vstd::prelude::*;

verus! {

/// The entry at index `i` (0 through 9) of a row given by its ten entries.
pub open spec fn entry(
    i: int,
    a0: int,
    a1: int,
    a2: int,
    a3: int,
    a4: int,
    a5: int,
    a6: int,
    a7: int,
    a8: int,
    a9: int,
) -> int {
    if i == 0 {
        a0
    } else if i == 1 {
        a1
    } else if i == 2 {
        a2
    } else if i == 3 {
        a3
    } else if i == 4 {
        a4
    } else if i == 5 {
        a5
    } else if i == 6 {
        a6
    } else if i == 7 {
        a7
    } else if i == 8 {
        a8
    } else {
        a9
    }
}

/// The operation `interim * digit` of the quasigroup, for `interim` and
/// `digit` in 0 through 9: row `interim`, column `digit` of the table.
#[verifier::opaque]
pub open spec fn table(interim: int, digit: int) -> int {
    if interim == 0 {
        entry(digit, 0, 3, 1, 7, 5, 9, 8, 6, 4, 2)
    } else if interim == 1 {
        entry(digit, 7, 0, 9, 2, 1, 5, 4, 8, 6, 3)
    } else if interim == 2 {
        entry(digit, 4, 2, 0, 6, 8, 7, 1, 3, 5, 9)
    } else if interim == 3 {
        entry(digit, 1, 7, 5, 0, 9, 8, 3, 4, 2, 6)
    } else if interim == 4 {
        entry(digit, 6, 1, 2, 3, 0, 4, 5, 9, 7, 8)
    } else if interim == 5 {
        entry(digit, 3, 6, 7, 4, 2, 0, 9, 5, 8, 1)
    } else if interim == 6 {
        entry(digit, 5, 8, 6, 9, 7, 2, 0, 1, 3, 4)
    } else if interim == 7 {
        entry(digit, 8, 9, 4, 5, 3, 6, 2, 0, 1, 7)
    } else if interim == 8 {
        entry(digit, 9, 4, 3, 8, 6, 1, 7, 2, 0, 5)
    } else {
        entry(digit, 2, 5, 8, 1, 4, 3, 6, 7, 9, 0)
    }
}

/// Whether `d` is one of the ten digit values.
pub open spec fn is_digit_value(d: int) -> bool {
    0 <= d < 10
}

/// Every entry of the table is a digit value.
pub proof fn lemma_table_in_range(interim: int, digit: int)
    requires
        is_digit_value(interim),
        is_digit_value(digit),
    ensures
        is_digit_value(table(interim, digit)),
{
    reveal(table);
}

/// The diagonal of the table is zero: `d * d == 0` for every digit `d`.
pub proof fn lemma_zero_diagonal(d: int)
    requires
        is_digit_value(d),
    ensures
        table(d, d) == 0,
{
    reveal(table);
}

/// Each row of the table is a permutation: the right operand is determined
/// by the left operand and the result.
pub proof fn lemma_row_injective(interim: int, x: int, y: int)
    requires
        is_digit_value(interim),
        is_digit_value(x),
        is_digit_value(y),
        table(interim, x) == table(interim, y),
    ensures
        x == y,
{
    reveal(table);
}

/// Each column of the table is a permutation: the left operand is
/// determined by the right operand and the result.
pub proof fn lemma_column_injective(a: int, b: int, digit: int)
    requires
        is_digit_value(a),
        is_digit_value(b),
        is_digit_value(digit),
        table(a, digit) == table(b, digit),
    ensures
        a == b,
{
    reveal(table);
}

/// The table is weakly totally anti-symmetric: from any interim digit,
/// folding `x` then `y` and folding `y` then `x` agree only when `x == y`.
pub proof fn lemma_anti_symmetric(interim: int, x: int, y: int)
    requires
        is_digit_value(interim),
        is_digit_value(x),
        is_digit_value(y),
        table(table(interim, x), y) == table(table(interim, y), x),
    ensures
        x == y,
{
    reveal(table);
}

/// The entry at index `i` of a row of ten entries.
fn select(i: u8, row: [u8; 10]) -> (r: u8)
    requires
        i < 10,
    ensures
        r == row@[i as int],
{
    row[i as usize]
}

/// Computes `interim * digit`, one step of the fold.
pub fn step(interim: u8, digit: u8) -> (r: u8)
    requires
        interim < 10,
        digit < 10,
    ensures
        r == table(interim as int, digit as int),
        r < 10,
{
    proof {
        reveal(table);
    }
    match interim {
        0 => select(digit, [0, 3, 1, 7, 5, 9, 8, 6, 4, 2]),
        1 => select(digit, [7, 0, 9, 2, 1, 5, 4, 8, 6, 3]),
        2 => select(digit, [4, 2, 0, 6, 8, 7, 1, 3, 5, 9]),
        3 => select(digit, [1, 7, 5, 0, 9, 8, 3, 4, 2, 6]),
        4 => select(digit, [6, 1, 2, 3, 0, 4, 5, 9, 7, 8]),
        5 => select(digit, [3, 6, 7, 4, 2, 0, 9, 5, 8, 1]),
        6 => select(digit, [5, 8, 6, 9, 7, 2, 0, 1, 3, 4]),
        7 => select(digit, [8, 9, 4, 5, 3, 6, 2, 0, 1, 7]),
        8 => select(digit, [9, 4, 3, 8, 6, 1, 7, 2, 0, 5]),
        _ => select(digit, [2, 5, 8, 1, 4, 3, 6, 7, 9, 0]),
    }
}

} // verus!
