//! Computing and validating Damm check digits over strings.
use vstd::prelude::*;
use crate::quasigroup::{is_digit_value, lemma_table_in_range, step, table};

verus! {

/// Whether `c` is one of the decimal digit characters `'0'` through `'9'`.
pub open spec fn is_digit(c: char) -> bool {
    '0' <= c && c <= '9'
}

/// The value 0 through 9 of a decimal digit character.
pub open spec fn digit_value(c: char) -> int {
    c as int - '0' as int
}

/// Whether every character of `s` is a decimal digit.
pub open spec fn all_digits(s: Seq<char>) -> bool {
    forall|i: int| 0 <= i < s.len() ==> is_digit(#[trigger] s[i])
}

/// The interim digit reached by folding the digits of `s`, left to right,
/// into the quasigroup, starting from `start`.
pub open spec fn fold_from(start: int, s: Seq<char>) -> int
    decreases s.len(),
{
    if s.len() == 0 {
        start
    } else {
        table(fold_from(start, s.drop_last()), digit_value(s.last()))
    }
}

/// The interim digit of `s`: its fold starting from zero. For a string of
/// digits this is its check digit.
pub open spec fn interim_digit(s: Seq<char>) -> int {
    fold_from(0, s)
}

/// The decimal digit character of value `d`, for `d` in 0 through 9.
pub open spec fn digit_char(d: int) -> char {
    (d + '0' as int) as char
}

/// `s` followed by its check digit.
pub open spec fn with_check_digit(s: Seq<char>) -> Seq<char> {
    s.push(digit_char(interim_digit(s)))
}

/// Whether `s` is a string of digits that ends in its own check digit.
pub open spec fn is_checked(s: Seq<char>) -> bool {
    all_digits(s) && interim_digit(s) == 0
}

/// Folding a digit string from a digit value gives a digit value.
pub proof fn lemma_fold_in_range(start: int, s: Seq<char>)
    requires
        is_digit_value(start),
        all_digits(s),
    ensures
        is_digit_value(fold_from(start, s)),
    decreases s.len(),
{
    if s.len() > 0 {
        lemma_fold_in_range(start, s.drop_last());
        lemma_table_in_range(fold_from(start, s.drop_last()), digit_value(s.last()));
    }
}

/// The value of a digit character, or `None` for any other character.
fn char_digit(c: char) -> (r: Option<u8>)
    ensures
        is_digit(c) ==> r == Some(digit_value(c) as u8),
        !is_digit(c) ==> r is None,
{
    if '0' <= c && c <= '9' {
        Some((c as u32 - '0' as u32) as u8)
    } else {
        None
    }
}

/// Computes the check digit of `number`: the interim digit of its fold.
/// Returns `None` when `number` holds a character that is not a decimal
/// digit. The empty string gives `Some(0)`.
pub fn encode(number: &str) -> (r: Option<usize>)
    ensures
        all_digits(number@) ==> r == Some(interim_digit(number@) as usize),
        !all_digits(number@) ==> r is None,
        r matches Some(d) ==> d < 10,
        number@.len() == 0 ==> r == Some(0usize),
{
    let mut interim: u8 = 0;
    for c in it: number.chars()
        invariant
            it.seq() == number@,
            interim < 10,
            interim == interim_digit(number@.take(it.index())),
            all_digits(number@.take(it.index())),
    {
        let ghost i = it.index();
        assert(c == number@[i]);
        match char_digit(c) {
            Some(d) => {
                proof {
                    assert(number@.take(i + 1).drop_last() =~= number@.take(i));
                    assert(number@.take(i + 1).last() == c);
                }
                interim = step(interim, d);
            },
            None => {
                return None;
            },
        }
    }
    assert(number@.take(number@.len() as int) =~= number@);
    Some(interim as usize)
}

/// The one-character string of the digit of value `d`.
fn digit_text(d: u8) -> (t: &'static str)
    requires
        d < 10,
    ensures
        t@ == seq![digit_char(d as int)],
{
    match d {
        0 => {
            proof {
                reveal_strlit("0");
            }
            "0"
        },
        1 => {
            proof {
                reveal_strlit("1");
            }
            "1"
        },
        2 => {
            proof {
                reveal_strlit("2");
            }
            "2"
        },
        3 => {
            proof {
                reveal_strlit("3");
            }
            "3"
        },
        4 => {
            proof {
                reveal_strlit("4");
            }
            "4"
        },
        5 => {
            proof {
                reveal_strlit("5");
            }
            "5"
        },
        6 => {
            proof {
                reveal_strlit("6");
            }
            "6"
        },
        7 => {
            proof {
                reveal_strlit("7");
            }
            "7"
        },
        8 => {
            proof {
                reveal_strlit("8");
            }
            "8"
        },
        _ => {
            proof {
                reveal_strlit("9");
            }
            "9"
        },
    }
}

/// Appends the check digit to `number`. Returns `None` when `number` holds
/// a character that is not a decimal digit.
pub fn check_sum(number: &str) -> (r: Option<String>)
    ensures
        all_digits(number@) ==> (r matches Some(s) && s@ == with_check_digit(number@)),
        !all_digits(number@) ==> r is None,
{
    match encode(number) {
        Some(d) => {
            proof {
                lemma_fold_in_range(0, number@);
            }
            let mut s = number.to_owned();
            s.append(digit_text(d as u8));
            assert(s@ =~= with_check_digit(number@));
            Some(s)
        },
        None => None,
    }
}

/// Whether `number` is a string of decimal digits that ends in its own
/// check digit: whether it folds to zero. A string that holds any other
/// character is not valid; `encode` tells that case apart from a mismatch.
pub fn is_valid(number: &str) -> (r: bool)
    ensures
        r == is_checked(number@),
{
    proof {
        if all_digits(number@) {
            lemma_fold_in_range(0, number@);
        }
    }
    match encode(number) {
        Some(d) => d == 0,
        None => false,
    }
}

} // verus!
