//! What a Damm check digit guarantees: a string with its check digit
//! appended validates, and a single-digit substitution or an adjacent
//! transposition of a validating string never validates.
use vstd::prelude::*;
use crate::quasigroup::{
    is_digit_value,
    lemma_anti_symmetric,
    lemma_column_injective,
    lemma_row_injective,
    lemma_table_in_range,
    lemma_zero_diagonal,
    table,
};
use crate::check_digit::{
    all_digits,
    digit_value,
    fold_from,
    interim_digit,
    is_checked,
    is_digit,
    lemma_fold_in_range,
    with_check_digit,
};

verus! {

/// `s` with the digits at `i` and `i + 1` exchanged.
pub open spec fn swap_adjacent(s: Seq<char>, i: int) -> Seq<char> {
    s.update(i, s[i + 1]).update(i + 1, s[i])
}

/// Folding a concatenation folds the second part from where the first ends.
pub proof fn lemma_fold_append(start: int, p: Seq<char>, q: Seq<char>)
    ensures
        fold_from(start, p + q) == fold_from(fold_from(start, p), q),
    decreases q.len(),
{
    if q.len() > 0 {
        lemma_fold_append(start, p, q.drop_last());
        assert((p + q).drop_last() =~= p + q.drop_last());
        assert((p + q).last() == q.last());
    }
}

/// Folding the same digits from two different digit values ends in two
/// different digit values.
pub proof fn lemma_fold_injective(a: int, b: int, q: Seq<char>)
    requires
        is_digit_value(a),
        is_digit_value(b),
        a != b,
        all_digits(q),
    ensures
        fold_from(a, q) != fold_from(b, q),
    decreases q.len(),
{
    if q.len() > 0 {
        let r = q.drop_last();
        assert(all_digits(r));
        lemma_fold_injective(a, b, r);
        lemma_fold_in_range(a, r);
        lemma_fold_in_range(b, r);
        if fold_from(a, q) == fold_from(b, q) {
            lemma_column_injective(fold_from(a, r), fold_from(b, r), digit_value(q.last()));
        }
    }
}

/// Folding one digit is one step of the quasigroup.
proof fn lemma_fold_one(a: int, x: char)
    ensures
        fold_from(a, seq![x]) == table(a, digit_value(x)),
{
    assert(seq![x].drop_last() =~= Seq::<char>::empty());
    assert(seq![x].last() == x);
    assert(fold_from(a, Seq::<char>::empty()) == a);
}

/// Folding two digits is two steps of the quasigroup.
proof fn lemma_fold_two(a: int, x: char, y: char)
    ensures
        fold_from(a, seq![x, y]) == table(table(a, digit_value(x)), digit_value(y)),
{
    assert(seq![x, y].drop_last() =~= seq![x]);
    assert(seq![x, y].last() == y);
    lemma_fold_one(a, x);
}

/// Two digit strings that share a prefix `p` and a suffix `q` and fold to
/// different values over their middles `m1` and `m2` (from the fold of `p`)
/// fold to different values as a whole.
proof fn lemma_differing_middle(p: Seq<char>, m1: Seq<char>, m2: Seq<char>, q: Seq<char>)
    requires
        all_digits(p),
        all_digits(m1),
        all_digits(m2),
        all_digits(q),
        fold_from(interim_digit(p), m1) != fold_from(interim_digit(p), m2),
    ensures
        interim_digit(p + m1 + q) != interim_digit(p + m2 + q),
{
    let a = interim_digit(p);
    lemma_fold_in_range(0, p);
    lemma_fold_in_range(a, m1);
    lemma_fold_in_range(a, m2);
    lemma_fold_append(0, p + m1, q);
    lemma_fold_append(0, p, m1);
    lemma_fold_append(0, p + m2, q);
    lemma_fold_append(0, p, m2);
    lemma_fold_injective(fold_from(a, m1), fold_from(a, m2), q);
}

/// A digit string followed by its check digit validates.
pub proof fn lemma_round_trip(s: Seq<char>)
    requires
        all_digits(s),
    ensures
        is_checked(with_check_digit(s)),
{
    let d = interim_digit(s);
    let t = with_check_digit(s);
    lemma_fold_in_range(0, s);
    assert(t.drop_last() =~= s);
    lemma_zero_diagonal(d);
    assert(all_digits(t)) by {
        assert forall|i: int| 0 <= i < t.len() implies is_digit(#[trigger] t[i]) by {
            if i < s.len() {
                assert(t[i] == s[i]);
            }
        }
    }
}

/// Replacing the digit at any position of a string followed by its check
/// digit (the check digit included) with another digit gives a string that
/// does not validate.
pub proof fn lemma_single_substitution(s: Seq<char>, i: int, c: char)
    requires
        all_digits(s),
        0 <= i <= s.len(),
        is_digit(c),
        c != with_check_digit(s)[i],
    ensures
        !is_checked(with_check_digit(s).update(i, c)),
{
    let t = with_check_digit(s);
    lemma_round_trip(s);
    let p = t.take(i);
    let q = t.skip(i + 1);
    let m1 = seq![t[i]];
    let m2 = seq![c];
    let a = interim_digit(p);
    assert(all_digits(p)) by {
        assert forall|j: int| 0 <= j < p.len() implies is_digit(#[trigger] p[j]) by {
            assert(p[j] == t[j]);
        }
    }
    assert(all_digits(q)) by {
        assert forall|j: int| 0 <= j < q.len() implies is_digit(#[trigger] q[j]) by {
            assert(q[j] == t[i + 1 + j]);
        }
    }
    assert(is_digit(t[i]));
    assert(all_digits(m1));
    assert(all_digits(m2));
    lemma_fold_in_range(0, p);
    lemma_fold_one(a, t[i]);
    lemma_fold_one(a, c);
    if fold_from(a, m1) == fold_from(a, m2) {
        lemma_row_injective(a, digit_value(t[i]), digit_value(c));
    }
    lemma_differing_middle(p, m1, m2, q);
    assert(p + m1 + q =~= t);
    assert(p + m2 + q =~= t.update(i, c));
}

/// Exchanging two adjacent, different digits of a string that validates
/// gives a string that does not validate.
pub proof fn lemma_adjacent_transposition(t: Seq<char>, i: int)
    requires
        is_checked(t),
        t.len() >= 2,
        0 <= i < t.len() - 1,
        t[i] != t[i + 1],
    ensures
        !is_checked(swap_adjacent(t, i)),
{
    let p = t.take(i);
    let q = t.skip(i + 2);
    let m1 = seq![t[i], t[i + 1]];
    let m2 = seq![t[i + 1], t[i]];
    let a = interim_digit(p);
    assert(all_digits(p)) by {
        assert forall|j: int| 0 <= j < p.len() implies is_digit(#[trigger] p[j]) by {
            assert(p[j] == t[j]);
        }
    }
    assert(all_digits(q)) by {
        assert forall|j: int| 0 <= j < q.len() implies is_digit(#[trigger] q[j]) by {
            assert(q[j] == t[i + 2 + j]);
        }
    }
    let x = t[i];
    let y = t[i + 1];
    assert(is_digit(x));
    assert(is_digit(y));
    assert(all_digits(m1));
    assert(all_digits(m2));
    lemma_fold_in_range(0, p);
    lemma_fold_two(a, x, y);
    lemma_fold_two(a, y, x);
    lemma_table_in_range(a, digit_value(x));
    lemma_table_in_range(a, digit_value(y));
    if fold_from(a, m1) == fold_from(a, m2) {
        lemma_anti_symmetric(a, digit_value(x), digit_value(y));
    }
    lemma_differing_middle(p, m1, m2, q);
    assert(p + m1 + q =~= t);
    assert(p + m2 + q =~= swap_adjacent(t, i));
}

} // verus!
