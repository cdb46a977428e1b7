use vstd::arithmetic::div_mod::*;
use vstd::arithmetic::power::*;
use vstd::prelude::*;

verus! {

/// The `length` digits of `index` to base `k`, most significant first.
pub open spec fn digits(k: nat, length: nat, index: nat) -> Seq<nat>
    decreases length,
{
    if length == 0 {
        Seq::empty()
    } else {
        digits(k, (length - 1) as nat, index / k).push(index % k)
    }
}


/// The melody at position `index` of the enumeration: the tuple of notes
/// whose places in `notes` are the digits of `index` to base `notes.len()`.
pub open spec fn melody_at(notes: Seq<u8>, length: nat, index: nat) -> Seq<u8> {
    Seq::new(length, |j: int| notes[digits(notes.len(), length, index)[j] as int])
}

/// The number that a sequence of digits to base `k` stands for.
pub open spec fn value(k: nat, counters: Seq<usize>) -> nat
    decreases counters.len(),
{
    if counters.len() == 0 {
        0
    } else {
        value(k, counters.drop_last()) * k + counters.last() as nat
    }
}

/// Every digit is below the base.
pub open spec fn in_base(k: nat, counters: Seq<usize>) -> bool {
    forall|j: int| 0 <= j < counters.len() ==> counters[j] < k
}

/// `a` comes before `b` in lexicographic order.
pub open spec fn lex_less(a: Seq<nat>, b: Seq<nat>) -> bool {
    exists|p: int|
        0 <= p < a.len() && p < b.len() && a.subrange(0, p) == b.subrange(0, p) && #[trigger] a[p]
            < b[p]
}

pub proof fn lemma_digits_len(k: nat, length: nat, index: nat)
    requires
        k >= 1,
    ensures
        digits(k, length, index).len() == length,
    decreases length,
{
    if length > 0 {
        lemma_digits_len(k, (length - 1) as nat, index / k);
    }
}

/// Digits below the base stand for a number below `k^len`.
pub proof fn lemma_value_bound(k: nat, counters: Seq<usize>)
    requires
        in_base(k, counters),
    ensures
        value(k, counters) < pow(k as int, counters.len()),
    decreases counters.len(),
{
    if counters.len() == 0 {
        lemma_pow0(k as int);
    } else {
        let front = counters.drop_last();
        lemma_value_bound(k, front);
        let high = pow(k as int, front.len());
        assert(pow(k as int, counters.len()) == k * high) by {
            reveal(pow);
        }
        let v = value(k, front);
        let d = counters.last();
        assert(v * k + d < k * high) by (nonlinear_arith)
            requires
                0 <= v < high,
                0 <= d < k,
        ;
    }
}

/// The digits of the number that `counters` stands for are `counters`.
pub proof fn lemma_digits_of_value(k: nat, counters: Seq<usize>)
    requires
        k >= 1,
        in_base(k, counters),
    ensures
        digits(k, counters.len(), value(k, counters)) == counters.map_values(|c: usize| c as nat),
    decreases counters.len(),
{
    let want = counters.map_values(|c: usize| c as nat);
    if counters.len() == 0 {
        assert(digits(k, 0, value(k, counters)) =~= want);
    } else {
        let front = counters.drop_last();
        lemma_digits_of_value(k, front);
        let v = value(k, front);
        let d = counters.last() as nat;
        assert(k > 0);
        lemma_fundamental_div_mod_converse((v * k + d) as int, k as int, v as int, d as int);
        assert(value(k, counters) / k == v);
        assert(value(k, counters) % k == d);
        assert(digits(k, counters.len(), value(k, counters)) =~= want);
    }
}

/// Raising the digit before a run of highest digits, and clearing the run, adds one.
pub proof fn lemma_carry(k: nat, before: Seq<usize>, after: Seq<usize>, at: int)
    requires
        before.len() == after.len(),
        0 <= at < before.len(),
        forall|j: int| 0 <= j < at ==> before[j] == after[j],
        after[at] == before[at] + 1,
        forall|j: int| at < j < before.len() ==> before[j] == k - 1 && after[j] == 0,
    ensures
        value(k, after) == value(k, before) + 1,
    decreases before.len() - at,
{
    if at == before.len() - 1 {
        assert(before.drop_last() =~= after.drop_last());
    } else {
        lemma_carry(k, before.drop_last(), after.drop_last(), at);
        let v = value(k, before.drop_last());
        assert((v + 1) * k == v * k + k) by (nonlinear_arith);
    }
}

/// A sequence of highest digits stands for `k^len - 1`.
pub proof fn lemma_all_highest(k: nat, counters: Seq<usize>)
    requires
        k >= 1,
        forall|j: int| 0 <= j < counters.len() ==> counters[j] == k - 1,
    ensures
        value(k, counters) == pow(k as int, counters.len()) - 1,
    decreases counters.len(),
{
    if counters.len() == 0 {
        lemma_pow0(k as int);
    } else {
        lemma_all_highest(k, counters.drop_last());
        let high = pow(k as int, counters.drop_last().len());
        assert(pow(k as int, counters.len()) == k * high) by {
            reveal(pow);
        }
        assert((high - 1) * k + (k - 1) == k * high - 1) by (nonlinear_arith);
    }
}

/// A sequence of zero digits stands for zero.
pub proof fn lemma_all_zero(k: nat, counters: Seq<usize>)
    requires
        forall|j: int| 0 <= j < counters.len() ==> counters[j] == 0,
    ensures
        value(k, counters) == 0,
    decreases counters.len(),
{
    if counters.len() > 0 {
        lemma_all_zero(k, counters.drop_last());
        assert(0 * k == 0) by (nonlinear_arith);
    }
}

/// The enumeration is in lexicographic order: of two positions below
/// `k^length`, the earlier has the lexicographically smaller digits.
pub proof fn lemma_digits_ordered(k: nat, length: nat, i: nat, j: nat)
    requires
        k >= 1,
        i < j < pow(k as int, length),
    ensures
        lex_less(digits(k, length, i), digits(k, length, j)),
    decreases length,
{
    if length == 0 {
        lemma_pow0(k as int);
    } else {
        let rest = (length - 1) as nat;
        let a = digits(k, length, i);
        let b = digits(k, length, j);
        lemma_digits_len(k, rest, i / k);
        lemma_digits_len(k, rest, j / k);
        lemma_div_is_ordered(i as int, j as int, k as int);
        lemma_fundamental_div_mod(i as int, k as int);
        lemma_fundamental_div_mod(j as int, k as int);
        if i / k < j / k {
            assert(pow(k as int, length) == k * pow(k as int, rest)) by {
                reveal(pow);
            }
            let high = pow(k as int, rest);
            let q = (j / k) as int;
            assert(q < high) by (nonlinear_arith)
                requires
                    k * q <= j,
                    j < k * high,
                    k >= 1,
            ;
            lemma_digits_ordered(k, rest, i / k, j / k);
            let p = choose|p: int|
                0 <= p < rest && digits(k, rest, i / k).subrange(0, p) == digits(
                    k,
                    rest,
                    j / k,
                ).subrange(0, p) && #[trigger] digits(k, rest, i / k)[p] < digits(k, rest, j / k)[p];
            assert(a.subrange(0, p) =~= digits(k, rest, i / k).subrange(0, p));
            assert(b.subrange(0, p) =~= digits(k, rest, j / k).subrange(0, p));
            assert(a[p] < b[p]);
        } else {
            let p = rest as int;
            assert(a.subrange(0, p) =~= digits(k, rest, i / k));
            assert(b.subrange(0, p) =~= digits(k, rest, j / k));
            assert(a[p] < b[p]);
        }
    }
}

/// Every digit of a position is below the base.
pub proof fn lemma_digits_in_base(k: nat, length: nat, index: nat)
    requires
        k >= 1,
    ensures
        forall|j: int| 0 <= j < length ==> 0 <= #[trigger] digits(k, length, index)[j] < k,
        digits(k, length, index).len() == length,
    decreases length,
{
    if length > 0 {
        lemma_digits_in_base(k, (length - 1) as nat, index / k);
        lemma_mod_bound(index as int, k as int);
    }
}

/// Over notes without repetition, two different positions below
/// `k^length` hold two different melodies.
pub proof fn lemma_melodies_distinct(notes: Seq<u8>, length: nat, i: nat, j: nat)
    requires
        notes.no_duplicates(),
        i < pow(notes.len() as int, length),
        j < pow(notes.len() as int, length),
        i != j,
    ensures
        melody_at(notes, length, i) != melody_at(notes, length, j),
{
    let k = notes.len();
    if k == 0 {
        if length == 0 {
            lemma_pow0(0);
        } else {
            lemma0_pow(length);
        }
    } else {
        let (lo, hi) = if i < j {
            (i, j)
        } else {
            (j, i)
        };
        lemma_digits_ordered(k, length, lo, hi);
        lemma_digits_in_base(k, length, lo);
        lemma_digits_in_base(k, length, hi);
        let a = digits(k, length, lo);
        let b = digits(k, length, hi);
        let p = choose|p: int|
            0 <= p < a.len() && p < b.len() && a.subrange(0, p) == b.subrange(0, p) && #[trigger] a[p]
                < b[p];
        assert(melody_at(notes, length, lo)[p] == notes[a[p] as int]);
        assert(melody_at(notes, length, hi)[p] == notes[b[p] as int]);
    }
}

} // verus!
