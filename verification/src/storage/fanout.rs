use crate::midi::{digit_char, render_pitch, render_pitches};
use crate::partition::{lemma_covers_tail, lemma_partition_length_is_least, partition_length};
use crate::sequences::{
    digits, lemma_digits_in_base, lemma_digits_len, lemma_digits_ordered, melody_at,
};
use crate::storage::{basename_for, join_windows, partition_scheme, window, PartitionScheme};
use vstd::arithmetic::div_mod::*;
use vstd::arithmetic::power::*;
use vstd::prelude::*;
use vstd::set_lib::*;

verus! {

/// Every pitch renders to exactly two characters.
pub open spec fn two_digit(pitches: Seq<u8>) -> bool {
    forall|i: int| 0 <= i < pitches.len() ==> #[trigger] pitches[i] < 100
}

/// Two concatenations that agree, with first parts of one length, agree part by part.
pub proof fn lemma_concat_split<A>(x1: Seq<A>, y1: Seq<A>, x2: Seq<A>, y2: Seq<A>)
    requires
        x1 + y1 == x2 + y2,
        x1.len() == x2.len(),
    ensures
        x1 == x2,
        y1 == y2,
{
    let whole = x1 + y1;
    assert(x1 =~= whole.subrange(0, x1.len() as int));
    assert(x2 =~= (x2 + y2).subrange(0, x2.len() as int));
    assert(y1 =~= whole.subrange(x1.len() as int, whole.len() as int));
    assert(y2 =~= (x2 + y2).subrange(x2.len() as int, whole.len() as int));
}

/// A run of two-digit pitches renders to twice as many characters.
pub proof fn lemma_render_len(pitches: Seq<u8>)
    requires
        two_digit(pitches),
    ensures
        render_pitches(pitches).len() == 2 * pitches.len(),
    decreases pitches.len(),
{
    if pitches.len() > 0 {
        lemma_render_len(pitches.drop_last());
    }
}

/// Two-digit pitches with the same rendering are the same.
pub proof fn lemma_render_pitch_injective(a: u8, b: u8)
    requires
        a < 100,
        b < 100,
        render_pitch(a) == render_pitch(b),
    ensures
        a == b,
{
    assert(render_pitch(a)[0] == render_pitch(b)[0]);
    assert(render_pitch(a)[1] == render_pitch(b)[1]);
    assert(digit_char(a as int / 10) == digit_char(b as int / 10));
    assert(digit_char(a as int % 10) == digit_char(b as int % 10));
}

/// Two runs of two-digit pitches of one length with the same rendering are the same.
pub proof fn lemma_render_injective(a: Seq<u8>, b: Seq<u8>)
    requires
        a.len() == b.len(),
        two_digit(a),
        two_digit(b),
        render_pitches(a) == render_pitches(b),
    ensures
        a == b,
    decreases a.len(),
{
    if a.len() == 0 {
        assert(a =~= b);
    } else {
        lemma_render_len(a.drop_last());
        lemma_render_len(b.drop_last());
        lemma_concat_split(
            render_pitches(a.drop_last()),
            render_pitch(a.last()),
            render_pitches(b.drop_last()),
            render_pitch(b.last()),
        );
        lemma_render_injective(a.drop_last(), b.drop_last());
        lemma_render_pitch_injective(a.last(), b.last());
        assert(a =~= a.drop_last().push(a.last()));
        assert(b =~= b.drop_last().push(b.last()));
    }
}

/// The windows of a run of two-digit pitches are runs of two-digit pitches.
pub proof fn lemma_window_two_digit(pitches: Seq<u8>, p: nat, w: nat)
    requires
        two_digit(pitches),
        (w + 1) * p <= pitches.len(),
    ensures
        two_digit(window(pitches, p, w)),
        window(pitches, p, w).len() == p,
{
    assert(0 <= w * p && w * p + p == (w + 1) * p) by (nonlinear_arith);
    let part = window(pitches, p, w);
    assert forall|i: int| 0 <= i < part.len() implies #[trigger] part[i] < 100 by {
        assert(part[i] == pitches[w * p + i]);
    }
}

/// Length of the joined windows of two-digit pitches: two characters for
/// each pitch and one separator between two windows.
pub proof fn lemma_join_len(pitches: Seq<u8>, p: nat, n: nat)
    requires
        two_digit(pitches),
        n * p <= pitches.len(),
    ensures
        join_windows(pitches, p, n).len() == if n == 0 {
            0
        } else {
            2 * p * n + n - 1
        },
    decreases n,
{
    if n == 0 {
    } else {
        assert((n - 1) * p + p == n * p && (n - 1) * p >= 0) by (nonlinear_arith)
            requires
                n >= 1,
        ;
        lemma_window_two_digit(pitches, p, (n - 1) as nat);
        lemma_render_len(window(pitches, p, (n - 1) as nat));
        if n > 1 {
            lemma_join_len(pitches, p, (n - 1) as nat);
            assert(2 * p * (n - 1) + 2 * p == 2 * p * n) by (nonlinear_arith);
        } else {
            assert(2 * p * 1 == 2 * p) by (nonlinear_arith);
        }
    }
}

/// Two melodies of two-digit pitches whose first `n` windows join to the
/// same text agree on the pitches of those windows.
pub proof fn lemma_join_injective(a: Seq<u8>, b: Seq<u8>, p: nat, n: nat)
    requires
        two_digit(a),
        two_digit(b),
        n * p <= a.len(),
        n * p <= b.len(),
        join_windows(a, p, n) == join_windows(b, p, n),
    ensures
        a.subrange(0, (n * p) as int) == b.subrange(0, (n * p) as int),
    decreases n,
{
    if n == 0 {
        assert(0 * p == 0) by (nonlinear_arith);
        assert(a.subrange(0, 0) =~= b.subrange(0, 0));
    } else {
        let last = (n - 1) as nat;
        assert(last * p + p == n * p && last * p >= 0) by (nonlinear_arith)
            requires
                last == n - 1,
                n >= 1,
        ;
        lemma_window_two_digit(a, p, last);
        lemma_window_two_digit(b, p, last);
        let wa = window(a, p, last);
        let wb = window(b, p, last);
        if n == 1 {
            lemma_render_injective(wa, wb);
        } else {
            lemma_join_len(a, p, last);
            lemma_join_len(b, p, last);
            let ja = join_windows(a, p, last);
            let jb = join_windows(b, p, last);
            lemma_concat_split(ja + seq!['/'], render_pitches(wa), jb + seq!['/'], render_pitches(wb));
            lemma_concat_split(ja, seq!['/'], jb, seq!['/']);
            lemma_render_injective(wa, wb);
            lemma_join_injective(a, b, p, last);
        }
        let pa = a.subrange(0, (n * p) as int);
        let pb = b.subrange(0, (n * p) as int);
        assert forall|i: int| 0 <= i < pa.len() implies pa[i] == pb[i] by {
            if i < last * p {
                assert(pa[i] == a.subrange(0, (last * p) as int)[i]);
                assert(pb[i] == b.subrange(0, (last * p) as int)[i]);
            } else {
                assert(pa[i] == wa[i - last * p]);
                assert(pb[i] == wb[i - last * p]);
            }
        }
        assert(pa =~= pb);
    }
}

/// The leading `h` digits of a position are the digits of the position
/// divided by the number of tails.
pub proof fn lemma_digits_prefix(k: nat, length: nat, h: nat, x: nat)
    requires
        k >= 1,
        h <= length,
    ensures
        pow(k as int, (length - h) as nat) >= 1,
        digits(k, length, x).subrange(0, h as int) == digits(
            k,
            h,
            (x / pow(k as int, (length - h) as nat) as nat) as nat,
        ),
    decreases length - h,
{
    lemma_pow_positive(k as int, (length - h) as nat);
    lemma_digits_len(k, length, x);
    if h == length {
        lemma_pow0(k as int);
        assert(x as int / 1 == x);
        assert(digits(k, length, x).subrange(0, h as int) =~= digits(k, length, x));
    } else {
        let shorter = (length - 1) as nat;
        let tails = pow(k as int, (shorter - h) as nat);
        lemma_digits_len(k, shorter, x / k);
        assert(digits(k, length, x).subrange(0, h as int) =~= digits(k, shorter, x / k).subrange(
            0,
            h as int,
        ));
        lemma_digits_prefix(k, shorter, h, x / k);
        assert(pow(k as int, (length - h) as nat) == k * tails) by {
            reveal(pow);
        }
        lemma_div_denominator(x as int, k as int, tails);
        assert((x / k) as int / tails == x as int / (k * tails));
        lemma_pow_positive(k as int, (shorter - h) as nat);
        lemma_div_pos_is_pos(x as int, k as int);
        lemma_div_pos_is_pos((x / k) as int, tails);
        lemma_div_pos_is_pos(x as int, k * tails);
    }
}

/// Two positions below `k^h` with the same `h` digits are the same.
pub proof fn lemma_digits_injective(k: nat, h: nat, x: nat, y: nat)
    requires
        k >= 1,
        x < pow(k as int, h),
        y < pow(k as int, h),
        digits(k, h, x) == digits(k, h, y),
    ensures
        x == y,
{
    if x < y {
        lemma_digits_ordered(k, h, x, y);
    } else if y < x {
        lemma_digits_ordered(k, h, y, x);
    }
}

/// What the scheme of `new` promises: the partitions fit into the melody,
/// and the melodies that share all their partition notes are no more than
/// a directory may hold.
pub proof fn lemma_scheme_tail(k: nat, l: nat, m: nat, d: nat)
    requires
        k >= 1,
        m >= 1,
        l <= u32::MAX,
        partition_scheme(k, l, m, d) is Ok,
        partition_scheme(k, l, m, d)->Ok_0.partition_depth >= 1,
    ensures
        ({
            let scheme = partition_scheme(k, l, m, d)->Ok_0;
            &&& scheme.melody_length == l
            &&& scheme.partition_depth * scheme.partition_length <= l
            &&& pow(
                k as int,
                (l - scheme.partition_depth * scheme.partition_length) as nat,
            ) <= m
        }),
{
    let scheme = partition_scheme(k, l, m, d)->Ok_0;
    if k == 1 || pow(k as int, l) <= m {
        assert(scheme.partition_depth * scheme.partition_length == 0) by (nonlinear_arith)
            requires
                scheme.partition_length == 0,
        ;
        if k == 1 {
            lemma1_pow(l);
        }
    } else {
        lemma_partition_length_is_least(k, l, m, d);
        lemma_covers_tail(k, l, m, d, partition_length(k, l, m, d));
    }
}

/// The positions in the enumeration of the melodies of the scheme's length
/// over `notes` whose melodies lie in the partition of the melody at `i`.
pub open spec fn partition_mates(notes: Seq<u8>, scheme: PartitionScheme, i: nat) -> Set<int> {
    Set::new(
        |j: int|
            0 <= j < pow(notes.len() as int, scheme.melody_length) && basename_for(
                scheme,
                melody_at(notes, scheme.melody_length, j as nat),
            ) == basename_for(scheme, melody_at(notes, scheme.melody_length, i)),
    )
}

/// No partition holds more melodies than a directory may hold: over notes
/// without repetition whose values are below 100, and under a scheme of
/// depth one or more that was built for at most `m` files per directory,
/// the melodies that share the partition of any one melody are at most `m`.
pub proof fn lemma_partition_within_max_files(notes: Seq<u8>, l: nat, m: nat, d: nat, i: nat)
    requires
        notes.no_duplicates(),
        two_digit(notes),
        m >= 1,
        l <= u32::MAX,
        partition_scheme(notes.len(), l, m, d) is Ok,
        partition_scheme(notes.len(), l, m, d)->Ok_0.partition_depth >= 1,
        i < pow(notes.len() as int, l),
    ensures
        partition_mates(notes, partition_scheme(notes.len(), l, m, d)->Ok_0, i).finite(),
        partition_mates(notes, partition_scheme(notes.len(), l, m, d)->Ok_0, i).len() <= m,
{
    let k = notes.len();
    let scheme = partition_scheme(k, l, m, d)->Ok_0;
    let mates = partition_mates(notes, scheme, i);
    if k == 0 {
        if l == 0 {
            lemma_pow0(0);
        } else {
            lemma0_pow(l);
        }
        let all = set_int_range(0, 1);
        lemma_int_range(0, 1);
        assert(mates.subset_of(all));
        lemma_len_subset(mates, all);
    } else {
        lemma_scheme_tail(k, l, m, d);
        let p = scheme.partition_length;
        let depth = scheme.partition_depth;
        let h = depth * p;
        let tails = pow(k as int, (l - h) as nat);
        lemma_pow_positive(k as int, (l - h) as nat);
        lemma_pow_adds(k as int, h, (l - h) as nat);
        let q = i as int / tails;
        let low = q * tails;
        let range = set_int_range(low, low + tails);
        lemma_int_range(low, low + tails);
        let mine = melody_at(notes, l, i);
        assert forall|j: int| mates.contains(j) implies range.contains(j) by {
            let theirs = melody_at(notes, l, j as nat);
            assert(join_windows(theirs, p, depth) == join_windows(mine, p, depth));
            lemma_melody_two_digit(notes, l, i);
            lemma_melody_two_digit(notes, l, j as nat);
            lemma_join_injective(theirs, mine, p, depth);
            lemma_digits_in_base(k, l, i);
            lemma_digits_in_base(k, l, j as nat);
            let di = digits(k, l, i);
            let dj = digits(k, l, j as nat);
            assert(di.subrange(0, h as int) =~= dj.subrange(0, h as int)) by {
                assert forall|at: int| 0 <= at < h implies di[at] == dj[at] by {
                    assert(theirs.subrange(0, h as int)[at] == mine.subrange(0, h as int)[at]);
                    assert(theirs[at] == notes[dj[at] as int]);
                    assert(mine[at] == notes[di[at] as int]);
                }
            }
            lemma_digits_prefix(k, l, h, i);
            lemma_digits_prefix(k, l, h, j as nat);
            let qi = (i / tails as nat) as nat;
            let qj = (j as nat / tails as nat) as nat;
            lemma_quotient_bound(i as int, pow(k as int, h), tails);
            lemma_quotient_bound(j, pow(k as int, h), tails);
            lemma_digits_injective(k, h, qi, qj);
            lemma_fundamental_div_mod(j, tails);
            lemma_mod_bound(j, tails);
            assert(tails * (j / tails) == (j / tails) * tails) by (nonlinear_arith);
        }
        assert(mates.subset_of(range));
        lemma_len_subset(mates, range);
    }
}

/// The melodies of the scheme's length over `notes` that lie in the
/// partition of the melody at position `i` of the enumeration.
pub open spec fn partition_melodies(notes: Seq<u8>, scheme: PartitionScheme, i: nat) -> Set<
    Seq<u8>,
> {
    partition_mates(notes, scheme, i).map(
        |j: int| melody_at(notes, scheme.melody_length, j as nat),
    )
}

/// No directory holds more files than it may: the melodies that share the
/// partition of any one melody are at most `m`, under the conditions of
/// `lemma_partition_within_max_files`.
pub proof fn lemma_partition_melodies_within_max_files(
    notes: Seq<u8>,
    l: nat,
    m: nat,
    d: nat,
    i: nat,
)
    requires
        notes.no_duplicates(),
        two_digit(notes),
        m >= 1,
        l <= u32::MAX,
        partition_scheme(notes.len(), l, m, d) is Ok,
        partition_scheme(notes.len(), l, m, d)->Ok_0.partition_depth >= 1,
        i < pow(notes.len() as int, l),
    ensures
        partition_melodies(notes, partition_scheme(notes.len(), l, m, d)->Ok_0, i).finite(),
        partition_melodies(notes, partition_scheme(notes.len(), l, m, d)->Ok_0, i).len() <= m,
        partition_melodies(notes, partition_scheme(notes.len(), l, m, d)->Ok_0, i).contains(
            melody_at(notes, l, i),
        ),
{
    let scheme = partition_scheme(notes.len(), l, m, d)->Ok_0;
    lemma_partition_within_max_files(notes, l, m, d, i);
    if notes.len() >= 1 {
        lemma_scheme_tail(notes.len(), l, m, d);
    }
    let mates = partition_mates(notes, scheme, i);
    let at = |j: int| melody_at(notes, scheme.melody_length, j as nat);
    lemma_map_size_bound(mates, partition_melodies(notes, scheme, i), at);
    assert(mates.contains(i as int));
    assert(at(i as int) == melody_at(notes, l, i));
}

/// A number below `high * tails` divided by `tails` is below `high`.
pub proof fn lemma_quotient_bound(x: int, high: int, tails: int)
    requires
        0 <= x < high * tails,
        tails > 0,
    ensures
        0 <= x / tails < high,
{
    lemma_fundamental_div_mod(x, tails);
    lemma_mod_bound(x, tails);
    let q = x / tails;
    assert(0 <= q < high) by (nonlinear_arith)
        requires
            x == tails * q + x % tails,
            0 <= x % tails < tails,
            0 <= x < high * tails,
            tails > 0,
    ;
}

/// Melodies over two-digit notes are runs of two-digit pitches.
pub proof fn lemma_melody_two_digit(notes: Seq<u8>, length: nat, index: nat)
    requires
        two_digit(notes),
        notes.len() >= 1,
    ensures
        two_digit(melody_at(notes, length, index)),
        melody_at(notes, length, index).len() == length,
{
    lemma_digits_in_base(notes.len(), length, index);
}

} // verus!
